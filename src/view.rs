use vstd::prelude::*;

use crate::geometry::Size;

verus! {

/// Opaque white: the tint of a textured view without a color of its own.
pub open spec fn white() -> [u8; 4] {
    [255u8, 255u8, 255u8, 255u8]
}

/// How a container is painted.
#[derive(Clone, Debug, PartialEq, Eq)]
#[allow(inconsistent_fields)]
pub enum ContainerView {
    /// A solid color of a given size.
    Simple { width: Size, height: Size, color: [u8; 4] },
    /// An image file, drawn at its own size, with an optional tint.
    Texture { path: String, color: Option<[u8; 4]> },
    /// A sprite sheet: an image file cut into cells of `cell_size` pixels.
    CellTexture { path: String, width: Size, height: Size, cell_size: [u32; 2], color: Option<[u8; 4]> },
}

impl ContainerView {
    /// The image file that the view reads, if any.
    pub open spec fn spec_path(self) -> Option<Seq<char>> {
        match self {
            ContainerView::Simple { .. } => None,
            ContainerView::Texture { path, .. } => Some(path@),
            ContainerView::CellTexture { path, .. } => Some(path@),
        }
    }

    /// The color written to the view's locals record: a simple view's color,
    /// or a textured view's tint, white by default.
    pub open spec fn spec_color(self) -> [u8; 4] {
        match self {
            ContainerView::Simple { color, .. } => color,
            ContainerView::Texture { color, .. } => match color {
                Some(c) => c,
                None => white(),
            },
            ContainerView::CellTexture { color, .. } => match color {
                Some(c) => c,
                None => white(),
            },
        }
    }

    /// The declared width and height; a `Texture` view declares none.
    pub open spec fn spec_declared_size(self) -> Option<(Size, Size)> {
        match self {
            ContainerView::Simple { width, height, .. } => Some((width, height)),
            ContainerView::Texture { .. } => None,
            ContainerView::CellTexture { width, height, .. } => Some((width, height)),
        }
    }

    /// The view of a new container: white, 426 by 240 logical pixels.
    pub fn default() -> (r: ContainerView)
        ensures
            r == (ContainerView::Simple { width: Size::Fixed(426), height: Size::Fixed(240), color: white() }),
    {
        ContainerView::Simple { width: Size::Fixed(426), height: Size::Fixed(240), color: [255u8, 255u8, 255u8, 255u8] }
    }

    /// The image file that the view reads, if any.
    pub fn path(&self) -> (r: Option<&String>)
        ensures
            match r {
                Some(p) => self.spec_path() == Some(p@),
                None => self.spec_path() is None,
            },
    {
        match self {
            ContainerView::Simple { .. } => None,
            ContainerView::Texture { path, .. } => Some(path),
            ContainerView::CellTexture { path, .. } => Some(path),
        }
    }

    /// The color written to the view's locals record.
    pub fn color(&self) -> (r: [u8; 4])
        ensures
            r == self.spec_color(),
    {
        match self {
            ContainerView::Simple { color, .. } => *color,
            ContainerView::Texture { color, .. } => match color {
                Some(c) => *c,
                None => [255u8, 255u8, 255u8, 255u8],
            },
            ContainerView::CellTexture { color, .. } => match color {
                Some(c) => *c,
                None => [255u8, 255u8, 255u8, 255u8],
            },
        }
    }
}

} // verus!
