use vstd::prelude::*;

use image::ColorType as ImageColor;
use image::GenericImageView;

verus! {

/// `image::ImageError`, the image crate's error, carried as it is in
/// `GuiError::ImageError`.
#[verifier::external_type_specification]
#[verifier::external_body]
pub struct ExImageError(image::ImageError);


/// The layout of a decoded image's pixels.
#[derive(Clone, Copy, Debug, PartialEq, Eq, Structural)]
pub enum ColorType {
    L8,
    La8,
    Rgb8,
    Rgba8,
    L16,
    La16,
    Rgb16,
    Rgba16,
    Bgr8,
    Bgra8,
    /// A layout that the decoder may add later.
    Other,
}

/// The GPU pixel format a texture is uploaded in.
#[derive(Clone, Copy, Debug, PartialEq, Eq, Structural)]
pub enum TextureFormat {
    R8Unorm,
    Rg8Unorm,
    Rgba8UnormSrgb,
    R16Uint,
    Rg16Uint,
    Rgba16Uint,
    Bgra8UnormSrgb,
}

/// Why a texture, or a renderer, could not be made.
#[derive(Debug)]
pub enum GuiError {
    /// The file at this path could not be read, or its contents were not
    /// supplied.
    IoError { path: String },
    /// The image could not be decoded, or its format is not known.
    ImageError(image::ImageError),
    /// The image decoded to a pixel layout that no texture format holds.
    UnsupportedColorType(ColorType),
}

/// The name of a pixel layout.
pub open spec fn color_type_name(color: ColorType) -> Seq<char> {
    match color {
        ColorType::L8 => "L8"@,
        ColorType::La8 => "La8"@,
        ColorType::Rgb8 => "Rgb8"@,
        ColorType::Rgba8 => "Rgba8"@,
        ColorType::L16 => "L16"@,
        ColorType::La16 => "La16"@,
        ColorType::Rgb16 => "Rgb16"@,
        ColorType::Rgba16 => "Rgba16"@,
        ColorType::Bgr8 => "Bgr8"@,
        ColorType::Bgra8 => "Bgra8"@,
        ColorType::Other => "Other"@,
    }
}

/// The name of a pixel layout.
pub fn color_type_str(color: ColorType) -> (r: &'static str)
    ensures
        r@ == color_type_name(color),
{
    proof {
        reveal_strlit("L8");
        reveal_strlit("La8");
        reveal_strlit("Rgb8");
        reveal_strlit("Rgba8");
        reveal_strlit("L16");
        reveal_strlit("La16");
        reveal_strlit("Rgb16");
        reveal_strlit("Rgba16");
        reveal_strlit("Bgr8");
        reveal_strlit("Bgra8");
        reveal_strlit("Other");
    }
    match color {
        ColorType::L8 => "L8",
        ColorType::La8 => "La8",
        ColorType::Rgb8 => "Rgb8",
        ColorType::Rgba8 => "Rgba8",
        ColorType::L16 => "L16",
        ColorType::La16 => "La16",
        ColorType::Rgb16 => "Rgb16",
        ColorType::Rgba16 => "Rgba16",
        ColorType::Bgr8 => "Bgr8",
        ColorType::Bgra8 => "Bgra8",
        ColorType::Other => "Other",
    }
}

/// Relies on the `Display` impl of `image::ImageError`: the error's message.
#[verifier::external_body]
fn image_error_message(error: &image::ImageError) -> (r: String) {
    error.to_string()
}

impl GuiError {
    /// A message for the error: the path of a file that could not be read,
    /// the image crate's own message, or the unsupported pixel layout.
    pub fn to_text(&self) -> (r: String)
        ensures
            self matches GuiError::IoError { path } ==> r@ == "cannot read "@ + path@,
            self matches GuiError::UnsupportedColorType(c) ==> r@ == "unsupported color type: "@
                + color_type_name(*c),
    {
        proof {
            reveal_strlit("cannot read ");
            reveal_strlit("unsupported color type: ");
        }
        match self {
            GuiError::IoError { path } => {
                let mut out = String::from_str("cannot read ");
                out.append(path.as_str());
                out
            },
            GuiError::ImageError(e) => image_error_message(e),
            GuiError::UnsupportedColorType(c) => {
                let mut out = String::from_str("unsupported color type: ");
                out.append(color_type_str(*c));
                out
            },
        }
    }
}

/// The texture format for a pixel layout: 8 and 16 bit luminance, luminance
/// with alpha, RGBA and BGRA have one; the others none.
pub open spec fn spec_texture_format(color: ColorType) -> Option<TextureFormat> {
    match color {
        ColorType::L8 => Some(TextureFormat::R8Unorm),
        ColorType::La8 => Some(TextureFormat::Rg8Unorm),
        ColorType::Rgba8 => Some(TextureFormat::Rgba8UnormSrgb),
        ColorType::L16 => Some(TextureFormat::R16Uint),
        ColorType::La16 => Some(TextureFormat::Rg16Uint),
        ColorType::Rgba16 => Some(TextureFormat::Rgba16Uint),
        ColorType::Bgra8 => Some(TextureFormat::Bgra8UnormSrgb),
        _ => None,
    }
}

/// The texture format for a pixel layout, or `UnsupportedColorType`.
pub fn texture_format(color: ColorType) -> (r: Result<TextureFormat, GuiError>)
    ensures
        match spec_texture_format(color) {
            Some(f) => r matches Ok(g) && g == f,
            None => r matches Err(GuiError::UnsupportedColorType(c)) && c == color,
        },
{
    match color {
        ColorType::L8 => Ok(TextureFormat::R8Unorm),
        ColorType::La8 => Ok(TextureFormat::Rg8Unorm),
        ColorType::Rgba8 => Ok(TextureFormat::Rgba8UnormSrgb),
        ColorType::L16 => Ok(TextureFormat::R16Uint),
        ColorType::La16 => Ok(TextureFormat::Rg16Uint),
        ColorType::Rgba16 => Ok(TextureFormat::Rgba16Uint),
        ColorType::Bgra8 => Ok(TextureFormat::Bgra8UnormSrgb),
        _ => Err(GuiError::UnsupportedColorType(color)),
    }
}

/// The size and pixel layout of the image that the image crate decodes from
/// `contents`, in the format that the extension of `path` names; `None` where
/// the extension names no known format or the contents do not decode.
pub uninterp spec fn decoded_of(path: Seq<char>, contents: Seq<u8>) -> Option<([u32; 2], ColorType)>;

/// Relies on `image::ImageFormat::from_path` (the format from the path's
/// extension), `image::load_from_memory_with_format` (the decoding), and the
/// decoded image's `width`, `height`, `color` and `into_bytes`.
#[verifier::external_body]
fn decode(path: &str, contents: &[u8]) -> (r: Result<([u32; 2], ColorType, Vec<u8>), image::ImageError>)
    ensures
        match r {
            Ok((d, c, _)) => decoded_of(path@, contents@) == Some((d, c)),
            Err(_) => decoded_of(path@, contents@) is None,
        },
{
    let image = image::load_from_memory_with_format(contents, image::ImageFormat::from_path(path)?)?;
    let color = match image.color() {
        ImageColor::L8 => ColorType::L8,
        ImageColor::La8 => ColorType::La8,
        ImageColor::Rgb8 => ColorType::Rgb8,
        ImageColor::Rgba8 => ColorType::Rgba8,
        ImageColor::L16 => ColorType::L16,
        ImageColor::La16 => ColorType::La16,
        ImageColor::Rgb16 => ColorType::Rgb16,
        ImageColor::Rgba16 => ColorType::Rgba16,
        ImageColor::Bgr8 => ColorType::Bgr8,
        ImageColor::Bgra8 => ColorType::Bgra8,
        _ => ColorType::Other,
    };
    Ok(([image.width(), image.height()], color, image.into_bytes()))
}

/// The decoded image has a pixel layout that a texture format holds.
pub open spec fn decodes_to_texture(path: Seq<char>, contents: Seq<u8>) -> bool {
    decoded_of(path, contents) matches Some((_, c)) && spec_texture_format(c) is Some
}

/// `e` is the error that decoding `contents` as the image at `path` gives:
/// an image error where nothing decodes, else the unsupported pixel layout.
pub open spec fn decode_error(e: GuiError, path: Seq<char>, contents: Seq<u8>) -> bool {
    match decoded_of(path, contents) {
        None => e is ImageError,
        Some((_, c)) => e matches GuiError::UnsupportedColorType(d) && d == c && spec_texture_format(c) is None,
    }
}

/// A decoded image, ready to be uploaded to the GPU.
#[derive(Debug)]
pub struct Texture {
    /// The file the image was read from; empty for the built-in texture.
    pub path: String,
    /// Width and height in pixels.
    pub dimensions: [u32; 2],
    /// The layout of the decoded pixels.
    pub color: ColorType,
    /// The format the pixels are uploaded in.
    pub format: TextureFormat,
    /// The pixels, row by row.
    pub pixels: Vec<u8>,
}

impl Texture {
    /// The format of the texture is the one that its pixel layout maps to.
    pub open spec fn well_formed(&self) -> bool {
        spec_texture_format(self.color) == Some(self.format)
    }

    /// A texture from a decoded image, if its pixel layout has a texture
    /// format; `UnsupportedColorType` otherwise.
    pub fn from_decoded(path: &str, dimensions: [u32; 2], color: ColorType, pixels: Vec<u8>) -> (r: Result<Texture, GuiError>)
        ensures
            match spec_texture_format(color) {
                Some(f) => r matches Ok(t) && t.path@ == path@ && t.dimensions == dimensions && t.color == color
                    && t.format == f && t.pixels@ == pixels@,
                None => r matches Err(GuiError::UnsupportedColorType(c)) && c == color,
            },
    {
        match texture_format(color) {
            Ok(format) => Ok(Texture { path: path.to_owned(), dimensions, color, format, pixels }),
            Err(e) => Err(e),
        }
    }

    /// Decodes the contents of the image file at `path`: its extension names
    /// the format, and the decoded pixel layout must have a texture format.
    pub fn from_path(path: &str, contents: &[u8]) -> (r: Result<Texture, GuiError>)
        ensures
            r is Ok <==> decodes_to_texture(path@, contents@),
            r matches Ok(t) ==> t.path@ == path@ && t.well_formed()
                && decoded_of(path@, contents@) == Some((t.dimensions, t.color)),
            r matches Err(e) ==> decode_error(e, path@, contents@),
    {
        match decode(path, contents) {
            Ok((dimensions, color, pixels)) => Texture::from_decoded(path, dimensions, color, pixels),
            Err(e) => Err(GuiError::ImageError(e)),
        }
    }

    /// The texture of views without an image: two by two opaque white RGBA
    /// pixels.
    pub fn default() -> (r: Texture)
        ensures
            r.path@.len() == 0,
            r.dimensions == [2u32, 2u32],
            r.color == ColorType::Rgba8,
            r.format == TextureFormat::Rgba8UnormSrgb,
            r.pixels@ == Seq::new(16, |i: int| 255u8),
            r.well_formed(),
    {
        let pixels: Vec<u8> = vec![255u8; 16];
        proof {
            assert(pixels@ =~= Seq::new(16, |i: int| 255u8));
        }
        Texture {
            path: String::new(),
            dimensions: [2u32, 2u32],
            color: ColorType::Rgba8,
            format: TextureFormat::Rgba8UnormSrgb,
            pixels,
        }
    }
}

/// The contents of an image file, read by the caller.
#[derive(Debug)]
pub struct ImageFile {
    pub path: String,
    pub contents: Vec<u8>,
}

/// No two entries of `paths` are equal.
pub open spec fn distinct_paths(paths: Seq<Seq<char>>) -> bool {
    forall|i: int, j: int| 0 <= i < paths.len() && 0 <= j < paths.len() && i != j ==> paths[i] != paths[j]
}

/// The cached paths once `path` is loaded: unchanged if it was cached, else
/// with `path` appended.
pub open spec fn cached_after(paths: Seq<Seq<char>>, path: Seq<char>) -> Seq<Seq<char>> {
    if paths.contains(path) {
        paths
    } else {
        paths.push(path)
    }
}

/// The index of the first of the first `n` files that is the one at `path`.
pub open spec fn first_file(files: Seq<ImageFile>, path: Seq<char>, n: int) -> Option<int>
    decreases n,
{
    if n <= 0 {
        None
    } else {
        match first_file(files, path, n - 1) {
            Some(k) => Some(k),
            None => if files[n - 1].path@ == path {
                Some(n - 1)
            } else {
                None
            },
        }
    }
}

/// The contents of the first file of `files` that is the one at `path`.
pub open spec fn file_for(files: Seq<ImageFile>, path: Seq<char>) -> Option<Seq<u8>> {
    match first_file(files, path, files.len() as int) {
        Some(k) => Some(files[k].contents@),
        None => None,
    }
}

/// The image at `path` loads from `files`: its file is there and decodes to
/// a pixel layout that a texture format holds.
pub open spec fn loads_from(files: Seq<ImageFile>, path: Seq<char>) -> bool {
    file_for(files, path) matches Some(b) && decodes_to_texture(path, b)
}

/// `e` is the error of loading the image at `path` from `files`: `IoError`
/// where no file is there, else the error of decoding the first one.
pub open spec fn load_error(e: GuiError, files: Seq<ImageFile>, path: Seq<char>) -> bool {
    match file_for(files, path) {
        None => e matches GuiError::IoError { path: p } && p@ == path,
        Some(b) => decode_error(e, path, b),
    }
}

/// Once some of the first `m` files is the one at `path`, the first such
/// file stays the first among more files.
proof fn lemma_first_file_stays(files: Seq<ImageFile>, path: Seq<char>, m: int, n: int)
    requires
        first_file(files, path, m) is Some,
        m <= n,
    ensures
        first_file(files, path, n) == first_file(files, path, m),
    decreases n - m,
{
    if m < n {
        lemma_first_file_stays(files, path, m, n - 1);
    }
}

/// Finds the first file of `path` among `files`.
fn find_file(files: &[ImageFile], path: &String) -> (r: Option<usize>)
    ensures
        match r {
            Some(k) => k < files@.len() && first_file(files@, path@, files@.len() as int) == Some(k as int),
            None => first_file(files@, path@, files@.len() as int) is None,
        },
{
    let mut k: usize = 0;
    while k < files.len()
        invariant
            k <= files@.len(),
            first_file(files@, path@, k as int) is None,
        decreases files@.len() - k,
    {
        if files[k].path == *path {
            proof {
                lemma_first_file_stays(files@, path@, k + 1, files@.len() as int);
            }
            return Some(k);
        }
        k += 1;
    }
    None
}

/// Decoded textures keyed by path: each path is decoded at most once, and a
/// texture's handle is its index, which never changes.
#[derive(Debug)]
pub struct TextureCache {
    textures: Vec<Texture>,
    loads: usize,
}

impl TextureCache {
    #[verifier::type_invariant]
    spec fn inv(&self) -> bool {
        &&& distinct_paths(self.paths())
        &&& forall|h: int| 0 <= h < self.textures@.len() ==> (#[trigger] self.textures@[h]).well_formed()
    }

    /// The cached paths, by handle.
    pub open spec fn paths(&self) -> Seq<Seq<char>> {
        self.textures().map_values(|t: Texture| t.path@)
    }

    /// The cached textures, by handle.
    pub closed spec fn textures(&self) -> Seq<Texture> {
        self.textures@
    }

    /// How many images have been decoded.
    pub closed spec fn loads(&self) -> nat {
        self.loads as nat
    }

    /// An empty cache.
    pub fn new() -> (r: TextureCache)
        ensures
            r.paths().len() == 0,
            r.loads() == 0,
    {
        let r = TextureCache { textures: Vec::new(), loads: 0 };
        proof {
            assert(r.paths() =~= Seq::<Seq<char>>::empty());
        }
        r
    }

    /// The handle of the texture of `path`, if it is cached.
    pub fn find(&self, path: &String) -> (r: Option<usize>)
        ensures
            match r {
                Some(h) => h < self.paths().len() && self.paths()[h as int] == path@,
                None => !self.paths().contains(path@),
            },
    {
        let mut h: usize = 0;
        while h < self.textures.len()
            invariant
                h <= self.textures@.len(),
                forall|j: int| 0 <= j < h ==> self.paths()[j] != path@,
            decreases self.textures@.len() - h,
        {
            if self.textures[h].path == *path {
                return Some(h);
            }
            h += 1;
        }
        None
    }

    /// The number of cached textures.
    pub fn len(&self) -> (r: usize)
        ensures
            r == self.paths().len(),
            distinct_paths(self.paths()),
    {
        proof {
            use_type_invariant(self);
        }
        self.textures.len()
    }

    /// The number of images decoded so far.
    pub fn load_count(&self) -> (r: usize)
        ensures
            r == self.loads(),
    {
        self.loads
    }

    /// The texture of a handle.
    pub fn get(&self, handle: usize) -> (r: &Texture)
        requires
            handle < self.paths().len(),
        ensures
            *r == self.textures()[handle as int],
            r.path@ == self.paths()[handle as int],
            r.well_formed(),
    {
        proof {
            use_type_invariant(self);
        }
        &self.textures[handle as usize]
    }

    /// The handle of the texture of `path`: the cached one if there is one;
    /// else the image is decoded from the contents of its file among
    /// `files`, once, and cached under a new handle. On failure the cache is
    /// left as it was.
    pub fn get_or_load(&mut self, path: &String, files: &[ImageFile]) -> (r: Result<usize, GuiError>)
        requires
            old(self).loads() < usize::MAX,
        ensures
            match r {
                Ok(h) => {
                    &&& final(self).paths() == cached_after(old(self).paths(), path@)
                    &&& h < final(self).paths().len()
                    &&& final(self).paths()[h as int] == path@
                    &&& forall|j: int| 0 <= j < old(self).paths().len()
                        ==> final(self).textures()[j] == old(self).textures()[j]
                    &&& final(self).loads() == old(self).loads()
                        + if old(self).paths().contains(path@) { 0int } else { 1int }
                    &&& !old(self).paths().contains(path@) ==> (file_for(files@, path@) matches Some(b)
                        && decoded_of(path@, b) == Some((final(self).textures()[h as int].dimensions,
                        final(self).textures()[h as int].color)))
                },
                Err(e) => {
                    &&& *final(self) == *old(self)
                    &&& !old(self).paths().contains(path@)
                    &&& load_error(e, files@, path@)
                },
            },
            distinct_paths(final(self).paths()),
            old(self).paths().contains(path@) ==> r is Ok,
            !old(self).paths().contains(path@) ==> (r is Ok <==> loads_from(files@, path@)),
    {
        proof {
            use_type_invariant(&*self);
        }
        match self.find(path) {
            Some(h) => Ok(h),
            None => {
                let k = match find_file(files, path) {
                    Some(k) => k,
                    None => return Err(GuiError::IoError { path: path.clone() }),
                };
                let texture = match Texture::from_path(path.as_str(), files[k].contents.as_slice()) {
                    Ok(t) => t,
                    Err(e) => return Err(e),
                };
                let ghost before = self.paths();
                let mut textures: Vec<Texture> = Vec::new();
                std::mem::swap(&mut textures, &mut self.textures);
                textures.push(texture);
                proof {
                    assert(textures@.map_values(|t: Texture| t.path@) =~= before.push(path@));
                }
                self.textures = textures;
                self.loads = self.loads + 1;
                Ok(self.textures.len() - 1)
            },
        }
    }
}

/// Loading a path a second time decodes nothing and gives the handle of the
/// first load: once `path` is cached, caching it again changes nothing, and
/// it stands under a single handle.
pub proof fn lemma_second_load_hits_cache(paths: Seq<Seq<char>>, path: Seq<char>, first: int, second: int)
    requires
        distinct_paths(paths),
        0 <= first < cached_after(paths, path).len(),
        0 <= second < cached_after(cached_after(paths, path), path).len(),
        cached_after(paths, path)[first] == path,
        cached_after(cached_after(paths, path), path)[second] == path,
    ensures
        cached_after(cached_after(paths, path), path) == cached_after(paths, path),
        first == second,
        distinct_paths(cached_after(paths, path)),
{
    let once = cached_after(paths, path);
    if !paths.contains(path) {
        assert(once[paths.len() as int] == path);
        assert forall|i: int, j: int| 0 <= i < once.len() && 0 <= j < once.len() && i != j
            implies once[i] != once[j] by {
            if i < paths.len() && j == paths.len() {
                assert(once[i] == paths[i]);
            } else if j < paths.len() && i == paths.len() {
                assert(once[j] == paths[j]);
            } else if i < paths.len() && j < paths.len() {
                assert(once[i] == paths[i] && once[j] == paths[j]);
            }
        }
    }
    assert(once.contains(path));
}

} // verus!
