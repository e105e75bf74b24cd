use vstd::prelude::*;

use crate::container::Container;
use crate::geometry::FRACTION_ONE;
use crate::geometry::Position;
use crate::geometry::ScissorRect;
use crate::geometry::fraction_length;
use crate::geometry::lemma_pivot_shift;
use crate::geometry::lemma_dynamic_size_scales;
use crate::geometry::lemma_trunc_div_double;
use crate::geometry::trunc_div;
use crate::geometry::lemma_scissor_within_viewport;
use crate::geometry::shifts_whole;
use crate::geometry::anchor_axis;
use crate::geometry::anchored;
use crate::geometry::scaled_length;
use crate::geometry::scissor;
use crate::geometry::scissor_of;
use crate::geometry::Size;
use crate::texture::GuiError;
use crate::texture::ImageFile;
use crate::texture::Texture;
use crate::texture::TextureCache;
use crate::texture::cached_after;
use crate::texture::distinct_paths;
use crate::texture::load_error;
use crate::texture::loads_from;
use crate::view::ContainerView;

verus! {

/// The uniform record shared by every container: the viewport and the scale
/// factor.
#[derive(Clone, Copy, Debug, PartialEq, Eq)]
pub struct Globals {
    pub resolution: [u32; 2],
    /// A fraction in parts of `FRACTION_ONE`.
    pub scale_factor: u32,
}

impl Globals {
    pub fn new(resolution: [u32; 2], scale_factor: u32) -> (r: Globals)
        ensures
            r == (Globals { resolution, scale_factor }),
    {
        Globals { resolution, scale_factor }
    }
}

/// The uniform record of one container: where it lies in pixels, how large
/// it is, and its color.
#[derive(Clone, Copy, Debug, PartialEq, Eq)]
pub struct ContainerLocals {
    /// The top left corner in pixels.
    pub position: [i32; 2],
    /// Width and height in pixels.
    pub size: [u32; 2],
    pub color: [u8; 4],
}

impl ContainerLocals {
    pub fn new(position: [i32; 2], size: [u32; 2], color: [u8; 4]) -> (r: ContainerLocals)
        ensures
            r == (ContainerLocals { position, size, color }),
    {
        ContainerLocals { position, size, color }
    }
}

/// The texture a container binds: the built-in white one, or a cached image
/// by handle.
#[derive(Clone, Copy, Debug, PartialEq, Eq, Structural)]
pub enum TextureBinding {
    Default,
    Cached(usize),
}

/// One draw of a frame: the container's index, which also selects its locals
/// record, and the rectangle the draw is clipped to.
#[derive(Clone, Copy, Debug, PartialEq, Eq, Structural)]
pub struct DrawCall {
    pub index: usize,
    pub scissor: ScissorRect,
}

/// The size in pixels of a view: a declared size resolves against the
/// viewport; a `Texture` view has its image's size times the scale factor.
pub open spec fn view_size(view: ContainerView, resolution: [u32; 2], scale_factor: u32, image: [u32; 2]) -> (int, int) {
    match view.spec_declared_size() {
        Some((w, h)) => (
            w.resolved(resolution[0] as int, scale_factor as int),
            h.resolved(resolution[1] as int, scale_factor as int),
        ),
        None => (scaled_length(image[0] as int, scale_factor as int), scaled_length(image[1] as int, scale_factor as int)),
    }
}

/// The top left corner in pixels of a container of a given size.
pub open spec fn container_origin(c: Container, resolution: [u32; 2], size: (int, int)) -> (int, int) {
    (
        anchored(c.screen_position.x as int, resolution[0] as int, c.pixel_position[0] as int, size.0, c.pivot.x as int),
        anchored(c.screen_position.y as int, resolution[1] as int, c.pixel_position[1] as int, size.1, c.pivot.y as int),
    )
}

/// The locals record of a container against a viewport, a scale factor and
/// the size of the image it binds.
pub open spec fn locals_of(c: Container, resolution: [u32; 2], scale_factor: u32, image: [u32; 2]) -> ContainerLocals {
    let size = view_size(c.view, resolution, scale_factor, image);
    let origin = container_origin(c, resolution, size);
    ContainerLocals {
        position: [origin.0 as i32, origin.1 as i32],
        size: [size.0 as u32, size.1 as u32],
        color: c.view.spec_color(),
    }
}

/// The draw of the container at `index`, or `None` where its rectangle is
/// empty or wholly outside the viewport.
pub open spec fn draw_of(c: Container, index: int, resolution: [u32; 2], scale_factor: u32, image: [u32; 2]) -> Option<DrawCall> {
    let l = locals_of(c, resolution, scale_factor, image);
    match scissor_of(l.position[0] as int, l.position[1] as int, l.size[0] as int, l.size[1] as int, resolution) {
        Some(s) => Some(DrawCall { index: index as usize, scissor: s }),
        None => None,
    }
}

/// The draws of the first `n` containers, in list order.
pub open spec fn draws_of(cs: Seq<Container>, images: Seq<[u32; 2]>, n: int, resolution: [u32; 2], scale_factor: u32) -> Seq<DrawCall>
    decreases n,
{
    if n <= 0 {
        seq![]
    } else {
        let before = draws_of(cs, images, n - 1, resolution, scale_factor);
        match draw_of(cs[n - 1], n - 1, resolution, scale_factor, images[n - 1]) {
            Some(d) => before.push(d),
            None => before,
        }
    }
}

/// The distinct image paths of the containers, in order of first use.
pub open spec fn texture_paths_of(cs: Seq<Container>) -> Seq<Seq<char>>
    decreases cs.len(),
{
    if cs.len() == 0 {
        seq![]
    } else {
        let before = texture_paths_of(cs.drop_last());
        match cs.last().view.spec_path() {
            Some(p) => cached_after(before, p),
            None => before,
        }
    }
}

/// Every textured container among the first `n` has an image that loads
/// from `files`.
pub open spec fn all_load(cs: Seq<Container>, files: Seq<ImageFile>, n: int) -> bool {
    forall|j: int| 0 <= j < n ==> ((#[trigger] cs[j]).view.spec_path() matches Some(p) ==> loads_from(files, p))
}

/// Container `i` is the first whose image does not load, and `e` is the
/// error of loading it.
pub open spec fn first_failure(cs: Seq<Container>, files: Seq<ImageFile>, i: int, e: GuiError) -> bool {
    &&& 0 <= i < cs.len()
    &&& all_load(cs, files, i)
    &&& match cs[i].view.spec_path() {
        Some(p) => !loads_from(files, p) && load_error(e, files, p),
        None => false,
    }
}

/// The image size a binding stands for.
pub open spec fn image_of(binding: TextureBinding, textures: Seq<Texture>) -> [u32; 2] {
    match binding {
        TextureBinding::Default => [2u32, 2u32],
        TextureBinding::Cached(h) => textures[h as int].dimensions,
    }
}

/// The container's binding is the one its view asks for: the built-in
/// texture without a path, else the cached image of its path.
pub open spec fn binds(binding: TextureBinding, c: Container, paths: Seq<Seq<char>>) -> bool {
    match c.view.spec_path() {
        None => binding is Default,
        Some(p) => binding matches TextureBinding::Cached(h) && h < paths.len() && paths[h as int] == p,
    }
}

/// The renderer's resource table: one locals record and one texture binding
/// per container, parallel to the container list, and the texture cache.
#[derive(Debug)]
pub struct Renderer {
    resolution: [u32; 2],
    scale_factor: u32,
    default_texture: Texture,
    textures: TextureCache,
    bindings: Vec<TextureBinding>,
    locals: Vec<ContainerLocals>,
}

impl Renderer {
    #[verifier::type_invariant]
    spec fn inv(&self) -> bool {
        &&& self.bindings@.len() == self.locals@.len()
        &&& self.default_texture.dimensions == [2u32, 2u32]
        &&& self.default_texture.well_formed()
        &&& forall|i: int| 0 <= i < self.bindings@.len() ==>
            (#[trigger] self.bindings@[i] matches TextureBinding::Cached(h) ==> h < self.textures.paths().len())
    }

    pub closed spec fn spec_resolution(&self) -> [u32; 2] {
        self.resolution
    }

    pub closed spec fn spec_scale_factor(&self) -> u32 {
        self.scale_factor
    }

    /// The texture cache.
    pub closed spec fn cache(&self) -> TextureCache {
        self.textures
    }

    /// The texture binding of each container.
    pub closed spec fn spec_bindings(&self) -> Seq<TextureBinding> {
        self.bindings@
    }

    /// The locals record of each container.
    pub closed spec fn spec_locals(&self) -> Seq<ContainerLocals> {
        self.locals@
    }

    /// The size of the image that each container binds.
    pub open spec fn image_sizes(&self) -> Seq<[u32; 2]> {
        self.spec_bindings().map_values(|b: TextureBinding| image_of(b, self.cache().textures()))
    }

    /// The table was built for these containers: one entry each, each bound
    /// to the texture its view asks for.
    pub open spec fn matches(&self, cs: Seq<Container>) -> bool {
        &&& cs.len() == self.spec_bindings().len()
        &&& forall|i: int| 0 <= i < cs.len() ==> binds(#[trigger] self.spec_bindings()[i], cs[i], self.cache().paths())
    }

    /// Every locals record is the one of its container at the current
    /// resolution and scale factor.
    pub open spec fn up_to_date(&self, cs: Seq<Container>) -> bool {
        &&& cs.len() == self.spec_locals().len()
        &&& forall|i: int| 0 <= i < cs.len() ==> #[trigger] self.spec_locals()[i]
            == locals_of(cs[i], self.spec_resolution(), self.spec_scale_factor(), self.image_sizes()[i])
    }

    /// The size in pixels of a container, `image` being the size of the image
    /// it binds.
    pub fn container_size(container: &Container, resolution: [u32; 2], scale_factor: u32, image: [u32; 2]) -> (r: [u32; 2])
        ensures
            r[0] == view_size(container.view, resolution, scale_factor, image).0,
            r[1] == view_size(container.view, resolution, scale_factor, image).1,
    {
        match &container.view {
            ContainerView::Simple { width, height, .. } => [
                width.resolve(resolution[0], scale_factor),
                height.resolve(resolution[1], scale_factor),
            ],
            ContainerView::CellTexture { width, height, .. } => [
                width.resolve(resolution[0], scale_factor),
                height.resolve(resolution[1], scale_factor),
            ],
            ContainerView::Texture { .. } => [
                Size::Fixed(image[0]).resolve(resolution[0], scale_factor),
                Size::Fixed(image[1]).resolve(resolution[1], scale_factor),
            ],
        }
    }

    /// The top left corner in pixels of a container of `width` by `height`.
    pub fn container_position(container: &Container, resolution: [u32; 2], width: u32, height: u32) -> (r: [i32; 2])
        ensures
            r[0] == container_origin(*container, resolution, (width as int, height as int)).0,
            r[1] == container_origin(*container, resolution, (width as int, height as int)).1,
    {
        [
            anchor_axis(container.screen_position.x, resolution[0], container.pixel_position[0], width, container.pivot.x),
            anchor_axis(container.screen_position.y, resolution[1], container.pixel_position[1], height, container.pivot.y),
        ]
    }

    /// The locals record of a container.
    fn locals_for(container: &Container, resolution: [u32; 2], scale_factor: u32, image: [u32; 2]) -> (r: ContainerLocals)
        ensures
            r == locals_of(*container, resolution, scale_factor, image),
    {
        let size = Renderer::container_size(container, resolution, scale_factor, image);
        let position = Renderer::container_position(container, resolution, size[0], size[1]);
        let r = ContainerLocals::new(position, size, container.view.color());
        proof {
            let l = locals_of(*container, resolution, scale_factor, image);
            assert(r.position =~= l.position);
            assert(r.size =~= l.size);
        }
        r
    }

    /// The distinct image paths of the containers, in order of first use:
    /// the files a caller reads before building a renderer.
    pub fn texture_paths(containers: &[Container]) -> (r: Vec<String>)
        ensures
            r@.map_values(|s: String| s@) == texture_paths_of(containers@),
    {
        let mut paths: Vec<String> = Vec::new();
        let mut i: usize = 0;
        while i < containers.len()
            invariant
                i <= containers@.len(),
                paths@.map_values(|s: String| s@) == texture_paths_of(containers@.subrange(0, i as int)),
            decreases containers@.len() - i,
        {
            proof {
                assert(containers@.subrange(0, i + 1).drop_last() =~= containers@.subrange(0, i as int));
                assert(containers@.subrange(0, i + 1).last() == containers@[i as int]);
            }
            match containers[i].view.path() {
                None => {},
                Some(p) => {
                    let ghost before = paths@.map_values(|s: String| s@);
                    let mut seen = false;
                    let mut k: usize = 0;
                    while k < paths.len()
                        invariant
                            k <= paths@.len(),
                            before == paths@.map_values(|s: String| s@),
                            seen == exists|j: int| 0 <= j < k && before[j] == p@,
                        decreases paths@.len() - k,
                    {
                        let same = paths[k] == *p;
                        proof {
                            assert(before[k as int] == paths@[k as int]@);
                            if same {
                                assert(before[k as int] == p@);
                            } else if seen {
                                let w = choose|j: int| 0 <= j < k && before[j] == p@;
                                assert(0 <= w < k + 1 && before[w] == p@);
                            } else {
                                assert forall|j: int| 0 <= j < k + 1 implies before[j] != p@ by {
                                    if j < k {
                                        assert(!(0 <= j < k && before[j] == p@));
                                    }
                                }
                            }
                        }
                        if same {
                            seen = true;
                        }
                        k += 1;
                    }
                    if !seen {
                        paths.push(p.clone());
                        proof {
                            assert(paths@.map_values(|s: String| s@) =~= before.push(p@));
                        }
                    }
                },
            }
            i += 1;
        }
        proof {
            assert(containers@.subrange(0, containers@.len() as int) =~= containers@);
        }
        paths
    }

    /// Builds the resource table: for each container, in order, the texture
    /// it binds (each image path decoded once, from its file among `files`)
    /// and its locals record at `resolution` and `scale_factor`.
    pub fn from_gui(resolution: [u32; 2], scale_factor: u32, containers: &[Container], files: &[ImageFile]) -> (r: Result<Renderer, GuiError>)
        ensures
            match r {
                Ok(renderer) => {
                    &&& renderer.spec_resolution() == resolution
                    &&& renderer.spec_scale_factor() == scale_factor
                    &&& renderer.matches(containers@)
                    &&& renderer.up_to_date(containers@)
                    &&& renderer.cache().paths() == texture_paths_of(containers@)
                    &&& renderer.cache().loads() == renderer.cache().paths().len()
                    &&& distinct_paths(renderer.cache().paths())
                },
                Err(e) => exists|i: int| first_failure(containers@, files@, i, e),
            },
            r is Ok <==> all_load(containers@, files@, containers@.len() as int),
    {
        let default_texture = Texture::default();
        let mut textures = TextureCache::new();
        let mut bindings: Vec<TextureBinding> = Vec::new();
        let mut locals: Vec<ContainerLocals> = Vec::new();
        let mut i: usize = 0;
        while i < containers.len()
            invariant
                i <= containers@.len(),
                bindings@.len() == i,
                locals@.len() == i,
                textures.paths() == texture_paths_of(containers@.subrange(0, i as int)),
                textures.paths().len() <= i,
                textures.loads() == textures.paths().len(),
                distinct_paths(textures.paths()),
                forall|h: int| 0 <= h < textures.paths().len() ==> loads_from(files@, #[trigger] textures.paths()[h]),
                all_load(containers@, files@, i as int),
                forall|j: int| 0 <= j < i ==> binds(#[trigger] bindings@[j], containers@[j], textures.paths()),
                forall|j: int| 0 <= j < i ==> #[trigger] locals@[j]
                    == locals_of(containers@[j], resolution, scale_factor, image_of(bindings@[j], textures.textures())),
            decreases containers@.len() - i,
        {
            proof {
                assert(containers@.subrange(0, i + 1).drop_last() =~= containers@.subrange(0, i as int));
                assert(containers@.subrange(0, i + 1).last() == containers@[i as int]);
            }
            let container = &containers[i];
            let ghost old_textures = textures;
            let binding = match container.view.path() {
                None => TextureBinding::Default,
                Some(p) => match textures.get_or_load(p, files) {
                    Ok(h) => TextureBinding::Cached(h),
                    Err(e) => {
                        proof {
                            assert(first_failure(containers@, files@, i as int, e));
                            assert(!all_load(containers@, files@, containers@.len() as int));
                        }
                        return Err(e);
                    },
                },
            };
            proof {
                assert forall|j: int| 0 <= j < i implies binds(#[trigger] bindings@[j], containers@[j], textures.paths()) by {
                    assert(binds(bindings@[j], containers@[j], old_textures.paths()));
                    if let TextureBinding::Cached(h) = bindings@[j] {
                        assert(textures.paths()[h as int] == old_textures.paths()[h as int]);
                    }
                }
                assert forall|h: int| 0 <= h < textures.paths().len() implies loads_from(files@, #[trigger] textures.paths()[h]) by {
                    if h < old_textures.paths().len() {
                        assert(textures.paths()[h] == old_textures.paths()[h]);
                        assert(loads_from(files@, old_textures.paths()[h]));
                    }
                }
                if let Some(p) = containers@[i as int].view.spec_path() {
                    if old_textures.paths().contains(p) {
                        let h = choose|h: int| 0 <= h < old_textures.paths().len() && old_textures.paths()[h] == p;
                        assert(loads_from(files@, old_textures.paths()[h]));
                    }
                    assert(loads_from(files@, p));
                }
                assert(all_load(containers@, files@, i + 1));
                assert forall|j: int| 0 <= j < i implies image_of(#[trigger] bindings@[j], textures.textures())
                    == image_of(bindings@[j], old_textures.textures()) by {
                    assert(binds(bindings@[j], containers@[j], old_textures.paths()));
                }
            }
            let image = match binding {
                TextureBinding::Default => default_texture.dimensions,
                TextureBinding::Cached(h) => textures.get(h).dimensions,
            };
            locals.push(Renderer::locals_for(container, resolution, scale_factor, image));
            bindings.push(binding);
            i += 1;
        }
        let len = textures.len();
        proof {
            assert(containers@.subrange(0, containers@.len() as int) =~= containers@);
        }
        let r = Renderer { resolution, scale_factor, default_texture, textures, bindings, locals };
        proof {
            assert forall|j: int| 0 <= j < containers@.len() implies #[trigger] r.spec_locals()[j]
                == locals_of(containers@[j], resolution, scale_factor, r.image_sizes()[j]) by {
                assert(r.image_sizes()[j] == image_of(r.spec_bindings()[j], r.cache().textures()));
            }
        }
        Ok(r)
    }

    /// Recomputes every container's locals record at a new resolution and
    /// scale factor, in place; the bindings and the cache stay as they are.
    pub fn resize(&mut self, resolution: [u32; 2], scale_factor: u32, containers: &[Container])
        requires
            old(self).matches(containers@),
        ensures
            final(self).spec_resolution() == resolution,
            final(self).spec_scale_factor() == scale_factor,
            final(self).spec_bindings() == old(self).spec_bindings(),
            final(self).cache() == old(self).cache(),
            final(self).matches(containers@),
            final(self).up_to_date(containers@),
    {
        proof {
            use_type_invariant(&*self);
        }
        let mut locals: Vec<ContainerLocals> = Vec::new();
        let mut i: usize = 0;
        while i < containers.len()
            invariant
                i <= containers@.len(),
                locals@.len() == i,
                self.matches(containers@),
                self.bindings@.len() == self.locals@.len(),
                forall|j: int| 0 <= j < i ==> #[trigger] locals@[j]
                    == locals_of(containers@[j], resolution, scale_factor, self.image_sizes()[j]),
            decreases containers@.len() - i,
        {
            let image = self.image_size(i);
            locals.push(Renderer::locals_for(&containers[i], resolution, scale_factor, image));
            i += 1;
        }
        self.locals = locals;
        self.resolution = resolution;
        self.scale_factor = scale_factor;
    }

    /// The size of the image bound to the container at `index`.
    fn image_size(&self, index: usize) -> (r: [u32; 2])
        requires
            index < self.spec_bindings().len(),
        ensures
            r == self.image_sizes()[index as int],
    {
        proof {
            use_type_invariant(self);
        }
        match self.bindings[index] {
            TextureBinding::Default => self.default_texture.dimensions,
            TextureBinding::Cached(h) => self.textures.get(h).dimensions,
        }
    }

    /// The draws of a frame, in list order so that later containers paint
    /// over earlier ones: each container whose rectangle meets the viewport,
    /// clipped to it; the others are skipped.
    pub fn render(&self, containers: &[Container]) -> (r: Vec<DrawCall>)
        requires
            self.matches(containers@),
        ensures
            r@ == draws_of(containers@, self.image_sizes(), containers@.len() as int, self.spec_resolution(), self.spec_scale_factor()),
    {
        let mut draws: Vec<DrawCall> = Vec::new();
        let mut i: usize = 0;
        while i < containers.len()
            invariant
                i <= containers@.len(),
                self.matches(containers@),
                draws@ == draws_of(containers@, self.image_sizes(), i as int, self.spec_resolution(), self.spec_scale_factor()),
            decreases containers@.len() - i,
        {
            let image = self.image_size(i);
            let size = Renderer::container_size(&containers[i], self.resolution, self.scale_factor, image);
            let position = Renderer::container_position(&containers[i], self.resolution, size[0], size[1]);
            match scissor(position[0], position[1], size[0], size[1], self.resolution) {
                Some(s) => draws.push(DrawCall { index: i, scissor: s }),
                None => {},
            }
            i += 1;
        }
        draws
    }

    /// Whether the table was built for these containers: one entry each,
    /// each bound to the texture its view asks for. Resizing and rendering
    /// require it.
    pub fn accepts(&self, containers: &[Container]) -> (r: bool)
        ensures
            r == self.matches(containers@),
    {
        proof {
            use_type_invariant(self);
        }
        if containers.len() != self.bindings.len() {
            return false;
        }
        let mut i: usize = 0;
        while i < containers.len()
            invariant
                i <= containers@.len(),
                containers@.len() == self.spec_bindings().len(),
                forall|j: int| 0 <= j < i ==> binds(#[trigger] self.spec_bindings()[j], containers@[j], self.cache().paths()),
            decreases containers@.len() - i,
        {
            let bound = match (containers[i].view.path(), self.bindings[i]) {
                (None, TextureBinding::Default) => true,
                (Some(p), TextureBinding::Cached(h)) => h < self.textures.len() && self.textures.get(h).path == *p,
                _ => false,
            };
            if !bound {
                return false;
            }
            i += 1;
        }
        true
    }

    /// The viewport in pixels.
    pub fn resolution(&self) -> (r: [u32; 2])
        ensures
            r == self.spec_resolution(),
    {
        self.resolution
    }

    /// The scale factor, a fraction in parts of `FRACTION_ONE`.
    pub fn scale_factor(&self) -> (r: u32)
        ensures
            r == self.spec_scale_factor(),
    {
        self.scale_factor
    }

    /// The globals record for the current viewport and scale factor.
    pub fn globals(&self) -> (r: Globals)
        ensures
            r == (Globals { resolution: self.spec_resolution(), scale_factor: self.spec_scale_factor() }),
    {
        Globals::new(self.resolution, self.scale_factor)
    }

    /// The locals records, one per container.
    pub fn locals(&self) -> (r: &Vec<ContainerLocals>)
        ensures
            r@ == self.spec_locals(),
    {
        &self.locals
    }

    /// The texture bindings, one per container.
    pub fn bindings(&self) -> (r: &Vec<TextureBinding>)
        ensures
            r@ == self.spec_bindings(),
    {
        &self.bindings
    }

    /// The texture cache.
    pub fn textures(&self) -> (r: &TextureCache)
        ensures
            *r == self.cache(),
    {
        &self.textures
    }

    /// The built-in texture of views without an image.
    pub fn default_texture(&self) -> (r: &Texture)
        ensures
            r.dimensions == [2u32, 2u32],
            r.well_formed(),
    {
        proof {
            use_type_invariant(self);
        }
        &self.default_texture
    }
}

/// A view whose declared sizes are fixed has the same pixel size at every
/// resolution: its logical size times the scale factor, truncated.
pub proof fn lemma_fixed_view_size(
    view: ContainerView,
    width: u32,
    height: u32,
    resolution_a: [u32; 2],
    resolution_b: [u32; 2],
    scale_factor: u32,
    image: [u32; 2],
)
    requires
        view.spec_declared_size() == Some((Size::Fixed(width), Size::Fixed(height))),
    ensures
        view_size(view, resolution_a, scale_factor, image)
            == (scaled_length(width as int, scale_factor as int), scaled_length(height as int, scale_factor as int)),
        view_size(view, resolution_a, scale_factor, image) == view_size(view, resolution_b, scale_factor, image),
{
}

/// A view whose declared sizes are dynamic has a pixel size that does not
/// depend on the scale factor: its fractions of the viewport, truncated.
pub proof fn lemma_dynamic_view_size(
    view: ContainerView,
    width: u32,
    height: u32,
    resolution: [u32; 2],
    scale_a: u32,
    scale_b: u32,
    image: [u32; 2],
)
    requires
        view.spec_declared_size() == Some((Size::Dynamic(width), Size::Dynamic(height))),
    ensures
        view_size(view, resolution, scale_a, image)
            == (fraction_length(width as int, resolution[0] as int), fraction_length(height as int, resolution[1] as int)),
        view_size(view, resolution, scale_a, image) == view_size(view, resolution, scale_b, image),
{
}

/// A container pivoted on its top left corner and the same container pivoted
/// on its bottom right corner have the same size, and top left corners that
/// lie exactly that size apart on each axis (where the anchor point is a
/// whole pixel or outside the container's extent, and nothing saturates).
pub proof fn lemma_pivot_corners(c: Container, resolution: [u32; 2], scale_factor: u32, image: [u32; 2])
    requires
        c.pivot == (Position { x: 0, y: 0 }),
        ({
            let size = view_size(c.view, resolution, scale_factor, image);
            &&& shifts_whole(c.screen_position.x as int, resolution[0] as int, c.pixel_position[0] as int, size.0)
            &&& shifts_whole(c.screen_position.y as int, resolution[1] as int, c.pixel_position[1] as int, size.1)
        }),
    ensures
        ({
            let far = Container { pivot: Position { x: FRACTION_ONE as i32, y: FRACTION_ONE as i32 }, ..c };
            let near_locals = locals_of(c, resolution, scale_factor, image);
            let far_locals = locals_of(far, resolution, scale_factor, image);
            &&& near_locals.size == far_locals.size
            &&& near_locals.position[0] - far_locals.position[0] == near_locals.size[0]
            &&& near_locals.position[1] - far_locals.position[1] == near_locals.size[1]
        }),
{
    let size = view_size(c.view, resolution, scale_factor, image);
    assert(0 <= size.0 <= u32::MAX && 0 <= size.1 <= u32::MAX);
    lemma_pivot_shift(c.screen_position.x as int, resolution[0] as int, c.pixel_position[0] as int, size.0);
    lemma_pivot_shift(c.screen_position.y as int, resolution[1] as int, c.pixel_position[1] as int, size.1);
}

/// Every draw of a frame is clipped to a non-empty rectangle within the
/// viewport.
pub proof fn lemma_draws_within_viewport(
    cs: Seq<Container>,
    images: Seq<[u32; 2]>,
    n: int,
    resolution: [u32; 2],
    scale_factor: u32,
)
    ensures
        forall|i: int| 0 <= i < draws_of(cs, images, n, resolution, scale_factor).len() ==> {
            let s = (#[trigger] draws_of(cs, images, n, resolution, scale_factor)[i]).scissor;
            &&& s.width > 0 && s.height > 0
            &&& s.x + s.width <= resolution[0]
            &&& s.y + s.height <= resolution[1]
        },
    decreases n,
{
    if n > 0 {
        lemma_draws_within_viewport(cs, images, n - 1, resolution, scale_factor);
        let l = locals_of(cs[n - 1], resolution, scale_factor, images[n - 1]);
        lemma_scissor_within_viewport(l.position[0] as int, l.position[1] as int, l.size[0] as int, l.size[1] as int, resolution);
        let before = draws_of(cs, images, n - 1, resolution, scale_factor);
        let all = draws_of(cs, images, n, resolution, scale_factor);
        if let Some(d) = draw_of(cs[n - 1], n - 1, resolution, scale_factor, images[n - 1]) {
            assert(all == before.push(d));
            assert forall|i: int| 0 <= i < all.len() implies {
                let s = (#[trigger] all[i]).scissor;
                &&& s.width > 0 && s.height > 0
                &&& s.x + s.width <= resolution[0]
                &&& s.y + s.height <= resolution[1]
            } by {
                if i < before.len() {
                    assert(all[i] == before[i]);
                }
            }
        }
    }
}

/// Containers that read the same image file are bound to one cached texture.
pub proof fn lemma_shared_path_shares_texture(
    first: TextureBinding,
    second: TextureBinding,
    a: Container,
    b: Container,
    paths: Seq<Seq<char>>,
)
    requires
        distinct_paths(paths),
        binds(first, a, paths),
        binds(second, b, paths),
        a.view.spec_path() == b.view.spec_path(),
    ensures
        first == second,
{
}

/// Doubling the viewport doubles, up to truncation, the locals record of a
/// container that has dynamic sizes and is anchored by its top left corner
/// with no pixel offset: each size and each coordinate at the larger
/// viewport is twice the one at the smaller viewport, give or take one pixel
/// (where nothing saturates). Halving the viewport is the same law read
/// backwards.
pub proof fn lemma_double_viewport(
    c: Container,
    small: [u32; 2],
    large: [u32; 2],
    scale_factor: u32,
    image: [u32; 2],
    width: u32,
    height: u32,
)
    requires
        large[0] == 2 * small[0],
        large[1] == 2 * small[1],
        c.pivot == (Position { x: 0, y: 0 }),
        c.pixel_position == [0i32, 0i32],
        c.view.spec_declared_size() == Some((Size::Dynamic(width), Size::Dynamic(height))),
        width * (2 * small[0]) / (FRACTION_ONE as int) <= u32::MAX,
        height * (2 * small[1]) / (FRACTION_ONE as int) <= u32::MAX,
        i32::MIN <= trunc_div(c.screen_position.x * large[0], FRACTION_ONE as int) <= i32::MAX,
        i32::MIN <= trunc_div(c.screen_position.y * large[1], FRACTION_ONE as int) <= i32::MAX,
        i32::MIN <= trunc_div(c.screen_position.x * small[0], FRACTION_ONE as int) <= i32::MAX,
        i32::MIN <= trunc_div(c.screen_position.y * small[1], FRACTION_ONE as int) <= i32::MAX,
    ensures
        ({
            let a = locals_of(c, small, scale_factor, image);
            let b = locals_of(c, large, scale_factor, image);
            &&& 0 <= b.size[0] - 2 * a.size[0] <= 1
            &&& 0 <= b.size[1] - 2 * a.size[1] <= 1
            &&& -1 <= b.position[0] - 2 * a.position[0] <= 1
            &&& -1 <= b.position[1] - 2 * a.position[1] <= 1
        }),
{
    lemma_dynamic_size_scales(width, small[0] as int, 2, scale_factor as int);
    lemma_dynamic_size_scales(height, small[1] as int, 2, scale_factor as int);
    let x = c.screen_position.x as int;
    let y = c.screen_position.y as int;
    assert(x * large[0] == 2 * (x * small[0])) by (nonlinear_arith)
        requires
            large[0] == 2 * small[0],
    ;
    assert(y * large[1] == 2 * (y * small[1])) by (nonlinear_arith)
        requires
            large[1] == 2 * small[1],
    ;
    lemma_trunc_div_double(x * small[0]);
    lemma_trunc_div_double(y * small[1]);
}

} // verus!
