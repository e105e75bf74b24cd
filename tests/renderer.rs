use gui::geometry::ScissorRect;
use gui::renderer::ContainerLocals;
use gui::renderer::DrawCall;
use gui::renderer::Globals;
use gui::renderer::TextureBinding;
use gui::texture::ColorType;
use gui::texture::ImageFile;
use gui::texture::TextureCache;
use gui::texture::TextureFormat;
use gui::texture::texture_format;
use gui::Container;
use gui::ContainerView;
use gui::GuiError;
use gui::Layout;
use gui::Position;
use gui::Renderer;
use gui::Size;
use gui::Texture;
use gui::Widget;
use gui::FRACTION_ONE;

fn png(width: u32, height: u32, color: image::ColorType, channels: usize) -> Vec<u8> {
    let data = vec![200u8; width as usize * height as usize * channels];
    let mut out: Vec<u8> = Vec::new();
    image::codecs::png::PngEncoder::new(&mut out).encode(&data, width, height, color).unwrap();
    out
}

fn rgba_png(width: u32, height: u32) -> Vec<u8> {
    png(width, height, image::ColorType::Rgba8, 4)
}

fn file(path: &str, contents: Vec<u8>) -> ImageFile {
    ImageFile { path: path.to_string(), contents }
}

fn textured(label: &str, path: &str) -> Container {
    let mut c = Container::new(label);
    c.view = ContainerView::Texture { path: path.to_string(), color: None };
    c
}

#[test]
fn texture_decodes_png() {
    let t = Texture::from_path("img.png", &rgba_png(3, 2)).unwrap();
    assert_eq!(t.path, "img.png");
    assert_eq!(t.dimensions, [3, 2]);
    assert_eq!(t.color, ColorType::Rgba8);
    assert_eq!(t.format, TextureFormat::Rgba8UnormSrgb);
    assert_eq!(t.pixels.len(), 24);
    let l = Texture::from_path("gray.png", &png(2, 2, image::ColorType::L8, 1)).unwrap();
    assert_eq!(l.color, ColorType::L8);
    assert_eq!(l.format, TextureFormat::R8Unorm);
}

#[test]
fn texture_rejects_unsupported_color_type() {
    let r = Texture::from_path("rgb.png", &png(2, 2, image::ColorType::Rgb8, 3));
    assert!(matches!(r, Err(GuiError::UnsupportedColorType(ColorType::Rgb8))));
}

#[test]
fn texture_rejects_bad_input() {
    assert!(matches!(Texture::from_path("img.unknown", &rgba_png(2, 2)), Err(GuiError::ImageError(_))));
    assert!(matches!(Texture::from_path("img.png", &[1, 2, 3]), Err(GuiError::ImageError(_))));
}

#[test]
fn texture_formats() {
    assert_eq!(texture_format(ColorType::La8).unwrap(), TextureFormat::Rg8Unorm);
    assert_eq!(texture_format(ColorType::L16).unwrap(), TextureFormat::R16Uint);
    assert_eq!(texture_format(ColorType::La16).unwrap(), TextureFormat::Rg16Uint);
    assert_eq!(texture_format(ColorType::Rgba16).unwrap(), TextureFormat::Rgba16Uint);
    assert_eq!(texture_format(ColorType::Bgra8).unwrap(), TextureFormat::Bgra8UnormSrgb);
    assert!(matches!(texture_format(ColorType::Bgr8), Err(GuiError::UnsupportedColorType(ColorType::Bgr8))));
    assert!(matches!(texture_format(ColorType::Rgb16), Err(GuiError::UnsupportedColorType(ColorType::Rgb16))));
}

#[test]
fn default_texture_is_white() {
    let t = Texture::default();
    assert_eq!(t.dimensions, [2, 2]);
    assert_eq!(t.pixels, vec![255u8; 16]);
    assert_eq!(t.format, TextureFormat::Rgba8UnormSrgb);
}

#[test]
fn cache_loads_each_path_once() {
    let files = vec![file("a.png", rgba_png(2, 2)), file("b.png", rgba_png(4, 4))];
    let mut cache = TextureCache::new();
    let first = cache.get_or_load(&"a.png".to_string(), &files).unwrap();
    assert_eq!(cache.load_count(), 1);
    let second = cache.get_or_load(&"a.png".to_string(), &files).unwrap();
    assert_eq!(first, second);
    assert!(std::ptr::eq(cache.get(first), cache.get(second)));
    assert_eq!(cache.load_count(), 1);
    let other = cache.get_or_load(&"b.png".to_string(), &files).unwrap();
    assert_ne!(other, first);
    assert_eq!(cache.load_count(), 2);
    assert_eq!(cache.len(), 2);
    assert_eq!(cache.get(other).dimensions, [4, 4]);
    assert_eq!(cache.find(&"b.png".to_string()), Some(other));
}

#[test]
fn cache_reports_missing_file() {
    let mut cache = TextureCache::new();
    let r = cache.get_or_load(&"none.png".to_string(), &[]);
    assert!(matches!(r, Err(GuiError::IoError { ref path }) if path == "none.png"));
    assert_eq!(cache.len(), 0);
    assert_eq!(cache.load_count(), 0);
}

#[test]
fn containers_sharing_a_path_share_a_texture() {
    let containers = vec![textured("a", "shared.png"), Container::new("plain"), textured("b", "shared.png")];
    let files = vec![file("shared.png", rgba_png(2, 2))];
    let renderer = Renderer::from_gui([100, 100], FRACTION_ONE, &containers, &files).unwrap();
    assert_eq!(renderer.textures().load_count(), 1);
    assert_eq!(renderer.bindings()[0], renderer.bindings()[2]);
    assert_eq!(renderer.bindings()[1], TextureBinding::Default);
    assert_eq!(renderer.bindings()[0], TextureBinding::Cached(0));
}

#[test]
fn texture_paths_are_distinct_in_first_use_order() {
    let containers = vec![textured("a", "x.png"), Container::new("p"), textured("b", "y.png"), textured("c", "x.png")];
    assert_eq!(Renderer::texture_paths(&containers), vec!["x.png".to_string(), "y.png".to_string()]);
}

#[test]
fn from_gui_reports_missing_and_bad_files() {
    let containers = vec![Container::new("p"), textured("a", "gone.png")];
    let r = Renderer::from_gui([100, 100], FRACTION_ONE, &containers, &[]);
    assert!(matches!(r, Err(GuiError::IoError { ref path }) if path == "gone.png"));
    let files = vec![file("gone.png", png(2, 2, image::ColorType::Rgb8, 3))];
    let r = Renderer::from_gui([100, 100], FRACTION_ONE, &containers, &files);
    assert!(matches!(r, Err(GuiError::UnsupportedColorType(ColorType::Rgb8))));
}

#[test]
fn from_gui_without_images_always_succeeds() {
    let containers = vec![Container::new("a"), Container::new("b")];
    let renderer = Renderer::from_gui([10, 10], FRACTION_ONE, &containers, &[]).unwrap();
    assert_eq!(renderer.locals().len(), 2);
    assert_eq!(renderer.textures().len(), 0);
    assert_eq!(renderer.globals(), Globals::new([10, 10], FRACTION_ONE));
    assert_eq!(renderer.default_texture().dimensions, [2, 2]);
}

fn three_containers() -> Vec<Container> {
    let mut simple = Container::new("simple");
    simple.screen_position = Position::new(2500, 5000);
    simple.view = ContainerView::Simple { width: Size::Dynamic(5000), height: Size::Dynamic(2500), color: [255, 0, 0, 255] };
    let mut free = Container::new("free");
    free.pixel_position = [16, 32];
    free.view = ContainerView::default();
    free.layout = Layout::Free(Some(Widget::Text { label: "text".to_string(), text: "Hello world!".to_string() }));
    let mut texture = Container::new("texture");
    texture.pixel_position = [100, 100];
    texture.view = ContainerView::Texture { path: "square.png".to_string(), color: Some([255, 255, 255, 200]) };
    vec![simple, free, texture]
}

#[test]
fn resize_rewrites_every_locals_record() {
    let containers = three_containers();
    let files = vec![file("square.png", rgba_png(2, 2))];
    let mut renderer = Renderer::from_gui([1280, 720], FRACTION_ONE, &containers, &files).unwrap();
    assert_eq!(
        renderer.locals().clone(),
        vec![
            ContainerLocals::new([320, 360], [640, 180], [255, 0, 0, 255]),
            ContainerLocals::new([16, 32], [426, 240], [255, 255, 255, 255]),
            ContainerLocals::new([100, 100], [2, 2], [255, 255, 255, 200]),
        ]
    );
    renderer.resize([640, 360], FRACTION_ONE, &containers);
    assert_eq!(renderer.resolution(), [640, 360]);
    assert_eq!(
        renderer.locals().clone(),
        vec![
            ContainerLocals::new([160, 180], [320, 90], [255, 0, 0, 255]),
            ContainerLocals::new([16, 32], [426, 240], [255, 255, 255, 255]),
            ContainerLocals::new([100, 100], [2, 2], [255, 255, 255, 200]),
        ]
    );
}

#[test]
fn resize_applies_scale_factor_to_fixed_sizes() {
    let containers = three_containers();
    let files = vec![file("square.png", rgba_png(2, 2))];
    let mut renderer = Renderer::from_gui([1280, 720], FRACTION_ONE, &containers, &files).unwrap();
    renderer.resize([1280, 720], 2 * FRACTION_ONE, &containers);
    assert_eq!(renderer.scale_factor(), 2 * FRACTION_ONE);
    assert_eq!(renderer.locals()[0], ContainerLocals::new([320, 360], [640, 180], [255, 0, 0, 255]));
    assert_eq!(renderer.locals()[1].size, [852, 480]);
    assert_eq!(renderer.locals()[2].size, [4, 4]);
}

#[test]
fn render_clips_and_skips() {
    let mut offscreen = Container::new("off");
    offscreen.pixel_position = [5000, 0];
    let mut partly = Container::new("partly");
    partly.pixel_position = [-50, -10];
    partly.view = ContainerView::Simple { width: Size::Fixed(100), height: Size::Fixed(30), color: [0, 0, 0, 255] };
    let mut empty = Container::new("empty");
    empty.view = ContainerView::Simple { width: Size::Fixed(0), height: Size::Fixed(30), color: [0, 0, 0, 255] };
    let full = Container::new("full");
    let containers = vec![offscreen, partly, empty, full];
    let renderer = Renderer::from_gui([200, 100], FRACTION_ONE, &containers, &[]).unwrap();
    let draws = renderer.render(&containers);
    assert_eq!(
        draws,
        vec![
            DrawCall { index: 1, scissor: ScissorRect { x: 0, y: 0, width: 50, height: 20 } },
            DrawCall { index: 3, scissor: ScissorRect { x: 0, y: 0, width: 200, height: 100 } },
        ]
    );
}

#[test]
fn error_messages() {
    assert_eq!(GuiError::IoError { path: "x.png".to_string() }.to_text(), "cannot read x.png");
    assert_eq!(GuiError::UnsupportedColorType(ColorType::Rgb8).to_text(), "unsupported color type: Rgb8");
    assert_eq!(GuiError::UnsupportedColorType(ColorType::Bgr8).to_text(), "unsupported color type: Bgr8");
    let e = Texture::from_path("img.unknown", &rgba_png(2, 2)).unwrap_err();
    assert!(!e.to_text().is_empty());
}

#[test]
fn from_gui_reports_the_first_failing_container() {
    let containers = vec![
        textured("a", "ok.png"),
        textured("b", "missing.png"),
        textured("c", "rgb.png"),
    ];
    let files = vec![file("ok.png", rgba_png(2, 2)), file("rgb.png", png(2, 2, image::ColorType::Rgb8, 3))];
    let r = Renderer::from_gui([100, 100], FRACTION_ONE, &containers, &files);
    assert!(matches!(r, Err(GuiError::IoError { ref path }) if path == "missing.png"));
    let reordered = vec![textured("c", "rgb.png"), textured("b", "missing.png")];
    let r = Renderer::from_gui([100, 100], FRACTION_ONE, &reordered, &files);
    assert!(matches!(r, Err(GuiError::UnsupportedColorType(ColorType::Rgb8))));
    let undecodable = vec![file("ok.png", vec![0, 1, 2])];
    let r = Renderer::from_gui([100, 100], FRACTION_ONE, &containers, &undecodable);
    assert!(matches!(r, Err(GuiError::ImageError(_))));
}

#[test]
fn from_gui_succeeds_when_every_image_loads() {
    let containers = vec![textured("a", "one.png"), textured("b", "two.png"), textured("c", "one.png")];
    let files = vec![file("two.png", rgba_png(3, 1)), file("one.png", rgba_png(1, 4)), file("one.png", vec![9])];
    let renderer = Renderer::from_gui([100, 100], FRACTION_ONE, &containers, &files).unwrap();
    assert_eq!(renderer.textures().load_count(), 2);
    assert_eq!(renderer.textures().get(0).dimensions, [1, 4]);
    assert_eq!(renderer.textures().get(1).dimensions, [3, 1]);
    assert_eq!(renderer.locals()[2].size, [1, 4]);
}
