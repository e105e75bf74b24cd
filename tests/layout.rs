use gui::frame::frame_action;
use gui::frame::FrameAction;
use gui::frame::SurfaceStatus;
use gui::geometry::anchor_axis;
use gui::geometry::scissor;
use gui::Container;
use gui::ContainerView;
use gui::Pivot;
use gui::Position;
use gui::Renderer;
use gui::ScissorRect;
use gui::Size;
use gui::FRACTION_ONE;

#[test]
fn fixed_size_is_scaled_and_ignores_resolution() {
    let size = Size::Fixed(100);
    assert_eq!(size.resolve(1280, 15000), 150);
    assert_eq!(size.resolve(640, 15000), 150);
    assert_eq!(size.resolve(0, 15000), 150);
    // 33 * 1.25 = 41.25 truncates to 41
    assert_eq!(Size::Fixed(33).resolve(720, 12500), 41);
}

#[test]
fn dynamic_size_scales_with_resolution_and_ignores_scale() {
    let size = Size::Dynamic(FRACTION_ONE / 2);
    assert_eq!(size.resolve(1280, FRACTION_ONE), 640);
    assert_eq!(size.resolve(1280, 2 * FRACTION_ONE), 640);
    assert_eq!(size.resolve(640, FRACTION_ONE), 320);
    // a third of 100 pixels truncates to 33
    assert_eq!(Size::Dynamic(3333).resolve(100, FRACTION_ONE), 33);
    assert_eq!(Size::Dynamic(3333).resolve(300, FRACTION_ONE), 99);
}

#[test]
fn sizes_saturate_at_u32_max() {
    assert_eq!(Size::Fixed(u32::MAX).resolve(1, 2 * FRACTION_ONE), u32::MAX);
    assert_eq!(Size::Dynamic(u32::MAX).resolve(u32::MAX, 1), u32::MAX);
}

#[test]
fn anchor_truncates_toward_zero() {
    // anchor at 0, pivot one half of 3 pixels: -1.5 truncates to -1
    assert_eq!(anchor_axis(0, 100, 0, 3, 5000), -1);
    // 0.25 of 10 pixels plus 1: 3.5 truncates to 3
    assert_eq!(anchor_axis(2500, 10, 1, 0, 0), 3);
    assert_eq!(anchor_axis(5000, 1280, -20, 100, 5000), 570);
}

#[test]
fn pivot_round_trip_differs_by_size() {
    let mut near = Container::new("near");
    near.set_position(Position::new(5000, 5000)).set_size(Size::Fixed(100), Size::Fixed(60));
    let mut far = Container::new("far");
    far.set_position(Position::new(5000, 5000))
        .set_size(Size::Fixed(100), Size::Fixed(60))
        .set_pivot(Pivot::BottomRight);
    let resolution = [1280u32, 720u32];
    let near_size = Renderer::container_size(&near, resolution, FRACTION_ONE, [2, 2]);
    let far_size = Renderer::container_size(&far, resolution, FRACTION_ONE, [2, 2]);
    assert_eq!(near_size, [100, 60]);
    assert_eq!(near_size, far_size);
    let near_position = Renderer::container_position(&near, resolution, near_size[0], near_size[1]);
    let far_position = Renderer::container_position(&far, resolution, far_size[0], far_size[1]);
    assert_eq!(near_position, [640, 360]);
    assert_eq!(far_position, [540, 300]);
    assert_eq!(near_position[0] - far_position[0], 100);
    assert_eq!(near_position[1] - far_position[1], 60);
}

#[test]
fn pivot_positions() {
    assert_eq!(Pivot::default(), Pivot::TopLeft);
    assert_eq!(Pivot::TopLeft.position(), Position::new(0, 0));
    assert_eq!(Pivot::MiddleCenter.position(), Position::new(5000, 5000));
    assert_eq!(Pivot::BottomRight.position(), Position::new(10000, 10000));
    assert_eq!(Pivot::TopRight.position(), Position::new(10000, 0));
    assert_eq!(Pivot::BottomCenter.position(), Position::new(5000, 10000));
    assert_eq!(Position::default(), Position::new(0, 0));
}

#[test]
fn scissor_clamps_to_viewport() {
    let r = scissor(-10, -20, 100, 100, [50, 60]).unwrap();
    assert_eq!(r, ScissorRect { x: 0, y: 0, width: 50, height: 60 });
    assert!(r.x + r.width <= 50 && r.y + r.height <= 60);
    let r = scissor(40, 50, 100, 100, [50, 60]).unwrap();
    assert_eq!(r, ScissorRect { x: 40, y: 50, width: 10, height: 10 });
    let r = scissor(-10, 5, 30, 10, [50, 60]).unwrap();
    assert_eq!(r, ScissorRect { x: 0, y: 5, width: 20, height: 10 });
}

#[test]
fn scissor_skips_empty_and_offscreen() {
    assert_eq!(scissor(0, 0, 0, 10, [50, 60]), None);
    assert_eq!(scissor(0, 0, 10, 0, [50, 60]), None);
    assert_eq!(scissor(-10, 0, 10, 10, [50, 60]), None);
    assert_eq!(scissor(50, 0, 10, 10, [50, 60]), None);
    assert_eq!(scissor(0, 60, 10, 10, [50, 60]), None);
    assert_eq!(scissor(-5, 0, 10, 10, [0, 60]), None);
}

#[test]
fn view_defaults_and_colors() {
    let view = ContainerView::default();
    assert_eq!(
        view,
        ContainerView::Simple { width: Size::Fixed(426), height: Size::Fixed(240), color: [255, 255, 255, 255] }
    );
    let tinted = ContainerView::Texture { path: "a.png".to_string(), color: Some([1, 2, 3, 4]) };
    assert_eq!(tinted.color(), [1, 2, 3, 4]);
    let plain = ContainerView::Texture { path: "a.png".to_string(), color: None };
    assert_eq!(plain.color(), [255, 255, 255, 255]);
    assert_eq!(plain.path().map(|p| p.as_str()), Some("a.png"));
    assert_eq!(view.path(), None);
}

#[test]
fn frame_acquisition_outcomes() {
    assert_eq!(frame_action(SurfaceStatus::Acquired), FrameAction::Draw);
    assert_eq!(frame_action(SurfaceStatus::Timeout), FrameAction::Skip);
    assert_eq!(frame_action(SurfaceStatus::Outdated), FrameAction::Skip);
    assert_eq!(frame_action(SurfaceStatus::Lost), FrameAction::Stop);
    assert_eq!(frame_action(SurfaceStatus::OutOfMemory), FrameAction::Stop);
}
