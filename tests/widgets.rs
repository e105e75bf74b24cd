use gui::host::ElementState;
use gui::host::HostEvent;
use gui::host::MouseButton;
use gui::Command;
use gui::Container;
use gui::ContainerView;
use gui::Event;
use gui::EventHandler;
use gui::Instance;
use gui::Layout;
use gui::LayoutPadding;
use gui::Position;
use gui::Size;
use gui::Widget;
use gui::FRACTION_ONE;

fn text(label: &str, text: &str) -> Widget {
    Widget::Text { label: label.to_string(), text: text.to_string() }
}

fn button(label: &str) -> Widget {
    Widget::Button { label: label.to_string() }
}

#[test]
fn get_label_of_each_kind() {
    assert_eq!(text("t", "hello").get_label(), "t");
    assert_eq!(button("b").get_label(), "b");
    let window = Widget::Window { label: "w".to_string(), widgets: vec![button("inner")] };
    assert_eq!(window.get_label(), "w");
}

#[test]
fn duplicate_labels_are_all_removed() {
    let mut instance = Instance::new();
    instance.add_widget(button("a")).add_widget(button("a"));
    assert_eq!(instance.widget_count(), 2);
    instance.remove_widget("a");
    assert_eq!(instance.widget_count(), 0);
}

#[test]
fn removal_keeps_other_labels_in_order() {
    let mut instance = Instance::new();
    instance
        .add_widget(button("a"))
        .add_widget(text("b", "x"))
        .add_widget(button("a"))
        .add_widget(button("c"));
    instance.remove_widget("a");
    assert_eq!(instance.widget_count(), 2);
    assert_eq!(instance.widget(0).get_label(), "b");
    assert_eq!(instance.widget(1).get_label(), "c");
    instance.remove_widget("missing");
    assert_eq!(instance.widget_count(), 2);
}

#[test]
fn removal_does_not_search_nested_windows() {
    let mut instance = Instance::new();
    instance.add_widget(Widget::Window { label: "w".to_string(), widgets: vec![button("a")] });
    instance.remove_widget("a");
    assert_eq!(instance.widget_count(), 1);
}

#[test]
fn instance_dump() {
    let mut instance = Instance::new();
    instance.add_widget(Widget::Window {
        label: "label1".to_string(),
        widgets: vec![text("text", "Hello fixed!")],
    });
    instance.add_widget(button("ok"));
    assert_eq!(
        instance.to_text(),
        "Begin Instance\n    Begin Window(label1)\n        Text(text)\n    End Window\n    Button(ok)\nEnd Instance\n"
    );
    instance.remove_widget("label1");
    instance.remove_widget("ok");
    assert_eq!(instance.to_text(), "Begin Instance\nEnd Instance\n");
}

#[test]
fn instance_commands() {
    let mut instance = Instance::new();
    assert_eq!(instance.resolution(), [0, 0]);
    assert_eq!(instance.scale_factor(), FRACTION_ONE);
    instance.process_command(Command::Resized { width: 1280, height: 720 });
    assert_eq!(instance.resolution(), [1280, 720]);
    instance.process_command(Command::ScaleFactorChanged { scale_factor: 15000 });
    assert_eq!(instance.scale_factor(), 15000);
    instance.add_widget(button("x"));
    instance.process_command(Command::CursorMoved { x: 3, y: 4 });
    instance.process_command(Command::MouseButton { button: 0, pressed: true });
    instance.process_command(Command::Redraw);
    instance.process_command(Command::HoveredFileCanceled);
    assert_eq!(instance.resolution(), [1280, 720]);
    assert_eq!(instance.widget_count(), 1);
    instance.process_command(Command::RemoveWidget { label: "x".to_string() });
    assert_eq!(instance.widget_count(), 0);
}

#[test]
fn events_come_out_oldest_first() {
    let mut instance = Instance::new();
    assert_eq!(instance.get_event(), None);
    instance.push_event(Event::CursorMoved { x: 1, y: 2 });
    instance.push_event(Event::MouseButton { button: 1, pressed: false });
    assert_eq!(instance.get_event(), Some(Event::CursorMoved { x: 1, y: 2 }));
    assert_eq!(instance.get_event(), Some(Event::MouseButton { button: 1, pressed: false }));
    assert_eq!(instance.get_event(), None);
}

#[test]
fn command_to_event() {
    assert_eq!(
        Command::DroppedFile { path: "f".to_string() }.to_event(),
        Some(Event::DroppedFile { path: "f".to_string() })
    );
    assert_eq!(Command::MouseButton { button: 3, pressed: true }.to_event(), Some(Event::MouseButton { button: 3, pressed: true }));
    assert_eq!(Command::Resized { width: 1, height: 1 }.to_event(), None);
    assert_eq!(Command::Redraw.to_event(), None);
}

#[test]
fn new_container_is_fullscreen() {
    let c = Container::new("root");
    assert_eq!(c.label, "root");
    assert_eq!(c.screen_position, Position::new(0, 0));
    assert_eq!(c.pixel_position, [0, 0]);
    assert_eq!(
        c.view,
        ContainerView::Simple {
            width: Size::Dynamic(FRACTION_ONE),
            height: Size::Dynamic(FRACTION_ONE),
            color: [255, 255, 255, 255]
        }
    );
    assert_eq!(c.layout, Layout::Vertical { widgets: vec![], padding: LayoutPadding::Static(0) });
}

#[test]
fn container_builders() {
    let mut c = Container::new("box");
    c.set_position(Position::new(2000, 3000))
        .set_size(Size::Fixed(128), Size::Dynamic(5000))
        .set_pivot(gui::Pivot::MiddleCenter);
    assert_eq!(c.screen_position, Position::new(2000, 3000));
    assert_eq!(c.pivot, Position::new(5000, 5000));
    assert_eq!(
        c.view,
        ContainerView::Simple { width: Size::Fixed(128), height: Size::Dynamic(5000), color: [255, 255, 255, 255] }
    );
    c.pixel_position = [7, 8];
    c.make_fullscreen();
    assert_eq!(c.screen_position, Position::new(0, 0));
    assert_eq!(c.pixel_position, [0, 0]);
    assert_eq!(c.pivot, Position::new(0, 0));
    assert_eq!(
        c.view,
        ContainerView::Simple {
            width: Size::Dynamic(FRACTION_ONE),
            height: Size::Dynamic(FRACTION_ONE),
            color: [255, 255, 255, 255]
        }
    );
    c.close();
}

#[test]
fn set_size_leaves_texture_views() {
    let mut c = Container::new("img");
    c.view = ContainerView::Texture { path: "a.png".to_string(), color: None };
    c.set_size(Size::Fixed(1), Size::Fixed(1));
    assert_eq!(c.view, ContainerView::Texture { path: "a.png".to_string(), color: None });
}

#[test]
fn container_widgets_and_removal() {
    let mut c = Container::new("list");
    c.add_widget(button("a")).add_widget(text("b", "x")).add_widget(button("a"));
    c.process_command(Command::RemoveWidget { label: "a".to_string() });
    assert_eq!(c.layout, Layout::Vertical { widgets: vec![text("b", "x")], padding: LayoutPadding::Static(0) });
    c.process_command(Command::CursorMoved { x: 1, y: 1 });
    c.process_event(Event::HoveredFileCanceled);
    assert_eq!(c.to_text(), "Begin Container(list)\n    Text(b)\nEnd Container\n");

    let mut free = Container::new("free");
    free.layout = Layout::Free(Some(button("one")));
    free.add_widget(button("two"));
    assert_eq!(free.layout, Layout::Free(Some(button("two"))));
    assert_eq!(free.to_text(), "Begin Container(free)\n    Button(two)\nEnd Container\n");
    free.process_command(Command::RemoveWidget { label: "other".to_string() });
    assert_eq!(free.layout, Layout::Free(Some(button("two"))));
    free.process_command(Command::RemoveWidget { label: "two".to_string() });
    assert_eq!(free.layout, Layout::Free(None));
    assert_eq!(free.to_text(), "Begin Container(free)\nEnd Container\n");
    free.add_widget(button("three"));
    assert_eq!(free.layout, Layout::Free(Some(button("three"))));
}

#[test]
fn host_events_translate() {
    let handler = EventHandler::new();
    let press = HostEvent::MouseInput { state: ElementState::Pressed, button: MouseButton::Right };
    assert_eq!(handler.event_of(&press), Some(Event::MouseButton { button: 1, pressed: true }));
    let release = HostEvent::MouseInput { state: ElementState::Released, button: MouseButton::Other(9) };
    assert_eq!(handler.event_of(&release), Some(Event::MouseButton { button: 9, pressed: false }));
    assert_eq!(gui::host::button_code(MouseButton::Left), 0);
    assert_eq!(gui::host::button_code(MouseButton::Middle), 2);
    assert_eq!(handler.event_of(&HostEvent::CloseRequested), None);
    assert_eq!(
        handler.command_of(&HostEvent::Resized { width: 640, height: 360 }),
        Some(Command::Resized { width: 640, height: 360 })
    );
    assert_eq!(handler.command_of(&HostEvent::RedrawRequested), Some(Command::Redraw));
    assert_eq!(handler.command_of(&HostEvent::Other), None);
    assert_eq!(
        handler.event_of(&HostEvent::DroppedFile { path: "x".to_string() }),
        Some(Event::DroppedFile { path: "x".to_string() })
    );
}

#[test]
fn host_events_reach_every_container_unchanged() {
    let mut handler = EventHandler::new();
    let mut gui = vec![Container::new("a"), Container::new("b")];
    handler.process_event(&mut gui, &HostEvent::CursorMoved { x: 5, y: 6 });
    handler.process_event(&mut gui, &HostEvent::CloseRequested);
    assert_eq!(gui.len(), 2);
    assert_eq!(gui[0], Container::new("a"));
    assert_eq!(gui[1], Container::new("b"));
}
