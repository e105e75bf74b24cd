//! A retained GUI toolkit core: a widget tree, containers positioned in
//! screen space, the command and event vocabulary, and the renderer's
//! resource table, texture cache and draw plan.
//!
//! Fractions (screen positions, pivots, dynamic sizes, the scale factor) are
//! fixed-point numbers in parts of [`FRACTION_ONE`].

pub mod command;
pub mod container;
pub mod event;
pub mod frame;
pub mod geometry;
pub mod host;
pub mod instance;
pub mod layout;
pub mod renderer;
pub mod texture;
pub mod view;
pub mod widget;

pub use command::Command;
pub use container::Container;
pub use event::Event;
pub use geometry::FRACTION_ONE;
pub use geometry::Pivot;
pub use geometry::Position;
pub use geometry::ScissorRect;
pub use geometry::Size;
pub use host::EventHandler;
pub use instance::Instance;
pub use layout::Layout;
pub use layout::LayoutPadding;
pub use renderer::Renderer;
pub use texture::GuiError;
pub use texture::Texture;
pub use view::ContainerView;
pub use widget::Widget;
