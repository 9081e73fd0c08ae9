//! Core of a viewer for text-mode art.
//!
//! The rendering side: the character [`buffer`], the bytes of the lookup
//! textures ([`texture`]), the colour of each pixel ([`render`]), the
//! [`sixel`] overlay cache, the [`viewport`] with its scroll model, the
//! [`selection`] with the text that a copy takes out, the [`blink`] clock,
//! the clock of an [`animation`], and the state of one view
//! ([`buffer_view`]).
//!
//! The browsing side: paths as text ([`path`], [`text`]), the listing of a
//! [`folder`], the browser with its filter and keys ([`file_view`]), and the
//! decisions of the viewer as a whole ([`main_window`]).
//!
//! Nothing here touches a file, a window or the graphics device: the
//! functions take plain values and say what to do next.

pub mod animation;
pub mod blink;
pub mod buffer;
pub mod buffer_view;
pub mod color;
pub mod file_view;
pub mod folder;
pub mod geometry;
pub mod main_window;
pub mod path;
pub mod render;
pub mod selection;
pub mod sixel;
pub mod text;
pub mod texture;
pub mod viewport;
