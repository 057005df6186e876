//! Table rendering for terminal user interfaces: column width allocation,
//! viewport windowing over rows, and drawing into a cell buffer.
pub mod layout;
pub mod style;
pub mod measure;
pub mod text;
pub mod block;
pub mod buffer;
pub mod table;
pub mod window;
pub mod widget;
