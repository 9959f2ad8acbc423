//! Verified core of a terminal Markdown viewer: table-of-contents
//! normalisation, popup and picker state, bounded stdin decoding, styled
//! line diffing, the approximate in-progress renderer and the streaming
//! render state machine.

pub mod toc;
pub mod text;
pub mod chars;
pub mod approx;
pub mod clock;
pub mod streaming;
pub mod editor;
pub mod app;
pub mod stdin;
pub mod theme;
