//! Verified core of a desktop status bar: text handling for the outputs of
//! system tools, the decisions of each widget, the workspace tracker fed by
//! the compositor's event stream, and the stylesheet of the bar.

pub mod text;
pub mod numbers;
pub mod template;
pub mod colors;
pub mod sizes;
pub mod theme;
pub mod workspace;
pub mod system;
pub mod battery;
pub mod popups;
pub mod clock;
