//! Widgets for the terminal, as far as they decide: what a key means, what the next state
//! is, and what is to be drawn.

pub mod common;
pub mod input;
pub mod options_menu;

pub use self::input::Input;
pub use self::options_menu::OptionsMenu;
