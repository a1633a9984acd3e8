//! Protocol model and navigation engine of a Gopher (RFC 1436) client.
//!
//! The crate resolves server addresses, decodes menu lines into typed items
//! and drives the back/forward navigation of a browsing session. It performs
//! no I/O: a caller fetches bytes and shows text, and hands plain values in.

pub mod menu;
pub mod models;
pub mod navigation;
pub mod prompts;
pub mod text;
pub mod uri;

pub use menu::{parse_menu, Menu};
pub use models::{AddressError, GopherItem, GopherUrl, MenuError, MenuItem};
pub use navigation::{
    apply_selection, handle_menu_selection, handle_search, Action, NavigationError, Session,
};
pub use prompts::{
    binary_choice, navigation_options, server_uri, start_choice, BinaryChoice, StartChoice,
};
pub use text::decode_text;
