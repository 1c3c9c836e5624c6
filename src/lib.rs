//! An in-memory paste store: pastes are kept under short random
//! identifiers and fetched back either whole or as raw text.

pub mod ident;
pub mod laws;
pub mod limits;
pub mod paste;
pub mod store;

pub use ident::{is_url_safe, ID_LEN};
pub use limits::{admits_body, MAX_BODY_BYTES};
pub use paste::{Paste, PasteError, PasteModel};
pub use store::{PasteStore, MAX_PASTES};
