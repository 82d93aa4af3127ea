//! Translation of a stream of Markdown parse events into LaTeX source text.
//!
//! `engine` states the translation as a state machine over a context stack,
//! a body buffer and a table buffer; `translator` runs it; `converter` plans
//! the file work that links and images need, folds the events through the
//! engine and puts the body into a template; `laws` proves properties of the
//! whole.
pub mod strings;
pub mod writer;
pub mod markers;
pub mod text;
pub mod events;
pub mod slug;
pub mod resolve;
pub mod engine;
pub mod translator;
pub mod converter;
pub mod laws;

pub use converter::Converter;
pub use events::{EventType, Event, Tag, Request, Reply, ConvertError};
pub use writer::TexWriter;
