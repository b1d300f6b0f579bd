//! Reading the identity data of a national eID card.
//!
//! The card is reached through a PKCS#11 middleware. This library holds the
//! decisions of that protocol: which slot to open, which data objects matter,
//! how their values become text, and how the identity record is assembled.
//! The calls to the middleware itself are made by the program around it.

pub mod context;
pub mod error;
pub mod extract;
pub mod http;
pub mod pipeline;
pub mod record;
pub mod text;
pub mod vocabulary;
