//! A small to-do list service, verified end to end at its logical core:
//! a storage model with unique monotone identifiers, a form-urlencoded
//! request parser, an HTML renderer, and the rules that map each request
//! outcome to an HTTP response.

pub mod digits;
pub mod form;
pub mod http;
pub mod render;
pub mod store;
