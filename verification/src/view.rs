//! Views: what renders the response to a request.
pub mod pages;
pub use pages::{NotFound, Page};
use vstd::prelude::*;
use std::collections::HashMap;
use crate::http::Response;

verus! {

/// What a text cache holds.
pub open spec fn cache_contents(cache: HashMap<String, String>) -> Map<String, String> {
    vstd::view::View::view(&cache)
}

/// Something that renders a response, with a cache of texts at hand.
pub trait View {
    fn render(&self, cache: &mut HashMap<String, String>) -> Response;
}

} // verus!
