//! What the crawl engine's caller needs of a parser of pages.

use crate::layout::ClassificationError;
use crate::requester::{RequestView, SimpleRequest};
use vstd::prelude::*;

verus! {

/// Turns the page that answered a request into the requests to follow.
pub trait Parser {
    /// Whether `result` is what the parser makes of `page`, the answer to
    /// `request`.
    spec fn outcome(
        &self,
        request: RequestView,
        page: Seq<char>,
        result: Result<Vec<SimpleRequest>, ClassificationError>,
    ) -> bool;

    fn parse(&self, request: &SimpleRequest, page: &str) -> (result: Result<
        Vec<SimpleRequest>,
        ClassificationError,
    >)
        ensures
            self.outcome(request@, page@, result),
    ;
}

} // verus!
