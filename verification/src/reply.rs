//! Answers shared by the screens.

use vstd::prelude::*;

use crate::strs::same;

verus! {

/// Where a saved screen sends the browser, and how: an ordinary redirect, or a
/// header that a scripted request follows.
pub struct Redirection {
    pub status: u16,
    pub header: String,
    pub to: String,
}

/// A [`Redirection`], over characters.
pub struct RedirectionModel {
    pub status: u16,
    pub header: Seq<char>,
    pub to: Seq<char>,
}

impl View for Redirection {
    type V = RedirectionModel;

    open spec fn view(&self) -> RedirectionModel {
        RedirectionModel { status: self.status, header: self.header@, to: self.to@ }
    }
}

/// The redirect a saved screen answers with.
pub open spec fn saved(htmx: bool, to: Seq<char>) -> RedirectionModel {
    if htmx {
        RedirectionModel { status: 204, header: "HX-Redirect"@, to }
    } else {
        RedirectionModel { status: 303, header: "location"@, to }
    }
}

/// The redirect a saved screen answers with: by header under HTMX, so that a
/// fragment is not swapped for a whole page, ordinarily otherwise.
pub fn saved_response(htmx: bool, to: &str) -> (r: Redirection)
    ensures
        r@ == saved(htmx, to@),
{
    if htmx {
        Redirection { status: 204, header: "HX-Redirect".to_owned(), to: to.to_owned() }
    } else {
        Redirection { status: 303, header: "location".to_owned(), to: to.to_owned() }
    }
}

/// Whether a request came from HTMX, by its `HX-Request` header.
pub fn is_htmx(hx_request: Option<&str>) -> (r: bool)
    ensures
        r == (hx_request.deep_view() == Some("true"@)),
{
    match hx_request {
        Some(v) => same(v, "true"),
        None => false,
    }
}

} // verus!
