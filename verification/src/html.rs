//! Trusted HTML markup.
//!
//! [`Markup`] wraps a string of escaped HTML: what a field type renders, for a
//! template's unescaped slot.

use vstd::prelude::*;
use vstd::string::StringExecFns;

verus! {

/// Trusted, escaped HTML.
#[derive(Debug)]
pub struct Markup(String);

impl View for Markup {
    type V = Seq<char>;

    closed spec fn view(&self) -> Seq<char> {
        self.0@
    }
}

impl Markup {
    /// Empty markup.
    pub fn empty() -> (r: Self)
        ensures
            r@ == Seq::<char>::empty(),
    {
        Markup(String::new())
    }

    /// Wraps a string as trusted HTML with **no escaping**. Use only when the
    /// input is provably safe.
    pub fn raw_unchecked(html: String) -> (r: Self)
        ensures
            r@ == html@,
    {
        Markup(html)
    }

    /// Wraps an override's output, which its engine escaped.
    pub fn from_override(rendered: String) -> (r: Self)
        ensures
            r@ == rendered@,
    {
        Markup(rendered)
    }

    /// The HTML as a string slice.
    pub fn as_str(&self) -> (r: &str)
        ensures
            r@ == self@,
    {
        self.0.as_str()
    }

    /// Consumes into the owned HTML string.
    pub fn into_string(self) -> (r: String)
        ensures
            r@ == self@,
    {
        self.0
    }

    /// Appends another fragment.
    pub fn push(&mut self, other: Markup)
        ensures
            final(self)@ == old(self)@ + other@,
    {
        self.0.append(other.0.as_str());
    }
}

impl Default for Markup {
    fn default() -> (r: Self)
        ensures
            r@ == Seq::<char>::empty(),
    {
        Markup::empty()
    }
}

} // verus!
