//! An uploaded form, its request token checked on the way in.
//!
//! The guard cannot look for the token inside an upload without holding the whole of
//! it, so the check is left to whoever reads the form. The token must be the first
//! field: a later one would mean holding everything ahead of it.

use vstd::prelude::*;

use crate::error::{csrf_rejected, ErrorPage};
use crate::guard::{lets_through, rejection, verdict};
use crate::session::{multipart, safe_method, token_matches, token_ok, CsrfPending, CSRF_FIELD};
use crate::strs::same;

verus! {

/// The token an upload carries: what its first field holds, where that is the token
/// field. A field without a name, and one that could not be read, carries none.
pub open spec fn leading_token(name: Option<Seq<char>>, text: Option<Seq<char>>) -> Option<
    Seq<char>,
> {
    if name == Some(CSRF_FIELD@) {
        text
    } else {
        None
    }
}

/// Checks an upload by its first field: its name, and its text where it could be read.
/// Where it holds the session's token, the outstanding check is satisfied; otherwise
/// the upload is refused and the check stays outstanding.
pub fn verify_first_field(
    expected: &str,
    pending: &mut CsrfPending,
    name: Option<&str>,
    text: Option<&str>,
) -> (r: Result<(), ErrorPage>)
    ensures
        ({
            let ok = token_ok(expected@, leading_token(name.deep_view(), text.deep_view()));
            &&& r is Ok <==> ok
            &&& r matches Err(page) ==> page.deep_view() == rejection()
            &&& final(pending)@ == (ok || old(pending)@)
        }),
{
    let submitted: Option<&str> = match name {
        Some(n) => if same(n, CSRF_FIELD) {
            text
        } else {
            None
        },
        None => None,
    };
    if token_matches(expected, submitted) {
        pending.satisfy();
        Ok(())
    } else {
        Err(csrf_rejected())
    }
}

/// An upload that carries no token beside its body is answered exactly where its
/// first field is the session's token.
pub proof fn law_an_upload_needs_its_token_first(
    method: Seq<char>,
    content_type: Option<Seq<char>>,
    in_body: Option<Seq<char>>,
    expected: Seq<char>,
    name: Option<Seq<char>>,
    text: Option<Seq<char>>,
)
    requires
        !safe_method(method),
        multipart(content_type),
        expected.len() > 0,
    ensures
        lets_through(
            verdict(method, content_type, None, None, in_body, expected),
            token_ok(expected, leading_token(name, text)),
        ) <==> name == Some(CSRF_FIELD@) && text == Some(expected),
{
}

} // verus!
