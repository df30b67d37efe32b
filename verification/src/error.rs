//! The admin surface's typed error, and the page each kind renders.

use vstd::prelude::*;

use crate::text::{localized, plain, Text, TextModel, Translator};

verus! {

/// A typed error an admin handler can return.
#[derive(Debug)]
pub enum AdminError {
    /// The requested record does not exist.
    NotFound,
    /// The signed-in operator lacks the required permission.
    Forbidden,
    /// An unexpected failure: the cause is logged and masked.
    Internal(String),
}

/// The kind of error, stamped onto every error response so a later layer can
/// render the page again.
#[derive(Debug, Clone, Copy, PartialEq, Eq, Structural)]
pub struct ErrorMeta {
    pub kind: ErrorKind,
}

/// The response classes an [`AdminError`] renders.
#[derive(Debug, Clone, Copy, PartialEq, Eq, Structural)]
pub enum ErrorKind {
    NotFound,
    Forbidden,
    Internal,
}

/// A failure of the layers below, as they classify it.
#[derive(Debug)]
pub enum CoreError {
    NotFound(String),
    Unauthorized,
    Forbidden(String),
    Conflict(String),
    Other(String),
}

/// The HTTP status each error kind renders with.
pub open spec fn status_of(kind: ErrorKind) -> u16 {
    match kind {
        ErrorKind::NotFound => 404,
        ErrorKind::Forbidden => 403,
        ErrorKind::Internal => 500,
    }
}

/// The HTTP status each error kind renders with.
pub fn kind_status(kind: ErrorKind) -> (r: u16)
    ensures
        r == status_of(kind),
{
    match kind {
        ErrorKind::NotFound => 404,
        ErrorKind::Forbidden => 403,
        ErrorKind::Internal => 500,
    }
}

/// The title an error kind is shown under.
pub open spec fn title_of(kind: ErrorKind) -> TextModel {
    match kind {
        ErrorKind::NotFound => plain("Not found"@),
        ErrorKind::Forbidden => plain("Forbidden"@),
        ErrorKind::Internal => plain("Something went wrong"@),
    }
}

/// The message an error kind shows.
pub open spec fn message_of(kind: ErrorKind) -> TextModel {
    match kind {
        ErrorKind::NotFound => plain("The page or record you asked for does not exist."@),
        ErrorKind::Forbidden => plain("You do not have permission to view this."@),
        ErrorKind::Internal => plain("The server hit an unexpected error. It has been logged."@),
    }
}

/// The title and message for an error kind.
pub fn kind_texts(kind: ErrorKind) -> (r: (Text, Text))
    ensures
        r.0@ == title_of(kind),
        r.1@ == message_of(kind),
{
    match kind {
        ErrorKind::NotFound => (
            Text::new("Not found"),
            Text::new("The page or record you asked for does not exist."),
        ),
        ErrorKind::Forbidden => (
            Text::new("Forbidden"),
            Text::new("You do not have permission to view this."),
        ),
        ErrorKind::Internal => (
            Text::new("Something went wrong"),
            Text::new("The server hit an unexpected error. It has been logged."),
        ),
    }
}

/// The standalone error page, with the kind it is stamped with.
#[derive(Debug)]
pub struct ErrorPage {
    pub meta: ErrorMeta,
    pub status: u16,
    pub title: String,
    pub message: String,
    /// The internal cause, shown only in debug mode.
    pub detail: Option<String>,
}

/// An [`ErrorPage`], over characters.
pub struct ErrorPageModel {
    pub kind: ErrorKind,
    pub status: u16,
    pub title: Seq<char>,
    pub message: Seq<char>,
    pub detail: Option<Seq<char>>,
}

impl DeepView for ErrorPage {
    type V = ErrorPageModel;

    open spec fn deep_view(&self) -> ErrorPageModel {
        ErrorPageModel {
            kind: self.meta.kind,
            status: self.status,
            title: self.title@,
            message: self.message@,
            detail: self.detail.deep_view(),
        }
    }
}

/// The kind of an error.
pub open spec fn kind_of_error(e: AdminError) -> ErrorKind {
    match e {
        AdminError::NotFound => ErrorKind::NotFound,
        AdminError::Forbidden => ErrorKind::Forbidden,
        AdminError::Internal(_) => ErrorKind::Internal,
    }
}

impl AdminError {
    /// The page the error renders without a request's language at hand: the
    /// source texts, and the cause only where `debug` is set.
    pub fn page(&self, debug: bool) -> (r: ErrorPage)
        ensures
            r.deep_view() == (ErrorPageModel {
                kind: kind_of_error(*self),
                status: status_of(kind_of_error(*self)),
                title: title_of(kind_of_error(*self)).source,
                message: message_of(kind_of_error(*self)).source,
                detail: match self {
                    AdminError::Internal(cause) => if debug {
                        Some(cause@)
                    } else {
                        None
                    },
                    _ => None,
                },
            }),
    {
        let (kind, detail): (ErrorKind, Option<String>) = match self {
            AdminError::NotFound => (ErrorKind::NotFound, None),
            AdminError::Forbidden => (ErrorKind::Forbidden, None),
            AdminError::Internal(cause) => if debug {
                (ErrorKind::Internal, Some(cause.clone()))
            } else {
                (ErrorKind::Internal, None)
            },
        };
        let (title, message) = kind_texts(kind);
        ErrorPage {
            meta: ErrorMeta { kind },
            status: kind_status(kind),
            title: title.source().to_owned(),
            message: message.source().to_owned(),
            detail,
        }
    }

    /// What a failure of the layers below means here: a missing record stays
    /// missing, a refused one forbidden, and anything else is unexpected.
    pub fn from_core(err: CoreError) -> (r: AdminError)
        ensures
            match err {
                CoreError::NotFound(_) => r is NotFound,
                CoreError::Unauthorized => r is Forbidden,
                CoreError::Forbidden(_) => r is Forbidden,
                CoreError::Conflict(m) => r == AdminError::Internal(m),
                CoreError::Other(m) => r == AdminError::Internal(m),
            },
    {
        match err {
            CoreError::NotFound(_) => AdminError::NotFound,
            CoreError::Unauthorized => AdminError::Forbidden,
            CoreError::Forbidden(_) => AdminError::Forbidden,
            CoreError::Conflict(m) => AdminError::Internal(m),
            CoreError::Other(m) => AdminError::Internal(m),
        }
    }
}

/// The page of a kind in a request's language. The cause is not carried across.
pub open spec fn localized_page(
    kind: ErrorKind,
    table: Seq<(Seq<char>, Seq<char>)>,
) -> ErrorPageModel {
    ErrorPageModel {
        kind,
        status: status_of(kind),
        title: localized(table, title_of(kind)),
        message: localized(table, message_of(kind)),
        detail: None,
    }
}

/// The page of a kind in a request's language, for the guard to put in place of
/// the one a handler produced.
pub fn localized_error(kind: ErrorKind, tr: &Translator) -> (r: ErrorPage)
    ensures
        r.deep_view() == localized_page(kind, tr@),
{
    let (title, message) = kind_texts(kind);
    ErrorPage {
        meta: ErrorMeta { kind },
        status: kind_status(kind),
        title: tr.t(&title),
        message: tr.t(&message),
        detail: None,
    }
}

/// The page of a rejected mutation: a bad request origin, or a missing or wrong
/// request token. Its message tells the operator to reload and resubmit rather
/// than that they lack permission.
pub fn csrf_rejected() -> (r: ErrorPage)
    ensures
        r.deep_view() == (ErrorPageModel {
            kind: ErrorKind::Forbidden,
            status: 403,
            title: "Request blocked"@,
            message: "This form expired or its origin was not recognised. Go back, reload the page, and try again."@,
            detail: None,
        }),
{
    ErrorPage {
        meta: ErrorMeta { kind: ErrorKind::Forbidden },
        status: 403,
        title: "Request blocked".to_owned(),
        message: "This form expired or its origin was not recognised. Go back, reload the page, and try again.".to_owned(),
        detail: None,
    }
}

/// The masked page of a failure with no known cause.
pub fn masked_500() -> (r: ErrorPage)
    ensures
        r.deep_view() == (ErrorPageModel {
            kind: ErrorKind::Internal,
            status: 500,
            title: "Something went wrong"@,
            message: "The server hit an unexpected error."@,
            detail: None,
        }),
{
    ErrorPage {
        meta: ErrorMeta { kind: ErrorKind::Internal },
        status: 500,
        title: "Something went wrong".to_owned(),
        message: "The server hit an unexpected error.".to_owned(),
        detail: None,
    }
}

/// What is known of a handler's panic: its message where it carried one.
pub fn panic_cause(message: Option<&str>) -> (r: String)
    ensures
        r@ == (match message.deep_view() {
            Some(m) => m,
            None => "unknown panic"@,
        }),
{
    match message {
        Some(m) => m.to_owned(),
        None => "unknown panic".to_owned(),
    }
}

/// Rendering an error again in a request's language keeps its status and kind, and
/// never shows a cause.
pub proof fn law_localizing_keeps_the_status(
    e: AdminError,
    table: Seq<(Seq<char>, Seq<char>)>,
)
    ensures
        localized_page(kind_of_error(e), table).status == status_of(kind_of_error(e)),
        localized_page(kind_of_error(e), table).kind == kind_of_error(e),
        localized_page(kind_of_error(e), table).detail is None,
{
}

} // verus!
