//! What the responder decides: which artifact a request asks for, and what
//! is written back.
//!
//! Listening, parsing requests and waiting for the cache are left to the
//! program around the library; it hands over the path of a request and what
//! the cache served, and writes the reply as it is given.

use crate::cache::{CacheSnapshot, Snapshot};
use crate::text::same_text;
use vstd::prelude::*;
use vstd::string::*;

verus! {

/// What a request asks for.
#[derive(Clone, Copy, Debug, PartialEq, Eq)]
pub enum Route {
    /// The rendered page.
    Page,
    /// The stylesheet of the page.
    Stylesheet,
    /// Nothing that is served.
    NotFound,
}

/// The kind of content of a reply.
#[derive(Clone, Copy, Debug, PartialEq, Eq)]
pub enum ContentType {
    /// `text/html`
    Html,
    /// `text/css`
    Css,
    /// No content type is set.
    Unset,
}

/// A reply to a request.
#[derive(Debug)]
pub struct Reply {
    /// The status code.
    pub status: u16,
    /// The kind of content of the body.
    pub content_type: ContentType,
    /// The body.
    pub body: String,
}

/// The mathematical content of a reply.
pub ghost struct ReplyModel {
    pub status: int,
    pub content_type: ContentType,
    pub body: Seq<char>,
}

impl View for Reply {
    type V = ReplyModel;

    open spec fn view(&self) -> ReplyModel {
        ReplyModel {
            status: self.status as int,
            content_type: self.content_type,
            body: self.body@,
        }
    }
}

/// Status code of a reply that carries an artifact.
pub const STATUS_OK: u16 = 200;

/// Status code of the reply to a request for an unknown path.
pub const STATUS_NOT_FOUND: u16 = 404;

/// Status code of the reply when there is nothing to serve.
pub const STATUS_INTERNAL_SERVER_ERROR: u16 = 500;

/// The path of the stylesheet.
pub const STYLESHEET_PATH: &'static str = "/activity-graph.css";

/// The body of the reply to a request for an unknown path.
pub const NOT_FOUND_BODY: &'static str = "404 Not Found";

/// The body of the reply when there is nothing to serve.
pub const UNAVAILABLE_BODY: &'static str =
    "500 Internal Server Error\nSorry, the server encountered an unexpected error.";

/// Whether a request for `path` asks for the page.
pub open spec fn is_index_path(path: Seq<char>) -> bool {
    path == "/"@ || path == "/index.html"@ || path == "/index.htm"@ || path == ""@
}

/// What a request for `path` asks for.
pub open spec fn routed(path: Seq<char>) -> Route {
    if is_index_path(path) {
        Route::Page
    } else if path == STYLESHEET_PATH@ {
        Route::Stylesheet
    } else {
        Route::NotFound
    }
}

/// The reply to a request that was routed to `route`, when the cache served
/// `snapshot`, or nothing.
pub open spec fn reply_for(route: Route, snapshot: Option<Snapshot>) -> ReplyModel {
    match (route, snapshot) {
        (Route::NotFound, _) => ReplyModel {
            status: STATUS_NOT_FOUND as int,
            content_type: ContentType::Unset,
            body: NOT_FOUND_BODY@,
        },
        (Route::Page, Some(s)) => ReplyModel {
            status: STATUS_OK as int,
            content_type: ContentType::Html,
            body: s.html,
        },
        (Route::Stylesheet, Some(s)) => ReplyModel {
            status: STATUS_OK as int,
            content_type: ContentType::Css,
            body: s.css,
        },
        (_, None) => ReplyModel {
            status: STATUS_INTERNAL_SERVER_ERROR as int,
            content_type: ContentType::Unset,
            body: UNAVAILABLE_BODY@,
        },
    }
}

/// What a request for `path` asks for: the page for `/`, `/index.html`,
/// `/index.htm` and the empty path, the stylesheet for its own path, and
/// nothing for any other.
pub fn route(path: &str) -> (r: Route)
    ensures
        r == routed(path@),
{
    if same_text(path, "/") || same_text(path, "/index.html") || same_text(path, "/index.htm")
        || same_text(path, "") {
        Route::Page
    } else if same_text(path, STYLESHEET_PATH) {
        Route::Stylesheet
    } else {
        Route::NotFound
    }
}

/// Whether a request that was routed to `route` is answered from the cache,
/// so that the cache has to be asked before the reply is made.
pub fn needs_snapshot(route: Route) -> (r: bool)
    ensures
        r == (route != Route::NotFound),
{
    match route {
        Route::NotFound => false,
        _ => true,
    }
}

/// The reply to a request that was routed to `route`, when the cache served
/// `snapshot`, or nothing.
pub fn respond(route: Route, snapshot: Option<&CacheSnapshot>) -> (r: Reply)
    ensures
        r@ == reply_for(
            route,
            match snapshot {
                Some(s) => Some(s@),
                None => None,
            },
        ),
{
    match route {
        Route::NotFound => Reply {
            status: STATUS_NOT_FOUND,
            content_type: ContentType::Unset,
            body: NOT_FOUND_BODY.to_owned(),
        },
        Route::Page => match snapshot {
            Some(s) => Reply {
                status: STATUS_OK,
                content_type: ContentType::Html,
                body: s.html().clone(),
            },
            None => unavailable(),
        },
        Route::Stylesheet => match snapshot {
            Some(s) => Reply {
                status: STATUS_OK,
                content_type: ContentType::Css,
                body: s.css().clone(),
            },
            None => unavailable(),
        },
    }
}

/// The reply when there is nothing to serve.
fn unavailable() -> (r: Reply)
    ensures
        r@ == (ReplyModel {
            status: STATUS_INTERNAL_SERVER_ERROR as int,
            content_type: ContentType::Unset,
            body: UNAVAILABLE_BODY@,
        }),
{
    Reply {
        status: STATUS_INTERNAL_SERVER_ERROR,
        content_type: ContentType::Unset,
        body: UNAVAILABLE_BODY.to_owned(),
    }
}

} // verus!
