use activity_graph::cache::{CacheState, Reading};
use activity_graph::server::{needs_snapshot, respond, route, ContentType, Route};

fn served() -> Reading {
    let mut state = CacheState::new(10, false);
    state.maybe_refresh(0);
    state.finish_refresh(Some(("<html></html>".to_string(), "td {}".to_string())), 0);
    state.get()
}

#[test]
fn index_paths_ask_for_the_page() {
    for path in ["/", "/index.html", "/index.htm", ""] {
        assert_eq!(route(path), Route::Page);
    }
}

#[test]
fn the_stylesheet_has_its_own_path() {
    assert_eq!(route("/activity-graph.css"), Route::Stylesheet);
}

#[test]
fn other_paths_are_not_found() {
    for path in ["/index", "/index.html/", "index.html", "/activity-graph.cs", "/favicon.ico", "//", "/Index.html"] {
        assert_eq!(route(path), Route::NotFound);
    }
}

#[test]
fn only_artifacts_need_the_cache() {
    assert!(needs_snapshot(Route::Page));
    assert!(needs_snapshot(Route::Stylesheet));
    assert!(!needs_snapshot(Route::NotFound));
}

#[test]
fn the_page_is_served_as_html() {
    let Reading::Ready(snapshot) = served() else { panic!("no snapshot") };
    let reply = respond(Route::Page, Some(&snapshot));
    assert_eq!(reply.status, 200);
    assert_eq!(reply.content_type, ContentType::Html);
    assert_eq!(reply.body, "<html></html>");
}

#[test]
fn the_stylesheet_is_served_as_css() {
    let Reading::Ready(snapshot) = served() else { panic!("no snapshot") };
    let reply = respond(Route::Stylesheet, Some(&snapshot));
    assert_eq!(reply.status, 200);
    assert_eq!(reply.content_type, ContentType::Css);
    assert_eq!(reply.body, "td {}");
}

#[test]
fn an_unknown_path_is_answered_with_404() {
    let Reading::Ready(snapshot) = served() else { panic!("no snapshot") };
    for snapshot in [Some(&snapshot), None] {
        let reply = respond(Route::NotFound, snapshot);
        assert_eq!(reply.status, 404);
        assert_eq!(reply.content_type, ContentType::Unset);
        assert_eq!(reply.body, "404 Not Found");
    }
}

#[test]
fn nothing_to_serve_is_answered_with_500() {
    for route in [Route::Page, Route::Stylesheet] {
        let reply = respond(route, None);
        assert_eq!(reply.status, 500);
        assert_eq!(reply.content_type, ContentType::Unset);
        assert_eq!(
            reply.body,
            "500 Internal Server Error\nSorry, the server encountered an unexpected error."
        );
    }
}
