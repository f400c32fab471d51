use activity_graph::cache_file::{decode_snapshot, encode_snapshot};

#[test]
fn a_file_holds_magic_page_and_stylesheet() {
    let file = encode_snapshot("<p>hi</p>", "p{}");
    let mut expected = b"ACTIVITY-GRAPH-CACHE-FILE".to_vec();
    expected.push(0xFE);
    expected.extend_from_slice(b"<p>hi</p>");
    expected.push(0xFE);
    expected.extend_from_slice(b"p{}");
    assert_eq!(file, expected);
}

#[test]
fn what_was_written_is_read_back() {
    for (html, css) in [("<p>hi</p>", "p{}"), ("", ""), ("gr\u{fc}\u{df}e \u{2593}\n", "\u{1f600}"), ("", "x")] {
        let file = encode_snapshot(html, css);
        assert_eq!(decode_snapshot(&file), Some((html.to_string(), css.to_string())));
    }
}

#[test]
fn a_file_without_the_magic_text_is_refused() {
    assert_eq!(decode_snapshot(b"ACTIVITY-GRAPH-CACHE-FILF\xFEa\xFEb"), None);
    assert_eq!(decode_snapshot(b"\xFEa\xFEb"), None);
    assert_eq!(decode_snapshot(b"ACTIVITY-GRAPH-CACHE-FILE \xFEa\xFEb"), None);
    assert_eq!(decode_snapshot(b"activity-graph-cache-file\xFEa\xFEb"), None);
}

#[test]
fn a_file_that_is_not_cut_into_three_parts_is_refused() {
    assert_eq!(decode_snapshot(b""), None);
    assert_eq!(decode_snapshot(b"ACTIVITY-GRAPH-CACHE-FILE"), None);
    assert_eq!(decode_snapshot(b"ACTIVITY-GRAPH-CACHE-FILE\xFEa"), None);
    assert_eq!(decode_snapshot(b"ACTIVITY-GRAPH-CACHE-FILE\xFEa\xFEb\xFEc"), None);
    assert_eq!(decode_snapshot(b"ACTIVITY-GRAPH-CACHE-FILE\xFEa\xFEb\xFE"), None);
}

#[test]
fn a_file_whose_parts_are_no_text_is_refused() {
    assert_eq!(decode_snapshot(b"ACTIVITY-GRAPH-CACHE-FILE\xFE\xFFa\xFEb"), None);
    assert_eq!(decode_snapshot(b"ACTIVITY-GRAPH-CACHE-FILE\xFEa\xFE\xC3"), None);
}

#[test]
fn empty_parts_are_parts() {
    assert_eq!(
        decode_snapshot(b"ACTIVITY-GRAPH-CACHE-FILE\xFE\xFE"),
        Some((String::new(), String::new()))
    );
}
