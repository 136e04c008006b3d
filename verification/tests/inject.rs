use livereload_core::inject::body_close_marker;
use livereload_core::inject::inject_snippet;
use livereload_core::inject::reload_snippet;

fn occurrences(haystack: &[u8], needle: &[u8]) -> usize {
    if needle.is_empty() || needle.len() > haystack.len() {
        return 0;
    }
    (0..=haystack.len() - needle.len()).filter(|&i| &haystack[i..i + needle.len()] == needle).count()
}

#[test]
fn snippet_is_the_reload_client_tag() {
    assert_eq!(reload_snippet(), b"<script src=\"/reload/client.js\"></script>".to_vec());
    assert_eq!(body_close_marker(), b"</body>".to_vec());
}

#[test]
fn snippet_goes_before_the_closing_body_marker() {
    let body = b"<html><body>hello</body></html>".to_vec();
    let out = inject_snippet(&body, &reload_snippet(), &body_close_marker());
    let expected =
        b"<html><body>hello<script src=\"/reload/client.js\"></script></body></html>".to_vec();
    assert_eq!(out, expected);
}

#[test]
fn body_without_marker_still_gets_the_snippet_at_the_end() {
    let body = b"no closing tag here".to_vec();
    let out = inject_snippet(&body, &reload_snippet(), &body_close_marker());
    let mut expected = body.clone();
    expected.extend_from_slice(b"<script src=\"/reload/client.js\"></script>");
    assert_eq!(out, expected);
}

#[test]
fn empty_body_gets_just_the_snippet() {
    let body = Vec::new();
    let out = inject_snippet(&body, &reload_snippet(), &body_close_marker());
    assert_eq!(out, b"<script src=\"/reload/client.js\"></script>".to_vec());
}

#[test]
fn snippet_goes_before_the_first_of_two_markers() {
    let body = b"a</body>b</body>".to_vec();
    let out = inject_snippet(&body, &reload_snippet(), &body_close_marker());
    let expected = b"a<script src=\"/reload/client.js\"></script></body>b</body>".to_vec();
    assert_eq!(out, expected);
}

#[test]
fn body_already_holding_the_snippet_is_left_unchanged() {
    let body = b"<body>x<script src=\"/reload/client.js\"></script></body>".to_vec();
    let out = inject_snippet(&body, &reload_snippet(), &body_close_marker());
    assert_eq!(out, body);
}

#[test]
fn injecting_twice_equals_injecting_once() {
    let body = b"<html><body>page</body></html>".to_vec();
    let once = inject_snippet(&body, &reload_snippet(), &body_close_marker());
    let twice = inject_snippet(&once, &reload_snippet(), &body_close_marker());
    assert_eq!(once, twice);
}

#[test]
fn injected_body_holds_exactly_one_snippet() {
    for body in [
        b"<html><body>hello</body></html>".to_vec(),
        b"plain text".to_vec(),
        Vec::new(),
        b"a</body>b</body>".to_vec(),
    ] {
        let out = inject_snippet(&body, &reload_snippet(), &body_close_marker());
        assert_eq!(occurrences(&out, &reload_snippet()), 1);
        let again = inject_snippet(&out, &reload_snippet(), &body_close_marker());
        assert_eq!(occurrences(&again, &reload_snippet()), 1);
    }
}
