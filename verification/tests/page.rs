use livereload_core::page::html_response;
use livereload_core::page::STATUS_OK;
use livereload_core::page::STATUS_RENDER_ERROR;

fn holds(haystack: &[u8], needle: &[u8]) -> bool {
    !needle.is_empty() && needle.len() <= haystack.len()
        && (0..=haystack.len() - needle.len()).any(|i| &haystack[i..i + needle.len()] == needle)
}

#[test]
fn rendered_home_page_is_served_with_content_and_snippet() {
    let html = b"<html><body><h1>Hello, home page!</h1></body></html>".to_vec();
    let r = html_response(Ok(html));
    assert_eq!(r.status, STATUS_OK);
    assert!(holds(&r.body, b"<h1>Hello, home page!</h1>"));
    assert!(holds(&r.body, b"<script src=\"/reload/client.js\"></script>"));
}

#[test]
fn rendered_secondary_page_is_served_with_its_own_content() {
    let html = b"<html><body>another page</body></html>".to_vec();
    let r = html_response(Ok(html));
    assert_eq!(r.status, STATUS_OK);
    assert!(holds(&r.body, b"another page"));
    assert!(holds(&r.body, b"<script src=\"/reload/client.js\"></script>"));
}

#[test]
fn snippet_lands_before_the_closing_body_tag() {
    let html = b"<html><body>x</body></html>".to_vec();
    let r = html_response(Ok(html));
    assert_eq!(
        r.body,
        b"<html><body>x<script src=\"/reload/client.js\"></script></body></html>".to_vec()
    );
}

#[test]
fn render_failure_is_served_as_a_500_with_the_error_text() {
    let r = html_response(Err(b"missing variable `name`".to_vec()));
    assert_eq!(r.status, STATUS_RENDER_ERROR);
    assert_eq!(
        r.body,
        b"Failed to render template. Error: missing variable `name`".to_vec()
    );
}
