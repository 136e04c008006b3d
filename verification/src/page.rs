//! From a template-rendering outcome to an HTTP status and body.
//!
//! The handlers for the fixed pages ask the template renderer for HTML and
//! hand its outcome here: a rendered page is served with status 200 and the
//! reload-client snippet spliced in, a rendering failure is served with
//! status 500 and the error's text, so a bad template never takes the
//! process down.

use vstd::prelude::*;
use crate::inject::append_range;
use crate::inject::body_close_marker;
use crate::inject::contains_pat;
use crate::inject::inject_snippet;
use crate::inject::inject_spec;
use crate::inject::insertion_point;
use crate::inject::lemma_inject_exactly_once;
use crate::inject::lemma_reload_snippet_overlap_free;
use crate::inject::match_at;
use crate::inject::reload_snippet;
use crate::inject::spec_body_close_marker;
use crate::inject::spec_reload_snippet;

verus! {

/// The status code of a served page.
pub const STATUS_OK: u16 = 200;

/// The status code of a page whose template failed to render.
pub const STATUS_RENDER_ERROR: u16 = 500;

/// A response decided by this crate: a status code and a body.
pub struct PageResponse {
    pub status: u16,
    pub body: Vec<u8>,
}

/// The bytes of `Failed to render template. Error: `, put before the
/// error's own text in a render-failure response.
pub open spec fn spec_render_error_prefix() -> Seq<u8> {
    seq![
        70u8, 97u8, 105u8, 108u8, 101u8, 100u8, 32u8, 116u8, 111u8, 32u8, 114u8, 101u8, 110u8,
        100u8, 101u8, 114u8, 32u8, 116u8, 101u8, 109u8, 112u8, 108u8, 97u8, 116u8, 101u8, 46u8,
        32u8, 69u8, 114u8, 114u8, 111u8, 114u8, 58u8, 32u8,
    ]
}

/// The body of a page served after a successful render: the rendered HTML
/// with the reload-client snippet spliced in.
pub open spec fn spec_page_body(html: Seq<u8>) -> Seq<u8> {
    inject_spec(html, spec_reload_snippet(), spec_body_close_marker())
}

/// The body of a render-failure response: the fixed prefix followed by the
/// error's text.
pub open spec fn spec_error_body(msg: Seq<u8>) -> Seq<u8> {
    spec_render_error_prefix() + msg
}

/// The render-failure prefix as bytes.
pub fn render_error_prefix() -> (r: Vec<u8>)
    ensures
        r@ == spec_render_error_prefix(),
{
    let mut v: Vec<u8> = Vec::new();
    v.push(70);
    v.push(97);
    v.push(105);
    v.push(108);
    v.push(101);
    v.push(100);
    v.push(32);
    v.push(116);
    v.push(111);
    v.push(32);
    v.push(114);
    v.push(101);
    v.push(110);
    v.push(100);
    v.push(101);
    v.push(114);
    v.push(32);
    v.push(116);
    v.push(101);
    v.push(109);
    v.push(112);
    v.push(108);
    v.push(97);
    v.push(116);
    v.push(101);
    v.push(46);
    v.push(32);
    v.push(69);
    v.push(114);
    v.push(114);
    v.push(111);
    v.push(114);
    v.push(58);
    v.push(32);
    proof {
        assert(v@ =~= spec_render_error_prefix());
    }
    v
}

/// Decides the response to a page request from the renderer's outcome:
/// rendered HTML is served with status 200 and the reload-client snippet
/// spliced in; a rendering failure is served with status 500 and a body
/// naming the failure, never a crash.
pub fn html_response(rendered: Result<Vec<u8>, Vec<u8>>) -> (r: PageResponse)
    ensures
        rendered matches Ok(html) ==> r.status == STATUS_OK && r.body@ == spec_page_body(html@),
        rendered matches Err(msg) ==> r.status == STATUS_RENDER_ERROR && r.body@
            == spec_error_body(msg@),
{
    match rendered {
        Ok(html) => {
            let snippet = reload_snippet();
            let marker = body_close_marker();
            let body = inject_snippet(&html, &snippet, &marker);
            PageResponse { status: STATUS_OK, body }
        },
        Err(msg) => {
            let mut body = render_error_prefix();
            append_range(&mut body, &msg, 0, msg.len());
            proof {
                assert(msg@.subrange(0, msg@.len() as int) =~= msg@);
            }
            PageResponse { status: STATUS_RENDER_ERROR, body }
        },
    }
}

/// A page whose rendered HTML does not already carry the reload snippet is
/// served with exactly one occurrence of it: one at the insertion point,
/// none anywhere else in the body.
pub proof fn lemma_page_body_snippet_once(html: Seq<u8>)
    requires
        !contains_pat(html, spec_reload_snippet()),
    ensures
        ({
            let b = spec_page_body(html);
            let p = insertion_point(html, spec_body_close_marker());
            &&& match_at(b, spec_reload_snippet(), p)
            &&& forall|j: int| j != p ==> !match_at(b, spec_reload_snippet(), j)
        }),
{
    lemma_reload_snippet_overlap_free();
    lemma_inject_exactly_once(html, spec_reload_snippet(), spec_body_close_marker());
}

} // verus!
