//! Splicing the reload-client snippet into outgoing HTML bodies.
//!
//! Every HTML response is given a small tag that makes the browser open a
//! connection back to the reload endpoint and refresh the page when a reload
//! instruction arrives.  The tag is inserted immediately before the first
//! closing-body marker; a body without one — not valid HTML — still gets the
//! tag, appended at the end, rather than failing the response.  A body that
//! already holds the snippet is left untouched, so the splice is idempotent
//! and a response never carries the snippet twice.

use vstd::prelude::*;

verus! {

/// `pat` occurs in `s` at position `i`.
pub open spec fn match_at(s: Seq<u8>, pat: Seq<u8>, i: int) -> bool {
    &&& 0 <= i
    &&& i + pat.len() <= s.len()
    &&& s.subrange(i, i + pat.len()) == pat
}

/// `pat` occurs somewhere in `s`.
pub open spec fn contains_pat(s: Seq<u8>, pat: Seq<u8>) -> bool {
    exists|i: int| match_at(s, pat, i)
}

/// The least position at or after `i` where `pat` occurs in `s`, or
/// `s.len()` when it occurs nowhere at or after `i`.
pub open spec fn first_match_from(s: Seq<u8>, pat: Seq<u8>, i: int) -> int
    decreases s.len() - i,
{
    if i + pat.len() > s.len() {
        s.len() as int
    } else if match_at(s, pat, i) {
        i
    } else if i >= s.len() {
        s.len() as int
    } else {
        first_match_from(s, pat, i + 1)
    }
}

/// Where the snippet goes: the least position where `pat` occurs in `s`, or
/// the end of `s` when it occurs nowhere.
pub open spec fn insertion_point(s: Seq<u8>, pat: Seq<u8>) -> int {
    first_match_from(s, pat, 0)
}

/// What splicing `snippet` into `body` yields: `body` itself when it already
/// holds the snippet, else `body` with the snippet inserted before the first
/// occurrence of `marker` (at the end when there is none).
pub open spec fn inject_spec(body: Seq<u8>, snippet: Seq<u8>, marker: Seq<u8>) -> Seq<u8> {
    if contains_pat(body, snippet) {
        body
    } else {
        let p = insertion_point(body, marker);
        body.subrange(0, p) + snippet + body.subrange(p, body.len() as int)
    }
}

/// `first_match_from` returns a position between `i` and the end; no match
/// lies before it (at or after `i`); and it is a match whenever any match
/// lies at or after `i`.
proof fn lemma_first_match_from(s: Seq<u8>, pat: Seq<u8>, i: int)
    requires
        0 <= i <= s.len(),
    ensures
        i <= first_match_from(s, pat, i) <= s.len(),
        forall|j: int| i <= j < first_match_from(s, pat, i) ==> !match_at(s, pat, j),
        (exists|j: int| i <= j && match_at(s, pat, j)) ==> match_at(
            s,
            pat,
            first_match_from(s, pat, i),
        ),
        first_match_from(s, pat, i) < s.len() ==> match_at(s, pat, first_match_from(s, pat, i)),
    decreases s.len() - i,
{
    if i + pat.len() > s.len() {
        assert forall|j: int| i <= j && match_at(s, pat, j) implies false by {
            assert(j + pat.len() <= s.len());
        }
    } else if match_at(s, pat, i) {
    } else if i >= s.len() {
        if exists|j: int| i <= j && match_at(s, pat, j) {
            let j = choose|j: int| i <= j && match_at(s, pat, j);
            assert(j == s.len());
        }
    } else {
        lemma_first_match_from(s, pat, i + 1);
    }
}

/// The bounds and minimality of the insertion point, stated once for use by
/// the exec search and by the laws below.
pub proof fn lemma_insertion_point(s: Seq<u8>, pat: Seq<u8>)
    ensures
        0 <= insertion_point(s, pat) <= s.len(),
        forall|j: int| j < insertion_point(s, pat) ==> !match_at(s, pat, j),
        contains_pat(s, pat) ==> match_at(s, pat, insertion_point(s, pat)),
        !contains_pat(s, pat) ==> insertion_point(s, pat) == s.len(),
{
    lemma_first_match_from(s, pat, 0);
    if contains_pat(s, pat) {
        let j = choose|j: int| match_at(s, pat, j);
        assert(0 <= j && match_at(s, pat, j));
    }
}

/// Whether `pat` occurs in `s` starting at `i`, by direct comparison.
fn is_match_at(s: &Vec<u8>, pat: &Vec<u8>, i: usize) -> (r: bool)
    requires
        i + pat@.len() <= s@.len(),
    ensures
        r == match_at(s@, pat@, i as int),
{
    let n = s.len();
    let mut j: usize = 0;
    while j < pat.len()
        invariant
            j <= pat@.len(),
            i + pat@.len() <= s@.len(),
            n == s@.len(),
            forall|k: int| 0 <= k < j ==> s@[i + k] == pat@[k],
        decreases pat@.len() - j,
    {
        if s[i + j] != pat[j] {
            proof {
                let sub = s@.subrange(i as int, i + pat@.len());
                assert(sub[j as int] == s@[i + j]);
            }
            return false;
        }
        j = j + 1;
    }
    proof {
        assert(s@.subrange(i as int, i + pat@.len()) =~= pat@);
    }
    true
}

/// The position where the snippet is to be inserted: the start of the first
/// occurrence of `pat` in `s`, or the end of `s` when there is none.
fn find_insertion_point(s: &Vec<u8>, pat: &Vec<u8>) -> (r: usize)
    ensures
        r == insertion_point(s@, pat@),
{
    proof {
        lemma_insertion_point(s@, pat@);
    }
    if pat.len() > s.len() {
        return s.len();
    }
    if pat.len() == 0 {
        proof {
            assert(s@.subrange(0, 0) =~= pat@);
            assert(match_at(s@, pat@, 0));
        }
        return 0;
    }
    let last = s.len() - pat.len();
    let mut i: usize = 0;
    while i <= last
        invariant
            i <= last + 1,
            last + pat@.len() == s@.len(),
            s@.len() <= usize::MAX,
            0 < pat@.len(),
            insertion_point(s@, pat@) == first_match_from(s@, pat@, i as int),
        decreases last + 1 - i,
    {
        if is_match_at(s, pat, i) {
            proof {
                assert(first_match_from(s@, pat@, i as int) == i);
            }
            return i;
        }
        proof {
            assert(first_match_from(s@, pat@, i as int) == first_match_from(
                s@,
                pat@,
                i + 1,
            ));
        }
        i = i + 1;
    }
    proof {
        assert(i + pat@.len() > s@.len());
        assert(first_match_from(s@, pat@, i as int) == s@.len());
    }
    s.len()
}

/// Whether `pat` occurs anywhere in `s`.
fn contains_pattern(s: &Vec<u8>, pat: &Vec<u8>) -> (r: bool)
    ensures
        r == contains_pat(s@, pat@),
{
    proof {
        lemma_insertion_point(s@, pat@);
    }
    if pat.len() == 0 {
        proof {
            assert(s@.subrange(0, 0) =~= pat@);
            assert(match_at(s@, pat@, 0));
        }
        return true;
    }
    let p = find_insertion_point(s, pat);
    p < s.len()
}

/// Appends `src[from..to]` to `dst`.
pub(crate) fn append_range(dst: &mut Vec<u8>, src: &Vec<u8>, from: usize, to: usize)
    requires
        from <= to <= src@.len(),
    ensures
        final(dst)@ == old(dst)@ + src@.subrange(from as int, to as int),
{
    let mut i: usize = from;
    while i < to
        invariant
            from <= i <= to <= src@.len(),
            dst@ == old(dst)@ + src@.subrange(from as int, i as int),
        decreases to - i,
    {
        dst.push(src[i]);
        proof {
            assert(dst@ =~= old(dst)@ + src@.subrange(from as int, i + 1));
        }
        i = i + 1;
    }
}

/// Splices `snippet` into `body` before the first occurrence of `marker`
/// (at the end when the marker is absent), unless the body already holds
/// the snippet, in which case the body is returned unchanged.
pub fn inject_snippet(body: &Vec<u8>, snippet: &Vec<u8>, marker: &Vec<u8>) -> (r: Vec<u8>)
    ensures
        r@ == inject_spec(body@, snippet@, marker@),
{
    proof {
        lemma_insertion_point(body@, marker@);
    }
    if contains_pattern(body, snippet) {
        let mut r: Vec<u8> = Vec::new();
        append_range(&mut r, body, 0, body.len());
        proof {
            assert(body@.subrange(0, body@.len() as int) =~= body@);
            assert(r@ =~= body@);
        }
        r
    } else {
        let p = find_insertion_point(body, marker);
        let mut r: Vec<u8> = Vec::new();
        append_range(&mut r, body, 0, p);
        append_range(&mut r, snippet, 0, snippet.len());
        append_range(&mut r, body, p, body.len());
        proof {
            assert(snippet@.subrange(0, snippet@.len() as int) =~= snippet@);
            assert(r@ =~= body@.subrange(0, p as int) + snippet@ + body@.subrange(
                p as int,
                body@.len() as int,
            ));
        }
        r
    }
}

/// `pat` does not overlap itself: no nonempty proper prefix of it is also a
/// suffix of it.  The shipped reload snippet has this shape (see
/// [`lemma_reload_snippet_overlap_free`]), which rules out a second
/// occurrence arising across the seams of an insertion.
pub open spec fn overlap_free(pat: Seq<u8>) -> bool {
    forall|k: int|
        0 < k < pat.len() ==> pat.subrange(0, k) != pat.subrange(
            pat.len() - k,
            pat.len() as int,
        )
}

/// The bytes of the reload-client tag, `<script src="/reload/client.js">`
/// followed by `</script>`: it makes the browser load the small client that
/// listens on the reload endpoint and refreshes the page on instruction.
pub open spec fn spec_reload_snippet() -> Seq<u8> {
    seq![
        60u8, 115u8, 99u8, 114u8, 105u8, 112u8, 116u8, 32u8, 115u8, 114u8, 99u8, 61u8, 34u8,
        47u8, 114u8, 101u8, 108u8, 111u8, 97u8, 100u8, 47u8, 99u8, 108u8, 105u8, 101u8, 110u8,
        116u8, 46u8, 106u8, 115u8, 34u8, 62u8, 60u8, 47u8, 115u8, 99u8, 114u8, 105u8, 112u8,
        116u8, 62u8,
    ]
}

/// The bytes of `</body>`, the closing-body marker the snippet is inserted
/// before.
pub open spec fn spec_body_close_marker() -> Seq<u8> {
    seq![60u8, 47u8, 98u8, 111u8, 100u8, 121u8, 62u8]
}

/// The reload-client tag as bytes.
pub fn reload_snippet() -> (r: Vec<u8>)
    ensures
        r@ == spec_reload_snippet(),
{
    let mut v: Vec<u8> = Vec::new();
    v.push(60);
    v.push(115);
    v.push(99);
    v.push(114);
    v.push(105);
    v.push(112);
    v.push(116);
    v.push(32);
    v.push(115);
    v.push(114);
    v.push(99);
    v.push(61);
    v.push(34);
    v.push(47);
    v.push(114);
    v.push(101);
    v.push(108);
    v.push(111);
    v.push(97);
    v.push(100);
    v.push(47);
    v.push(99);
    v.push(108);
    v.push(105);
    v.push(101);
    v.push(110);
    v.push(116);
    v.push(46);
    v.push(106);
    v.push(115);
    v.push(34);
    v.push(62);
    v.push(60);
    v.push(47);
    v.push(115);
    v.push(99);
    v.push(114);
    v.push(105);
    v.push(112);
    v.push(116);
    v.push(62);
    proof {
        assert(v@ =~= spec_reload_snippet());
    }
    v
}

/// The closing-body marker as bytes.
pub fn body_close_marker() -> (r: Vec<u8>)
    ensures
        r@ == spec_body_close_marker(),
{
    let mut v: Vec<u8> = Vec::new();
    v.push(60);
    v.push(47);
    v.push(98);
    v.push(111);
    v.push(100);
    v.push(121);
    v.push(62);
    proof {
        assert(v@ =~= spec_body_close_marker());
    }
    v
}

/// The shipped reload snippet does not overlap itself: its only `<` bytes
/// stand at the start of the tag and at the start of `</script>`, and the
/// one candidate border those two allow differs in its second byte.
pub proof fn lemma_reload_snippet_overlap_free()
    ensures
        overlap_free(spec_reload_snippet()),
{
    let s = spec_reload_snippet();
    assert(s.len() == 41);
    assert forall|k: int| 0 < k < s.len() implies s.subrange(0, k) != s.subrange(
        s.len() - k,
        s.len() as int,
    ) by {
        if s.subrange(0, k) == s.subrange(41 - k, 41) {
            assert(s.subrange(0, k)[0] == s[0]);
            assert(s.subrange(41 - k, 41)[0] == s[41 - k]);
            assert(s[41 - k] == 60);
            assert forall|i: int| 0 <= i < 41 && s[i] == 60 implies i == 0 || i == 32 by {}
            assert(41 - k == 32);
            assert(s.subrange(0, k)[1] == s[1]);
            assert(s.subrange(32, 41)[1] == s[33]);
            assert(false);
        }
    }
}

/// A sequence that equals itself shifted by `d` has a nonempty proper prefix
/// that is also a suffix, so it overlaps itself.
proof fn lemma_shift_means_overlap(s: Seq<u8>, d: int)
    requires
        0 < d < s.len(),
        forall|m: int| 0 <= m < s.len() - d ==> #[trigger] s[m] == s[m + d],
    ensures
        !overlap_free(s),
{
    let k = s.len() - d;
    assert forall|t: int| 0 <= t < k implies s.subrange(0, k)[t] == s.subrange(
        s.len() - k,
        s.len() as int,
    )[t] by {
        assert(s[t] == s[t + d]);
    }
    assert(s.subrange(0, k) =~= s.subrange(s.len() - k, s.len() as int));
}

/// The spliced body always holds the snippet: it did already, or it now does
/// at the insertion point.
pub proof fn lemma_inject_contains(body: Seq<u8>, snippet: Seq<u8>, marker: Seq<u8>)
    ensures
        contains_pat(inject_spec(body, snippet, marker), snippet),
{
    if !contains_pat(body, snippet) {
        lemma_insertion_point(body, marker);
        let p = insertion_point(body, marker);
        let r = inject_spec(body, snippet, marker);
        assert forall|t: int| 0 <= t < snippet.len() implies r.subrange(
            p,
            p + snippet.len(),
        )[t] == snippet[t] by {
            assert(r[p + t] == snippet[t]);
        }
        assert(r.subrange(p, p + snippet.len()) =~= snippet);
        assert(match_at(r, snippet, p));
    }
}

/// Splicing the snippet a second time changes nothing: the result of one
/// splice already holds the snippet, so the next splice returns it as it is.
pub proof fn lemma_inject_idempotent(body: Seq<u8>, snippet: Seq<u8>, marker: Seq<u8>)
    ensures
        inject_spec(inject_spec(body, snippet, marker), snippet, marker) == inject_spec(
            body,
            snippet,
            marker,
        ),
{
    lemma_inject_contains(body, snippet, marker);
}

/// A body that does not yet hold an overlap-free snippet holds, after the
/// splice, exactly one occurrence of it: the one at the insertion point, and
/// no other anywhere in the result.
pub proof fn lemma_inject_exactly_once(body: Seq<u8>, snippet: Seq<u8>, marker: Seq<u8>)
    requires
        !contains_pat(body, snippet),
        overlap_free(snippet),
    ensures
        ({
            let r = inject_spec(body, snippet, marker);
            let p = insertion_point(body, marker);
            &&& match_at(r, snippet, p)
            &&& forall|j: int| j != p ==> !match_at(r, snippet, j)
        }),
{
    lemma_insertion_point(body, marker);
    lemma_inject_contains(body, snippet, marker);
    let r = inject_spec(body, snippet, marker);
    let p = insertion_point(body, marker);
    let bl = body.len() as int;
    let sl = snippet.len() as int;
    if sl == 0 {
        assert(body.subrange(0, 0) =~= snippet);
        assert(match_at(body, snippet, 0));
    }
    assert(0 < sl);
    assert(r.len() == bl + sl);
    assert forall|x: int| 0 <= x < p implies r[x] == body[x] by {}
    assert forall|x: int| p <= x < p + sl implies r[x] == snippet[x - p] by {}
    assert forall|x: int| p + sl <= x < bl + sl implies r[x] == body[x - sl] by {}
    assert forall|t: int| 0 <= t < sl implies r.subrange(p, p + sl)[t] == snippet[t] by {
        assert(r[p + t] == snippet[t]);
    }
    assert(r.subrange(p, p + sl) =~= snippet);
    assert(match_at(r, snippet, p));
    assert forall|j: int| j != p implies !match_at(r, snippet, j) by {
        if match_at(r, snippet, j) {
            assert forall|m: int| 0 <= m < sl implies r[j + m] == snippet[m] by {
                assert(r.subrange(j, j + sl)[m] == r[j + m]);
            }
            if j + sl <= p {
                assert forall|t: int| 0 <= t < sl implies body.subrange(j, j + sl)[t]
                    == snippet[t] by {
                    assert(r[j + t] == body[j + t]);
                }
                assert(body.subrange(j, j + sl) =~= snippet);
                assert(match_at(body, snippet, j));
            } else if j >= p + sl {
                assert forall|t: int| 0 <= t < sl implies body.subrange(j - sl, j)[t]
                    == snippet[t] by {
                    assert(r[j + t] == body[j + t - sl]);
                }
                assert(body.subrange(j - sl, j) =~= snippet);
                assert(match_at(body, snippet, j - sl));
            } else if j < p {
                // The occurrence straddles the seam on the snippet's left:
                // the snippet would overlap itself shifted by `d`.
                let d = p - j;
                assert(0 < d < sl);
                assert forall|m: int| 0 <= m < sl - d implies #[trigger] snippet[m] == snippet[
                    m + d
                ] by {
                    assert(r[j + (m + d)] == snippet[m + d]);
                    assert(r[p + m] == snippet[m]);
                    assert(j + (m + d) == p + m);
                }
                lemma_shift_means_overlap(snippet, d);
            } else {
                // The occurrence straddles the seam on the snippet's right.
                let d = j - p;
                assert(0 < d < sl);
                assert forall|m: int| 0 <= m < sl - d implies #[trigger] snippet[m] == snippet[
                    m + d
                ] by {
                    assert(r[j + m] == snippet[m]);
                    assert(r[p + (d + m)] == snippet[d + m]);
                    assert(j + m == p + (d + m));
                }
                lemma_shift_means_overlap(snippet, d);
            }
        }
    }
}

} // verus!
