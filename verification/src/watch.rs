//! The watched directories and the check that a changed path falls under one.
//!
//! The watcher observes a fixed, configured pair of directories — the
//! templates directory and the assets directory — recursively.  The OS-level
//! watch handles live outside this crate; what is decided here is the
//! configuration itself and whether a reported path lies under a watched
//! directory.

use vstd::prelude::*;
use crate::debounce::DebounceModel;
use crate::debounce::lemma_two_events_coalesce;
use crate::debounce::spec_after_event;
use crate::debounce::spec_fires;

verus! {

/// One directory to watch: its path (relative to the working directory at
/// startup) and whether to watch it recursively.
pub struct WatchTarget {
    pub path: Vec<u8>,
    pub recursive: bool,
}

/// The bytes of `templates`, the directory the page templates live in.
pub open spec fn spec_templates_dir() -> Seq<u8> {
    seq![116u8, 101u8, 109u8, 112u8, 108u8, 97u8, 116u8, 101u8, 115u8]
}

/// The bytes of `assets`, the directory the static files live in.
pub open spec fn spec_assets_dir() -> Seq<u8> {
    seq![97u8, 115u8, 115u8, 101u8, 116u8, 115u8]
}

/// `p` lies under the directory `dir`: it is `dir` itself or a path below
/// it, the next byte after the directory prefix being the path separator.
pub open spec fn path_under(p: Seq<u8>, dir: Seq<u8>) -> bool {
    &&& dir.len() <= p.len()
    &&& p.subrange(0, dir.len() as int) == dir
    &&& (p.len() == dir.len() || p[dir.len() as int] == 47)
}

/// The templates directory as bytes.
pub fn templates_dir() -> (r: Vec<u8>)
    ensures
        r@ == spec_templates_dir(),
{
    let mut v: Vec<u8> = Vec::new();
    v.push(116);
    v.push(101);
    v.push(109);
    v.push(112);
    v.push(108);
    v.push(97);
    v.push(116);
    v.push(101);
    v.push(115);
    proof {
        assert(v@ =~= spec_templates_dir());
    }
    v
}

/// The assets directory as bytes.
pub fn assets_dir() -> (r: Vec<u8>)
    ensures
        r@ == spec_assets_dir(),
{
    let mut v: Vec<u8> = Vec::new();
    v.push(97);
    v.push(115);
    v.push(115);
    v.push(101);
    v.push(116);
    v.push(115);
    proof {
        assert(v@ =~= spec_assets_dir());
    }
    v
}

/// The fixed watch configuration: the templates directory and the assets
/// directory, both recursive.
pub fn default_watch_targets() -> (r: Vec<WatchTarget>)
    ensures
        r@.len() == 2,
        r@[0].path@ == spec_templates_dir(),
        r@[0].recursive == true,
        r@[1].path@ == spec_assets_dir(),
        r@[1].recursive == true,
{
    let mut r: Vec<WatchTarget> = Vec::new();
    r.push(WatchTarget { path: templates_dir(), recursive: true });
    r.push(WatchTarget { path: assets_dir(), recursive: true });
    r
}

/// Whether `path` lies under the directory `dir`.
pub fn path_is_under(path: &Vec<u8>, dir: &Vec<u8>) -> (r: bool)
    ensures
        r == path_under(path@, dir@),
{
    if dir.len() > path.len() {
        return false;
    }
    let mut i: usize = 0;
    while i < dir.len()
        invariant
            i <= dir@.len() <= path@.len(),
            forall|k: int| 0 <= k < i ==> path@[k] == dir@[k],
        decreases dir@.len() - i,
    {
        if path[i] != dir[i] {
            proof {
                assert(path@.subrange(0, dir@.len() as int)[i as int] == path@[i as int]);
            }
            return false;
        }
        i = i + 1;
    }
    proof {
        assert(path@.subrange(0, dir@.len() as int) =~= dir@);
    }
    if path.len() == dir.len() {
        true
    } else {
        path[dir.len()] == 47
    }
}

/// A change event under the templates directory and one under the assets
/// directory feed one and the same debouncer, whatever their paths: within
/// the window they yield exactly one coalesced notification, outside it two
/// separate ones.
pub proof fn lemma_cross_directory_events_coalesce(
    p1: Seq<u8>,
    p2: Seq<u8>,
    window_ms: u64,
    t1: u64,
    t2: u64,
)
    requires
        path_under(p1, spec_templates_dir()),
        path_under(p2, spec_assets_dir()),
        t1 <= t2,
    ensures
        ({
            let d0 = DebounceModel { window_ms, last_fire_ms: Option::None::<u64> };
            let d1 = spec_after_event(d0, t1);
            &&& spec_fires(d0, t1)
            &&& (t2 < t1 + window_ms ==> !spec_fires(d1, t2))
            &&& (t2 >= t1 + window_ms ==> spec_fires(d1, t2))
        }),
{
    lemma_two_events_coalesce(window_ms, t1, t2);
}

} // verus!
