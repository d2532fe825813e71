//! The virtual-path filter: pseudo-filesystems and locations known to be slow
//! are left out of a scan, unless the scan was started inside one.

use vstd::prelude::*;
use crate::paths::{path_starts_with, starts_with};

verus! {

/// Substrings that mark a path as virtual or slow. Matching is case-sensitive.
pub const SLOW_PATTERNS: [&'static str; 14] = [
    "/Volumes/",
    "/.Spotlight-V100",
    "/.fseventsd",
    "/.DocumentRevisions-V100",
    "/System/Volumes/Data/.Spotlight-V100",
    "CoreSimulator/Volumes",
    "/.MobileBackups",
    ".timemachine",
    "/dev/",
    "/proc/",
    "/sys/",
    "/private/var/folders",
    "/private/var/db/dyld",
    "/private/var/db/uuidtext",
];

/// `text` holds `part` somewhere in it.
pub open spec fn has_text(text: Seq<char>, part: Seq<char>) -> bool {
    exists|i: int| 0 <= i <= text.len() - part.len() && #[trigger] text.subrange(i, i + part.len()) == part
}

/// Pattern `k` occurs in `path` and not in `root`.
pub open spec fn pattern_hit(path: Seq<char>, root: Seq<char>, k: int) -> bool {
    has_text(path, SLOW_PATTERNS[k]@) && !has_text(root, SLOW_PATTERNS[k]@)
}

/// Some pattern occurs in `path` and not in `root`.
pub open spec fn matches_filter(path: Seq<char>, root: Seq<char>) -> bool {
    exists|k: int| 0 <= k < 14 && #[trigger] pattern_hit(path, root, k)
}

/// Calls `contains` of std's string slices with a string as the pattern, which
/// is documented to hold exactly where the pattern matches some part of the text.
#[verifier::external_body]
fn contains_text(text: &str, part: &str) -> (r: bool)
    ensures
        r == has_text(text@, part@),
{
    text.contains(part)
}

/// Whether `path` is left out of a scan rooted at `root`: it holds a pattern
/// that the root does not hold, and it is neither the root nor one of the
/// directories the root lies in.
pub fn is_virtual_or_slow_path(path: &str, root: &str) -> (skip: bool)
    ensures
        skip == (!path_starts_with(root@, path@) && matches_filter(path@, root@)),
{
    if starts_with(root, path) {
        return false;
    }
    let mut k: usize = 0;
    while k < 14
        invariant
            k <= 14,
            !path_starts_with(root@, path@),
            forall|j: int| 0 <= j < k ==> !#[trigger] pattern_hit(path@, root@, j),
        decreases 14 - k,
    {
        let pattern = SLOW_PATTERNS[k];
        assert(pattern@ == SLOW_PATTERNS[k as int]@);
        if contains_text(path, pattern) && !contains_text(root, pattern) {
            assert(pattern_hit(path@, root@, k as int));
            return true;
        }
        k = k + 1;
    }
    false
}

/// The filter as a rule: a path that is neither the root nor above it is left
/// out exactly if it holds a forbidden substring that the root does not hold.
pub proof fn lemma_filter_rule(path: Seq<char>, root: Seq<char>)
    requires
        !path_starts_with(root, path),
    ensures
        (!path_starts_with(root, path) && matches_filter(path, root)) <==> exists|k: int|
            0 <= k < 14 && #[trigger] has_text(path, SLOW_PATTERNS[k]@) && !has_text(
                root,
                SLOW_PATTERNS[k]@,
            ),
{
    if matches_filter(path, root) {
        let k = choose|k: int| 0 <= k < 14 && #[trigger] pattern_hit(path, root, k);
        assert(has_text(path, SLOW_PATTERNS[k]@) && !has_text(root, SLOW_PATTERNS[k]@));
    }
    if exists|k: int|
        0 <= k < 14 && #[trigger] has_text(path, SLOW_PATTERNS[k]@) && !has_text(
            root,
            SLOW_PATTERNS[k]@,
        ) {
        let k = choose|k: int|
            0 <= k < 14 && #[trigger] has_text(path, SLOW_PATTERNS[k]@) && !has_text(
                root,
                SLOW_PATTERNS[k]@,
            );
        assert(pattern_hit(path, root, k));
    }
}

/// Whether a child that the walker lists is kept. With `same_filesystem`, a
/// child on another device than the root is dropped, and so is one that the
/// filter leaves out; `device` is `None` where the child could not be examined,
/// and the device test is then passed over.
pub fn keep_child(same_filesystem: bool, root_device: u64, device: Option<u64>, path: &str, root: &str) -> (keep:
    bool)
    ensures
        keep == (!same_filesystem || !((device is Some && device->0 != root_device) || (
        !path_starts_with(root@, path@) && matches_filter(path@, root@)))),
{
    if !same_filesystem {
        return true;
    }
    match device {
        Some(d) => {
            if d != root_device {
                return false;
            }
        },
        None => {},
    }
    !is_virtual_or_slow_path(path, root)
}

} // verus!
