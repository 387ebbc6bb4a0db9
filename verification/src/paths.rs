use vstd::prelude::*;
use crate::text::{chars_of, ends_with};

verus! {

/// The map that a new game starts on.
pub const DEFAULT_MAP_PATH: &'static str = "assets/maps/chapter_01.json";

/// The map of the second chapter, which brings its own background art.
pub const CHAPTER_02_MAP_PATH: &'static str = "assets/maps/chapter_02.json";

/// `s` with every backslash turned into a forward slash.
pub open spec fn forward_slashes(s: Seq<char>) -> Seq<char> {
    s.map_values(|c: char| if c == '\\' { '/' } else { c })
}

/// Whether `path`, written with forward slashes, ends with the second
/// chapter's map path.
pub fn is_chapter_02_map_path(path: &str) -> (res: bool)
    ensures
        res == ends_with(forward_slashes(path@), CHAPTER_02_MAP_PATH@),
{
    let p = chars_of(path);
    let suffix = chars_of(CHAPTER_02_MAP_PATH);
    let n = p.len();
    let m = suffix.len();
    let ghost fs = forward_slashes(path@);
    if m > n {
        return false;
    }
    let mut k: usize = 0;
    while k < m
        invariant
            p@ == path@,
            suffix@ == CHAPTER_02_MAP_PATH@,
            n == p@.len(),
            m == suffix@.len(),
            m <= n,
            k <= m,
            fs == forward_slashes(path@),
            forall|j: int| 0 <= j < k ==> fs[(n - m) + j] == suffix@[j],
        decreases m - k,
    {
        let c = p[n - m + k];
        let c2 = if c == '\\' { '/' } else { c };
        if c2 != suffix[k] {
            assert(fs.subrange(n - m, n as int)[k as int] != suffix@[k as int]);
            return false;
        }
        k = k + 1;
    }
    assert(fs.subrange(n - m, n as int) =~= suffix@);
    true
}

/// The extension of a map's backup file: `bak` after the map's own
/// extension, or `bak` alone where the map has none.
pub open spec fn backup_extension_of(ext: Seq<char>) -> Seq<char> {
    if ext.len() == 0 {
        "bak"@
    } else {
        ext + ".bak"@
    }
}

/// The extension that a map's backup file gets, from the map's extension.
pub fn backup_extension(ext: &str) -> (res: String)
    ensures
        res@ == backup_extension_of(ext@),
{
    let mut out = String::from_str(ext);
    if ext.unicode_len() == 0 {
        out.append("bak");
    } else {
        out.append(".bak");
    }
    out
}

} // verus!
