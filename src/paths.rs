use vstd::prelude::*;
use vstd::slice::slice_subrange;

use crate::text::{chars_of, same_chars};

verus! {

/// A directory name that is skipped wherever it stands in a path.
pub open spec fn is_excluded_dir(name: Seq<char>) -> bool {
    name == "Intermediate"@ || name == "Binaries"@ || name == "Saved"@ || name == ".vs"@
}

/// A directory name that is skipped where it stands right under `Plugins`.
pub open spec fn is_plugin_generated(name: Seq<char>) -> bool {
    name == "Intermediate"@ || name == "ThirdParty"@
}

/// Whether a path, given by the names of its components, is left out of the
/// count: one of them is an excluded directory, or `Plugins` is followed by a
/// generated or third-party directory.
pub open spec fn skips(cs: Seq<String>) -> bool {
    (exists|k: int| 0 <= k < cs.len() && is_excluded_dir(#[trigger] cs[k]@)) || (exists|k: int|
        0 <= k && k + 1 < cs.len() && #[trigger] cs[k]@ == "Plugins"@ && is_plugin_generated(
            cs[k + 1]@,
        ))
}

/// The index of the last `.` in `s`, or -1 where there is none.
pub open spec fn last_dot(s: Seq<char>) -> int
    decreases s.len(),
{
    if s.len() == 0 {
        -1
    } else if s.last() == '.' {
        s.len() - 1
    } else {
        last_dot(s.drop_last())
    }
}

/// The extension of a file name: what follows its last `.`, where that dot
/// is not the name's first character and the name is not `..`.
pub open spec fn extension_of(name: Seq<char>) -> Option<Seq<char>> {
    if name == ".."@ || last_dot(name) <= 0 {
        None
    } else {
        Some(name.skip(last_dot(name) + 1))
    }
}

/// An extension of the source files that are counted.
pub open spec fn is_source_ext(e: Seq<char>) -> bool {
    e == "h"@ || e == "cpp"@ || e == "inl"@
}

/// Whether the file at a path, given by the names of its components, has a
/// source extension.
pub open spec fn counts(cs: Seq<String>) -> bool {
    cs.len() > 0 && match extension_of(cs.last()@) {
        Some(e) => is_source_ext(e),
        None => false,
    }
}

/// Whether the characters in `v` are those of `lit`.
fn chars_are(v: &[char], lit: &str) -> (r: bool)
    ensures
        r == (v@ == lit@),
{
    let w = chars_of(lit);
    same_chars(v, w.as_slice())
}

/// Whether `name` is the text `lit`.
fn name_is(name: &String, lit: &str) -> (r: bool)
    ensures
        r == (name@ == lit@),
{
    let v = chars_of(name.as_str());
    chars_are(v.as_slice(), lit)
}

/// Whether the path given by the names of its components lies in an excluded
/// directory.
pub fn should_skip(components: &Vec<String>) -> (r: bool)
    ensures
        r == skips(components@),
{
    let n = components.len();
    let mut i: usize = 0;
    while i < n
        invariant
            n == components@.len(),
            0 <= i <= n,
            forall|k: int| 0 <= k < i ==> !is_excluded_dir(#[trigger] components@[k]@),
        decreases n - i,
    {
        let c = &components[i];
        if name_is(c, "Intermediate") || name_is(c, "Binaries") || name_is(c, "Saved") || name_is(
            c,
            ".vs",
        ) {
            return true;
        }
        i = i + 1;
    }
    let mut j: usize = 0;
    while j < n
        invariant
            n == components@.len(),
            0 <= j <= n,
            forall|k: int| 0 <= k < n ==> !is_excluded_dir(#[trigger] components@[k]@),
            forall|k: int|
                0 <= k < j && k + 1 < n ==> !(#[trigger] components@[k]@ == "Plugins"@ && is_plugin_generated(
                    components@[k + 1]@,
                )),
        decreases n - j,
    {
        if j + 1 < n && name_is(&components[j], "Plugins") {
            let next = &components[j + 1];
            if name_is(next, "Intermediate") || name_is(next, "ThirdParty") {
                return true;
            }
        }
        j = j + 1;
    }
    false
}

/// Whether the file at the path given by the names of its components has one
/// of the counted extensions: `h`, `cpp` or `inl`.
pub fn should_count(components: &Vec<String>) -> (r: bool)
    ensures
        r == counts(components@),
{
    let n = components.len();
    if n == 0 {
        return false;
    }
    let name = chars_of(components[n - 1].as_str());
    let ghost s = name@;
    if chars_are(name.as_slice(), "..") {
        return false;
    }
    let mut k: usize = name.len();
    assert(s.take(k as int) =~= s);
    while k > 0 && name[k - 1] != '.'
        invariant
            k <= s.len(),
            s == name@,
            last_dot(s) == last_dot(s.take(k as int)),
        decreases k,
    {
        assert(s.take(k as int).drop_last() =~= s.take(k - 1));
        k = k - 1;
    }
    proof {
        if k > 0 {
            assert(s.take(k as int).last() == '.');
        } else {
            assert(s.take(0) =~= Seq::<char>::empty());
        }
    }
    if k <= 1 {
        return false;
    }
    let ext = slice_subrange(name.as_slice(), k, name.len());
    assert(ext@ =~= s.skip(k as int));
    chars_are(ext, "h") || chars_are(ext, "cpp") || chars_are(ext, "inl")
}

} // verus!
