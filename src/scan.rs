use vstd::prelude::*;

use crate::lines::{code_count, count_lines, lemma_code_le_text, lines_of, text_count};
use crate::paths::{counts, is_excluded_dir, should_count, should_skip, skips};

verus! {

/// What a scan found: the source files counted, all the lines read from them,
/// and those of the lines that are code.
#[derive(Clone, Copy, Debug, PartialEq, Eq, Structural)]
pub struct ScanResult {
    pub files: usize,
    pub total_lines: usize,
    pub code_lines: usize,
}

/// A regular file met under the scanned root: the names of its path's
/// components, and its content, or `None` where it could not be read.
#[derive(Debug)]
pub struct SourceFile {
    pub components: Vec<String>,
    pub content: Option<Vec<u8>>,
}

/// Whether a file at the path given by these component names is counted:
/// it lies in no excluded directory and has a source extension.
pub open spec fn included(cs: Seq<String>) -> bool {
    !skips(cs) && counts(cs)
}

/// What one file adds to the files, total lines and code lines of a scan.
pub open spec fn contribution(cs: Seq<String>, content: Option<Seq<u8>>) -> (nat, nat, nat) {
    match content {
        Some(c) => if included(cs) {
            (1, text_count(lines_of(c)), code_count(lines_of(c)))
        } else {
            (0, 0, 0)
        },
        None => (0, 0, 0),
    }
}

/// The content of a file, as a sequence of bytes.
pub open spec fn content_view(f: SourceFile) -> Option<Seq<u8>> {
    match f.content {
        Some(c) => Some(c@),
        None => None,
    }
}

/// The files, total lines and code lines that a scan of `fs` counts.
pub open spec fn scan_of(fs: Seq<SourceFile>) -> (nat, nat, nat)
    decreases fs.len(),
{
    if fs.len() == 0 {
        (0, 0, 0)
    } else {
        let p = scan_of(fs.drop_last());
        let d = contribution(fs.last().components@, content_view(fs.last()));
        (p.0 + d.0, p.1 + d.1, p.2 + d.2)
    }
}

/// Whether the counts fit in the fields of a `ScanResult`.
pub open spec fn fits(t: (nat, nat, nat)) -> bool {
    t.0 <= usize::MAX && t.1 <= usize::MAX && t.2 <= usize::MAX
}

impl ScanResult {
    /// The result of a scan that has counted nothing yet.
    pub fn new() -> (r: ScanResult)
        ensures
            r.files == 0 && r.total_lines == 0 && r.code_lines == 0,
    {
        ScanResult { files: 0, total_lines: 0, code_lines: 0 }
    }

    /// The result's three counts.
    pub open spec fn counts_view(self) -> (nat, nat, nat) {
        (self.files as nat, self.total_lines as nat, self.code_lines as nat)
    }

    /// Adds a file to the result: nothing where it is excluded, has another
    /// extension or could not be read (`content` is `None`). Returns false,
    /// and leaves the result as it was, where a count would overflow.
    pub fn record_file(&mut self, components: &Vec<String>, content: Option<&[u8]>) -> (ok: bool)
        ensures
            ({
                let d = contribution(
                    components@,
                    match content {
                        Some(c) => Some(c@),
                        None => None,
                    },
                );
                let o = old(self).counts_view();
                let t = (o.0 + d.0, o.1 + d.1, o.2 + d.2);
                &&& ok == fits(t)
                &&& ok ==> final(self).counts_view() == t
                &&& !ok ==> *final(self) == *old(self)
            }),
    {
        match content {
            Some(c) => {
                if !is_included(components) {
                    return true;
                }
                let (total, code) = count_lines(c);
                if self.files == usize::MAX || total > usize::MAX - self.total_lines || code
                    > usize::MAX - self.code_lines {
                    return false;
                }
                self.files = self.files + 1;
                self.total_lines = self.total_lines + total;
                self.code_lines = self.code_lines + code;
                true
            },
            None => true,
        }
    }
}

/// A scan counts no more files than it is given, and no more code lines than
/// lines.
pub proof fn lemma_scan_bounds(fs: Seq<SourceFile>)
    ensures
        scan_of(fs).0 <= fs.len(),
        scan_of(fs).2 <= scan_of(fs).1,
    decreases fs.len(),
{
    if fs.len() > 0 {
        lemma_scan_bounds(fs.drop_last());
        match content_view(fs.last()) {
            Some(c) => lemma_code_le_text(lines_of(c)),
            None => {},
        }
    }
}

/// Scanning more files never lowers the line count.
pub proof fn lemma_scan_prefix(fs: Seq<SourceFile>, j: int)
    requires
        0 <= j <= fs.len(),
    ensures
        scan_of(fs.take(j)).1 <= scan_of(fs).1,
    decreases fs.len(),
{
    if j == fs.len() {
        assert(fs.take(j) =~= fs);
    } else {
        assert(fs.drop_last().take(j) =~= fs.take(j));
        lemma_scan_prefix(fs.drop_last(), j);
    }
}

/// A scan of no files counts nothing.
pub proof fn lemma_empty_scan()
    ensures
        scan_of(Seq::<SourceFile>::empty()) == (0nat, 0nat, 0nat),
{
}

/// Where every file lies in an excluded directory, nothing is counted,
/// whatever the files' extensions.
pub proof fn lemma_excluded_counts_nothing(fs: Seq<SourceFile>)
    requires
        forall|i: int|
            0 <= i < fs.len() ==> exists|k: int|
                0 <= k < (#[trigger] fs[i]).components@.len() && is_excluded_dir(
                    fs[i].components@[k]@,
                ),
    ensures
        scan_of(fs) == (0nat, 0nat, 0nat),
    decreases fs.len(),
{
    if fs.len() > 0 {
        let f = fs[fs.len() - 1];
        let k = choose|k: int| 0 <= k < f.components@.len() && is_excluded_dir(f.components@[k]@);
        assert(skips(f.components@));
        assert forall|i: int| 0 <= i < fs.drop_last().len() implies exists|k: int|
            0 <= k < (#[trigger] fs.drop_last()[i]).components@.len() && is_excluded_dir(
                fs.drop_last()[i].components@[k]@,
            ) by {
            assert(fs.drop_last()[i] == fs[i]);
        }
        lemma_excluded_counts_nothing(fs.drop_last());
    }
}

/// A file without a source extension adds nothing to a scan, wherever it
/// lies and whatever it holds.
pub proof fn lemma_other_extension_ignored(fs: Seq<SourceFile>, f: SourceFile)
    requires
        !counts(f.components@),
    ensures
        scan_of(fs.push(f)) == scan_of(fs),
{
    assert(fs.push(f).drop_last() =~= fs);
}

/// Counts the source files among `files` and their lines. Returns `None`
/// exactly where the number of lines would overflow.
pub fn scan(files: &Vec<SourceFile>) -> (r: Option<ScanResult>)
    ensures
        r is None <==> scan_of(files@).1 > usize::MAX,
        r matches Some(s) ==> s.counts_view() == scan_of(files@),
{
    let mut result = ScanResult::new();
    let n = files.len();
    let mut i: usize = 0;
    assert(files@.take(0) =~= Seq::<SourceFile>::empty());
    while i < n
        invariant
            n == files@.len(),
            0 <= i <= n,
            result.counts_view() == scan_of(files@.take(i as int)),
        decreases n - i,
    {
        let f = &files[i];
        let content = match &f.content {
            Some(c) => Some(c.as_slice()),
            None => None,
        };
        let ghost prefix = files@.take(i + 1);
        proof {
            assert(prefix.drop_last() =~= files@.take(i as int));
            lemma_scan_bounds(prefix);
        }
        if !result.record_file(&f.components, content) {
            proof {
                lemma_scan_bounds(prefix);
                lemma_scan_prefix(files@, i + 1);
            }
            return None;
        }
        i = i + 1;
    }
    assert(files@.take(n as int) =~= files@);
    Some(result)
}

/// Whether the file at the path given by these component names is counted.
pub fn is_included(components: &Vec<String>) -> (r: bool)
    ensures
        r == included(components@),
{
    !should_skip(components) && should_count(components)
}

} // verus!
