use vstd::prelude::*;
use vstd::slice::slice_subrange;
use vstd::utf8::*;

use crate::classify::{is_comment_or_empty, is_non_code};

verus! {

/// The line feed byte, which ends a line.
pub const LINE_FEED: u8 = 10;

/// The carriage return byte, dropped when it ends a line.
pub const CARRIAGE_RETURN: u8 = 13;

/// A line without the carriage return that a CRLF ending leaves on it.
pub open spec fn strip_cr(l: Seq<u8>) -> Seq<u8> {
    if l.len() > 0 && l.last() == CARRIAGE_RETURN {
        l.drop_last()
    } else {
        l
    }
}

/// The lines of `c` from the one that starts at `start`, having looked up to
/// `i` for its end. Each line ends before a line feed or at the end of `c`;
/// an empty piece after the last line feed is no line.
pub open spec fn lines_from(c: Seq<u8>, start: int, i: int) -> Seq<Seq<u8>>
    decreases c.len() - i,
{
    if i < 0 || i >= c.len() {
        if 0 <= start < c.len() {
            seq![strip_cr(c.subrange(start, c.len() as int))]
        } else {
            seq![]
        }
    } else if c[i] == LINE_FEED {
        seq![strip_cr(c.subrange(start, i))] + lines_from(c, i + 1, i + 1)
    } else {
        lines_from(c, start, i + 1)
    }
}

/// The lines of a file's content, as reading it line by line gives them.
pub open spec fn lines_of(c: Seq<u8>) -> Seq<Seq<u8>> {
    lines_from(c, 0, 0)
}

/// How many of the lines are text, that is valid UTF-8: only those are read.
pub open spec fn text_count(ls: Seq<Seq<u8>>) -> nat
    decreases ls.len(),
{
    if ls.len() == 0 {
        0
    } else {
        text_count(ls.drop_last()) + if valid_utf8(ls.last()) {
            1nat
        } else {
            0nat
        }
    }
}

/// How many of the lines are text and code.
pub open spec fn code_count(ls: Seq<Seq<u8>>) -> nat
    decreases ls.len(),
{
    if ls.len() == 0 {
        0
    } else {
        code_count(ls.drop_last()) + if valid_utf8(ls.last()) && !is_non_code(
            decode_utf8(ls.last()),
        ) {
            1nat
        } else {
            0nat
        }
    }
}

/// How many line feeds `c` holds.
pub open spec fn line_feeds(c: Seq<u8>) -> nat
    decreases c.len(),
{
    if c.len() == 0 {
        0
    } else {
        line_feeds(c.drop_first()) + if c[0] == LINE_FEED {
            1nat
        } else {
            0nat
        }
    }
}

proof fn lemma_lines_from_len(c: Seq<u8>, start: int, i: int)
    requires
        0 <= i < c.len(),
        c.last() == LINE_FEED,
    ensures
        lines_from(c, start, i).len() == line_feeds(c.skip(i)),
    decreases c.len() - i,
{
    assert(c.skip(i).drop_first() =~= c.skip(i + 1));
    assert(c.skip(i)[0] == c[i]);
    assert(line_feeds(c.skip(i)) == line_feeds(c.skip(i + 1)) + if c[i] == LINE_FEED {
        1nat
    } else {
        0nat
    });
    if i + 1 < c.len() {
        lemma_lines_from_len(c, start, i + 1);
        lemma_lines_from_len(c, i + 1, i + 1);
    } else {
        assert(c.skip(i + 1).len() == 0);
        assert(lines_from(c, i + 1, i + 1).len() == 0);
    }
}

proof fn lemma_all_text(ls: Seq<Seq<u8>>)
    requires
        forall|k: int| 0 <= k < ls.len() ==> valid_utf8(#[trigger] ls[k]),
    ensures
        text_count(ls) == ls.len(),
    decreases ls.len(),
{
    if ls.len() > 0 {
        lemma_all_text(ls.drop_last());
    }
}

/// Where every line is text and the content ends with a line break, or is
/// empty, the lines read are as many as the line breaks, and no more of them
/// are code.
pub proof fn lemma_lines_are_line_breaks(c: Seq<u8>)
    requires
        c.len() == 0 || c.last() == LINE_FEED,
        forall|k: int| 0 <= k < lines_of(c).len() ==> valid_utf8(#[trigger] lines_of(c)[k]),
    ensures
        text_count(lines_of(c)) == line_feeds(c),
        code_count(lines_of(c)) <= text_count(lines_of(c)),
{
    lemma_all_text(lines_of(c));
    lemma_code_le_text(lines_of(c));
    if c.len() > 0 {
        lemma_lines_from_len(c, 0, 0);
        assert(c.skip(0) =~= c);
    }
}

/// Relies on std::str::from_utf8: it succeeds exactly on valid UTF-8, with
/// the text that the bytes encode.
#[verifier::external_body]
fn utf8_text(b: &[u8]) -> (r: Option<&str>)
    ensures
        r is Some <==> valid_utf8(b@),
        r matches Some(s) ==> s@ == decode_utf8(b@),
{
    std::str::from_utf8(b).ok()
}

/// Of any lines, no more are code than are read, and no more are read than
/// there are.
pub proof fn lemma_code_le_text(ls: Seq<Seq<u8>>)
    ensures
        code_count(ls) <= text_count(ls),
        text_count(ls) <= ls.len(),
    decreases ls.len(),
{
    if ls.len() > 0 {
        lemma_code_le_text(ls.drop_last());
    }
}

/// Reads the line held in `content[start..end]`, a carriage return at its
/// end left out: whether it is text, and whether it is a code line.
fn read_line(content: &[u8], start: usize, end: usize) -> (r: (bool, bool))
    requires
        start <= end <= content@.len(),
    ensures
        ({
            let l = strip_cr(content@.subrange(start as int, end as int));
            r.0 == valid_utf8(l) && r.1 == (valid_utf8(l) && !is_non_code(decode_utf8(l)))
        }),
{
    let mut e = end;
    if e > start && content[e - 1] == CARRIAGE_RETURN {
        e = e - 1;
    }
    let piece = slice_subrange(content, start, e);
    assert(piece@ =~= strip_cr(content@.subrange(start as int, end as int)));
    match utf8_text(piece) {
        Some(s) => (true, !is_comment_or_empty(s)),
        None => (false, false),
    }
}

/// Counts the lines of `content` that are read, and of those the code lines.
pub fn count_lines(content: &[u8]) -> (r: (usize, usize))
    ensures
        r.0 == text_count(lines_of(content@)),
        r.1 == code_count(lines_of(content@)),
{
    let n = content.len();
    let ghost c = content@;
    let ghost mut done: Seq<Seq<u8>> = seq![];
    let mut total: usize = 0;
    let mut code: usize = 0;
    let mut start: usize = 0;
    let mut i: usize = 0;
    while i < n
        invariant
            n == c.len(),
            c == content@,
            start <= i <= n,
            done.len() <= start,
            done + lines_from(c, start as int, i as int) == lines_of(c),
            total == text_count(done),
            code == code_count(done),
        decreases n - i,
    {
        if content[i] == LINE_FEED {
            let line = read_line(content, start, i);
            proof {
                lemma_code_le_text(done);
                let l = strip_cr(c.subrange(start as int, i as int));
                assert(done.push(l) + lines_from(c, i + 1, i + 1) =~= done + lines_from(
                    c,
                    start as int,
                    i as int,
                ));
                assert(done.push(l).drop_last() =~= done);
                done = done.push(l);
            }
            if line.0 {
                total = total + 1;
            }
            if line.1 {
                code = code + 1;
            }
            start = i + 1;
        }
        i = i + 1;
    }
    if start < n {
        let line = read_line(content, start, n);
        proof {
            lemma_code_le_text(done);
            let l = strip_cr(c.subrange(start as int, n as int));
            assert(done.push(l) =~= done + lines_from(c, start as int, n as int));
            assert(done.push(l).drop_last() =~= done);
            done = done.push(l);
        }
        if line.0 {
            total = total + 1;
        }
        if line.1 {
            code = code + 1;
        }
    } else {
        assert(done =~= done + lines_from(c, start as int, n as int));
    }
    (total, code)
}

} // verus!
