//! The document as text: splitting the input into lines (newline
//! delimited, with a carriage return before a newline dropped) and
//! rejoining the rewritten lines with single newlines, a trailing
//! newline guaranteed even when the input lacked one.

use vstd::prelude::*;

use crate::text::{find_char, find_from, lemma_find_from_bounds};

verus! {

/// One split-off line with a trailing carriage return removed.
pub open spec fn strip_cr(t: Seq<char>) -> Seq<char> {
    if t.len() > 0 && t[t.len() - 1] == '\r' {
        t.subrange(0, t.len() - 1)
    } else {
        t
    }
}

/// The lines of `s` from position `pos` on: pieces delimited by `'\n'`,
/// each with a carriage return before the delimiter dropped; a final
/// piece without a delimiter is a line of its own, and a trailing
/// delimiter opens no empty last line.
pub open spec fn split_from(s: Seq<char>, pos: int) -> Seq<Seq<char>>
    decreases s.len() - pos via split_from_dec
{
    if pos < 0 || pos >= s.len() {
        Seq::empty()
    } else {
        let j = find_from(s, pos, '\n');
        if j >= s.len() {
            seq![s.subrange(pos, s.len() as int)]
        } else {
            seq![strip_cr(s.subrange(pos, j))] + split_from(s, j + 1)
        }
    }
}

#[via_fn]
proof fn split_from_dec(s: Seq<char>, pos: int) {
    if 0 <= pos < s.len() {
        lemma_find_from_bounds(s, pos, '\n');
    }
}

/// All the lines of a document's text.
pub open spec fn split_lines_spec(s: Seq<char>) -> Seq<Seq<char>> {
    split_from(s, 0)
}

/// Splits a document's text into lines.
pub fn split_lines(contents: &str) -> (r: Vec<String>)
    ensures
        r.deep_view() == split_lines_spec(contents@),
{
    let len = contents.unicode_len();
    let mut r: Vec<String> = Vec::new();
    let mut pos: usize = 0;
    proof {
        assert(r.deep_view() + split_from(contents@, 0) =~= split_lines_spec(contents@));
    }
    while pos < len
        invariant
            0 <= pos <= len,
            len == contents@.len(),
            split_lines_spec(contents@) == r.deep_view() + split_from(contents@, pos as int),
        decreases len - pos,
    {
        let ghost r0 = r.deep_view();
        proof {
            lemma_find_from_bounds(contents@, pos as int, '\n');
        }
        let j = find_char(contents, pos, '\n');
        if j == len {
            let piece = contents.substring_char(pos, len);
            r.push(String::from_str(piece));
            proof {
                assert(r.deep_view() =~= r0 + seq![piece@]);
                assert(split_from(contents@, pos as int) == seq![piece@]);
                assert(r0 + split_from(contents@, pos as int) =~= r.deep_view() + split_from(
                    contents@,
                    len as int,
                ));
            }
            pos = len;
        } else {
            let end = if j > pos && contents.get_char(j - 1) == '\r' {
                j - 1
            } else {
                j
            };
            let piece = contents.substring_char(pos, end);
            r.push(String::from_str(piece));
            proof {
                assert(piece@ == strip_cr(contents@.subrange(pos as int, j as int)));
                assert(r.deep_view() =~= r0 + seq![piece@]);
                assert(split_from(contents@, pos as int) == seq![piece@] + split_from(
                    contents@,
                    j as int + 1,
                ));
                assert(r0 + split_from(contents@, pos as int) =~= r.deep_view() + split_from(
                    contents@,
                    j as int + 1,
                ));
            }
            pos = j + 1;
        }
    }
    r
}

/// The lines from `i` on, joined with single newlines and without a
/// trailing one.
pub open spec fn join_from(lines: Seq<Seq<char>>, i: int) -> Seq<char>
    decreases lines.len() - i,
{
    if i < 0 || i >= lines.len() {
        Seq::empty()
    } else if i == lines.len() - 1 {
        lines[i]
    } else {
        lines[i] + seq!['\n'] + join_from(lines, i + 1)
    }
}

/// The rejoined document: lines separated by single newlines, with a
/// trailing newline guaranteed.
pub open spec fn join_lines_spec(lines: Seq<Seq<char>>) -> Seq<char> {
    join_from(lines, 0) + seq!['\n']
}

/// Joins lines back into one document text, ending with a newline.
pub fn join_lines(lines: &Vec<String>) -> (r: String)
    ensures
        r@ == join_lines_spec(lines.deep_view()),
{
    let ghost dv: Seq<Seq<char>> = lines.deep_view();
    let n_lines = lines.len();
    let mut r = String::new();
    let mut i: usize = 0;
    proof {
        assert(r@ + join_from(dv, 0) =~= join_from(dv, 0));
    }
    while i < n_lines
        invariant
            0 <= i <= n_lines,
            n_lines == lines@.len(),
            dv == lines.deep_view(),
            join_from(dv, 0) == r@ + join_from(dv, i as int),
        decreases n_lines - i,
    {
        let ghost r0 = r@;
        proof {
            assert(dv[i as int] == lines@[i as int]@);
            reveal_strlit("\n");
        }
        r.append(lines[i].as_str());
        if i + 1 < n_lines {
            r.append("\n");
            proof {
                assert(join_from(dv, i as int) == dv[i as int] + seq!['\n'] + join_from(
                    dv,
                    i as int + 1,
                ));
                assert(r0 + join_from(dv, i as int) =~= r@ + join_from(dv, i as int + 1));
            }
        } else {
            proof {
                assert(join_from(dv, i as int) == dv[i as int]);
                assert(r0 + join_from(dv, i as int) =~= r@ + join_from(dv, i as int + 1));
            }
        }
        i = i + 1;
    }
    proof {
        reveal_strlit("\n");
    }
    r.append("\n");
    proof {
        assert(r@ =~= join_lines_spec(dv));
    }
    r
}

} // verus!
