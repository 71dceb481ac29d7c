//! Splitting text into lines, with the conventions of `str::lines`: lines end
//! at `'\n'`, a carriage return directly before a `'\n'` is stripped, a final
//! line needs no terminator, and a trailing terminator adds no empty line.

use vstd::prelude::*;
use crate::chars::subvec;

verus! {

/// Index of the first `'\n'` in `s`, or -1 when there is none.
pub open spec fn first_nl(s: Seq<char>) -> int
    decreases s.len(),
{
    if s.len() == 0 {
        -1
    } else if s[0] == '\n' {
        0
    } else {
        let r = first_nl(s.skip(1));
        if r < 0 {
            -1
        } else {
            r + 1
        }
    }
}

/// `first_nl` finds the least index holding `'\n'`, and -1 exactly when
/// no `'\n'` occurs.
pub proof fn lemma_first_nl(s: Seq<char>)
    ensures
        first_nl(s) == -1 ==> forall|j: int| 0 <= j < s.len() ==> s[j] != '\n',
        first_nl(s) != -1 ==> 0 <= first_nl(s) < s.len() && s[first_nl(s)] == '\n' && forall|j: int|
            0 <= j < first_nl(s) ==> s[j] != '\n',
    decreases s.len(),
{
    if s.len() == 0 {
    } else if s[0] == '\n' {
    } else {
        lemma_first_nl(s.skip(1));
        assert(forall|j: int| 1 <= j < s.len() ==> s[j] == s.skip(1)[j - 1]);
    }
}

/// Drops one trailing carriage return, if present.
pub open spec fn strip_cr(l: Seq<char>) -> Seq<char> {
    if l.len() > 0 && l[l.len() - 1] == '\r' {
        l.take(l.len() - 1)
    } else {
        l
    }
}

/// The lines of `s`, in order, without their terminators.
pub open spec fn split_lines(s: Seq<char>) -> Seq<Seq<char>>
    decreases s.len(),
    via split_lines_decreases
{
    if s.len() == 0 {
        Seq::empty()
    } else {
        let i = first_nl(s);
        if i < 0 {
            seq![s]
        } else {
            seq![strip_cr(s.take(i))] + split_lines(s.skip(i + 1))
        }
    }
}

#[via_fn]
proof fn split_lines_decreases(s: Seq<char>) {
    lemma_first_nl(s);
}

/// Splits a character vector into its lines.
pub fn split_lines_exec(content: &Vec<char>) -> (lines: Vec<Vec<char>>)
    ensures
        lines@.map_values(|l: Vec<char>| l@) == split_lines(content@),
{
    let n = content.len();
    let mut lines: Vec<Vec<char>> = Vec::new();
    let mut pos: usize = 0;
    proof {
        assert(content@.skip(0) =~= content@);
        assert(lines@.map_values(|l: Vec<char>| l@) + split_lines(content@) =~= split_lines(
            content@,
        ));
    }
    while pos < n
        invariant
            pos <= n,
            n == content@.len(),
            lines@.map_values(|l: Vec<char>| l@) + split_lines(content@.skip(pos as int))
                == split_lines(content@),
        decreases n - pos,
    {
        let ghost prev = lines@.map_values(|l: Vec<char>| l@);
        let ghost rest = content@.skip(pos as int);
        let mut j: usize = pos;
        while j < n && content[j] != '\n'
            invariant
                pos <= j <= n,
                n == content@.len(),
                forall|k: int| pos <= k < j ==> content@[k] != '\n',
            decreases n - j,
        {
            j += 1;
        }
        proof {
            lemma_first_nl(rest);
            assert(forall|k: int| 0 <= k < rest.len() ==> rest[k] == content@[pos + k]);
        }
        if j < n {
            proof {
                assert(rest[j - pos] == '\n');
                assert(forall|k: int| 0 <= k < j - pos ==> rest[k] != '\n');
                // a smaller or larger first newline would contradict the scan
                assert(first_nl(rest) == j - pos);
            }
            let end = if j > pos && content[j - 1] == '\r' {
                j - 1
            } else {
                j
            };
            let line = subvec(content, pos, end);
            proof {
                assert(rest.take(j - pos) =~= content@.subrange(pos as int, j as int));
                assert(strip_cr(rest.take(j - pos)) =~= content@.subrange(
                    pos as int,
                    end as int,
                ));
                assert(rest.skip(j - pos + 1) =~= content@.skip(j as int + 1));
            }
            lines.push(line);
            proof {
                assert(lines@.map_values(|l: Vec<char>| l@) =~= prev.push(
                    content@.subrange(pos as int, end as int),
                ));
                assert(split_lines(rest) == seq![strip_cr(rest.take(j - pos))] + split_lines(
                    rest.skip(j - pos + 1),
                ));
                assert(prev.push(content@.subrange(pos as int, end as int)) + split_lines(
                    content@.skip(j as int + 1),
                ) =~= prev + split_lines(rest));
            }
            pos = j + 1;
        } else {
            proof {
                assert(forall|k: int| 0 <= k < rest.len() ==> rest[k] != '\n');
                assert(first_nl(rest) == -1);
                assert(rest.len() > 0);
                assert(split_lines(rest) == seq![rest]);
                assert(rest =~= content@.subrange(pos as int, n as int));
            }
            let line = subvec(content, pos, n);
            lines.push(line);
            proof {
                assert(lines@.map_values(|l: Vec<char>| l@) =~= prev.push(rest));
                assert(prev.push(rest) + split_lines(content@.skip(n as int)) =~= prev
                    + split_lines(rest)) by {
                    assert(content@.skip(n as int) =~= Seq::<char>::empty());
                }
            }
            pos = n;
        }
    }
    proof {
        assert(content@.skip(pos as int) =~= Seq::<char>::empty());
        assert(lines@.map_values(|l: Vec<char>| l@) + split_lines(content@.skip(pos as int))
            =~= lines@.map_values(|l: Vec<char>| l@));
    }
    lines
}

} // verus!
