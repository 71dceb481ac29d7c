//! Extracting a file extension from a path string: the portion of the file
//! name after its final dot, where a dot that starts the file name does not
//! count, and the empty string stands for "no extension".

use vstd::prelude::*;
use crate::chars::subvec;

verus! {

/// The suffix of `s` strictly after the last occurrence of `c`; all of `s`
/// when `c` does not occur.
pub open spec fn after_last(s: Seq<char>, c: char) -> Seq<char>
    decreases s.len(),
{
    if s.len() == 0 {
        s
    } else if s[s.len() - 1] == c {
        Seq::empty()
    } else {
        after_last(s.take(s.len() - 1), c).push(s[s.len() - 1])
    }
}

/// When `c` does not occur in `s`, `after_last` is `s` itself.
pub proof fn lemma_after_last_none(s: Seq<char>, c: char)
    requires
        forall|j: int| 0 <= j < s.len() ==> s[j] != c,
    ensures
        after_last(s, c) == s,
    decreases s.len(),
{
    if s.len() == 0 {
    } else {
        assert(forall|j: int| 0 <= j < s.len() - 1 ==> s.take(s.len() - 1)[j] == s[j]);
        lemma_after_last_none(s.take(s.len() - 1), c);
        assert(s.take(s.len() - 1).push(s[s.len() - 1]) =~= s);
    }
}

/// When the last occurrence of `c` in `s` is at `m`, `after_last` is the
/// suffix past `m`.
pub proof fn lemma_after_last_at(s: Seq<char>, c: char, m: int)
    requires
        0 <= m < s.len(),
        s[m] == c,
        forall|j: int| m < j < s.len() ==> s[j] != c,
    ensures
        after_last(s, c) == s.skip(m + 1),
    decreases s.len(),
{
    if m == s.len() - 1 {
        assert(s.skip(m + 1) =~= Seq::<char>::empty());
    } else {
        let t = s.take(s.len() - 1);
        assert(forall|j: int| 0 <= j < t.len() ==> t[j] == s[j]);
        lemma_after_last_at(t, c, m);
        assert(t.skip(m + 1).push(s[s.len() - 1]) =~= s.skip(m + 1));
    }
}

/// The file name of a path: everything after the last separator.
pub open spec fn file_name_of(path: Seq<char>) -> Seq<char> {
    after_last(path, '/')
}

/// Whether a file name carries an extension: a dot at some position past the
/// first character.
pub open spec fn has_extension(f: Seq<char>) -> bool {
    exists|i: int| 1 <= i < f.len() && f[i] == '.'
}

/// The extension of a path, without its dot; empty when there is none.
pub open spec fn extension_of(path: Seq<char>) -> Seq<char> {
    let f = file_name_of(path);
    if has_extension(f) {
        after_last(f, '.')
    } else {
        Seq::empty()
    }
}

/// Extracts the extension of a path.
pub fn extension_chars(path: &Vec<char>) -> (r: Vec<char>)
    ensures
        r@ == extension_of(path@),
{
    let n = path.len();
    let mut k: usize = n;
    while k > 0 && path[k - 1] != '/'
        invariant
            k <= n,
            n == path@.len(),
            forall|j: int| k <= j < n ==> path@[j] != '/',
        decreases k,
    {
        k -= 1;
    }
    proof {
        if k == 0 {
            lemma_after_last_none(path@, '/');
        } else {
            lemma_after_last_at(path@, '/', k - 1);
        }
        assert(file_name_of(path@) =~= path@.skip(k as int));
    }
    let ghost f = path@.skip(k as int);
    let mut m: usize = n;
    while m - k > 1 && path[m - 1] != '.'
        invariant
            k <= m <= n,
            n == path@.len(),
            forall|j: int| m <= j < n ==> path@[j] != '.',
        decreases m,
    {
        m -= 1;
    }
    if m - k > 1 {
        proof {
            assert(f.len() == n - k);
            assert(forall|i: int| 0 <= i < f.len() ==> f[i] == path@[k + i]);
            assert(f[m - 1 - k] == '.');
            assert(has_extension(f));
            lemma_after_last_at(f, '.', m - 1 - k);
            assert(f.skip(m - k) =~= path@.subrange(m as int, n as int));
        }
        subvec(path, m, n)
    } else {
        proof {
            assert(forall|i: int| 0 <= i < f.len() ==> f[i] == path@[k + i]);
            assert(forall|i: int| 1 <= i < f.len() ==> f[i] != '.');
            assert(!has_extension(f));
        }
        let r: Vec<char> = Vec::new();
        proof {
            assert(r@ =~= extension_of(path@));
        }
        r
    }
}

} // verus!
