//! Whitespace normalization: an extension-derived policy rewrites each line
//! of a file, empty lines are dropped, and the retained lines are rejoined
//! with one terminating newline each.

use vstd::prelude::*;
use crate::chars::{chars_to_string, eq_chars, push_all, str_to_chars, subvec};
use crate::ext::extension_of;
use crate::ext::extension_chars;
use crate::lines::{split_lines, split_lines_exec};

verus! {

/// The three normalization classes a file extension can fall in.
#[derive(Clone, Copy, PartialEq, Eq, Structural, Debug)]
pub enum NormClass {
    /// Leading spaces carry meaning: four-space runs are compressed to tabs.
    SignificantWhitespace,
    /// Leading whitespace is cosmetic and is stripped.
    NoIndentation,
    /// Lines pass through unchanged.
    Passthrough,
}

/// Extensions of languages and formats where indentation is significant.
pub open spec fn is_sig_ws_ext(e: Seq<char>) -> bool {
    ||| e == "py"@
    ||| e == "nim"@
    ||| e == "hs"@
    ||| e == "yml"@
    ||| e == "yaml"@
    ||| e == "coffee"@
    ||| e == "jade"@
    ||| e == "pug"@
    ||| e == "slim"@
    ||| e == "sass"@
    ||| e == "haml"@
}

/// Extensions of languages and formats where leading whitespace is cosmetic.
pub open spec fn is_no_indent_ext(e: Seq<char>) -> bool {
    ||| e == "rs"@
    ||| e == "js"@
    ||| e == "ts"@
    ||| e == "c"@
    ||| e == "cpp"@
    ||| e == "h"@
    ||| e == "hpp"@
    ||| e == "java"@
    ||| e == "go"@
    ||| e == "cs"@
    ||| e == "rb"@
    ||| e == "php"@
    ||| e == "swift"@
    ||| e == "kt"@
    ||| e == "kts"@
    ||| e == "scala"@
    ||| e == "groovy"@
    ||| e == "fs"@
    ||| e == "fsx"@
    ||| e == "clj"@
    ||| e == "cljs"@
    ||| e == "edn"@
    ||| e == "lisp"@
    ||| e == "el"@
    ||| e == "scm"@
    ||| e == "ss"@
    ||| e == "rkt"@
    ||| e == "jl"@
    ||| e == "lua"@
    ||| e == "tcl"@
    ||| e == "pl"@
    ||| e == "pm"@
    ||| e == "elm"@
    ||| e == "erl"@
    ||| e == "hrl"@
    ||| e == "v"@
    ||| e == "sv"@
    ||| e == "svh"@
    ||| e == "html"@
    ||| e == "css"@
    ||| e == "scss"@
    ||| e == "less"@
    ||| e == "json"@
    ||| e == "xml"@
    ||| e == "sql"@
    ||| e == "md"@
    ||| e == "toml"@
    ||| e == "ini"@
    ||| e == "conf"@
    ||| e == "cfg"@
    ||| e == "sh"@
    ||| e == "bash"@
    ||| e == "zsh"@
    ||| e == "ps1"@
    ||| e == "awk"@
    ||| e == "sed"@
}

/// The normalization class of an extension.
pub open spec fn classify_spec(e: Seq<char>) -> NormClass {
    if is_sig_ws_ext(e) {
        NormClass::SignificantWhitespace
    } else if is_no_indent_ext(e) {
        NormClass::NoIndentation
    } else {
        NormClass::Passthrough
    }
}

/// Looks an extension up in the policy tables.
pub fn classify(e: &Vec<char>) -> (c: NormClass)
    ensures
        c == classify_spec(e@),
{
    if eq_chars(e, "py") || eq_chars(e, "nim") || eq_chars(e, "hs") || eq_chars(e, "yml")
        || eq_chars(e, "yaml") || eq_chars(e, "coffee") || eq_chars(e, "jade")
        || eq_chars(e, "pug") || eq_chars(e, "slim") || eq_chars(e, "sass")
        || eq_chars(e, "haml") {
        NormClass::SignificantWhitespace
    } else if eq_chars(e, "rs") || eq_chars(e, "js") || eq_chars(e, "ts") || eq_chars(e, "c")
        || eq_chars(e, "cpp") || eq_chars(e, "h") || eq_chars(e, "hpp") || eq_chars(e, "java")
        || eq_chars(e, "go") || eq_chars(e, "cs") || eq_chars(e, "rb") || eq_chars(e, "php")
        || eq_chars(e, "swift") || eq_chars(e, "kt") || eq_chars(e, "kts")
        || eq_chars(e, "scala") || eq_chars(e, "groovy") || eq_chars(e, "fs")
        || eq_chars(e, "fsx") || eq_chars(e, "clj") || eq_chars(e, "cljs") || eq_chars(e, "edn")
        || eq_chars(e, "lisp") || eq_chars(e, "el") || eq_chars(e, "scm") || eq_chars(e, "ss")
        || eq_chars(e, "rkt") || eq_chars(e, "jl") || eq_chars(e, "lua") || eq_chars(e, "tcl")
        || eq_chars(e, "pl") || eq_chars(e, "pm") || eq_chars(e, "elm") || eq_chars(e, "erl")
        || eq_chars(e, "hrl") || eq_chars(e, "v") || eq_chars(e, "sv") || eq_chars(e, "svh")
        || eq_chars(e, "html") || eq_chars(e, "css") || eq_chars(e, "scss")
        || eq_chars(e, "less") || eq_chars(e, "json") || eq_chars(e, "xml")
        || eq_chars(e, "sql") || eq_chars(e, "md") || eq_chars(e, "toml") || eq_chars(e, "ini")
        || eq_chars(e, "conf") || eq_chars(e, "cfg") || eq_chars(e, "sh")
        || eq_chars(e, "bash") || eq_chars(e, "zsh") || eq_chars(e, "ps1")
        || eq_chars(e, "awk") || eq_chars(e, "sed") {
        NormClass::NoIndentation
    } else {
        NormClass::Passthrough
    }
}

/// The characters `char::is_whitespace` accepts: the Unicode white-space set.
pub open spec fn is_ws_char(c: char) -> bool {
    ||| c == ' '
    ||| c == '\t'
    ||| c == '\n'
    ||| c == '\u{000B}'
    ||| c == '\u{000C}'
    ||| c == '\r'
    ||| c == '\u{0085}'
    ||| c == '\u{00A0}'
    ||| c == '\u{1680}'
    ||| c == '\u{2000}'
    ||| c == '\u{2001}'
    ||| c == '\u{2002}'
    ||| c == '\u{2003}'
    ||| c == '\u{2004}'
    ||| c == '\u{2005}'
    ||| c == '\u{2006}'
    ||| c == '\u{2007}'
    ||| c == '\u{2008}'
    ||| c == '\u{2009}'
    ||| c == '\u{200A}'
    ||| c == '\u{2028}'
    ||| c == '\u{2029}'
    ||| c == '\u{202F}'
    ||| c == '\u{205F}'
    ||| c == '\u{3000}'
}

/// Tests a character against the Unicode white-space set.
pub fn is_ws(c: char) -> (r: bool)
    ensures
        r == is_ws_char(c),
{
    c == ' ' || c == '\t' || c == '\n' || c == '\u{000B}' || c == '\u{000C}' || c == '\r'
        || c == '\u{0085}' || c == '\u{00A0}' || c == '\u{1680}' || c == '\u{2000}'
        || c == '\u{2001}' || c == '\u{2002}' || c == '\u{2003}' || c == '\u{2004}'
        || c == '\u{2005}' || c == '\u{2006}' || c == '\u{2007}' || c == '\u{2008}'
        || c == '\u{2009}' || c == '\u{200A}' || c == '\u{2028}' || c == '\u{2029}'
        || c == '\u{202F}' || c == '\u{205F}' || c == '\u{3000}'
}

/// Rewrites a line left to right, turning each non-overlapping run of exactly
/// four spaces into one tab.
pub open spec fn replace4(l: Seq<char>) -> Seq<char>
    decreases l.len(),
{
    if l.len() >= 4 && l[0] == ' ' && l[1] == ' ' && l[2] == ' ' && l[3] == ' ' {
        seq!['\t'] + replace4(l.skip(4))
    } else if l.len() == 0 {
        Seq::empty()
    } else {
        seq![l[0]] + replace4(l.skip(1))
    }
}

/// The line with its leading white-space characters removed.
pub open spec fn trim_start_spec(l: Seq<char>) -> Seq<char>
    decreases l.len(),
{
    if l.len() > 0 && is_ws_char(l[0]) {
        trim_start_spec(l.skip(1))
    } else {
        l
    }
}

/// What one line becomes under a normalization class.
pub open spec fn transform_line(class: NormClass, l: Seq<char>) -> Seq<char> {
    match class {
        NormClass::SignificantWhitespace => replace4(l),
        NormClass::NoIndentation => trim_start_spec(l),
        NormClass::Passthrough => l,
    }
}

/// Joins the nonempty lines, terminating each with one newline; empty lines
/// are dropped.
pub open spec fn join_kept(lines: Seq<Seq<char>>) -> Seq<char>
    decreases lines.len(),
{
    if lines.len() == 0 {
        Seq::empty()
    } else if lines[0].len() == 0 {
        join_kept(lines.skip(1))
    } else {
        lines[0] + seq!['\n'] + join_kept(lines.skip(1))
    }
}

/// The normalized form of a file's content under a class: split into lines,
/// transform each, drop the lines that became empty, rejoin.
pub open spec fn normalize_spec(class: NormClass, content: Seq<char>) -> Seq<char> {
    join_kept(split_lines(content).map_values(|l: Seq<char>| transform_line(class, l)))
}

/// The normalized form of a file's content, with the class derived from the
/// path's extension.
pub open spec fn process_spec(path: Seq<char>, content: Seq<char>) -> Seq<char> {
    normalize_spec(classify_spec(extension_of(path)), content)
}

/// Compresses four-space runs of one line.
fn replace4_exec(l: &Vec<char>) -> (r: Vec<char>)
    ensures
        r@ == replace4(l@),
{
    let n = l.len();
    let mut out: Vec<char> = Vec::new();
    let mut i: usize = 0;
    proof {
        assert(l@.skip(0) =~= l@);
        assert(out@ + replace4(l@) =~= replace4(l@));
    }
    while i < n
        invariant
            i <= n,
            n == l@.len(),
            out@ + replace4(l@.skip(i as int)) == replace4(l@),
        decreases n - i,
    {
        let ghost prev = out@;
        let ghost rest = l@.skip(i as int);
        proof {
            assert(forall|k: int| 0 <= k < rest.len() ==> rest[k] == l@[i + k]);
        }
        if n - i >= 4 && l[i] == ' ' && l[i + 1] == ' ' && l[i + 2] == ' ' && l[i + 3] == ' ' {
            out.push('\t');
            proof {
                assert(rest.len() >= 4 && rest[0] == ' ' && rest[1] == ' ' && rest[2] == ' '
                    && rest[3] == ' ');
                assert(rest.skip(4) =~= l@.skip(i as int + 4));
                assert(out@ + replace4(l@.skip(i as int + 4)) =~= prev + (seq!['\t'] + replace4(
                    rest.skip(4),
                )));
            }
            i += 4;
        } else {
            out.push(l[i]);
            proof {
                assert(!(rest.len() >= 4 && rest[0] == ' ' && rest[1] == ' ' && rest[2] == ' '
                    && rest[3] == ' '));
                assert(rest.len() > 0 && rest[0] == l@[i as int]);
                assert(rest.skip(1) =~= l@.skip(i as int + 1));
                assert(out@ + replace4(l@.skip(i as int + 1)) =~= prev + (seq![rest[0]]
                    + replace4(rest.skip(1))));
            }
            i += 1;
        }
    }
    proof {
        assert(l@.skip(n as int) =~= Seq::<char>::empty());
        assert(out@ + replace4(l@.skip(n as int)) =~= out@);
    }
    out
}

/// Strips leading white-space characters of one line.
fn trim_start_exec(l: &Vec<char>) -> (r: Vec<char>)
    ensures
        r@ == trim_start_spec(l@),
{
    let n = l.len();
    let mut i: usize = 0;
    proof {
        assert(l@.skip(0) =~= l@);
    }
    while i < n && is_ws(l[i])
        invariant
            i <= n,
            n == l@.len(),
            trim_start_spec(l@) == trim_start_spec(l@.skip(i as int)),
        decreases n - i,
    {
        proof {
            let rest = l@.skip(i as int);
            assert(rest[0] == l@[i as int] && is_ws_char(rest[0]));
            assert(rest.skip(1) =~= l@.skip(i as int + 1));
        }
        i += 1;
    }
    proof {
        let rest = l@.skip(i as int);
        if i < n {
            assert(rest.len() > 0 && rest[0] == l@[i as int] && !is_ws_char(rest[0]));
        } else {
            assert(rest =~= Seq::<char>::empty());
        }
        assert(trim_start_spec(rest) == rest);
        assert(rest =~= l@.subrange(i as int, n as int));
    }
    subvec(l, i, n)
}

/// Applies one normalization class to one line.
fn transform_line_exec(class: NormClass, l: &Vec<char>) -> (r: Vec<char>)
    ensures
        r@ == transform_line(class, l@),
{
    match class {
        NormClass::SignificantWhitespace => replace4_exec(l),
        NormClass::NoIndentation => trim_start_exec(l),
        NormClass::Passthrough => subvec(l, 0, l.len()),
    }
}

/// Normalizes a file's content by the whitespace policy its extension names:
/// four-space runs become tabs where whitespace is significant, leading
/// whitespace is stripped where it is not, other files pass through; lines
/// that end up empty are dropped, and each retained line is terminated by one
/// newline.
pub fn process_file_contents(file_path: &str, content: &str) -> (r: String)
    ensures
        r@ == process_spec(file_path@, content@),
{
    let path_chars = str_to_chars(file_path);
    let ext = extension_chars(&path_chars);
    let class = classify(&ext);
    let chars = str_to_chars(content);
    let lines = split_lines_exec(&chars);
    let ghost mapped = split_lines(content@).map_values(|l: Seq<char>| transform_line(class, l));
    let mut out: Vec<char> = Vec::new();
    let mut i: usize = 0;
    proof {
        assert(mapped.skip(0) =~= mapped);
        assert(out@ + join_kept(mapped) =~= join_kept(mapped));
    }
    while i < lines.len()
        invariant
            i <= lines@.len(),
            lines@.map_values(|l: Vec<char>| l@) == split_lines(content@),
            mapped == split_lines(content@).map_values(
                |l: Seq<char>| transform_line(class, l),
            ),
            out@ + join_kept(mapped.skip(i as int)) == join_kept(mapped),
        decreases lines@.len() - i,
    {
        let ghost prev = out@;
        let t = transform_line_exec(class, &lines[i]);
        proof {
            assert(lines@.map_values(|l: Vec<char>| l@)[i as int] == lines@[i as int]@);
            assert(mapped[i as int] == transform_line(class, split_lines(content@)[i as int]));
            assert(t@ == mapped[i as int]);
            assert(mapped.skip(i as int)[0] == mapped[i as int]);
            assert(mapped.skip(i as int).skip(1) =~= mapped.skip(i as int + 1));
        }
        if t.len() > 0 {
            push_all(&mut out, &t);
            out.push('\n');
            proof {
                assert(out@ =~= prev + (mapped[i as int] + seq!['\n']));
                assert(out@ + join_kept(mapped.skip(i as int + 1)) =~= prev + (mapped[i as int]
                    + seq!['\n'] + join_kept(mapped.skip(i as int).skip(1))));
            }
        }
        i += 1;
    }
    proof {
        assert(mapped.skip(lines@.len() as int) =~= Seq::<Seq<char>>::empty());
        assert(out@ + join_kept(mapped.skip(lines@.len() as int)) =~= out@);
    }
    chars_to_string(&out)
}

/// A run of spaces of the given length.
pub open spec fn spaces(k: nat) -> Seq<char> {
    Seq::new(k, |i: int| ' ')
}

/// A run of tabs of the given length.
pub open spec fn tabs(k: nat) -> Seq<char> {
    Seq::new(k, |i: int| '\t')
}

/// Whether four consecutive spaces occur anywhere in `s`.
pub open spec fn has_four_space_run(s: Seq<char>) -> bool {
    exists|i: int|
        0 <= i && i + 4 <= s.len() && (#[trigger] s[i]) == ' ' && s[i + 1] == ' ' && s[i + 2]
            == ' ' && s[i + 3] == ' '
}

/// A line without a four-space run passes through `replace4` unchanged.
pub proof fn lemma_replace4_no_run(s: Seq<char>)
    requires
        !has_four_space_run(s),
    ensures
        replace4(s) == s,
    decreases s.len(),
{
    if s.len() == 0 {
        assert(replace4(s) =~= s);
    } else {
        assert(!(s.len() >= 4 && s[0] == ' ' && s[1] == ' ' && s[2] == ' ' && s[3] == ' '));
        assert(!has_four_space_run(s.skip(1))) by {
            if has_four_space_run(s.skip(1)) {
                let i = choose|i: int|
                    0 <= i && i + 4 <= s.skip(1).len() && (#[trigger] s.skip(1)[i]) == ' '
                        && s.skip(1)[i + 1] == ' ' && s.skip(1)[i + 2] == ' ' && s.skip(1)[i + 3]
                        == ' ';
                assert(s[i + 1] == ' ' && s[i + 2] == ' ' && s[i + 3] == ' ' && s[i + 4] == ' ');
                assert(has_four_space_run(s));
            }
        }
        lemma_replace4_no_run(s.skip(1));
        assert(seq![s[0]] + s.skip(1) =~= s);
    }
}

/// `k` leading four-space runs become `k` tabs; the remainder is rewritten on
/// its own.
pub proof fn lemma_replace4_leading(k: nat, rest: Seq<char>)
    ensures
        replace4(spaces(4 * k) + rest) == tabs(k) + replace4(rest),
    decreases k,
{
    if k == 0 {
        assert(spaces(0) + rest =~= rest);
        assert(tabs(0) + replace4(rest) =~= replace4(rest));
    } else {
        let s = spaces(4 * k) + rest;
        assert(s[0] == ' ' && s[1] == ' ' && s[2] == ' ' && s[3] == ' ');
        assert(s.skip(4) =~= spaces(4 * (k - 1) as nat) + rest);
        lemma_replace4_leading((k - 1) as nat, rest);
        assert(seq!['\t'] + (tabs((k - 1) as nat) + replace4(rest)) =~= tabs(k) + replace4(
            rest,
        ));
    }
}

/// Significant-whitespace law: a line of `k` leading four-space runs before
/// text that holds no four-space run of its own becomes `k` tabs followed by
/// that text, with no other character altered.
pub proof fn lemma_significant_whitespace_line(k: nat, rest: Seq<char>)
    requires
        !has_four_space_run(rest),
    ensures
        transform_line(NormClass::SignificantWhitespace, spaces(4 * k) + rest) == tabs(k) + rest,
{
    lemma_replace4_leading(k, rest);
    lemma_replace4_no_run(rest);
}

/// What `trim_start_spec` leaves never starts with whitespace.
pub proof fn lemma_trim_start_no_leading(l: Seq<char>)
    ensures
        trim_start_spec(l).len() > 0 ==> !is_ws_char(trim_start_spec(l)[0]),
    decreases l.len(),
{
    if l.len() > 0 && is_ws_char(l[0]) {
        lemma_trim_start_no_leading(l.skip(1));
    }
}

/// No-indentation law: every line the normalizer retains for the
/// no-indentation class starts with a non-whitespace character.
pub proof fn lemma_no_indentation_lines(content: Seq<char>)
    ensures
        forall|i: int|
            0 <= i < split_lines(content).len() ==> {
                let t = transform_line(
                    NormClass::NoIndentation,
                    #[trigger] split_lines(content)[i],
                );
                t.len() > 0 ==> !is_ws_char(t[0])
            },
{
    assert forall|i: int| 0 <= i < split_lines(content).len() implies {
        let t = transform_line(NormClass::NoIndentation, #[trigger] split_lines(content)[i]);
        t.len() > 0 ==> !is_ws_char(t[0])
    } by {
        lemma_trim_start_no_leading(split_lines(content)[i]);
    }
}

} // verus!
