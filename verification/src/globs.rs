//! Trusted interface to the `globset` crate: parsing glob patterns, building
//! a pattern set, and matching relative paths against it.

use vstd::prelude::*;

verus! {

#[verifier::external_type_specification]
#[verifier::external_body]
pub struct ExGlob(globset::Glob);

#[verifier::external_type_specification]
#[verifier::external_body]
pub struct ExGlobSet(globset::GlobSet);

#[verifier::external_type_specification]
#[verifier::external_body]
pub struct ExGlobSetBuilder(globset::GlobSetBuilder);

#[verifier::external_type_specification]
#[verifier::external_body]
pub struct ExGlobError(globset::Error);

/// The pattern string a compiled glob was parsed from.
pub uninterp spec fn glob_pattern(g: globset::Glob) -> Seq<char>;

/// The pattern strings a builder holds, in insertion order.
pub uninterp spec fn builder_patterns(b: globset::GlobSetBuilder) -> Seq<Seq<char>>;

/// The pattern strings a compiled set was built from, in insertion order.
pub uninterp spec fn globset_patterns(s: globset::GlobSet) -> Seq<Seq<char>>;

/// Whether one glob pattern matches one path.
pub uninterp spec fn glob_match(pattern: Seq<char>, path: Seq<char>) -> bool;

/// Whether the pattern compiler accepts this pattern text.
pub uninterp spec fn glob_ok(pattern: Seq<char>) -> bool;

/// Whether a list of accepted pattern texts compiles into one matcher set.
pub uninterp spec fn globs_build_ok(patterns: Seq<Seq<char>>) -> bool;

/// Whether any pattern of a set matches the path.
pub open spec fn path_matches(patterns: Seq<Seq<char>>, path: Seq<char>) -> bool {
    exists|i: int| 0 <= i < patterns.len() && #[trigger] glob_match(patterns[i], path)
}

/// Relies on `globset::Glob::new`: parses one pattern, succeeding exactly on
/// the pattern texts the compiler accepts (a function of the text alone).
#[verifier::external_body]
pub(crate) fn glob_new(pattern: &str) -> (r: Result<globset::Glob, globset::Error>)
    ensures
        (r is Ok) == glob_ok(pattern@),
        r matches Ok(g) ==> glob_pattern(g) == pattern@,
{
    globset::Glob::new(pattern)
}

/// Relies on `globset::GlobSetBuilder::new`: starts from an empty pattern
/// set.
#[verifier::external_body]
pub(crate) fn builder_new() -> (b: globset::GlobSetBuilder)
    ensures
        builder_patterns(b) == Seq::<Seq<char>>::empty(),
{
    globset::GlobSetBuilder::new()
}

/// Relies on `globset::GlobSetBuilder::add`: appends one compiled glob to
/// the set under construction.
#[verifier::external_body]
pub(crate) fn builder_add(b: &mut globset::GlobSetBuilder, g: globset::Glob)
    ensures
        builder_patterns(*final(b)) == builder_patterns(*old(b)).push(glob_pattern(g)),
{
    b.add(g);
}

/// Relies on `globset::GlobSetBuilder::build`: compiles exactly the added
/// patterns into one set, succeeding as a function of the pattern texts
/// alone.
#[verifier::external_body]
pub(crate) fn builder_build(b: &globset::GlobSetBuilder) -> (r: Result<
    globset::GlobSet,
    globset::Error,
>)
    ensures
        (r is Ok) == globs_build_ok(builder_patterns(*b)),
        r matches Ok(s) ==> globset_patterns(s) == builder_patterns(*b),
{
    b.build()
}

/// Relies on `globset::GlobSet::is_match`: true exactly when some glob of
/// the set matches the path.
#[verifier::external_body]
pub(crate) fn globset_is_match(s: &globset::GlobSet, path: &str) -> (r: bool)
    ensures
        r == (exists|i: int|
            0 <= i < globset_patterns(*s).len() && #[trigger] glob_match(
                globset_patterns(*s)[i],
                path@,
            )),
{
    s.is_match(path)
}

} // verus!
