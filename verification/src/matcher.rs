//! The ignore matcher: user-supplied glob patterns plus the built-in
//! protected-name patterns, compiled once and tested against relative paths.

use vstd::prelude::*;
use crate::globs::{
    builder_add, builder_build, builder_new, builder_patterns, glob_new, glob_ok,
    globs_build_ok, globset_patterns, path_matches,
};

verus! {

/// A failure while compiling the ignore patterns.
#[derive(Debug)]
pub enum BuildError {
    /// A glob pattern the pattern compiler rejected.
    InvalidPattern(String),
    /// The compiled patterns could not be combined into one set.
    SetBuild,
}

/// The compiled ignore rule set: user patterns first, then the built-in
/// protected-name patterns, tested as one logical OR.
pub struct IgnoreMatcher {
    pub set: globset::GlobSet,
}

impl IgnoreMatcher {
    /// The patterns this matcher was built from, in order.
    pub open spec fn patterns(self) -> Seq<Seq<char>> {
        globset_patterns(self.set)
    }

    /// The built-in protected-name patterns, in the order they are added:
    /// changelogs, repository metadata, the ignore file, the tool's own
    /// binary name, licenses, lock files, and readmes — the name-based ones
    /// in explicit lower/upper case pairs, since glob matching is
    /// case-sensitive.
    pub open spec fn builtin_patterns() -> Seq<Seq<char>> {
        seq![
            "*changelog*"@,
            "*CHANGELOG*"@,
            ".github*"@,
            ".gitignore"@,
            "gprepo"@,
            "*license*"@,
            "*LICENSE*"@,
            "*.lock"@,
            "*readme*"@,
            "*README*"@,
        ]
    }

    /// All the patterns a matcher is built from: the user's, then the
    /// built-ins.
    pub open spec fn all_patterns(user: Seq<Seq<char>>) -> Seq<Seq<char>> {
        user + Self::builtin_patterns()
    }

    /// Compiles the user patterns followed by the built-in ones: succeeds
    /// exactly when the pattern compiler accepts every pattern and the
    /// accepted patterns combine into one set. A malformed pattern is
    /// reported with its text.
    pub fn new(user_patterns: &Vec<String>) -> (r: Result<IgnoreMatcher, BuildError>)
        ensures
            (r is Ok) == ({
                let pats = Self::all_patterns(user_patterns.deep_view());
                (forall|i: int| 0 <= i < pats.len() ==> glob_ok(#[trigger] pats[i]))
                    && globs_build_ok(pats)
            }),
            r matches Ok(m) ==> m.patterns() == Self::all_patterns(user_patterns.deep_view()),
            r matches Err(e) ==> (e matches BuildError::InvalidPattern(p) ==> !glob_ok(p@)
                && Self::all_patterns(user_patterns.deep_view()).contains(p@)),
            r matches Err(e) ==> (e matches BuildError::SetBuild ==> !globs_build_ok(
                Self::all_patterns(user_patterns.deep_view()),
            )),
    {
        let mut b = builder_new();
        let mut i: usize = 0;
        proof {
            assert(builder_patterns(b) =~= user_patterns.deep_view().take(0));
        }
        while i < user_patterns.len()
            invariant
                i <= user_patterns@.len(),
                user_patterns.deep_view().len() == user_patterns@.len(),
                builder_patterns(b) == user_patterns.deep_view().take(i as int),
                forall|k: int| 0 <= k < i ==> glob_ok(#[trigger] user_patterns.deep_view()[k]),
            decreases user_patterns@.len() - i,
        {
            let g = match glob_new(user_patterns[i].as_str()) {
                Ok(g) => g,
                Err(_) => {
                    let p = user_patterns[i].clone();
                    proof {
                        let pats = Self::all_patterns(user_patterns.deep_view());
                        assert(user_patterns.deep_view()[i as int] == user_patterns@[i as int]@);
                        assert(pats[i as int] == p@);
                        assert(pats.contains(p@));
                        assert(!glob_ok(pats[i as int]));
                    }
                    return Err(BuildError::InvalidPattern(p));
                },
            };
            builder_add(&mut b, g);
            proof {
                assert(user_patterns.deep_view()[i as int] == user_patterns@[i as int]@);
                assert(builder_patterns(b) =~= user_patterns.deep_view().take(i as int + 1));
            }
            i += 1;
        }
        proof {
            assert(user_patterns.deep_view().take(user_patterns@.len() as int)
                =~= user_patterns.deep_view());
        }
        let builtins = ["*changelog*", "*CHANGELOG*", ".github*", ".gitignore", "gprepo",
            "*license*", "*LICENSE*", "*.lock", "*readme*", "*README*"];
        let mut j: usize = 0;
        while j < 10
            invariant
                j <= 10,
                builtins@.len() == 10,
                forall|k: int| 0 <= k < 10 ==> builtins@[k]@ == Self::builtin_patterns()[k],
                builder_patterns(b) == user_patterns.deep_view()
                    + Self::builtin_patterns().take(j as int),
                user_patterns.deep_view().len() == user_patterns@.len(),
                forall|k: int|
                    0 <= k < user_patterns@.len() ==> glob_ok(
                        #[trigger] user_patterns.deep_view()[k],
                    ),
                forall|k: int| 0 <= k < j ==> glob_ok(#[trigger] Self::builtin_patterns()[k]),
            decreases 10 - j,
        {
            let g = match glob_new(builtins[j]) {
                Ok(g) => g,
                Err(_) => {
                    let p = String::from_str(builtins[j]);
                    proof {
                        let pats = Self::all_patterns(user_patterns.deep_view());
                        let u = user_patterns.deep_view().len() as int;
                        assert(Self::builtin_patterns()[j as int] == p@);
                        assert(pats[u + j as int] == p@);
                        assert(pats.contains(p@));
                        assert(!glob_ok(pats[u + j as int]));
                    }
                    return Err(BuildError::InvalidPattern(p));
                },
            };
            builder_add(&mut b, g);
            proof {
                assert(builder_patterns(b) =~= user_patterns.deep_view()
                    + Self::builtin_patterns().take(j as int + 1));
            }
            j += 1;
        }
        proof {
            let pats = Self::all_patterns(user_patterns.deep_view());
            assert(Self::builtin_patterns().take(10) =~= Self::builtin_patterns());
            assert(builder_patterns(b) =~= pats);
            assert forall|k: int| 0 <= k < pats.len() implies glob_ok(#[trigger] pats[k]) by {
                if k < user_patterns.deep_view().len() {
                    assert(pats[k] == user_patterns.deep_view()[k]);
                } else {
                    assert(pats[k] == Self::builtin_patterns()[k - user_patterns.deep_view().len()]);
                }
            }
        }
        match builder_build(&b) {
            Ok(set) => Ok(IgnoreMatcher { set }),
            Err(_) => Err(BuildError::SetBuild),
        }
    }

    /// Whether any pattern of this matcher matches the relative path.
    pub fn matches(&self, rel_path: &str) -> (r: bool)
        ensures
            r == path_matches(self.patterns(), rel_path@),
    {
        crate::globs::globset_is_match(&self.set, rel_path)
    }
}

} // verus!
