//! The selection-and-normalization pipeline: per-candidate filtering through
//! the layered gates, normalization of the included files, and rendering of
//! the framed output stream.

use vstd::prelude::*;
use vstd::string::StringExecFns;
use vstd::utf8::{decode_utf8, valid_utf8};
use crate::globs::path_matches;
use crate::matcher::IgnoreMatcher;
use crate::normalize::{process_file_contents, process_spec};
use crate::sniff::{is_binary, is_binary_spec};

verus! {

/// One regular file found by the traversal: its absolute path, its path
/// relative to the repository root, its last-modified timestamp (when one
/// could be read), and its raw bytes.
pub struct Candidate {
    pub abs_path: String,
    pub rel_path: String,
    pub modified: Option<u64>,
    pub content: Vec<u8>,
}

/// The mathematical value of a candidate.
pub struct CandidateView {
    pub abs_path: Seq<char>,
    pub rel_path: Seq<char>,
    pub modified: Option<u64>,
    pub content: Seq<u8>,
}

impl View for Candidate {
    type V = CandidateView;

    open spec fn view(&self) -> CandidateView {
        CandidateView {
            abs_path: self.abs_path@,
            rel_path: self.rel_path@,
            modified: self.modified,
            content: self.content@,
        }
    }
}

/// The views of a sequence of candidates.
pub open spec fn candidate_views(cands: Seq<Candidate>) -> Seq<CandidateView> {
    cands.map_values(|c: Candidate| c@)
}

/// The per-run filter configuration: the compiled ignore rules, the output
/// destination (for self-exclusion), and the process-start timestamp.
pub struct Filter {
    pub matcher: IgnoreMatcher,
    pub output_path: Option<String>,
    pub start_time: u64,
}

/// The mathematical value of a filter configuration.
pub struct FilterView {
    pub patterns: Seq<Seq<char>>,
    pub output_path: Option<Seq<char>>,
    pub start_time: u64,
}

impl View for Filter {
    type V = FilterView;

    open spec fn view(&self) -> FilterView {
        FilterView {
            patterns: self.matcher.patterns(),
            output_path: match self.output_path {
                Some(p) => Some(p@),
                None => None,
            },
            start_time: self.start_time,
        }
    }
}

/// The layered inclusion decision: a candidate is included when it is not the
/// output destination, was not modified at or after the run started, is not
/// ignored by the repository, matches no ignore glob, and is not binary.
pub open spec fn include_spec(f: FilterView, c: CandidateView, repo_ignored: bool) -> bool {
    &&& !(f.output_path matches Some(p) && p == c.abs_path)
    &&& !(c.modified matches Some(t) && t >= f.start_time)
    &&& !repo_ignored
    &&& !path_matches(f.patterns, c.rel_path)
    &&& !is_binary_spec(c.content)
}

impl Filter {
    /// Applies the filter gates to one candidate, given the repository ignore
    /// oracle's answer for its relative path.
    pub fn should_include(&self, c: &Candidate, repo_ignored: bool) -> (r: bool)
        ensures
            r == include_spec(self@, c@, repo_ignored),
    {
        if let Some(op) = &self.output_path {
            if *op == c.abs_path {
                return false;
            }
        }
        if let Some(t) = c.modified {
            if t >= self.start_time {
                return false;
            }
        }
        if repo_ignored {
            return false;
        }
        if self.matcher.matches(c.rel_path.as_str()) {
            return false;
        }
        if is_binary(c.content.as_slice()) {
            return false;
        }
        true
    }
}

/// The terminal marker line that ends every complete output stream.
pub open spec fn end_marker() -> Seq<char> {
    "@@@@END@@@@\n"@
}

/// The frame of one included file: a begin-marker line carrying the relative
/// path, the normalized content, and one trailing newline.
pub open spec fn frame_spec(rel_path: Seq<char>, body: Seq<char>) -> Seq<char> {
    "@@@@"@ + rel_path + "@@@@\n"@ + body + "\n"@
}

/// The frame an included candidate contributes: its content is decoded as
/// UTF-8 and normalized under the policy of its extension.
pub open spec fn candidate_frame(c: CandidateView) -> Seq<char> {
    frame_spec(c.rel_path, process_spec(c.abs_path, decode_utf8(c.content)))
}

/// The concatenated frames of the included candidates, in traversal order.
pub open spec fn frames_spec(f: FilterView, cands: Seq<CandidateView>, ign: Seq<bool>) -> Seq<
    char,
>
    decreases cands.len(),
{
    if cands.len() == 0 {
        Seq::empty()
    } else {
        (if include_spec(f, cands[0], ign[0]) {
            candidate_frame(cands[0])
        } else {
            Seq::empty()
        }) + frames_spec(f, cands.skip(1), ign.skip(1))
    }
}

/// Whether every included candidate holds valid UTF-8, so that the run can
/// complete.
pub open spec fn all_text_ok(f: FilterView, cands: Seq<CandidateView>, ign: Seq<bool>) -> bool {
    forall|i: int|
        0 <= i < cands.len() && #[trigger] include_spec(f, cands[i], ign[i]) ==> valid_utf8(
            cands[i].content,
        )
}

/// The complete output stream: the preamble block, one frame per included
/// candidate, and the terminal marker.
pub open spec fn output_spec(
    f: FilterView,
    preamble: Seq<char>,
    cands: Seq<CandidateView>,
    ign: Seq<bool>,
) -> Seq<char> {
    preamble + "\n"@ + frames_spec(f, cands, ign) + end_marker()
}

/// A fatal error while rendering the stream.
#[derive(Debug)]
pub enum RunError {
    /// An included file's bytes were not valid UTF-8; the path is the
    /// file's relative path.
    InvalidText { path: String },
}

/// Relies on `String::from_utf8`: succeeds exactly on valid UTF-8 input and
/// decodes it.
#[verifier::external_body]
fn decode_bytes(v: &Vec<u8>) -> (r: Option<String>)
    ensures
        r matches Some(s) ==> valid_utf8(v@) && s@ == decode_utf8(v@),
        r is None ==> !valid_utf8(v@),
{
    match String::from_utf8(v.clone()) {
        Ok(s) => Some(s),
        Err(_) => None,
    }
}

/// The fixed instructional preamble used when no preamble file is supplied.
pub open spec fn default_preamble_spec() -> Seq<char> {
    "Below is a repository containing files. Each file begins with @@@@<file-path>@@@@ followed by its content. The repository ends with @@@@END@@@@. After this marker, instructions related to the repository are provided."@
}

/// Returns the default preamble text.
pub fn default_preamble() -> (r: String)
    ensures
        r@ == default_preamble_spec(),
{
    String::from_str(
        "Below is a repository containing files. Each file begins with @@@@<file-path>@@@@ followed by its content. The repository ends with @@@@END@@@@. After this marker, instructions related to the repository are provided.",
    )
}

/// Runs the whole pipeline over the traversal's candidates: filters each one
/// (with the repository ignore oracle's answers supplied positionally),
/// normalizes the included files, and renders the framed stream. Fails
/// exactly when some included file is not valid UTF-8.
pub fn run_pipeline(
    filter: &Filter,
    preamble: &str,
    candidates: &Vec<Candidate>,
    repo_ignored: &Vec<bool>,
) -> (r: Result<String, RunError>)
    requires
        repo_ignored@.len() == candidates@.len(),
    ensures
        (r is Ok) == all_text_ok(filter@, candidate_views(candidates@), repo_ignored@),
        r matches Ok(out) ==> out@ == output_spec(
            filter@,
            preamble@,
            candidate_views(candidates@),
            repo_ignored@,
        ),
        r matches Err(e) ==> (e matches RunError::InvalidText { path } && exists|i: int|
            0 <= i < candidates@.len() && #[trigger] include_spec(
                filter@,
                candidate_views(candidates@)[i],
                repo_ignored@[i],
            ) && !valid_utf8(candidate_views(candidates@)[i].content) && path@
                == candidate_views(candidates@)[i].rel_path),
{
    let ghost cvs = candidate_views(candidates@);
    let ghost ign = repo_ignored@;
    let mut out = String::new();
    out.append(preamble);
    out.append("\n");
    let n = candidates.len();
    let mut i: usize = 0;
    proof {
        assert(cvs.skip(0) =~= cvs);
        assert(ign.skip(0) =~= ign);
        assert(out@ =~= preamble@ + "\n"@);
    }
    while i < n
        invariant
            i <= n,
            n == candidates@.len(),
            ign.len() == n,
            cvs == candidate_views(candidates@),
            ign == repo_ignored@,
            out@ + frames_spec(filter@, cvs.skip(i as int), ign.skip(i as int)) + end_marker()
                == output_spec(filter@, preamble@, cvs, ign),
            forall|j: int|
                0 <= j < i && #[trigger] include_spec(filter@, cvs[j], ign[j]) ==> valid_utf8(
                    cvs[j].content,
                ),
        decreases n - i,
    {
        let ghost prev = out@;
        let c = &candidates[i];
        proof {
            assert(cvs[i as int] == candidates@[i as int]@);
            assert(cvs.skip(i as int)[0] == cvs[i as int]);
            assert(ign.skip(i as int)[0] == ign[i as int]);
            assert(cvs.skip(i as int).skip(1) =~= cvs.skip(i as int + 1));
            assert(ign.skip(i as int).skip(1) =~= ign.skip(i as int + 1));
        }
        let inc = filter.should_include(c, repo_ignored[i]);
        if inc {
            match decode_bytes(&c.content) {
                Some(text) => {
                    let body = process_file_contents(c.abs_path.as_str(), text.as_str());
                    out.append("@@@@");
                    out.append(c.rel_path.as_str());
                    out.append("@@@@\n");
                    out.append(body.as_str());
                    out.append("\n");
                    proof {
                        assert(out@ =~= prev + candidate_frame(cvs[i as int]));
                        assert(out@ + frames_spec(
                            filter@,
                            cvs.skip(i as int + 1),
                            ign.skip(i as int + 1),
                        ) =~= prev + frames_spec(filter@, cvs.skip(i as int), ign.skip(i as int)));
                    }
                },
                None => {
                    return Err(RunError::InvalidText { path: c.rel_path.clone() });
                },
            }
        }
        i += 1;
    }
    out.append("@@@@END@@@@\n");
    proof {
        assert(cvs.skip(n as int) =~= Seq::<CandidateView>::empty());
        assert(ign.skip(n as int) =~= Seq::<bool>::empty());
        assert(out@ =~= output_spec(filter@, preamble@, cvs, ign));
    }
    Ok(out)
}

/// Determinism law: the rendered stream is a function of the filter
/// configuration, the preamble, the candidates, and the oracle answers alone,
/// so two runs over equal inputs yield byte-identical output.
pub proof fn lemma_pipeline_deterministic(
    filter_a: FilterView,
    preamble_a: Seq<char>,
    cands_a: Seq<CandidateView>,
    ign_a: Seq<bool>,
    filter_b: FilterView,
    preamble_b: Seq<char>,
    cands_b: Seq<CandidateView>,
    ign_b: Seq<bool>,
)
    requires
        filter_a == filter_b,
        preamble_a == preamble_b,
        cands_a == cands_b,
        ign_a == ign_b,
    ensures
        output_spec(filter_a, preamble_a, cands_a, ign_a) == output_spec(
            filter_b,
            preamble_b,
            cands_b,
            ign_b,
        ),
{
}

/// An excluded candidate contributes no frame: the frames are those of the
/// remaining candidates alone.
pub proof fn lemma_excluded_no_frame(
    f: FilterView,
    cands: Seq<CandidateView>,
    ign: Seq<bool>,
    i: int,
)
    requires
        ign.len() == cands.len(),
        0 <= i < cands.len(),
        !include_spec(f, cands[i], ign[i]),
    ensures
        frames_spec(f, cands, ign) == frames_spec(f, cands.remove(i), ign.remove(i)),
    decreases i,
{
    if i == 0 {
        assert(cands.remove(0) =~= cands.skip(1));
        assert(ign.remove(0) =~= ign.skip(1));
    } else {
        lemma_excluded_no_frame(f, cands.skip(1), ign.skip(1), i - 1);
        assert(cands.remove(i)[0] == cands[0]);
        assert(ign.remove(i)[0] == ign[0]);
        assert(cands.remove(i).skip(1) =~= cands.skip(1).remove(i - 1));
        assert(ign.remove(i).skip(1) =~= ign.skip(1).remove(i - 1));
        assert(cands.skip(1)[i - 1] == cands[i]);
        assert(ign.skip(1)[i - 1] == ign[i]);
    }
}

/// Binary-exclusion law: a candidate the sniffer classifies binary
/// contributes no frame to the output.
pub proof fn lemma_binary_no_frame(
    f: FilterView,
    cands: Seq<CandidateView>,
    ign: Seq<bool>,
    i: int,
)
    requires
        ign.len() == cands.len(),
        0 <= i < cands.len(),
        is_binary_spec(cands[i].content),
    ensures
        frames_spec(f, cands, ign) == frames_spec(f, cands.remove(i), ign.remove(i)),
        forall|preamble: Seq<char>| #[trigger] output_spec(f, preamble, cands, ign)
            == output_spec(f, preamble, cands.remove(i), ign.remove(i)),
{
    lemma_excluded_no_frame(f, cands, ign, i);
}

/// Ignore law: a candidate whose relative path matches a configured glob, or
/// which the repository ignore oracle reports ignored, contributes no frame,
/// whatever its content.
pub proof fn lemma_ignored_no_frame(
    f: FilterView,
    cands: Seq<CandidateView>,
    ign: Seq<bool>,
    i: int,
)
    requires
        ign.len() == cands.len(),
        0 <= i < cands.len(),
        ign[i] || path_matches(f.patterns, cands[i].rel_path),
    ensures
        frames_spec(f, cands, ign) == frames_spec(f, cands.remove(i), ign.remove(i)),
        forall|preamble: Seq<char>| #[trigger] output_spec(f, preamble, cands, ign)
            == output_spec(f, preamble, cands.remove(i), ign.remove(i)),
{
    lemma_excluded_no_frame(f, cands, ign, i);
}

/// Timestamp law: a candidate modified at or after the process start
/// contributes no frame, whatever its content and ignore status.
pub proof fn lemma_stale_no_frame(
    f: FilterView,
    cands: Seq<CandidateView>,
    ign: Seq<bool>,
    i: int,
)
    requires
        ign.len() == cands.len(),
        0 <= i < cands.len(),
        cands[i].modified matches Some(t) && t >= f.start_time,
    ensures
        frames_spec(f, cands, ign) == frames_spec(f, cands.remove(i), ign.remove(i)),
        forall|preamble: Seq<char>| #[trigger] output_spec(f, preamble, cands, ign)
            == output_spec(f, preamble, cands.remove(i), ign.remove(i)),
{
    lemma_excluded_no_frame(f, cands, ign, i);
}

/// Framing law: the output is exactly the preamble block, then the
/// concatenation of one frame per included candidate, then one terminal
/// marker line; in particular it begins with the preamble block and ends with
/// the terminal marker.
pub proof fn lemma_output_structure(
    f: FilterView,
    preamble: Seq<char>,
    cands: Seq<CandidateView>,
    ign: Seq<bool>,
)
    ensures
        output_spec(f, preamble, cands, ign) == preamble + "\n"@ + frames_spec(f, cands, ign)
            + end_marker(),
        output_spec(f, preamble, cands, ign).take(preamble.len() as int + 1) == preamble + "\n"@,
        output_spec(f, preamble, cands, ign).skip(
            output_spec(f, preamble, cands, ign).len() - end_marker().len(),
        ) == end_marker(),
{
    let out = output_spec(f, preamble, cands, ign);
    reveal_strlit("\n");
    reveal_strlit("@@@@END@@@@\n");
    assert(out.take(preamble.len() as int + 1) =~= preamble + "\n"@);
    assert(out.skip(out.len() - end_marker().len()) =~= end_marker());
}

} // verus!
