//! The response decision: given the outcome of a `stat` on the resolved
//! path, pick not-found, internal-error, redirect-to-trailing-slash,
//! index-file recursion, or file streaming, and render the chosen outcome as
//! a concrete HTTP response value.

use vstd::prelude::*;

use crate::resolve::resolved_path_spec;
use crate::resolve::StaticDirServer;

verus! {

/// What a successful `stat` of the resolved path reported: whether the entry
/// is a regular file, and its byte length.
#[derive(Clone, Copy, Debug, PartialEq, Eq, Structural)]
pub struct FileMetadata {
    pub is_file: bool,
    pub len: u64,
}

/// The outcome of a `stat` of the resolved path: the entry exists with the
/// given metadata, does not exist, or the lookup failed in some other way.
#[derive(Clone, Copy, Debug, PartialEq, Eq, Structural)]
pub enum StatResult {
    Found(FileMetadata),
    Missing,
    OtherError,
}

/// The terminal response decisions.
#[derive(Debug)]
pub enum Outcome {
    NotFound,
    InternalError,
    Redirect { location: Vec<u8> },
    StreamFile { path: Vec<u8>, len: u64, mime: String },
}

/// One step of the decision: either a terminal outcome, or a request to run
/// the whole resolution again on a derived request path (the index-file
/// lookup inside a directory).
#[derive(Debug)]
pub enum Decision {
    Done(Outcome),
    Recurse { next_path: Vec<u8> },
}

/// The name of the index file served for a directory URL.
pub open spec fn index_html_seq() -> Seq<u8> {
    seq![105u8, 110u8, 100u8, 101u8, 120u8, 46u8, 104u8, 116u8, 109u8, 108u8]
}

/// The request path names a directory URL: it ends with a `/` separator.
pub open spec fn ends_with_slash(path: Seq<u8>) -> bool {
    path.len() > 0 && path.last() == 47
}

/// The media type that the streaming branch reports for a file path, guessed
/// from the path's extension.
pub uninterp spec fn mime_of(path: Seq<u8>) -> Seq<char>;

/// Relies on `mime_guess::from_path` and its `application/octet-stream`
/// fallback: the guess looks the path's extension up in a fixed table, so it
/// is a function of the path bytes alone.
#[verifier::external_body]
fn guess_mime_for(path: &Vec<u8>) -> (r: String)
    ensures
        r@ == mime_of(path@),
{
    let p = String::from_utf8_lossy(path.as_slice()).into_owned();
    mime_guess::from_path(p.as_str()).first_or_octet_stream().as_ref().to_string()
}

/// Exactly what `decide` returns for each `stat` outcome: a missing entry is
/// not found; a failed lookup is an internal error; a directory redirects to
/// the trailing-slash URL unless the request already has one, in which case
/// the index file inside it is looked up; a regular file is streamed with
/// its length and guessed media type.
pub open spec fn decision_post(root: Seq<u8>, path: Seq<u8>, stat: StatResult, r: Decision) -> bool {
    match stat {
        StatResult::Missing => r matches Decision::Done(Outcome::NotFound),
        StatResult::OtherError => r matches Decision::Done(Outcome::InternalError),
        StatResult::Found(m) => if m.is_file {
            r matches Decision::Done(
                Outcome::StreamFile { path: fp, len, mime },
            ) && fp@ == resolved_path_spec(root, path) && len == m.len && mime@ == mime_of(
                resolved_path_spec(root, path),
            )
        } else if ends_with_slash(path) {
            r matches Decision::Recurse { next_path } && next_path@ == path + index_html_seq()
        } else {
            r matches Decision::Done(Outcome::Redirect { location }) && location@ == path.push(47)
        },
    }
}

fn copy_bytes(src: &Vec<u8>) -> (r: Vec<u8>)
    ensures
        r@ == src@,
{
    let mut r: Vec<u8> = Vec::new();
    let mut i: usize = 0;
    while i < src.len()
        invariant
            i <= src.len(),
            r@ == src@.take(i as int),
        decreases src.len() - i,
    {
        r.push(src[i]);
        proof {
            assert(r@ =~= src@.take(i + 1));
        }
        i = i + 1;
    }
    proof {
        assert(src@.take(src@.len() as int) =~= src@);
    }
    r
}

fn append_index_html(v: &mut Vec<u8>)
    ensures
        final(v)@ == old(v)@ + index_html_seq(),
{
    v.push(105);
    v.push(110);
    v.push(100);
    v.push(101);
    v.push(120);
    v.push(46);
    v.push(104);
    v.push(116);
    v.push(109);
    v.push(108);
    proof {
        assert(v@ =~= old(v)@ + index_html_seq());
    }
}

impl StaticDirServer {
    /// One decision step for a request path, given what `stat` reported
    /// about the path it resolves to.
    pub fn decide(&self, path: &Vec<u8>, stat: &StatResult) -> (r: Decision)
        ensures
            decision_post(self@, path@, *stat, r),
    {
        match stat {
            StatResult::Missing => Decision::Done(Outcome::NotFound),
            StatResult::OtherError => Decision::Done(Outcome::InternalError),
            StatResult::Found(m) => {
                if m.is_file {
                    let fp = self.get_path(path);
                    let mime = guess_mime_for(&fp);
                    Decision::Done(Outcome::StreamFile { path: fp, len: m.len, mime })
                } else if path.len() > 0 && path[path.len() - 1] == 47 {
                    let mut next = copy_bytes(path);
                    append_index_html(&mut next);
                    Decision::Recurse { next_path: next }
                } else {
                    let mut location = copy_bytes(path);
                    location.push(47);
                    Decision::Done(Outcome::Redirect { location })
                }
            },
        }
    }
}

/// The two outcomes describe the same response: the same variant, with equal
/// locations, file paths, lengths and media types.
pub open spec fn same_outcome(o1: Outcome, o2: Outcome) -> bool {
    match o1 {
        Outcome::NotFound => o2 matches Outcome::NotFound,
        Outcome::InternalError => o2 matches Outcome::InternalError,
        Outcome::Redirect { location: l1 } => o2 matches Outcome::Redirect { location: l2 } && l1@
            == l2@,
        Outcome::StreamFile { path: p1, len: n1, mime: m1 } => o2 matches Outcome::StreamFile {
            path: p2,
            len: n2,
            mime: m2,
        } && p1@ == p2@ && n1 == n2 && m1@ == m2@,
    }
}

/// The two decisions describe the same step.
pub open spec fn same_decision(d1: Decision, d2: Decision) -> bool {
    match d1 {
        Decision::Done(o1) => d2 matches Decision::Done(o2) && same_outcome(o1, o2),
        Decision::Recurse { next_path: n1 } => d2 matches Decision::Recurse { next_path: n2 } && n1@
            == n2@,
    }
}

/// The index-file lookup terminates after one extra round: a recursion step
/// derives a path that ends in the index file's name, not in a `/`, so the
/// decision on the derived path is terminal whatever `stat` reports for it —
/// a directory named like the index file redirects instead of recursing.
pub proof fn lemma_recursion_terminates(
    root: Seq<u8>,
    path: Seq<u8>,
    stat1: StatResult,
    d1: Decision,
    stat2: StatResult,
    d2: Decision,
)
    requires
        decision_post(root, path, stat1, d1),
        d1 matches Decision::Recurse { next_path } && decision_post(root, next_path@, stat2, d2),
    ensures
        d2 matches Decision::Done(_),
{
    let next = (path + index_html_seq());
    assert(next.last() == 108);
    assert(!ends_with_slash(next));
}

/// The decision reads nothing but the root, the request path and the `stat`
/// outcome, so deciding the same request twice — with no filesystem change
/// between the calls — yields the same response.
pub proof fn lemma_decision_deterministic(
    root: Seq<u8>,
    path: Seq<u8>,
    stat: StatResult,
    d1: Decision,
    d2: Decision,
)
    requires
        decision_post(root, path, stat, d1),
        decision_post(root, path, stat, d2),
    ensures
        same_decision(d1, d2),
{
}

} // verus!
