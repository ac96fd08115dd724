//! Resolution of a raw request path to a filesystem path under the root:
//! the path is split on `/`, each normal segment is percent-decoded, `.`
//! and empty segments are dropped, `..` pops the previous segment, and the
//! normalized segments are joined onto the configured root directory.

use vstd::prelude::*;

use crate::percent::percent_decode_bytes;
use crate::percent::percent_decode_spec;
use vstd::string::StrSliceExecFns;
use vstd::string::StringSliceAdditionalSpecFns;

verus! {

/// Bytes of the result of decoding a byte sequence as UTF-8, replacing
/// invalid sequences with the replacement character.
pub uninterp spec fn utf8_lossy_of(b: Seq<u8>) -> Seq<u8>;

/// Relies on `String::from_utf8_lossy`: the result is a function of the
/// input bytes alone, and bytes that already form valid UTF-8 (in
/// particular, pure ASCII) pass through unchanged.
#[verifier::external_body]
fn utf8_lossy(b: Vec<u8>) -> (r: Vec<u8>)
    ensures
        r@ == utf8_lossy_of(b@),
        (forall|i: int| 0 <= i < b@.len() ==> b@[i] < 128) ==> r@ == b@,
{
    String::from_utf8_lossy(&b).into_owned().into_bytes()
}

/// The segment `.`, which refers to the current directory.
pub open spec fn seg_dot() -> Seq<u8> {
    seq![46u8]
}

/// The segment `..`, which refers to the parent directory.
pub open spec fn seg_dotdot() -> Seq<u8> {
    seq![46u8, 46u8]
}

/// A normal segment: non-empty and neither `.` nor `..`.
pub open spec fn is_normal_seg(seg: Seq<u8>) -> bool {
    seg.len() > 0 && seg != seg_dot() && seg != seg_dotdot()
}

/// The segments of a path split on `/`. Splitting the empty path gives one
/// empty segment, and every separator starts a new segment, so the result is
/// never empty and consecutive separators give empty segments.
pub open spec fn split_spec(s: Seq<u8>) -> Seq<Seq<u8>>
    decreases s.len(),
{
    if s.len() == 0 {
        seq![Seq::<u8>::empty()]
    } else if s.last() == 47 {
        split_spec(s.drop_last()).push(Seq::<u8>::empty())
    } else {
        let r = split_spec(s.drop_last());
        r.update(r.len() - 1, r.last().push(s.last()))
    }
}

proof fn lemma_split_spec_len(s: Seq<u8>)
    ensures
        split_spec(s).len() >= 1,
    decreases s.len(),
{
    if s.len() > 0 {
        lemma_split_spec_len(s.drop_last());
    }
}

/// What a normal segment of the request path contributes to the resolved
/// path: its percent-decoded bytes, repaired to valid UTF-8.
pub open spec fn decoded_segment(seg: Seq<u8>) -> Seq<u8> {
    utf8_lossy_of(percent_decode_spec(seg))
}

/// Left-to-right normalization of raw segments: empty and `.` segments are
/// ignored, `..` pops the last accumulated segment (a no-op on an empty
/// accumulator), and every other segment is percent-decoded and appended.
pub open spec fn normalize_spec(segs: Seq<Seq<u8>>) -> Seq<Seq<u8>>
    decreases segs.len(),
{
    if segs.len() == 0 {
        Seq::<Seq<u8>>::empty()
    } else {
        let acc = normalize_spec(segs.drop_last());
        let last = segs.last();
        if is_normal_seg(last) {
            acc.push(decoded_segment(last))
        } else if last == seg_dotdot() {
            if acc.len() == 0 {
                acc
            } else {
                acc.drop_last()
            }
        } else {
            acc
        }
    }
}

/// The join of segments onto the root: the root itself when there are no
/// segments, else each segment appended after a `/` separator.
pub open spec fn join_spec(root: Seq<u8>, segs: Seq<Seq<u8>>) -> Seq<u8>
    decreases segs.len(),
{
    if segs.len() == 0 {
        root
    } else {
        join_spec(root, segs.drop_last()) + seq![47u8] + segs.last()
    }
}

/// The whole resolution pipeline on a raw request path.
pub open spec fn resolved_path_spec(root: Seq<u8>, path: Seq<u8>) -> Seq<u8> {
    join_spec(root, normalize_spec(split_spec(path)))
}

/// `path` is `root` itself or sits below it: `root` followed by a `/`.
pub open spec fn descendant_of(path: Seq<u8>, root: Seq<u8>) -> bool {
    ||| path == root
    ||| (path.len() > root.len() && path.take(root.len() as int) == root && path[root.len() as int]
        == 47)
}

fn split_segments(p: &Vec<u8>) -> (r: Vec<Vec<u8>>)
    ensures
        r.deep_view() == split_spec(p@),
{
    let mut acc: Vec<Vec<u8>> = Vec::new();
    let mut cur: Vec<u8> = Vec::new();
    let mut i: usize = 0;
    proof {
        assert(p@.take(0) =~= Seq::<u8>::empty());
        assert(acc.deep_view().push(cur@) =~~= split_spec(p@.take(0)));
    }
    while i < p.len()
        invariant
            i <= p.len(),
            split_spec(p@.take(i as int)) == acc.deep_view().push(cur@),
        decreases p.len() - i,
    {
        let ghost pre = p@.take(i as int);
        let ghost post = p@.take(i + 1);
        proof {
            assert(post.drop_last() =~= pre);
            assert(post.last() == p@[i as int]);
        }
        let b = p[i];
        if b == 47 {
            let ghost old_acc = acc.deep_view();
            let ghost old_cur = cur@;
            acc.push(cur);
            cur = Vec::new();
            proof {
                assert(acc.deep_view() =~~= old_acc.push(old_cur));
                assert(split_spec(post) =~~= acc.deep_view().push(cur@));
            }
        } else {
            let ghost old_acc = acc.deep_view();
            let ghost old_cur = cur@;
            cur.push(b);
            proof {
                let r = split_spec(pre);
                lemma_split_spec_len(pre);
                assert(r == old_acc.push(old_cur));
                assert(r.last() == old_cur);
                assert(split_spec(post) == r.update(r.len() - 1, old_cur.push(p@[i as int])));
                assert(r.update(r.len() - 1, old_cur.push(p@[i as int])) =~~= old_acc.push(cur@));
            }
        }
        i = i + 1;
    }
    proof {
        assert(p@.take(p@.len() as int) =~= p@);
    }
    acc.push(cur);
    proof {
        assert(acc.deep_view() =~~= split_spec(p@));
    }
    acc
}

fn decode_segment(seg: &Vec<u8>) -> (r: Vec<u8>)
    ensures
        r@ == decoded_segment(seg@),
{
    let decoded = percent_decode_bytes(seg);
    utf8_lossy(decoded)
}

fn normalize_segments(raw: &Vec<Vec<u8>>) -> (r: Vec<Vec<u8>>)
    ensures
        r.deep_view() == normalize_spec(raw.deep_view()),
{
    let mut acc: Vec<Vec<u8>> = Vec::new();
    let mut i: usize = 0;
    proof {
        assert(raw.deep_view().take(0) =~= Seq::<Seq<u8>>::empty());
        assert(acc.deep_view() =~~= normalize_spec(raw.deep_view().take(0)));
    }
    while i < raw.len()
        invariant
            i <= raw.len(),
            acc.deep_view() == normalize_spec(raw.deep_view().take(i as int)),
        decreases raw.len() - i,
    {
        let ghost pre = raw.deep_view().take(i as int);
        let ghost post = raw.deep_view().take(i + 1);
        proof {
            assert(post.drop_last() =~= pre);
            assert(post.last() == raw.deep_view()[i as int]);
            assert(raw.deep_view()[i as int] == raw@[i as int]@);
        }
        let seg = &raw[i];
        let ghost old_acc = acc.deep_view();
        if seg.len() == 0 {
            proof {
                assert(!is_normal_seg(seg@) && seg@ != seg_dotdot());
            }
        } else if seg.len() == 1 && seg[0] == 46 {
            proof {
                assert(seg@ =~= seg_dot());
                assert(!is_normal_seg(seg@) && seg@ != seg_dotdot());
            }
        } else if seg.len() == 2 && seg[0] == 46 && seg[1] == 46 {
            proof {
                assert(seg@ =~= seg_dotdot());
            }
            if acc.len() > 0 {
                acc.pop();
                proof {
                    assert(acc.deep_view() =~~= old_acc.drop_last());
                }
            }
        } else {
            proof {
                assert(seg@.len() > 0);
                assert(seg@ != seg_dot() && seg@ != seg_dotdot());
            }
            let d = decode_segment(seg);
            acc.push(d);
            proof {
                assert(acc.deep_view() =~~= old_acc.push(decoded_segment(seg@)));
            }
        }
        i = i + 1;
    }
    proof {
        assert(raw.deep_view().take(raw.deep_view().len() as int) =~= raw.deep_view());
    }
    acc
}

fn join_path(root: &Vec<u8>, segs: &Vec<Vec<u8>>) -> (r: Vec<u8>)
    ensures
        r@ == join_spec(root@, segs.deep_view()),
{
    let mut r: Vec<u8> = Vec::new();
    let mut i: usize = 0;
    while i < root.len()
        invariant
            i <= root.len(),
            r@ == root@.take(i as int),
        decreases root.len() - i,
    {
        r.push(root[i]);
        proof {
            assert(r@ =~= root@.take(i + 1));
        }
        i = i + 1;
    }
    proof {
        assert(root@.take(root@.len() as int) =~= root@);
        assert(segs.deep_view().take(0) =~= Seq::<Seq<u8>>::empty());
    }
    let mut k: usize = 0;
    while k < segs.len()
        invariant
            k <= segs.len(),
            r@ == join_spec(root@, segs.deep_view().take(k as int)),
        decreases segs.len() - k,
    {
        let ghost post = segs.deep_view().take(k + 1);
        proof {
            assert(post.drop_last() =~= segs.deep_view().take(k as int));
            assert(post.last() == segs@[k as int]@);
        }
        r.push(47);
        let seg = &segs[k];
        let mut j: usize = 0;
        while j < seg.len()
            invariant
                j <= seg.len(),
                r@ == join_spec(root@, segs.deep_view().take(k as int)) + seq![47u8] + seg@.take(
                    j as int,
                ),
            decreases seg.len() - j,
        {
            r.push(seg[j]);
            proof {
                assert(seg@.take(j + 1) =~= seg@.take(j as int).push(seg@[j as int]));
                assert(r@ =~= join_spec(root@, segs.deep_view().take(k as int)) + seq![47u8]
                    + seg@.take(j + 1));
            }
            j = j + 1;
        }
        proof {
            assert(seg@.take(seg@.len() as int) =~= seg@);
            assert(r@ == join_spec(root@, post));
        }
        k = k + 1;
    }
    proof {
        assert(segs.deep_view().take(segs.deep_view().len() as int) =~= segs.deep_view());
    }
    r
}

/// A static-file handler configured with a root directory, outside of which
/// no file is served.
#[derive(Clone)]
pub struct StaticDirServer {
    root: Vec<u8>,
}

impl View for StaticDirServer {
    type V = Seq<u8>;

    closed spec fn view(&self) -> Seq<u8> {
        self.root@
    }
}

/// The construction error for a missing root: a fixed prefix followed by
/// the offending root, so the message names the directory that could not be
/// found.
pub open spec fn missing_root_message(root: Seq<u8>) -> Seq<u8> {
    "Could not locate root directory ".spec_bytes() + root
}

impl StaticDirServer {
    /// Creates a new handler for the given root directory. The caller states
    /// whether the root exists on disk; a missing root is rejected here, at
    /// construction time, rather than at request time, with an error that
    /// names it.
    pub fn new(root: Vec<u8>, root_exists: bool) -> (r: Result<StaticDirServer, Vec<u8>>)
        ensures
            root_exists ==> (r matches Ok(s) && s@ == root@),
            !root_exists ==> (r matches Err(e) && e@ == missing_root_message(root@)),
    {
        if root_exists {
            Ok(StaticDirServer { root })
        } else {
            let mut e = "Could not locate root directory ".as_bytes_vec();
            proof {
                assert(e@ =~= "Could not locate root directory ".spec_bytes() + root@.take(0));
            }
            let mut i: usize = 0;
            while i < root.len()
                invariant
                    i <= root.len(),
                    e@ == "Could not locate root directory ".spec_bytes() + root@.take(i as int),
                decreases root.len() - i,
            {
                e.push(root[i]);
                proof {
                    assert(e@ =~= "Could not locate root directory ".spec_bytes() + root@.take(
                        i + 1,
                    ));
                }
                i = i + 1;
            }
            proof {
                assert(root@.take(root@.len() as int) =~= root@);
            }
            Err(e)
        }
    }

    /// Percent-decode, normalize path components and return the final path
    /// joined with root.
    pub fn get_path(&self, path: &Vec<u8>) -> (r: Vec<u8>)
        ensures
            r@ == resolved_path_spec(self@, path@),
    {
        let raw = split_segments(path);
        let segs = normalize_segments(&raw);
        join_path(&self.root, &segs)
    }
}

pub proof fn lemma_join_under_root(root: Seq<u8>, segs: Seq<Seq<u8>>)
    ensures
        descendant_of(join_spec(root, segs), root),
    decreases segs.len(),
{
    if segs.len() > 0 {
        lemma_join_under_root(root, segs.drop_last());
        let q = join_spec(root, segs.drop_last());
        let j = q + seq![47u8] + segs.last();
        assert(j.take(root.len() as int) =~= root);
    }
}

/// Lexical containment, unconditionally: whatever the request path holds —
/// `..` segments included — the resolved path is the root itself or the root
/// followed by a `/`, because normalization never pops past an empty
/// accumulator and the root is prepended only after normalization.
pub proof fn lemma_resolve_never_escapes(root: Seq<u8>, path: Seq<u8>)
    ensures
        descendant_of(resolved_path_spec(root, path), root),
{
    lemma_join_under_root(root, normalize_spec(split_spec(path)));
}

/// A request path with no `..` segment resolves to a descendant of the root.
pub proof fn lemma_resolve_descendant_of_root(root: Seq<u8>, path: Seq<u8>)
    requires
        forall|i: int| 0 <= i < split_spec(path).len() ==> split_spec(path)[i] != seg_dotdot(),
    ensures
        descendant_of(resolved_path_spec(root, path), root),
{
    lemma_resolve_never_escapes(root, path);
}

/// A `..` segment pops exactly the last normalized segment before it, and is
/// a no-op when nothing has accumulated.
pub proof fn lemma_parent_segment_pops(segs: Seq<Seq<u8>>)
    ensures
        normalize_spec(segs).len() == 0 ==> normalize_spec(segs.push(seg_dotdot()))
            == normalize_spec(segs),
        normalize_spec(segs).len() > 0 ==> normalize_spec(segs.push(seg_dotdot()))
            == normalize_spec(segs).drop_last(),
{
    let extended = segs.push(seg_dotdot());
    assert(extended.drop_last() =~= segs);
    assert(extended.last() == seg_dotdot());
    assert(!is_normal_seg(seg_dotdot()));
}

/// Resolution reads nothing but the root and the request path, so resolving
/// the same request path twice yields the identical resolved path.
pub proof fn lemma_resolution_deterministic(root: Seq<u8>, path1: Seq<u8>, path2: Seq<u8>)
    requires
        path1 == path2,
    ensures
        resolved_path_spec(root, path1) == resolved_path_spec(root, path2),
{
}

} // verus!
