//! The storage resolver: from a name that came over the wire to a path under
//! the storage root.
//!
//! A name is cut into segments at slashes. A name that is absolute, that holds
//! a NUL byte or a `..` segment, or that names nothing is refused; `.` segments
//! and repeated slashes are dropped. What is left is joined to the root, so the
//! result lies below the root by construction. A path that the file system has
//! canonicalized (symbolic links resolved) is held against the root with
//! [`is_descendant_path`].

use vstd::prelude::*;
use vstd::slice::slice_to_vec;
use crate::text::{
    bytes_eq, is_piece, lemma_pieces_all_cuts, lemma_pieces_are_pieces, lemma_pieces_concat,
    lemma_pieces_first, lemma_pieces_skip_cuts, pieces, segments, split_pieces, views, Separator,
    SLASH,
};

verus! {

/// ASCII `'.'`.
pub const DOT: u8 = 46;

/// Why a name was refused.
#[derive(Clone, Copy, Debug, PartialEq, Eq, Structural)]
pub enum ResolveError {
    /// The name is empty, or made of slashes and `.` segments only.
    Empty,
    /// The name holds a NUL byte.
    Nul,
    /// The name begins with a slash.
    Absolute,
    /// The name holds a `..` segment.
    Traversal,
}

/// The segment that stands for the directory itself.
pub open spec fn dot() -> Seq<u8> {
    seq![DOT]
}

/// The segment that stands for the parent directory.
pub open spec fn dotdot() -> Seq<u8> {
    seq![DOT, DOT]
}

/// The name of the storage directory below the home directory.
pub open spec fn storage_dir_name() -> Seq<u8> {
    seq![
        'z' as u8,
        'y' as u8,
        'n' as u8,
        'c' as u8,
        '-' as u8,
        's' as u8,
        't' as u8,
        'o' as u8,
        'r' as u8,
        'a' as u8,
        'g' as u8,
        'e' as u8,
    ]
}

/// A name that tries to leave the storage root.
pub open spec fn traversal_sample() -> Seq<u8> {
    seq![
        '.' as u8,
        '.' as u8,
        '/' as u8,
        '.' as u8,
        '.' as u8,
        '/' as u8,
        'e' as u8,
        't' as u8,
        'c' as u8,
        '/' as u8,
        'p' as u8,
        'a' as u8,
        's' as u8,
        's' as u8,
        'w' as u8,
        'd' as u8,
    ]
}

pub open spec fn has_nul(name: Seq<u8>) -> bool {
    exists|i: int| 0 <= i < name.len() && #[trigger] name[i] == 0
}

/// One of the segments is `..`.
pub open spec fn has_parent(segs: Seq<Seq<u8>>) -> bool {
    exists|i: int| 0 <= i < segs.len() && #[trigger] segs[i] == dotdot()
}

/// The segments without the `.` ones.
pub open spec fn drop_dots(segs: Seq<Seq<u8>>) -> Seq<Seq<u8>>
    decreases segs.len(),
{
    if segs.len() == 0 {
        Seq::empty()
    } else if segs.last() == dot() {
        drop_dots(segs.drop_last())
    } else {
        drop_dots(segs.drop_last()).push(segs.last())
    }
}

/// A segment that names an entry: not empty, without a slash, neither `.` nor `..`.
pub open spec fn is_normal(seg: Seq<u8>) -> bool {
    is_piece(Separator::Slash, seg) && seg != dot() && seg != dotdot()
}

pub open spec fn all_normal(segs: Seq<Seq<u8>>) -> bool {
    forall|i: int| 0 <= i < segs.len() ==> is_normal(#[trigger] segs[i])
}

/// The segments below the root that a name stands for, or why it is refused.
pub open spec fn relative_segments(name: Seq<u8>) -> Result<Seq<Seq<u8>>, ResolveError> {
    if name.len() == 0 {
        Err(ResolveError::Empty)
    } else if has_nul(name) {
        Err(ResolveError::Nul)
    } else if name[0] == SLASH {
        Err(ResolveError::Absolute)
    } else if has_parent(segments(name)) {
        Err(ResolveError::Traversal)
    } else if drop_dots(segments(name)).len() == 0 {
        Err(ResolveError::Empty)
    } else {
        Ok(drop_dots(segments(name)))
    }
}

/// `base` with one more segment.
pub open spec fn join_one(base: Seq<u8>, seg: Seq<u8>) -> Seq<u8> {
    if base.len() > 0 && base.last() == SLASH {
        base + seg
    } else {
        base + seq![SLASH] + seg
    }
}

/// `root` with the segments appended, each behind a slash.
pub open spec fn join_path(root: Seq<u8>, segs: Seq<Seq<u8>>) -> Seq<u8>
    decreases segs.len(),
{
    if segs.len() == 0 {
        root
    } else {
        join_one(join_path(root, segs.drop_last()), segs.last())
    }
}

/// The segments with a slash between each two: the name below the root.
pub open spec fn join_segments(segs: Seq<Seq<u8>>) -> Seq<u8>
    decreases segs.len(),
{
    if segs.len() == 0 {
        Seq::empty()
    } else if segs.len() == 1 {
        segs[0]
    } else {
        join_segments(segs.drop_last()) + seq![SLASH] + segs.last()
    }
}

/// `path` lies strictly below `root`: both are absolute, the segments of
/// `path` begin with those of `root`, and those that follow name entries.
pub open spec fn is_descendant(root: Seq<u8>, path: Seq<u8>) -> bool {
    let r = segments(root);
    let p = segments(path);
    &&& root.len() > 0 && root[0] == SLASH
    &&& path.len() > 0 && path[0] == SLASH
    &&& r.len() < p.len()
    &&& p.take(r.len() as int) == r
    &&& all_normal(p.skip(r.len() as int))
}

/// A path below the storage root: the root and the segments that follow it.
#[derive(Debug, PartialEq, Eq)]
pub struct StoragePath {
    root: Vec<u8>,
    relative: Vec<Vec<u8>>,
}

proof fn lemma_drop_dots_normal(segs: Seq<Seq<u8>>)
    requires
        forall|i: int| 0 <= i < segs.len() ==> is_piece(Separator::Slash, #[trigger] segs[i]),
        !has_parent(segs),
    ensures
        all_normal(drop_dots(segs)),
    decreases segs.len(),
{
    if segs.len() > 0 {
        let front = segs.drop_last();
        assert forall|i: int| 0 <= i < front.len() implies is_piece(
            Separator::Slash,
            #[trigger] front[i],
        ) by {
            assert(front[i] == segs[i]);
        }
        if has_parent(front) {
            let i = choose|i: int| 0 <= i < front.len() && #[trigger] front[i] == dotdot();
            assert(segs[i] == dotdot());
        }
        lemma_drop_dots_normal(front);
        assert(segs[segs.len() - 1] != dotdot());
        assert(is_piece(Separator::Slash, segs[segs.len() - 1]));
    }
}

/// Joining one segment to a path adds that segment to its segments.
pub proof fn lemma_segments_of_join_one(base: Seq<u8>, seg: Seq<u8>)
    requires
        is_piece(Separator::Slash, seg),
    ensures
        segments(join_one(base, seg)) == segments(base).push(seg),
        join_one(base, seg).len() > 0,
        base.len() > 0 ==> join_one(base, seg)[0] == base[0],
{
    let sl = Separator::Slash;
    let tail = seq![SLASH] + seg;
    lemma_pieces_skip_cuts(sl, tail, 1);
    assert(tail.skip(1) =~= seg);
    lemma_pieces_first(sl, seg, Seq::<u8>::empty());
    assert(seg + Seq::<u8>::empty() =~= seg);
    lemma_pieces_all_cuts(sl, Seq::<u8>::empty());
    assert(pieces(sl, tail) =~= seq![seg]);
    if base.len() > 0 && base.last() == SLASH {
        let front = base.drop_last();
        let one = seq![SLASH];
        assert(base =~= front + one);
        lemma_pieces_concat(sl, front, one);
        lemma_pieces_all_cuts(sl, one);
        assert(join_one(base, seg) =~= front + tail);
        lemma_pieces_concat(sl, front, tail);
        assert(segments(join_one(base, seg)) =~= segments(base).push(seg));
    } else {
        assert(join_one(base, seg) =~= base + tail);
        lemma_pieces_concat(sl, base, tail);
        assert(segments(join_one(base, seg)) =~= segments(base).push(seg));
    }
}

/// The segments of a joined path are those of the root, then those joined.
pub proof fn lemma_segments_of_join_path(root: Seq<u8>, segs: Seq<Seq<u8>>)
    requires
        all_normal(segs),
    ensures
        segments(join_path(root, segs)) == segments(root) + segs,
        root.len() > 0 ==> join_path(root, segs).len() > 0 && join_path(root, segs)[0] == root[0],
    decreases segs.len(),
{
    if segs.len() == 0 {
        assert(segments(root) + segs =~= segments(root));
    } else {
        let front = segs.drop_last();
        assert forall|i: int| 0 <= i < front.len() implies is_normal(#[trigger] front[i]) by {
            assert(front[i] == segs[i]);
        }
        lemma_segments_of_join_path(root, front);
        assert(is_normal(segs[segs.len() - 1]));
        lemma_segments_of_join_one(join_path(root, front), segs.last());
        assert((segments(root) + front).push(segs.last()) =~= segments(root) + segs);
    }
}

/// Whatever name is accepted, the path that it is resolved to lies below the
/// root: no accepted name leaves the storage root.
pub proof fn lemma_resolved_is_descendant(root: Seq<u8>, name: Seq<u8>)
    requires
        root.len() > 0 && root[0] == SLASH,
        relative_segments(name) is Ok,
    ensures
        is_descendant(root, join_path(root, relative_segments(name)->Ok_0)),
        all_normal(relative_segments(name)->Ok_0),
{
    let segs = relative_segments(name)->Ok_0;
    lemma_pieces_are_pieces(Separator::Slash, name);
    lemma_drop_dots_normal(segments(name));
    lemma_segments_of_join_path(root, segs);
    let r = segments(root);
    let p = segments(join_path(root, segs));
    assert(p.take(r.len() as int) =~= r);
    assert(p.skip(r.len() as int) =~= segs);
}

/// A name with a `..` segment between two slashes is refused.
pub proof fn lemma_parent_segment_rejected(name: Seq<u8>, at: int)
    requires
        1 <= at,
        at + 2 < name.len(),
        name[at - 1] == SLASH,
        name[at] == DOT,
        name[at + 1] == DOT,
        name[at + 2] == SLASH,
    ensures
        has_parent(segments(name)),
        relative_segments(name) is Err,
{
    let sl = Separator::Slash;
    let x = name.take(at - 1);
    let rest = name.skip(at + 2);
    let y = seq![SLASH] + (dotdot() + rest);
    assert(name =~= x + y);
    lemma_pieces_concat(sl, x, y);
    lemma_pieces_skip_cuts(sl, y, 1);
    assert(y.skip(1) =~= dotdot() + rest);
    assert(rest[0] == SLASH);
    lemma_pieces_first(sl, dotdot(), rest);
    let k = pieces(sl, x).len() as int;
    assert(segments(name)[k] == dotdot());
}

/// A name that holds `../../etc/passwd` anywhere is refused.
pub proof fn lemma_traversal_rejected(name: Seq<u8>, at: int)
    requires
        0 <= at,
        at + traversal_sample().len() <= name.len(),
        name.subrange(at, at + traversal_sample().len()) == traversal_sample(),
    ensures
        relative_segments(name) is Err,
{
    let t = traversal_sample();
    let part = name.subrange(at, at + t.len());
    assert(name[at + 2] == part[2]);
    assert(name[at + 3] == part[3]);
    assert(name[at + 4] == part[4]);
    assert(name[at + 5] == part[5]);
    lemma_parent_segment_rejected(name, at + 3);
}

impl StoragePath {
    #[verifier::type_invariant]
    spec fn names_entries(&self) -> bool {
        self.relative@.len() > 0 && all_normal(views(self.relative@))
    }

    /// The storage root that the path lies below.
    pub closed spec fn root(&self) -> Seq<u8> {
        self.root@
    }

    /// The segments that follow the root.
    pub closed spec fn relative(&self) -> Seq<Seq<u8>> {
        views(self.relative@)
    }

    /// The path as bytes.
    pub open spec fn bytes(&self) -> Seq<u8> {
        join_path(self.root(), self.relative())
    }

    /// The segments below the root.
    pub fn segments(&self) -> (r: &Vec<Vec<u8>>)
        ensures
            views(r@) == self.relative(),
            r@.len() > 0,
            all_normal(self.relative()),
    {
        proof {
            use_type_invariant(self);
        }
        &self.relative
    }

    /// The name below the root: the segments with a slash between each two.
    pub open spec fn name(&self) -> Seq<u8> {
        join_segments(self.relative())
    }

    /// The name below the root, as it is sent to a peer.
    pub fn relative_bytes(&self) -> (r: Vec<u8>)
        ensures
            r@ == self.name(),
    {
        let mut out: Vec<u8> = Vec::new();
        let mut i: usize = 0;
        let ghost rel = views(self.relative@);
        assert(rel.take(0) =~= Seq::<Seq<u8>>::empty());
        while i < self.relative.len()
            invariant
                i <= self.relative@.len(),
                rel == views(self.relative@),
                out@ == join_segments(rel.take(i as int)),
            decreases self.relative@.len() - i,
        {
            let ghost before = out@;
            if i > 0 {
                out.push(SLASH);
            }
            out.extend_from_slice(self.relative[i].as_slice());
            proof {
                let next = rel.take(i + 1);
                assert(next.drop_last() =~= rel.take(i as int));
                assert(next.last() == self.relative@[i as int]@);
                if i == 0 {
                    assert(out@ =~= next[0]);
                } else {
                    assert(out@ =~= before + seq![SLASH] + next.last());
                }
            }
            i += 1;
        }
        assert(rel.take(i as int) =~= rel);
        out
    }

    /// The path as bytes, ready for the file system.
    pub fn to_bytes(&self) -> (r: Vec<u8>)
        ensures
            r@ == self.bytes(),
    {
        let mut out: Vec<u8> = slice_to_vec(self.root.as_slice());
        let mut i: usize = 0;
        let ghost rel = views(self.relative@);
        assert(rel.take(0) =~= Seq::<Seq<u8>>::empty());
        while i < self.relative.len()
            invariant
                i <= self.relative@.len(),
                rel == views(self.relative@),
                out@ == join_path(self.root@, rel.take(i as int)),
            decreases self.relative@.len() - i,
        {
            let ghost before = out@;
            if !(out.len() > 0 && out[out.len() - 1] == SLASH) {
                out.push(SLASH);
            }
            out.extend_from_slice(self.relative[i].as_slice());
            proof {
                let next = rel.take(i + 1);
                assert(next.drop_last() =~= rel.take(i as int));
                assert(next.last() == self.relative@[i as int]@);
                assert(out@ =~= join_one(before, next.last()));
            }
            i += 1;
        }
        assert(rel.take(i as int) =~= rel);
        out
    }
}

/// The home directory to build on: the one that was found, or the file
/// system's root when none was.
pub fn get_user_home_dir(home: Option<Vec<u8>>) -> (r: Vec<u8>)
    ensures
        r@ == match home {
            Some(h) => h@,
            None => seq![SLASH],
        },
{
    match home {
        Some(h) => h,
        None => {
            let mut v: Vec<u8> = Vec::new();
            v.push(SLASH);
            assert(v@ =~= seq![SLASH]);
            v
        },
    }
}

/// The storage root below a home directory.
pub fn storage_root(home: &[u8]) -> (r: Vec<u8>)
    ensures
        r@ == join_one(home@, storage_dir_name()),
{
    let mut out: Vec<u8> = slice_to_vec(home);
    if !(out.len() > 0 && out[out.len() - 1] == SLASH) {
        out.push(SLASH);
    }
    let name: [u8; 12] = [
        'z' as u8,
        'y' as u8,
        'n' as u8,
        'c' as u8,
        '-' as u8,
        's' as u8,
        't' as u8,
        'o' as u8,
        'r' as u8,
        'a' as u8,
        'g' as u8,
        'e' as u8,
    ];
    assert(name@ =~= storage_dir_name());
    out.extend_from_slice(&name);
    assert(out@ =~= join_one(home@, storage_dir_name()));
    out
}

fn is_dot(seg: &[u8]) -> (r: bool)
    ensures
        r == (seg@ == dot()),
{
    let d: [u8; 1] = [DOT];
    assert(d@ =~= dot());
    bytes_eq(seg, &d)
}

fn is_dotdot(seg: &[u8]) -> (r: bool)
    ensures
        r == (seg@ == dotdot()),
{
    let d: [u8; 2] = [DOT, DOT];
    assert(d@ =~= dotdot());
    bytes_eq(seg, &d)
}

fn contains_nul(name: &[u8]) -> (r: bool)
    ensures
        r == has_nul(name@),
{
    let mut i: usize = 0;
    while i < name.len()
        invariant
            i <= name@.len(),
            forall|j: int| 0 <= j < i ==> #[trigger] name@[j] != 0,
        decreases name@.len() - i,
    {
        if name[i] == 0 {
            return true;
        }
        i += 1;
    }
    false
}

/// Resolves a name from the wire to a path below `root`, or refuses it. The
/// file system is not touched.
pub fn resolve(root: &[u8], name: &[u8]) -> (r: Result<StoragePath, ResolveError>)
    ensures
        match r {
            Ok(p) => {
                &&& relative_segments(name@) == Ok::<Seq<Seq<u8>>, ResolveError>(p.relative())
                &&& p.root() == root@
            },
            Err(e) => relative_segments(name@) == Err::<Seq<Seq<u8>>, ResolveError>(e),
        },
{
    if name.len() == 0 {
        return Err(ResolveError::Empty);
    }
    if contains_nul(name) {
        return Err(ResolveError::Nul);
    }
    if name[0] == SLASH {
        return Err(ResolveError::Absolute);
    }
    let segs = split_pieces(Separator::Slash, name);
    let ghost all = views(segs@);
    proof {
        lemma_pieces_are_pieces(Separator::Slash, name@);
    }
    let mut kept: Vec<Vec<u8>> = Vec::new();
    let mut i: usize = 0;
    assert(all.take(0) =~= Seq::<Seq<u8>>::empty());
    assert(views(kept@) =~= Seq::<Seq<u8>>::empty());
    while i < segs.len()
        invariant
            i <= segs@.len(),
            name@.len() > 0,
            !has_nul(name@),
            name@[0] != SLASH,
            all == views(segs@),
            all == segments(name@),
            forall|j: int| 0 <= j < all.len() ==> is_piece(Separator::Slash, #[trigger] all[j]),
            forall|j: int| 0 <= j < i ==> #[trigger] all[j] != dotdot(),
            views(kept@) == drop_dots(all.take(i as int)),
            all_normal(views(kept@)),
        decreases segs@.len() - i,
    {
        let seg = segs[i].as_slice();
        assert(all[i as int] == seg@);
        if is_dotdot(seg) {
            return Err(ResolveError::Traversal);
        }
        proof {
            let next = all.take(i + 1);
            assert(next.drop_last() =~= all.take(i as int));
            assert(next.last() == seg@);
        }
        if !is_dot(seg) {
            let copy = slice_to_vec(seg);
            proof {
                let grown = views(kept@.push(copy));
                assert(grown =~= views(kept@).push(seg@));
                assert(is_piece(Separator::Slash, all[i as int]));
                assert forall|j: int| 0 <= j < grown.len() implies is_normal(
                    #[trigger] grown[j],
                ) by {
                    if j < kept@.len() {
                        assert(grown[j] == views(kept@)[j]);
                    }
                }
            }
            kept.push(copy);
        }
        i += 1;
    }
    proof {
        assert(all.take(i as int) =~= all);
        if has_parent(all) {
            let j = choose|j: int| 0 <= j < all.len() && #[trigger] all[j] == dotdot();
            assert(false);
        }
    }
    if kept.len() == 0 {
        return Err(ResolveError::Empty);
    }
    Ok(StoragePath { root: slice_to_vec(root), relative: kept })
}

/// Whether a canonical path lies strictly below the canonical storage root.
pub fn is_descendant_path(root: &[u8], path: &[u8]) -> (r: bool)
    ensures
        r == is_descendant(root@, path@),
{
    if root.len() == 0 || path.len() == 0 {
        return false;
    }
    if root[0] != SLASH || path[0] != SLASH {
        return false;
    }
    let r = split_pieces(Separator::Slash, root);
    let p = split_pieces(Separator::Slash, path);
    let ghost rs = views(r@);
    let ghost ps = views(p@);
    if r.len() >= p.len() {
        return false;
    }
    let mut i: usize = 0;
    while i < r.len()
        invariant
            i <= r@.len() < p@.len(),
            rs == views(r@),
            ps == views(p@),
            rs == segments(root@),
            ps == segments(path@),
            forall|j: int| 0 <= j < i ==> #[trigger] ps[j] == rs[j],
        decreases r@.len() - i,
    {
        assert(rs[i as int] == r@[i as int]@);
        assert(ps[i as int] == p@[i as int]@);
        if !bytes_eq(r[i].as_slice(), p[i].as_slice()) {
            assert(ps.take(rs.len() as int)[i as int] == ps[i as int]);
            return false;
        }
        i += 1;
    }
    assert(ps.take(rs.len() as int) =~= rs);
    proof {
        lemma_pieces_are_pieces(Separator::Slash, path@);
    }
    let ghost below = ps.skip(rs.len() as int);
    while i < p.len()
        invariant
            r@.len() <= i <= p@.len(),
            root@.len() > 0 && root@[0] == SLASH,
            path@.len() > 0 && path@[0] == SLASH,
            rs == views(r@),
            ps == views(p@),
            rs == segments(root@),
            ps == segments(path@),
            ps.take(rs.len() as int) == rs,
            below == ps.skip(rs.len() as int),
            forall|j: int| 0 <= j < ps.len() ==> is_piece(Separator::Slash, #[trigger] ps[j]),
            forall|j: int| rs.len() <= j < i ==> is_normal(#[trigger] ps[j]),
        decreases p@.len() - i,
    {
        let seg = p[i].as_slice();
        assert(ps[i as int] == seg@);
        if is_dot(seg) || is_dotdot(seg) {
            assert(below[i - rs.len()] == ps[i as int]);
            return false;
        }
        i += 1;
    }
    assert forall|j: int| 0 <= j < below.len() implies is_normal(#[trigger] below[j]) by {
        assert(below[j] == ps[j + rs.len()]);
    }
    true
}

} // verus!
