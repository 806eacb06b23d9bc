//! A model of a directory tree as a flat list of entries.
//!
//! A path is a list of byte-string segments, relative to the tree's root.
//! The entry list is given in traversal order (parents before their
//! children, depth first), which is the order the shell's scanner reads the
//! real directory in; every ordered result below follows that order.

use vstd::prelude::*;
use crate::InstallError;

verus! {

broadcast use crate::bytes_deep_is_view, crate::vec_deep_view_len, crate::vec_deep_view_index;

/// What a directory entry is: a file with its contents, a directory, or a
/// symlinked directory (which discovery never enters).
#[derive(Debug, PartialEq, Eq)]
pub enum NodeKind {
    File { bytes: Vec<u8> },
    Dir,
    LinkDir,
}

/// Specification-level counterpart of [`NodeKind`].
pub enum KindV {
    File { bytes: Seq<u8> },
    Dir,
    LinkDir,
}

/// One entry of a tree: its path (segments from the tree root) and its kind.
#[derive(Debug, PartialEq, Eq)]
pub struct FsEntry {
    pub path: Vec<Vec<u8>>,
    pub kind: NodeKind,
}

/// Specification-level counterpart of [`FsEntry`].
pub struct EntryV {
    pub path: Seq<Seq<u8>>,
    pub kind: KindV,
}

/// A directory tree: its entries in traversal order.
pub struct FsTree {
    pub entries: Vec<FsEntry>,
}

impl DeepView for NodeKind {
    type V = KindV;

    open spec fn deep_view(&self) -> KindV {
        match self {
            NodeKind::File { bytes } => KindV::File { bytes: bytes@ },
            NodeKind::Dir => KindV::Dir,
            NodeKind::LinkDir => KindV::LinkDir,
        }
    }
}

impl DeepView for FsEntry {
    type V = EntryV;

    open spec fn deep_view(&self) -> EntryV {
        EntryV { path: self.path.deep_view(), kind: self.kind.deep_view() }
    }
}

impl View for FsTree {
    type V = Seq<EntryV>;

    open spec fn view(&self) -> Seq<EntryV> {
        self.entries.deep_view()
    }
}

/// `p` is a proper ancestor of `q`.
pub open spec fn is_strict_prefix(p: Seq<Seq<u8>>, q: Seq<Seq<u8>>) -> bool {
    p.len() < q.len() && q.subrange(0, p.len() as int) == p
}

/// The first file entry at exactly `p`, searching from index `i` on.
pub open spec fn file_at_from(t: Seq<EntryV>, p: Seq<Seq<u8>>, i: int) -> Option<Seq<u8>>
    decreases t.len() - i,
{
    if i < 0 || i >= t.len() {
        None
    } else if t[i].path == p && t[i].kind is File {
        Some(t[i].kind->bytes)
    } else {
        file_at_from(t, p, i + 1)
    }
}

/// The contents of the first file entry at exactly `p`, if any.
pub open spec fn file_at(t: Seq<EntryV>, p: Seq<Seq<u8>>) -> Option<Seq<u8>> {
    file_at_from(t, p, 0)
}

/// There is a file at exactly `p`.
pub open spec fn has_file_at(t: Seq<EntryV>, p: Seq<Seq<u8>>) -> bool {
    file_at(t, p) is Some
}

/// There is a directory (or a symlinked one; following the link) at `p`.
pub open spec fn has_dir_at(t: Seq<EntryV>, p: Seq<Seq<u8>>) -> bool {
    exists|i: int|
        0 <= i < t.len() && t[i].path == p && (t[i].kind is Dir || t[i].kind is LinkDir)
}

/// No symlinked directory stands on the way from the tree root down to `p`,
/// so a traversal that never enters symlinked directories reaches `p`.
pub open spec fn reachable(t: Seq<EntryV>, p: Seq<Seq<u8>>) -> bool {
    forall|i: int|
        0 <= i < t.len() && t[i].kind is LinkDir ==> !is_strict_prefix(#[trigger] t[i].path, p)
}

/// Byte-string equality.
pub fn bytes_eq(a: &Vec<u8>, b: &Vec<u8>) -> (r: bool)
    ensures
        r == (a@ == b@),
{
    if a.len() != b.len() {
        return false;
    }
    let mut i: usize = 0;
    while i < a.len()
        invariant
            a.len() == b.len(),
            0 <= i <= a.len(),
            forall|j: int| 0 <= j < i ==> a@[j] == b@[j],
        decreases a.len() - i,
    {
        if a[i] != b[i] {
            return false;
        }
        i = i + 1;
    }
    proof {
        assert(a@ =~= b@);
    }
    true
}

/// A copy of a byte string.
pub fn bytes_clone(a: &Vec<u8>) -> (r: Vec<u8>)
    ensures
        r@ == a@,
{
    let mut out: Vec<u8> = Vec::new();
    let mut i: usize = 0;
    while i < a.len()
        invariant
            0 <= i <= a.len(),
            out@ =~= a@.subrange(0, i as int),
        decreases a.len() - i,
    {
        out.push(a[i]);
        i = i + 1;
    }
    proof {
        assert(out@ =~= a@);
    }
    out
}

/// Path equality, segment by segment.
pub fn path_eq(a: &Vec<Vec<u8>>, b: &Vec<Vec<u8>>) -> (r: bool)
    ensures
        r == (a.deep_view() == b.deep_view()),
{
    if a.len() != b.len() {
        proof {
            assert(a.deep_view().len() == a@.len());
            assert(b.deep_view().len() == b@.len());
        }
        return false;
    }
    let mut i: usize = 0;
    while i < a.len()
        invariant
            a.len() == b.len(),
            0 <= i <= a.len(),
            forall|j: int| 0 <= j < i ==> a.deep_view()[j] == b.deep_view()[j],
        decreases a.len() - i,
    {
        if !bytes_eq(&a[i], &b[i]) {
            proof {
                assert(a.deep_view()[i as int] == a@[i as int]@);
                assert(b.deep_view()[i as int] == b@[i as int]@);
            }
            return false;
        }
        proof {
            assert(a.deep_view()[i as int] == a@[i as int]@);
            assert(b.deep_view()[i as int] == b@[i as int]@);
        }
        i = i + 1;
    }
    proof {
        assert(a.deep_view() =~= b.deep_view());
    }
    true
}

/// A copy of a path.
pub fn path_clone(a: &Vec<Vec<u8>>) -> (r: Vec<Vec<u8>>)
    ensures
        r.deep_view() == a.deep_view(),
{
    let mut out: Vec<Vec<u8>> = Vec::new();
    let mut i: usize = 0;
    while i < a.len()
        invariant
            0 <= i <= a.len(),
            out@.len() == i,
            forall|k: int| 0 <= k < i ==> #[trigger] out@[k].deep_view() == a.deep_view()[k],
        decreases a.len() - i,
    {
        out.push(bytes_clone(&a[i]));
        proof {
            assert(a.deep_view()[i as int] == a@[i as int]@);
        }
        i = i + 1;
    }
    proof {
        crate::lemma_deep_pointwise(out, a.deep_view());
    }
    out
}

/// Whether `a` is a proper ancestor path of `b`.
pub fn strict_prefix(a: &Vec<Vec<u8>>, b: &Vec<Vec<u8>>) -> (r: bool)
    ensures
        r == is_strict_prefix(a.deep_view(), b.deep_view()),
{
    if a.len() >= b.len() {
        return false;
    }
    let mut i: usize = 0;
    while i < a.len()
        invariant
            a.len() < b.len(),
            0 <= i <= a.len(),
            forall|j: int| 0 <= j < i ==> a.deep_view()[j] == b.deep_view()[j],
        decreases a.len() - i,
    {
        if !bytes_eq(&a[i], &b[i]) {
            proof {
                assert(a.deep_view()[i as int] == a@[i as int]@);
                assert(b.deep_view()[i as int] == b@[i as int]@);
                assert(b.deep_view().subrange(0, a.deep_view().len() as int)[i as int]
                    != a.deep_view()[i as int]);
            }
            return false;
        }
        proof {
            assert(a.deep_view()[i as int] == a@[i as int]@);
            assert(b.deep_view()[i as int] == b@[i as int]@);
        }
        i = i + 1;
    }
    proof {
        assert(b.deep_view().subrange(0, a.deep_view().len() as int) =~= a.deep_view());
    }
    true
}

/// The contents of the first file at `path`, if the tree has one there.
pub fn find_file(tree: &FsTree, path: &Vec<Vec<u8>>) -> (r: Option<Vec<u8>>)
    ensures
        r is Some <==> has_file_at(tree@, path.deep_view()),
        r is Some ==> r->0@ == file_at(tree@, path.deep_view())->0,
{
    let ghost p = path.deep_view();
    let mut i: usize = 0;
    while i < tree.entries.len()
        invariant
            0 <= i <= tree.entries.len(),
            file_at(tree@, p) == file_at_from(tree@, p, i as int),
            p == path.deep_view(),
        decreases tree.entries.len() - i,
    {
        let e = &tree.entries[i];
        let mut matched = false;
        match &e.kind {
            NodeKind::File { bytes } => {
                if path_eq(&e.path, path) {
                    proof {
                        assert(tree@[i as int].path == p && tree@[i as int].kind is File);
                        assert(file_at_from(tree@, p, i as int) == Some(
                            tree@[i as int].kind->bytes,
                        ));
                    }
                    return Some(bytes_clone(bytes));
                } else {
                    matched = true;
                    proof {
                        assert(tree@[i as int].path != p);
                        assert(file_at_from(tree@, p, i as int) == file_at_from(
                            tree@,
                            p,
                            i + 1,
                        ));
                    }
                }
            },
            _ => {},
        }
        proof {
            if !matched {
                assert(!(tree@[i as int].kind is File));
                assert(file_at_from(tree@, p, i as int) == file_at_from(tree@, p, i + 1));
            }
        }
        i = i + 1;
    }
    proof {
        assert(file_at_from(tree@, p, tree@.len() as int) is None);
    }
    None
}

/// Whether the tree has a directory (plain or symlinked) at `path`.
pub fn find_dir(tree: &FsTree, path: &Vec<Vec<u8>>) -> (r: bool)
    ensures
        r == has_dir_at(tree@, path.deep_view()),
{
    let ghost p = path.deep_view();
    let mut i: usize = 0;
    while i < tree.entries.len()
        invariant
            0 <= i <= tree.entries.len(),
            forall|j: int|
                0 <= j < i ==> !(tree@[j].path == p && (tree@[j].kind is Dir
                    || tree@[j].kind is LinkDir)),
            p == path.deep_view(),
        decreases tree.entries.len() - i,
    {
        let e = &tree.entries[i];
        proof {
            assert(tree@[i as int] == tree.entries@[i as int].deep_view());
        }
        let is_dir = match &e.kind {
            NodeKind::Dir => true,
            NodeKind::LinkDir => true,
            NodeKind::File { .. } => false,
        };
        if is_dir && path_eq(&e.path, path) {
            proof {
                assert(tree@[i as int].path == p && (tree@[i as int].kind is Dir
                    || tree@[i as int].kind is LinkDir));
            }
            return true;
        }
        i = i + 1;
    }
    false
}

/// The entries strictly below `src` among the first `i` entries, re-rooted
/// under `dest`: what a recursive copy of the directory `src` produces.
pub open spec fn rerooted_upto(
    t: Seq<EntryV>,
    src: Seq<Seq<u8>>,
    dest: Seq<Seq<u8>>,
    i: int,
) -> Seq<EntryV>
    decreases i,
{
    if i <= 0 {
        Seq::empty()
    } else if is_strict_prefix(src, t[i - 1].path) {
        rerooted_upto(t, src, dest, i - 1) + seq![
            EntryV { path: dest + t[i - 1].path.skip(src.len() as int), kind: t[i - 1].kind },
        ]
    } else {
        rerooted_upto(t, src, dest, i - 1)
    }
}

/// `p` extended by one segment.
pub fn path_push(p: &Vec<Vec<u8>>, seg: &Vec<u8>) -> (r: Vec<Vec<u8>>)
    ensures
        r.deep_view() == p.deep_view().push(seg@),
{
    let mut out = path_clone(p);
    let ghost pre = out@;
    let ghost predv = out.deep_view();
    out.push(bytes_clone(seg));
    proof {
        assert forall|k: int| 0 <= k < out@.len() implies #[trigger] out@[k].deep_view()
            == p.deep_view().push(seg@)[k] by {
            if k < pre.len() {
                assert(out@[k] == pre[k]);
                assert(pre[k].deep_view() == predv[k]);
            }
        }
        crate::lemma_deep_pointwise(out, p.deep_view().push(seg@));
    }
    out
}

/// `dest` extended with the segments of `p` from index `from` on.
pub fn path_suffix_under(dest: &Vec<Vec<u8>>, p: &Vec<Vec<u8>>, from: usize) -> (r: Vec<Vec<u8>>)
    requires
        from <= p@.len(),
    ensures
        r.deep_view() == dest.deep_view() + p.deep_view().subrange(
            from as int,
            p.deep_view().len() as int,
        ),
{
    let ghost target = dest.deep_view() + p.deep_view().subrange(
        from as int,
        p.deep_view().len() as int,
    );
    let mut out = path_clone(dest);
    proof {
        assert forall|k: int| 0 <= k < out@.len() implies #[trigger] out@[k].deep_view()
            == target[k] by {
            assert(out@[k].deep_view() == out.deep_view()[k]);
        }
    }
    let mut j: usize = from;
    while j < p.len()
        invariant
            from <= j <= p@.len(),
            out@.len() == dest@.len() + j - from,
            target == dest.deep_view() + p.deep_view().subrange(
                from as int,
                p.deep_view().len() as int,
            ),
            target.len() == dest@.len() + p@.len() - from,
            forall|k: int| 0 <= k < out@.len() ==> #[trigger] out@[k].deep_view() == target[k],
        decreases p.len() - j,
    {
        out.push(bytes_clone(&p[j]));
        proof {
            assert(p.deep_view()[j as int] == p@[j as int]@);
            assert(target[out@.len() - 1] == p.deep_view()[j as int]);
        }
        j = j + 1;
    }
    proof {
        crate::lemma_deep_pointwise(out, target);
    }
    out
}

/// What copying `src` out of the tree into the directory `dest_dir`
/// produces: the mirror of a directory under its own last segment, a file
/// under its own name, or nothing if `src` is neither.
pub open spec fn copy_result(
    t: Seq<EntryV>,
    src: Seq<Seq<u8>>,
    dest_dir: Seq<Seq<u8>>,
) -> Option<Seq<EntryV>> {
    let dest = dest_dir.push(src.last());
    if has_dir_at(t, src) {
        Some(
            seq![EntryV { path: dest, kind: KindV::Dir }] + rerooted_upto(
                t,
                src,
                dest,
                t.len() as int,
            ),
        )
    } else if has_file_at(t, src) {
        Some(
            seq![
                EntryV { path: dest, kind: KindV::File { bytes: file_at(t, src)->0 } },
            ],
        )
    } else {
        None
    }
}

/// Copies a file or a directory of the tree into the directory `dest_dir`.
///
/// A directory is mirrored under its own last segment, recursively; a file
/// is placed under its own name. A `src` that is neither an existing file
/// nor a directory is an error. A symlinked directory counts as a
/// directory, as a copy that follows links treats it.
pub fn copy(tree: &FsTree, src: &Vec<Vec<u8>>, dest_dir: &Vec<Vec<u8>>) -> (r: Result<
    Vec<FsEntry>,
    InstallError,
>)
    requires
        src@.len() > 0,
    ensures
        r is Ok <==> copy_result(tree@, src.deep_view(), dest_dir.deep_view()) is Some,
        r is Ok ==> r->Ok_0.deep_view() == copy_result(
            tree@,
            src.deep_view(),
            dest_dir.deep_view(),
        )->0,
        r is Err ==> (r->Err_0 matches InstallError::SourceMissing { path } && path.deep_view()
            == src.deep_view()),
{
    let ghost s = src.deep_view();
    let ghost d = dest_dir.deep_view().push(s.last());
    let mut dest: Vec<Vec<u8>> = path_clone(dest_dir);
    dest.push(bytes_clone(&src[src.len() - 1]));
    proof {
        assert(dest.deep_view() =~= d);
    }
    if find_dir(tree, src) {
        let mut out: Vec<FsEntry> = Vec::new();
        out.push(FsEntry { path: path_clone(&dest), kind: NodeKind::Dir });
        let ghost head = EntryV { path: d, kind: KindV::Dir };
        let mut i: usize = 0;
        while i < tree.entries.len()
            invariant
                0 <= i <= tree.entries.len(),
                s == src.deep_view(),
                d == dest.deep_view(),
                dest_dir.deep_view().push(s.last()) == d,
                s.len() == src@.len(),
                head == (EntryV { path: d, kind: KindV::Dir }),
                has_dir_at(tree@, s),
                out@.len() == 1 + rerooted_upto(tree@, s, d, i as int).len(),
                forall|k: int|
                    0 <= k < out@.len() ==> #[trigger] out@[k].deep_view() == (seq![head]
                        + rerooted_upto(tree@, s, d, i as int))[k],
            decreases tree.entries.len() - i,
        {
            let e = &tree.entries[i];
            proof {
                assert(tree@[i as int] == tree.entries@[i as int].deep_view());
            }
            if strict_prefix(src, &e.path) {
                let new_path = path_suffix_under(&dest, &e.path, src.len());
                proof {
                    assert(e.path.deep_view().subrange(
                        s.len() as int,
                        e.path.deep_view().len() as int,
                    ) =~= tree@[i as int].path.skip(s.len() as int));
                }
                let new_kind = match &e.kind {
                    NodeKind::File { bytes } => NodeKind::File { bytes: bytes_clone(bytes) },
                    NodeKind::Dir => NodeKind::Dir,
                    NodeKind::LinkDir => NodeKind::LinkDir,
                };
                out.push(FsEntry { path: new_path, kind: new_kind });
                proof {
                    assert(out@.last().deep_view() == (EntryV {
                        path: d + tree@[i as int].path.skip(s.len() as int),
                        kind: tree@[i as int].kind,
                    }));
                    assert(rerooted_upto(tree@, s, d, i as int + 1) == rerooted_upto(
                        tree@,
                        s,
                        d,
                        i as int,
                    ).push(out@.last().deep_view()));
                }
            } else {
                proof {
                    assert(rerooted_upto(tree@, s, d, i as int + 1) == rerooted_upto(
                        tree@,
                        s,
                        d,
                        i as int,
                    ));
                }
            }
            i = i + 1;
        }
        proof {
            crate::lemma_deep_pointwise(
                out,
                seq![head] + rerooted_upto(tree@, s, d, tree@.len() as int),
            );
        }
        Ok(out)
    } else {
        match find_file(tree, src) {
            Some(bytes) => {
                let mut out: Vec<FsEntry> = Vec::new();
                out.push(FsEntry { path: dest, kind: NodeKind::File { bytes } });
                proof {
                    assert(out.deep_view() =~= copy_result(tree@, s, dest_dir.deep_view())->0);
                }
                Ok(out)
            },
            None => Err(InstallError::SourceMissing { path: path_clone(src) }),
        }
    }
}

} // verus!
