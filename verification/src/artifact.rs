//! The artifact installer: from a model of the build-output directory it
//! computes which binaries and libraries go under `lib/<package>`, which
//! header trees (directories holding the sentinel marker file) are merged
//! under the header destination, and the exact text of the generated
//! build-integration config file.

use vstd::prelude::*;
use crate::InstallError;
use crate::fs_tree::{
    EntryV, FsEntry, FsTree, KindV, NodeKind, bytes_clone, bytes_eq, file_at, has_file_at,
    is_strict_prefix, path_clone, path_eq, path_push, path_suffix_under, reachable,
    strict_prefix, find_file,
};
use crate::text::{joined, join_bytes, replace_all, replace_sp};
use vstd::string::StringSliceAdditionalSpecFns;
use vstd::string::StrSliceExecFns;

verus! {

broadcast use crate::bytes_deep_is_view, crate::vec_deep_view_len, crate::vec_deep_view_index,
    crate::vec_deep_is_seq_deep, crate::seq_deep_push;

/// The name of the sentinel marker file whose presence makes a directory a
/// header root.
pub open spec fn marker_name_sp() -> Seq<u8> {
    "CARGO_ROS_INCLUDE_ROOT".spec_bytes()
}

/// The sentinel marker file name, as bytes.
pub fn marker_name() -> (r: Vec<u8>)
    ensures
        r@ == marker_name_sp(),
{
    "CARGO_ROS_INCLUDE_ROOT".as_bytes_vec()
}

/// The fixed, ordered linkage-convention pairs: shared variants first, then
/// the static one, then the platform-import ones.
pub open spec fn convention_pairs() -> Seq<(Seq<u8>, Seq<u8>)> {
    seq![
        ("lib".spec_bytes(), "so".spec_bytes()),
        ("lib".spec_bytes(), "dylib".spec_bytes()),
        ("lib".spec_bytes(), "a".spec_bytes()),
        ("".spec_bytes(), "dll".spec_bytes()),
        ("".spec_bytes(), "lib".spec_bytes()),
    ]
}

/// The candidate library file name for one convention pair.
pub open spec fn candidate_sp(pkg: Seq<u8>, i: int) -> Seq<u8> {
    convention_pairs()[i].0 + pkg + ".".spec_bytes() + convention_pairs()[i].1
}

/// All candidate library file names, in the fixed convention order.
pub open spec fn candidate_names(pkg: Seq<u8>) -> Seq<Seq<u8>> {
    Seq::new(convention_pairs().len(), |i: int| candidate_sp(pkg, i))
}

/// One candidate name: `prefix + pkg + "." + suffix`.
fn candidate(prefix: &str, pkg: &Vec<u8>, suffix: &str) -> (r: Vec<u8>)
    ensures
        r@ == prefix.spec_bytes() + pkg@ + ".".spec_bytes() + suffix.spec_bytes(),
{
    let mut out = prefix.as_bytes_vec();
    crate::text::append_bytes(&mut out, pkg);
    let dot = ".".as_bytes_vec();
    crate::text::append_bytes(&mut out, &dot);
    let suf = suffix.as_bytes_vec();
    crate::text::append_bytes(&mut out, &suf);
    proof {
        assert(out@ =~= prefix.spec_bytes() + pkg@ + ".".spec_bytes() + suffix.spec_bytes());
    }
    out
}

/// All candidate library file names for the package, in convention order.
pub fn candidates(pkg: &Vec<u8>) -> (r: Vec<Vec<u8>>)
    ensures
        r.deep_view() == candidate_names(pkg@),
{
    let mut out: Vec<Vec<u8>> = Vec::new();
    out.push(candidate("lib", pkg, "so"));
    out.push(candidate("lib", pkg, "dylib"));
    out.push(candidate("lib", pkg, "a"));
    out.push(candidate("", pkg, "dll"));
    out.push(candidate("", pkg, "lib"));
    proof {
        assert(out.deep_view() =~= candidate_names(pkg@));
    }
    out
}

/// The candidate names among the first `i` that are present as files at the
/// top of the build output.
pub open spec fn libs_upto(t: Seq<EntryV>, cands: Seq<Seq<u8>>, i: int) -> Seq<Seq<u8>>
    decreases i,
{
    if i <= 0 {
        Seq::empty()
    } else if has_file_at(t, seq![cands[i - 1]]) {
        libs_upto(t, cands, i - 1).push(cands[i - 1])
    } else {
        libs_upto(t, cands, i - 1)
    }
}

/// The library file names of the package that are present in the build
/// output, in the fixed convention order.
pub open spec fn discovered_libs(t: Seq<EntryV>, pkg: Seq<u8>) -> Seq<Seq<u8>> {
    libs_upto(t, candidate_names(pkg), candidate_names(pkg).len() as int)
}

/// The file entries (name and contents) of the discovered libraries, in the
/// same order.
pub open spec fn lib_files_upto(t: Seq<EntryV>, cands: Seq<Seq<u8>>, i: int) -> Seq<EntryV>
    decreases i,
{
    if i <= 0 {
        Seq::empty()
    } else if has_file_at(t, seq![cands[i - 1]]) {
        lib_files_upto(t, cands, i - 1).push(
            EntryV {
                path: seq![cands[i - 1]],
                kind: KindV::File { bytes: file_at(t, seq![cands[i - 1]])->0 },
            },
        )
    } else {
        lib_files_upto(t, cands, i - 1)
    }
}

/// A single-segment path.
fn single_path(name: &Vec<u8>) -> (r: Vec<Vec<u8>>)
    ensures
        r.deep_view() == seq![name@],
{
    let mut p: Vec<Vec<u8>> = Vec::new();
    p.push(bytes_clone(name));
    proof {
        assert(p.deep_view() =~= seq![name@]);
    }
    p
}

/// Finds the library files of the package present in the build output:
/// their names in convention order, and their file entries.
pub fn discover_libraries(tree: &FsTree, pkg: &Vec<u8>) -> (r: (Vec<Vec<u8>>, Vec<FsEntry>))
    ensures
        r.0.deep_view() == discovered_libs(tree@, pkg@),
        r.1.deep_view() == lib_files_upto(
            tree@,
            candidate_names(pkg@),
            candidate_names(pkg@).len() as int,
        ),
{
    let ghost cands_sp = candidate_names(pkg@);
    let cands = candidates(pkg);
    let mut names: Vec<Vec<u8>> = Vec::new();
    let mut files: Vec<FsEntry> = Vec::new();
    let mut i: usize = 0;
    proof {
        assert(names.deep_view() =~= libs_upto(tree@, cands_sp, 0));
        assert(files.deep_view() =~= lib_files_upto(tree@, cands_sp, 0));
    }
    while i < cands.len()
        invariant
            0 <= i <= cands.len(),
            cands.deep_view() == cands_sp,
            cands@.len() == cands_sp.len(),
            names.deep_view() == libs_upto(tree@, cands_sp, i as int),
            files.deep_view() == lib_files_upto(tree@, cands_sp, i as int),
        decreases cands.len() - i,
    {
        let path = single_path(&cands[i]);
        proof {
            assert(cands@[i as int].deep_view() == cands_sp[i as int]);
            assert(path.deep_view() == seq![cands_sp[i as int]]);
        }
        match find_file(tree, &path) {
            Some(bytes) => {
                names.push(bytes_clone(&cands[i]));
                files.push(FsEntry { path, kind: NodeKind::File { bytes } });
            },
            None => {},
        }
        i = i + 1;
    }
    (names, files)
}

/// The outcome of the binary-copy phase, as a value: the file entries of
/// all declared binaries in order, or the first failure.
pub enum BinsOutcome {
    Entries { files: Seq<EntryV> },
    NoName,
    Missing { name: Seq<u8> },
}

/// What copying the declared binaries from index `i` on produces: each must
/// be named and present as a file at the top of the build output; the first
/// unnamed or missing one aborts.
pub open spec fn bins_plan_from(t: Seq<EntryV>, bins: Seq<Option<Seq<u8>>>, i: int) -> BinsOutcome
    decreases bins.len() - i,
{
    if i < 0 || i >= bins.len() {
        BinsOutcome::Entries { files: Seq::empty() }
    } else {
        match bins[i] {
            None => BinsOutcome::NoName,
            Some(name) => {
                if !has_file_at(t, seq![name]) {
                    BinsOutcome::Missing { name }
                } else {
                    match bins_plan_from(t, bins, i + 1) {
                        BinsOutcome::Entries { files } => BinsOutcome::Entries {
                            files: seq![
                                EntryV {
                                    path: seq![name],
                                    kind: KindV::File { bytes: file_at(t, seq![name])->0 },
                                },
                            ] + files,
                        },
                        other => other,
                    }
                }
            },
        }
    }
}

/// A declared binary of the package: its name, if the descriptor gave one.
pub struct BinaryProduct {
    pub name: Option<Vec<u8>>,
}

impl DeepView for BinaryProduct {
    type V = Option<Seq<u8>>;

    open spec fn deep_view(&self) -> Option<Seq<u8>> {
        match self.name {
            Some(ref n) => Some(n@),
            None => None,
        }
    }
}

/// Copies the declared binaries out of the build output: their file
/// entries in declaration order, or the first failure, exactly as
/// [`bins_plan_from`] names it.
pub fn collect_binaries(tree: &FsTree, binaries: &Vec<BinaryProduct>) -> (r: Result<
    Vec<FsEntry>,
    InstallError,
>)
    ensures
        r is Ok <==> bins_plan_from(tree@, binaries.deep_view(), 0) is Entries,
        r is Ok ==> r->Ok_0.deep_view() == bins_plan_from(tree@, binaries.deep_view(), 0)->files,
        r is Err ==> (match bins_plan_from(tree@, binaries.deep_view(), 0) {
            BinsOutcome::NoName => r->Err_0 is BinaryWithoutName,
            BinsOutcome::Missing { name } => r->Err_0 matches InstallError::MissingBinary {
                name: n,
            } && n@ == name,
            BinsOutcome::Entries { .. } => false,
        }),
{
    let ghost bv = binaries.deep_view();
    let mut out: Vec<FsEntry> = Vec::new();
    let mut i: usize = 0;
    proof {
        assert(out.deep_view() =~= Seq::<EntryV>::empty());
    }
    while i < binaries.len()
        invariant
            0 <= i <= binaries.len(),
            bv == binaries.deep_view(),
            bv.len() == binaries@.len(),
            bins_plan_from(tree@, bv, 0) is Entries <==> bins_plan_from(
                tree@,
                bv,
                i as int,
            ) is Entries,
            !(bins_plan_from(tree@, bv, i as int) is Entries) ==> bins_plan_from(tree@, bv, 0)
                == bins_plan_from(tree@, bv, i as int),
            bins_plan_from(tree@, bv, 0) is Entries ==> bins_plan_from(tree@, bv, 0)->files
                == out.deep_view() + bins_plan_from(tree@, bv, i as int)->files,
        decreases binaries.len() - i,
    {
        proof {
            assert(bv[i as int] == binaries@[i as int].deep_view());
        }
        let b = &binaries[i];
        match &b.name {
            None => {
                return Err(InstallError::BinaryWithoutName);
            },
            Some(name) => {
                let path = single_path(name);
                match find_file(tree, &path) {
                    Some(bytes) => {
                        let ghost pre = out.deep_view();
                        out.push(FsEntry { path, kind: NodeKind::File { bytes } });
                        proof {
                            let rest = bins_plan_from(tree@, bv, i as int);
                            let rest1 = bins_plan_from(tree@, bv, i + 1);
                            if rest1 is Entries {
                                assert(rest->files == seq![
                                    EntryV {
                                        path: seq![name@],
                                        kind: KindV::File {
                                            bytes: file_at(tree@, seq![name@])->0,
                                        },
                                    },
                                ] + rest1->files);
                                assert(pre + rest->files =~= out.deep_view() + rest1->files);
                            }
                        }
                    },
                    None => {
                        return Err(InstallError::MissingBinary { name: bytes_clone(name) });
                    },
                }
            },
        }
        i = i + 1;
    }
    proof {
        assert(out.deep_view() + Seq::<EntryV>::empty() =~= out.deep_view());
    }
    Ok(out)
}

/// The header roots among the first `i` entries: plain directories that a
/// link-free walk reaches and that hold the sentinel marker file.
pub open spec fn entry_roots_upto(t: Seq<EntryV>, marker: Seq<u8>, i: int) -> Seq<Seq<Seq<u8>>>
    decreases i,
{
    if i <= 0 {
        Seq::empty()
    } else if t[i - 1].kind is Dir && reachable(t, t[i - 1].path) && has_file_at(
        t,
        t[i - 1].path.push(marker),
    ) {
        entry_roots_upto(t, marker, i - 1).push(t[i - 1].path)
    } else {
        entry_roots_upto(t, marker, i - 1)
    }
}

/// All header roots of the build output in traversal order: the build
/// output's own top if it holds the marker, then every marked directory,
/// however deeply nested; directories behind a symlink are never found.
pub open spec fn marker_roots(t: Seq<EntryV>, marker: Seq<u8>) -> Seq<Seq<Seq<u8>>> {
    (if has_file_at(t, seq![marker]) {
        seq![Seq::<Seq<u8>>::empty()]
    } else {
        Seq::<Seq<Seq<u8>>>::empty()
    }) + entry_roots_upto(t, marker, t.len() as int)
}

/// Whether a walk that never enters symlinked directories reaches `path`.
pub fn is_reachable(tree: &FsTree, path: &Vec<Vec<u8>>) -> (r: bool)
    ensures
        r == reachable(tree@, path.deep_view()),
{
    let ghost p = path.deep_view();
    let mut i: usize = 0;
    while i < tree.entries.len()
        invariant
            0 <= i <= tree.entries.len(),
            p == path.deep_view(),
            forall|j: int|
                0 <= j < i && tree@[j].kind is LinkDir ==> !is_strict_prefix(
                    #[trigger] tree@[j].path,
                    p,
                ),
        decreases tree.entries.len() - i,
    {
        let e = &tree.entries[i];
        proof {
            assert(tree@[i as int] == tree.entries@[i as int].deep_view());
        }
        let is_link = match &e.kind {
            NodeKind::LinkDir => true,
            _ => false,
        };
        if is_link && strict_prefix(&e.path, path) {
            proof {
                assert(tree@[i as int].kind is LinkDir && is_strict_prefix(
                    tree@[i as int].path,
                    p,
                ));
            }
            return false;
        }
        i = i + 1;
    }
    true
}

/// Finds every header root of the build output, in traversal order.
pub fn find_roots(tree: &FsTree, marker: &Vec<u8>) -> (r: Vec<Vec<Vec<u8>>>)
    ensures
        r.deep_view() == marker_roots(tree@, marker@),
{
    let ghost m = marker@;
    let mut out: Vec<Vec<Vec<u8>>> = Vec::new();
    let top = single_path(marker);
    match find_file(tree, &top) {
        Some(_) => {
            let empty_path: Vec<Vec<u8>> = Vec::new();
            out.push(empty_path);
            proof {
                assert(out@[0].deep_view() =~= Seq::<Seq<u8>>::empty());
            }
        },
        None => {},
    }
    let ghost head = if has_file_at(tree@, seq![m]) {
        seq![Seq::<Seq<u8>>::empty()]
    } else {
        Seq::<Seq<Seq<u8>>>::empty()
    };
    proof {
        assert(out.deep_view() =~~= head + entry_roots_upto(tree@, m, 0));
    }
    let mut i: usize = 0;
    while i < tree.entries.len()
        invariant
            0 <= i <= tree.entries.len(),
            m == marker@,
            head == (if has_file_at(tree@, seq![m]) {
                seq![Seq::<Seq<u8>>::empty()]
            } else {
                Seq::<Seq<Seq<u8>>>::empty()
            }),
            out.deep_view() == head + entry_roots_upto(tree@, m, i as int),
        decreases tree.entries.len() - i,
    {
        let e = &tree.entries[i];
        proof {
            assert(tree@[i as int] == tree.entries@[i as int].deep_view());
        }
        let is_plain_dir = match &e.kind {
            NodeKind::Dir => true,
            _ => false,
        };
        let mut pushed = false;
        if is_plain_dir && is_reachable(tree, &e.path) {
            let marked = path_push(&e.path, marker);
            match find_file(tree, &marked) {
                Some(_) => {
                    out.push(path_clone(&e.path));
                    pushed = true;
                    proof {
                        assert(entry_roots_upto(tree@, m, i as int + 1) == entry_roots_upto(
                            tree@,
                            m,
                            i as int,
                        ).push(tree@[i as int].path));
                        assert(head + entry_roots_upto(tree@, m, i as int + 1) =~= (head
                            + entry_roots_upto(tree@, m, i as int)).push(tree@[i as int].path));
                    }
                },
                None => {},
            }
        }
        proof {
            if !pushed {
                assert(entry_roots_upto(tree@, m, i as int + 1) == entry_roots_upto(
                    tree@,
                    m,
                    i as int,
                ));
            }
        }
        i = i + 1;
    }
    out
}

/// The non-sentinel contents of one header root among the first `i`
/// entries, re-rooted at the root itself: everything strictly below the
/// root except sentinel marker entries, which are never copied into a
/// merged destination — neither the root's own nor a nested root's.
pub open spec fn root_contents_upto(
    t: Seq<EntryV>,
    marker: Seq<u8>,
    root: Seq<Seq<u8>>,
    i: int,
) -> Seq<EntryV>
    decreases i,
{
    if i <= 0 {
        Seq::empty()
    } else if is_strict_prefix(root, t[i - 1].path) && t[i - 1].path.last() != marker {
        root_contents_upto(t, marker, root, i - 1).push(
            EntryV { path: t[i - 1].path.skip(root.len() as int), kind: t[i - 1].kind },
        )
    } else {
        root_contents_upto(t, marker, root, i - 1)
    }
}

/// The contents of the first `k` roots, concatenated in root order: entries
/// that collide are copied again, so a later root wins at the destination.
pub open spec fn merged_upto(
    t: Seq<EntryV>,
    marker: Seq<u8>,
    roots: Seq<Seq<Seq<u8>>>,
    k: int,
) -> Seq<EntryV>
    decreases k,
{
    if k <= 0 {
        Seq::empty()
    } else {
        merged_upto(t, marker, roots, k - 1) + root_contents_upto(
            t,
            marker,
            roots[k - 1],
            t.len() as int,
        )
    }
}

/// Everything the header merge copies, in copy order.
pub open spec fn merged_entries(t: Seq<EntryV>, marker: Seq<u8>) -> Seq<EntryV> {
    merged_upto(t, marker, marker_roots(t, marker), marker_roots(t, marker).len() as int)
}

/// Collects the contents of every header root, in root order and entry
/// order, with every sentinel marker entry left out.
pub fn merge_roots(tree: &FsTree, marker: &Vec<u8>, roots: &Vec<Vec<Vec<u8>>>) -> (r: Vec<
    FsEntry,
>)
    ensures
        r.deep_view() == merged_upto(
            tree@,
            marker@,
            roots.deep_view(),
            roots.deep_view().len() as int,
        ),
{
    let ghost m = marker@;
    let ghost rts = roots.deep_view();
    let mut out: Vec<FsEntry> = Vec::new();
    let mut k: usize = 0;
    proof {
        assert(out.deep_view() =~= merged_upto(tree@, m, rts, 0));
    }
    while k < roots.len()
        invariant
            0 <= k <= roots.len(),
            m == marker@,
            rts == roots.deep_view(),
            rts.len() == roots@.len(),
            out.deep_view() == merged_upto(tree@, m, rts, k as int),
        decreases roots.len() - k,
    {
        let root = &roots[k];
        proof {
            assert(rts[k as int] == roots@[k as int].deep_view());
        }
        let ghost rv = rts[k as int];
        let empty_dest: Vec<Vec<u8>> = Vec::new();
        proof {
            assert(empty_dest.deep_view() =~= Seq::<Seq<u8>>::empty());
        }
        let mut i: usize = 0;
        while i < tree.entries.len()
            invariant
                0 <= i <= tree.entries.len(),
                m == marker@,
                rv == roots@[k as int].deep_view(),
                root.deep_view() == rv,
                root@.len() == rv.len(),
                marker@ == m,
                empty_dest.deep_view() == Seq::<Seq<u8>>::empty(),
                0 <= k < roots@.len(),
                out.deep_view() == merged_upto(tree@, m, rts, k as int) + root_contents_upto(
                    tree@,
                    m,
                    rv,
                    i as int,
                ),
            decreases tree.entries.len() - i,
        {
            let e = &tree.entries[i];
            proof {
                assert(tree@[i as int] == tree.entries@[i as int].deep_view());
            }
            let below = strict_prefix(root, &e.path);
            proof {
                if below {
                    assert(e.path@.len() == tree@[i as int].path.len());
                    assert(e.path@.len() >= 1);
                }
            }
            if below && !bytes_eq(&e.path[e.path.len() - 1], marker) {
                proof {
                    assert(e.path@[e.path@.len() - 1]@ == tree@[i as int].path.last());
                }
                let new_path = path_suffix_under(&empty_dest, &e.path, root.len());
                proof {
                    assert(root@.len() == rv.len());
                    assert(e.path.deep_view() == tree@[i as int].path);
                    assert(new_path.deep_view() == Seq::<Seq<u8>>::empty()
                        + e.path.deep_view().subrange(
                        root@.len() as int,
                        e.path.deep_view().len() as int,
                    ));
                    assert(new_path.deep_view() =~= tree@[i as int].path.skip(rv.len() as int));
                }
                let new_kind = match &e.kind {
                    NodeKind::File { bytes } => NodeKind::File { bytes: bytes_clone(bytes) },
                    NodeKind::Dir => NodeKind::Dir,
                    NodeKind::LinkDir => NodeKind::LinkDir,
                };
                out.push(FsEntry { path: new_path, kind: new_kind });
                proof {
                    assert(root_contents_upto(tree@, m, rv, i as int + 1) == root_contents_upto(
                        tree@,
                        m,
                        rv,
                        i as int,
                    ).push(
                        EntryV {
                            path: tree@[i as int].path.skip(rv.len() as int),
                            kind: tree@[i as int].kind,
                        },
                    ));
                    assert(out.deep_view() =~= merged_upto(tree@, m, rts, k as int)
                        + root_contents_upto(tree@, m, rv, i as int + 1));
                }
            } else {
                proof {
                    assert(root_contents_upto(tree@, m, rv, i as int + 1) == root_contents_upto(
                        tree@,
                        m,
                        rv,
                        i as int,
                    ));
                }
            }
            i = i + 1;
        }
        proof {
            assert(merged_upto(tree@, m, rts, k as int + 1) == merged_upto(tree@, m, rts, k as int)
                + root_contents_upto(tree@, m, rv, tree@.len() as int));
        }
        k = k + 1;
    }
    out
}

/// The fixed build-integration config template. Three tokens are replaced:
/// the package name, the semicolon-joined library list, and the
/// `TRUE`/`FALSE` flag saying whether any header root was found.
pub open spec fn config_template() -> Seq<u8> {
    "set(@PACKAGE_NAME@_LIBRARIES \"@PACKAGE_LIBRARY_LIST@\")\nset(@PACKAGE_NAME@_HAVE_INCLUDE_FILES @HAVE_INCLUDE_FILES@)\n".spec_bytes()
}

/// The semicolon byte that joins the library list.
pub open spec fn semicolon() -> u8 {
    59u8
}

/// The config text: the template with each token literally replaced, in the
/// fixed order, by the package name, the joined library list, and the
/// header flag.
pub open spec fn config_text_sp(pkg: Seq<u8>, libs: Seq<Seq<u8>>, have: bool) -> Seq<u8> {
    replace_sp(
        replace_sp(
            replace_sp(config_template(), "@PACKAGE_NAME@".spec_bytes(), pkg),
            "@PACKAGE_LIBRARY_LIST@".spec_bytes(),
            joined(libs, semicolon()),
        ),
        "@HAVE_INCLUDE_FILES@".spec_bytes(),
        (if have {
            "TRUE"
        } else {
            "FALSE"
        }).spec_bytes(),
    )
}

/// Renders the config text for the package.
pub fn generate_config(pkg: &Vec<u8>, libraries: &Vec<Vec<u8>>, have: bool) -> (r: Vec<u8>)
    ensures
        r@ == config_text_sp(pkg@, libraries.deep_view(), have),
{
    let template =
        "set(@PACKAGE_NAME@_LIBRARIES \"@PACKAGE_LIBRARY_LIST@\")\nset(@PACKAGE_NAME@_HAVE_INCLUDE_FILES @HAVE_INCLUDE_FILES@)\n".as_bytes_vec();
    let tok_name = "@PACKAGE_NAME@".as_bytes_vec();
    let tok_list = "@PACKAGE_LIBRARY_LIST@".as_bytes_vec();
    let tok_have = "@HAVE_INCLUDE_FILES@".as_bytes_vec();
    let list = join_bytes(libraries, 59u8);
    let flag = (if have {
        "TRUE"
    } else {
        "FALSE"
    }).as_bytes_vec();
    let step1 = replace_all(&template, &tok_name, pkg);
    let step2 = replace_all(&step1, &tok_list, &list);
    replace_all(&step2, &tok_have, &flag)
}

/// The name of the config file: `<package>Config.cmake`.
pub fn config_file_name(pkg: &Vec<u8>) -> (r: Vec<u8>)
    ensures
        r@ == pkg@ + "Config.cmake".spec_bytes(),
{
    let suffix = "Config.cmake".as_bytes_vec();
    crate::text::bytes_concat(pkg, &suffix)
}

/// Everything the artifact installer decides, over the model of the
/// build-output directory. The shell wipes the owned destination subtrees
/// and then materializes exactly these entries.
#[derive(Debug)]
pub struct ArtifactPlan {
    /// File entries to place under `lib/<package>`: the declared binaries in
    /// declaration order, then the discovered libraries in convention order.
    pub lib_files: Vec<FsEntry>,
    /// The discovered library file names, in convention order.
    pub libraries: Vec<Vec<u8>>,
    /// Whether any header root was found; only then is the header
    /// destination wiped and repopulated.
    pub have_headers: bool,
    /// Entries to place under the header destination, in copy order; a later
    /// entry overwrites an earlier one at the same path.
    pub merged: Vec<FsEntry>,
    /// The name of the config file under `share/<package>/cmake`.
    pub config_name: Vec<u8>,
    /// The text of the config file.
    pub config_text: Vec<u8>,
}

/// Specification-level counterpart of [`ArtifactPlan`].
pub struct ArtifactPlanV {
    pub lib_files: Seq<EntryV>,
    pub libraries: Seq<Seq<u8>>,
    pub have_headers: bool,
    pub merged: Seq<EntryV>,
    pub config_name: Seq<u8>,
    pub config_text: Seq<u8>,
}

impl View for ArtifactPlan {
    type V = ArtifactPlanV;

    open spec fn view(&self) -> ArtifactPlanV {
        ArtifactPlanV {
            lib_files: self.lib_files.deep_view(),
            libraries: self.libraries.deep_view(),
            have_headers: self.have_headers,
            merged: self.merged.deep_view(),
            config_name: self.config_name@,
            config_text: self.config_text@,
        }
    }
}

/// The artifact installer's whole decision: given the model of the build
/// output (`buildBase/profile`), the package name and the declared
/// binaries, it computes every entry placed under `lib/<package>`, the
/// merged header entries, and the generated config, or fails on the first
/// unnamed or missing binary. A missing library variant is silently
/// skipped; the library list keeps the fixed convention order.
pub fn install_binaries(tree: &FsTree, package_name: &Vec<u8>, binaries: &Vec<BinaryProduct>) -> (r:
    Result<ArtifactPlan, InstallError>)
    ensures
        r is Ok <==> bins_plan_from(tree@, binaries.deep_view(), 0) is Entries,
        r is Err ==> (match bins_plan_from(tree@, binaries.deep_view(), 0) {
            BinsOutcome::NoName => r->Err_0 is BinaryWithoutName,
            BinsOutcome::Missing { name } => r->Err_0 matches InstallError::MissingBinary {
                name: n,
            } && n@ == name,
            BinsOutcome::Entries { .. } => false,
        }),
        r is Ok ==> r->Ok_0@.lib_files == bins_plan_from(tree@, binaries.deep_view(), 0)->files
            + lib_files_upto(
            tree@,
            candidate_names(package_name@),
            candidate_names(package_name@).len() as int,
        ),
        r is Ok ==> r->Ok_0@.libraries == discovered_libs(tree@, package_name@),
        r is Ok ==> r->Ok_0@.have_headers == (marker_roots(tree@, marker_name_sp()).len() > 0),
        r is Ok ==> r->Ok_0@.merged == merged_entries(tree@, marker_name_sp()),
        r is Ok ==> r->Ok_0@.config_name == package_name@ + "Config.cmake".spec_bytes(),
        r is Ok ==> r->Ok_0@.config_text == config_text_sp(
            package_name@,
            discovered_libs(tree@, package_name@),
            marker_roots(tree@, marker_name_sp()).len() > 0,
        ),
{
    let mut lib_files = match collect_binaries(tree, binaries) {
        Ok(files) => files,
        Err(e) => {
            return Err(e);
        },
    };
    let ghost bin_part = lib_files.deep_view();
    let (libraries, mut lib_entries) = discover_libraries(tree, package_name);
    let ghost lib_part = lib_entries.deep_view();
    lib_files.append(&mut lib_entries);
    proof {
        assert(lib_files.deep_view() =~= bin_part + lib_part);
    }
    let marker = marker_name();
    let roots = find_roots(tree, &marker);
    let have_headers = roots.len() > 0;
    let merged = merge_roots(tree, &marker, &roots);
    let config_text = generate_config(package_name, &libraries, have_headers);
    let config_name = config_file_name(package_name);
    Ok(
        ArtifactPlan {
            lib_files,
            libraries,
            have_headers,
            merged,
            config_name,
            config_text,
        },
    )
}

/// Only names present as files at the top of the build output enter the
/// discovered-library list.
pub proof fn lemma_libs_upto_present(t: Seq<EntryV>, cands: Seq<Seq<u8>>, i: int, f: Seq<u8>)
    requires
        !has_file_at(t, seq![f]),
    ensures
        forall|j: int| 0 <= j < libs_upto(t, cands, i).len() ==> libs_upto(t, cands, i)[j] != f,
    decreases i,
{
    if i > 0 {
        lemma_libs_upto_present(t, cands, i - 1, f);
        if has_file_at(t, seq![cands[i - 1]]) {
            assert forall|j: int| 0 <= j < libs_upto(t, cands, i).len() implies libs_upto(
                t,
                cands,
                i,
            )[j] != f by {
                if j < libs_upto(t, cands, i - 1).len() {
                    assert(libs_upto(t, cands, i)[j] == libs_upto(t, cands, i - 1)[j]);
                } else {
                    assert(libs_upto(t, cands, i)[j] == cands[i - 1]);
                }
            }
        }
    }
}

/// A library file name absent from the build output is absent from the
/// discovered list, so a removed library vanishes from the regenerated
/// config's library list.
pub proof fn lemma_removed_lib_not_listed(t: Seq<EntryV>, pkg: Seq<u8>, f: Seq<u8>)
    requires
        !has_file_at(t, seq![f]),
    ensures
        forall|j: int|
            0 <= j < discovered_libs(t, pkg).len() ==> discovered_libs(t, pkg)[j] != f,
{
    lemma_libs_upto_present(t, candidate_names(pkg), candidate_names(pkg).len() as int, f);
}

/// Every discovered library file entry sits one segment deep, at a name
/// that is a file of the build output.
pub proof fn lemma_lib_files_paths(t: Seq<EntryV>, cands: Seq<Seq<u8>>, i: int)
    ensures
        forall|j: int|
            0 <= j < lib_files_upto(t, cands, i).len() ==> (#[trigger] lib_files_upto(
                t,
                cands,
                i,
            )[j].path.len() == 1 && has_file_at(t, lib_files_upto(t, cands, i)[j].path)),
    decreases i,
{
    if i > 0 {
        lemma_lib_files_paths(t, cands, i - 1);
        if has_file_at(t, seq![cands[i - 1]]) {
            assert forall|j: int| 0 <= j < lib_files_upto(t, cands, i).len() implies (
            #[trigger] lib_files_upto(t, cands, i)[j].path.len() == 1 && has_file_at(
                t,
                lib_files_upto(t, cands, i)[j].path,
            )) by {
                if j < lib_files_upto(t, cands, i - 1).len() {
                    assert(lib_files_upto(t, cands, i)[j] == lib_files_upto(t, cands, i - 1)[j]);
                } else {
                    assert(lib_files_upto(t, cands, i)[j].path == seq![cands[i - 1]]);
                }
            }
        }
    }
}

/// Every binary file entry sits one segment deep, at a name that is a file
/// of the build output.
pub proof fn lemma_bins_files_paths(t: Seq<EntryV>, bins: Seq<Option<Seq<u8>>>, i: int)
    requires
        0 <= i,
        bins_plan_from(t, bins, i) is Entries,
    ensures
        forall|j: int|
            0 <= j < bins_plan_from(t, bins, i)->files.len() ==> (#[trigger] bins_plan_from(
                t,
                bins,
                i,
            )->files[j].path.len() == 1 && has_file_at(t, bins_plan_from(t, bins, i)->files[j].path)),
    decreases bins.len() - i,
{
    if i < bins.len() {
        lemma_bins_files_paths(t, bins, i + 1);
        let name = bins[i]->0;
        let head = EntryV {
            path: seq![name],
            kind: KindV::File { bytes: file_at(t, seq![name])->0 },
        };
        let files = bins_plan_from(t, bins, i)->files;
        let rest = bins_plan_from(t, bins, i + 1)->files;
        assert(files == seq![head] + rest);
        assert forall|j: int| 0 <= j < files.len() implies (#[trigger] files[j].path.len() == 1
            && has_file_at(t, files[j].path)) by {
            if j == 0 {
                assert(files[j] == head);
            } else {
                assert(files[j] == rest[j - 1]);
            }
        }
    }
}

} // verus!
