//! A model of the install space as a map from file paths to contents, and
//! the laws of the artifact installer over it: wiping the owned subtrees
//! and re-materializing the plan is idempotent, and a re-run keeps under
//! the package's `lib` destination exactly what the new plan carries.

use vstd::prelude::*;
use crate::artifact::ArtifactPlanV;
use crate::fs_tree::{EntryV, KindV};
use vstd::string::StringSliceAdditionalSpecFns;

verus! {

/// A path in the install space: segments from the install base.
pub type PathV = Seq<Seq<u8>>;

/// The files of an install space: each file's path and contents.
pub type SpaceV = Map<PathV, Seq<u8>>;

/// `p` is an ancestor of `q` or `q` itself.
pub open spec fn is_prefix_of(p: PathV, q: PathV) -> bool {
    p.len() <= q.len() && q.subrange(0, p.len() as int) == p
}

/// The `lib/<package>` destination.
pub open spec fn lib_dest(pkg: Seq<u8>) -> PathV {
    seq!["lib".spec_bytes(), pkg]
}

/// The header destination of the package.
pub open spec fn header_dest(pkg: Seq<u8>) -> PathV {
    seq!["include".spec_bytes(), pkg]
}

/// The `share/<package>/cmake` destination of the generated config.
pub open spec fn cmake_dest(pkg: Seq<u8>) -> PathV {
    seq!["share".spec_bytes(), pkg, "cmake".spec_bytes()]
}

/// The space without every file at or below `prefix`.
pub open spec fn wipe(s: SpaceV, prefix: PathV) -> SpaceV {
    Map::new(|k: PathV| s.dom().contains(k) && !is_prefix_of(prefix, k), |k: PathV| s[k])
}

/// The space after writing the files in order: a later file overwrites an
/// earlier one at the same path.
pub open spec fn write_all(s: SpaceV, files: Seq<(PathV, Seq<u8>)>, i: int) -> SpaceV
    decreases files.len() - i,
{
    if i < 0 || i >= files.len() {
        s
    } else {
        write_all(s.insert(files[i].0, files[i].1), files, i + 1)
    }
}

/// The file entries among the first `i`, placed below `dest`.
pub open spec fn files_under(dest: PathV, es: Seq<EntryV>, i: int) -> Seq<(PathV, Seq<u8>)>
    decreases i,
{
    if i <= 0 {
        Seq::empty()
    } else if es[i - 1].kind is File {
        files_under(dest, es, i - 1).push((dest + es[i - 1].path, es[i - 1].kind->bytes))
    } else {
        files_under(dest, es, i - 1)
    }
}

/// Every file the plan writes, in write order: the `lib` files, the merged
/// header entries, then the generated config.
pub open spec fn plan_files(pkg: Seq<u8>, plan: ArtifactPlanV) -> Seq<(PathV, Seq<u8>)> {
    files_under(lib_dest(pkg), plan.lib_files, plan.lib_files.len() as int) + files_under(
        header_dest(pkg),
        plan.merged,
        plan.merged.len() as int,
    ) + seq![(cmake_dest(pkg).push(plan.config_name), plan.config_text)]
}

/// The three owned subtrees wiped: `lib/<pkg>` and `share/<pkg>/cmake`
/// always, the header destination only when a header root was found.
pub open spec fn wipe_owned(s: SpaceV, pkg: Seq<u8>, plan: ArtifactPlanV) -> SpaceV {
    let s1 = wipe(s, lib_dest(pkg));
    let s2 = wipe(s1, cmake_dest(pkg));
    if plan.have_headers {
        wipe(s2, header_dest(pkg))
    } else {
        s2
    }
}

/// A path the installer's wipes remove.
pub open spec fn wiped_by(pkg: Seq<u8>, plan: ArtifactPlanV, k: PathV) -> bool {
    is_prefix_of(lib_dest(pkg), k) || is_prefix_of(cmake_dest(pkg), k) || (plan.have_headers
        && is_prefix_of(header_dest(pkg), k))
}

/// What one run of the artifact installer leaves of the install space:
/// the owned subtrees wiped, then every file of the plan written in order.
pub open spec fn apply_artifact(s: SpaceV, pkg: Seq<u8>, plan: ArtifactPlanV) -> SpaceV {
    write_all(wipe_owned(s, pkg, plan), plan_files(pkg, plan), 0)
}

/// A plan that never writes header entries without owning the header
/// destination; every plan the installer computes is such.
pub open spec fn plan_wf(plan: ArtifactPlanV) -> bool {
    plan.merged.len() > 0 ==> plan.have_headers
}

/// Every plan the artifact installer computes is well formed: it found
/// header entries only below roots it discovered, so it owns the header
/// destination whenever it writes there.
pub proof fn lemma_installed_plan_wf(t: Seq<EntryV>, plan: ArtifactPlanV)
    requires
        plan.merged == crate::artifact::merged_entries(t, crate::artifact::marker_name_sp()),
        plan.have_headers == (crate::artifact::marker_roots(
            t,
            crate::artifact::marker_name_sp(),
        ).len() > 0),
    ensures
        plan_wf(plan),
{
    let m = crate::artifact::marker_name_sp();
    if !plan.have_headers {
        assert(crate::artifact::marker_roots(t, m).len() == 0);
        assert(crate::artifact::merged_upto(t, m, crate::artifact::marker_roots(t, m), 0)
            =~= Seq::<EntryV>::empty());
    }
}

/// Writing files touches exactly their paths: any other path keeps its
/// presence and contents.
pub proof fn lemma_write_all_frame(s: SpaceV, files: Seq<(PathV, Seq<u8>)>, i: int, k: PathV)
    requires
        forall|j: int| i <= j < files.len() ==> (#[trigger] files[j].0) != k,
    ensures
        write_all(s, files, i).dom().contains(k) == s.dom().contains(k),
        s.dom().contains(k) ==> write_all(s, files, i)[k] == s[k],
    decreases files.len() - i,
{
    if 0 <= i < files.len() {
        lemma_write_all_frame(s.insert(files[i].0, files[i].1), files, i + 1, k);
    }
}

/// A written path is present afterwards.
pub proof fn lemma_write_all_covers(s: SpaceV, files: Seq<(PathV, Seq<u8>)>, i: int, j: int)
    requires
        0 <= i <= j < files.len(),
    ensures
        write_all(s, files, i).dom().contains(files[j].0),
    decreases files.len() - i,
{
    if i < j {
        lemma_write_all_covers(s.insert(files[i].0, files[i].1), files, i + 1, j);
    } else {
        if i + 1 <= files.len() {
            lemma_write_all_frame_or_present(s.insert(files[i].0, files[i].1), files, i + 1, files[j].0);
        }
    }
}

/// A path is present after the writes iff it was present before or is one
/// of the written paths.
pub proof fn lemma_write_all_frame_or_present(
    s: SpaceV,
    files: Seq<(PathV, Seq<u8>)>,
    i: int,
    k: PathV,
)
    requires
        0 <= i,
    ensures
        write_all(s, files, i).dom().contains(k) <==> (s.dom().contains(k) || exists|j: int|
            i <= j < files.len() && (#[trigger] files[j].0) == k),
    decreases files.len() - i,
{
    if 0 <= i < files.len() {
        let s2 = s.insert(files[i].0, files[i].1);
        lemma_write_all_frame_or_present(s2, files, i + 1, k);
        if files[i].0 == k {
            assert(i <= i < files.len() && files[i].0 == k);
        }
        if exists|j: int| i <= j < files.len() && (#[trigger] files[j].0) == k {
            let j = choose|j: int| i <= j < files.len() && (#[trigger] files[j].0) == k;
            if j == i {
                assert(s2.dom().contains(k));
            } else {
                assert(i + 1 <= j < files.len() && files[j].0 == k);
            }
        }
    }
}

/// Equal maps stay equal under the same writes.
pub proof fn lemma_write_all_congruent(
    s1: SpaceV,
    s2: SpaceV,
    files: Seq<(PathV, Seq<u8>)>,
    i: int,
)
    requires
        s1 == s2,
    ensures
        write_all(s1, files, i) == write_all(s2, files, i),
{
}

/// Every file of a well-formed plan lies below a wiped destination.
pub proof fn lemma_plan_files_wiped(pkg: Seq<u8>, plan: ArtifactPlanV, j: int)
    requires
        plan_wf(plan),
        0 <= j < plan_files(pkg, plan).len(),
    ensures
        wiped_by(pkg, plan, plan_files(pkg, plan)[j].0),
{
    let libs = files_under(lib_dest(pkg), plan.lib_files, plan.lib_files.len() as int);
    let hdrs = files_under(header_dest(pkg), plan.merged, plan.merged.len() as int);
    if j < libs.len() {
        lemma_files_under_prefix(lib_dest(pkg), plan.lib_files, plan.lib_files.len() as int, j);
    } else if j < libs.len() + hdrs.len() {
        lemma_files_under_prefix(
            header_dest(pkg),
            plan.merged,
            plan.merged.len() as int,
            j - libs.len(),
        );
        lemma_files_under_some(header_dest(pkg), plan.merged, plan.merged.len() as int);
        assert(plan.merged.len() > 0);
    } else {
        assert(plan_files(pkg, plan)[j].0 == cmake_dest(pkg).push(plan.config_name));
        assert(cmake_dest(pkg).push(plan.config_name).subrange(0, cmake_dest(pkg).len() as int)
            =~= cmake_dest(pkg));
    }
}

/// Each file placed below `dest` has `dest` as a prefix of its path.
pub proof fn lemma_files_under_prefix(dest: PathV, es: Seq<EntryV>, i: int, j: int)
    requires
        0 <= j < files_under(dest, es, i).len(),
    ensures
        is_prefix_of(dest, files_under(dest, es, i)[j].0),
    decreases i,
{
    if i > 0 {
        if es[i - 1].kind is File && j == files_under(dest, es, i).len() - 1 {
            assert((dest + es[i - 1].path).subrange(0, dest.len() as int) =~= dest);
        } else {
            lemma_files_under_prefix(dest, es, i - 1, j);
        }
    }
}

/// Files are only placed below `dest` when entries were looked at.
pub proof fn lemma_files_under_some(dest: PathV, es: Seq<EntryV>, i: int)
    requires
        files_under(dest, es, i).len() > 0,
    ensures
        i > 0,
{
}

/// Each file placed below `dest` came from a file entry: its path is
/// `dest` followed by that entry's path.
pub proof fn lemma_files_under_src(dest: PathV, es: Seq<EntryV>, i: int, j: int)
    requires
        0 <= j < files_under(dest, es, i).len(),
    ensures
        exists|m: int|
            0 <= m < i && (#[trigger] es[m].kind) is File && files_under(dest, es, i)[j].0 == dest
                + es[m].path,
    decreases i,
{
    if i > 0 {
        if es[i - 1].kind is File && j == files_under(dest, es, i).len() - 1 {
            assert(es[i - 1].kind is File && files_under(dest, es, i)[j].0 == dest + es[
                i - 1
            ].path);
        } else {
            lemma_files_under_src(dest, es, i - 1, j);
        }
    }
}

/// The first segments of the lib and header destinations differ.
pub proof fn lemma_dest_roots_distinct()
    ensures
        "lib".spec_bytes() != "include".spec_bytes(),
{
    reveal_strlit("lib");
    reveal_strlit("include");
    broadcast use vstd::string::is_ascii_spec_bytes;

    assert(vstd::string::is_ascii("lib"));
    assert(vstd::string::is_ascii("include"));
    assert("lib".spec_bytes().len() == 3);
    assert("include".spec_bytes().len() == 7);
}

/// A library or binary file name that the new build output no longer holds
/// is gone from the package's `lib` destination after a re-run, whatever
/// stood there before; [`crate::artifact::lemma_removed_lib_not_listed`]
/// removes it from the regenerated config's library list as well.
pub proof fn lemma_removed_library_gone(
    s: SpaceV,
    t: Seq<EntryV>,
    bins: Seq<Option<Seq<u8>>>,
    pkg: Seq<u8>,
    plan: ArtifactPlanV,
    f: Seq<u8>,
)
    requires
        !crate::fs_tree::has_file_at(t, seq![f]),
        crate::artifact::bins_plan_from(t, bins, 0) is Entries,
        plan.lib_files == crate::artifact::bins_plan_from(t, bins, 0)->files
            + crate::artifact::lib_files_upto(
            t,
            crate::artifact::candidate_names(pkg),
            crate::artifact::candidate_names(pkg).len() as int,
        ),
    ensures
        !apply_artifact(s, pkg, plan).dom().contains(lib_dest(pkg).push(f)),
{
    let k = lib_dest(pkg).push(f);
    let files = plan_files(pkg, plan);
    let libs = files_under(lib_dest(pkg), plan.lib_files, plan.lib_files.len() as int);
    let hdrs = files_under(header_dest(pkg), plan.merged, plan.merged.len() as int);
    let bin_part = crate::artifact::bins_plan_from(t, bins, 0)->files;
    let lib_part = crate::artifact::lib_files_upto(
        t,
        crate::artifact::candidate_names(pkg),
        crate::artifact::candidate_names(pkg).len() as int,
    );
    crate::artifact::lemma_bins_files_paths(t, bins, 0);
    crate::artifact::lemma_lib_files_paths(
        t,
        crate::artifact::candidate_names(pkg),
        crate::artifact::candidate_names(pkg).len() as int,
    );
    lemma_dest_roots_distinct();
    assert forall|j: int| 0 <= j < files.len() implies (#[trigger] files[j].0) != k by {
        if j < libs.len() {
            lemma_files_under_src(lib_dest(pkg), plan.lib_files, plan.lib_files.len() as int, j);
            let m = choose|m: int|
                0 <= m < plan.lib_files.len() && (#[trigger] plan.lib_files[m].kind) is File
                    && libs[j].0 == lib_dest(pkg) + plan.lib_files[m].path;
            assert(plan.lib_files[m].path.len() == 1 && crate::fs_tree::has_file_at(
                t,
                plan.lib_files[m].path,
            )) by {
                if m < bin_part.len() {
                    assert(plan.lib_files[m] == bin_part[m]);
                } else {
                    assert(plan.lib_files[m] == lib_part[m - bin_part.len()]);
                }
            }
            if libs[j].0 == k {
                assert((lib_dest(pkg) + plan.lib_files[m].path).len() == k.len());
                assert(plan.lib_files[m].path[0] == k[lib_dest(pkg).len() as int]);
                assert(plan.lib_files[m].path =~= seq![f]);
            }
        } else if j < libs.len() + hdrs.len() {
            lemma_files_under_prefix(
                header_dest(pkg),
                plan.merged,
                plan.merged.len() as int,
                j - libs.len(),
            );
            if files[j].0 == k {
                assert(files[j].0.subrange(0, header_dest(pkg).len() as int) == header_dest(pkg));
                assert(k[0] == "lib".spec_bytes());
                assert(files[j].0[0] == "include".spec_bytes());
            }
        } else {
            assert(files[j].0 == cmake_dest(pkg).push(plan.config_name));
            assert(files[j].0.len() == 4 && k.len() == 3);
        }
    }
    lemma_write_all_frame(wipe_owned(s, pkg, plan), files, 0, k);
    assert(is_prefix_of(lib_dest(pkg), k)) by {
        assert(k.subrange(0, lib_dest(pkg).len() as int) =~= lib_dest(pkg));
    }
}

/// Idempotence: running the artifact installer a second time on the same
/// plan leaves the install space exactly as the first run left it.
pub proof fn lemma_artifact_install_idempotent(s: SpaceV, pkg: Seq<u8>, plan: ArtifactPlanV)
    requires
        plan_wf(plan),
    ensures
        apply_artifact(apply_artifact(s, pkg, plan), pkg, plan) == apply_artifact(s, pkg, plan),
{
    let once = apply_artifact(s, pkg, plan);
    let files = plan_files(pkg, plan);
    assert forall|k: PathV| wipe_owned(once, pkg, plan).dom().contains(k)
        <==> wipe_owned(s, pkg, plan).dom().contains(k) by {
        if !wiped_by(pkg, plan, k) {
            lemma_write_all_frame_or_present(wipe_owned(s, pkg, plan), files, 0, k);
            if exists|j: int| 0 <= j < files.len() && (#[trigger] files[j].0) == k {
                let j = choose|j: int| 0 <= j < files.len() && (#[trigger] files[j].0) == k;
                lemma_plan_files_wiped(pkg, plan, j);
            }
        }
    }
    assert forall|k: PathV| wipe_owned(once, pkg, plan).dom().contains(k)
        implies wipe_owned(once, pkg, plan)[k] == wipe_owned(s, pkg, plan)[k] by {
        assert(!wiped_by(pkg, plan, k));
        assert forall|j: int| 0 <= j < files.len() implies (#[trigger] files[j].0) != k by {
            lemma_plan_files_wiped(pkg, plan, j);
        }
        lemma_write_all_frame(wipe_owned(s, pkg, plan), files, 0, k);
    }
    assert(wipe_owned(once, pkg, plan) =~= wipe_owned(s, pkg, plan));
    lemma_write_all_congruent(
        wipe_owned(once, pkg, plan),
        wipe_owned(s, pkg, plan),
        files,
        0,
    );
}

/// A re-run removes what the new plan no longer carries: after a run, a
/// path below the package's `lib` destination holds a file only if it is
/// one of the plan's written paths. In particular a library taken out of
/// the build output is gone from the destination, whatever stood there
/// before.
pub proof fn lemma_rerun_drops_removed(s: SpaceV, pkg: Seq<u8>, plan: ArtifactPlanV, k: PathV)
    requires
        is_prefix_of(lib_dest(pkg), k),
        forall|j: int|
            0 <= j < plan_files(pkg, plan).len() ==> (#[trigger] plan_files(pkg, plan)[j].0) != k,
    ensures
        !apply_artifact(s, pkg, plan).dom().contains(k),
{
    lemma_write_all_frame(wipe_owned(s, pkg, plan), plan_files(pkg, plan), 0, k);
}

/// What the plan writes is there after the run.
pub proof fn lemma_apply_covers(s: SpaceV, pkg: Seq<u8>, plan: ArtifactPlanV, j: int)
    requires
        0 <= j < plan_files(pkg, plan).len(),
    ensures
        apply_artifact(s, pkg, plan).dom().contains(plan_files(pkg, plan)[j].0),
{
    lemma_write_all_covers(wipe_owned(s, pkg, plan), plan_files(pkg, plan), 0, j);
}

} // verus!
