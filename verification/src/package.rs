//! The package registrar and the source-mirror installer: the marker path
//! in the resource index, the tri-state build-script field of the package
//! descriptor, and the ordered copies that mirror the package's sources
//! under `share/<package>/rust`.

use vstd::prelude::*;
use crate::InstallError;
use crate::fs_tree::path_push;
use vstd::string::StringSliceAdditionalSpecFns;
use vstd::string::StrSliceExecFns;

verus! {

broadcast use crate::bytes_deep_is_view, crate::vec_deep_view_len, crate::vec_deep_view_index,
    crate::vec_deep_is_seq_deep, crate::seq_deep_push;

/// The build-script field of the package descriptor, as the manifest gives
/// it: absent, a boolean, a path, or some other value.
pub enum BuildField {
    Absent,
    Flag(bool),
    Text(Vec<u8>),
    Other,
}

/// The resolved build-script choice: nothing explicit, explicitly disabled,
/// or an explicit path to copy.
#[derive(Debug, PartialEq, Eq)]
pub enum BuildScript {
    Default,
    Disabled,
    Explicit(Vec<u8>),
}

/// Resolves the tri-state build-script field: absent means default,
/// `false` means disabled, a path is explicit; any other value, `true`
/// included, is a configuration error.
pub fn resolve_build_script(build: &BuildField) -> (r: Result<BuildScript, InstallError>)
    ensures
        r is Ok <==> (build is Absent || build == BuildField::Flag(false) || build is Text),
        build is Absent ==> r == Result::<BuildScript, InstallError>::Ok(BuildScript::Default),
        build == BuildField::Flag(false) ==> r == Result::<BuildScript, InstallError>::Ok(
            BuildScript::Disabled,
        ),
        build matches BuildField::Text(p) ==> (r matches Ok(s) && s matches BuildScript::Explicit(
            q,
        ) && q@ == p@),
        r is Err ==> r->Err_0 is InvalidBuildField,
{
    match build {
        BuildField::Absent => Ok(BuildScript::Default),
        BuildField::Flag(false) => Ok(BuildScript::Disabled),
        BuildField::Text(p) => Ok(BuildScript::Explicit(crate::fs_tree::bytes_clone(p))),
        BuildField::Flag(true) => Err(InstallError::InvalidBuildField),
        BuildField::Other => Err(InstallError::InvalidBuildField),
    }
}

/// Where the package's registration marker goes: the resource-index
/// directory for `marker_dir`, and the empty file named after the package.
pub struct MarkerPlan {
    pub dir: Vec<Vec<u8>>,
    pub file: Vec<Vec<u8>>,
}

/// The resource-index directory path for `marker_dir`, from the install
/// base.
pub open spec fn marker_dir_sp(marker_dir: Seq<u8>) -> Seq<Seq<u8>> {
    seq![
        "share".spec_bytes(),
        "ament_index".spec_bytes(),
        "resource_index".spec_bytes(),
        marker_dir,
    ]
}

/// Registers the package: the marker directory to ensure, and the empty
/// marker file named after the package to create (or truncate) in it.
pub fn create_package_marker(marker_dir: &Vec<u8>, package_name: &Vec<u8>) -> (r: MarkerPlan)
    ensures
        r.dir.deep_view() == marker_dir_sp(marker_dir@),
        r.file.deep_view() == marker_dir_sp(marker_dir@).push(package_name@),
{
    let mut dir: Vec<Vec<u8>> = Vec::new();
    dir.push("share".as_bytes_vec());
    dir.push("ament_index".as_bytes_vec());
    dir.push("resource_index".as_bytes_vec());
    dir.push(crate::fs_tree::bytes_clone(marker_dir));
    proof {
        assert(dir.deep_view() =~= marker_dir_sp(marker_dir@));
    }
    let file = path_push(&dir, package_name);
    MarkerPlan { dir, file }
}

/// One copy the shell performs: an absolute source path, and a destination
/// directory relative to the install base.
#[derive(Debug, PartialEq, Eq)]
pub struct CopyOp {
    pub src: Vec<Vec<u8>>,
    pub dest: Vec<Vec<u8>>,
}

/// Specification-level counterpart of [`CopyOp`].
#[verifier::ext_equal]
pub struct CopyOpV {
    pub src: Seq<Seq<u8>>,
    pub dest: Seq<Seq<u8>>,
}

impl DeepView for CopyOp {
    type V = CopyOpV;

    open spec fn deep_view(&self) -> CopyOpV {
        CopyOpV { src: self.src.deep_view(), dest: self.dest.deep_view() }
    }
}

/// The last index before `i` where a dot stands at position one or later,
/// or a negative number if there is none.
pub open spec fn last_dot(name: Seq<u8>, i: int) -> int
    decreases i,
{
    if i <= 1 {
        -1
    } else if name[i - 1] == 46u8 {
        i - 1
    } else {
        last_dot(name, i - 1)
    }
}

/// The file name with its extension replaced by `ext`: everything after
/// the last dot (one that does not begin the name) goes; a name without
/// such a dot gets the extension appended.
pub open spec fn with_ext_sp(name: Seq<u8>, ext: Seq<u8>) -> Seq<u8> {
    let d = last_dot(name, name.len() as int);
    if d >= 1 {
        name.subrange(0, d) + seq![46u8] + ext
    } else {
        name + seq![46u8] + ext
    }
}

/// Replaces the extension of a file name, as [`with_ext_sp`] says.
pub fn with_extension(name: &Vec<u8>, ext: &Vec<u8>) -> (r: Vec<u8>)
    ensures
        r@ == with_ext_sp(name@, ext@),
{
    let mut i: usize = name.len();
    let mut stem_end: usize = name.len();
    let mut found = false;
    while i > 1
        invariant
            0 <= i <= name.len(),
            !found ==> last_dot(name@, name@.len() as int) == last_dot(name@, i as int),
            found ==> (1 <= stem_end < name@.len() && last_dot(name@, name@.len() as int)
                == stem_end),
        decreases i,
    {
        if name[i - 1] == 46u8 && !found {
            stem_end = i - 1;
            found = true;
        }
        proof {
            if !found {
                assert(last_dot(name@, i as int) == last_dot(name@, i - 1));
            }
        }
        i = i - 1;
    }
    let mut out: Vec<u8> = Vec::new();
    let take: usize = if found {
        stem_end
    } else {
        name.len()
    };
    let mut j: usize = 0;
    while j < take
        invariant
            0 <= j <= take <= name@.len(),
            out@ =~= name@.subrange(0, j as int),
        decreases take - j,
    {
        out.push(name[j]);
        j = j + 1;
    }
    out.push(46u8);
    crate::text::append_bytes(&mut out, ext);
    proof {
        if found {
            assert(out@ =~= name@.subrange(0, stem_end as int) + seq![46u8] + ext@);
        } else {
            assert(name@.subrange(0, name@.len() as int) =~= name@);
            assert(out@ =~= name@ + seq![46u8] + ext@);
        }
    }
    out
}

/// The mirror directory of the package under its `share` subtree, with the
/// fixed language-identifying last segment.
pub open spec fn mirror_dir_sp(pkg: Seq<u8>) -> Seq<Seq<u8>> {
    seq!["share".spec_bytes(), pkg, "rust".spec_bytes()]
}

/// The ordered copies of the source mirror: the explicit build script if
/// there is one, then the package's `src` directory, the manifest, its
/// companion lock file, and the package descriptor into the `share`
/// directory above the mirror.
pub open spec fn source_copies_sp(
    pp: Seq<Seq<u8>>,
    mp: Seq<Seq<u8>>,
    pkg: Seq<u8>,
    script: Option<Seq<u8>>,
) -> Seq<CopyOpV> {
    let mirror = mirror_dir_sp(pkg);
    let lock = mp.update(mp.len() - 1, with_ext_sp(mp.last(), "lock".spec_bytes()));
    (match script {
        Some(p) => seq![CopyOpV { src: pp.push(p), dest: mirror }],
        None => Seq::<CopyOpV>::empty(),
    }) + seq![
        CopyOpV { src: pp.push("src".spec_bytes()), dest: mirror },
        CopyOpV { src: mp, dest: mirror },
        CopyOpV { src: lock, dest: mirror },
        CopyOpV {
            src: pp.push("package.xml".spec_bytes()),
            dest: seq!["share".spec_bytes(), pkg],
        },
    ]
}

/// What the source-mirror installer leaves: the mirror directory (wiped,
/// then recreated) and the ordered copies into it.
#[derive(Debug)]
pub struct SourcePlan {
    pub mirror_dir: Vec<Vec<u8>>,
    pub copies: Vec<CopyOp>,
}

/// A configuration error of the source mirror, together with the mirror
/// directory: the mirror is wiped and recreated before the build-script
/// field is resolved, so on this error the shell still leaves the mirror
/// empty — there is no rollback.
#[derive(Debug)]
pub struct SourceFailure {
    pub mirror_dir: Vec<Vec<u8>>,
    pub error: InstallError,
}

/// Plans the source mirror of the package: resolves the tri-state
/// build-script field, and lists the copies in their fixed order. The
/// mirror directory is wiped and recreated before the field is resolved,
/// so a failure still names it. The caller has validated that the
/// descriptor carries a package identity.
pub fn install_package(
    package_path: &Vec<Vec<u8>>,
    manifest_path: &Vec<Vec<u8>>,
    package_name: &Vec<u8>,
    build: &BuildField,
) -> (r: Result<SourcePlan, SourceFailure>)
    requires
        manifest_path@.len() > 0,
    ensures
        r is Ok <==> (build is Absent || build == BuildField::Flag(false) || build is Text),
        r is Err ==> r->Err_0.error is InvalidBuildField,
        r is Err ==> r->Err_0.mirror_dir.deep_view() == mirror_dir_sp(package_name@),
        r is Ok ==> r->Ok_0.mirror_dir.deep_view() == mirror_dir_sp(package_name@),
        r is Ok ==> r->Ok_0.copies.deep_view() == source_copies_sp(
            package_path.deep_view(),
            manifest_path.deep_view(),
            package_name@,
            match build {
                BuildField::Text(p) => Some(p@),
                _ => None,
            },
        ),
{
    let mut mirror_dir: Vec<Vec<u8>> = Vec::new();
    mirror_dir.push("share".as_bytes_vec());
    mirror_dir.push(crate::fs_tree::bytes_clone(package_name));
    mirror_dir.push("rust".as_bytes_vec());
    proof {
        assert(mirror_dir.deep_view() =~= mirror_dir_sp(package_name@));
    }
    let script = match resolve_build_script(build) {
        Ok(s) => s,
        Err(e) => {
            return Err(SourceFailure { mirror_dir, error: e });
        },
    };
    let mut copies: Vec<CopyOp> = Vec::new();
    match script {
        BuildScript::Explicit(p) => {
            copies.push(
                CopyOp {
                    src: path_push(package_path, &p),
                    dest: crate::fs_tree::path_clone(&mirror_dir),
                },
            );
        },
        _ => {},
    }
    let src_seg = "src".as_bytes_vec();
    copies.push(
        CopyOp {
            src: path_push(package_path, &src_seg),
            dest: crate::fs_tree::path_clone(&mirror_dir),
        },
    );
    copies.push(
        CopyOp {
            src: crate::fs_tree::path_clone(manifest_path),
            dest: crate::fs_tree::path_clone(&mirror_dir),
        },
    );
    let lock_ext = "lock".as_bytes_vec();
    let lock_name = with_extension(&manifest_path[manifest_path.len() - 1], &lock_ext);
    let mut lock_path = crate::fs_tree::path_clone(manifest_path);
    proof {
        assert(lock_path.deep_view().len() == manifest_path.deep_view().len());
        assert(lock_path@.len() == manifest_path@.len());
    }
    lock_path.set(manifest_path.len() - 1, lock_name);
    proof {
        assert(manifest_path.deep_view()[manifest_path@.len() - 1] == manifest_path@[
            manifest_path@.len() - 1
        ]@);
        assert(lock_path.deep_view() =~= manifest_path.deep_view().update(
            manifest_path.deep_view().len() - 1,
            with_ext_sp(manifest_path.deep_view().last(), "lock".spec_bytes()),
        ));
    }
    copies.push(CopyOp { src: lock_path, dest: crate::fs_tree::path_clone(&mirror_dir) });
    let xml_seg = "package.xml".as_bytes_vec();
    let mut share_dir: Vec<Vec<u8>> = Vec::new();
    share_dir.push("share".as_bytes_vec());
    share_dir.push(crate::fs_tree::bytes_clone(package_name));
    proof {
        assert(share_dir.deep_view() =~= seq!["share".spec_bytes(), package_name@]);
    }
    copies.push(CopyOp { src: path_push(package_path, &xml_seg), dest: share_dir });
    proof {
        assert(copies.deep_view() =~= source_copies_sp(
            package_path.deep_view(),
            manifest_path.deep_view(),
            package_name@,
            match build {
                BuildField::Text(p) => Some(p@),
                _ => None,
            },
        ));
    }
    Ok(SourcePlan { mirror_dir, copies })
}

} // verus!
