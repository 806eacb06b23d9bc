use ament_install::args::{ArgsOrHelp, RawArgs, split_forwarded};
use ament_install::fs_tree::{copy, FsEntry, FsTree, NodeKind};
use ament_install::meta::{install_files_from_metadata, MetaEntry, MetaValue};
use ament_install::package::{
    create_package_marker, install_package, resolve_build_script, with_extension, BuildField,
    BuildScript, CopyOp,
};
use ament_install::InstallError;

fn seg(s: &str) -> Vec<u8> {
    s.as_bytes().to_vec()
}

fn path(segs: &[&str]) -> Vec<Vec<u8>> {
    segs.iter().map(|s| seg(s)).collect()
}

fn entry(key: &str, val: MetaValue) -> MetaEntry {
    MetaEntry { key: seg(key), val }
}

fn ros_meta(entries: Vec<MetaEntry>) -> MetaValue {
    MetaValue::Table(vec![entry("ros", MetaValue::Table(entries))])
}

#[test]
fn marker_paths_are_fixed() {
    let plan = create_package_marker(&seg("packages"), &seg("foo"));
    assert_eq!(plan.dir, path(&["share", "ament_index", "resource_index", "packages"]));
    assert_eq!(
        plan.file,
        path(&["share", "ament_index", "resource_index", "packages", "foo"])
    );
}

#[test]
fn build_script_tri_state() {
    assert_eq!(resolve_build_script(&BuildField::Absent).unwrap(), BuildScript::Default);
    assert_eq!(resolve_build_script(&BuildField::Flag(false)).unwrap(), BuildScript::Disabled);
    assert_eq!(
        resolve_build_script(&BuildField::Text(seg("gen.rs"))).unwrap(),
        BuildScript::Explicit(seg("gen.rs"))
    );
    assert_eq!(
        resolve_build_script(&BuildField::Flag(true)).unwrap_err(),
        InstallError::InvalidBuildField
    );
    assert_eq!(
        resolve_build_script(&BuildField::Other).unwrap_err(),
        InstallError::InvalidBuildField
    );
}

#[test]
fn extension_replacement() {
    assert_eq!(with_extension(&seg("Cargo.toml"), &seg("lock")), seg("Cargo.lock"));
    assert_eq!(with_extension(&seg("Cargo"), &seg("lock")), seg("Cargo.lock"));
    assert_eq!(with_extension(&seg(".hidden"), &seg("lock")), seg(".hidden.lock"));
    assert_eq!(with_extension(&seg("a.b.c"), &seg("lock")), seg("a.b.lock"));
}

#[test]
fn source_mirror_copies_in_order() {
    let pp = path(&["home", "pkg"]);
    let mp = path(&["home", "pkg", "Cargo.toml"]);
    let plan = install_package(&pp, &mp, &seg("foo"), &BuildField::Text(seg("gen.rs"))).unwrap();
    let mirror = path(&["share", "foo", "rust"]);
    assert_eq!(plan.mirror_dir, mirror);
    assert_eq!(
        plan.copies,
        vec![
            CopyOp { src: path(&["home", "pkg", "gen.rs"]), dest: mirror.clone() },
            CopyOp { src: path(&["home", "pkg", "src"]), dest: mirror.clone() },
            CopyOp { src: path(&["home", "pkg", "Cargo.toml"]), dest: mirror.clone() },
            CopyOp { src: path(&["home", "pkg", "Cargo.lock"]), dest: mirror.clone() },
            CopyOp { src: path(&["home", "pkg", "package.xml"]), dest: path(&["share", "foo"]) },
        ]
    );
}

#[test]
fn source_mirror_without_build_script() {
    let pp = path(&["p"]);
    let mp = path(&["p", "Cargo.toml"]);
    let plan = install_package(&pp, &mp, &seg("foo"), &BuildField::Absent).unwrap();
    assert_eq!(plan.copies.len(), 4);
    assert_eq!(plan.copies[0].src, path(&["p", "src"]));
    // On an invalid build value the mirror has already been wiped and
    // recreated: the failure names it, and nothing is rolled back.
    let bad = install_package(&pp, &mp, &seg("foo"), &BuildField::Flag(true)).unwrap_err();
    assert_eq!(bad.error, InstallError::InvalidBuildField);
    assert_eq!(bad.mirror_dir, path(&["share", "foo", "rust"]));
}

#[test]
fn copy_mirrors_a_directory_under_its_last_segment() {
    let tree = FsTree {
        entries: vec![
            FsEntry { path: path(&["src"]), kind: NodeKind::Dir },
            FsEntry { path: path(&["src", "main.rs"]), kind: NodeKind::File { bytes: seg("fn") } },
            FsEntry { path: path(&["src", "sub"]), kind: NodeKind::Dir },
            FsEntry { path: path(&["src", "sub", "m.rs"]), kind: NodeKind::File { bytes: seg("m") } },
        ],
    };
    let out = copy(&tree, &path(&["src"]), &path(&["dest"])).unwrap();
    assert_eq!(out.len(), 4);
    assert_eq!(out[0], FsEntry { path: path(&["dest", "src"]), kind: NodeKind::Dir });
    assert_eq!(
        out[1],
        FsEntry { path: path(&["dest", "src", "main.rs"]), kind: NodeKind::File { bytes: seg("fn") } }
    );
    assert_eq!(out[2], FsEntry { path: path(&["dest", "src", "sub"]), kind: NodeKind::Dir });
    assert_eq!(
        out[3],
        FsEntry {
            path: path(&["dest", "src", "sub", "m.rs"]),
            kind: NodeKind::File { bytes: seg("m") },
        }
    );
}

#[test]
fn copy_places_a_file_under_its_own_name() {
    let tree = FsTree {
        entries: vec![
            FsEntry { path: path(&["package.xml"]), kind: NodeKind::File { bytes: seg("<x/>") } },
        ],
    };
    let out = copy(&tree, &path(&["package.xml"]), &path(&["share", "foo"])).unwrap();
    assert_eq!(
        out,
        vec![
            FsEntry {
                path: path(&["share", "foo", "package.xml"]),
                kind: NodeKind::File { bytes: seg("<x/>") },
            },
        ]
    );
}

#[test]
fn copy_of_a_missing_source_is_an_error() {
    let tree = FsTree { entries: vec![] };
    let r = copy(&tree, &path(&["gone"]), &path(&["dest"]));
    assert_eq!(r.unwrap_err(), InstallError::SourceMissing { path: path(&["gone"]) });
}

#[test]
fn absent_key_ends_the_metadata_walk() {
    // A share rule with no install_to_include key: the walk ends at the
    // second kind; the lib kind afterwards is never processed, though its
    // key is present.
    let meta = ros_meta(vec![
        entry("install_to_share", MetaValue::Arr(vec![MetaValue::Str(seg("foo.txt"))])),
        entry("install_to_lib", MetaValue::Arr(vec![MetaValue::Str(seg("never.txt"))])),
    ]);
    let plan = install_files_from_metadata(&path(&["p"]), &seg("foo"), Some(&meta)).unwrap();
    assert_eq!(plan.dirs, vec![path(&["share", "foo"]), path(&["include", "foo"])]);
    assert_eq!(
        plan.copies,
        vec![CopyOp { src: path(&["p", "foo.txt"]), dest: path(&["share", "foo"]) }]
    );
}

#[test]
fn all_three_kinds_processed_when_all_keys_present() {
    let meta = ros_meta(vec![
        entry("install_to_share", MetaValue::Arr(vec![MetaValue::Str(seg("a"))])),
        entry("install_to_include", MetaValue::Arr(vec![MetaValue::Str(seg("b"))])),
        entry("install_to_lib", MetaValue::Arr(vec![MetaValue::Str(seg("c"))])),
    ]);
    let plan = install_files_from_metadata(&path(&["p"]), &seg("foo"), Some(&meta)).unwrap();
    assert_eq!(
        plan.dirs,
        vec![path(&["share", "foo"]), path(&["include", "foo"]), path(&["lib", "foo"])]
    );
    assert_eq!(
        plan.copies,
        vec![
            CopyOp { src: path(&["p", "a"]), dest: path(&["share", "foo"]) },
            CopyOp { src: path(&["p", "b"]), dest: path(&["include", "foo"]) },
            CopyOp { src: path(&["p", "c"]), dest: path(&["lib", "foo"]) },
        ]
    );
}

#[test]
fn missing_or_foreign_metadata_is_a_no_op() {
    let plan = install_files_from_metadata(&path(&["p"]), &seg("foo"), None).unwrap();
    assert!(plan.dirs.is_empty() && plan.copies.is_empty());
    let not_table = MetaValue::Bool(true);
    let plan = install_files_from_metadata(&path(&["p"]), &seg("foo"), Some(&not_table)).unwrap();
    assert!(plan.dirs.is_empty() && plan.copies.is_empty());
    let no_ros = MetaValue::Table(vec![entry("other", MetaValue::Bool(true))]);
    let plan = install_files_from_metadata(&path(&["p"]), &seg("foo"), Some(&no_ros)).unwrap();
    assert!(plan.dirs.is_empty() && plan.copies.is_empty());
}

#[test]
fn non_array_metadata_key_is_an_error() {
    let meta = ros_meta(vec![entry("install_to_share", MetaValue::Bool(true))]);
    let f = install_files_from_metadata(&path(&["p"]), &seg("foo"), Some(&meta)).unwrap_err();
    assert_eq!(f.error, InstallError::NotAnArray { key: seg("install_to_share") });
    // The failing kind's directory was already ensured before the lookup.
    assert_eq!(f.done.dirs, vec![path(&["share", "foo"])]);
    assert!(f.done.copies.is_empty());
}

#[test]
fn non_string_metadata_element_is_an_error() {
    let meta = ros_meta(vec![
        entry("install_to_share", MetaValue::Arr(vec![MetaValue::Int(3)])),
    ]);
    let f = install_files_from_metadata(&path(&["p"]), &seg("foo"), Some(&meta)).unwrap_err();
    assert_eq!(f.error, InstallError::NonStringEntry { key: seg("install_to_share") });
    assert_eq!(f.done.dirs, vec![path(&["share", "foo"])]);
    assert!(f.done.copies.is_empty());
}

#[test]
fn earlier_kinds_stay_installed_when_a_later_kind_fails() {
    // The share rule is valid and its copy is due before the include rule's
    // element fails validation: the failure carries the share copy and all
    // directories ensured so far, and nothing of the failing array.
    let meta = ros_meta(vec![
        entry("install_to_share", MetaValue::Arr(vec![MetaValue::Str(seg("a"))])),
        entry("install_to_include", MetaValue::Arr(vec![MetaValue::Int(5)])),
    ]);
    let f = install_files_from_metadata(&path(&["p"]), &seg("foo"), Some(&meta)).unwrap_err();
    assert_eq!(f.error, InstallError::NonStringEntry { key: seg("install_to_include") });
    assert_eq!(f.done.dirs, vec![path(&["share", "foo"]), path(&["include", "foo"])]);
    assert_eq!(
        f.done.copies,
        vec![CopyOp { src: path(&["p", "a"]), dest: path(&["share", "foo"]) }]
    );
}

#[test]
fn forwarded_args_split_at_first_separator() {
    let args = vec![seg("--install-base"), seg("ib"), seg("--"), seg("--release"), seg("-q")];
    let (parse_part, fwd) = split_forwarded(args);
    // The separator goes; everything after it stays visible to the flag
    // parser and is forwarded too.
    assert_eq!(
        parse_part,
        vec![seg("--install-base"), seg("ib"), seg("--release"), seg("-q")]
    );
    assert_eq!(fwd, vec![seg("--release"), seg("-q")]);
}

#[test]
fn no_separator_forwards_nothing() {
    let args = vec![seg("--release")];
    let (parse_part, fwd) = split_forwarded(args);
    assert_eq!(parse_part, vec![seg("--release")]);
    assert!(fwd.is_empty());
}

fn raw(install_base: Option<&str>) -> RawArgs {
    RawArgs {
        help: false,
        release: false,
        profile: None,
        target_dir: None,
        install_base: install_base.map(seg),
        manifest_path: None,
        default_manifest: Some(seg("/w/Cargo.toml")),
        forwarded_args: vec![],
    }
}

#[test]
fn parse_applies_documented_defaults() {
    let r = ArgsOrHelp::parse(raw(Some("ib"))).unwrap();
    match r {
        ArgsOrHelp::Args(a) => {
            assert_eq!(a.install_base, seg("ib"));
            assert_eq!(a.build_base, seg("target"));
            assert_eq!(a.profile, seg("debug"));
            assert_eq!(a.manifest_path, seg("/w/Cargo.toml"));
            assert!(a.forwarded_args.is_empty());
        },
        ArgsOrHelp::Help => panic!("expected resolved arguments"),
    }
}

#[test]
fn parse_release_beats_profile() {
    let mut r = raw(Some("ib"));
    r.release = true;
    r.profile = Some(seg("bench"));
    match ArgsOrHelp::parse(r).unwrap() {
        ArgsOrHelp::Args(a) => assert_eq!(a.profile, seg("release")),
        ArgsOrHelp::Help => panic!("expected resolved arguments"),
    }
}

#[test]
fn parse_profile_option_used_without_release() {
    let mut r = raw(Some("ib"));
    r.profile = Some(seg("bench"));
    r.target_dir = Some(seg("out"));
    r.manifest_path = Some(seg("elsewhere/Cargo.toml"));
    match ArgsOrHelp::parse(r).unwrap() {
        ArgsOrHelp::Args(a) => {
            assert_eq!(a.profile, seg("bench"));
            assert_eq!(a.build_base, seg("out"));
            assert_eq!(a.manifest_path, seg("elsewhere/Cargo.toml"));
        },
        ArgsOrHelp::Help => panic!("expected resolved arguments"),
    }
}

#[test]
fn parse_help_wins() {
    let mut r = raw(None);
    r.help = true;
    assert!(matches!(ArgsOrHelp::parse(r).unwrap(), ArgsOrHelp::Help));
}

#[test]
fn parse_requires_install_base() {
    assert_eq!(ArgsOrHelp::parse(raw(None)).unwrap_err(), InstallError::MissingInstallBase);
}

#[test]
fn parse_requires_some_manifest() {
    let mut r = raw(Some("ib"));
    r.default_manifest = None;
    assert_eq!(ArgsOrHelp::parse(r).unwrap_err(), InstallError::ManifestNotFound);
}
