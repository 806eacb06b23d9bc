use ament_install::artifact::{install_binaries, BinaryProduct};
use ament_install::fs_tree::{FsEntry, FsTree, NodeKind};
use ament_install::InstallError;

fn seg(s: &str) -> Vec<u8> {
    s.as_bytes().to_vec()
}

fn path(segs: &[&str]) -> Vec<Vec<u8>> {
    segs.iter().map(|s| seg(s)).collect()
}

fn file(segs: &[&str], bytes: &[u8]) -> FsEntry {
    FsEntry { path: path(segs), kind: NodeKind::File { bytes: bytes.to_vec() } }
}

fn dir(segs: &[&str]) -> FsEntry {
    FsEntry { path: path(segs), kind: NodeKind::Dir }
}

fn link_dir(segs: &[&str]) -> FsEntry {
    FsEntry { path: path(segs), kind: NodeKind::LinkDir }
}

fn named(name: &str) -> BinaryProduct {
    BinaryProduct { name: Some(seg(name)) }
}

#[test]
fn binary_copied_byte_identical() {
    let tree = FsTree { entries: vec![file(&["foo"], &[7u8, 8, 9, 0, 255])] };
    let plan = install_binaries(&tree, &seg("foo"), &vec![named("foo")]).unwrap();
    assert_eq!(plan.lib_files.len(), 1);
    assert_eq!(
        plan.lib_files[0],
        FsEntry { path: path(&["foo"]), kind: NodeKind::File { bytes: vec![7u8, 8, 9, 0, 255] } }
    );
}

#[test]
fn shared_and_static_both_listed_in_fixed_order() {
    // The static variant sits first in the build output listing, but the
    // fixed convention order puts the shared suffix first.
    let tree = FsTree {
        entries: vec![file(&["libfoo.a"], b"static"), file(&["libfoo.so"], b"shared")],
    };
    let plan = install_binaries(&tree, &seg("foo"), &vec![]).unwrap();
    assert_eq!(plan.libraries, vec![seg("libfoo.so"), seg("libfoo.a")]);
    assert_eq!(plan.lib_files.len(), 2);
    assert_eq!(plan.lib_files[0], file(&["libfoo.so"], b"shared"));
    assert_eq!(plan.lib_files[1], file(&["libfoo.a"], b"static"));
    let expected = b"set(foo_LIBRARIES \"libfoo.so;libfoo.a\")\nset(foo_HAVE_INCLUDE_FILES FALSE)\n";
    assert_eq!(plan.config_text, expected.to_vec());
}

#[test]
fn no_libraries_and_no_marker_gives_empty_list_and_false() {
    let tree = FsTree { entries: vec![file(&["foo"], b"bin")] };
    let plan = install_binaries(&tree, &seg("foo"), &vec![named("foo")]).unwrap();
    assert!(plan.libraries.is_empty());
    assert!(!plan.have_headers);
    assert!(plan.merged.is_empty());
    let expected = b"set(foo_LIBRARIES \"\")\nset(foo_HAVE_INCLUDE_FILES FALSE)\n";
    assert_eq!(plan.config_text, expected.to_vec());
    assert_eq!(plan.config_name, seg("fooConfig.cmake"));
}

#[test]
fn nested_marker_dirs_are_both_roots() {
    let tree = FsTree {
        entries: vec![
            dir(&["a"]),
            file(&["a", "CARGO_ROS_INCLUDE_ROOT"], b""),
            file(&["a", "x.h"], b"x"),
            dir(&["a", "b"]),
            file(&["a", "b", "CARGO_ROS_INCLUDE_ROOT"], b""),
            file(&["a", "b", "y.h"], b"y"),
        ],
    };
    let plan = install_binaries(&tree, &seg("foo"), &vec![]).unwrap();
    assert!(plan.have_headers);
    // Root `a` contributes everything strictly below it except sentinel
    // marker entries — the nested root's sentinel stays out of the merged
    // destination too; root `a/b` then contributes its own contents.
    let merged: Vec<(Vec<Vec<u8>>, bool)> = plan
        .merged
        .iter()
        .map(|e| (e.path.clone(), matches!(e.kind, NodeKind::File { .. })))
        .collect();
    assert_eq!(
        merged,
        vec![
            (path(&["x.h"]), true),
            (path(&["b"]), false),
            (path(&["b", "y.h"]), true),
            (path(&["y.h"]), true),
        ]
    );
    let expected = b"set(foo_LIBRARIES \"\")\nset(foo_HAVE_INCLUDE_FILES TRUE)\n";
    assert_eq!(plan.config_text, expected.to_vec());
}

#[test]
fn symlinked_marker_dir_is_excluded() {
    let tree = FsTree {
        entries: vec![
            link_dir(&["s"]),
            file(&["s", "CARGO_ROS_INCLUDE_ROOT"], b""),
            file(&["s", "z.h"], b"z"),
        ],
    };
    let plan = install_binaries(&tree, &seg("foo"), &vec![]).unwrap();
    assert!(!plan.have_headers);
    assert!(plan.merged.is_empty());
}

#[test]
fn marker_at_build_output_top_is_a_root() {
    let tree = FsTree {
        entries: vec![file(&["CARGO_ROS_INCLUDE_ROOT"], b""), file(&["top.h"], b"t")],
    };
    let plan = install_binaries(&tree, &seg("foo"), &vec![]).unwrap();
    assert!(plan.have_headers);
    assert_eq!(plan.merged, vec![file(&["top.h"], b"t")]);
}

#[test]
fn rerun_after_removing_library_drops_it_everywhere() {
    let with_lib = FsTree {
        entries: vec![file(&["foo"], b"bin"), file(&["libfoo.so"], b"shared")],
    };
    let without_lib = FsTree { entries: vec![file(&["foo"], b"bin")] };
    let bins = vec![named("foo")];
    let first = install_binaries(&with_lib, &seg("foo"), &bins).unwrap();
    assert_eq!(first.libraries, vec![seg("libfoo.so")]);
    let second = install_binaries(&without_lib, &seg("foo"), &bins).unwrap();
    assert!(second.libraries.is_empty());
    assert_eq!(second.lib_files, vec![file(&["foo"], b"bin")]);
    let expected = b"set(foo_LIBRARIES \"\")\nset(foo_HAVE_INCLUDE_FILES FALSE)\n";
    assert_eq!(second.config_text, expected.to_vec());
}

#[test]
fn installer_is_deterministic_on_unchanged_input() {
    let tree = FsTree {
        entries: vec![
            file(&["foo"], b"bin"),
            file(&["libfoo.so"], b"shared"),
            dir(&["inc"]),
            file(&["inc", "CARGO_ROS_INCLUDE_ROOT"], b""),
            file(&["inc", "h.h"], b"h"),
        ],
    };
    let bins = vec![named("foo")];
    let a = install_binaries(&tree, &seg("foo"), &bins).unwrap();
    let b = install_binaries(&tree, &seg("foo"), &bins).unwrap();
    assert_eq!(a.lib_files, b.lib_files);
    assert_eq!(a.libraries, b.libraries);
    assert_eq!(a.have_headers, b.have_headers);
    assert_eq!(a.merged, b.merged);
    assert_eq!(a.config_name, b.config_name);
    assert_eq!(a.config_text, b.config_text);
}

#[test]
fn binary_without_name_is_an_error() {
    let tree = FsTree { entries: vec![file(&["foo"], b"bin")] };
    let r = install_binaries(&tree, &seg("foo"), &vec![BinaryProduct { name: None }]);
    assert_eq!(r.unwrap_err(), InstallError::BinaryWithoutName);
}

#[test]
fn missing_binary_file_is_an_error() {
    let tree = FsTree { entries: vec![] };
    let r = install_binaries(&tree, &seg("foo"), &vec![named("foo")]);
    assert_eq!(r.unwrap_err(), InstallError::MissingBinary { name: seg("foo") });
}

#[test]
fn missing_library_variant_is_silently_skipped() {
    let tree = FsTree { entries: vec![file(&["libfoo.a"], b"static")] };
    let plan = install_binaries(&tree, &seg("foo"), &vec![]).unwrap();
    assert_eq!(plan.libraries, vec![seg("libfoo.a")]);
}
