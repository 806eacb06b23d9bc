//! The metadata-driven installer: a declarative table in the package
//! descriptor names files and directories to copy into the `share`,
//! header, and `lib` destinations. A destination kind whose key is absent
//! ends the whole operation at once, skipping the kinds after it in the
//! fixed order; that standing behavior is part of the contract here.

use vstd::prelude::*;
use crate::InstallError;
use crate::fs_tree::{bytes_clone, bytes_eq, path_push};
use crate::package::{CopyOp, CopyOpV};
use vstd::string::StringSliceAdditionalSpecFns;
use vstd::string::StrSliceExecFns;

verus! {

broadcast use crate::bytes_deep_is_view, crate::vec_deep_view_len, crate::vec_deep_view_index,
    crate::vec_deep_is_seq_deep, crate::seq_deep_push;

/// A value of the package descriptor's metadata, as the manifest gives it.
pub enum MetaValue {
    Bool(bool),
    Int(i64),
    Str(Vec<u8>),
    Arr(Vec<MetaValue>),
    Table(Vec<MetaEntry>),
    Other,
}

/// One key-value pair of a metadata table.
pub struct MetaEntry {
    pub key: Vec<u8>,
    pub val: MetaValue,
}

/// The first value under `key` in the table, searching from index `i` on.
pub open spec fn table_get_from(t: Seq<MetaEntry>, key: Seq<u8>, i: int) -> Option<MetaValue>
    decreases t.len() - i,
{
    if i < 0 || i >= t.len() {
        None
    } else if t[i].key@ == key {
        Some(t[i].val)
    } else {
        table_get_from(t, key, i + 1)
    }
}

/// The value under `key` in the table, if any.
pub open spec fn table_get(t: Seq<MetaEntry>, key: Seq<u8>) -> Option<MetaValue> {
    table_get_from(t, key, 0)
}

/// Looks a key up in a metadata table.
pub fn table_lookup<'a>(t: &'a Vec<MetaEntry>, key: &Vec<u8>) -> (r: Option<&'a MetaValue>)
    ensures
        r is Some <==> table_get(t@, key@) is Some,
        r is Some ==> *r->0 == table_get(t@, key@)->0,
{
    let mut i: usize = 0;
    while i < t.len()
        invariant
            0 <= i <= t.len(),
            table_get(t@, key@) == table_get_from(t@, key@, i as int),
        decreases t.len() - i,
    {
        if bytes_eq(&t[i].key, key) {
            return Some(&t[i].val);
        }
        i = i + 1;
    }
    None
}

/// Every element of the array is a string.
pub open spec fn all_strings(items: Seq<MetaValue>) -> bool {
    forall|j: int| 0 <= j < items.len() ==> items[j] is Str
}

/// The copies that the first `i` array elements declare: each string is a
/// package-root-relative path copied into the destination directory.
pub open spec fn kind_copies_upto(
    items: Seq<MetaValue>,
    pp: Seq<Seq<u8>>,
    dir: Seq<Seq<u8>>,
    i: int,
) -> Seq<CopyOpV>
    decreases i,
{
    if i <= 0 {
        Seq::empty()
    } else {
        let rest = kind_copies_upto(items, pp, dir, i - 1);
        match items[i - 1] {
            MetaValue::Str(s) => rest.push(CopyOpV { src: pp.push(s@), dest: dir }),
            _ => rest,
        }
    }
}

/// The declarative key of one destination kind.
pub open spec fn kind_key_sp(kind: Seq<u8>) -> Seq<u8> {
    "install_to_".spec_bytes() + kind
}

/// Processes one destination kind: absent key ends the operation, a
/// non-array value or a non-string element is a configuration error, and
/// an array of strings becomes copies into `<kind>/<package>`.
fn process_kind(ros: &Vec<MetaEntry>, pp: &Vec<Vec<u8>>, pkg: &Vec<u8>, kind: &str) -> (r: Result<
    Option<Vec<CopyOp>>,
    InstallError,
>)
    ensures
        (match table_get(ros@, kind_key_sp(kind.spec_bytes())) {
            None => r matches Ok(None),
            Some(v) => match v {
                MetaValue::Arr(items) => {
                    if all_strings(items@) {
                        r matches Ok(Some(ops)) && ops.deep_view() == kind_copies_upto(
                            items@,
                            pp.deep_view(),
                            seq![kind.spec_bytes(), pkg@],
                            items@.len() as int,
                        )
                    } else {
                        r matches Err(e) && e matches InstallError::NonStringEntry { key } && key@
                            == kind_key_sp(kind.spec_bytes())
                    }
                },
                _ => r matches Err(e) && e matches InstallError::NotAnArray { key } && key@
                    == kind_key_sp(kind.spec_bytes()),
            },
        }),
{
    let prefix = "install_to_".as_bytes_vec();
    let kind_bytes = kind.as_bytes_vec();
    let key = crate::text::bytes_concat(&prefix, &kind_bytes);
    let mut dir: Vec<Vec<u8>> = Vec::new();
    dir.push(bytes_clone(&kind_bytes));
    dir.push(bytes_clone(pkg));
    proof {
        assert(dir.deep_view() =~= seq![kind.spec_bytes(), pkg@]);
    }
    let looked = table_lookup(ros, &key);
    match looked {
        None => Ok(None),
        Some(MetaValue::Arr(items)) => {
            let ghost dv = dir.deep_view();
            let mut ops: Vec<CopyOp> = Vec::new();
            let mut j: usize = 0;
            proof {
                assert(ops.deep_view() =~= kind_copies_upto(items@, pp.deep_view(), dv, 0));
            }
            while j < items.len()
                invariant
                    0 <= j <= items.len(),
                    dv == seq![kind.spec_bytes(), pkg@],
                    dir.deep_view() == dv,
                    key@ == kind_key_sp(kind.spec_bytes()),
                    table_get(ros@, kind_key_sp(kind.spec_bytes())) == Some(
                        MetaValue::Arr(*items),
                    ),
                    forall|m: int| 0 <= m < j ==> items@[m] is Str,
                    ops.deep_view() == kind_copies_upto(items@, pp.deep_view(), dv, j as int),
                decreases items.len() - j,
            {
                match &items[j] {
                    MetaValue::Str(s) => {
                        ops.push(
                            CopyOp {
                                src: path_push(pp, s),
                                dest: crate::fs_tree::path_clone(&dir),
                            },
                        );
                        proof {
                            assert(ops.deep_view() =~= kind_copies_upto(
                                items@,
                                pp.deep_view(),
                                dv,
                                j as int + 1,
                            ));
                        }
                    },
                    _ => {
                        return Err(InstallError::NonStringEntry { key });
                    },
                }
                j = j + 1;
            }
            Ok(Some(ops))
        },
        Some(_) => Err(InstallError::NotAnArray { key }),
    }
}

/// The fixed order of destination kinds.
pub open spec fn kind_names() -> Seq<Seq<u8>> {
    seq!["share".spec_bytes(), "include".spec_bytes(), "lib".spec_bytes()]
}

/// What processing the destination kinds from index `k` on yields: the
/// destination directories ensured (one per kind looked at, the absent and
/// the failing one included) and the declared copies, or the first
/// configuration error. An error carries what the walk had already decided
/// before it — there is no rollback, so those directories are ensured and
/// the earlier kinds' copies performed even when a later kind fails.
pub enum MetaOutcome {
    Done { dirs: Seq<Seq<Seq<u8>>>, copies: Seq<CopyOpV> },
    NotArray { key: Seq<u8>, done_dirs: Seq<Seq<Seq<u8>>>, done_copies: Seq<CopyOpV> },
    BadElem { key: Seq<u8>, done_dirs: Seq<Seq<Seq<u8>>>, done_copies: Seq<CopyOpV> },
}

/// Processes the kinds in their fixed order from index `k` on. An absent
/// key ends the whole walk: the kinds after it are never looked at.
pub open spec fn meta_plan_from(
    ros: Seq<MetaEntry>,
    pp: Seq<Seq<u8>>,
    pkg: Seq<u8>,
    k: int,
) -> MetaOutcome
    decreases 3 - k,
{
    if k < 0 || k >= 3 {
        MetaOutcome::Done { dirs: Seq::empty(), copies: Seq::empty() }
    } else {
        let dir = seq![kind_names()[k], pkg];
        match table_get(ros, kind_key_sp(kind_names()[k])) {
            None => MetaOutcome::Done { dirs: seq![dir], copies: Seq::empty() },
            Some(v) => match v {
                MetaValue::Arr(items) => {
                    if all_strings(items@) {
                        let own = kind_copies_upto(items@, pp, dir, items@.len() as int);
                        match meta_plan_from(ros, pp, pkg, k + 1) {
                            MetaOutcome::Done { dirs, copies } => MetaOutcome::Done {
                                dirs: seq![dir] + dirs,
                                copies: own + copies,
                            },
                            MetaOutcome::NotArray { key, done_dirs, done_copies } => {
                                MetaOutcome::NotArray {
                                    key,
                                    done_dirs: seq![dir] + done_dirs,
                                    done_copies: own + done_copies,
                                }
                            },
                            MetaOutcome::BadElem { key, done_dirs, done_copies } => {
                                MetaOutcome::BadElem {
                                    key,
                                    done_dirs: seq![dir] + done_dirs,
                                    done_copies: own + done_copies,
                                }
                            },
                        }
                    } else {
                        MetaOutcome::BadElem {
                            key: kind_key_sp(kind_names()[k]),
                            done_dirs: seq![dir],
                            done_copies: Seq::empty(),
                        }
                    }
                },
                _ => MetaOutcome::NotArray {
                    key: kind_key_sp(kind_names()[k]),
                    done_dirs: seq![dir],
                    done_copies: Seq::empty(),
                },
            },
        }
    }
}

/// What the metadata-driven installer does with the whole metadata value:
/// nothing unless it is a table holding a `ros` table.
pub open spec fn meta_plan_sp(
    metadata: Option<&MetaValue>,
    pp: Seq<Seq<u8>>,
    pkg: Seq<u8>,
) -> MetaOutcome {
    match metadata {
        Some(m) => match m {
            MetaValue::Table(t) => match table_get(t@, "ros".spec_bytes()) {
                Some(v) => match v {
                    MetaValue::Table(ros) => meta_plan_from(ros@, pp, pkg, 0),
                    _ => MetaOutcome::Done { dirs: Seq::empty(), copies: Seq::empty() },
                },
                None => MetaOutcome::Done { dirs: Seq::empty(), copies: Seq::empty() },
            },
            _ => MetaOutcome::Done { dirs: Seq::empty(), copies: Seq::empty() },
        },
        None => MetaOutcome::Done { dirs: Seq::empty(), copies: Seq::empty() },
    }
}

/// The directories an outcome has ensured, whether it succeeded or not.
pub open spec fn outcome_dirs(o: MetaOutcome) -> Seq<Seq<Seq<u8>>> {
    match o {
        MetaOutcome::Done { dirs, .. } => dirs,
        MetaOutcome::NotArray { done_dirs, .. } => done_dirs,
        MetaOutcome::BadElem { done_dirs, .. } => done_dirs,
    }
}

/// The copies an outcome has performed, whether it succeeded or not.
pub open spec fn outcome_copies(o: MetaOutcome) -> Seq<CopyOpV> {
    match o {
        MetaOutcome::Done { copies, .. } => copies,
        MetaOutcome::NotArray { done_copies, .. } => done_copies,
        MetaOutcome::BadElem { done_copies, .. } => done_copies,
    }
}

/// What the metadata-driven installer leaves: the destination directories
/// it ensured, in order, and the copies it performs, in order.
#[derive(Debug)]
pub struct MetaPlan {
    pub dirs: Vec<Vec<Vec<u8>>>,
    pub copies: Vec<CopyOp>,
}

/// A metadata configuration error, together with what the walk had already
/// decided before it failed: there is no rollback, so the shell still
/// ensures those directories and performs those copies, and only then
/// reports the error.
#[derive(Debug)]
pub struct MetaFailure {
    pub done: MetaPlan,
    pub error: InstallError,
}

/// Plans the metadata-driven copies, exactly as [`meta_plan_sp`] says:
/// destination kinds in the fixed order, each kind's directory ensured
/// before its key is looked up, the walk ended by the first absent key,
/// and a wrongly-typed key or element a hard error.
pub fn install_files_from_metadata(
    package_path: &Vec<Vec<u8>>,
    package_name: &Vec<u8>,
    metadata: Option<&MetaValue>,
) -> (r: Result<MetaPlan, MetaFailure>)
    ensures
        r is Ok <==> meta_plan_sp(metadata, package_path.deep_view(), package_name@) is Done,
        r is Ok ==> r->Ok_0.dirs.deep_view() == outcome_dirs(
            meta_plan_sp(metadata, package_path.deep_view(), package_name@),
        ),
        r is Ok ==> r->Ok_0.copies.deep_view() == outcome_copies(
            meta_plan_sp(metadata, package_path.deep_view(), package_name@),
        ),
        r is Err ==> r->Err_0.done.dirs.deep_view() == outcome_dirs(
            meta_plan_sp(metadata, package_path.deep_view(), package_name@),
        ),
        r is Err ==> r->Err_0.done.copies.deep_view() == outcome_copies(
            meta_plan_sp(metadata, package_path.deep_view(), package_name@),
        ),
        r is Err ==> (match meta_plan_sp(metadata, package_path.deep_view(), package_name@) {
            MetaOutcome::NotArray { key, .. } => r->Err_0.error matches InstallError::NotAnArray {
                key: kk,
            } && kk@ == key,
            MetaOutcome::BadElem { key, .. } => r->Err_0.error
                matches InstallError::NonStringEntry { key: kk } && kk@ == key,
            MetaOutcome::Done { .. } => false,
        }),
{
    let ghost pp = package_path.deep_view();
    let ghost pkg = package_name@;
    let empty_plan_dirs: Vec<Vec<Vec<u8>>> = Vec::new();
    let empty_plan_copies: Vec<CopyOp> = Vec::new();
    proof {
        assert(empty_plan_dirs.deep_view() =~= Seq::<Seq<Seq<u8>>>::empty());
        assert(empty_plan_copies.deep_view() =~= Seq::<CopyOpV>::empty());
    }
    let ros = match metadata {
        Some(MetaValue::Table(t)) => {
            let ros_key = "ros".as_bytes_vec();
            match table_lookup(t, &ros_key) {
                Some(MetaValue::Table(ros)) => ros,
                _ => {
                    return Ok(MetaPlan { dirs: empty_plan_dirs, copies: empty_plan_copies });
                },
            }
        },
        _ => {
            return Ok(MetaPlan { dirs: empty_plan_dirs, copies: empty_plan_copies });
        },
    };
    proof {
        assert(meta_plan_sp(metadata, pp, pkg) == meta_plan_from(ros@, pp, pkg, 0));
    }
    let mut dirs: Vec<Vec<Vec<u8>>> = empty_plan_dirs;
    let mut copies: Vec<CopyOp> = empty_plan_copies;

    // share
    let mut dir0: Vec<Vec<u8>> = Vec::new();
    dir0.push("share".as_bytes_vec());
    dir0.push(bytes_clone(package_name));
    proof {
        assert(dir0.deep_view() =~= seq![kind_names()[0], pkg]);
    }
    dirs.push(dir0);
    match process_kind(ros, package_path, package_name, "share") {
        Err(e) => {
            proof {
                assert(kind_names()[0] == "share".spec_bytes());
                assert(meta_plan_from(ros@, pp, pkg, 0) == (match meta_plan_from(
                    ros@,
                    pp,
                    pkg,
                    0,
                ) {
                    MetaOutcome::Done { dirs: d2, copies: c2 } => MetaOutcome::Done {
                        dirs: d2,
                        copies: c2,
                    },
                    other => other,
                }));
            }
            proof {
                assert(dirs.deep_view() =~= outcome_dirs(meta_plan_from(ros@, pp, pkg, 0)));
                assert(copies.deep_view() =~= outcome_copies(meta_plan_from(ros@, pp, pkg, 0)));
            }
            return Err(MetaFailure { done: MetaPlan { dirs, copies }, error: e });
        },
        Ok(None) => {
            proof {
                assert(dirs.deep_view() =~= meta_plan_from(ros@, pp, pkg, 0)->dirs);
                assert(copies.deep_view() =~= meta_plan_from(ros@, pp, pkg, 0)->copies);
            }
            return Ok(MetaPlan { dirs, copies });
        },
        Ok(Some(mut ops)) => {
            let ghost pre_copies = copies.deep_view();
            let ghost ops_dv = ops.deep_view();
            copies.append(&mut ops);
            proof {
                assert(copies.deep_view() =~= pre_copies + ops_dv);
            }
        },
    }

    // include
    let mut dir1: Vec<Vec<u8>> = Vec::new();
    dir1.push("include".as_bytes_vec());
    dir1.push(bytes_clone(package_name));
    proof {
        assert(dir1.deep_view() =~= seq![kind_names()[1], pkg]);
    }
    dirs.push(dir1);
    match process_kind(ros, package_path, package_name, "include") {
        Err(e) => {
            proof {
                assert(kind_names()[1] == "include".spec_bytes());
                assert(meta_plan_from(ros@, pp, pkg, 1) == (match meta_plan_from(
                    ros@,
                    pp,
                    pkg,
                    1,
                ) {
                    MetaOutcome::Done { dirs: d2, copies: c2 } => MetaOutcome::Done {
                        dirs: d2,
                        copies: c2,
                    },
                    other => other,
                }));
            }
            proof {
                assert(dirs.deep_view() =~= outcome_dirs(meta_plan_from(ros@, pp, pkg, 0)));
                assert(copies.deep_view() =~= outcome_copies(meta_plan_from(ros@, pp, pkg, 0)));
            }
            return Err(MetaFailure { done: MetaPlan { dirs, copies }, error: e });
        },
        Ok(None) => {
            proof {
                assert(dirs.deep_view() =~= meta_plan_from(ros@, pp, pkg, 0)->dirs);
                assert(copies.deep_view() =~= meta_plan_from(ros@, pp, pkg, 0)->copies);
            }
            return Ok(MetaPlan { dirs, copies });
        },
        Ok(Some(mut ops)) => {
            let ghost pre_copies = copies.deep_view();
            let ghost ops_dv = ops.deep_view();
            copies.append(&mut ops);
            proof {
                assert(copies.deep_view() =~= pre_copies + ops_dv);
            }
        },
    }

    // lib
    let mut dir2: Vec<Vec<u8>> = Vec::new();
    dir2.push("lib".as_bytes_vec());
    dir2.push(bytes_clone(package_name));
    proof {
        assert(dir2.deep_view() =~= seq![kind_names()[2], pkg]);
    }
    dirs.push(dir2);
    match process_kind(ros, package_path, package_name, "lib") {
        Err(e) => {
            proof {
                assert(kind_names()[2] == "lib".spec_bytes());
                assert(meta_plan_from(ros@, pp, pkg, 2) == (match meta_plan_from(
                    ros@,
                    pp,
                    pkg,
                    2,
                ) {
                    MetaOutcome::Done { dirs: d2, copies: c2 } => MetaOutcome::Done {
                        dirs: d2,
                        copies: c2,
                    },
                    other => other,
                }));
            }
            proof {
                assert(dirs.deep_view() =~= outcome_dirs(meta_plan_from(ros@, pp, pkg, 0)));
                assert(copies.deep_view() =~= outcome_copies(meta_plan_from(ros@, pp, pkg, 0)));
            }
            return Err(MetaFailure { done: MetaPlan { dirs, copies }, error: e });
        },
        Ok(None) => {
            proof {
                assert(dirs.deep_view() =~= meta_plan_from(ros@, pp, pkg, 0)->dirs);
                assert(copies.deep_view() =~= meta_plan_from(ros@, pp, pkg, 0)->copies);
            }
            return Ok(MetaPlan { dirs, copies });
        },
        Ok(Some(mut ops)) => {
            let ghost pre_copies = copies.deep_view();
            let ghost ops_dv = ops.deep_view();
            copies.append(&mut ops);
            proof {
                assert(copies.deep_view() =~= pre_copies + ops_dv);
            }
        },
    }
    proof {
        assert(kind_names()[0] == "share".spec_bytes());
        assert(kind_names()[1] == "include".spec_bytes());
        assert(kind_names()[2] == "lib".spec_bytes());
        assert(meta_plan_from(ros@, pp, pkg, 3) == (MetaOutcome::Done {
            dirs: Seq::<Seq<Seq<u8>>>::empty(),
            copies: Seq::<CopyOpV>::empty(),
        }));
        assert(meta_plan_from(ros@, pp, pkg, 2) is Done);
        assert(meta_plan_from(ros@, pp, pkg, 1) is Done);
        assert(meta_plan_from(ros@, pp, pkg, 0) is Done);
        assert(dirs.deep_view() =~= meta_plan_from(ros@, pp, pkg, 0)->dirs);
        assert(copies.deep_view() =~= meta_plan_from(ros@, pp, pkg, 0)->copies);
    }
    Ok(MetaPlan { dirs, copies })
}

} // verus!
