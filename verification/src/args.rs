//! Argument resolution: splitting the forwarded arguments off at the first
//! `--`, and turning the raw option values a flag parser extracted into the
//! resolved configuration, with the documented defaults.

use vstd::prelude::*;
use crate::InstallError;
use crate::fs_tree::bytes_clone;
use vstd::string::StringSliceAdditionalSpecFns;
use vstd::string::StrSliceExecFns;

verus! {

broadcast use crate::bytes_deep_is_view, crate::vec_deep_view_len, crate::vec_deep_view_index,
    crate::vec_deep_is_seq_deep, crate::seq_deep_push;

/// The resolved configuration: install base, build base, the arguments
/// forwarded to the build tool, the profile, and the manifest path.
#[derive(Debug)]
pub struct Args {
    pub install_base: Vec<u8>,
    pub build_base: Vec<u8>,
    pub forwarded_args: Vec<Vec<u8>>,
    pub profile: Vec<u8>,
    pub manifest_path: Vec<u8>,
}

/// Either the resolved configuration, or the wish for the usage text.
#[derive(Debug)]
pub enum ArgsOrHelp {
    Args(Args),
    Help,
}

/// The raw values the flag parser extracted, before resolution. The
/// `default_manifest` field carries the canonicalized default manifest
/// path, if one exists where the tool runs.
pub struct RawArgs {
    pub help: bool,
    pub release: bool,
    pub profile: Option<Vec<u8>>,
    pub target_dir: Option<Vec<u8>>,
    pub install_base: Option<Vec<u8>>,
    pub manifest_path: Option<Vec<u8>>,
    pub default_manifest: Option<Vec<u8>>,
    pub forwarded_args: Vec<Vec<u8>>,
}

/// The index of the first `--` among the arguments from `i` on, or a
/// negative number if there is none.
pub open spec fn first_separator_from(a: Seq<Seq<u8>>, i: int) -> int
    decreases a.len() - i,
{
    if i < 0 || i >= a.len() {
        -1
    } else if a[i] == "--".spec_bytes() {
        i
    } else {
        first_separator_from(a, i + 1)
    }
}

/// A copy of the arguments from `from` up to `to`.
fn clone_range(args: &Vec<Vec<u8>>, from: usize, to: usize) -> (r: Vec<Vec<u8>>)
    requires
        from <= to <= args@.len(),
    ensures
        r.deep_view() == args.deep_view().subrange(from as int, to as int),
{
    let mut out: Vec<Vec<u8>> = Vec::new();
    let mut i: usize = from;
    while i < to
        invariant
            from <= i <= to <= args@.len(),
            out@.len() == i - from,
            forall|k: int|
                0 <= k < out@.len() ==> #[trigger] out@[k].deep_view() == args.deep_view()[
                    from + k
                ],
        decreases to - i,
    {
        out.push(bytes_clone(&args[i]));
        proof {
            assert(args.deep_view()[i as int] == args@[i as int]@);
        }
        i = i + 1;
    }
    proof {
        crate::lemma_deep_pointwise(out, args.deep_view().subrange(from as int, to as int));
    }
    out
}

/// Splits the raw argument list at the first `--`: the first part, with the
/// separator itself removed but everything after it kept, goes to the flag
/// parser (so it still sees options that follow the separator); the second
/// part is forwarded verbatim to the build tool. Without a separator the
/// whole list goes to the flag parser and nothing is forwarded.
pub fn split_forwarded(args: Vec<Vec<u8>>) -> (r: (Vec<Vec<u8>>, Vec<Vec<u8>>))
    ensures
        first_separator_from(args.deep_view(), 0) < 0 ==> (r.0.deep_view() == args.deep_view()
            && r.1.deep_view() == Seq::<Seq<u8>>::empty()),
        first_separator_from(args.deep_view(), 0) >= 0 ==> {
            let d = first_separator_from(args.deep_view(), 0);
            &&& r.0.deep_view() == args.deep_view().subrange(0, d) + args.deep_view().subrange(
                d + 1,
                args.deep_view().len() as int,
            )
            &&& r.1.deep_view() == args.deep_view().subrange(d + 1, args.deep_view().len() as int)
        },
{
    let ghost av = args.deep_view();
    let sep = "--".as_bytes_vec();
    let mut i: usize = 0;
    let mut found: Option<usize> = None;
    while i < args.len()
        invariant
            0 <= i <= args.len(),
            av == args.deep_view(),
            sep@ == "--".spec_bytes(),
            found is None ==> first_separator_from(av, 0) == first_separator_from(av, i as int),
            found matches Some(d) ==> (d < args@.len() && first_separator_from(av, 0) == d),
        decreases args.len() - i,
    {
        if found.is_none() {
            proof {
                assert(av[i as int] == args@[i as int]@);
            }
            if crate::fs_tree::bytes_eq(&args[i], &sep) {
                found = Some(i);
            } else {
                proof {
                    assert(first_separator_from(av, i as int) == first_separator_from(av, i + 1));
                }
            }
        }
        i = i + 1;
    }
    match found {
        None => {
            let empty: Vec<Vec<u8>> = Vec::new();
            proof {
                assert(empty.deep_view() =~= Seq::<Seq<u8>>::empty());
            }
            (args, empty)
        },
        Some(d) => {
            let mut before = clone_range(&args, 0, d);
            let mut after = clone_range(&args, d + 1, args.len());
            let ghost bv = before.deep_view();
            let ghost tailv = after.deep_view();
            let fwd = clone_range(&args, d + 1, args.len());
            before.append(&mut after);
            proof {
                assert(before.deep_view() =~= bv + tailv);
            }
            (before, fwd)
        },
    }
}

impl ArgsOrHelp {
    /// Resolves the raw values: `--help` wins outright; the install base is
    /// required; the profile is `release` under `--release`, else the
    /// `--profile` value, else `debug`; the build base defaults to
    /// `target`; the manifest path falls back to the canonicalized default
    /// manifest, and fails if neither is there.
    pub fn parse(raw: RawArgs) -> (r: Result<ArgsOrHelp, InstallError>)
        ensures
            raw.help ==> (r matches Ok(a) && a is Help),
            !raw.help && raw.install_base is None ==> (r matches Err(e)
                && e is MissingInstallBase),
            !raw.help && raw.install_base is Some && raw.manifest_path is None
                && raw.default_manifest is None ==> (r matches Err(e) && e is ManifestNotFound),
            !raw.help && raw.install_base is Some && (raw.manifest_path is Some
                || raw.default_manifest is Some) ==> (r matches Ok(a) && a matches ArgsOrHelp::Args(
                args,
            ) && {
                &&& args.install_base@ == raw.install_base->0@
                &&& args.build_base@ == (match raw.target_dir {
                    Some(t) => t@,
                    None => "target".spec_bytes(),
                })
                &&& args.profile@ == (if raw.release {
                    "release".spec_bytes()
                } else {
                    match raw.profile {
                        Some(p) => p@,
                        None => "debug".spec_bytes(),
                    }
                })
                &&& args.manifest_path@ == (match raw.manifest_path {
                    Some(m) => m@,
                    None => raw.default_manifest->0@,
                })
                &&& args.forwarded_args.deep_view() == raw.forwarded_args.deep_view()
            }),
    {
        if raw.help {
            return Ok(ArgsOrHelp::Help);
        }
        let install_base = match raw.install_base {
            Some(ib) => ib,
            None => {
                return Err(InstallError::MissingInstallBase);
            },
        };
        let profile = if raw.release {
            "release".as_bytes_vec()
        } else {
            match raw.profile {
                Some(p) => p,
                None => "debug".as_bytes_vec(),
            }
        };
        let build_base = match raw.target_dir {
            Some(t) => t,
            None => "target".as_bytes_vec(),
        };
        let manifest_path = match raw.manifest_path {
            Some(m) => m,
            None => {
                match raw.default_manifest {
                    Some(dm) => dm,
                    None => {
                        return Err(InstallError::ManifestNotFound);
                    },
                }
            },
        };
        Ok(
            ArgsOrHelp::Args(
                Args {
                    install_base,
                    build_base,
                    forwarded_args: raw.forwarded_args,
                    profile,
                    manifest_path,
                },
            ),
        )
    }
}

} // verus!
