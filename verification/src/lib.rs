//! Install-layout synthesizer for an ament-style install space.
//!
//! The library computes, as verified pure functions over a model of the
//! filesystem, everything a package installer decides: which build artifacts
//! are copied where, which directories are wiped, which header trees are
//! merged, and the exact text of the generated build-integration config.
//! Plain byte strings stand for path segments and file contents; an
//! unverified shell around the library performs the actual I/O by executing
//! the plans computed here.

pub mod args;
pub mod artifact;
pub mod fs_tree;
pub mod meta;
pub mod package;
pub mod space;
pub mod text;

use vstd::prelude::*;

verus! {

/// The deep view of a byte string is its view.
pub broadcast proof fn bytes_deep_is_view(v: Vec<u8>)
    ensures
        #[trigger] v.deep_view() == v@,
{
    assert(v.deep_view() =~= v@);
}

/// The deep view of a vector is as long as the vector.
pub broadcast proof fn vec_deep_view_len<T: DeepView>(v: Vec<T>)
    ensures
        #[trigger] v.deep_view().len() == v@.len(),
{
}

/// The deep view of a vector is the element-wise deep view.
pub broadcast proof fn vec_deep_view_index<T: DeepView>(v: Vec<T>, i: int)
    requires
        0 <= i < v@.len(),
    ensures
        #[trigger] v.deep_view()[i] == v@[i].deep_view(),
{
}

/// The element-wise deep view of a sequence.
pub open spec fn seq_deep<T: DeepView>(s: Seq<T>) -> Seq<T::V> {
    Seq::new(s.len(), |i: int| s[i].deep_view())
}

/// The deep view of a vector is the element-wise deep view of its view.
pub broadcast proof fn vec_deep_is_seq_deep<T: DeepView>(v: Vec<T>)
    ensures
        #[trigger] v.deep_view() == seq_deep(v@),
{
    assert(v.deep_view() =~= seq_deep(v@));
}

/// Element-wise deep view commutes with `push`.
pub broadcast proof fn seq_deep_push<T: DeepView>(s: Seq<T>, x: T)
    ensures
        #[trigger] seq_deep(s.push(x)) == seq_deep(s).push(x.deep_view()),
{
    assert(seq_deep(s.push(x)) =~= seq_deep(s).push(x.deep_view()));
}

/// A vector whose elements deep-view to `t`, element by element, deep-views
/// to `t` as a whole.
pub proof fn lemma_deep_pointwise<T: DeepView>(v: Vec<T>, t: Seq<T::V>)
    requires
        v@.len() == t.len(),
        forall|k: int| 0 <= k < t.len() ==> #[trigger] v@[k].deep_view() == t[k],
    ensures
        v.deep_view() == t,
{
    assert forall|k: int| 0 <= k < t.len() implies v.deep_view()[k] == t[k] by {
        assert(v.deep_view()[k] == v@[k].deep_view());
    }
    assert(v.deep_view() =~= t);
}

/// Every way an install step can fail, with the data the message needs.
#[derive(Debug, PartialEq, Eq)]
pub enum InstallError {
    /// A declared binary has no name.
    BinaryWithoutName,
    /// A declared binary is not present in the build output.
    MissingBinary { name: Vec<u8> },
    /// The build-script field of the descriptor is neither absent, `false`,
    /// nor a path.
    InvalidBuildField,
    /// A metadata install key is present but its value is not an array.
    NotAnArray { key: Vec<u8> },
    /// A metadata install array holds a non-string element.
    NonStringEntry { key: Vec<u8> },
    /// A copy source is neither an existing file nor a directory.
    SourceMissing { path: Vec<Vec<u8>> },
    /// The required install-base argument is absent.
    MissingInstallBase,
    /// No manifest path was given and the default manifest does not exist.
    ManifestNotFound,
}

} // verus!
