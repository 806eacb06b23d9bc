//! Byte-string building blocks: concatenation, joining, and literal
//! replacement of a token inside a text, as the config generator uses them.

use vstd::prelude::*;

verus! {

broadcast use crate::bytes_deep_is_view, crate::vec_deep_view_len, crate::vec_deep_view_index;

/// `text` with every occurrence of `pat` replaced by `sub`, scanning left to
/// right without overlap. An empty `pat` leaves the text unchanged.
pub open spec fn replace_sp(text: Seq<u8>, pat: Seq<u8>, sub: Seq<u8>) -> Seq<u8>
    decreases text.len(),
{
    if pat.len() == 0 || text.len() < pat.len() {
        text
    } else if text.subrange(0, pat.len() as int) == pat {
        sub + replace_sp(text.skip(pat.len() as int), pat, sub)
    } else {
        seq![text[0]] + replace_sp(text.skip(1), pat, sub)
    }
}

/// The first `i` items joined by a single separator byte.
pub open spec fn join_upto(items: Seq<Seq<u8>>, sep: u8, i: int) -> Seq<u8>
    decreases i,
{
    if i <= 0 {
        Seq::empty()
    } else if i == 1 {
        items[0]
    } else {
        join_upto(items, sep, i - 1) + seq![sep] + items[i - 1]
    }
}

/// All items joined by a single separator byte.
pub open spec fn joined(items: Seq<Seq<u8>>, sep: u8) -> Seq<u8> {
    join_upto(items, sep, items.len() as int)
}

/// Appends a byte string to another.
pub fn append_bytes(dst: &mut Vec<u8>, src: &Vec<u8>)
    ensures
        final(dst)@ == old(dst)@ + src@,
{
    let mut i: usize = 0;
    while i < src.len()
        invariant
            0 <= i <= src.len(),
            dst@ =~= old(dst)@ + src@.subrange(0, i as int),
        decreases src.len() - i,
    {
        dst.push(src[i]);
        i = i + 1;
    }
    proof {
        assert(dst@ =~= old(dst)@ + src@);
    }
}

/// The concatenation of two byte strings.
pub fn bytes_concat(a: &Vec<u8>, b: &Vec<u8>) -> (r: Vec<u8>)
    ensures
        r@ == a@ + b@,
{
    let mut out = crate::fs_tree::bytes_clone(a);
    append_bytes(&mut out, b);
    out
}

/// The items joined by the separator byte, in order.
pub fn join_bytes(items: &Vec<Vec<u8>>, sep: u8) -> (r: Vec<u8>)
    ensures
        r@ == joined(items.deep_view(), sep),
{
    let ghost its = items.deep_view();
    let mut out: Vec<u8> = Vec::new();
    let mut i: usize = 0;
    while i < items.len()
        invariant
            0 <= i <= items.len(),
            its == items.deep_view(),
            out@ == join_upto(its, sep, i as int),
        decreases items.len() - i,
    {
        if i > 0 {
            out.push(sep);
        }
        append_bytes(&mut out, &items[i]);
        proof {
            if i == 0 {
                assert(out@ =~= join_upto(its, sep, 1));
            } else {
                assert(out@ =~= join_upto(its, sep, i as int) + seq![sep] + its[i as int]);
            }
        }
        i = i + 1;
    }
    out
}

/// Whether `pat` stands in `text` at position `i`.
fn window_eq(text: &Vec<u8>, pat: &Vec<u8>, i: usize) -> (r: bool)
    requires
        i + pat@.len() <= text@.len(),
    ensures
        r == (text@.subrange(i as int, i as int + pat@.len()) == pat@),
{
    let tlen = text.len();
    let mut k: usize = 0;
    while k < pat.len()
        invariant
            0 <= k <= pat.len(),
            i + pat@.len() <= text@.len(),
            tlen == text@.len(),
            forall|m: int| 0 <= m < k ==> text@[i + m] == pat@[m],
        decreases pat.len() - k,
    {
        if text[i + k] != pat[k] {
            proof {
                assert(text@.subrange(i as int, i as int + pat@.len())[k as int] != pat@[
                    k as int
                ]);
            }
            return false;
        }
        k = k + 1;
    }
    proof {
        assert(text@.subrange(i as int, i as int + pat@.len()) =~= pat@);
    }
    true
}

/// `text` with every occurrence of `pat` replaced by `sub`, scanning left
/// to right without overlap.
pub fn replace_all(text: &Vec<u8>, pat: &Vec<u8>, sub: &Vec<u8>) -> (r: Vec<u8>)
    ensures
        r@ == replace_sp(text@, pat@, sub@),
{
    if pat.len() == 0 {
        return crate::fs_tree::bytes_clone(text);
    }
    let mut out: Vec<u8> = Vec::new();
    let mut i: usize = 0;
    proof {
        assert(text@.skip(0) =~= text@);
        assert(Seq::<u8>::empty() + replace_sp(text@, pat@, sub@) =~= replace_sp(
            text@,
            pat@,
            sub@,
        ));
    }
    while i < text.len()
        invariant
            0 <= i <= text.len(),
            pat@.len() > 0,
            replace_sp(text@, pat@, sub@) == out@ + replace_sp(
                text@.skip(i as int),
                pat@,
                sub@,
            ),
        decreases text.len() - i,
    {
        let mut matches_here = false;
        if pat.len() <= text.len() - i {
            matches_here = window_eq(text, pat, i);
            proof {
                assert(text@.skip(i as int).subrange(0, pat@.len() as int) =~= text@.subrange(
                    i as int,
                    i as int + pat@.len(),
                ));
            }
        }
        if matches_here {
            append_bytes(&mut out, sub);
            proof {
                assert(replace_sp(text@.skip(i as int), pat@, sub@) == sub@ + replace_sp(
                    text@.skip(i as int).skip(pat@.len() as int),
                    pat@,
                    sub@,
                ));
                assert(text@.skip(i as int).skip(pat@.len() as int) =~= text@.skip(
                    i as int + pat@.len(),
                ));
            }
            i = i + pat.len();
        } else {
            out.push(text[i]);
            proof {
                let rest = text@.skip(i as int);
                if rest.len() >= pat@.len() {
                    assert(rest.subrange(0, pat@.len() as int) != pat@);
                } else {
                    assert(rest =~= seq![rest[0]] + rest.skip(1));
                }
                assert(rest[0] == text@[i as int]);
                assert(rest.skip(1) =~= text@.skip(i as int + 1));
                assert(replace_sp(rest, pat@, sub@) == seq![text@[i as int]] + replace_sp(
                    text@.skip(i as int + 1),
                    pat@,
                    sub@,
                ));
            }
            i = i + 1;
        }
    }
    proof {
        assert(text@.skip(text@.len() as int) =~= Seq::<u8>::empty());
        assert(out@ =~= replace_sp(text@, pat@, sub@));
    }
    out
}

} // verus!
