//! Ordering of rows. Every listing order of the book is a lexicographic order
//! on a flat key of integers: text turns into its code points (each plus one,
//! followed by a zero, so that a prefix sorts first), numbers stand for
//! themselves. Comparing code points orders text exactly as comparing its
//! UTF-8 bytes does, which is how the stock book's text columns compare.

use vstd::prelude::*;
use vstd::string::*;
use vstd::seq_lib::*;
use vstd::multiset::*;
use crate::text::chars_of;

verus! {

broadcast use vstd::seq_lib::group_to_multiset_ensures;

/// Lexicographic order on integer sequences: a prefix comes first.
pub open spec fn lex_le(a: Seq<i64>, b: Seq<i64>) -> bool
    decreases a.len(),
{
    if a.len() == 0 {
        true
    } else if b.len() == 0 {
        false
    } else if a[0] != b[0] {
        a[0] < b[0]
    } else {
        lex_le(a.drop_first(), b.drop_first())
    }
}

/// Key part for text in ascending order.
pub open spec fn text_key(s: Seq<char>) -> Seq<i64> {
    s.map_values(|c: char| (c as u32 + 1) as i64) + seq![0i64]
}

/// Key part for text in descending order: each code point is mirrored and
/// the end marker is larger than every mirrored code point, so that a
/// longer text comes before its prefix.
pub open spec fn text_key_desc(s: Seq<char>) -> Seq<i64> {
    s.map_values(|c: char| (0x110000 - c as u32) as i64) + seq![0x110001i64]
}

/// Key for listing named rows: by name, then by id.
pub open spec fn name_key(name: Seq<char>, id: i64) -> Seq<i64> {
    text_key(name) + seq![id]
}

/// `s` is in nondecreasing order of `key`.
pub open spec fn sorted_by_key<T>(s: Seq<T>, key: spec_fn(T) -> Seq<i64>) -> bool {
    forall|i: int, j: int| 0 <= i < j < s.len() ==> lex_le(key(s[i]), key(s[j]))
}

pub proof fn lemma_lex_refl(a: Seq<i64>)
    ensures
        lex_le(a, a),
    decreases a.len(),
{
    if a.len() > 0 {
        lemma_lex_refl(a.drop_first());
    }
}

pub proof fn lemma_lex_total(a: Seq<i64>, b: Seq<i64>)
    ensures
        lex_le(a, b) || lex_le(b, a),
    decreases a.len(),
{
    if a.len() > 0 && b.len() > 0 && a[0] == b[0] {
        lemma_lex_total(a.drop_first(), b.drop_first());
    }
}

pub proof fn lemma_lex_trans(a: Seq<i64>, b: Seq<i64>, c: Seq<i64>)
    requires
        lex_le(a, b),
        lex_le(b, c),
    ensures
        lex_le(a, c),
    decreases a.len(),
{
    if a.len() > 0 && b.len() > 0 && c.len() > 0 && a[0] == b[0] && b[0] == c[0] {
        lemma_lex_trans(a.drop_first(), b.drop_first(), c.drop_first());
    }
}

pub proof fn lemma_lex_antisym(a: Seq<i64>, b: Seq<i64>)
    requires
        lex_le(a, b),
        lex_le(b, a),
    ensures
        a == b,
    decreases a.len(),
{
    if a.len() > 0 && b.len() > 0 {
        lemma_lex_antisym(a.drop_first(), b.drop_first());
        assert(a =~= seq![a[0]] + a.drop_first());
        assert(b =~= seq![b[0]] + b.drop_first());
    } else {
        assert(a.len() == 0 && b.len() == 0);
        assert(a =~= b);
    }
}

/// Exec comparison for `lex_le`.
pub fn key_le(a: &Vec<i64>, b: &Vec<i64>) -> (r: bool)
    ensures
        r == lex_le(a@, b@),
{
    let mut i: usize = 0;
    assert(a@.skip(0) =~= a@);
    assert(b@.skip(0) =~= b@);
    loop
        invariant
            i <= a.len(),
            i <= b.len(),
            lex_le(a@, b@) == lex_le(a@.skip(i as int), b@.skip(i as int)),
        decreases a.len() - i,
    {
        if i == a.len() {
            return true;
        }
        if i == b.len() {
            return false;
        }
        if a[i] != b[i] {
            return a[i] < b[i];
        }
        assert(a@.skip(i as int).drop_first() =~= a@.skip(i + 1));
        assert(b@.skip(i as int).drop_first() =~= b@.skip(i + 1));
        i = i + 1;
    }
}

/// Appends the ascending key part of `s` to `key`.
pub fn push_text_key(key: &mut Vec<i64>, s: &str)
    ensures
        final(key)@ == old(key)@ + text_key(s@),
{
    let cs = chars_of(s);
    let mut i: usize = 0;
    let ghost start = key@;
    while i < cs.len()
        invariant
            cs@ == s@,
            i <= cs.len(),
            key@ == start + s@.take(i as int).map_values(|c: char| (c as u32 + 1) as i64),
        decreases cs.len() - i,
    {
        let c = cs[i];
        let code: u32 = c as u32;
        key.push(code as i64 + 1);
        proof {
            assert(s@[i as int] == c);
        }
        i = i + 1;
        assert(key@ =~= start + s@.take(i as int).map_values(|c: char| (c as u32 + 1) as i64));
    }
    key.push(0);
    assert(s@.take(s@.len() as int) =~= s@);
    assert(key@ =~= start + text_key(s@));
}

/// Appends the descending key part of `s` to `key`.
pub fn push_text_key_desc(key: &mut Vec<i64>, s: &str)
    ensures
        final(key)@ == old(key)@ + text_key_desc(s@),
{
    let cs = chars_of(s);
    let mut i: usize = 0;
    let ghost start = key@;
    while i < cs.len()
        invariant
            cs@ == s@,
            i <= cs.len(),
            key@ == start + s@.take(i as int).map_values(|c: char| (0x110000 - c as u32) as i64),
        decreases cs.len() - i,
    {
        let c = cs[i];
        let code: u32 = c as u32;
        key.push(0x110000 - code as i64);
        proof {
            assert(s@[i as int] == c);
        }
        i = i + 1;
        assert(key@ =~= start + s@.take(i as int).map_values(
            |c: char| (0x110000 - c as u32) as i64,
        ));
    }
    key.push(0x110001);
    assert(s@.take(s@.len() as int) =~= s@);
    assert(key@ =~= start + text_key_desc(s@));
}

/// Sorts `items` by their keys; `keys[i]` is the key of `items[i]`.
pub(crate) fn sort_by_keys<T>(
    items: Vec<T>,
    keys: Vec<Vec<i64>>,
    Ghost(kf): Ghost<spec_fn(T) -> Seq<i64>>,
) -> (r: Vec<T>)
    requires
        items.len() == keys.len(),
        forall|i: int| 0 <= i < items.len() ==> (#[trigger] keys@[i])@ == kf(items@[i]),
    ensures
        r@.to_multiset() == items@.to_multiset(),
        sorted_by_key(r@, kf),
{
    let ghost orig = items@;
    let mut rest = items;
    let mut rest_keys = keys;
    let mut out: Vec<T> = Vec::new();
    let mut out_keys: Vec<Vec<i64>> = Vec::new();
    while rest.len() > 0
        invariant
            rest.len() == rest_keys.len(),
            forall|i: int| 0 <= i < rest.len() ==> (#[trigger] rest_keys@[i])@ == kf(rest@[i]),
            out.len() == out_keys.len(),
            forall|i: int| 0 <= i < out.len() ==> (#[trigger] out_keys@[i])@ == kf(out@[i]),
            rest@.to_multiset().add(out@.to_multiset()) == orig.to_multiset(),
            sorted_by_key(out@, kf),
        decreases rest.len(),
    {
        let ghost before = rest@;
        let ghost before_keys = rest_keys@;
        let x = rest.pop().unwrap();
        let kx = rest_keys.pop().unwrap();
        proof {
            assert(before =~= rest@.push(x));
            assert(kx@ == kf(x)) by {
                assert(before_keys[before_keys.len() - 1] == kx);
            }
            assert forall|i: int| 0 <= i < rest.len() implies (#[trigger] rest_keys@[i])@ == kf(
                rest@[i],
            ) by {
                assert(rest_keys@[i] == before_keys[i]);
                assert(rest@[i] == before[i]);
            }
        }
        let mut p: usize = 0;
        while p < out.len() && key_le(&out_keys[p], &kx)
            invariant
                p <= out.len(),
                out.len() == out_keys.len(),
                forall|i: int| 0 <= i < out.len() ==> (#[trigger] out_keys@[i])@ == kf(out@[i]),
                kx@ == kf(x),
                forall|q: int| 0 <= q < p ==> lex_le(kf(#[trigger] out@[q]), kf(x)),
            decreases out.len() - p,
        {
            p = p + 1;
        }
        proof {
            if p < out.len() {
                assert(!lex_le(kf(out@[p as int]), kf(x)));
                lemma_lex_total(kf(out@[p as int]), kf(x));
                assert forall|q: int| p <= q < out.len() implies lex_le(
                    kf(x),
                    kf(#[trigger] out@[q]),
                ) by {
                    if q > p {
                        lemma_lex_trans(kf(x), kf(out@[p as int]), kf(out@[q]));
                    }
                }
            }
        }
        let ghost old_out = out@;
        let ghost old_out_keys = out_keys@;
        out.insert(p, x);
        out_keys.insert(p, kx);
        proof {
            assert(out@ == old_out.insert(p as int, x));
            to_multiset_insert(old_out, p as int, x);
            to_multiset_build(rest@, x);
            assert(rest@.to_multiset().add(out@.to_multiset()) =~= orig.to_multiset());
            assert forall|i: int| 0 <= i < out.len() implies (#[trigger] out_keys@[i])@ == kf(
                out@[i],
            ) by {
                if i < p {
                    assert(out_keys@[i] == old_out_keys[i]);
                    assert(out@[i] == old_out[i]);
                } else if i > p {
                    assert(out_keys@[i] == old_out_keys[i - 1]);
                    assert(out@[i] == old_out[i - 1]);
                }
            }
            assert forall|i: int, j: int| 0 <= i < j < out@.len() implies lex_le(
                kf(out@[i]),
                kf(out@[j]),
            ) by {
                if j < p {
                } else if i < p && j == p {
                } else if i < p && j > p {
                    assert(out@[j] == old_out[j - 1]);
                } else if i == p {
                    assert(out@[j] == old_out[j - 1]);
                } else {
                    assert(out@[i] == old_out[i - 1]);
                    assert(out@[j] == old_out[j - 1]);
                }
            }
        }
    }
    proof {
        assert(rest@ =~= Seq::<T>::empty());
        assert(rest@.to_multiset() =~= Multiset::<T>::empty());
        assert(out@.to_multiset() =~= Multiset::<T>::empty().add(out@.to_multiset()));
    }
    out
}

} // verus!
