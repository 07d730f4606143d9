//! What holds of the chain across several demands and polls.
use vstd::prelude::*;

use crate::demand::{after_take, looked_up, ref_request, taken, value_request, TypeKey};
use crate::provider::{spent_frame, Frame};
use crate::waker::{lemma_nearest_is, lemma_nearest_none, nearest, only_consumed};

verus! {

/// No link of `chain` holds an owned value under `key` that is still there.
pub open spec fn no_value_left<'a, V>(chain: Seq<Frame<'a, V>>, key: TypeKey) -> bool {
    forall|i: int| 0 <= i < chain.len() ==> !(#[trigger] chain[i]).answers(value_request(key))
}

/// No link of `chain` lends a borrow under `key`.
pub open spec fn no_ref_lent<'a, V>(chain: Seq<Frame<'a, V>>, key: TypeKey) -> bool {
    forall|i: int| 0 <= i < chain.len() ==> !(#[trigger] chain[i]).answers(ref_request(key))
}

/// A computation polled under `provide_ref(key, v)`, with no nearer borrow under
/// `key` lent in between, sees `v`: whatever links lie further out, and
/// whatever links of other kinds lie between.
pub proof fn lemma_lent_ref_seen<'a, V>(
    outer: Seq<Frame<'a, V>>,
    key: TypeKey,
    v: &'a V,
    between: Seq<Frame<'a, V>>,
)
    requires
        no_ref_lent(between, key),
    ensures
        looked_up(outer.push(Frame::by_ref_spec(key, v)) + between, key) == Some(v),
{
    let c = outer.push(Frame::by_ref_spec(key, v)) + between;
    let j = outer.len() as int;
    assert(c[j] == Frame::by_ref_spec(key, v));
    assert forall|k: int| j < k < c.len() implies !(#[trigger] c[k]).answers(ref_request(key)) by {
        assert(c[k] == between[k - j - 1]);
    }
    lemma_nearest_is(c, ref_request(key), j);
}

/// Of two borrows lent under one key, the inner one shadows the outer one.
pub proof fn lemma_inner_ref_shadows<'a, V>(
    outer: Seq<Frame<'a, V>>,
    key: TypeKey,
    first: &'a V,
    second: &'a V,
    between: Seq<Frame<'a, V>>,
)
    requires
        no_ref_lent(between, key),
    ensures
        looked_up(
            outer.push(Frame::by_ref_spec(key, first)).push(Frame::by_ref_spec(key, second))
                + between,
            key,
        ) == Some(second),
{
    lemma_lent_ref_seen(outer.push(Frame::by_ref_spec(key, first)), key, second, between);
}

/// Where nothing is lent under `key`, neither a borrow nor a value is found
/// under it.
pub proof fn lemma_nothing_lent<'a, V>(chain: Seq<Frame<'a, V>>, key: TypeKey)
    requires
        forall|i: int| 0 <= i < chain.len() ==> (#[trigger] chain[i]).key != key,
    ensures
        looked_up(chain, key) is None,
        taken(chain, key) is None,
        after_take(chain, key) == chain,
{
    lemma_nearest_none(chain, ref_request::<V>(key));
    lemma_nearest_none(chain, value_request::<V>(key));
}

/// Taking from a chain with no value left under `key` finds nothing and
/// changes nothing.
pub proof fn lemma_take_from_empty<'a, V>(chain: Seq<Frame<'a, V>>, key: TypeKey)
    requires
        no_value_left(chain, key),
    ensures
        taken(chain, key) is None,
        after_take(chain, key) == chain,
{
    lemma_nearest_none(chain, value_request::<V>(key));
}

/// A chain whose links, from `from` on, hold no value under `key`, answers a
/// take from the link at `from - 1` if that one still holds its value.
proof fn lemma_take_at<'a, V>(c: Seq<Frame<'a, V>>, key: TypeKey, j: int, x: V)
    requires
        0 <= j < c.len(),
        c[j] == Frame::<'a, V>::by_value_spec(key, x),
        forall|k: int| j < k < c.len() ==> !(#[trigger] c[k]).answers(value_request(key)),
    ensures
        taken(c, key) == Some(x),
        after_take(c, key) == c.update(j, spent_frame(c[j])),
{
    lemma_nearest_is(c, value_request(key), j);
}

/// A value lent with `provide_value` is taken exactly once: the first take
/// under its wrapper gets it, and every later take, from the same chain or
/// from one that reaches further in, finds nothing.
pub proof fn lemma_value_taken_once<'a, V>(
    outer: Seq<Frame<'a, V>>,
    key: TypeKey,
    v: V,
    between: Seq<Frame<'a, V>>,
    later: Seq<Frame<'a, V>>,
)
    requires
        no_value_left(outer, key),
        no_value_left(between, key),
        no_value_left(later, key),
    ensures
        taken(outer.push(Frame::by_value_spec(key, v)) + between, key) == Some(v),
        taken(after_take(outer.push(Frame::by_value_spec(key, v)) + between, key) + later, key)
            is None,
{
    let c = outer.push(Frame::by_value_spec(key, v)) + between;
    let j = outer.len() as int;
    assert(c[j] == Frame::by_value_spec(key, v));
    assert forall|k: int| j < k < c.len() implies !(#[trigger] c[k]).answers(value_request(key)) by {
        assert(c[k] == between[k - j - 1]);
    }
    lemma_take_at(c, key, j, v);
    let c2 = after_take(c, key) + later;
    assert forall|k: int| 0 <= k < c2.len() implies !(#[trigger] c2[k]).answers(value_request(key)) by {
        if k < j {
            assert(c2[k] == outer[k]);
        } else if k == j {
            assert(c2[k] == spent_frame(c[j]));
        } else if k < c.len() {
            assert(c2[k] == between[k - j - 1]);
        } else {
            assert(c2[k] == later[k - c.len()]);
        }
    }
    lemma_take_from_empty(c2, key);
}

/// A link whose owned value has been taken stays empty: lending it to a later
/// poll, or spending it again, changes nothing, and it answers no demand for
/// a value.
pub proof fn lemma_taken_value_stays_gone<'a, V>(f: Frame<'a, V>, key: TypeKey)
    requires
        f.provision is Value,
    ensures
        spent_frame(spent_frame(f)) == spent_frame(f),
        !spent_frame(f).answers(value_request(key)),
{
}

/// Values lent under one key by nested wrappers are taken nearest first: the
/// inner one, then the outer one, then nothing.
pub proof fn lemma_values_taken_nearest_first<'a, V>(
    outer: Seq<Frame<'a, V>>,
    key: TypeKey,
    first: V,
    second: V,
    between: Seq<Frame<'a, V>>,
)
    requires
        no_value_left(outer, key),
        no_value_left(between, key),
    ensures
        ({
            let c0 = outer.push(Frame::by_value_spec(key, first)).push(
                Frame::by_value_spec(key, second),
            ) + between;
            let c1 = after_take(c0, key);
            let c2 = after_take(c1, key);
            &&& taken(c0, key) == Some(second)
            &&& taken(c1, key) == Some(first)
            &&& taken(c2, key) is None
        }),
{
    let c0 = outer.push(Frame::by_value_spec(key, first)).push(Frame::by_value_spec(key, second))
        + between;
    let j = outer.len() as int;
    assert(c0[j + 1] == Frame::by_value_spec(key, second));
    assert forall|k: int| j + 1 < k < c0.len() implies !(#[trigger] c0[k]).answers(
        value_request(key),
    ) by {
        assert(c0[k] == between[k - j - 2]);
    }
    lemma_take_at(c0, key, j + 1, second);
    let c1 = after_take(c0, key);
    assert(c1[j] == Frame::by_value_spec(key, first));
    assert forall|k: int| j < k < c1.len() implies !(#[trigger] c1[k]).answers(value_request(key)) by {
        if k > j + 1 {
            assert(c1[k] == between[k - j - 2]);
        }
    }
    lemma_take_at(c1, key, j, first);
    let c2 = after_take(c1, key);
    assert forall|k: int| 0 <= k < c2.len() implies !(#[trigger] c2[k]).answers(value_request(key)) by {
        if k < j {
            assert(c2[k] == outer[k]);
        } else if k > j + 1 {
            assert(c2[k] == between[k - j - 2]);
        }
    }
    lemma_take_from_empty(c2, key);
}

/// A poll that hands the chain back as its contract says leaves every
/// borrow where it was: any computation polled afterwards sees, under every
/// key, what it would have seen before.
pub proof fn lemma_poll_keeps_borrows<'a, V>(
    before: Seq<Frame<'a, V>>,
    after: Seq<Frame<'a, V>>,
    key: TypeKey,
)
    requires
        only_consumed(before, after),
    ensures
        looked_up(after, key) == looked_up(before, key),
{
    let d = ref_request::<V>(key);
    assert forall|i: int| 0 <= i < before.len() implies #[trigger] after[i].answers(d)
        == before[i].answers(d) && (after[i].answers(d) ==> after[i] == before[i]) by {
        if after[i] != before[i] {
            assert(after[i] == spent_frame(before[i]));
        }
    }
    let n = nearest(before, d);
    if n >= 0 {
        crate::waker::lemma_nearest_bounds(before, d);
        assert forall|k: int| n < k < after.len() implies !(#[trigger] after[k]).answers(d) by {
            assert(!before[k].answers(d));
        }
        lemma_nearest_is(after, d, n);
    } else {
        crate::waker::lemma_nearest_bounds(before, d);
        assert forall|k: int| 0 <= k < after.len() implies !(#[trigger] after[k]).answers(d) by {
            assert(!before[k].answers(d));
        }
        lemma_nearest_none(after, d);
    }
}

} // verus!
