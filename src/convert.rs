//! Which decoded records of a local segment file reach its columnar file.
use vstd::prelude::*;

verus! {

/// The records that decoded, in order; a record that failed to decode is left out.
pub open spec fn decoded<T, E>(results: Seq<Result<T, E>>) -> Seq<T>
    decreases results.len(),
{
    if results.len() == 0 {
        Seq::empty()
    } else {
        let rest = decoded(results.drop_last());
        match results.last() {
            Ok(t) => rest.push(t),
            Err(_) => rest,
        }
    }
}

/// How many records failed to decode.
pub open spec fn failures<T, E>(results: Seq<Result<T, E>>) -> nat
    decreases results.len(),
{
    if results.len() == 0 {
        0
    } else {
        failures(results.drop_last()) + if results.last() is Err {
            1nat
        } else {
            0nat
        }
    }
}

/// Splits the outcome of decoding a segment file's records into the records that
/// decoded, in order, and the number of those that did not. A record that fails to
/// decode drops that record only.
pub fn keep_decoded<T, E>(results: Vec<Result<T, E>>) -> (r: (Vec<T>, usize))
    ensures
        r.0@ == decoded(results@),
        r.1 == failures(results@),
{
    let ghost all = results@;
    let n: usize = results.len();
    let mut pending = results;
    let mut reversed: Vec<Result<T, E>> = Vec::new();
    while pending.len() > 0
        invariant
            all == pending@ + reversed@.reverse(),
        decreases pending@.len(),
    {
        let ghost before = pending@;
        let x = pending.pop().unwrap();
        proof {
            assert(before == pending@.push(x));
        }
        reversed.push(x);
        assert(reversed@.reverse() =~= seq![x] + (reversed@.drop_last()).reverse());
        assert(all =~= pending@ + reversed@.reverse());
    }
    let mut kept: Vec<T> = Vec::new();
    let mut dropped: usize = 0;
    let ghost done: Seq<Result<T, E>> = Seq::empty();
    while reversed.len() > 0
        invariant
            all == done + reversed@.reverse(),
            kept@ == decoded(done),
            dropped == failures(done),
            all.len() == n,
            dropped <= done.len(),
        decreases reversed@.len(),
    {
        let ghost before = reversed@;
        let x = reversed.pop().unwrap();
        proof {
            assert(before == reversed@.push(x));
            assert(before.reverse() =~= seq![x] + reversed@.reverse());
            assert(done.push(x).drop_last() =~= done);
        }
        match x {
            Ok(t) => {
                kept.push(t);
            },
            Err(_) => {
                dropped = dropped + 1;
            },
        }
        proof {
            done = done.push(x);
            assert(all =~= done + reversed@.reverse());
        }
    }
    assert(done =~= all);
    (kept, dropped)
}

/// A malformed record among others is dropped alone: the records around it still
/// decode, in order, and the failures grow by one.
pub proof fn lemma_one_malformed_record<T, E>(a: Seq<Result<T, E>>, e: E, b: Seq<Result<T, E>>)
    ensures
        decoded(a + seq![Err(e)] + b) == decoded(a + b),
        failures(a + seq![Err(e)] + b) == failures(a + b) + 1,
    decreases b.len(),
{
    let bad: Result<T, E> = Err(e);
    if b.len() == 0 {
        assert(a + seq![bad] + b =~= a.push(bad));
        assert(a.push(bad).drop_last() =~= a);
        assert(a + b =~= a);
    } else {
        let b0 = b.drop_last();
        lemma_one_malformed_record(a, e, b0);
        assert((a + seq![bad] + b).drop_last() =~= a + seq![bad] + b0);
        assert((a + b).drop_last() =~= a + b0);
        assert((a + seq![bad] + b).last() == b.last());
        assert((a + b).last() == b.last());
    }
}

/// Records that all decode come through as they are.
pub proof fn lemma_all_decoded<T, E>(results: Seq<Result<T, E>>)
    requires
        forall|i: int| 0 <= i < results.len() ==> results[i] is Ok,
    ensures
        decoded(results) == results.map_values(|r: Result<T, E>| r->Ok_0),
        failures(results) == 0,
    decreases results.len(),
{
    if results.len() > 0 {
        let init = results.drop_last();
        lemma_all_decoded(init);
        assert(results.last() is Ok);
        assert(results.map_values(|r: Result<T, E>| r->Ok_0) =~= init.map_values(
            |r: Result<T, E>| r->Ok_0,
        ).push(results.last()->Ok_0));
    } else {
        assert(results.map_values(|r: Result<T, E>| r->Ok_0) =~= Seq::<T>::empty());
    }
}

} // verus!
