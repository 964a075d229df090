//! Spec helpers for sequences of success/error values, shared by the
//! chunk-buffering and flatten laws.

use vstd::prelude::*;

verus! {

/// The success payloads of a sequence of results, in order.
pub open spec fn oks_of<A, E>(s: Seq<Result<A, E>>) -> Seq<A>
    decreases s.len(),
{
    if s.len() == 0 {
        Seq::empty()
    } else {
        (match s[0] {
            Ok(a) => seq![a],
            Err(_) => Seq::empty(),
        }) + oks_of(s.skip(1))
    }
}

/// The error payloads of a sequence of results, in order.
pub open spec fn errs_of<A, E>(s: Seq<Result<A, E>>) -> Seq<E>
    decreases s.len(),
{
    if s.len() == 0 {
        Seq::empty()
    } else {
        (match s[0] {
            Ok(_) => Seq::empty(),
            Err(e) => seq![e],
        }) + errs_of(s.skip(1))
    }
}

/// Every element wrapped as a success, in order.
pub open spec fn all_ok<A, E>(s: Seq<A>) -> Seq<Result<A, E>>
    decreases s.len(),
{
    if s.len() == 0 {
        Seq::empty()
    } else {
        seq![Result::<A, E>::Ok(s[0])] + all_ok(s.skip(1))
    }
}

pub(crate) proof fn lemma_results_split_singleton<A, E>(x: Result<A, E>)
    ensures
        x matches Ok(a) ==> oks_of(seq![x]) == seq![a] && errs_of(seq![x]) == Seq::<E>::empty(),
        x matches Err(e) ==> oks_of(seq![x]) == Seq::<A>::empty() && errs_of(seq![x]) == seq![e],
{
    broadcast use {Seq::add_empty_left, Seq::add_empty_right};

    let s = seq![x];
    assert(s.skip(1) =~= Seq::<Result<A, E>>::empty());
    assert(oks_of(Seq::<Result<A, E>>::empty()) == Seq::<A>::empty());
    assert(errs_of(Seq::<Result<A, E>>::empty()) == Seq::<E>::empty());
    assert(s[0] == x);
    match x {
        Ok(a) => {
            assert(oks_of(s) =~= seq![a]);
            assert(errs_of(s) =~= Seq::<E>::empty());
        },
        Err(e) => {
            assert(oks_of(s) =~= Seq::<A>::empty());
            assert(errs_of(s) =~= seq![e]);
        },
    }
}

pub(crate) proof fn lemma_results_split_concat<A, E>(a: Seq<Result<A, E>>, b: Seq<Result<A, E>>)
    ensures
        oks_of(a + b) == oks_of(a) + oks_of(b),
        errs_of(a + b) == errs_of(a) + errs_of(b),
    decreases a.len(),
{
    broadcast use {Seq::add_empty_left, Seq::add_empty_right};

    if a.len() == 0 {
        assert(a + b =~= b);
    } else {
        assert((a + b)[0] == a[0]);
        assert((a + b).skip(1) =~= a.skip(1) + b);
        lemma_results_split_concat(a.skip(1), b);
        assert(oks_of(a + b) =~= oks_of(a) + oks_of(b));
        assert(errs_of(a + b) =~= errs_of(a) + errs_of(b));
    }
}

pub(crate) proof fn lemma_all_ok_split<A, E>(s: Seq<A>)
    ensures
        oks_of(all_ok::<A, E>(s)) == s,
        errs_of(all_ok::<A, E>(s)) == Seq::<E>::empty(),
    decreases s.len(),
{
    broadcast use {Seq::add_empty_left, Seq::add_empty_right};

    if s.len() == 0 {
    } else {
        lemma_all_ok_split::<A, E>(s.skip(1));
        lemma_results_split_singleton::<A, E>(Ok(s[0]));
        lemma_results_split_concat(
            seq![Result::<A, E>::Ok(s[0])],
            all_ok::<A, E>(s.skip(1)),
        );
        assert(oks_of(all_ok::<A, E>(s)) =~= s);
        assert(errs_of(all_ok::<A, E>(s)) =~= Seq::<E>::empty());
    }
}

} // verus!
