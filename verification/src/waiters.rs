//! Waiters that are answered over one-shot channels.

use crate::util::reversed;
use crate::vfs::Delivery;
use futures::channel::oneshot::Sender;
use std::sync::Arc;
use vstd::prelude::*;

verus! {

/// The sending half of a one-shot channel of the futures crate. A value of
/// it is only carried to the call that sends through it.
#[verifier::external_type_specification]
#[verifier::external_body]
#[verifier::reject_recursive_types(T)]
pub struct ExSender<T>(Sender<T>);

/// `futures::channel::oneshot::Sender::send`: hands `t` to the receiving
/// half of the channel and uses the sender up. Whether the receiver is still
/// there decides between `Ok` and `Err`, so nothing is claimed of that; the
/// contract claims only that a value that could not be sent comes back as
/// it went in.
#[verifier::external_body]
fn send<T>(s: Sender<T>, t: T) -> (r: Result<(), T>)
    ensures
        r matches Err(back) ==> back == t,
{
    s.send(t)
}

/// The answer of a delivery.
pub open spec fn answer_of<V, W>(d: Delivery<V, W>) -> (u64, Arc<V>) {
    (d.hash, d.env)
}

/// `a` is the answer of one of the deliveries `ds`.
pub open spec fn among<V, W>(ds: Seq<Delivery<V, W>>, a: (u64, Arc<V>)) -> bool {
    exists|j: int| 0 <= j < ds.len() && a == answer_of(#[trigger] ds[j])
}

/// Sends each answer to its waiter, in order. A waiter that has gone away
/// does not stop the others. Returns the answers that found nobody: what
/// [`unanswered`] keeps of the outcomes of the sends, where the send to a
/// waiter either went through or gave back the answer of that waiter's
/// delivery. So each of them is the answer of one of the deliveries, they
/// stand in the order of the deliveries, and without deliveries there is
/// none.
pub fn answer_all<V>(deliveries: Vec<Delivery<V, Sender<(u64, Arc<V>)>>>) -> (missed: Vec<
    (u64, Arc<V>),
>)
    ensures
        exists|outcomes: Seq<Result<(), (u64, Arc<V>)>>| #[trigger]
            sent(deliveries@, outcomes) && missed@ == unanswered_of(outcomes),
        missed@.len() <= deliveries@.len(),
        forall|i: int| 0 <= i < missed@.len() ==> among(deliveries@, #[trigger] missed@[i]),
{
    let ghost all = deliveries@;
    let mut rest = reversed(deliveries);
    let mut outcomes: Vec<Result<(), (u64, Arc<V>)>> = Vec::new();
    while rest.len() > 0
        invariant
            rest@.len() <= all.len(),
            forall|j: int| 0 <= j < rest@.len() ==> rest@[j] == all[all.len() - 1 - j],
            outcomes@.len() == all.len() - rest@.len(),
            forall|i: int|
                0 <= i < outcomes@.len() ==> ((#[trigger] outcomes@[i]) matches Err(back)
                    ==> back == answer_of(all[i])),
        decreases rest.len(),
    {
        let ghost k = all.len() - rest@.len();
        let d = rest.pop().unwrap();
        assert(d == all[k]);
        let Delivery { waiter, hash, env } = d;
        outcomes.push(send(waiter, (hash, env)));
    }
    proof {
        assert(sent(all, outcomes@));
        lemma_unanswered_among(all, outcomes@, outcomes@.len() as int);
        assert(outcomes@.take(outcomes@.len() as int) =~= outcomes@);
    }
    unanswered(outcomes)
}

/// `outcomes` can be what the sends of the answers of `ds` gave, one for
/// each delivery and in their order: a send that failed gave back the
/// answer of its delivery.
pub open spec fn sent<V, W>(ds: Seq<Delivery<V, W>>, outcomes: Seq<Result<(), (u64, Arc<V>)>>) -> bool {
    &&& outcomes.len() == ds.len()
    &&& forall|i: int|
        0 <= i < outcomes.len() ==> ((#[trigger] outcomes[i]) matches Err(back) ==> back
            == answer_of(ds[i]))
}

/// What came back from the sends that failed, in order.
pub open spec fn unanswered_of<T>(outcomes: Seq<Result<(), T>>) -> Seq<T>
    decreases outcomes.len(),
{
    if outcomes.len() == 0 {
        Seq::empty()
    } else {
        match outcomes.last() {
            Ok(_) => unanswered_of(outcomes.drop_last()),
            Err(back) => unanswered_of(outcomes.drop_last()).push(back),
        }
    }
}

/// What came back from the sends that failed is no more than what was
/// sent, and each item of it is the answer of one of the deliveries.
pub proof fn lemma_unanswered_among<V, W>(
    ds: Seq<Delivery<V, W>>,
    outcomes: Seq<Result<(), (u64, Arc<V>)>>,
    n: int,
)
    requires
        sent(ds, outcomes),
        0 <= n <= outcomes.len(),
    ensures
        unanswered_of(outcomes.take(n)).len() <= n,
        forall|i: int|
            0 <= i < unanswered_of(outcomes.take(n)).len() ==> among(
                ds,
                #[trigger] unanswered_of(outcomes.take(n))[i],
            ),
    decreases n,
{
    if n > 0 {
        lemma_unanswered_among(ds, outcomes, n - 1);
        assert(outcomes.take(n).drop_last() =~= outcomes.take(n - 1));
        assert(outcomes.take(n).last() == outcomes[n - 1]);
        let before = unanswered_of(outcomes.take(n - 1));
        let now = unanswered_of(outcomes.take(n));
        assert forall|i: int| 0 <= i < now.len() implies among(ds, #[trigger] now[i]) by {
            if i < before.len() {
                assert(now[i] == before[i]);
            } else {
                assert(now[i] == answer_of(ds[n - 1]));
            }
        }
    }
}

/// What came back from the sends that failed, in order: the value of each
/// `Err` of `outcomes`.
pub fn unanswered<T>(outcomes: Vec<Result<(), T>>) -> (missed: Vec<T>)
    ensures
        missed@ == unanswered_of(outcomes@),
{
    let ghost all = outcomes@;
    let mut rest = reversed(outcomes);
    let mut missed: Vec<T> = Vec::new();
    assert(all.take(0) =~= Seq::<Result<(), T>>::empty());
    while rest.len() > 0
        invariant
            rest@.len() <= all.len(),
            forall|j: int| 0 <= j < rest@.len() ==> rest@[j] == all[all.len() - 1 - j],
            missed@ == unanswered_of(all.take(all.len() - rest@.len())),
        decreases rest.len(),
    {
        let ghost k = all.len() - rest@.len();
        let r = rest.pop().unwrap();
        proof {
            assert(r == all[k]);
            assert(all.take(k + 1).drop_last() =~= all.take(k));
            assert(all.take(k + 1).last() == r);
        }
        match r {
            Ok(()) => {},
            Err(back) => {
                missed.push(back);
            },
        }
    }
    assert(all.take(all.len() as int) =~= all);
    missed
}

} // verus!
