use vstd::prelude::*;
use crate::change::Amount;
use crate::change::AmountChange;
use crate::change::StateChange;
use crate::history::aggregate;
use crate::history::aggregation_fault;
use crate::history::fold;
use crate::history::fold_fault;
use crate::history::step;
use crate::operation::IfaceOpView;
use crate::operation::op_role_set;
use crate::operation::Role;
use crate::state::Assignment;
use crate::state::OpId;
use crate::state::OutputSeal;
use crate::state::WitnessId;

verus! {

/// Whether the transaction settles one of the allocations.
pub open spec fn settles<V>(allocs: Seq<Assignment<V>>, witness: WitnessId) -> bool {
    exists|i: int| 0 <= i < allocs.len() && (#[trigger] allocs[i]).witness == Some(witness)
}

/// The operations of the allocations that the transaction settles.
pub open spec fn operations_at<V>(allocs: Seq<Assignment<V>>, witness: WitnessId) -> Set<OpId> {
    Set::new(
        |id: OpId|
            exists|i: int|
                0 <= i < allocs.len() && (#[trigger] allocs[i]).witness == Some(witness)
                    && allocs[i].opout.op == id,
    )
}

/// The amounts of the allocations that the transaction settles, summed.
pub open spec fn amount_at(allocs: Seq<Assignment<Amount>>, witness: WitnessId) -> int
    decreases allocs.len(),
{
    if allocs.len() == 0 {
        0
    } else if allocs.last().witness == Some(witness) {
        amount_at(allocs.drop_last(), witness) + allocs.last().state
    } else {
        amount_at(allocs.drop_last(), witness)
    }
}

/// The other of the two roles.
pub open spec fn other_role(role: Role) -> Role {
    match role {
        Role::Spent => Role::Received,
        Role::Received => Role::Spent,
    }
}

/// A summary is of an actual transaction when it names an operation, as
/// spent or as received.
pub open spec fn names_operation<V>(op: IfaceOpView<V>) -> bool {
    exists|id: OpId| op.inputs.contains(id) || op.opids.contains(id)
}

proof fn lemma_settles_step<V>(allocs: Seq<Assignment<V>>, witness: WitnessId)
    requires
        allocs.len() > 0,
    ensures
        settles(allocs, witness) <==> settles(allocs.drop_last(), witness)
            || allocs.last().witness == Some(witness),
        operations_at(allocs, witness) == if allocs.last().witness == Some(witness) {
            operations_at(allocs.drop_last(), witness).insert(allocs.last().opout.op)
        } else {
            operations_at(allocs.drop_last(), witness)
        },
{
    let front = allocs.drop_last();
    let n = allocs.len() - 1;
    if settles(allocs, witness) {
        let i = choose|i: int|
            0 <= i < allocs.len() && (#[trigger] allocs[i]).witness == Some(witness);
        if i < n {
            assert(front[i].witness == Some(witness));
        }
    }
    if settles(front, witness) {
        let i = choose|i: int| 0 <= i < front.len() && (#[trigger] front[i]).witness == Some(witness);
        assert(allocs[i].witness == Some(witness));
    }
    if allocs.last().witness == Some(witness) {
        assert(allocs[n].witness == Some(witness));
    }
    let expected = if allocs.last().witness == Some(witness) {
        operations_at(front, witness).insert(allocs.last().opout.op)
    } else {
        operations_at(front, witness)
    };
    assert forall|id: OpId| operations_at(allocs, witness).contains(id) implies expected.contains(
        id,
    ) by {
        let i = choose|i: int|
            0 <= i < allocs.len() && (#[trigger] allocs[i]).witness == Some(witness)
                && allocs[i].opout.op == id;
        if i < n {
            assert(front[i].witness == Some(witness) && front[i].opout.op == id);
        }
    }
    assert forall|id: OpId| expected.contains(id) implies operations_at(allocs, witness).contains(
        id,
    ) by {
        if operations_at(front, witness).contains(id) {
            let i = choose|i: int|
                0 <= i < front.len() && (#[trigger] front[i]).witness == Some(witness)
                    && front[i].opout.op == id;
            assert(allocs[i].witness == Some(witness) && allocs[i].opout.op == id);
        } else {
            assert(allocs[n].witness == Some(witness) && allocs[n].opout.op == id);
        }
    }
    assert(operations_at(allocs, witness) =~= expected);
}

/// Taking allocations in adds the transactions that settle them to those
/// that have a summary already, and no other.
pub proof fn lemma_fold_domain<C: StateChange>(
    role: Role,
    ops: Map<WitnessId, IfaceOpView<C::V>>,
    allocs: Seq<Assignment<<C::State as View>::V>>,
)
    ensures
        forall|w: WitnessId| #[trigger]
            fold::<C>(role, ops, allocs).dom().contains(w) <==> ops.dom().contains(w) || settles(
                allocs,
                w,
            ),
    decreases allocs.len(),
{
    if allocs.len() > 0 {
        lemma_fold_domain::<C>(role, ops, allocs.drop_last());
        assert forall|w: WitnessId| #[trigger]
            fold::<C>(role, ops, allocs).dom().contains(w) <==> ops.dom().contains(w) || settles(
                allocs,
                w,
            ) by {
            lemma_settles_step(allocs, w);
            let prev = fold::<C>(role, ops, allocs.drop_last());
            assert(fold::<C>(role, ops, allocs) == step::<C>(role, prev, allocs.last()));
            assert(prev.dom().contains(w) <==> ops.dom().contains(w) || settles(
                allocs.drop_last(),
                w,
            ));
            match allocs.last().witness {
                None => {},
                Some(v) => {
                    assert(step::<C>(role, prev, allocs.last()).dom() =~= prev.dom().insert(v));
                },
            }
        }
    }
}

/// What a summary holds after allocations are taken in: in the role of the
/// allocations, the operations that it held and those of the allocations
/// that its transaction settles; in the other role, and as payers and
/// beneficiaries, what it held. A summary that the allocations start holds
/// nothing before.
pub proof fn lemma_fold_sets<C: StateChange>(
    role: Role,
    ops: Map<WitnessId, IfaceOpView<C::V>>,
    allocs: Seq<Assignment<<C::State as View>::V>>,
    w: WitnessId,
)
    requires
        fold::<C>(role, ops, allocs).dom().contains(w),
    ensures
        op_role_set(role, fold::<C>(role, ops, allocs)[w]) == (if ops.dom().contains(w) {
            op_role_set(role, ops[w])
        } else {
            Set::empty()
        }).union(operations_at(allocs, w)),
        op_role_set(other_role(role), fold::<C>(role, ops, allocs)[w]) == if ops.dom().contains(
            w,
        ) {
            op_role_set(other_role(role), ops[w])
        } else {
            Set::empty()
        },
        fold::<C>(role, ops, allocs)[w].payers == if ops.dom().contains(w) {
            ops[w].payers
        } else {
            Set::<OutputSeal>::empty()
        },
        fold::<C>(role, ops, allocs)[w].beneficiaries == if ops.dom().contains(w) {
            ops[w].beneficiaries
        } else {
            Set::<OutputSeal>::empty()
        },
    decreases allocs.len(),
{
    let base = if ops.dom().contains(w) {
        op_role_set(role, ops[w])
    } else {
        Set::empty()
    };
    if allocs.len() == 0 {
        assert(operations_at(allocs, w) =~= Set::empty());
        assert(base.union(operations_at(allocs, w)) =~= base);
    } else {
        let front = allocs.drop_last();
        let prev = fold::<C>(role, ops, front);
        lemma_settles_step(allocs, w);
        lemma_fold_domain::<C>(role, ops, front);
        if prev.dom().contains(w) {
            lemma_fold_sets::<C>(role, ops, front, w);
            if allocs.last().witness == Some(w) {
                assert(base.union(operations_at(front, w)).insert(allocs.last().opout.op)
                    =~= base.union(operations_at(allocs, w)));
            }
        } else {
            assert(operations_at(front, w) =~= Set::empty()) by {
                if exists|id: OpId| operations_at(front, w).contains(id) {
                    let id = choose|id: OpId| operations_at(front, w).contains(id);
                    let i = choose|i: int|
                        0 <= i < front.len() && (#[trigger] front[i]).witness == Some(w)
                            && front[i].opout.op == id;
                    assert(settles(front, w));
                }
            }
            assert(Set::<OpId>::empty().insert(allocs.last().opout.op) =~= base.union(
                operations_at(allocs, w),
            ));
        }
    }
}

/// The history has a summary for exactly the transactions that settle one of
/// the allocations: an allocation that no transaction settles leaves no
/// trace, and no transaction comes from elsewhere.
pub proof fn lemma_aggregate_domain<C: StateChange>(
    spent: Seq<Assignment<<C::State as View>::V>>,
    received: Seq<Assignment<<C::State as View>::V>>,
)
    ensures
        forall|w: WitnessId| #[trigger]
            aggregate::<C>(spent, received).dom().contains(w) <==> settles(spent, w) || settles(
                received,
                w,
            ),
{
    let first = fold::<C>(Role::Spent, Map::empty(), spent);
    lemma_fold_domain::<C>(Role::Spent, Map::empty(), spent);
    lemma_fold_domain::<C>(Role::Received, first, received);
}

/// A summary of the history names as spent the operations of the spent
/// allocations that its transaction settles, and as received those of the
/// received ones; it names at least one operation, and no payer and no
/// beneficiary.
pub proof fn lemma_aggregate_entry<C: StateChange>(
    spent: Seq<Assignment<<C::State as View>::V>>,
    received: Seq<Assignment<<C::State as View>::V>>,
    w: WitnessId,
)
    requires
        aggregate::<C>(spent, received).dom().contains(w),
    ensures
        aggregate::<C>(spent, received)[w].inputs == operations_at(spent, w),
        aggregate::<C>(spent, received)[w].opids == operations_at(received, w),
        aggregate::<C>(spent, received)[w].payers == Set::<OutputSeal>::empty(),
        aggregate::<C>(spent, received)[w].beneficiaries == Set::<OutputSeal>::empty(),
        names_operation(aggregate::<C>(spent, received)[w]),
{
    let none = Map::<WitnessId, IfaceOpView<C::V>>::empty();
    let first = fold::<C>(Role::Spent, none, spent);
    lemma_fold_domain::<C>(Role::Spent, none, spent);
    lemma_fold_domain::<C>(Role::Received, first, received);
    lemma_fold_sets::<C>(Role::Received, first, received, w);
    if first.dom().contains(w) {
        lemma_fold_sets::<C>(Role::Spent, none, spent, w);
        assert(Set::<OpId>::empty().union(operations_at(spent, w)) =~= operations_at(spent, w));
        assert(operations_at(spent, w).union(operations_at(received, w)).union(Set::empty())
            =~= operations_at(spent, w).union(operations_at(received, w)));
        let i = choose|i: int| 0 <= i < spent.len() && (#[trigger] spent[i]).witness == Some(w);
        assert(operations_at(spent, w).contains(spent[i].opout.op));
    } else {
        assert(operations_at(spent, w) =~= Set::empty()) by {
            if exists|id: OpId| operations_at(spent, w).contains(id) {
                let id = choose|id: OpId| operations_at(spent, w).contains(id);
                let i = choose|i: int|
                    0 <= i < spent.len() && (#[trigger] spent[i]).witness == Some(w)
                        && spent[i].opout.op == id;
                assert(settles(spent, w));
            }
        }
        let i = choose|i: int|
            0 <= i < received.len() && (#[trigger] received[i]).witness == Some(w);
        assert(operations_at(received, w).contains(received[i].opout.op));
    }
    assert(Set::<OpId>::empty().union(operations_at(received, w)) =~= operations_at(received, w));
}

/// The records that a transaction settles, in the same order.
pub open spec fn settled_only<V>(allocs: Seq<Assignment<V>>) -> Seq<Assignment<V>> {
    allocs.filter(|a: Assignment<V>| a.witness is Some)
}

/// Records that no transaction settles change neither the summaries nor the
/// fault, wherever they stand among the others.
pub proof fn lemma_fold_unsettled_invisible<C: StateChange>(
    role: Role,
    ops: Map<WitnessId, IfaceOpView<C::V>>,
    allocs: Seq<Assignment<<C::State as View>::V>>,
)
    ensures
        fold::<C>(role, ops, allocs) == fold::<C>(role, ops, settled_only(allocs)),
        fold_fault::<C>(role, ops, allocs) == fold_fault::<C>(role, ops, settled_only(allocs)),
    decreases allocs.len(),
{
    reveal(Seq::filter);
    if allocs.len() > 0 {
        let front = allocs.drop_last();
        lemma_fold_unsettled_invisible::<C>(role, ops, front);
        if allocs.last().witness is Some {
            let kept = settled_only(front).push(allocs.last());
            assert(settled_only(allocs) == kept);
            assert(kept.drop_last() =~= settled_only(front));
            assert(kept.last() == allocs.last());
        } else {
            assert(settled_only(allocs) == settled_only(front));
        }
    }
}

/// The history, and what keeps it from being computed, are those of the
/// records that a transaction settles: the others are invisible, wherever
/// they stand.
pub proof fn lemma_unsettled_invisible<C: StateChange>(
    spent: Seq<Assignment<<C::State as View>::V>>,
    received: Seq<Assignment<<C::State as View>::V>>,
)
    ensures
        aggregate::<C>(spent, received) == aggregate::<C>(
            settled_only(spent),
            settled_only(received),
        ),
        aggregation_fault::<C>(spent, received) == aggregation_fault::<C>(
            settled_only(spent),
            settled_only(received),
        ),
{
    let none = Map::<WitnessId, IfaceOpView<C::V>>::empty();
    lemma_fold_unsettled_invisible::<C>(Role::Spent, none, spent);
    lemma_fold_unsettled_invisible::<C>(
        Role::Received,
        fold::<C>(Role::Spent, none, spent),
        received,
    );
}

/// Two inputs that differ only in records that no transaction settles have
/// the same history and the same fault.
pub proof fn lemma_same_settled_same_history<C: StateChange>(
    spent: Seq<Assignment<<C::State as View>::V>>,
    received: Seq<Assignment<<C::State as View>::V>>,
    spent_more: Seq<Assignment<<C::State as View>::V>>,
    received_more: Seq<Assignment<<C::State as View>::V>>,
)
    requires
        settled_only(spent_more) == settled_only(spent),
        settled_only(received_more) == settled_only(received),
    ensures
        aggregate::<C>(spent_more, received_more) == aggregate::<C>(spent, received),
        aggregation_fault::<C>(spent_more, received_more) == aggregation_fault::<C>(
            spent,
            received,
        ),
{
    lemma_unsettled_invisible::<C>(spent, received);
    lemma_unsettled_invisible::<C>(spent_more, received_more);
}

/// Where no transaction settles any record, the history is empty, and
/// nothing keeps it from being computed.
pub proof fn lemma_all_unsettled<C: StateChange>(
    spent: Seq<Assignment<<C::State as View>::V>>,
    received: Seq<Assignment<<C::State as View>::V>>,
)
    requires
        forall|i: int| 0 <= i < spent.len() ==> (#[trigger] spent[i]).witness is None,
        forall|i: int| 0 <= i < received.len() ==> (#[trigger] received[i]).witness is None,
    ensures
        aggregate::<C>(spent, received) == Map::<WitnessId, IfaceOpView<C::V>>::empty(),
        aggregation_fault::<C>(spent, received) is None,
{
    let keep = |a: Assignment<<C::State as View>::V>| a.witness is Some;
    assert(settled_only(spent) =~= Seq::empty()) by {
        spent.lemma_all_neg_filter_empty(keep);
    }
    assert(settled_only(received) =~= Seq::empty()) by {
        received.lemma_all_neg_filter_empty(keep);
    }
    lemma_unsettled_invisible::<C>(spent, received);
}

/// The net of a summary after amounts are taken in: the net that it had, or
/// nothing where the amounts start it, lowered by the spent amounts that its
/// transaction settles, or raised by the received ones.
pub proof fn lemma_fold_net(
    role: Role,
    ops: Map<WitnessId, IfaceOpView<AmountChange>>,
    allocs: Seq<Assignment<Amount>>,
    w: WitnessId,
)
    requires
        fold_fault::<AmountChange>(role, ops, allocs) is None,
        fold::<AmountChange>(role, ops, allocs).dom().contains(w),
    ensures
        fold::<AmountChange>(role, ops, allocs)[w].state_change.net() == (if ops.dom().contains(
            w,
        ) {
            ops[w].state_change.net()
        } else {
            0
        }) + (match role {
            Role::Spent => -amount_at(allocs, w),
            Role::Received => amount_at(allocs, w),
        }),
    decreases allocs.len(),
{
    if allocs.len() > 0 {
        let front = allocs.drop_last();
        let prev = fold::<AmountChange>(role, ops, front);
        lemma_settles_step(allocs, w);
        lemma_fold_domain::<AmountChange>(role, ops, front);
        if prev.dom().contains(w) {
            lemma_fold_net(role, ops, front, w);
        } else {
            lemma_amount_at_unsettled(front, w);
        }
    }
}

/// Allocations that the transaction does not settle add up to nothing at
/// it.
pub proof fn lemma_amount_at_unsettled(allocs: Seq<Assignment<Amount>>, w: WitnessId)
    requires
        !settles(allocs, w),
    ensures
        amount_at(allocs, w) == 0,
    decreases allocs.len(),
{
    if allocs.len() > 0 {
        lemma_settles_step(allocs, w);
        lemma_amount_at_unsettled(allocs.drop_last(), w);
    }
}

/// The net change of a summary of a history of amounts is what its
/// transaction received minus what it spent.
pub proof fn lemma_aggregate_net(
    spent: Seq<Assignment<Amount>>,
    received: Seq<Assignment<Amount>>,
    w: WitnessId,
)
    requires
        aggregation_fault::<AmountChange>(spent, received) is None,
        aggregate::<AmountChange>(spent, received).dom().contains(w),
    ensures
        aggregate::<AmountChange>(spent, received)[w].state_change.net() == amount_at(received, w)
            - amount_at(spent, w),
{
    let none = Map::<WitnessId, IfaceOpView<AmountChange>>::empty();
    let first = fold::<AmountChange>(Role::Spent, none, spent);
    lemma_fold_domain::<AmountChange>(Role::Spent, none, spent);
    lemma_fold_net(Role::Received, first, received, w);
    if first.dom().contains(w) {
        lemma_fold_net(Role::Spent, none, spent, w);
    } else {
        lemma_amount_at_unsettled(spent, w);
    }
}

} // verus!
