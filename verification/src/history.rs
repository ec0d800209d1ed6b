use vstd::prelude::*;
use crate::change::StateChange;
use crate::history_laws::lemma_aggregate_domain;
use crate::history_laws::lemma_aggregate_entry;
use crate::history_laws::names_operation;
use crate::history_laws::settles;
use crate::operation::IfaceOp;
use crate::operation::IfaceOpView;
use crate::operation::Inconsistency;
use crate::operation::Role;
use crate::operation::op_fault;
use crate::operation::op_merged;
use crate::operation::op_start;
use crate::state::Assignment;
use crate::state::assignment_views;
use crate::state::OutputAssignment;
use crate::state::WitnessId;

verus! {

/// The summaries of settling transactions, one for each transaction, found by
/// the transaction's identifier.
pub struct WitnessOps<C: StateChange> {
    ids: Vec<WitnessId>,
    ops: Vec<IfaceOp<C>>,
}

impl<C: StateChange> View for WitnessOps<C> {
    type V = Map<WitnessId, IfaceOpView<C::V>>;

    closed spec fn view(&self) -> Map<WitnessId, IfaceOpView<C::V>> {
        Map::new(
            |w: WitnessId| self.ids@.contains(w),
            |w: WitnessId| self.ops@[self.ids@.index_of(w)]@,
        )
    }
}

impl<C: StateChange> WitnessOps<C> {
    /// Every transaction has one summary, and no transaction occurs twice.
    pub closed spec fn wf(&self) -> bool {
        &&& self.ids@.len() == self.ops@.len()
        &&& self.ids@.no_duplicates()
    }

    /// The transactions in the order in which they were first seen.
    pub closed spec fn witnesses(&self) -> Seq<WitnessId> {
        self.ids@
    }

    /// The transactions with a summary are those listed, each once, and the
    /// map holds nothing else.
    pub proof fn lemma_witnesses(&self)
        requires
            self.wf(),
        ensures
            self.witnesses().no_duplicates(),
            self.witnesses().to_set() == self@.dom(),
            self@.dom().finite(),
            self@.dom().len() == self.witnesses().len(),
    {
        assert(self.ids@.to_set() =~= self@.dom());
        self.ids@.unique_seq_to_set();
        vstd::seq_lib::seq_to_set_is_finite(self.ids@);
    }

    proof fn lemma_at(&self, i: int)
        requires
            self.wf(),
            0 <= i < self.ids@.len(),
        ensures
            self@.dom().contains(self.ids@[i]),
            self@[self.ids@[i]] == self.ops@[i]@,
            self.ids@.index_of(self.ids@[i]) == i,
    {
        let w = self.ids@[i];
        assert(self.ids@.contains(w));
        let j = self.ids@.index_of(w);
        assert(0 <= j < self.ids@.len() && self.ids@[j] == w);
    }

    pub fn new() -> (r: Self)
        ensures
            r.wf(),
            r@ == Map::<WitnessId, IfaceOpView<C::V>>::empty(),
            r.witnesses() == Seq::<WitnessId>::empty(),
    {
        let r = WitnessOps { ids: Vec::new(), ops: Vec::new() };
        assert(r@ =~= Map::<WitnessId, IfaceOpView<C::V>>::empty());
        r
    }

    /// The number of transactions.
    pub fn len(&self) -> (r: usize)
        requires
            self.wf(),
        ensures
            r == self@.dom().len(),
            r == self.witnesses().len(),
    {
        proof {
            self.lemma_witnesses();
        }
        self.ids.len()
    }

    fn position(&self, witness: &WitnessId) -> (r: Option<usize>)
        requires
            self.wf(),
        ensures
            match r {
                Some(i) => i < self.ids@.len() && self.ids@[i as int] == *witness,
                None => !self.ids@.contains(*witness),
            },
    {
        let mut i: usize = 0;
        while i < self.ids.len()
            invariant
                i <= self.ids@.len(),
                forall|k: int| 0 <= k < i ==> self.ids@[k] != *witness,
            decreases self.ids.len() - i,
        {
            if self.ids[i].same(witness) {
                return Some(i);
            }
            i += 1;
        }
        None
    }

    /// Whether the transaction has a summary.
    pub fn contains_key(&self, witness: &WitnessId) -> (r: bool)
        requires
            self.wf(),
        ensures
            r == self@.dom().contains(*witness),
    {
        self.position(witness).is_some()
    }

    /// The summary of the transaction, if it has one.
    pub fn get(&self, witness: &WitnessId) -> (r: Option<&IfaceOp<C>>)
        requires
            self.wf(),
        ensures
            match r {
                Some(op) => self@.dom().contains(*witness) && op@ == self@[*witness],
                None => !self@.dom().contains(*witness),
            },
    {
        match self.position(witness) {
            Some(i) => {
                proof {
                    self.lemma_at(i as int);
                }
                Some(&self.ops[i])
            },
            None => None,
        }
    }

    /// The transactions, in the order in which they were first seen.
    pub fn witness_ids(&self) -> (r: Vec<WitnessId>)
        requires
            self.wf(),
        ensures
            r@ == self.witnesses(),
    {
        let mut out: Vec<WitnessId> = Vec::new();
        let mut i: usize = 0;
        while i < self.ids.len()
            invariant
                i <= self.ids@.len(),
                out@ == self.ids@.take(i as int),
            decreases self.ids.len() - i,
        {
            out.push(self.ids[i]);
            assert(self.ids@.take(i as int + 1) =~= self.ids@.take(i as int).push(
                self.ids@[i as int],
            ));
            i += 1;
        }
        assert(self.ids@.take(self.ids@.len() as int) =~= self.ids@);
        out
    }

    /// Takes one allocation in: where its transaction has no summary yet, one
    /// is started from the allocation; where it has one, the allocation is
    /// merged into it, unless it cannot be, and then nothing changes. An
    /// allocation that no transaction settles is passed over.
    fn absorb(&mut self, role: Role, alloc: OutputAssignment<C::State>) -> (r: Option<
        Inconsistency,
    >)
        requires
            old(self).wf(),
        ensures
            final(self).wf(),
            r == step_fault::<C>(role, old(self)@, alloc@),
            r is None ==> final(self)@ == step::<C>(role, old(self)@, alloc@),
            r is Some ==> final(self)@ == old(self)@,
    {
        let witness = match alloc.witness {
            Some(w) => w,
            None => {
                return None;
            },
        };
        match self.position(&witness) {
            Some(i) => {
                proof {
                    self.lemma_at(i as int);
                }
                let fault = self.ops[i].fault(role, witness, &alloc);
                if fault.is_some() {
                    return fault;
                }
                let ghost before = *self;
                let ghost a = alloc@;
                match role {
                    Role::Spent => self.ops[i].merge_spent(alloc),
                    Role::Received => self.ops[i].merge_received(alloc),
                }
                proof {
                    assert(self.ids@ == before.ids@);
                    assert(self.ops@.len() == before.ops@.len());
                    assert(self.ops@[i as int]@ == op_merged::<C>(role, before.ops@[i as int]@, a));
                    assert forall|w: WitnessId| self.ids@.contains(w) implies #[trigger] self@[w]
                        == before@.insert(witness, op_merged::<C>(role, before@[witness], a))[w] by {
                        let j = self.ids@.index_of(w);
                        assert(0 <= j < self.ids@.len() && self.ids@[j] == w);
                        if j != i as int {
                            assert(self.ops@[j] == before.ops@[j]);
                        }
                    }
                    assert(self@ =~= before@.insert(
                        witness,
                        op_merged::<C>(role, before@[witness], a),
                    ));
                }
                None
            },
            None => {
                let ghost before = *self;
                let ghost a = alloc@;
                let op = match role {
                    Role::Spent => IfaceOp::from_spent(alloc),
                    Role::Received => IfaceOp::from_received(alloc),
                };
                self.ids.push(witness);
                self.ops.push(op);
                proof {
                    let n = before.ids@.len() as int;
                    assert(self.ids@[n] == witness);
                    assert(self.ids@.contains(witness));
                    assert forall|w: WitnessId| self.ids@.contains(w) implies (w == witness
                        || before.ids@.contains(w)) by {
                        let j = self.ids@.index_of(w);
                        assert(0 <= j < self.ids@.len() && self.ids@[j] == w);
                        if j < n {
                            assert(before.ids@[j] == w);
                        }
                    }
                    assert forall|w: WitnessId| before.ids@.contains(w) implies self.ids@.contains(
                        w,
                    ) by {
                        let j = before.ids@.index_of(w);
                        assert(self.ids@[j] == w);
                    }
                    assert forall|w: WitnessId| self.ids@.contains(w) implies #[trigger] self@[w]
                        == before@.insert(witness, op_start::<C>(role, a))[w] by {
                        let j = self.ids@.index_of(w);
                        assert(0 <= j < self.ids@.len() && self.ids@[j] == w);
                        if w != witness {
                            let k = before.ids@.index_of(w);
                            assert(0 <= k < n && before.ids@[k] == w);
                            assert(self.ids@[k] == w);
                            assert(j == k);
                            assert(self.ops@[j] == before.ops@[k]);
                        } else {
                            assert(j == n);
                        }
                    }
                    assert(self@ =~= before@.insert(witness, op_start::<C>(role, a)));
                }
                None
            },
        }
    }
}

/// The summaries after one more allocation in the given role: an allocation
/// that no transaction settles changes nothing; the first one of a
/// transaction starts its summary; any further one is merged into it.
pub open spec fn step<C: StateChange>(
    role: Role,
    ops: Map<WitnessId, IfaceOpView<C::V>>,
    alloc: Assignment<<C::State as View>::V>,
) -> Map<WitnessId, IfaceOpView<C::V>> {
    match alloc.witness {
        None => ops,
        Some(w) => if ops.dom().contains(w) {
            ops.insert(w, op_merged::<C>(role, ops[w], alloc))
        } else {
            ops.insert(w, op_start::<C>(role, alloc))
        },
    }
}

/// Why the allocation cannot be taken in, if it cannot.
pub open spec fn step_fault<C: StateChange>(
    role: Role,
    ops: Map<WitnessId, IfaceOpView<C::V>>,
    alloc: Assignment<<C::State as View>::V>,
) -> Option<Inconsistency> {
    match alloc.witness {
        None => None,
        Some(w) => if ops.dom().contains(w) {
            op_fault::<C>(role, ops[w], w, alloc)
        } else {
            None
        },
    }
}

/// The summaries after the allocations, first to last, in the given role.
pub open spec fn fold<C: StateChange>(
    role: Role,
    ops: Map<WitnessId, IfaceOpView<C::V>>,
    allocs: Seq<Assignment<<C::State as View>::V>>,
) -> Map<WitnessId, IfaceOpView<C::V>>
    decreases allocs.len(),
{
    if allocs.len() == 0 {
        ops
    } else {
        step::<C>(role, fold::<C>(role, ops, allocs.drop_last()), allocs.last())
    }
}

/// The first allocation, going first to last, that cannot be taken in, with
/// the reason; none where all can.
pub open spec fn fold_fault<C: StateChange>(
    role: Role,
    ops: Map<WitnessId, IfaceOpView<C::V>>,
    allocs: Seq<Assignment<<C::State as View>::V>>,
) -> Option<Inconsistency>
    decreases allocs.len(),
{
    if allocs.len() == 0 {
        None
    } else {
        match fold_fault::<C>(role, ops, allocs.drop_last()) {
            Some(fault) => Some(fault),
            None => step_fault::<C>(
                role,
                fold::<C>(role, ops, allocs.drop_last()),
                allocs.last(),
            ),
        }
    }
}

/// The history of a field: one summary for each transaction that settles an
/// allocation among `spent` or `received`, with the allocations of `spent`
/// taken in as spent, and then those of `received` as received.
pub open spec fn aggregate<C: StateChange>(
    spent: Seq<Assignment<<C::State as View>::V>>,
    received: Seq<Assignment<<C::State as View>::V>>,
) -> Map<WitnessId, IfaceOpView<C::V>> {
    fold::<C>(Role::Received, fold::<C>(Role::Spent, Map::empty(), spent), received)
}

/// The first allocation that keeps `spent` and `received` from being
/// aggregated, with the reason; none where they can be.
pub open spec fn aggregation_fault<C: StateChange>(
    spent: Seq<Assignment<<C::State as View>::V>>,
    received: Seq<Assignment<<C::State as View>::V>>,
) -> Option<Inconsistency> {
    match fold_fault::<C>(Role::Spent, Map::empty(), spent) {
        Some(fault) => Some(fault),
        None => fold_fault::<C>(
            Role::Received,
            fold::<C>(Role::Spent, Map::empty(), spent),
            received,
        ),
    }
}

/// Takes the allocations in, first to last, in the given role, and stops at
/// the first that cannot be taken in.
fn absorb_all<C: StateChange>(
    ops: &mut WitnessOps<C>,
    role: Role,
    allocs: Vec<OutputAssignment<C::State>>,
) -> (r: Option<Inconsistency>)
    requires
        old(ops).wf(),
    ensures
        final(ops).wf(),
        r == fold_fault::<C>(role, old(ops)@, assignment_views(allocs@)),
        r is None ==> final(ops)@ == fold::<C>(role, old(ops)@, assignment_views(allocs@)),
{
    let ghost start = ops@;
    let ghost all = assignment_views(allocs@);
    for alloc in it: allocs.into_iter()
        invariant
            ops.wf(),
            start == old(ops)@,
            it.seq() == allocs@,
            all == assignment_views(allocs@),
            fold_fault::<C>(role, start, all.take(it.index())) is None,
            ops@ == fold::<C>(role, start, all.take(it.index())),
    {
        let ghost i = it.index();
        proof {
            assert(all.take(i + 1).drop_last() =~= all.take(i));
            assert(all.take(i + 1).last() == alloc@);
        }
        let fault = ops.absorb(role, alloc);
        if fault.is_some() {
            proof {
                assert(fold_fault::<C>(role, start, all.take(i + 1)) == fault);
                lemma_fault_stays::<C>(role, start, all, i + 1);
            }
            return fault;
        }
    }
    proof {
        assert(all.take(all.len() as int) =~= all);
    }
    None
}

/// Once a prefix of the allocations has a fault, every longer prefix has the
/// same one.
pub proof fn lemma_fault_stays<C: StateChange>(
    role: Role,
    ops: Map<WitnessId, IfaceOpView<C::V>>,
    allocs: Seq<Assignment<<C::State as View>::V>>,
    n: int,
)
    requires
        0 <= n <= allocs.len(),
        fold_fault::<C>(role, ops, allocs.take(n)) is Some,
    ensures
        fold_fault::<C>(role, ops, allocs) == fold_fault::<C>(role, ops, allocs.take(n)),
    decreases allocs.len() - n,
{
    if n == allocs.len() {
        assert(allocs.take(n) =~= allocs);
    } else {
        assert(allocs.take(n + 1).drop_last() =~= allocs.take(n));
        lemma_fault_stays::<C>(role, ops, allocs, n + 1);
    }
}

/// Aggregates the allocations of one kind of state into the history of a
/// field, or tells what keeps them from being aggregated.
///
/// A history has a summary for exactly the transactions that settle one of
/// the allocations, and every summary names an operation.
pub fn try_operations<C: StateChange>(
    state: Vec<OutputAssignment<C::State>>,
    allocations: Vec<OutputAssignment<C::State>>,
) -> (r: Result<WitnessOps<C>, Inconsistency>)
    ensures
        match r {
            Ok(ops) => ops.wf() && ops@ == aggregate::<C>(
                assignment_views(state@),
                assignment_views(allocations@),
            ) && aggregation_fault::<C>(
                assignment_views(state@),
                assignment_views(allocations@),
            ) is None && (forall|w: WitnessId| #[trigger]
                ops@.dom().contains(w) <==> settles(assignment_views(state@), w) || settles(
                    assignment_views(allocations@),
                    w,
                )) && (forall|w: WitnessId| #[trigger]
                ops@.dom().contains(w) ==> names_operation(ops@[w])),
            Err(fault) => aggregation_fault::<C>(
                assignment_views(state@),
                assignment_views(allocations@),
            ) == Some(fault),
        },
{
    let ghost spent = assignment_views(state@);
    let ghost received = assignment_views(allocations@);
    let mut ops = WitnessOps::<C>::new();
    match absorb_all(&mut ops, Role::Spent, state) {
        Some(fault) => {
            return Err(fault);
        },
        None => {},
    }
    match absorb_all(&mut ops, Role::Received, allocations) {
        Some(fault) => Err(fault),
        None => {
            proof {
                lemma_history_shape::<C>(spent, received);
                assert(ops@ == aggregate::<C>(spent, received));
                assert(forall|w: WitnessId| #[trigger]
                    ops@.dom().contains(w) <==> settles(spent, w) || settles(received, w));
                assert(forall|w: WitnessId| #[trigger]
                    ops@.dom().contains(w) ==> names_operation(ops@[w]));
            }
            Ok(ops)
        },
    }
}

/// Aggregates the allocations of one kind of state into the history of a
/// field: `state` holds the allocations that transactions may have spent,
/// `allocations` those of the field, which transactions assigned.
///
/// The history has a summary for exactly the transactions that settle one of
/// the allocations, and every summary names an operation.
pub fn operations<C: StateChange>(
    state: Vec<OutputAssignment<C::State>>,
    allocations: Vec<OutputAssignment<C::State>>,
) -> (r: WitnessOps<C>)
    requires
        aggregation_fault::<C>(assignment_views(state@), assignment_views(allocations@)) is None,
    ensures
        r.wf(),
        r@ == aggregate::<C>(assignment_views(state@), assignment_views(allocations@)),
        forall|w: WitnessId| #[trigger]
            r@.dom().contains(w) <==> settles(assignment_views(state@), w) || settles(
                assignment_views(allocations@),
                w,
            ),
        forall|w: WitnessId| #[trigger] r@.dom().contains(w) ==> names_operation(r@[w]),
{
    let ghost spent = assignment_views(state@);
    let ghost received = assignment_views(allocations@);
    let mut ops = WitnessOps::<C>::new();
    let spent_fault = absorb_all(&mut ops, Role::Spent, state);
    assert(spent_fault is None);
    let received_fault = absorb_all(&mut ops, Role::Received, allocations);
    assert(received_fault is None);
    proof {
        lemma_history_shape::<C>(spent, received);
    }
    ops
}

/// A history has a summary for exactly the transactions that settle one of
/// the allocations, and every summary names an operation.
pub proof fn lemma_history_shape<C: StateChange>(
    spent: Seq<Assignment<<C::State as View>::V>>,
    received: Seq<Assignment<<C::State as View>::V>>,
)
    ensures
        forall|w: WitnessId| #[trigger]
            aggregate::<C>(spent, received).dom().contains(w) <==> settles(spent, w) || settles(
                received,
                w,
            ),
        forall|w: WitnessId| #[trigger]
            aggregate::<C>(spent, received).dom().contains(w) ==> names_operation(
                aggregate::<C>(spent, received)[w],
            ),
{
    lemma_aggregate_domain::<C>(spent, received);
    assert forall|w: WitnessId| #[trigger]
        aggregate::<C>(spent, received).dom().contains(w) implies names_operation(
        aggregate::<C>(spent, received)[w],
    ) by {
        lemma_aggregate_entry::<C>(spent, received, w);
    }
}

} // verus!
