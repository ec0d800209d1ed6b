use vstd::prelude::*;
use crate::change::StateChange;
use crate::opset::OpIdSet;
use crate::opset::SealSet;
use crate::opset::SMALL_SET_MAX;
use crate::state::Assignment;
use crate::state::OpId;
use crate::state::OutputAssignment;
use crate::state::OutputSeal;
use crate::state::WitnessId;

verus! {

/// The part that an allocation plays at the transaction that settles it.
#[derive(Copy, Clone, PartialEq, Eq, Structural, Hash, Debug)]
pub enum Role {
    /// The allocation is a candidate source of what the transaction spends.
    Spent,
    /// The allocation is what the transaction assigns anew.
    Received,
}

/// What makes a set of allocations unfit for aggregation.
#[derive(Copy, Clone, PartialEq, Eq, Structural, Hash, Debug)]
pub enum InconsistencyKind {
    /// The operation already contributes in the same role at the same
    /// transaction.
    DuplicateOperation,
    /// The transaction already has as many operations in that role as a set
    /// of operations holds.
    TooManyOperations,
    /// Folding the state into the net change would leave the bounds of the
    /// state's domain.
    ChangeOutOfBounds,
}

/// An allocation that cannot be aggregated: data that the store must never
/// hold, reported with the transaction and the operation at which it shows.
#[derive(Copy, Clone, PartialEq, Eq, Hash, Debug)]
pub struct Inconsistency {
    pub witness: WitnessId,
    pub op: OpId,
    pub role: Role,
    pub kind: InconsistencyKind,
}

/// What one settling transaction does to the state of one field: the
/// operations whose state it assigns anew, the operations whose state it
/// spends, and the net change. The sets of payers and beneficiaries are kept
/// for the attribution of seals and stay empty.
#[derive(PartialEq, Eq, Hash, Debug)]
pub struct IfaceOp<C: StateChange> {
    pub opids: OpIdSet,
    pub inputs: OpIdSet,
    pub state_change: C,
    pub payers: SealSet,
    pub beneficiaries: SealSet,
}

/// The mathematical view of an `IfaceOp`.
pub struct IfaceOpView<V> {
    pub opids: Set<OpId>,
    pub inputs: Set<OpId>,
    pub state_change: V,
    pub payers: Set<OutputSeal>,
    pub beneficiaries: Set<OutputSeal>,
}

impl<C: StateChange> View for IfaceOp<C> {
    type V = IfaceOpView<C::V>;

    open spec fn view(&self) -> IfaceOpView<C::V> {
        IfaceOpView {
            opids: self.opids@,
            inputs: self.inputs@,
            state_change: self.state_change@,
            payers: self.payers@,
            beneficiaries: self.beneficiaries@,
        }
    }
}

impl<C: StateChange + Clone> Clone for IfaceOp<C> {
    /// A copy of the summary: it names the same operations, payers and
    /// beneficiaries, and its net change is a clone of the net change.
    fn clone(&self) -> (r: IfaceOp<C>)
        ensures
            r.opids@ == self.opids@,
            r.inputs@ == self.inputs@,
            r.payers@ == self.payers@,
            r.beneficiaries@ == self.beneficiaries@,
            cloned(self.state_change, r.state_change),
    {
        IfaceOp {
            opids: self.opids.clone(),
            inputs: self.inputs.clone(),
            state_change: self.state_change.clone(),
            payers: self.payers.clone(),
            beneficiaries: self.beneficiaries.clone(),
        }
    }
}

/// The summary of a transaction of which `alloc` is the first allocation
/// seen, in the given role.
pub open spec fn op_start<C: StateChange>(
    role: Role,
    alloc: Assignment<<C::State as View>::V>,
) -> IfaceOpView<C::V> {
    match role {
        Role::Spent => IfaceOpView {
            opids: Set::empty(),
            inputs: Set::empty().insert(alloc.opout.op),
            state_change: C::spent(alloc.state),
            payers: Set::empty(),
            beneficiaries: Set::empty(),
        },
        Role::Received => IfaceOpView {
            opids: Set::empty().insert(alloc.opout.op),
            inputs: Set::empty(),
            state_change: C::received(alloc.state),
            payers: Set::empty(),
            beneficiaries: Set::empty(),
        },
    }
}

/// The operations that a summary holds in the given role.
pub open spec fn op_role_set<V>(role: Role, op: IfaceOpView<V>) -> Set<OpId> {
    match role {
        Role::Spent => op.inputs,
        Role::Received => op.opids,
    }
}

/// Whether the state of `alloc` can be folded into the net change of `op`.
pub open spec fn op_change_fits<C: StateChange>(
    role: Role,
    op: IfaceOpView<C::V>,
    alloc: Assignment<<C::State as View>::V>,
) -> bool {
    match role {
        Role::Spent => C::fits_spent(op.state_change, alloc.state),
        Role::Received => C::fits_received(op.state_change, alloc.state),
    }
}

/// Why `alloc` cannot be merged into `op` in the given role, if it cannot:
/// its operation is there already, the set of operations is full, or the net
/// change would leave its bounds; the first of these that holds.
pub open spec fn op_fault<C: StateChange>(
    role: Role,
    op: IfaceOpView<C::V>,
    witness: WitnessId,
    alloc: Assignment<<C::State as View>::V>,
) -> Option<Inconsistency> {
    if op_role_set(role, op).contains(alloc.opout.op) {
        Some(
            Inconsistency {
                witness,
                op: alloc.opout.op,
                role,
                kind: InconsistencyKind::DuplicateOperation,
            },
        )
    } else if op_role_set(role, op).len() >= SMALL_SET_MAX {
        Some(
            Inconsistency {
                witness,
                op: alloc.opout.op,
                role,
                kind: InconsistencyKind::TooManyOperations,
            },
        )
    } else if !op_change_fits::<C>(role, op, alloc) {
        Some(
            Inconsistency {
                witness,
                op: alloc.opout.op,
                role,
                kind: InconsistencyKind::ChangeOutOfBounds,
            },
        )
    } else {
        None
    }
}

/// Whether `alloc` can be merged into `op` in the given role.
pub open spec fn op_fits<C: StateChange>(
    role: Role,
    op: IfaceOpView<C::V>,
    alloc: Assignment<<C::State as View>::V>,
) -> bool {
    &&& !op_role_set(role, op).contains(alloc.opout.op)
    &&& op_role_set(role, op).len() < SMALL_SET_MAX
    &&& op_change_fits::<C>(role, op, alloc)
}

/// `op` with `alloc` merged in, in the given role.
pub open spec fn op_merged<C: StateChange>(
    role: Role,
    op: IfaceOpView<C::V>,
    alloc: Assignment<<C::State as View>::V>,
) -> IfaceOpView<C::V> {
    match role {
        Role::Spent => IfaceOpView {
            inputs: op.inputs.insert(alloc.opout.op),
            state_change: C::with_spent(op.state_change, alloc.state),
            ..op
        },
        Role::Received => IfaceOpView {
            opids: op.opids.insert(alloc.opout.op),
            state_change: C::with_received(op.state_change, alloc.state),
            ..op
        },
    }
}

impl<C: StateChange> IfaceOp<C> {
    /// The summary of a transaction that spends `alloc`, and of which nothing
    /// else is known yet.
    pub fn from_spent(alloc: OutputAssignment<C::State>) -> (r: Self)
        ensures
            r@ == op_start::<C>(Role::Spent, alloc@),
    {
        IfaceOp {
            opids: OpIdSet::new(),
            inputs: OpIdSet::with(alloc.opout.op),
            state_change: C::from_spent(alloc.state),
            payers: SealSet::new(),
            beneficiaries: SealSet::new(),
        }
    }

    /// The summary of a transaction that assigns `alloc`, and of which
    /// nothing else is known yet.
    pub fn from_received(alloc: OutputAssignment<C::State>) -> (r: Self)
        ensures
            r@ == op_start::<C>(Role::Received, alloc@),
    {
        IfaceOp {
            opids: OpIdSet::with(alloc.opout.op),
            inputs: OpIdSet::new(),
            state_change: C::from_received(alloc.state),
            payers: SealSet::new(),
            beneficiaries: SealSet::new(),
        }
    }

    /// Tells why `alloc` cannot be merged in the given role at the
    /// transaction `witness`, if it cannot.
    pub fn fault(&self, role: Role, witness: WitnessId, alloc: &OutputAssignment<C::State>) -> (r:
        Option<Inconsistency>)
        ensures
            r == op_fault::<C>(role, self@, witness, alloc@),
            r is None <==> op_fits::<C>(role, self@, alloc@),
    {
        let op = alloc.opout.op;
        let (duplicate, full, fits) = match role {
            Role::Spent => (
                self.inputs.contains(&op),
                self.inputs.len() >= SMALL_SET_MAX,
                self.state_change.can_merge_spent(&alloc.state),
            ),
            Role::Received => (
                self.opids.contains(&op),
                self.opids.len() >= SMALL_SET_MAX,
                self.state_change.can_merge_received(&alloc.state),
            ),
        };
        if duplicate {
            Some(Inconsistency { witness, op, role, kind: InconsistencyKind::DuplicateOperation })
        } else if full {
            Some(Inconsistency { witness, op, role, kind: InconsistencyKind::TooManyOperations })
        } else if !fits {
            Some(Inconsistency { witness, op, role, kind: InconsistencyKind::ChangeOutOfBounds })
        } else {
            None
        }
    }

    /// Adds `alloc` to what the transaction spends.
    pub fn merge_spent(&mut self, alloc: OutputAssignment<C::State>)
        requires
            op_fits::<C>(Role::Spent, old(self)@, alloc@),
        ensures
            final(self)@ == op_merged::<C>(Role::Spent, old(self)@, alloc@),
    {
        let accepted = self.inputs.push(alloc.opout.op);
        assert(accepted);
        self.state_change.merge_spent(alloc.state);
    }

    /// Adds `alloc` to what the transaction assigns anew.
    pub fn merge_received(&mut self, alloc: OutputAssignment<C::State>)
        requires
            op_fits::<C>(Role::Received, old(self)@, alloc@),
        ensures
            final(self)@ == op_merged::<C>(Role::Received, old(self)@, alloc@),
    {
        let accepted = self.opids.push(alloc.opout.op);
        assert(accepted);
        self.state_change.merge_received(alloc.state);
    }
}

} // verus!
