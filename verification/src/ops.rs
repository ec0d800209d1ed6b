use vstd::prelude::*;
use crate::binding::ContractError;
use crate::change::Amount;
use crate::change::StateChange;
use crate::contract::ContractIface;
use crate::filter::OutpointFilter;
use crate::history::aggregate;
use crate::history::aggregation_fault;
use crate::history::operations;
use crate::history::try_operations;
use crate::history::WitnessOps;
use crate::operation::IfaceOpView;
use crate::operation::Inconsistency;
use crate::state::Assignment;
use crate::state::assignment_views;
use crate::state::AssignmentType;
use crate::state::AttachState;
use crate::state::DataState;
use crate::state::KnownState;
use crate::state::OutputAssignment;
use crate::state::VoidState;
use crate::state::WitnessId;
use crate::stream::select;

verus! {

/// The history of the field bound to the slot `ty`: every record of the kind
/// counts as a candidate for what a transaction spent, and the records of
/// the slot on the outputs that the filter holds count as what a transaction
/// assigned.
pub open spec fn field_history<C: StateChange, F: OutpointFilter>(
    records: Seq<Assignment<<C::State as View>::V>>,
    ty: AssignmentType,
    filter: F,
) -> Map<WitnessId, IfaceOpView<C::V>> {
    aggregate::<C>(records, select(records, Some(ty), filter))
}

/// What keeps the history of the field from being computed, if anything
/// does.
pub open spec fn field_history_fault<C: StateChange, F: OutpointFilter>(
    records: Seq<Assignment<<C::State as View>::V>>,
    ty: AssignmentType,
    filter: F,
) -> Option<Inconsistency> {
    aggregation_fault::<C>(records, select(records, Some(ty), filter))
}

/// A copy of every record, in the same order.
pub fn duplicate_all<S: KnownState>(records: &Vec<OutputAssignment<S>>) -> (r: Vec<
    OutputAssignment<S>,
>)
    ensures
        assignment_views(r@) == assignment_views(records@),
{
    let mut out: Vec<OutputAssignment<S>> = Vec::new();
    let mut i: usize = 0;
    while i < records.len()
        invariant
            i <= records.len(),
            assignment_views(out@) == assignment_views(records@).take(i as int),
        decreases records.len() - i,
    {
        let ghost done = assignment_views(out@);
        let copy = records[i].duplicate();
        let ghost view = copy@;
        out.push(copy);
        proof {
            assert(assignment_views(out@) =~= done.push(view));
            assert(assignment_views(records@).take(i as int + 1) =~= assignment_views(
                records@,
            ).take(i as int).push(records@[i as int]@));
        }
        i += 1;
    }
    proof {
        assert(assignment_views(records@).take(records.len() as int) =~= assignment_views(
            records@,
        ));
    }
    out
}

impl ContractIface {
    /// The history of the field `name` over the records of one kind of
    /// state, or what keeps the records from being aggregated.
    pub fn try_field_ops<C: StateChange, F: OutpointFilter>(
        &self,
        records: &Vec<OutputAssignment<C::State>>,
        name: &str,
        filter: F,
    ) -> (r: Result<Result<WitnessOps<C>, Inconsistency>, ContractError>)
        ensures
            match self.iface.assignment_binding(name@) {
                None => r matches Err(e) && e.field_name() == name@,
                Some(ty) => r matches Ok(found) && match found {
                    Ok(ops) => ops.wf() && ops@ == field_history::<C, F>(
                        assignment_views(records@),
                        ty,
                        filter,
                    ) && field_history_fault::<C, F>(assignment_views(records@), ty, filter)
                        is None,
                    Err(fault) => field_history_fault::<C, F>(
                        assignment_views(records@),
                        ty,
                        filter,
                    ) == Some(fault),
                },
            },
    {
        let received = match self.extract_state(records, name, filter) {
            Ok(pass) => pass.collect(),
            Err(e) => {
                return Err(e);
            },
        };
        Ok(try_operations(duplicate_all(records), received))
    }

    /// The history of the field `name` over the records of one kind of state.
    ///
    /// The records must be fit for aggregation.
    pub fn field_ops<C: StateChange, F: OutpointFilter>(
        &self,
        records: &Vec<OutputAssignment<C::State>>,
        name: &str,
        filter: F,
    ) -> (r: Result<WitnessOps<C>, ContractError>)
        requires
            self.iface.assignment_binding(name@) matches Some(ty) ==> field_history_fault::<C, F>(
                assignment_views(records@),
                ty,
                filter,
            ) is None,
        ensures
            match self.iface.assignment_binding(name@) {
                None => r matches Err(e) && e.field_name() == name@,
                Some(ty) => r matches Ok(ops) && ops.wf() && ops@ == field_history::<C, F>(
                    assignment_views(records@),
                    ty,
                    filter,
                ),
            },
    {
        let received = match self.extract_state(records, name, filter) {
            Ok(pass) => pass.collect(),
            Err(e) => {
                return Err(e);
            },
        };
        Ok(operations(duplicate_all(records), received))
    }

    /// The history of the amounts of the field `name`, by settling
    /// transaction.
    ///
    /// The amounts of the store must be fit for aggregation.
    pub fn fungible_ops<C: StateChange<State = Amount>, F: OutpointFilter>(
        &self,
        name: &str,
        filter: F,
    ) -> (r: Result<WitnessOps<C>, ContractError>)
        requires
            self.iface.assignment_binding(name@) matches Some(ty) ==> field_history_fault::<C, F>(
                assignment_views(self.state.fungible@),
                ty,
                filter,
            ) is None,
        ensures
            match self.iface.assignment_binding(name@) {
                None => r matches Err(e) && e.field_name() == name@,
                Some(ty) => r matches Ok(ops) && ops.wf() && ops@ == field_history::<C, F>(
                    assignment_views(self.state.fungible@),
                    ty,
                    filter,
                ),
            },
    {
        self.field_ops(&self.state.fungible, name, filter)
    }

    /// The history of the data of the field `name`, by settling transaction.
    ///
    /// The data of the store must be fit for aggregation.
    pub fn data_ops<C: StateChange<State = DataState>, F: OutpointFilter>(
        &self,
        name: &str,
        filter: F,
    ) -> (r: Result<WitnessOps<C>, ContractError>)
        requires
            self.iface.assignment_binding(name@) matches Some(ty) ==> field_history_fault::<C, F>(
                assignment_views(self.state.data@),
                ty,
                filter,
            ) is None,
        ensures
            match self.iface.assignment_binding(name@) {
                None => r matches Err(e) && e.field_name() == name@,
                Some(ty) => r matches Ok(ops) && ops.wf() && ops@ == field_history::<C, F>(
                    assignment_views(self.state.data@),
                    ty,
                    filter,
                ),
            },
    {
        self.field_ops(&self.state.data, name, filter)
    }

    /// The history of the rights of the field `name`, by settling
    /// transaction.
    ///
    /// The rights of the store must be fit for aggregation.
    pub fn rights_ops<C: StateChange<State = VoidState>, F: OutpointFilter>(
        &self,
        name: &str,
        filter: F,
    ) -> (r: Result<WitnessOps<C>, ContractError>)
        requires
            self.iface.assignment_binding(name@) matches Some(ty) ==> field_history_fault::<C, F>(
                assignment_views(self.state.rights@),
                ty,
                filter,
            ) is None,
        ensures
            match self.iface.assignment_binding(name@) {
                None => r matches Err(e) && e.field_name() == name@,
                Some(ty) => r matches Ok(ops) && ops.wf() && ops@ == field_history::<C, F>(
                    assignment_views(self.state.rights@),
                    ty,
                    filter,
                ),
            },
    {
        self.field_ops(&self.state.rights, name, filter)
    }

    /// The history of the attachments of the field `name`, by settling
    /// transaction.
    ///
    /// The attachments of the store must be fit for aggregation.
    pub fn attachment_ops<C: StateChange<State = AttachState>, F: OutpointFilter>(
        &self,
        name: &str,
        filter: F,
    ) -> (r: Result<WitnessOps<C>, ContractError>)
        requires
            self.iface.assignment_binding(name@) matches Some(ty) ==> field_history_fault::<C, F>(
                assignment_views(self.state.attach@),
                ty,
                filter,
            ) is None,
        ensures
            match self.iface.assignment_binding(name@) {
                None => r matches Err(e) && e.field_name() == name@,
                Some(ty) => r matches Ok(ops) && ops.wf() && ops@ == field_history::<C, F>(
                    assignment_views(self.state.attach@),
                    ty,
                    filter,
                ),
            },
    {
        self.field_ops(&self.state.attach, name, filter)
    }
}

} // verus!
