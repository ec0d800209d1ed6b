use vstd::prelude::*;
use crate::binding::ContractError;
use crate::binding::IfaceImpl;
use crate::binding::Schema;
use crate::change::Amount;
use crate::filter::OutpointFilter;
use crate::state::AllocatedStateView;
use crate::state::Assignment;
use crate::state::assignment_views;
use crate::state::AttachAllocation;
use crate::state::AttachState;
use crate::state::ContractId;
use crate::state::DataAllocation;
use crate::state::DataState;
use crate::state::FungibleAllocation;
use crate::state::GlobalStateType;
use crate::state::KnownState;
use crate::state::Outpoint;
use crate::state::OutputAssignment;
use crate::state::owned_views;
use crate::state::OwnedAllocation;
use crate::state::RightsAllocation;
use crate::state::SemId;
use crate::state::VoidState;
use crate::stream::Allocations;
use crate::stream::is_selected;
use crate::stream::select;

verus! {

/// One record of global state: its kind, and the bytes that encode it.
#[derive(Clone, PartialEq, Eq, Debug)]
pub struct GlobalRecord {
    pub ty: GlobalStateType,
    pub data: Vec<u8>,
}

/// The state of a contract as the store knows it: the records of global
/// state, and the assignments of each kind of owned state, each in the order
/// of the store.
#[derive(Clone, PartialEq, Eq, Debug)]
pub struct ContractState {
    pub contract_id: ContractId,
    pub global: Vec<GlobalRecord>,
    pub rights: Vec<RightsAllocation>,
    pub fungible: Vec<FungibleAllocation>,
    pub data: Vec<DataAllocation>,
    pub attach: Vec<AttachAllocation>,
}

/// The encoded values of the records of the kind `ty`, in the order of the
/// store.
pub open spec fn global_values(records: Seq<GlobalRecord>, ty: GlobalStateType) -> Seq<Seq<u8>>
    decreases records.len(),
{
    if records.len() == 0 {
        Seq::empty()
    } else if records.last().ty == ty {
        global_values(records.drop_last(), ty).push(records.last().data@)
    } else {
        global_values(records.drop_last(), ty)
    }
}

/// The views of byte strings, in the same order.
pub open spec fn byte_views(values: Seq<Vec<u8>>) -> Seq<Seq<u8>> {
    values.map_values(|v: Vec<u8>| v@)
}

fn copy_bytes(bytes: &Vec<u8>) -> (r: Vec<u8>)
    ensures
        r@ == bytes@,
{
    let mut out: Vec<u8> = Vec::new();
    let mut i: usize = 0;
    while i < bytes.len()
        invariant
            i <= bytes.len(),
            out@ == bytes@.take(i as int),
        decreases bytes.len() - i,
    {
        out.push(bytes[i]);
        assert(bytes@.take(i as int + 1) =~= bytes@.take(i as int).push(bytes@[i as int]));
        i += 1;
    }
    assert(bytes@.take(bytes.len() as int) =~= bytes@);
    out
}

/// The global state of one field, before it is decoded: the type that
/// decodes it, and the encoded values in the order of the store.
#[derive(Clone, PartialEq, Eq, Debug)]
pub struct GlobalValues {
    pub sem_id: SemId,
    pub values: Vec<Vec<u8>>,
}

/// A contract as seen through an interface: the state that the store holds,
/// the schema, and the binding of the interface's field names to the schema.
#[derive(Clone, PartialEq, Eq, Debug)]
pub struct ContractIface {
    pub state: ContractState,
    pub schema: Schema,
    pub iface: IfaceImpl,
}

/// Appends to `out` copies of the records bound to outputs that the filter
/// holds, each handed on as state of any kind.
fn append_owned<S: KnownState, F: OutpointFilter>(
    out: &mut Vec<OwnedAllocation>,
    records: &Vec<OutputAssignment<S>>,
    filter: &F,
)
    ensures
        assignment_views(final(out)@) == assignment_views(old(out)@) + owned_views::<S>(
            select(assignment_views(records@), None, *filter),
        ),
{
    let ghost before = assignment_views(out@);
    let ghost views = assignment_views(records@);
    let ghost keep = |a: Assignment<S::V>| is_selected(a, None, *filter);
    let mut i: usize = 0;
    proof {
        reveal(Seq::filter);
        assert(views.take(0).filter(keep) =~= Seq::empty());
        assert(before + owned_views::<S>(views.take(0).filter(keep)) =~= before);
    }
    while i < records.len()
        invariant
            i <= records.len(),
            before == assignment_views(old(out)@),
            views == assignment_views(records@),
            keep == |a: Assignment<S::V>| is_selected(a, None, *filter),
            assignment_views(out@) == before + owned_views::<S>(views.take(i as int).filter(keep)),
        decreases records.len() - i,
    {
        let record = &records[i];
        proof {
            assert(views.take(i as int + 1) =~= views.take(i as int).push(record@));
            views.take(i as int).lemma_filter_push(record@, keep);
        }
        if filter.include_outpoint(record.seal.to_outpoint()) {
            let ghost done = assignment_views(out@);
            let owned = record.duplicate().into_owned();
            let ghost view = owned@;
            out.push(owned);
            proof {
                let selected = views.take(i as int).filter(keep);
                assert(assignment_views(out@) =~= done.push(view));
                assert(owned_views::<S>(selected.push(record@)) =~= owned_views::<S>(
                    selected,
                ).push(view));
                assert(done.push(view) =~= before + owned_views::<S>(selected.push(record@)));
            }
        }
        i += 1;
    }
    proof {
        assert(views.take(records.len() as int) =~= views);
    }
}

impl ContractIface {
    pub fn contract_id(&self) -> (r: ContractId)
        ensures
            r == self.state.contract_id,
    {
        self.state.contract_id
    }

    /// The global state of the field `name`: the type that decodes it, and
    /// its encoded values in the order of the store. The values are handed
    /// out as they are; to decode them is the caller's part.
    ///
    /// The schema must know the kind of state that the name is bound to.
    pub fn global(&self, name: &str) -> (r: Result<GlobalValues, ContractError>)
        requires
            self.iface.global_binding(name@) matches Some(ty) ==> self.schema.global_sem_id(ty)
                is Some,
        ensures
            match self.iface.global_binding(name@) {
                None => r matches Err(e) && e.field_name() == name@,
                Some(ty) => r matches Ok(found) && Some(found.sem_id) == self.schema.global_sem_id(
                    ty,
                ) && byte_views(found.values@) == global_values(self.state.global@, ty),
            },
    {
        let name = name.to_owned();
        let ty = match self.iface.global_type(&name) {
            Some(ty) => ty,
            None => {
                return Err(ContractError::FieldNameUnknown(name));
            },
        };
        let sem_id = match self.schema.sem_id(ty) {
            Some(id) => id,
            None => vstd::pervasive::unreached(),
        };
        let mut values: Vec<Vec<u8>> = Vec::new();
        let mut i: usize = 0;
        while i < self.state.global.len()
            invariant
                i <= self.state.global.len(),
                byte_views(values@) == global_values(self.state.global@.take(i as int), ty),
            decreases self.state.global.len() - i,
        {
            let record = &self.state.global[i];
            proof {
                assert(self.state.global@.take(i as int + 1).drop_last()
                    =~= self.state.global@.take(i as int));
            }
            if record.ty == ty {
                let ghost done = byte_views(values@);
                let copy = copy_bytes(&record.data);
                values.push(copy);
                proof {
                    assert(byte_views(values@) =~= done.push(record.data@));
                }
            }
            i += 1;
        }
        proof {
            assert(self.state.global@.take(self.state.global.len() as int)
                =~= self.state.global@);
        }
        Ok(GlobalValues { sem_id, values })
    }

    /// A pass over those of `state` that are of the slot that `name` is bound
    /// to, and bound to outputs that the filter holds.
    pub fn extract_state<'c, S: KnownState, F: OutpointFilter>(
        &self,
        state: &'c Vec<OutputAssignment<S>>,
        name: &str,
        filter: F,
    ) -> (r: Result<Allocations<'c, S, F>, ContractError>)
        ensures
            match self.iface.assignment_binding(name@) {
                None => r matches Err(e) && e.field_name() == name@,
                Some(ty) => r matches Ok(pass) && pass.wf() && pass.remaining() == select(
                    assignment_views(state@),
                    Some(ty),
                    filter,
                ),
            },
    {
        let name = name.to_owned();
        match self.iface.assignments_type(&name) {
            Some(ty) => Ok(Allocations::new(state, Some(ty), filter)),
            None => Err(ContractError::FieldNameUnknown(name)),
        }
    }

    /// A pass over the rights of the field `name` on the outputs that the
    /// filter holds.
    pub fn rights<'c, F: OutpointFilter>(&'c self, name: &str, filter: F) -> (r: Result<
        Allocations<'c, VoidState, F>,
        ContractError,
    >)
        ensures
            match self.iface.assignment_binding(name@) {
                None => r matches Err(e) && e.field_name() == name@,
                Some(ty) => r matches Ok(pass) && pass.wf() && pass.remaining() == select(
                    assignment_views(self.state.rights@),
                    Some(ty),
                    filter,
                ),
            },
    {
        self.extract_state(&self.state.rights, name, filter)
    }

    /// The rights of the field `name` on the outputs that the filter holds.
    pub fn rights_all<F: OutpointFilter>(&self, name: &str, filter: F) -> (r: Result<
        Vec<RightsAllocation>,
        ContractError,
    >)
        ensures
            match self.iface.assignment_binding(name@) {
                None => r matches Err(e) && e.field_name() == name@,
                Some(ty) => r matches Ok(found) && assignment_views(found@) == select(
                    assignment_views(self.state.rights@),
                    Some(ty),
                    filter,
                ),
            },
    {
        match self.extract_state(&self.state.rights, name, filter) {
            Ok(pass) => Ok(pass.collect()),
            Err(e) => Err(e),
        }
    }

    /// A pass over the amounts of the field `name` on the outputs that the
    /// filter holds.
    pub fn fungible<'c, F: OutpointFilter>(&'c self, name: &str, filter: F) -> (r: Result<
        Allocations<'c, Amount, F>,
        ContractError,
    >)
        ensures
            match self.iface.assignment_binding(name@) {
                None => r matches Err(e) && e.field_name() == name@,
                Some(ty) => r matches Ok(pass) && pass.wf() && pass.remaining() == select(
                    assignment_views(self.state.fungible@),
                    Some(ty),
                    filter,
                ),
            },
    {
        self.extract_state(&self.state.fungible, name, filter)
    }

    /// The amounts of the field `name` on the outputs that the filter holds.
    pub fn fungible_all<F: OutpointFilter>(&self, name: &str, filter: F) -> (r: Result<
        Vec<FungibleAllocation>,
        ContractError,
    >)
        ensures
            match self.iface.assignment_binding(name@) {
                None => r matches Err(e) && e.field_name() == name@,
                Some(ty) => r matches Ok(found) && assignment_views(found@) == select(
                    assignment_views(self.state.fungible@),
                    Some(ty),
                    filter,
                ),
            },
    {
        match self.extract_state(&self.state.fungible, name, filter) {
            Ok(pass) => Ok(pass.collect()),
            Err(e) => Err(e),
        }
    }

    /// A pass over the data of the field `name` on the outputs that the
    /// filter holds.
    pub fn data<'c, F: OutpointFilter>(&'c self, name: &str, filter: F) -> (r: Result<
        Allocations<'c, DataState, F>,
        ContractError,
    >)
        ensures
            match self.iface.assignment_binding(name@) {
                None => r matches Err(e) && e.field_name() == name@,
                Some(ty) => r matches Ok(pass) && pass.wf() && pass.remaining() == select(
                    assignment_views(self.state.data@),
                    Some(ty),
                    filter,
                ),
            },
    {
        self.extract_state(&self.state.data, name, filter)
    }

    /// The data of the field `name` on the outputs that the filter holds.
    pub fn data_all<F: OutpointFilter>(&self, name: &str, filter: F) -> (r: Result<
        Vec<DataAllocation>,
        ContractError,
    >)
        ensures
            match self.iface.assignment_binding(name@) {
                None => r matches Err(e) && e.field_name() == name@,
                Some(ty) => r matches Ok(found) && assignment_views(found@) == select(
                    assignment_views(self.state.data@),
                    Some(ty),
                    filter,
                ),
            },
    {
        match self.extract_state(&self.state.data, name, filter) {
            Ok(pass) => Ok(pass.collect()),
            Err(e) => Err(e),
        }
    }

    /// A pass over the attachments of the field `name` on the outputs that
    /// the filter holds.
    pub fn attachments<'c, F: OutpointFilter>(&'c self, name: &str, filter: F) -> (r: Result<
        Allocations<'c, AttachState, F>,
        ContractError,
    >)
        ensures
            match self.iface.assignment_binding(name@) {
                None => r matches Err(e) && e.field_name() == name@,
                Some(ty) => r matches Ok(pass) && pass.wf() && pass.remaining() == select(
                    assignment_views(self.state.attach@),
                    Some(ty),
                    filter,
                ),
            },
    {
        self.extract_state(&self.state.attach, name, filter)
    }

    /// The attachments of the field `name` on the outputs that the filter
    /// holds.
    pub fn attachments_all<F: OutpointFilter>(&self, name: &str, filter: F) -> (r: Result<
        Vec<AttachAllocation>,
        ContractError,
    >)
        ensures
            match self.iface.assignment_binding(name@) {
                None => r matches Err(e) && e.field_name() == name@,
                Some(ty) => r matches Ok(found) && assignment_views(found@) == select(
                    assignment_views(self.state.attach@),
                    Some(ty),
                    filter,
                ),
            },
    {
        match self.extract_state(&self.state.attach, name, filter) {
            Ok(pass) => Ok(pass.collect()),
            Err(e) => Err(e),
        }
    }

    /// What the contract assigns to the outputs that the filter holds, of
    /// whatever field and kind: first the rights, then the amounts, then the
    /// data, then the attachments; within a kind, in the order of the store.
    pub open spec fn allocated(&self, filter: impl OutpointFilter) -> Seq<
        Assignment<AllocatedStateView>,
    > {
        owned_views::<VoidState>(select(assignment_views(self.state.rights@), None, filter))
            + owned_views::<Amount>(select(assignment_views(self.state.fungible@), None, filter))
            + owned_views::<DataState>(select(assignment_views(self.state.data@), None, filter))
            + owned_views::<AttachState>(
            select(assignment_views(self.state.attach@), None, filter),
        )
    }

    /// Everything that the contract assigns to the outputs that the filter
    /// holds.
    pub fn allocations<F: OutpointFilter>(&self, filter: &F) -> (r: Vec<OwnedAllocation>)
        ensures
            assignment_views(r@) == self.allocated(*filter),
    {
        let mut out: Vec<OwnedAllocation> = Vec::new();
        proof {
            assert(assignment_views(out@) =~= Seq::empty());
        }
        append_owned(&mut out, &self.state.rights, filter);
        append_owned(&mut out, &self.state.fungible, filter);
        append_owned(&mut out, &self.state.data, filter);
        append_owned(&mut out, &self.state.attach, filter);
        proof {
            assert(assignment_views(out@) =~= self.allocated(*filter));
        }
        out
    }

    /// Everything that the contract assigns to one output.
    pub fn outpoint_allocations(&self, outpoint: Outpoint) -> (r: Vec<OwnedAllocation>)
        ensures
            assignment_views(r@) == self.allocated(outpoint),
    {
        self.allocations(&outpoint)
    }
}

/// Nothing that the contract is found to assign is bound to an output that
/// the filter leaves out.
pub proof fn lemma_allocated_within_filter<F: OutpointFilter>(
    contract: ContractIface,
    filter: F,
    i: int,
)
    requires
        0 <= i < contract.allocated(filter).len(),
    ensures
        filter.includes(contract.allocated(filter)[i].seal.outpoint()),
{
    let rights = select(assignment_views(contract.state.rights@), None, filter);
    let fungible = select(assignment_views(contract.state.fungible@), None, filter);
    let data = select(assignment_views(contract.state.data@), None, filter);
    let attach = select(assignment_views(contract.state.attach@), None, filter);
    let a = rights.len() as int;
    let b = a + fungible.len();
    let c = b + data.len();
    if i < a {
        crate::stream::lemma_select_respects_filter(
            assignment_views(contract.state.rights@),
            None,
            filter,
            i,
        );
    } else if i < b {
        crate::stream::lemma_select_respects_filter(
            assignment_views(contract.state.fungible@),
            None,
            filter,
            i - a,
        );
    } else if i < c {
        crate::stream::lemma_select_respects_filter(
            assignment_views(contract.state.data@),
            None,
            filter,
            i - b,
        );
    } else {
        crate::stream::lemma_select_respects_filter(
            assignment_views(contract.state.attach@),
            None,
            filter,
            i - c,
        );
    }
}

} // verus!
