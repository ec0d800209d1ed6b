use vstd::prelude::*;
use crate::state::GlobalStateType;
use crate::state::SemId;

verus! {

/// The one error that a query of a contract can return: the interface does
/// not bind the field name.
#[derive(Clone, PartialEq, Eq, Debug)]
pub enum ContractError {
    /// The name that is unknown to the contract interface.
    FieldNameUnknown(String),
}

impl ContractError {
    /// The name that the error is about.
    pub open spec fn field_name(self) -> Seq<char> {
        match self {
            ContractError::FieldNameUnknown(name) => name@,
        }
    }

    /// The name that the error is about.
    pub fn name(&self) -> (r: &String)
        ensures
            r@ == self.field_name(),
    {
        match self {
            ContractError::FieldNameUnknown(name) => name,
        }
    }
}

/// A field name of an interface, bound to the identifier that the schema
/// gives to the state.
#[derive(Clone, PartialEq, Eq, Debug)]
pub struct NamedField {
    pub name: String,
    pub id: u16,
}

/// The identifier bound to `name` by the first field of that name, if there
/// is one.
pub open spec fn bound_id(fields: Seq<NamedField>, name: Seq<char>) -> Option<u16>
    decreases fields.len(),
{
    if fields.len() == 0 {
        None
    } else {
        match bound_id(fields.drop_last(), name) {
            Some(id) => Some(id),
            None => if fields.last().name@ == name {
                Some(fields.last().id)
            } else {
                None
            },
        }
    }
}

/// A name that is bound is the name of one of the fields, and the identifier
/// is that field's; a name that is not bound is the name of none.
pub proof fn lemma_bound_id(fields: Seq<NamedField>, name: Seq<char>)
    ensures
        match bound_id(fields, name) {
            Some(id) => exists|i: int|
                0 <= i < fields.len() && (#[trigger] fields[i]).name@ == name && fields[i].id
                    == id,
            None => forall|i: int| 0 <= i < fields.len() ==> (#[trigger] fields[i]).name@ != name,
        },
    decreases fields.len(),
{
    if fields.len() > 0 {
        lemma_bound_id(fields.drop_last(), name);
        match bound_id(fields.drop_last(), name) {
            Some(id) => {
                let i = choose|i: int|
                    0 <= i < fields.drop_last().len() && (#[trigger] fields.drop_last()[i]).name@
                        == name && fields.drop_last()[i].id == id;
                assert(fields[i].name@ == name && fields[i].id == id);
            },
            None => {
                if fields.last().name@ == name {
                    assert(fields[fields.len() - 1].name@ == name);
                } else {
                    assert forall|i: int| 0 <= i < fields.len() implies (#[trigger] fields[i]).name@
                        != name by {
                        if i < fields.len() - 1 {
                            assert(fields.drop_last()[i].name@ != name);
                        }
                    }
                }
            },
        }
    }
}

fn find_field(fields: &Vec<NamedField>, name: &String) -> (r: Option<u16>)
    ensures
        r == bound_id(fields@, name@),
{
    let mut i: usize = 0;
    while i < fields.len()
        invariant
            i <= fields.len(),
            bound_id(fields@.take(i as int), name@) is None,
        decreases fields.len() - i,
    {
        assert(fields@.take(i as int + 1).drop_last() =~= fields@.take(i as int));
        if fields[i].name == *name {
            proof {
                lemma_bound_id_extends(fields@, name@, i as int + 1);
            }
            return Some(fields[i].id);
        }
        i += 1;
    }
    assert(fields@.take(fields.len() as int) =~= fields@);
    None
}

/// What a prefix of the fields binds a name to, all the fields bind it to.
pub proof fn lemma_bound_id_extends(fields: Seq<NamedField>, name: Seq<char>, n: int)
    requires
        0 <= n <= fields.len(),
        bound_id(fields.take(n), name) is Some,
    ensures
        bound_id(fields, name) == bound_id(fields.take(n), name),
    decreases fields.len() - n,
{
    if n == fields.len() {
        assert(fields.take(n) =~= fields);
    } else {
        assert(fields.take(n + 1).drop_last() =~= fields.take(n));
        lemma_bound_id_extends(fields, name, n + 1);
    }
}

/// The binding of an interface to a schema: which identifier of the schema
/// each field name of the interface stands for, for global state and for
/// owned state.
#[derive(Clone, PartialEq, Eq, Debug)]
pub struct IfaceImpl {
    pub iface_id: [u8; 32],
    pub global_state: Vec<NamedField>,
    pub assignments: Vec<NamedField>,
}

impl IfaceImpl {
    /// The kind of global state that the interface binds `name` to.
    pub open spec fn global_binding(&self, name: Seq<char>) -> Option<u16> {
        bound_id(self.global_state@, name)
    }

    /// The slot of owned state that the interface binds `name` to.
    pub open spec fn assignment_binding(&self, name: Seq<char>) -> Option<u16> {
        bound_id(self.assignments@, name)
    }

    pub fn global_type(&self, name: &String) -> (r: Option<GlobalStateType>)
        ensures
            r == self.global_binding(name@),
    {
        find_field(&self.global_state, name)
    }

    pub fn assignments_type(&self, name: &String) -> (r: Option<u16>)
        ensures
            r == self.assignment_binding(name@),
    {
        find_field(&self.assignments, name)
    }
}

/// What the schema says of one kind of global state: the type that decodes
/// it.
#[derive(Copy, Clone, PartialEq, Eq, Debug)]
pub struct GlobalStateSchema {
    pub ty: GlobalStateType,
    pub sem_id: SemId,
}

/// The type that the first entry for `ty` names, if there is one.
pub open spec fn schema_sem_id(entries: Seq<GlobalStateSchema>, ty: GlobalStateType) -> Option<
    SemId,
>
    decreases entries.len(),
{
    if entries.len() == 0 {
        None
    } else {
        match schema_sem_id(entries.drop_last(), ty) {
            Some(id) => Some(id),
            None => if entries.last().ty == ty {
                Some(entries.last().sem_id)
            } else {
                None
            },
        }
    }
}

/// What the first entries of a schema say of a kind of global state, the
/// whole schema says.
pub proof fn lemma_schema_sem_id_extends(
    entries: Seq<GlobalStateSchema>,
    ty: GlobalStateType,
    n: int,
)
    requires
        0 <= n <= entries.len(),
        schema_sem_id(entries.take(n), ty) is Some,
    ensures
        schema_sem_id(entries, ty) == schema_sem_id(entries.take(n), ty),
    decreases entries.len() - n,
{
    if n == entries.len() {
        assert(entries.take(n) =~= entries);
    } else {
        assert(entries.take(n + 1).drop_last() =~= entries.take(n));
        lemma_schema_sem_id_extends(entries, ty, n + 1);
    }
}

/// The part of a schema that a query reads: the kinds of global state.
#[derive(Clone, PartialEq, Eq, Debug)]
pub struct Schema {
    pub global_types: Vec<GlobalStateSchema>,
}

impl Schema {
    /// The type that decodes global state of the kind `ty`.
    pub open spec fn global_sem_id(&self, ty: GlobalStateType) -> Option<SemId> {
        schema_sem_id(self.global_types@, ty)
    }

    pub fn sem_id(&self, ty: GlobalStateType) -> (r: Option<SemId>)
        ensures
            r == self.global_sem_id(ty),
    {
        let mut i: usize = 0;
        while i < self.global_types.len()
            invariant
                i <= self.global_types.len(),
                schema_sem_id(self.global_types@.take(i as int), ty) is None,
            decreases self.global_types.len() - i,
        {
            assert(self.global_types@.take(i as int + 1).drop_last() =~= self.global_types@.take(
                i as int,
            ));
            if self.global_types[i].ty == ty {
                proof {
                    lemma_schema_sem_id_extends(self.global_types@, ty, i as int + 1);
                }
                return Some(self.global_types[i].sem_id);
            }
            i += 1;
        }
        assert(self.global_types@.take(self.global_types.len() as int) =~= self.global_types@);
        None
    }
}

} // verus!
