use vstd::prelude::*;
use crate::filter::FilterIncludeAll;
use crate::filter::OutpointFilter;
use crate::state::Assignment;
use crate::state::AssignmentType;
use crate::state::assignment_views;
use crate::state::KnownState;
use crate::state::OutputAssignment;

verus! {

/// Whether a record is of the slot `ty` (of any slot where `ty` is none) and
/// bound to an output that the filter holds.
pub open spec fn is_selected<V, F: OutpointFilter>(
    a: Assignment<V>,
    ty: Option<AssignmentType>,
    filter: F,
) -> bool {
    &&& ty matches Some(t) ==> a.opout.ty == t
    &&& filter.includes(a.seal.outpoint())
}

/// The records of the slot `ty` (of any slot where `ty` is none) that are
/// bound to outputs that the filter holds, in the order of `records`.
pub open spec fn select<V, F: OutpointFilter>(
    records: Seq<Assignment<V>>,
    ty: Option<AssignmentType>,
    filter: F,
) -> Seq<Assignment<V>> {
    records.filter(|a: Assignment<V>| is_selected(a, ty, filter))
}

/// Selecting from the records after the first `at` either yields the record
/// at `at` and then what is selected after it, or only the latter.
pub proof fn lemma_select_next<S: View, F: OutpointFilter>(
    records: Seq<OutputAssignment<S>>,
    ty: Option<AssignmentType>,
    filter: F,
    at: int,
)
    requires
        0 <= at < records.len(),
    ensures
        select(assignment_views(records.skip(at)), ty, filter) == (if is_selected(
            records[at]@,
            ty,
            filter,
        ) {
            seq![records[at]@]
        } else {
            Seq::empty()
        }) + select(assignment_views(records.skip(at + 1)), ty, filter),
{
    let rest = assignment_views(records.skip(at + 1));
    assert(assignment_views(records.skip(at)) =~= seq![records[at]@] + rest);
    rest.lemma_filter_prepend(records[at]@, |a: Assignment<S::V>| is_selected(a, ty, filter));
}

/// Two conditions that agree on every value keep the same items.
pub proof fn lemma_filter_agrees<A>(items: Seq<A>, p: spec_fn(A) -> bool, q: spec_fn(A) -> bool)
    requires
        forall|a: A| #[trigger] p(a) == q(a),
    ensures
        items.filter(p) == items.filter(q),
    decreases items.len(),
{
    reveal(Seq::filter);
    if items.len() > 0 {
        lemma_filter_agrees(items.drop_last(), p, q);
    }
}

/// With every output chosen, a query for a slot yields exactly the records
/// of that slot, in the order of the store.
pub proof fn lemma_select_every_output<V>(records: Seq<Assignment<V>>, ty: AssignmentType)
    ensures
        select(records, Some(ty), FilterIncludeAll) == records.filter(
            |a: Assignment<V>| a.opout.ty == ty,
        ),
{
    lemma_filter_agrees(
        records,
        |a: Assignment<V>| is_selected(a, Some(ty), FilterIncludeAll),
        |a: Assignment<V>| a.opout.ty == ty,
    );
}

/// What a query yields is a record of the store, of the slot asked for, and
/// bound to an output that the filter holds.
pub proof fn lemma_select_respects_filter<V, F: OutpointFilter>(
    records: Seq<Assignment<V>>,
    ty: Option<AssignmentType>,
    filter: F,
    i: int,
)
    requires
        0 <= i < select(records, ty, filter).len(),
    ensures
        is_selected(select(records, ty, filter)[i], ty, filter),
        filter.includes(select(records, ty, filter)[i].seal.outpoint()),
        records.contains(select(records, ty, filter)[i]),
{
    let keep = |a: Assignment<V>| is_selected(a, ty, filter);
    records.lemma_filter_pred(keep, i);
    assert(records.filter(keep).contains(records.filter(keep)[i]));
    records.lemma_filter_contains_rev(keep, records.filter(keep)[i]);
}

/// A record of the store that is of the slot asked for, and bound to an
/// output that the filter holds, is among what the query yields.
pub proof fn lemma_select_is_complete<V, F: OutpointFilter>(
    records: Seq<Assignment<V>>,
    ty: Option<AssignmentType>,
    filter: F,
    k: int,
)
    requires
        0 <= k < records.len(),
        is_selected(records[k], ty, filter),
    ensures
        select(records, ty, filter).contains(records[k]),
{
    let keep = |a: Assignment<V>| is_selected(a, ty, filter);
    assert(keep(records[k]));
    records.lemma_filter_contains(keep, k);
}

/// A single pass over the records of one kind of state that a query selects.
/// Each record is handed out once, in the order of the store.
pub struct Allocations<'a, S, F> {
    records: &'a Vec<OutputAssignment<S>>,
    ty: Option<AssignmentType>,
    filter: F,
    at: usize,
}

impl<'a, S: KnownState, F: OutpointFilter> Allocations<'a, S, F> {
    /// The position of the pass lies within the records.
    pub closed spec fn wf(&self) -> bool {
        self.at <= self.records@.len()
    }

    /// What the pass has yet to hand out.
    pub closed spec fn remaining(&self) -> Seq<Assignment<S::V>> {
        select(assignment_views(self.records@.skip(self.at as int)), self.ty, self.filter)
    }

    /// Starts a pass over `records`.
    pub fn new(records: &'a Vec<OutputAssignment<S>>, ty: Option<AssignmentType>, filter: F) -> (r:
        Self)
        ensures
            r.wf(),
            r.remaining() == select(assignment_views(records@), ty, filter),
    {
        assert(records@.skip(0) =~= records@);
        Allocations { records, ty, filter, at: 0 }
    }

    /// Hands out the next record that the query selects, or nothing when the
    /// pass is over.
    pub fn next(&mut self) -> (r: Option<OutputAssignment<S>>)
        requires
            old(self).wf(),
        ensures
            final(self).wf(),
            match r {
                Some(a) => old(self).remaining().len() > 0 && a@ == old(self).remaining()[0]
                    && final(self).remaining() == old(self).remaining().skip(1),
                None => old(self).remaining().len() == 0 && final(self).remaining().len() == 0,
            },
    {
        while self.at < self.records.len()
            invariant
                self.wf(),
                self.records == old(self).records,
                self.ty == old(self).ty,
                self.filter == old(self).filter,
                self.remaining() == old(self).remaining(),
            decreases self.records.len() - self.at,
        {
            let record = &self.records[self.at];
            proof {
                lemma_select_next(self.records@, self.ty, self.filter, self.at as int);
            }
            self.at += 1;
            let of_slot = match self.ty {
                Some(t) => record.opout.ty == t,
                None => true,
            };
            if of_slot && self.filter.include_outpoint(record.seal.to_outpoint()) {
                let copy = record.duplicate();
                proof {
                    let rest = select(
                        assignment_views(self.records@.skip(self.at as int)),
                        self.ty,
                        self.filter,
                    );
                    assert((seq![record@] + rest).skip(1) =~= rest);
                }
                return Some(copy);
            }
        }
        proof {
            assert(self.at == self.records@.len());
            assert(assignment_views(self.records@.skip(self.at as int)) =~= Seq::empty());
            reveal(Seq::filter);
        }
        None
    }

    /// Runs the pass to its end and returns what it handed out.
    pub fn collect(self) -> (r: Vec<OutputAssignment<S>>)
        requires
            self.wf(),
        ensures
            assignment_views(r@) == self.remaining(),
    {
        let ghost all = self.remaining();
        let mut pass = self;
        let mut out: Vec<OutputAssignment<S>> = Vec::new();
        loop
            invariant
                pass.wf(),
                assignment_views(out@) + pass.remaining() == all,
            ensures
                assignment_views(out@) == all,
            decreases pass.remaining().len(),
        {
            let ghost before = pass.remaining();
            let ghost done = assignment_views(out@);
            match pass.next() {
                Some(a) => {
                    let ghost view = a@;
                    out.push(a);
                    proof {
                        assert(assignment_views(out@) =~= done.push(view));
                        assert(done.push(view) + before.skip(1) =~= done + before);
                    }
                },
                None => {
                    proof {
                        assert(done + before =~= done);
                    }
                    break ;
                },
            }
        }
        out
    }
}

} // verus!
