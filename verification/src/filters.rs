//! The collector filters of a runner: handles of the filters that the
//! application keeps, by category and in the order of their registration.
//!
//! A filter is added by a control message and leaves only when it says, on
//! being offered an event, that it is no longer interested.

use crate::machine::{kept, FilterSetView};
use crate::model::FilterId;
use crate::protocol::{EventKind, FilterKind};
use vstd::prelude::*;

verus! {

/// The registered filters.
pub struct FilterSet {
    event: Vec<FilterId>,
    message: Vec<FilterId>,
    reaction: Vec<FilterId>,
    component_interaction: Vec<FilterId>,
    modal_interaction: Vec<FilterId>,
}

impl View for FilterSet {
    type V = FilterSetView;

    closed spec fn view(&self) -> FilterSetView {
        FilterSetView {
            event: self.event@,
            message: self.message@,
            reaction: self.reaction@,
            component_interaction: self.component_interaction@,
            modal_interaction: self.modal_interaction@,
        }
    }
}

/// Drops from `filters` each filter whose verdict is `false`, in place. The
/// others keep their order.
fn compact(filters: &mut Vec<FilterId>, verdicts: &Vec<bool>)
    requires
        old(filters)@.len() == verdicts@.len(),
    ensures
        final(filters)@ == kept(old(filters)@, verdicts@),
{
    let ghost before = filters@;
    let n = filters.len();
    let mut read: usize = 0;
    let mut write: usize = 0;
    while read < n
        invariant
            n == before.len(),
            n == verdicts@.len(),
            filters@.len() == n,
            write <= read <= n,
            filters@.take(write as int) == kept(before.take(read as int), verdicts@.take(read as int)),
            forall|j: int| read <= j < n ==> filters@[j] == before[j],
        decreases n - read,
    {
        proof {
            assert(before.take(read + 1).drop_last() == before.take(read as int));
            assert(verdicts@.take(read + 1).drop_last() == verdicts@.take(read as int));
        }
        if verdicts[read] {
            let filter = filters[read];
            filters.set(write, filter);
            assert(filters@.take(write + 1) == filters@.take(write as int).push(filter));
            write = write + 1;
        }
        read = read + 1;
    }
    filters.truncate(write);
    assert(before.take(n as int) == before);
    assert(verdicts@.take(n as int) == verdicts@);
}

/// The category of filters that an event goes to because of its subtype, if
/// there is one.
pub fn typed_filter(event: EventKind) -> (kind: Option<FilterKind>)
    ensures
        kind == crate::machine::typed_filter(event),
{
    match event {
        EventKind::MessageCreate => Some(FilterKind::Message),
        EventKind::ReactionAdd | EventKind::ReactionRemove => Some(FilterKind::Reaction),
        EventKind::ComponentInteraction => Some(FilterKind::ComponentInteraction),
        EventKind::ModalSubmit => Some(FilterKind::ModalInteraction),
        _ => None,
    }
}

impl FilterSet {
    /// A set without filters.
    pub fn new() -> (set: FilterSet)
        ensures
            set@ == FilterSetView::empty(),
    {
        FilterSet {
            event: Vec::new(),
            message: Vec::new(),
            reaction: Vec::new(),
            component_interaction: Vec::new(),
            modal_interaction: Vec::new(),
        }
    }

    /// The filters of a category, in the order in which an event is offered
    /// to them.
    pub fn of(&self, kind: FilterKind) -> (filters: &Vec<FilterId>)
        ensures
            filters@ == self@.of(kind),
    {
        match kind {
            FilterKind::Event => &self.event,
            FilterKind::Message => &self.message,
            FilterKind::Reaction => &self.reaction,
            FilterKind::ComponentInteraction => &self.component_interaction,
            FilterKind::ModalInteraction => &self.modal_interaction,
        }
    }

    /// Registers a filter behind those of its category.
    pub fn push(&mut self, kind: FilterKind, filter: FilterId)
        ensures
            final(self)@ == old(self)@.with(kind, old(self)@.of(kind).push(filter)),
    {
        match kind {
            FilterKind::Event => self.event.push(filter),
            FilterKind::Message => self.message.push(filter),
            FilterKind::Reaction => self.reaction.push(filter),
            FilterKind::ComponentInteraction => self.component_interaction.push(filter),
            FilterKind::ModalInteraction => self.modal_interaction.push(filter),
        }
    }

    /// Takes the verdicts of the filters of a category, one for each filter
    /// in order, and drops the filters that are no longer interested. With
    /// any other number of verdicts the set is left as it is, and the result
    /// is `false`.
    pub fn retain(&mut self, kind: FilterKind, verdicts: &Vec<bool>) -> (taken: bool)
        ensures
            taken == (verdicts@.len() == old(self)@.of(kind).len()),
            taken ==> final(self)@ == old(self)@.with(kind, kept(old(self)@.of(kind), verdicts@)),
            !taken ==> final(self)@ == old(self)@,
    {
        if verdicts.len() != self.of(kind).len() {
            return false;
        }
        match kind {
            FilterKind::Event => compact(&mut self.event, verdicts),
            FilterKind::Message => compact(&mut self.message, verdicts),
            FilterKind::Reaction => compact(&mut self.reaction, verdicts),
            FilterKind::ComponentInteraction => compact(&mut self.component_interaction, verdicts),
            FilterKind::ModalInteraction => compact(&mut self.modal_interaction, verdicts),
        }
        true
    }
}

} // verus!
