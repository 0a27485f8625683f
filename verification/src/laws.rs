//! What holds of the plugin as a whole.

use vstd::prelude::*;

use crate::config::ConfigView;
use crate::plan::{plan_of, planned, PlanView, Slot};
use crate::plan::{tab_slot, tab_slots, workspace_slot, workspace_slots};
use crate::rename::{label_after, RenameView};
use crate::search::{lemma_first_index, lemma_first_index_agrees};
use crate::snapshot::{tab_is, workspace_is, Snapshot};
use crate::state::{
    a_label_of_the_plugins_is_brought_up_to_date, a_label_that_reads_back_otherwise_is_let_go,
    what_is_released_or_nameless_is_left_alone,
};
use crate::state::{shows_default, LabelKind, StateView};
use crate::text::{decimal, is_blank, is_white_space, trimmed};

verus! {

/// No two slots have one id.
pub open spec fn distinct_slots(slots: Seq<Slot>) -> bool {
    forall|i: int, j: int|
        0 <= i < j < slots.len() ==> (#[trigger] slots[i]).id != (#[trigger] slots[j]).id
}

/// No other slot has the id of this one.
pub open spec fn stands_alone(slots: Seq<Slot>, at: int) -> bool {
    forall|i: int| 0 <= i < slots.len() && i != at ==> (#[trigger] slots[i]).id != slots[at].id
}

/// One of the renames is of this id.
pub open spec fn renames_id(renames: Seq<RenameView>, id: Seq<char>) -> bool {
    exists|i: int| 0 <= i < renames.len() && (#[trigger] renames[i]).id == id
}

/// A slot as it shows once the renames are done.
pub open spec fn renamed_slot(slot: Slot, renames: Seq<RenameView>) -> Slot {
    Slot { label: label_after(renames, slot.id, slot.label), ..slot }
}

/// There is nothing left to do about a slot: no name for it, or it is left to
/// the user, or it shows the name and the plugin wrote it.
pub open spec fn settled(
    state: StateView,
    kind: LabelKind,
    slot: Slot,
    desired: Seq<char>,
) -> bool {
    ||| is_blank(desired)
    ||| state.released.contains(slot.id)
    ||| state.owned(kind).contains_key(slot.id) && state.owned(kind)[slot.id] == desired
        && slot.label == desired
}

/// `after` is `before` once the renames are done.
pub open spec fn shows_renamed(
    before: Snapshot,
    after: Snapshot,
    tabs: Seq<RenameView>,
    workspaces: Seq<RenameView>,
) -> bool {
    &&& after.panes@ == before.panes@
    &&& after.layouts@ == before.layouts@
    &&& after.focused_workspace_id == before.focused_workspace_id
    &&& after.focused_tab_id == before.focused_tab_id
    &&& after.focused_pane_id == before.focused_pane_id
    &&& after.tabs@.len() == before.tabs@.len()
    &&& forall|i: int|
        0 <= i < before.tabs@.len() ==> tab_slot(#[trigger] after.tabs@[i]) == renamed_slot(
            tab_slot(before.tabs@[i]),
            tabs,
        )
    &&& after.workspaces@.len() == before.workspaces@.len()
    &&& forall|i: int|
        0 <= i < before.workspaces@.len() ==> {
            &&& workspace_slot(#[trigger] after.workspaces@[i]) == renamed_slot(
                workspace_slot(before.workspaces@[i]),
                workspaces,
            )
            &&& after.workspaces@[i].active_tab_id == before.workspaces@[i].active_tab_id
        }
}

/// A settled slot takes no rename and leaves the state as it is.
proof fn lemma_settled(state: StateView, kind: LabelKind, slot: Slot, desired: Seq<char>)
    requires
        settled(state, kind, slot, desired),
    ensures
        state.planning(kind, slot.id, slot.label, slot.number, desired) == (
            state,
            None::<Seq<char>>,
        ),
{
}

/// What planning a number of slots leaves as it was, and what it settles.
proof fn lemma_planned(
    state: StateView,
    kind: LabelKind,
    slots: Seq<Slot>,
    desired: Seq<Seq<char>>,
)
    ensures
        ({
            let (after, renames) = planned(state, kind, slots, desired);
            &&& forall|id: Seq<char>| #[trigger]
                state.released.contains(id) ==> after.released.contains(id)
            &&& kind == LabelKind::Tab ==> after.workspaces == state.workspaces
            &&& kind == LabelKind::Workspace ==> after.tabs == state.tabs
            &&& distinct_slots(slots) ==> forall|i: int|
                0 <= i < slots.len() ==> settled(
                    after,
                    kind,
                    renamed_slot(#[trigger] slots[i], renames),
                    desired[i],
                )
            &&& forall|k: int|
                0 <= k < renames.len() ==> exists|i: int|
                    0 <= i < slots.len() && (#[trigger] renames[k]).id == (#[trigger] slots[i]).id
                        && renames[k].label == desired[i] && renames[k].label != slots[i].label
                        && !is_blank(renames[k].label) && !state.released.contains(renames[k].id)
        }),
    decreases slots.len(),
{
    if slots.len() > 0 {
        let rest = slots.drop_last();
        let last = slots.last();
        let n = slots.len() - 1;
        lemma_planned(state, kind, rest, desired);
        let (before, earlier) = planned(state, kind, rest, desired);
        let (after, renames) = planned(state, kind, slots, desired);
        let written = before.planning(kind, last.id, last.label, last.number, desired[n]).1;
        assert forall|id: Seq<char>| #[trigger] before.released.contains(id) implies
            after.released.contains(id) by {
            let i = choose|i: int| 0 <= i < before.released.len() && before.released[i] == id;
            assert(after.released[i] == id);
        }
        lemma_released_push(before, last.id);
        assert forall|k: int| 0 <= k < renames.len() implies exists|i: int|
            0 <= i < slots.len() && (#[trigger] renames[k]).id == (#[trigger] slots[i]).id
                && renames[k].label == desired[i] && renames[k].label != slots[i].label
                && !is_blank(renames[k].label) && !state.released.contains(renames[k].id) by {
            if k < earlier.len() {
                let i = choose|i: int|
                    0 <= i < rest.len() && (#[trigger] earlier[k]).id == (#[trigger] rest[i]).id
                        && earlier[k].label == desired[i] && earlier[k].label != rest[i].label
                        && !is_blank(earlier[k].label) && !state.released.contains(earlier[k].id);
                assert(slots[i] == rest[i] && renames[k] == earlier[k]);
            } else {
                assert(renames[k].id == slots[n].id);
            }
        }
        if distinct_slots(slots) {
            assert(distinct_slots(rest));
            assert forall|i: int| 0 <= i < slots.len() implies settled(
                after,
                kind,
                renamed_slot(#[trigger] slots[i], renames),
                desired[i],
            ) by {
                if i < n {
                    assert(rest[i] == slots[i]);
                    if written is Some {
                        assert(renames.drop_last() =~= earlier);
                    }
                } else {
                    if written is None {
                        assert(!renames_id(earlier, last.id)) by {
                            if renames_id(earlier, last.id) {
                                let k = choose|k: int|
                                    0 <= k < earlier.len() && (#[trigger] earlier[k]).id
                                        == last.id;
                                let j = choose|j: int|
                                    0 <= j < rest.len() && (#[trigger] earlier[k]).id == (
                                    #[trigger] rest[j]).id;
                                assert(slots[j].id == slots[n].id);
                            }
                        }
                        lemma_label_after_others(earlier, last.id, last.label);
                    }
                }
            }
        }
    }
}

/// Renames of other ids do not change a label.
proof fn lemma_label_after_others(renames: Seq<RenameView>, id: Seq<char>, label: Seq<char>)
    requires
        !renames_id(renames, id),
    ensures
        label_after(renames, id, label) == label,
    decreases renames.len(),
{
    if renames.len() > 0 {
        assert(!renames_id(renames.drop_last(), id)) by {
            if renames_id(renames.drop_last(), id) {
                let k = choose|k: int|
                    0 <= k < renames.drop_last().len() && (#[trigger] renames.drop_last()[k]).id
                        == id;
                assert(renames[k].id == id);
            }
        }
        lemma_label_after_others(renames.drop_last(), id, label);
    }
}

/// Slots that are all settled take no rename and leave the state as it is.
proof fn lemma_all_settled(
    state: StateView,
    kind: LabelKind,
    slots: Seq<Slot>,
    desired: Seq<Seq<char>>,
)
    requires
        forall|i: int| 0 <= i < slots.len() ==> settled(state, kind, #[trigger] slots[i], desired[i]),
    ensures
        planned(state, kind, slots, desired) == (state, Seq::<RenameView>::empty()),
    decreases slots.len(),
{
    if slots.len() > 0 {
        let rest = slots.drop_last();
        assert(forall|i: int| 0 <= i < rest.len() ==> #[trigger] rest[i] == slots[i]);
        lemma_all_settled(state, kind, rest, desired);
        lemma_settled(state, kind, slots.last(), desired[slots.len() - 1]);
    }
}

/// The plugin's record for an id is the same in two states.
pub open spec fn same_record(
    kind: LabelKind,
    id: Seq<char>,
    one: StateView,
    other: StateView,
) -> bool {
    &&& one.owned(kind).contains_key(id) == other.owned(kind).contains_key(id)
    &&& one.owned(kind).contains_key(id) ==> one.owned(kind)[id] == other.owned(kind)[id]
    &&& one.released.contains(id) == other.released.contains(id)
}

/// One of the slots has this id.
pub open spec fn has_slot(slots: Seq<Slot>, id: Seq<char>) -> bool {
    exists|i: int| 0 <= i < slots.len() && (#[trigger] slots[i]).id == id
}

/// A decision on one slot leaves the records of the other ids as they are.
proof fn lemma_planning_others(
    state: StateView,
    kind: LabelKind,
    slot: Slot,
    desired: Seq<char>,
    id: Seq<char>,
)
    requires
        id != slot.id,
    ensures
        same_record(
            kind,
            id,
            state.planning(kind, slot.id, slot.label, slot.number, desired).0,
            state,
        ),
{
    let after = state.planning(kind, slot.id, slot.label, slot.number, desired).0;
    if state.released.contains(id) {
        let i = choose|i: int| 0 <= i < state.released.len() && state.released[i] == id;
        assert(after.released[i] == id);
    }
    if after.released.contains(id) {
        let i = choose|i: int| 0 <= i < after.released.len() && after.released[i] == id;
        assert(state.released[i] == id);
    }
}

/// Planning slots leaves the records of other ids as they are, and renames none
/// of them.
proof fn lemma_planned_others(
    state: StateView,
    kind: LabelKind,
    slots: Seq<Slot>,
    desired: Seq<Seq<char>>,
    id: Seq<char>,
)
    requires
        !has_slot(slots, id),
    ensures
        same_record(kind, id, planned(state, kind, slots, desired).0, state),
        !renames_id(planned(state, kind, slots, desired).1, id),
    decreases slots.len(),
{
    if slots.len() > 0 {
        let rest = slots.drop_last();
        assert(!has_slot(rest, id)) by {
            if has_slot(rest, id) {
                let i = choose|i: int| 0 <= i < rest.len() && (#[trigger] rest[i]).id == id;
                assert(slots[i].id == id);
            }
        }
        lemma_planned_others(state, kind, rest, desired, id);
        let (before, earlier) = planned(state, kind, rest, desired);
        let renames = planned(state, kind, slots, desired).1;
        lemma_planning_others(before, kind, slots.last(), desired[slots.len() - 1], id);
        if renames_id(renames, id) {
            let k = choose|k: int| 0 <= k < renames.len() && (#[trigger] renames[k]).id == id;
            assert(slots.last().id != id);
            assert(earlier[k].id == id);
        }
    }
}

/// The fate of a slot whose id no other has is decided by its own label and its
/// own record, whatever the others are.
proof fn lemma_slot_decided_alone(
    state: StateView,
    kind: LabelKind,
    slots: Seq<Slot>,
    desired: Seq<Seq<char>>,
    i: int,
)
    requires
        0 <= i < slots.len(),
        stands_alone(slots, i),
    ensures
        ({
            let slot = slots[i];
            let (alone, written) = state.planning(
                kind,
                slot.id,
                slot.label,
                slot.number,
                desired[i],
            );
            let (after, renames) = planned(state, kind, slots, desired);
            &&& same_record(kind, slot.id, after, alone)
            &&& written is None ==> !renames_id(renames, slot.id)
            &&& written matches Some(label) ==> renames.contains(
                RenameView { id: slot.id, label },
            )
        }),
    decreases slots.len(),
{
    let rest = slots.drop_last();
    let last = slots.last();
    let n = slots.len() - 1;
    let slot = slots[i];
    let (before, earlier) = planned(state, kind, rest, desired);
    let renames = planned(state, kind, slots, desired).1;
    if i < n {
        assert(stands_alone(rest, i)) by {
            assert(forall|j: int| 0 <= j < rest.len() ==> #[trigger] rest[j] == slots[j]);
        }
        lemma_slot_decided_alone(state, kind, rest, desired, i);
        lemma_planning_others(before, kind, last, desired[n], slot.id);
        let written = state.planning(kind, slot.id, slot.label, slot.number, desired[i]).1;
        if written is Some {
            let rename = RenameView { id: slot.id, label: written->0 };
            let k = choose|k: int| 0 <= k < earlier.len() && earlier[k] == rename;
            assert(renames[k] == rename);
        } else if renames_id(renames, slot.id) {
            let k = choose|k: int| 0 <= k < renames.len() && (#[trigger] renames[k]).id == slot.id;
            assert(earlier[k].id == slot.id);
        }
    } else {
        assert(!has_slot(rest, slot.id)) by {
            if has_slot(rest, slot.id) {
                let j = choose|j: int| 0 <= j < rest.len() && (#[trigger] rest[j]).id == slot.id;
                assert(slots[j].id == slots[n].id);
            }
        }
        lemma_planned_others(state, kind, rest, desired, slot.id);
        let written = state.planning(kind, slot.id, slot.label, slot.number, desired[n]).1;
        lemma_released_push(state, slot.id);
        lemma_released_push(before, slot.id);
        if written is Some {
            assert(renames.last() == RenameView { id: slot.id, label: written->0 });
        }
    }
}

/// What has just been released is released.
proof fn lemma_released_push(state: StateView, id: Seq<char>)
    ensures
        state.releasing(id).released.contains(id),
{
    if !state.released.contains(id) {
        assert(state.releasing(id).released.last() == id);
    }
}

/// One call of the planner: what it sees, and what each tab and each workspace
/// should read.
pub struct Occasion {
    pub snapshot: Snapshot,
    pub config: ConfigView,
    pub home: Option<Seq<char>>,
    pub tab_labels: Seq<Seq<char>>,
    pub workspace_labels: Seq<Seq<char>>,
}

impl Occasion {
    /// The plan, and the state that it leaves behind.
    pub open spec fn outcome(self, state: StateView) -> (StateView, PlanView) {
        plan_of(
            self.snapshot,
            self.config,
            state,
            self.home,
            self.tab_labels,
            self.workspace_labels,
        )
    }

    /// The tabs, as far as their labels go.
    pub open spec fn tab_slots(self) -> Seq<Slot> {
        tab_slots(self.snapshot.tabs@)
    }

    /// The workspaces, as far as their labels go.
    pub open spec fn workspace_slots(self) -> Seq<Slot> {
        workspace_slots(self.snapshot.workspaces@)
    }

    /// The state once the tabs are planned.
    pub open spec fn between(self, state: StateView) -> StateView {
        if self.config.rename_tabs {
            planned(state, LabelKind::Tab, self.tab_slots(), self.tab_labels).0
        } else {
            state
        }
    }
}

/// The state after a number of calls.
pub open spec fn state_after(state: StateView, occasions: Seq<Occasion>) -> StateView
    decreases occasions.len(),
{
    if occasions.len() == 0 {
        state
    } else {
        occasions.last().outcome(state_after(state, occasions.drop_last())).0
    }
}

/// An id that was released stays released, and nothing with that id is renamed.
pub proof fn released_ids_are_left_alone(state: StateView, occasion: Occasion, id: Seq<char>)
    requires
        state.released.contains(id),
    ensures
        occasion.outcome(state).0.released.contains(id),
        !renames_id(occasion.outcome(state).1.tabs, id),
        !renames_id(occasion.outcome(state).1.workspaces, id),
{
    lemma_planned(state, LabelKind::Tab, occasion.tab_slots(), occasion.tab_labels);
    lemma_planned(
        occasion.between(state),
        LabelKind::Workspace,
        occasion.workspace_slots(),
        occasion.workspace_labels,
    );
}

/// Manual renames win permanently: once an id is released, no later call
/// renames it, however many there are between.
pub proof fn released_ids_are_left_alone_for_good(
    state: StateView,
    occasions: Seq<Occasion>,
    next: Occasion,
    id: Seq<char>,
)
    requires
        state.released.contains(id),
    ensures
        state_after(state, occasions).released.contains(id),
        !renames_id(next.outcome(state_after(state, occasions)).1.tabs, id),
        !renames_id(next.outcome(state_after(state, occasions)).1.workspaces, id),
    decreases occasions.len(),
{
    if occasions.len() > 0 {
        released_ids_are_left_alone_for_good(
            state,
            occasions.drop_last(),
            occasions.last(),
            id,
        );
        released_ids_are_left_alone(
            state_after(state, occasions.drop_last()),
            occasions.last(),
            id,
        );
    }
    released_ids_are_left_alone(state_after(state, occasions), next, id);
}

/// A label is released when it reads as something that is neither what the
/// plugin wrote there nor a default, and it is not renamed. This covers the
/// label that the user changed after the plugin had taken it over, and the one
/// that the plugin has never owned.
pub proof fn a_tab_label_of_the_users_is_released(state: StateView, occasion: Occasion, i: int)
    requires
        occasion.config.rename_tabs,
        0 <= i < occasion.tab_slots().len(),
        stands_alone(occasion.tab_slots(), i),
        !is_blank(occasion.tab_labels[i]),
        ({
            let slot = occasion.tab_slots()[i];
            !state.may_write(LabelKind::Tab, slot.id, slot.label, slot.number)
        }),
    ensures
        occasion.outcome(state).0.released.contains(occasion.tab_slots()[i].id),
        !renames_id(occasion.outcome(state).1.tabs, occasion.tab_slots()[i].id),
{
    let id = occasion.tab_slots()[i].id;
    lemma_slot_decided_alone(
        state,
        LabelKind::Tab,
        occasion.tab_slots(),
        occasion.tab_labels,
        i,
    );
    lemma_released_push(state, id);
    lemma_planned(
        occasion.between(state),
        LabelKind::Workspace,
        occasion.workspace_slots(),
        occasion.workspace_labels,
    );
}

/// The same for the label of a workspace.
pub proof fn a_workspace_label_of_the_users_is_released(
    state: StateView,
    occasion: Occasion,
    i: int,
)
    requires
        occasion.config.rename_workspaces,
        0 <= i < occasion.workspace_slots().len(),
        stands_alone(occasion.workspace_slots(), i),
        !is_blank(occasion.workspace_labels[i]),
        ({
            let slot = occasion.workspace_slots()[i];
            !state.may_write(LabelKind::Workspace, slot.id, slot.label, slot.number)
        }),
    ensures
        occasion.outcome(state).0.released.contains(occasion.workspace_slots()[i].id),
        !renames_id(occasion.outcome(state).1.workspaces, occasion.workspace_slots()[i].id),
{
    let id = occasion.workspace_slots()[i].id;
    lemma_planned(state, LabelKind::Tab, occasion.tab_slots(), occasion.tab_labels);
    lemma_slot_decided_alone(
        occasion.between(state),
        LabelKind::Workspace,
        occasion.workspace_slots(),
        occasion.workspace_labels,
        i,
    );
    lemma_released_push(occasion.between(state), id);
}

/// Rename a tab by hand and the plugin leaves it alone from then on: no later
/// call renames it, whatever it shows by then and wherever its pane has gone.
pub proof fn a_tab_renamed_by_hand_is_never_renamed_again(
    state: StateView,
    occasion: Occasion,
    i: int,
    later: Seq<Occasion>,
    next: Occasion,
)
    requires
        occasion.config.rename_tabs,
        0 <= i < occasion.tab_slots().len(),
        stands_alone(occasion.tab_slots(), i),
        !is_blank(occasion.tab_labels[i]),
        ({
            let slot = occasion.tab_slots()[i];
            !state.may_write(LabelKind::Tab, slot.id, slot.label, slot.number)
        }),
    ensures
        ({
            let before = state_after(occasion.outcome(state).0, later);
            !renames_id(next.outcome(before).1.tabs, occasion.tab_slots()[i].id)
        }),
{
    a_tab_label_of_the_users_is_released(state, occasion, i);
    released_ids_are_left_alone_for_good(
        occasion.outcome(state).0,
        later,
        next,
        occasion.tab_slots()[i].id,
    );
}

/// The same for a workspace.
pub proof fn a_workspace_renamed_by_hand_is_never_renamed_again(
    state: StateView,
    occasion: Occasion,
    i: int,
    later: Seq<Occasion>,
    next: Occasion,
)
    requires
        occasion.config.rename_workspaces,
        0 <= i < occasion.workspace_slots().len(),
        stands_alone(occasion.workspace_slots(), i),
        !is_blank(occasion.workspace_labels[i]),
        ({
            let slot = occasion.workspace_slots()[i];
            !state.may_write(LabelKind::Workspace, slot.id, slot.label, slot.number)
        }),
    ensures
        ({
            let before = state_after(occasion.outcome(state).0, later);
            !renames_id(next.outcome(before).1.workspaces, occasion.workspace_slots()[i].id)
        }),
{
    a_workspace_label_of_the_users_is_released(state, occasion, i);
    released_ids_are_left_alone_for_good(
        occasion.outcome(state).0,
        later,
        next,
        occasion.workspace_slots()[i].id,
    );
}

/// A tab label that is the plugin's to write is recorded as the plugin's, and
/// planning the tabs does not release it; it is renamed exactly when it does not
/// read as it should already.
pub proof fn a_tab_label_of_the_plugins_is_kept_up(state: StateView, occasion: Occasion, i: int)
    requires
        occasion.config.rename_tabs,
        0 <= i < occasion.tab_slots().len(),
        stands_alone(occasion.tab_slots(), i),
        !is_blank(occasion.tab_labels[i]),
        ({
            let slot = occasion.tab_slots()[i];
            &&& !state.released.contains(slot.id)
            &&& state.may_write(LabelKind::Tab, slot.id, slot.label, slot.number)
        }),
    ensures
        ({
            let slot = occasion.tab_slots()[i];
            let desired = occasion.tab_labels[i];
            let (after, plan) = occasion.outcome(state);
            &&& after.tabs.contains_key(slot.id) && after.tabs[slot.id] == desired
            &&& !occasion.between(state).released.contains(slot.id)
            &&& slot.label == desired ==> !renames_id(plan.tabs, slot.id)
            &&& slot.label != desired ==> plan.tabs.contains(
                RenameView { id: slot.id, label: desired },
            )
        }),
{
    lemma_slot_decided_alone(
        state,
        LabelKind::Tab,
        occasion.tab_slots(),
        occasion.tab_labels,
        i,
    );
    lemma_planned(
        occasion.between(state),
        LabelKind::Workspace,
        occasion.workspace_slots(),
        occasion.workspace_labels,
    );
}

/// The same for the label of a workspace, unless a tab with the same id is
/// released on the way.
pub proof fn a_workspace_label_of_the_plugins_is_kept_up(
    state: StateView,
    occasion: Occasion,
    i: int,
)
    requires
        occasion.config.rename_workspaces,
        0 <= i < occasion.workspace_slots().len(),
        stands_alone(occasion.workspace_slots(), i),
        !is_blank(occasion.workspace_labels[i]),
        ({
            let slot = occasion.workspace_slots()[i];
            &&& !occasion.between(state).released.contains(slot.id)
            &&& state.may_write(LabelKind::Workspace, slot.id, slot.label, slot.number)
        }),
    ensures
        ({
            let slot = occasion.workspace_slots()[i];
            let desired = occasion.workspace_labels[i];
            let (after, plan) = occasion.outcome(state);
            &&& after.workspaces.contains_key(slot.id) && after.workspaces[slot.id] == desired
            &&& !after.released.contains(slot.id)
            &&& slot.label == desired ==> !renames_id(plan.workspaces, slot.id)
            &&& slot.label != desired ==> plan.workspaces.contains(
                RenameView { id: slot.id, label: desired },
            )
        }),
{
    lemma_planned(state, LabelKind::Tab, occasion.tab_slots(), occasion.tab_labels);
    lemma_slot_decided_alone(
        occasion.between(state),
        LabelKind::Workspace,
        occasion.workspace_slots(),
        occasion.workspace_labels,
        i,
    );
}

/// A rename that has not landed yet is not mistaken for the user's doing: a
/// label that reads as a default is written again, and the state stays as it
/// is.
pub proof fn a_rename_in_flight_is_issued_again(
    state: StateView,
    kind: LabelKind,
    slot: Slot,
    desired: Seq<char>,
)
    requires
        !is_blank(desired),
        !state.released.contains(slot.id),
        state.owned(kind).contains_key(slot.id),
        state.owned(kind)[slot.id] == desired,
        shows_default(slot.label, slot.number),
        slot.label != desired,
    ensures
        state.planning(kind, slot.id, slot.label, slot.number, desired) == (
            state,
            Some(desired),
        ),
{
}

/// Every rename in a plan is of a listed id, to the label that this id should
/// read; the label is not blank, and not the one that is shown already.
pub proof fn renames_are_called_for(state: StateView, occasion: Occasion)
    ensures
        ({
            let plan = occasion.outcome(state).1;
            &&& forall|k: int|
                0 <= k < plan.tabs.len() ==> exists|i: int|
                    0 <= i < occasion.tab_slots().len() && (#[trigger] plan.tabs[k]).id == (
                    #[trigger] occasion.tab_slots()[i]).id && plan.tabs[k].label
                        == occasion.tab_labels[i] && plan.tabs[k].label
                        != occasion.tab_slots()[i].label && !is_blank(plan.tabs[k].label)
            &&& forall|k: int|
                0 <= k < plan.workspaces.len() ==> exists|i: int|
                    0 <= i < occasion.workspace_slots().len() && (
                    #[trigger] plan.workspaces[k]).id == (
                    #[trigger] occasion.workspace_slots()[i]).id && plan.workspaces[k].label
                        == occasion.workspace_labels[i] && plan.workspaces[k].label
                        != occasion.workspace_slots()[i].label && !is_blank(
                        plan.workspaces[k].label,
                    )
        }),
{
    lemma_planned(state, LabelKind::Tab, occasion.tab_slots(), occasion.tab_labels);
    lemma_planned(
        occasion.between(state),
        LabelKind::Workspace,
        occasion.workspace_slots(),
        occasion.workspace_labels,
    );
}

/// Renaming can be switched off: what is off is neither renamed nor recorded,
/// and the title is then built from the labels as they are.
pub proof fn what_is_switched_off_is_not_renamed(state: StateView, occasion: Occasion)
    ensures
        ({
            let (after, plan) = occasion.outcome(state);
            &&& !occasion.config.rename_tabs ==> plan.tabs.len() == 0 && after.tabs == state.tabs
            &&& !occasion.config.rename_workspaces ==> plan.workspaces.len() == 0
                && after.workspaces == state.workspaces
            &&& !occasion.config.rename_tabs && !occasion.config.rename_workspaces ==> after
                == state && plan.title == occasion.snapshot.title(
                occasion.config,
                occasion.home,
                Seq::empty(),
                Seq::empty(),
            )
        }),
{
    lemma_planned(state, LabelKind::Tab, occasion.tab_slots(), occasion.tab_labels);
    lemma_planned(
        occasion.between(state),
        LabelKind::Workspace,
        occasion.workspace_slots(),
        occasion.workspace_labels,
    );
}

/// The title never lags a rename: the title that goes with a plan is the one
/// that would be built, without any renames, once the plan is carried out.
pub proof fn the_title_does_not_lag(
    before: Snapshot,
    after: Snapshot,
    config: ConfigView,
    home: Option<Seq<char>>,
    tabs: Seq<RenameView>,
    workspaces: Seq<RenameView>,
)
    requires
        shows_renamed(before, after, tabs, workspaces),
    ensures
        after.title(config, home, Seq::empty(), Seq::empty()) == before.title(
            config,
            home,
            tabs,
            workspaces,
        ),
{
    if before.focused_workspace_id is Some {
        let id = before.focused_workspace_id->0@;
        lemma_first_index_agrees(
            before.workspaces@,
            workspace_is(id),
            after.workspaces@,
            workspace_is(id),
        );
        lemma_first_index(before.workspaces@, workspace_is(id));
    }
    if before.focused_tab_name() is Some {
        let id = before.focused_tab_name()->0;
        lemma_first_index_agrees(before.tabs@, tab_is(id), after.tabs@, tab_is(id));
        lemma_first_index(before.tabs@, tab_is(id));
    }
}

/// A plan settles everything: once it is carried out, the next call with the
/// same names renames nothing, leaves the state as it is and keeps the title.
pub proof fn a_second_run_changes_nothing(state: StateView, first: Occasion, second: Occasion)
    requires
        first.config.rename_tabs ==> distinct_slots(first.tab_slots()),
        first.config.rename_workspaces ==> distinct_slots(first.workspace_slots()),
        shows_renamed(
            first.snapshot,
            second.snapshot,
            first.outcome(state).1.tabs,
            first.outcome(state).1.workspaces,
        ),
        second.config == first.config,
        second.home == first.home,
        second.tab_labels == first.tab_labels,
        second.workspace_labels == first.workspace_labels,
    ensures
        ({
            let (after, plan) = first.outcome(state);
            second.outcome(after) == (
                after,
                PlanView { tabs: Seq::empty(), workspaces: Seq::empty(), title: plan.title },
            )
        }),
{
    let (after, plan) = first.outcome(state);
    let middle = first.between(state);
    lemma_planned(state, LabelKind::Tab, first.tab_slots(), first.tab_labels);
    lemma_planned(
        middle,
        LabelKind::Workspace,
        first.workspace_slots(),
        first.workspace_labels,
    );
    if first.config.rename_tabs {
        assert forall|i: int| 0 <= i < second.tab_slots().len() implies settled(
            after,
            LabelKind::Tab,
            #[trigger] second.tab_slots()[i],
            second.tab_labels[i],
        ) by {
            assert(second.tab_slots()[i] == renamed_slot(first.tab_slots()[i], plan.tabs));
        }
        lemma_all_settled(after, LabelKind::Tab, second.tab_slots(), second.tab_labels);
    }
    if first.config.rename_workspaces {
        assert forall|i: int| 0 <= i < second.workspace_slots().len() implies settled(
            after,
            LabelKind::Workspace,
            #[trigger] second.workspace_slots()[i],
            second.workspace_labels[i],
        ) by {
            assert(second.workspace_slots()[i] == renamed_slot(
                first.workspace_slots()[i],
                plan.workspaces,
            ));
        }
        lemma_all_settled(
            after,
            LabelKind::Workspace,
            second.workspace_slots(),
            second.workspace_labels,
        );
    }
    the_title_does_not_lag(
        first.snapshot,
        second.snapshot,
        first.config,
        first.home,
        plan.tabs,
        plan.workspaces,
    );
}

proof fn lemma_planned_keeps_distinct(
    state: StateView,
    kind: LabelKind,
    slots: Seq<Slot>,
    desired: Seq<Seq<char>>,
)
    requires
        state.released.no_duplicates(),
    ensures
        planned(state, kind, slots, desired).0.released.no_duplicates(),
    decreases slots.len(),
{
    if slots.len() > 0 {
        lemma_planned_keeps_distinct(state, kind, slots.drop_last(), desired);
    }
}

/// No id is released twice.
pub proof fn released_ids_are_distinct(state: StateView, occasion: Occasion)
    requires
        state.released.no_duplicates(),
    ensures
        occasion.outcome(state).0.released.no_duplicates(),
{
    lemma_planned_keeps_distinct(
        state,
        LabelKind::Tab,
        occasion.tab_slots(),
        occasion.tab_labels,
    );
    lemma_planned_keeps_distinct(
        occasion.between(state),
        LabelKind::Workspace,
        occasion.workspace_slots(),
        occasion.workspace_labels,
    );
}

/// The records of the ids that a snapshot does not list stay as they are, and
/// what was released before stays where it was.
pub proof fn what_is_not_listed_stays_on_record(
    state: StateView,
    occasion: Occasion,
    id: Seq<char>,
)
    requires
        forall|i: int|
            0 <= i < occasion.snapshot.tabs@.len() ==> (
            #[trigger] occasion.snapshot.tabs@[i]).tab_id@ != id,
        forall|i: int|
            0 <= i < occasion.snapshot.workspaces@.len() ==> (
            #[trigger] occasion.snapshot.workspaces@[i]).workspace_id@ != id,
    ensures
        ({
            let after = occasion.outcome(state).0;
            &&& after.tabs.contains_key(id) == state.tabs.contains_key(id)
            &&& state.tabs.contains_key(id) ==> after.tabs[id] == state.tabs[id]
            &&& after.workspaces.contains_key(id) == state.workspaces.contains_key(id)
            &&& state.workspaces.contains_key(id) ==> after.workspaces[id] == state.workspaces[id]
            &&& after.released.contains(id) == state.released.contains(id)
        }),
{
    let middle = occasion.between(state);
    assert(!has_slot(occasion.tab_slots(), id));
    assert(!has_slot(occasion.workspace_slots(), id));
    lemma_planned(state, LabelKind::Tab, occasion.tab_slots(), occasion.tab_labels);
    lemma_planned(
        middle,
        LabelKind::Workspace,
        occasion.workspace_slots(),
        occasion.workspace_labels,
    );
    lemma_planned_others(
        state,
        LabelKind::Tab,
        occasion.tab_slots(),
        occasion.tab_labels,
        id,
    );
    lemma_planned_others(
        middle,
        LabelKind::Workspace,
        occasion.workspace_slots(),
        occasion.workspace_labels,
        id,
    );
}

proof fn lemma_planned_keeps_released(
    state: StateView,
    kind: LabelKind,
    slots: Seq<Slot>,
    desired: Seq<Seq<char>>,
)
    ensures
        state.released.is_prefix_of(planned(state, kind, slots, desired).0.released),
    decreases slots.len(),
{
    if slots.len() > 0 {
        lemma_planned_keeps_released(state, kind, slots.drop_last(), desired);
    }
}

/// Ids are released at the end of the list: those that were there stay there, in
/// their order.
pub proof fn released_ids_keep_their_place(state: StateView, occasion: Occasion)
    ensures
        state.released.is_prefix_of(occasion.outcome(state).0.released),
{
    lemma_planned_keeps_released(
        state,
        LabelKind::Tab,
        occasion.tab_slots(),
        occasion.tab_labels,
    );
    lemma_planned_keeps_released(
        occasion.between(state),
        LabelKind::Workspace,
        occasion.workspace_slots(),
        occasion.workspace_labels,
    );
}

proof fn lemma_renames_in_order(
    state: StateView,
    kind: LabelKind,
    slots: Seq<Slot>,
    desired: Seq<Seq<char>>,
    i: int,
    j: int,
    p: int,
    q: int,
)
    requires
        0 <= i <= j < slots.len(),
        stands_alone(slots, i),
        stands_alone(slots, j),
        ({
            let renames = planned(state, kind, slots, desired).1;
            &&& 0 <= p < renames.len() && renames[p].id == slots[i].id
            &&& 0 <= q < renames.len() && renames[q].id == slots[j].id
        }),
    ensures
        i < j ==> p < q,
        i == j ==> p == q,
    decreases slots.len(),
{
    let rest = slots.drop_last();
    let n = slots.len() - 1;
    let earlier = planned(state, kind, rest, desired).1;
    let renames = planned(state, kind, slots, desired).1;
    assert(forall|k: int| 0 <= k < rest.len() ==> #[trigger] rest[k] == slots[k]);
    if j < n {
        assert(slots[i].id != slots[n].id && slots[j].id != slots[n].id);
        assert(p < earlier.len() && q < earlier.len());
        assert(earlier[p] == renames[p] && earlier[q] == renames[q]);
        assert(stands_alone(rest, i) && stands_alone(rest, j));
        lemma_renames_in_order(state, kind, rest, desired, i, j, p, q);
    } else {
        assert(!has_slot(rest, slots[n].id)) by {
            if has_slot(rest, slots[n].id) {
                let k = choose|k: int|
                    0 <= k < rest.len() && (#[trigger] rest[k]).id == slots[n].id;
                assert(slots[k].id == slots[n].id);
            }
        }
        lemma_planned_others(state, kind, rest, desired, slots[n].id);
        if q < earlier.len() {
            assert(earlier[q].id == slots[n].id);
        }
        if i == n && p < earlier.len() {
            assert(earlier[p].id == slots[n].id);
        }
    }
}

/// A tab that was renamed by hand is let go: where the label on record for its
/// id is not the one it shows, in whatever way they differ, and what it shows is
/// no default, it is not renamed, its id is released, and its record stays.
pub proof fn a_tab_that_reads_back_otherwise_is_let_go(
    state: StateView,
    occasion: Occasion,
    i: int,
    solid: int,
)
    requires
        occasion.config.rename_tabs,
        0 <= i < occasion.snapshot.tabs@.len(),
        forall|j: int|
            0 <= j < occasion.snapshot.tabs@.len() && j != i ==> (
            #[trigger] occasion.snapshot.tabs@[j]).tab_id@
                != occasion.snapshot.tabs@[i].tab_id@,
        0 <= solid < occasion.tab_labels[i].len() && !is_white_space(
            occasion.tab_labels[i][solid],
        ),
        ({
            let tab = occasion.snapshot.tabs@[i];
            &&& !state.released.contains(tab.tab_id@)
            &&& state.tabs.contains_key(tab.tab_id@) ==> state.tabs[tab.tab_id@] != tab.label@
            &&& trimmed(tab.label@).len() > 0
            &&& tab.number matches Some(number) ==> trimmed(tab.label@) != decimal(
                number as nat,
            )
            &&& tab.number is None ==> exists|k: int|
                0 <= k < trimmed(tab.label@).len() && !('0' <= #[trigger] trimmed(
                    tab.label@,
                )[k] <= '9')
        }),
    ensures
        ({
            let id = occasion.snapshot.tabs@[i].tab_id@;
            let (after, plan) = occasion.outcome(state);
            &&& forall|k: int|
                0 <= k < plan.tabs.len() ==> (#[trigger] plan.tabs[k]).id != id
            &&& after.released.contains(id)
            &&& after.tabs.contains_key(id) == state.tabs.contains_key(id)
            &&& state.tabs.contains_key(id) ==> after.tabs[id] == state.tabs[id]
        }),
{
    let slot = occasion.tab_slots()[i];
    assert(stands_alone(occasion.tab_slots(), i)) by {
        assert(forall|j: int|
            0 <= j < occasion.tab_slots().len() ==> (#[trigger] occasion.tab_slots()[j]).id
                == occasion.snapshot.tabs@[j].tab_id@);
    }
    lemma_planned(state, LabelKind::Tab, occasion.tab_slots(), occasion.tab_labels);
    lemma_planned(
        occasion.between(state),
        LabelKind::Workspace,
        occasion.workspace_slots(),
        occasion.workspace_labels,
    );
    lemma_slot_decided_alone(
        state,
        LabelKind::Tab,
        occasion.tab_slots(),
        occasion.tab_labels,
        i,
    );
    a_label_that_reads_back_otherwise_is_let_go(
        state,
        LabelKind::Tab,
        slot.id,
        slot.label,
        slot.number,
        occasion.tab_labels[i],
        solid,
    );
    lemma_released_push(state, slot.id);
    assert(state.releasing(slot.id).released =~= state.released.push(slot.id));
    assert(!renames_id(occasion.outcome(state).1.tabs, slot.id));
}

/// A tab whose label is the plugin's is kept up to date: where it shows what is
/// on record for its id, or a default, its name goes on record, its id is not
/// released, and it is renamed exactly where it does not show its name already.
pub proof fn a_tab_of_the_plugins_shows_its_name(
    state: StateView,
    occasion: Occasion,
    i: int,
    solid: int,
)
    requires
        occasion.config.rename_tabs,
        0 <= i < occasion.snapshot.tabs@.len(),
        forall|j: int|
            0 <= j < occasion.snapshot.tabs@.len() && j != i ==> (
            #[trigger] occasion.snapshot.tabs@[j]).tab_id@
                != occasion.snapshot.tabs@[i].tab_id@,
        0 <= solid < occasion.tab_labels[i].len() && !is_white_space(
            occasion.tab_labels[i][solid],
        ),
        ({
            let tab = occasion.snapshot.tabs@[i];
            let id = tab.tab_id@;
            let shown = trimmed(tab.label@);
            &&& !state.released.contains(tab.tab_id@)
            &&& {
                ||| state.tabs.contains_key(id) && state.tabs[id] == tab.label@
                ||| shown.len() == 0
                ||| tab.number matches Some(number) && shown == decimal(number as nat)
                ||| tab.number is None && forall|k: int|
                    0 <= k < shown.len() ==> '0' <= #[trigger] shown[k] <= '9'
            }
        }),
    ensures
        ({
            let tab = occasion.snapshot.tabs@[i];
            let id = tab.tab_id@;
            let desired = occasion.tab_labels[i];
            let (after, plan) = occasion.outcome(state);
            &&& after.tabs.contains_key(id) && after.tabs[id] == desired
            &&& !occasion.between(state).released.contains(tab.tab_id@)
            &&& tab.label@ == desired ==> forall|k: int|
                0 <= k < plan.tabs.len() ==> (#[trigger] plan.tabs[k]).id != id
            &&& tab.label@ != desired ==> exists|k: int|
                0 <= k < plan.tabs.len() && (#[trigger] plan.tabs[k]).id == id
                    && plan.tabs[k].label == desired
        }),
{
    let slot = occasion.tab_slots()[i];
    assert(stands_alone(occasion.tab_slots(), i)) by {
        assert(forall|j: int|
            0 <= j < occasion.tab_slots().len() ==> (#[trigger] occasion.tab_slots()[j]).id
                == occasion.snapshot.tabs@[j].tab_id@);
    }
    lemma_planned(state, LabelKind::Tab, occasion.tab_slots(), occasion.tab_labels);
    lemma_planned(
        occasion.between(state),
        LabelKind::Workspace,
        occasion.workspace_slots(),
        occasion.workspace_labels,
    );
    lemma_slot_decided_alone(
        state,
        LabelKind::Tab,
        occasion.tab_slots(),
        occasion.tab_labels,
        i,
    );
    a_label_of_the_plugins_is_brought_up_to_date(
        state,
        LabelKind::Tab,
        slot.id,
        slot.label,
        slot.number,
        occasion.tab_labels[i],
        solid,
    );
    let plan = occasion.outcome(state).1;
    if slot.label != occasion.tab_labels[i] {
        let rename = RenameView { id: slot.id, label: occasion.tab_labels[i] };
        assert(plan.tabs.contains(rename));
        let k = choose|k: int| 0 <= k < plan.tabs.len() && plan.tabs[k] == rename;
        assert(plan.tabs[k].id == slot.id);
    } else {
        assert(!renames_id(plan.tabs, slot.id));
    }
}

/// A tab without a name to take is left alone: it is not renamed, and its record
/// stays.
pub proof fn a_tab_without_a_name_is_left_alone(state: StateView, occasion: Occasion, i: int)
    requires
        occasion.config.rename_tabs,
        0 <= i < occasion.snapshot.tabs@.len(),
        forall|j: int|
            0 <= j < occasion.snapshot.tabs@.len() && j != i ==> (
            #[trigger] occasion.snapshot.tabs@[j]).tab_id@
                != occasion.snapshot.tabs@[i].tab_id@,
        forall|k: int|
            0 <= k < occasion.tab_labels[i].len() ==> is_white_space(
                #[trigger] occasion.tab_labels[i][k],
            ),
    ensures
        ({
            let id = occasion.snapshot.tabs@[i].tab_id@;
            let (after, plan) = occasion.outcome(state);
            &&& forall|k: int|
                0 <= k < plan.tabs.len() ==> (#[trigger] plan.tabs[k]).id != id
            &&& after.tabs.contains_key(id) == state.tabs.contains_key(id)
            &&& state.tabs.contains_key(id) ==> after.tabs[id] == state.tabs[id]
        }),
{
    let slot = occasion.tab_slots()[i];
    assert(stands_alone(occasion.tab_slots(), i)) by {
        assert(forall|j: int|
            0 <= j < occasion.tab_slots().len() ==> (#[trigger] occasion.tab_slots()[j]).id
                == occasion.snapshot.tabs@[j].tab_id@);
    }
    lemma_planned(state, LabelKind::Tab, occasion.tab_slots(), occasion.tab_labels);
    lemma_planned(
        occasion.between(state),
        LabelKind::Workspace,
        occasion.workspace_slots(),
        occasion.workspace_labels,
    );
    lemma_slot_decided_alone(
        state,
        LabelKind::Tab,
        occasion.tab_slots(),
        occasion.tab_labels,
        i,
    );
    what_is_released_or_nameless_is_left_alone(
        state,
        LabelKind::Tab,
        slot.id,
        slot.label,
        slot.number,
        occasion.tab_labels[i],
    );
    assert(!renames_id(occasion.outcome(state).1.tabs, slot.id));
}

/// Renames come in the order of the tabs, one for each at most.
pub proof fn tab_renames_come_in_order(
    state: StateView,
    occasion: Occasion,
    i: int,
    j: int,
    p: int,
    q: int,
)
    requires
        0 <= i <= j < occasion.snapshot.tabs@.len(),
        forall|k: int|
            0 <= k < occasion.snapshot.tabs@.len() && k != i ==> (
            #[trigger] occasion.snapshot.tabs@[k]).tab_id@
                != occasion.snapshot.tabs@[i].tab_id@,
        forall|k: int|
            0 <= k < occasion.snapshot.tabs@.len() && k != j ==> (
            #[trigger] occasion.snapshot.tabs@[k]).tab_id@
                != occasion.snapshot.tabs@[j].tab_id@,
        ({
            let renames = occasion.outcome(state).1.tabs;
            &&& 0 <= p < renames.len() && renames[p].id == occasion.snapshot.tabs@[i].tab_id@
            &&& 0 <= q < renames.len() && renames[q].id == occasion.snapshot.tabs@[j].tab_id@
        }),
    ensures
        i < j ==> p < q,
        i == j ==> p == q,
{
    let slots = occasion.tab_slots();
    assert(forall|k: int|
        0 <= k < slots.len() ==> (#[trigger] slots[k]).id
            == occasion.snapshot.tabs@[k].tab_id@);
    lemma_renames_in_order(
        state,
        LabelKind::Tab,
        slots,
        occasion.tab_labels,
        i,
        j,
        p,
        q,
    );
}

/// A workspace that was renamed by hand is let go: where the label on record for its
/// id is not the one it shows, in whatever way they differ, and what it shows is
/// no default, it is not renamed, its id is released, and its record stays.
pub proof fn a_workspace_that_reads_back_otherwise_is_let_go(
    state: StateView,
    occasion: Occasion,
    i: int,
    solid: int,
)
    requires
        occasion.config.rename_workspaces,
        0 <= i < occasion.snapshot.workspaces@.len(),
        forall|j: int|
            0 <= j < occasion.snapshot.workspaces@.len() && j != i ==> (
            #[trigger] occasion.snapshot.workspaces@[j]).workspace_id@
                != occasion.snapshot.workspaces@[i].workspace_id@,
        0 <= solid < occasion.workspace_labels[i].len() && !is_white_space(
            occasion.workspace_labels[i][solid],
        ),
        ({
            let workspace = occasion.snapshot.workspaces@[i];
            &&& !occasion.between(state).released.contains(workspace.workspace_id@)
            &&& state.workspaces.contains_key(workspace.workspace_id@)
                ==> state.workspaces[workspace.workspace_id@] != workspace.label@
            &&& trimmed(workspace.label@).len() > 0
            &&& workspace.number matches Some(number) ==> trimmed(workspace.label@) != decimal(
                number as nat,
            )
            &&& workspace.number is None ==> exists|k: int|
                0 <= k < trimmed(workspace.label@).len() && !('0' <= #[trigger] trimmed(
                    workspace.label@,
                )[k] <= '9')
        }),
    ensures
        ({
            let id = occasion.snapshot.workspaces@[i].workspace_id@;
            let (after, plan) = occasion.outcome(state);
            &&& forall|k: int|
                0 <= k < plan.workspaces.len() ==> (#[trigger] plan.workspaces[k]).id != id
            &&& after.released.contains(id)
            &&& after.workspaces.contains_key(id) == state.workspaces.contains_key(id)
            &&& state.workspaces.contains_key(id) ==> after.workspaces[id] == state.workspaces[id]
        }),
{
    let slot = occasion.workspace_slots()[i];
    assert(stands_alone(occasion.workspace_slots(), i)) by {
        assert(forall|j: int|
            0 <= j < occasion.workspace_slots().len() ==> (#[trigger] occasion.workspace_slots()[j]).id
                == occasion.snapshot.workspaces@[j].workspace_id@);
    }
    lemma_planned(state, LabelKind::Tab, occasion.tab_slots(), occasion.tab_labels);
    lemma_planned(
        occasion.between(state),
        LabelKind::Workspace,
        occasion.workspace_slots(),
        occasion.workspace_labels,
    );
    lemma_slot_decided_alone(
        occasion.between(state),
        LabelKind::Workspace,
        occasion.workspace_slots(),
        occasion.workspace_labels,
        i,
    );
    a_label_that_reads_back_otherwise_is_let_go(
        occasion.between(state),
        LabelKind::Workspace,
        slot.id,
        slot.label,
        slot.number,
        occasion.workspace_labels[i],
        solid,
    );
    lemma_released_push(occasion.between(state), slot.id);
    assert(occasion.between(state).releasing(slot.id).released =~= occasion.between(
        state,
    ).released.push(slot.id));
    assert(!renames_id(occasion.outcome(state).1.workspaces, slot.id));
}

/// A workspace whose label is the plugin's is kept up to date: where it shows what is
/// on record for its id, or a default, its name goes on record, its id is not
/// released, and it is renamed exactly where it does not show its name already.
pub proof fn a_workspace_of_the_plugins_shows_its_name(
    state: StateView,
    occasion: Occasion,
    i: int,
    solid: int,
)
    requires
        occasion.config.rename_workspaces,
        0 <= i < occasion.snapshot.workspaces@.len(),
        forall|j: int|
            0 <= j < occasion.snapshot.workspaces@.len() && j != i ==> (
            #[trigger] occasion.snapshot.workspaces@[j]).workspace_id@
                != occasion.snapshot.workspaces@[i].workspace_id@,
        0 <= solid < occasion.workspace_labels[i].len() && !is_white_space(
            occasion.workspace_labels[i][solid],
        ),
        ({
            let workspace = occasion.snapshot.workspaces@[i];
            let id = workspace.workspace_id@;
            let shown = trimmed(workspace.label@);
            &&& !occasion.between(state).released.contains(workspace.workspace_id@)
            &&& {
                ||| state.workspaces.contains_key(id) && state.workspaces[id] == workspace.label@
                ||| shown.len() == 0
                ||| workspace.number matches Some(number) && shown == decimal(number as nat)
                ||| workspace.number is None && forall|k: int|
                    0 <= k < shown.len() ==> '0' <= #[trigger] shown[k] <= '9'
            }
        }),
    ensures
        ({
            let workspace = occasion.snapshot.workspaces@[i];
            let id = workspace.workspace_id@;
            let desired = occasion.workspace_labels[i];
            let (after, plan) = occasion.outcome(state);
            &&& after.workspaces.contains_key(id) && after.workspaces[id] == desired
            &&& !after.released.contains(workspace.workspace_id@)
            &&& workspace.label@ == desired ==> forall|k: int|
                0 <= k < plan.workspaces.len() ==> (#[trigger] plan.workspaces[k]).id != id
            &&& workspace.label@ != desired ==> exists|k: int|
                0 <= k < plan.workspaces.len() && (#[trigger] plan.workspaces[k]).id == id
                    && plan.workspaces[k].label == desired
        }),
{
    let slot = occasion.workspace_slots()[i];
    assert(stands_alone(occasion.workspace_slots(), i)) by {
        assert(forall|j: int|
            0 <= j < occasion.workspace_slots().len() ==> (#[trigger] occasion.workspace_slots()[j]).id
                == occasion.snapshot.workspaces@[j].workspace_id@);
    }
    lemma_planned(state, LabelKind::Tab, occasion.tab_slots(), occasion.tab_labels);
    lemma_planned(
        occasion.between(state),
        LabelKind::Workspace,
        occasion.workspace_slots(),
        occasion.workspace_labels,
    );
    lemma_slot_decided_alone(
        occasion.between(state),
        LabelKind::Workspace,
        occasion.workspace_slots(),
        occasion.workspace_labels,
        i,
    );
    a_label_of_the_plugins_is_brought_up_to_date(
        occasion.between(state),
        LabelKind::Workspace,
        slot.id,
        slot.label,
        slot.number,
        occasion.workspace_labels[i],
        solid,
    );
    let plan = occasion.outcome(state).1;
    if slot.label != occasion.workspace_labels[i] {
        let rename = RenameView { id: slot.id, label: occasion.workspace_labels[i] };
        assert(plan.workspaces.contains(rename));
        let k = choose|k: int| 0 <= k < plan.workspaces.len() && plan.workspaces[k] == rename;
        assert(plan.workspaces[k].id == slot.id);
    } else {
        assert(!renames_id(plan.workspaces, slot.id));
    }
}

/// A workspace without a name to take is left alone: it is not renamed, and its record
/// stays.
pub proof fn a_workspace_without_a_name_is_left_alone(state: StateView, occasion: Occasion, i: int)
    requires
        occasion.config.rename_workspaces,
        0 <= i < occasion.snapshot.workspaces@.len(),
        forall|j: int|
            0 <= j < occasion.snapshot.workspaces@.len() && j != i ==> (
            #[trigger] occasion.snapshot.workspaces@[j]).workspace_id@
                != occasion.snapshot.workspaces@[i].workspace_id@,
        forall|k: int|
            0 <= k < occasion.workspace_labels[i].len() ==> is_white_space(
                #[trigger] occasion.workspace_labels[i][k],
            ),
    ensures
        ({
            let id = occasion.snapshot.workspaces@[i].workspace_id@;
            let (after, plan) = occasion.outcome(state);
            &&& forall|k: int|
                0 <= k < plan.workspaces.len() ==> (#[trigger] plan.workspaces[k]).id != id
            &&& after.workspaces.contains_key(id) == state.workspaces.contains_key(id)
            &&& state.workspaces.contains_key(id) ==> after.workspaces[id] == state.workspaces[id]
        }),
{
    let slot = occasion.workspace_slots()[i];
    assert(stands_alone(occasion.workspace_slots(), i)) by {
        assert(forall|j: int|
            0 <= j < occasion.workspace_slots().len() ==> (#[trigger] occasion.workspace_slots()[j]).id
                == occasion.snapshot.workspaces@[j].workspace_id@);
    }
    lemma_planned(state, LabelKind::Tab, occasion.tab_slots(), occasion.tab_labels);
    lemma_planned(
        occasion.between(state),
        LabelKind::Workspace,
        occasion.workspace_slots(),
        occasion.workspace_labels,
    );
    lemma_slot_decided_alone(
        occasion.between(state),
        LabelKind::Workspace,
        occasion.workspace_slots(),
        occasion.workspace_labels,
        i,
    );
    what_is_released_or_nameless_is_left_alone(
        occasion.between(state),
        LabelKind::Workspace,
        slot.id,
        slot.label,
        slot.number,
        occasion.workspace_labels[i],
    );
    assert(!renames_id(occasion.outcome(state).1.workspaces, slot.id));
}

/// Renames come in the order of the workspaces, one for each at most.
pub proof fn workspace_renames_come_in_order(
    state: StateView,
    occasion: Occasion,
    i: int,
    j: int,
    p: int,
    q: int,
)
    requires
        0 <= i <= j < occasion.snapshot.workspaces@.len(),
        forall|k: int|
            0 <= k < occasion.snapshot.workspaces@.len() && k != i ==> (
            #[trigger] occasion.snapshot.workspaces@[k]).workspace_id@
                != occasion.snapshot.workspaces@[i].workspace_id@,
        forall|k: int|
            0 <= k < occasion.snapshot.workspaces@.len() && k != j ==> (
            #[trigger] occasion.snapshot.workspaces@[k]).workspace_id@
                != occasion.snapshot.workspaces@[j].workspace_id@,
        ({
            let renames = occasion.outcome(state).1.workspaces;
            &&& 0 <= p < renames.len() && renames[p].id == occasion.snapshot.workspaces@[i].workspace_id@
            &&& 0 <= q < renames.len() && renames[q].id == occasion.snapshot.workspaces@[j].workspace_id@
        }),
    ensures
        i < j ==> p < q,
        i == j ==> p == q,
{
    let slots = occasion.workspace_slots();
    assert(forall|k: int|
        0 <= k < slots.len() ==> (#[trigger] slots[k]).id
            == occasion.snapshot.workspaces@[k].workspace_id@);
    lemma_renames_in_order(
        occasion.between(state),
        LabelKind::Workspace,
        slots,
        occasion.workspace_labels,
        i,
        j,
        p,
        q,
    );
}

} // verus!
