//! Which labels belong to the plugin, and what it may do to a label.

use vstd::prelude::*;

use crate::labels::Labels;
use crate::labels::{distinct_ids, map_of, pair_views, the_order_of_pairs_does_not_matter};
use crate::text::{all_digits, blank_means_white_space_alone, decimal, is_blank, is_white_space};
use crate::text::{trimmed, views};
use crate::text::{blank, find_text, is_all_digits, is_decimal, same_text, trim};

verus! {

/// Whether a label is that of a tab or that of a workspace.
#[derive(Debug, Clone, Copy, PartialEq, Eq, Structural)]
pub enum LabelKind {
    Tab,
    Workspace,
}

/// Labels this plugin last wrote, keyed by id. A label that no longer matches
/// what we wrote was renamed by hand, and we stop managing it — the analogue
/// of tmux turning `automatic-rename` off on a manual `rename-window`.
#[derive(Debug)]
pub struct State {
    pub tabs: Labels,
    pub workspaces: Labels,
    /// Ids the user renamed by hand; never touched again.
    pub released: Vec<String>,
}

/// A state in mathematical terms.
#[verifier::ext_equal]
pub struct StateView {
    pub tabs: Map<Seq<char>, Seq<char>>,
    pub workspaces: Map<Seq<char>, Seq<char>>,
    pub released: Seq<Seq<char>>,
}

impl View for State {
    type V = StateView;

    open spec fn view(&self) -> StateView {
        StateView {
            tabs: self.tabs@,
            workspaces: self.workspaces@,
            released: views(self.released@),
        }
    }
}

/// A state as plain data, the form in which it is kept between runs.
#[derive(Debug, Clone)]
pub struct SavedState {
    pub tabs: Vec<(String, String)>,
    pub workspaces: Vec<(String, String)>,
    pub released: Vec<String>,
}

/// The state of a plugin that owns nothing and has released nothing.
pub open spec fn fresh_state() -> StateView {
    StateView { tabs: Map::empty(), workspaces: Map::empty(), released: Seq::empty() }
}

/// The state that plain data stands for.
pub open spec fn restored(saved: SavedState) -> StateView {
    StateView {
        tabs: map_of(pair_views(saved.tabs@)),
        workspaces: map_of(pair_views(saved.workspaces@)),
        released: views(saved.released@),
    }
}

/// In each list of labels no id stands twice.
pub open spec fn is_recorded(saved: SavedState) -> bool {
    &&& distinct_ids(pair_views(saved.tabs@))
    &&& distinct_ids(pair_views(saved.workspaces@))
}

impl StateView {
    /// The labels the plugin wrote, of one kind.
    pub open spec fn owned(self, kind: LabelKind) -> Map<Seq<char>, Seq<char>> {
        match kind {
            LabelKind::Tab => self.tabs,
            LabelKind::Workspace => self.workspaces,
        }
    }

    /// This state, with a label recorded as the plugin's.
    pub open spec fn owning(self, kind: LabelKind, id: Seq<char>, label: Seq<char>) -> StateView {
        match kind {
            LabelKind::Tab => StateView { tabs: self.tabs.insert(id, label), ..self },
            LabelKind::Workspace => StateView {
                workspaces: self.workspaces.insert(id, label),
                ..self
            },
        }
    }

    /// This state, with an id left to the user.
    pub open spec fn releasing(self, id: Seq<char>) -> StateView {
        if self.released.contains(id) {
            self
        } else {
            StateView { released: self.released.push(id), ..self }
        }
    }

    /// Whether the plugin may write over the label that `id` shows: it is what
    /// the plugin wrote there, or it is still a default.
    pub open spec fn may_write(
        self,
        kind: LabelKind,
        id: Seq<char>,
        current: Seq<char>,
        number: Option<u32>,
    ) -> bool {
        ||| self.owned(kind).contains_key(id) && self.owned(kind)[id] == current
        ||| shows_default(current, number)
    }

    /// What becomes of a label that the plugin would like to read `desired`:
    /// the state afterwards, and the label to write, if one is to be written.
    pub open spec fn planning(
        self,
        kind: LabelKind,
        id: Seq<char>,
        current: Seq<char>,
        number: Option<u32>,
        desired: Seq<char>,
    ) -> (StateView, Option<Seq<char>>) {
        if is_blank(desired) || self.released.contains(id) {
            (self, None)
        } else if !self.may_write(kind, id, current, number) {
            (self.releasing(id), None)
        } else if current == desired {
            (self.owning(kind, id, desired), None)
        } else {
            (self.owning(kind, id, desired), Some(desired))
        }
    }
}

/// A label that the server gave rather than the user: nothing, or the number of
/// the tab or workspace, or, where that number is unknown, any number.
pub open spec fn shows_default(label: Seq<char>, number: Option<u32>) -> bool {
    let shown = trimmed(label);
    ||| shown.len() == 0
    ||| match number {
        Some(number) => shown == decimal(number as nat),
        None => all_digits(shown),
    }
}

impl Default for State {
    fn default() -> (state: State)
        ensures
            state@ == fresh_state(),
    {
        let state: State = State {
            tabs: Labels::new(),
            workspaces: Labels::new(),
            released: Vec::new(),
        };
        state
    }
}

impl Clone for State {
    fn clone(&self) -> (state: State)
        ensures
            state@ == self@,
    {
        State {
            tabs: self.tabs.clone(),
            workspaces: self.workspaces.clone(),
            released: clone_texts(&self.released),
        }
    }
}

fn clone_texts(texts: &Vec<String>) -> (r: Vec<String>)
    ensures
        views(r@) == views(texts@),
{
    let mut r: Vec<String> = Vec::new();
    let mut i: usize = 0;
    while i < texts.len()
        invariant
            i <= texts.len(),
            views(r@) == views(texts@).take(i as int),
        decreases texts.len() - i,
    {
        let ghost before = r@;
        r.push(texts[i].clone());
        proof {
            assert(views(r@) =~= views(before).push(texts@[i as int]@));
        }
        i = i + 1;
    }
    r
}

impl State {
    /// The state that a run starts from. `saved` is what the JSON reader made of
    /// the state file; a file it could make nothing of counts as no file, and
    /// the plugin starts afresh.
    pub fn parse(saved: Option<SavedState>) -> (state: State)
        ensures
            match saved {
                Some(saved) => state@ == restored(saved),
                None => state@ == fresh_state(),
            },
    {
        match saved {
            Some(saved) => State {
                tabs: Labels::from_pairs(saved.tabs),
                workspaces: Labels::from_pairs(saved.workspaces),
                released: saved.released,
            },
            None => State::default(),
        }
    }

    /// The state as plain data, no id twice in one list of labels.
    pub fn to_saved(&self) -> (saved: SavedState)
        ensures
            restored(saved) == self@,
            is_recorded(saved),
    {
        SavedState {
            tabs: self.tabs.pairs(),
            workspaces: self.workspaces.pairs(),
            released: clone_texts(&self.released),
        }
    }

    /// Whether the user renamed `id` by hand.
    pub fn is_released(&self, id: &str) -> (r: bool)
        ensures
            r == self@.released.contains(id@),
    {
        find_text(&self.released, id).is_some()
    }

    /// Leave `id` to the user from now on.
    pub fn release(&mut self, id: &str)
        ensures
            final(self)@ == old(self)@.releasing(id@),
    {
        if !self.is_released(id) {
            self.released.push(id.to_string());
        }
    }

    /// Whether the plugin wrote the label that `id` shows.
    fn wrote(&self, kind: LabelKind, id: &str, current: &str) -> (r: bool)
        ensures
            r == (self@.owned(kind).contains_key(id@) && self@.owned(kind)[id@] == current@),
    {
        let ours: Option<&String> = match kind {
            LabelKind::Tab => self.tabs.get(id),
            LabelKind::Workspace => self.workspaces.get(id),
        };
        match ours {
            Some(previous) => same_text(previous.as_str(), current),
            None => false,
        }
    }

    /// Record a label as the plugin's.
    fn own(&mut self, kind: LabelKind, id: &str, label: &str)
        ensures
            final(self)@ == old(self)@.owning(kind, id@, label@),
    {
        match kind {
            LabelKind::Tab => self.tabs.insert(id.to_string(), label.to_string()),
            LabelKind::Workspace => self.workspaces.insert(id.to_string(), label.to_string()),
        }
    }
}

/// Herdr labels new tabs and workspaces with their number (`"1"`, `"2"`, …).
/// Those are placeholders, not user intent, so they are ours to overwrite.
pub fn is_default_label(label: &str, number: Option<u32>) -> (r: bool)
    ensures
        r == shows_default(label@, number),
{
    let label: &str = trim(label);
    if label.is_empty() {
        return true;
    }
    match number {
        Some(number) => is_decimal(label, number),
        None => is_all_digits(label),
    }
}

/// Decide whether we may write `desired` over `current`.
///
/// Returns `None` when the label is already right or the user has taken it
/// over; `Some(desired)` when a rename should be issued.
pub fn plan_label<'a>(
    state: &mut State,
    kind: LabelKind,
    id: &str,
    current: &str,
    number: Option<u32>,
    desired: &'a str,
) -> (r: Option<&'a str>)
    ensures
        final(state)@ == old(state)@.planning(kind, id@, current@, number, desired@).0,
        match old(state)@.planning(kind, id@, current@, number, desired@).1 {
            Some(label) => r matches Some(text) && text@ == label,
            None => r is None,
        },
{
    if blank(desired) || state.is_released(id) {
        return None;
    }
    // A label we wrote that still reads back as what we wrote is ours to
    // update. So is a default: on an id we have never written to it is a
    // placeholder, and on one we have, nobody renames a tab *to* its own
    // number, so it is a rename of ours that has not landed yet (concurrent
    // events can observe the label mid-flight).
    if !state.wrote(kind, id, current) && !is_default_label(current, number) {
        state.release(id);
        return None;
    }
    // Record ownership even when no call is needed, so a later manual rename
    // is still detected.
    state.own(kind, id, desired);
    if same_text(current, desired) {
        None
    } else {
        Some(desired)
    }
}

/// A state that was saved reads back as it was, in whatever order the file
/// lists the labels.
pub proof fn a_saved_state_reads_back(saved: SavedState, read: SavedState)
    requires
        is_recorded(saved),
        is_recorded(read),
        pair_views(read.tabs@).to_set() == pair_views(saved.tabs@).to_set(),
        pair_views(read.workspaces@).to_set() == pair_views(saved.workspaces@).to_set(),
        views(read.released@) == views(saved.released@),
    ensures
        restored(read) == restored(saved),
{
    the_order_of_pairs_does_not_matter(pair_views(read.tabs@), pair_views(saved.tabs@));
    the_order_of_pairs_does_not_matter(
        pair_views(read.workspaces@),
        pair_views(saved.workspaces@),
    );
}

/// A default label is nothing but white space, or the number of the tab or
/// workspace with white space around it, or, where that number is unknown, any
/// digits with white space around them.
pub proof fn default_labels_in_words(label: Seq<char>, number: u32)
    ensures
        shows_default(label, Some(number)) <==> trimmed(label).len() == 0 || trimmed(label)
            == decimal(number as nat),
        shows_default(label, None) <==> trimmed(label).len() == 0 || forall|i: int|
            0 <= i < trimmed(label).len() ==> '0' <= #[trigger] trimmed(label)[i] <= '9',
{
}

/// A label that should read as nothing, and one whose id is released, is left
/// alone, and so is the state.
pub proof fn what_is_released_or_nameless_is_left_alone(
    state: StateView,
    kind: LabelKind,
    id: Seq<char>,
    current: Seq<char>,
    number: Option<u32>,
    desired: Seq<char>,
)
    requires
        state.released.contains(id) || forall|i: int|
            0 <= i < desired.len() ==> is_white_space(#[trigger] desired[i]),
    ensures
        state.planning(kind, id, current, number, desired) == (state, None::<Seq<char>>),
{
    blank_means_white_space_alone(desired);
}

/// A rename by hand wins: where the label that is shown is not the one on
/// record, in whatever way it differs, and is no default either, nothing is
/// written, the id is released, and the records stay as they are.
pub proof fn a_label_that_reads_back_otherwise_is_let_go(
    state: StateView,
    kind: LabelKind,
    id: Seq<char>,
    current: Seq<char>,
    number: Option<u32>,
    desired: Seq<char>,
    solid: int,
)
    requires
        !state.released.contains(id),
        0 <= solid < desired.len() && !is_white_space(desired[solid]),
        kind == LabelKind::Tab && state.tabs.contains_key(id) ==> state.tabs[id] != current,
        kind == LabelKind::Workspace && state.workspaces.contains_key(id)
            ==> state.workspaces[id] != current,
        trimmed(current).len() > 0,
        number matches Some(number) ==> trimmed(current) != decimal(number as nat),
        number is None ==> exists|i: int|
            0 <= i < trimmed(current).len() && !('0' <= #[trigger] trimmed(current)[i] <= '9'),
    ensures
        ({
            let (after, written) = state.planning(kind, id, current, number, desired);
            &&& written is None
            &&& after.released == state.released.push(id)
            &&& after.tabs == state.tabs
            &&& after.workspaces == state.workspaces
        }),
{
    blank_means_white_space_alone(desired);
}

/// A label on record that reads back as it was written is the plugin's, and so
/// is a default: the name it should read goes on record under its id, nothing
/// else on record changes, and the name is written unless it shows already.
pub proof fn a_label_of_the_plugins_is_brought_up_to_date(
    state: StateView,
    kind: LabelKind,
    id: Seq<char>,
    current: Seq<char>,
    number: Option<u32>,
    desired: Seq<char>,
    solid: int,
)
    requires
        !state.released.contains(id),
        0 <= solid < desired.len() && !is_white_space(desired[solid]),
        ({
            ||| kind == LabelKind::Tab && state.tabs.contains_key(id) && state.tabs[id] == current
            ||| kind == LabelKind::Workspace && state.workspaces.contains_key(id)
                && state.workspaces[id] == current
            ||| trimmed(current).len() == 0
            ||| number matches Some(number) && trimmed(current) == decimal(number as nat)
            ||| number is None && forall|i: int|
                0 <= i < trimmed(current).len() ==> '0' <= #[trigger] trimmed(current)[i] <= '9'
        }),
    ensures
        ({
            let (after, written) = state.planning(kind, id, current, number, desired);
            &&& current == desired ==> written is None
            &&& current != desired ==> written == Some(desired)
            &&& after.released == state.released
            &&& after.tabs == if kind == LabelKind::Tab {
                state.tabs.insert(id, desired)
            } else {
                state.tabs
            }
            &&& after.workspaces == if kind == LabelKind::Workspace {
                state.workspaces.insert(id, desired)
            } else {
                state.workspaces
            }
        }),
{
    blank_means_white_space_alone(desired);
}

/// Releasing an id adds it at the end of the list, once, and touches no label.
pub proof fn releasing_adds_an_id_once(state: StateView, id: Seq<char>)
    ensures
        state.releasing(id).tabs == state.tabs,
        state.releasing(id).workspaces == state.workspaces,
        state.released.contains(id) ==> state.releasing(id).released == state.released,
        !state.released.contains(id) ==> state.releasing(id).released == state.released.push(id),
{
}

/// A saved state stands for its own lists: its tab labels, its workspace labels
/// and its released ids, each where they belong. Without one nothing is owned
/// and nothing released.
pub proof fn a_saved_state_in_words(saved: SavedState, id: Seq<char>)
    ensures
        restored(saved).tabs == map_of(pair_views(saved.tabs@)),
        restored(saved).workspaces == map_of(pair_views(saved.workspaces@)),
        restored(saved).released.len() == saved.released@.len(),
        forall|i: int|
            0 <= i < saved.released@.len() ==> #[trigger] restored(saved).released[i]
                == saved.released@[i]@,
        !fresh_state().tabs.contains_key(id),
        !fresh_state().workspaces.contains_key(id),
        fresh_state().released.len() == 0,
{
}

} // verus!
