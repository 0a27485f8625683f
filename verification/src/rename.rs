//! Labels to be written, and what is shown once they are.

use vstd::prelude::*;

use crate::text::same_text;

verus! {

/// A label to be written.
#[derive(Debug, Clone, PartialEq, Eq)]
pub struct Rename {
    pub id: String,
    pub label: String,
}

/// A rename in mathematical terms.
pub struct RenameView {
    pub id: Seq<char>,
    pub label: Seq<char>,
}

impl View for Rename {
    type V = RenameView;

    open spec fn view(&self) -> RenameView {
        RenameView { id: self.id@, label: self.label@ }
    }
}

/// Renames in mathematical terms.
pub open spec fn rename_views(renames: Seq<Rename>) -> Seq<RenameView> {
    renames.map_values(|rename: Rename| rename@)
}

/// The label that `id` shows once the renames are done, in order, where it
/// shows `label` now.
pub open spec fn label_after(
    renames: Seq<RenameView>,
    id: Seq<char>,
    label: Seq<char>,
) -> Seq<char>
    decreases renames.len(),
{
    if renames.len() == 0 {
        label
    } else if renames.last().id == id {
        renames.last().label
    } else {
        label_after(renames.drop_last(), id, label)
    }
}

/// The label that `id` shows once the renames are done.
pub fn effective_label(renames: &Vec<Rename>, id: &str, label: &str) -> (r: String)
    ensures
        r@ == label_after(rename_views(renames@), id@, label@),
{
    let mut end: usize = renames.len();
    assert(rename_views(renames@).take(end as int) =~= rename_views(renames@));
    while end > 0
        invariant
            end <= renames.len(),
            label_after(rename_views(renames@), id@, label@) == label_after(
                rename_views(renames@).take(end as int),
                id@,
                label@,
            ),
        decreases end,
    {
        proof {
            let rest = rename_views(renames@).take(end as int);
            assert(rest.drop_last() =~= rename_views(renames@).take(end - 1));
        }
        if same_text(renames[end - 1].id.as_str(), id) {
            return renames[end - 1].label.clone();
        }
        end = end - 1;
    }
    label.to_string()
}

/// An id shows what the last rename of it writes; one that is not renamed shows
/// what it showed.
pub proof fn the_last_rename_of_an_id_shows(
    renames: Seq<RenameView>,
    id: Seq<char>,
    label: Seq<char>,
    k: int,
)
    ensures
        (forall|i: int| 0 <= i < renames.len() ==> (#[trigger] renames[i]).id != id)
            ==> label_after(renames, id, label) == label,
        0 <= k < renames.len() && renames[k].id == id && (forall|i: int|
            k < i < renames.len() ==> (#[trigger] renames[i]).id != id) ==> label_after(
            renames,
            id,
            label,
        ) == renames[k].label,
    decreases renames.len(),
{
    if renames.len() > 0 && renames.last().id != id {
        let rest = renames.drop_last();
        assert(forall|i: int| 0 <= i < rest.len() ==> #[trigger] rest[i] == renames[i]);
        the_last_rename_of_an_id_shows(rest, id, label, k);
    }
}

} // verus!
