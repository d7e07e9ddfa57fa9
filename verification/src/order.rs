//! The order that the collections are kept in: ascending by name, saves of
//! one name in the order they were found.

use vstd::prelude::*;
use vstd::seq_lib::*;
use vstd::utf8::*;
use crate::save::{saves_view, Save, SaveView};
use crate::text::{
    lemma_bytes_le_total, lemma_bytes_le_transitive, name_le, names_in_order,
};

verus! {

/// Whether every save of a list is named no later than those behind it.
pub open spec fn sorted_by_name(saves: Seq<SaveView>) -> bool {
    forall|i: int, j: int|
        0 <= i < j < saves.len() ==> name_le(#[trigger] saves[i].name, #[trigger] saves[j].name)
}

/// A sorted list with one more save: it goes behind the last save that is
/// named no later.
pub open spec fn insert_by_name(sorted: Seq<SaveView>, save: SaveView) -> Seq<SaveView>
    decreases sorted.len(),
{
    if sorted.len() == 0 || name_le(sorted.last().name, save.name) {
        sorted.push(save)
    } else {
        insert_by_name(sorted.drop_last(), save).push(sorted.last())
    }
}

/// A list in ascending order of names, saves of one name in the order of
/// the list.
pub open spec fn sort_by_name_spec(saves: Seq<SaveView>) -> Seq<SaveView>
    decreases saves.len(),
{
    if saves.len() == 0 {
        Seq::empty()
    } else {
        insert_by_name(sort_by_name_spec(saves.drop_last()), saves.last())
    }
}

/// Inserting keeps the order, and adds the save and nothing else.
pub proof fn lemma_insert_by_name(sorted: Seq<SaveView>, save: SaveView)
    requires
        sorted_by_name(sorted),
    ensures
        sorted_by_name(insert_by_name(sorted, save)),
        insert_by_name(sorted, save).len() == sorted.len() + 1,
        insert_by_name(sorted, save).to_multiset() == sorted.to_multiset().insert(save),
        forall|k: int|
            0 <= k < insert_by_name(sorted, save).len() ==> {
                let x = #[trigger] insert_by_name(sorted, save)[k];
                x == save || sorted.contains(x)
            },
    decreases sorted.len(),
{
    broadcast use group_to_multiset_ensures;

    let result = insert_by_name(sorted, save);
    if sorted.len() == 0 || name_le(sorted.last().name, save.name) {
        assert forall|i: int, j: int| 0 <= i < j < result.len() implies name_le(
            #[trigger] result[i].name,
            #[trigger] result[j].name,
        ) by {
            if j == sorted.len() && i < sorted.len() - 1 {
                lemma_bytes_le_transitive(
                    encode_utf8(sorted[i].name),
                    encode_utf8(sorted.last().name),
                    encode_utf8(save.name),
                );
            }
        }
        assert forall|k: int| 0 <= k < result.len() implies ({
            let x = #[trigger] result[k];
            x == save || sorted.contains(x)
        }) by {
        }
    } else {
        let front = sorted.drop_last();
        let last = sorted.last();
        lemma_insert_by_name(front, save);
        let inner = insert_by_name(front, save);
        lemma_bytes_le_total(encode_utf8(last.name), encode_utf8(save.name));
        assert forall|i: int, j: int| 0 <= i < j < result.len() implies name_le(
            #[trigger] result[i].name,
            #[trigger] result[j].name,
        ) by {
            if j == inner.len() {
                let x = inner[i];
                if x != save {
                    let k = choose|k: int| 0 <= k < front.len() && front[k] == x;
                    assert(name_le(sorted[k].name, last.name));
                }
            }
        }
        assert(sorted =~= front.push(last));
        assert forall|k: int| 0 <= k < result.len() implies ({
            let x = #[trigger] result[k];
            x == save || sorted.contains(x)
        }) by {
        }
    }
}

/// Sorting gives a list in ascending order that holds each save as often
/// as the list it was made from.
pub proof fn lemma_sort_by_name(saves: Seq<SaveView>)
    ensures
        sorted_by_name(sort_by_name_spec(saves)),
        sort_by_name_spec(saves).len() == saves.len(),
        sort_by_name_spec(saves).to_multiset() == saves.to_multiset(),
        forall|k: int|
            0 <= k < sort_by_name_spec(saves).len() ==> saves.contains(
                #[trigger] sort_by_name_spec(saves)[k],
            ),
    decreases saves.len(),
{
    broadcast use group_to_multiset_ensures;

    if saves.len() > 0 {
        let front = saves.drop_last();
        lemma_sort_by_name(front);
        lemma_insert_by_name(sort_by_name_spec(front), saves.last());
        assert(saves =~= front.push(saves.last()));
    }
}

/// Where a save goes into a sorted list: before the saves that are named
/// later, behind all others.
pub proof fn lemma_insert_position(sorted: Seq<SaveView>, save: SaveView, at: int)
    requires
        0 <= at <= sorted.len(),
        forall|k: int| at <= k < sorted.len() ==> !name_le(#[trigger] sorted[k].name, save.name),
        at > 0 ==> name_le(sorted[at - 1].name, save.name),
    ensures
        insert_by_name(sorted, save) == sorted.insert(at, save),
    decreases sorted.len(),
{
    if at < sorted.len() {
        let front = sorted.drop_last();
        lemma_insert_position(front, save, at);
    }
}

/// Sorts saves by name. Saves of one name stay in the order they came in.
pub fn sort_by_name(saves: &Vec<Save>) -> (sorted: Vec<Save>)
    ensures
        saves_view(sorted@) == sort_by_name_spec(saves_view(saves@)),
        sorted_by_name(saves_view(sorted@)),
        sorted@.len() == saves@.len(),
        saves_view(sorted@).to_multiset() == saves_view(saves@).to_multiset(),
        forall|k: int|
            0 <= k < sorted@.len() ==> saves_view(saves@).contains(
                #[trigger] saves_view(sorted@)[k],
            ),
{
    let ghost all = saves_view(saves@);
    let mut sorted: Vec<Save> = Vec::new();
    let mut i: usize = 0;
    while i < saves.len()
        invariant
            all == saves_view(saves@),
            i <= saves@.len(),
            sorted@.len() == i,
            saves_view(sorted@) =~= sort_by_name_spec(all.take(i as int)),
        decreases saves@.len() - i,
    {
        let save = saves[i].clone();
        let mut at: usize = sorted.len();
        while at > 0 && !names_in_order(sorted[at - 1].name.as_str(), save.name.as_str())
            invariant
                at <= sorted@.len(),
                forall|k: int|
                    at <= k < sorted@.len() ==> !name_le(
                        (#[trigger] sorted@[k]).name@,
                        save.name@,
                    ),
            decreases at,
        {
            at -= 1;
        }
        proof {
            let before = saves_view(sorted@);
            assert(all.take(i + 1).drop_last() =~= all.take(i as int));
            lemma_insert_position(before, save@, at as int);
        }
        sorted.insert(at, save);
        i += 1;
    }
    proof {
        assert(all.take(i as int) =~= all);
        lemma_sort_by_name(all);
    }
    sorted
}

} // verus!
