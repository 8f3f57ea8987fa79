//! The saved list of one wallet: an ordered list of campaign ids held in a
//! host vector, and the two edits made to it.
//!
//! A list is modelled by its entries (`entries_of`): `Some(id)` for an item
//! that reads as a campaign id, `None` for an item of another kind. Lists
//! that this library builds hold only `Some` entries; the edits below are
//! exact on any list.
use vstd::prelude::*;

use crate::error::Error;
use crate::host::{entries_of, vec_len, vec_push_back, vec_remove, vec_try_get};

verus! {

/// What saving `campaign_id` does to the list `saved`: the id goes to the
/// end, unless it is already there or the list cannot grow.
pub open spec fn save_outcome(saved: Seq<Option<u32>>, campaign_id: u32) -> Result<
    Seq<Option<u32>>,
    Error,
> {
    if saved.contains(Some(campaign_id)) {
        Err(Error::CampaignAlreadyBookmarked)
    } else if saved.len() >= u32::MAX {
        Err(Error::BookmarkListFull)
    } else {
        Ok(saved.push(Some(campaign_id)))
    }
}

/// What removing `campaign_id` does to the list `saved`: its first
/// occurrence goes, the other entries keep their order; an id that is not
/// there is refused.
pub open spec fn remove_outcome(saved: Seq<Option<u32>>, campaign_id: u32) -> Result<
    Seq<Option<u32>>,
    Error,
> {
    if saved.contains(Some(campaign_id)) {
        Ok(saved.remove_value(Some(campaign_id)))
    } else {
        Err(Error::CampaignNotBookmarked)
    }
}

/// `i` is the first position of `entry` in `saved`.
pub open spec fn is_first_position(saved: Seq<Option<u32>>, entry: Option<u32>, i: int) -> bool {
    &&& 0 <= i < saved.len()
    &&& saved[i] == entry
    &&& forall|j: int| 0 <= j < i ==> saved[j] != entry
}

/// Whether `campaign_id` is in the list.
pub fn is_bookmarked(saved: &soroban_sdk::Vec<u32>, campaign_id: u32) -> (found: bool)
    ensures
        found == entries_of(*saved).contains(Some(campaign_id)),
{
    match find_bookmark(saved, campaign_id) {
        Some(_) => true,
        None => false,
    }
}

/// The position of the first occurrence of `campaign_id` in the list, or
/// `None` when it does not occur.
pub fn find_bookmark(saved: &soroban_sdk::Vec<u32>, campaign_id: u32) -> (pos: Option<u32>)
    ensures
        match pos {
            Some(i) => is_first_position(entries_of(*saved), Some(campaign_id), i as int),
            None => !entries_of(*saved).contains(Some(campaign_id)),
        },
{
    let ghost entries = entries_of(*saved);
    let n = vec_len(saved);
    let mut i: u32 = 0;
    while i < n
        invariant
            entries == entries_of(*saved),
            n == entries.len(),
            i <= n,
            forall|j: int| 0 <= j < i ==> entries[j] != Some(campaign_id),
        decreases n - i,
    {
        match vec_try_get(saved, i) {
            Some(x) => {
                if x == campaign_id {
                    return Some(i);
                }
            },
            None => {},
        }
        i = i + 1;
    }
    None
}

/// The first position of an entry that occurs is the one `remove_value` removes.
proof fn lemma_first_position_is_index_of_first(saved: Seq<Option<u32>>, entry: Option<u32>, i: int)
    requires
        is_first_position(saved, entry, i),
    ensures
        saved.remove_value(entry) == saved.remove(i),
{
    saved.index_of_first_ensures(entry);
    let k = saved.index_of_first(entry).unwrap();
    assert(saved.contains(entry)) by {
        assert(saved[i] == entry);
    }
    if k < i {
        assert(saved[k] == entry);
    } else if i < k {
        assert(saved[i] == entry);
    }
}

/// An entry that occurs has a first position.
proof fn lemma_some_first_position(saved: Seq<Option<u32>>, entry: Option<u32>)
    requires
        saved.contains(entry),
    ensures
        exists|i: int| is_first_position(saved, entry, i),
{
    saved.index_of_first_ensures(entry);
    let k = saved.index_of_first(entry).unwrap();
    assert(is_first_position(saved, entry, k));
}

/// Adds `campaign_id` to the end of the list, as `save_outcome` says; on a
/// refusal the list is left as it was.
pub fn add_bookmark(saved: &mut soroban_sdk::Vec<u32>, campaign_id: u32) -> (r: Result<(), Error>)
    ensures
        match save_outcome(entries_of(*old(saved)), campaign_id) {
            Ok(entries) => r is Ok && entries_of(*final(saved)) == entries,
            Err(e) => r == Err::<(), Error>(e) && *final(saved) == *old(saved),
        },
{
    if is_bookmarked(saved, campaign_id) {
        return Err(Error::CampaignAlreadyBookmarked);
    }
    if vec_len(saved) == u32::MAX {
        return Err(Error::BookmarkListFull);
    }
    vec_push_back(saved, campaign_id);
    Ok(())
}

/// Removes the first occurrence of `campaign_id` from the list, as
/// `remove_outcome` says; on a refusal the list is left as it was.
pub fn remove_bookmark(saved: &mut soroban_sdk::Vec<u32>, campaign_id: u32) -> (r: Result<(), Error>)
    ensures
        match remove_outcome(entries_of(*old(saved)), campaign_id) {
            Ok(entries) => r is Ok && entries_of(*final(saved)) == entries,
            Err(e) => r == Err::<(), Error>(e) && *final(saved) == *old(saved),
        },
{
    match find_bookmark(saved, campaign_id) {
        Some(idx) => {
            proof {
                lemma_first_position_is_index_of_first(
                    entries_of(*saved),
                    Some(campaign_id),
                    idx as int,
                );
            }
            let _ = vec_remove(saved, idx);
            Ok(())
        },
        None => Err(Error::CampaignNotBookmarked),
    }
}

/// A removal that goes through takes out the entry at the id's first
/// position: the entries before it stay where they were and each entry
/// after it moves up by one.
pub proof fn lemma_remove_takes_first_occurrence(saved: Seq<Option<u32>>, campaign_id: u32)
    requires
        remove_outcome(saved, campaign_id) is Ok,
    ensures
        exists|k: int|
            #![trigger is_first_position(saved, Some(campaign_id), k)]
            {
                let after = remove_outcome(saved, campaign_id)->Ok_0;
                &&& is_first_position(saved, Some(campaign_id), k)
                &&& after.len() == saved.len() - 1
                &&& forall|i: int| 0 <= i < k ==> after[i] == saved[i]
                &&& forall|i: int| k <= i < after.len() ==> after[i] == saved[i + 1]
            },
{
    lemma_some_first_position(saved, Some(campaign_id));
    let k = choose|k: int| is_first_position(saved, Some(campaign_id), k);
    lemma_first_position_is_index_of_first(saved, Some(campaign_id), k);
    let after = saved.remove(k);
    assert(after.len() == saved.len() - 1);
    assert forall|i: int| 0 <= i < k implies after[i] == saved[i] by {}
    assert forall|i: int| k <= i < after.len() implies after[i] == saved[i + 1] by {}
}

/// Saving an id and then removing it gives back the list as it was.
pub proof fn lemma_save_then_remove_restores(saved: Seq<Option<u32>>, campaign_id: u32)
    requires
        save_outcome(saved, campaign_id) is Ok,
    ensures
        remove_outcome(save_outcome(saved, campaign_id)->Ok_0, campaign_id) == Ok::<
            Seq<Option<u32>>,
            Error,
        >(saved),
{
    let grown = saved.push(Some(campaign_id));
    let i = saved.len() as int;
    assert(grown[i] == Some(campaign_id));
    assert(is_first_position(grown, Some(campaign_id), i));
    lemma_first_position_is_index_of_first(grown, Some(campaign_id), i);
    assert(grown.remove(i) =~= saved);
}

/// A saved id cannot be saved a second time: the second save is refused
/// with `CampaignAlreadyBookmarked`.
pub proof fn lemma_save_twice_refused(saved: Seq<Option<u32>>, campaign_id: u32)
    requires
        save_outcome(saved, campaign_id) is Ok,
    ensures
        save_outcome(save_outcome(saved, campaign_id)->Ok_0, campaign_id) == Err::<
            Seq<Option<u32>>,
            Error,
        >(Error::CampaignAlreadyBookmarked),
{
    let grown = saved.push(Some(campaign_id));
    assert(grown[saved.len() as int] == Some(campaign_id));
}

/// Saving keeps a list free of repeated entries.
pub proof fn lemma_save_keeps_ids_unique(saved: Seq<Option<u32>>, campaign_id: u32)
    requires
        saved.no_duplicates(),
    ensures
        save_outcome(saved, campaign_id) matches Ok(entries) ==> entries.no_duplicates(),
{
}

/// Removing keeps a list free of repeated entries.
pub proof fn lemma_remove_keeps_ids_unique(saved: Seq<Option<u32>>, campaign_id: u32)
    requires
        saved.no_duplicates(),
    ensures
        remove_outcome(saved, campaign_id) matches Ok(entries) ==> entries.no_duplicates(),
{
    if saved.contains(Some(campaign_id)) {
        lemma_some_first_position(saved, Some(campaign_id));
        let i = choose|i: int| is_first_position(saved, Some(campaign_id), i);
        lemma_first_position_is_index_of_first(saved, Some(campaign_id), i);
        let entries = saved.remove(i);
        assert forall|a: int, b: int|
            0 <= a < entries.len() && 0 <= b < entries.len() && a != b implies entries[a]
            != entries[b] by {
            let sa = if a < i {
                a
            } else {
                a + 1
            };
            let sb = if b < i {
                b
            } else {
                b + 1
            };
            assert(entries[a] == saved[sa]);
            assert(entries[b] == saved[sb]);
        }
    }
}

/// In a list free of repeated entries, a removed id is no longer there, so
/// a second removal is refused with `CampaignNotBookmarked`.
pub proof fn lemma_removed_id_is_gone(saved: Seq<Option<u32>>, campaign_id: u32)
    requires
        saved.no_duplicates(),
        remove_outcome(saved, campaign_id) is Ok,
    ensures
        !remove_outcome(saved, campaign_id)->Ok_0.contains(Some(campaign_id)),
        remove_outcome(remove_outcome(saved, campaign_id)->Ok_0, campaign_id) == Err::<
            Seq<Option<u32>>,
            Error,
        >(Error::CampaignNotBookmarked),
{
    lemma_some_first_position(saved, Some(campaign_id));
    let i = choose|i: int| is_first_position(saved, Some(campaign_id), i);
    lemma_first_position_is_index_of_first(saved, Some(campaign_id), i);
    let entries = saved.remove(i);
    if entries.contains(Some(campaign_id)) {
        let a = choose|a: int| 0 <= a < entries.len() && entries[a] == Some(campaign_id);
        let sa = if a < i {
            a
        } else {
            a + 1
        };
        assert(saved[sa] == Some(campaign_id));
        assert(saved[i] == Some(campaign_id));
    }
}

/// Saving or removing one id leaves every other entry where it was: in the
/// list before exactly when in the list after.
pub proof fn lemma_other_ids_unaffected(saved: Seq<Option<u32>>, campaign_id: u32, other: Option<u32>)
    requires
        other != Some(campaign_id),
    ensures
        save_outcome(saved, campaign_id) matches Ok(entries) ==> (entries.contains(other)
            <==> saved.contains(other)),
        remove_outcome(saved, campaign_id) matches Ok(entries) ==> (entries.contains(other)
            <==> saved.contains(other)),
{
    if save_outcome(saved, campaign_id) is Ok {
        let entries = saved.push(Some(campaign_id));
        if entries.contains(other) {
            let a = choose|a: int| 0 <= a < entries.len() && entries[a] == other;
            assert(saved[a] == other);
        }
        if saved.contains(other) {
            let a = choose|a: int| 0 <= a < saved.len() && saved[a] == other;
            assert(entries[a] == other);
        }
    }
    if saved.contains(Some(campaign_id)) {
        lemma_some_first_position(saved, Some(campaign_id));
        let i = choose|i: int| is_first_position(saved, Some(campaign_id), i);
        lemma_first_position_is_index_of_first(saved, Some(campaign_id), i);
        let entries = saved.remove(i);
        if entries.contains(other) {
            let a = choose|a: int| 0 <= a < entries.len() && entries[a] == other;
            let sa = if a < i {
                a
            } else {
                a + 1
            };
            assert(saved[sa] == other);
        }
        if saved.contains(other) {
            let a = choose|a: int| 0 <= a < saved.len() && saved[a] == other;
            assert(a != i);
            let ia = if a < i {
                a
            } else {
                a - 1
            };
            assert(entries[ia] == other);
        }
    }
}

/// The entries of a list that holds exactly the ids `ids`, in order.
pub open spec fn as_entries(ids: Seq<u32>) -> Seq<Option<u32>> {
    ids.map_values(|id: u32| Some(id))
}

/// Saves `ids` one after the other, starting from `start`; the first
/// refusal stops the run.
pub open spec fn save_all(start: Seq<Option<u32>>, ids: Seq<u32>) -> Result<
    Seq<Option<u32>>,
    Error,
>
    decreases ids.len(),
{
    if ids.len() == 0 {
        Ok(start)
    } else {
        match save_all(start, ids.drop_last()) {
            Ok(list) => save_outcome(list, ids.last()),
            Err(e) => Err(e),
        }
    }
}

/// Saving distinct new ids one after the other lists them after the
/// entries already there, in the order they were saved.
pub proof fn lemma_saved_in_order(start: Seq<Option<u32>>, ids: Seq<u32>)
    requires
        (start + as_entries(ids)).no_duplicates(),
        start.len() + ids.len() <= u32::MAX,
    ensures
        save_all(start, ids) == Ok::<Seq<Option<u32>>, Error>(start + as_entries(ids)),
    decreases ids.len(),
{
    if ids.len() > 0 {
        let prefix = ids.drop_last();
        let all = start + as_entries(ids);
        let before = start + as_entries(prefix);
        assert(before =~= all.drop_last());
        assert(all.drop_last().no_duplicates());
        lemma_saved_in_order(start, prefix);
        let last = ids.last();
        assert(all[all.len() - 1] == Some(last));
        if before.contains(Some(last)) {
            let a = choose|a: int| 0 <= a < before.len() && before[a] == Some(last);
            assert(all[a] == Some(last));
        }
        assert(before.push(Some(last)) =~= all);
    }
}

/// One edit made to a saved list.
pub enum ListEdit {
    Save(u32),
    Remove(u32),
}

/// What one edit does to a list, as `save_outcome` or `remove_outcome` says.
pub open spec fn apply_edit(list: Seq<Option<u32>>, edit: ListEdit) -> Result<
    Seq<Option<u32>>,
    Error,
> {
    match edit {
        ListEdit::Save(id) => save_outcome(list, id),
        ListEdit::Remove(id) => remove_outcome(list, id),
    }
}

/// The list after the edits `edits`, made one after the other from `start`;
/// a refused edit leaves the list as it was.
pub open spec fn replay(start: Seq<Option<u32>>, edits: Seq<ListEdit>) -> Seq<Option<u32>>
    decreases edits.len(),
{
    if edits.len() == 0 {
        start
    } else {
        let before = replay(start, edits.drop_last());
        match apply_edit(before, edits.last()) {
            Ok(after) => after,
            Err(_) => before,
        }
    }
}

/// The ids of the saves among `edits`, in order.
pub open spec fn saves_in(edits: Seq<ListEdit>) -> Seq<u32>
    decreases edits.len(),
{
    if edits.len() == 0 {
        Seq::<u32>::empty()
    } else {
        match edits.last() {
            ListEdit::Save(id) => saves_in(edits.drop_last()).push(id),
            ListEdit::Remove(_) => saves_in(edits.drop_last()),
        }
    }
}

/// Whether `id` is kept after `edits`: the last edit naming it is a save,
/// or no edit names it and `start` holds it.
pub open spec fn kept_after(start: Seq<Option<u32>>, edits: Seq<ListEdit>, id: u32) -> bool
    decreases edits.len(),
{
    if edits.len() == 0 {
        start.contains(Some(id))
    } else {
        match edits.last() {
            ListEdit::Save(x) => x == id || kept_after(start, edits.drop_last(), id),
            ListEdit::Remove(x) => x != id && kept_after(start, edits.drop_last(), id),
        }
    }
}

/// `f` places the entries of `sub` in `full`, in the same order.
pub open spec fn embeds(sub: Seq<Option<u32>>, full: Seq<Option<u32>>, f: spec_fn(int) -> int) -> bool {
    &&& forall|i: int, j: int| 0 <= i < j < sub.len() ==> #[trigger] f(i) < #[trigger] f(j)
    &&& forall|i: int|
        0 <= i < sub.len() ==> 0 <= #[trigger] f(i) < full.len() && sub[i] == full[f(i)]
}

/// `sub` is `full` with some entries left out, the rest in their order.
pub open spec fn is_ordered_sublist(sub: Seq<Option<u32>>, full: Seq<Option<u32>>) -> bool {
    exists|f: spec_fn(int) -> int| embeds(sub, full, f)
}

/// Each edit grows a list by at most one entry.
pub proof fn lemma_replay_len(start: Seq<Option<u32>>, edits: Seq<ListEdit>)
    ensures
        replay(start, edits).len() <= start.len() + edits.len(),
    decreases edits.len(),
{
    if edits.len() > 0 {
        let before = replay(start, edits.drop_last());
        lemma_replay_len(start, edits.drop_last());
        match edits.last() {
            ListEdit::Save(id) => {},
            ListEdit::Remove(id) => {
                if before.contains(Some(id)) {
                    lemma_some_first_position(before, Some(id));
                    let i = choose|i: int| is_first_position(before, Some(id), i);
                    lemma_first_position_is_index_of_first(before, Some(id), i);
                }
            },
        }
    }
}

/// Every list reached by saves and removals from a list without repeated
/// entries has no repeated entries.
pub proof fn lemma_replay_keeps_ids_unique(start: Seq<Option<u32>>, edits: Seq<ListEdit>)
    requires
        start.no_duplicates(),
    ensures
        replay(start, edits).no_duplicates(),
    decreases edits.len(),
{
    if edits.len() > 0 {
        let before = replay(start, edits.drop_last());
        lemma_replay_keeps_ids_unique(start, edits.drop_last());
        match edits.last() {
            ListEdit::Save(id) => lemma_save_keeps_ids_unique(before, id),
            ListEdit::Remove(id) => lemma_remove_keeps_ids_unique(before, id),
        }
    }
}

/// After saves and removals from a list without repeated entries (and
/// short of the length limit), an id is in the list exactly when the last
/// edit naming it saved it, or no edit named it and it was there at the
/// start.
pub proof fn lemma_replay_membership(start: Seq<Option<u32>>, edits: Seq<ListEdit>, id: u32)
    requires
        start.no_duplicates(),
        start.len() + edits.len() < u32::MAX,
    ensures
        replay(start, edits).contains(Some(id)) == kept_after(start, edits, id),
    decreases edits.len(),
{
    if edits.len() > 0 {
        let rest = edits.drop_last();
        let before = replay(start, rest);
        lemma_replay_membership(start, rest, id);
        lemma_replay_len(start, rest);
        lemma_replay_keeps_ids_unique(start, rest);
        match edits.last() {
            ListEdit::Save(x) => {
                if x == id {
                    if !before.contains(Some(id)) {
                        let after = before.push(Some(id));
                        assert(after[before.len() as int] == Some(id));
                    }
                } else {
                    lemma_other_ids_unaffected(before, x, Some(id));
                }
            },
            ListEdit::Remove(x) => {
                if x == id {
                    if before.contains(Some(id)) {
                        lemma_removed_id_is_gone(before, id);
                    }
                } else {
                    lemma_other_ids_unaffected(before, x, Some(id));
                }
            },
        }
    }
}

/// After saves and removals, the list keeps the order in which its ids
/// were saved: it is the start followed by every saved id, with some
/// entries left out.
pub proof fn lemma_replay_keeps_saving_order(start: Seq<Option<u32>>, edits: Seq<ListEdit>)
    ensures
        is_ordered_sublist(replay(start, edits), start + as_entries(saves_in(edits))),
    decreases edits.len(),
{
    if edits.len() == 0 {
        let f = |i: int| i;
        assert(as_entries(saves_in(edits)) =~= Seq::<Option<u32>>::empty());
        assert(start + as_entries(saves_in(edits)) =~= start);
        assert(embeds(start, start + as_entries(saves_in(edits)), f));
    } else {
        let rest = edits.drop_last();
        let before = replay(start, rest);
        let full = start + as_entries(saves_in(rest));
        lemma_replay_keeps_saving_order(start, rest);
        let f = choose|f: spec_fn(int) -> int| embeds(before, full, f);
        assert(embeds(before, full, f));
        match edits.last() {
            ListEdit::Save(x) => {
                let full2 = full.push(Some(x));
                assert(as_entries(saves_in(rest).push(x)) =~= as_entries(saves_in(rest)).push(
                    Some(x),
                ));
                assert(start + as_entries(saves_in(edits)) =~= full2);
                match save_outcome(before, x) {
                    Ok(after) => {
                        let n = before.len() as int;
                        let g = |i: int|
                            if i < n {
                                f(i)
                            } else {
                                full.len() as int
                            };
                        assert forall|i: int, j: int|
                            0 <= i < j < after.len() implies #[trigger] g(i) < #[trigger] g(j) by {
                            if j < n {
                                assert(f(i) < f(j));
                            } else {
                                assert(0 <= f(i) < full.len());
                            }
                        }
                        assert forall|i: int| 0 <= i < after.len() implies 0 <= #[trigger] g(i)
                            < full2.len() && after[i] == full2[g(i)] by {
                            if i < n {
                                assert(0 <= f(i) < full.len() && before[i] == full[f(i)]);
                            }
                        }
                        assert(embeds(after, full2, g));
                    },
                    Err(_) => {
                        assert(embeds(before, full2, f));
                    },
                }
            },
            ListEdit::Remove(x) => {
                assert(saves_in(edits) == saves_in(rest));
                if before.contains(Some(x)) {
                    lemma_some_first_position(before, Some(x));
                    let k = choose|k: int| is_first_position(before, Some(x), k);
                    lemma_first_position_is_index_of_first(before, Some(x), k);
                    let after = before.remove(k);
                    let g = |i: int|
                        if i < k {
                            f(i)
                        } else {
                            f(i + 1)
                        };
                    assert forall|i: int, j: int|
                        0 <= i < j < after.len() implies #[trigger] g(i) < #[trigger] g(j) by {
                        let si = if i < k {
                            i
                        } else {
                            i + 1
                        };
                        let sj = if j < k {
                            j
                        } else {
                            j + 1
                        };
                        assert(f(si) < f(sj));
                    }
                    assert forall|i: int| 0 <= i < after.len() implies 0 <= #[trigger] g(i)
                        < full.len() && after[i] == full[g(i)] by {
                        let si = if i < k {
                            i
                        } else {
                            i + 1
                        };
                        assert(0 <= f(si) < full.len() && before[si] == full[f(si)]);
                    }
                    assert(embeds(after, full, g));
                } else {
                    assert(embeds(before, full, f));
                }
            },
        }
    }
}

} // verus!
