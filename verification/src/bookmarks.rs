//! On-chain campaign bookmarks for wallets.
//!
//! A wallet tracks the causes it cares about without relying on a frontend:
//! `save_campaign`, `remove_saved_campaign` and `get_saved` are plain ledger
//! reads and writes keyed by the wallet address, so any client can show a
//! user's saved campaigns straight from chain state.
//!
//! Each write reads the ledger, hands what it read to a decision step with
//! an exact contract (`decide_save`, `decide_remove`), and then stores the
//! list that step chose and publishes one event. What the ledger holds rests
//! on the host, so the contracts of the ledger operations list the results
//! that can come back and do not state the stored list or the event.
//!
//! Authorization is the caller's: the contract's entry point requires the
//! wallet's signature before it calls these functions.
use vstd::prelude::*;

use crate::error::Error;
use crate::host::{entries_of, publish_campaign_event};
use crate::lifecycle::campaign_check;
use crate::pause::{pause_check, pause_flags};
use crate::saved_list::{
    add_bookmark, is_first_position, lemma_remove_takes_first_occurrence, remove_bookmark,
    remove_outcome, save_outcome,
};
use crate::storage::{
    campaign_exists, get_saved_campaigns, saved_or_empty, set_saved_campaigns,
    stored_saved_campaigns,
};

verus! {

/// The first topic of the event published when a campaign is saved.
pub const CAMPAIGN_BOOKMARKED: &'static str = "campaign_bookmarked";

/// The first topic of the event published when a campaign is removed.
pub const CAMPAIGN_UNBOOKMARKED: &'static str = "campaign_unbookmarked";

/// The entries of the saved list that storage held: those of the stored
/// vector, or none when nothing was stored.
pub open spec fn stored_entries(stored: Option<soroban_sdk::Vec<u32>>) -> Seq<Option<u32>> {
    match stored {
        Some(v) => entries_of(v),
        None => Seq::<Option<u32>>::empty(),
    }
}

/// What a save decides from what the ledger held: refused while paused,
/// then for a missing campaign, then as `save_outcome` says of the list.
pub open spec fn save_plan(
    paused: bool,
    auto_paused: bool,
    campaign_found: bool,
    stored: Seq<Option<u32>>,
    campaign_id: u32,
) -> Result<Seq<Option<u32>>, Error> {
    if paused || auto_paused {
        Err(Error::ContractPaused)
    } else if !campaign_found {
        Err(Error::CampaignNotFound)
    } else {
        save_outcome(stored, campaign_id)
    }
}

/// What a removal decides from what the ledger held: refused while paused,
/// then as `remove_outcome` says of the list.
pub open spec fn remove_plan(
    paused: bool,
    auto_paused: bool,
    stored: Seq<Option<u32>>,
    campaign_id: u32,
) -> Result<Seq<Option<u32>>, Error> {
    if paused || auto_paused {
        Err(Error::ContractPaused)
    } else {
        remove_outcome(stored, campaign_id)
    }
}

/// The decision of a save: the list to store, or the refusal, as
/// `save_plan` says.
pub fn decide_save(
    env: &soroban_sdk::Env,
    paused: bool,
    auto_paused: bool,
    campaign_found: bool,
    stored: Option<soroban_sdk::Vec<u32>>,
    campaign_id: u32,
) -> (r: Result<soroban_sdk::Vec<u32>, Error>)
    ensures
        match save_plan(paused, auto_paused, campaign_found, stored_entries(stored), campaign_id) {
            Ok(entries) => r matches Ok(v) && entries_of(v) == entries,
            Err(e) => r == Err::<soroban_sdk::Vec<u32>, Error>(e),
        },
{
    pause_check(paused, auto_paused)?;
    campaign_check(campaign_found)?;
    let mut saved = saved_or_empty(env, stored);
    add_bookmark(&mut saved, campaign_id)?;
    Ok(saved)
}

/// The decision of a removal: the list to store, or the refusal, as
/// `remove_plan` says.
pub fn decide_remove(
    env: &soroban_sdk::Env,
    paused: bool,
    auto_paused: bool,
    stored: Option<soroban_sdk::Vec<u32>>,
    campaign_id: u32,
) -> (r: Result<soroban_sdk::Vec<u32>, Error>)
    ensures
        match remove_plan(paused, auto_paused, stored_entries(stored), campaign_id) {
            Ok(entries) => r matches Ok(v) && entries_of(v) == entries,
            Err(e) => r == Err::<soroban_sdk::Vec<u32>, Error>(e),
        },
{
    pause_check(paused, auto_paused)?;
    let mut saved = saved_or_empty(env, stored);
    remove_bookmark(&mut saved, campaign_id)?;
    Ok(saved)
}

/// Adds `campaign_id` to `user`'s saved list.
///
/// Reads the pause flags, whether the campaign exists and `user`'s stored
/// list, and hands them to `decide_save`. When it decides a list, that list
/// is stored under `(saved_campaigns_tag, user)` and the event
/// `(CAMPAIGN_BOOKMARKED, user)` with data `campaign_id` is published;
/// otherwise its refusal is returned and nothing is written.
pub fn save_campaign(env: &soroban_sdk::Env, user: soroban_sdk::Address, campaign_id: u32) -> (r:
    Result<(), Error>)
    ensures
        r is Ok || r == Err::<(), Error>(Error::ContractPaused) || r == Err::<(), Error>(
            Error::CampaignNotFound,
        ) || r == Err::<(), Error>(Error::CampaignAlreadyBookmarked) || r == Err::<(), Error>(
            Error::BookmarkListFull,
        ),
{
    let (paused, auto_paused) = pause_flags(env);
    let found = campaign_exists(env, campaign_id);
    let stored = stored_saved_campaigns(env, &user);
    let saved = decide_save(env, paused, auto_paused, found, stored, campaign_id)?;
    set_saved_campaigns(env, &user, &saved);
    publish_campaign_event(env, CAMPAIGN_BOOKMARKED, &user, campaign_id);
    Ok(())
}

/// Removes `campaign_id` from `user`'s saved list.
///
/// Reads the pause flags and `user`'s stored list and hands them to
/// `decide_remove`. When it decides a list, that list is stored under
/// `(saved_campaigns_tag, user)` and the event `(CAMPAIGN_UNBOOKMARKED, user)`
/// with data `campaign_id` is published; otherwise its refusal is returned
/// and nothing is written.
pub fn remove_saved_campaign(
    env: &soroban_sdk::Env,
    user: soroban_sdk::Address,
    campaign_id: u32,
) -> (r: Result<(), Error>)
    ensures
        r is Ok || r == Err::<(), Error>(Error::ContractPaused) || r == Err::<(), Error>(
            Error::CampaignNotBookmarked,
        ),
{
    let (paused, auto_paused) = pause_flags(env);
    let stored = stored_saved_campaigns(env, &user);
    let saved = decide_remove(env, paused, auto_paused, stored, campaign_id)?;
    set_saved_campaigns(env, &user, &saved);
    publish_campaign_event(env, CAMPAIGN_UNBOOKMARKED, &user, campaign_id);
    Ok(())
}

/// The saved list of `user`, as `get_saved_campaigns` reads it. This is a
/// public, unauthenticated read: any wallet or app can show another
/// wallet's saved causes.
pub fn get_saved(env: &soroban_sdk::Env, user: soroban_sdk::Address) -> soroban_sdk::Vec<u32> {
    get_saved_campaigns(env, &user)
}

/// Bookmarks are not pruned when a campaign is cancelled: walking every
/// wallet is not feasible on-chain, so this makes no ledger access, saved
/// lists keep ids of cancelled campaigns, and clients filter them by
/// campaign state.
pub fn prune_bookmarks_for_campaign(env: &soroban_sdk::Env, campaign_id: u32) {
    let _ = (env, campaign_id);
}

/// While either pause flag is set, every save and every removal is refused
/// with `ContractPaused`, whatever the campaign lookup said and whatever
/// list was stored.
pub proof fn lemma_pause_blocks_writes(
    paused: bool,
    auto_paused: bool,
    campaign_found: bool,
    stored: Seq<Option<u32>>,
    campaign_id: u32,
)
    requires
        paused || auto_paused,
    ensures
        save_plan(paused, auto_paused, campaign_found, stored, campaign_id) == Err::<
            Seq<Option<u32>>,
            Error,
        >(Error::ContractPaused),
        remove_plan(paused, auto_paused, stored, campaign_id) == Err::<
            Seq<Option<u32>>,
            Error,
        >(Error::ContractPaused),
{
}

/// When the contract is not paused and no campaign record was found, a
/// save is refused with `CampaignNotFound`, whatever list was stored.
pub proof fn lemma_missing_campaign_refused(stored: Seq<Option<u32>>, campaign_id: u32)
    ensures
        save_plan(false, false, false, stored, campaign_id) == Err::<Seq<Option<u32>>, Error>(
            Error::CampaignNotFound,
        ),
{
}

/// A save that goes through was not paused, found its campaign, did not
/// hold the id before, and yields the stored list with the id added as its
/// one new, last entry.
pub proof fn lemma_successful_save(
    paused: bool,
    auto_paused: bool,
    campaign_found: bool,
    stored: Seq<Option<u32>>,
    campaign_id: u32,
)
    requires
        save_plan(paused, auto_paused, campaign_found, stored, campaign_id) is Ok,
    ensures
        ({
            let after = save_plan(paused, auto_paused, campaign_found, stored, campaign_id)->Ok_0;
            &&& !paused && !auto_paused && campaign_found
            &&& !stored.contains(Some(campaign_id))
            &&& after.len() == stored.len() + 1
            &&& after[stored.len() as int] == Some(campaign_id)
            &&& forall|i: int| 0 <= i < stored.len() ==> after[i] == stored[i]
        }),
{
}

/// A removal that goes through was not paused, and yields the stored list
/// with the entry at the id's first position taken out: the entries before
/// it stay where they were and each entry after it moves up by one.
pub proof fn lemma_successful_remove(
    paused: bool,
    auto_paused: bool,
    stored: Seq<Option<u32>>,
    campaign_id: u32,
)
    requires
        remove_plan(paused, auto_paused, stored, campaign_id) is Ok,
    ensures
        ({
            let after = remove_plan(paused, auto_paused, stored, campaign_id)->Ok_0;
            &&& !paused && !auto_paused
            &&& exists|k: int|
                #![trigger is_first_position(stored, Some(campaign_id), k)]
                {
                    &&& is_first_position(stored, Some(campaign_id), k)
                    &&& after.len() == stored.len() - 1
                    &&& forall|i: int| 0 <= i < k ==> after[i] == stored[i]
                    &&& forall|i: int| k <= i < after.len() ==> after[i] == stored[i + 1]
                }
        }),
{
    lemma_remove_takes_first_occurrence(stored, campaign_id);
}

} // verus!
