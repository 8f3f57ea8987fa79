//! Where the bookmark data sits in the contract's persistent storage.
use vstd::prelude::*;

use crate::host::{
    entries_of, persistent_get_ids, persistent_has_campaign, persistent_set_ids, symbol_new,
    symbol_text, vec_new,
};

verus! {

/// The tag of the key `(tag, user)` under which a wallet's saved list is kept.
pub fn saved_campaigns_tag(env: &soroban_sdk::Env) -> (tag: soroban_sdk::Symbol)
    ensures
        symbol_text(tag) == "saved"@,
{
    proof {
        reveal_strlit("saved");
    }
    symbol_new(env, "saved")
}

/// The tag of the key `(tag, campaign_id)` under which the campaign
/// lifecycle keeps each campaign's record.
pub fn campaign_tag(env: &soroban_sdk::Env) -> (tag: soroban_sdk::Symbol)
    ensures
        symbol_text(tag) == "campaign"@,
{
    proof {
        reveal_strlit("campaign");
    }
    symbol_new(env, "campaign")
}

/// Whether a campaign record is stored for `campaign_id`.
pub fn campaign_exists(env: &soroban_sdk::Env, campaign_id: u32) -> bool {
    let tag = campaign_tag(env);
    persistent_has_campaign(env, &tag, campaign_id)
}

/// The saved list held in storage when there is one, and the empty list
/// when there is none.
pub fn saved_or_empty(env: &soroban_sdk::Env, stored: Option<soroban_sdk::Vec<u32>>) -> (saved:
    soroban_sdk::Vec<u32>)
    ensures
        stored matches Some(s) ==> saved == s,
        stored is None ==> entries_of(saved) == Seq::<Option<u32>>::empty(),
{
    match stored {
        Some(s) => s,
        None => vec_new(env),
    }
}

/// What storage holds under `(saved_campaigns_tag, user)`, if anything.
pub fn stored_saved_campaigns(env: &soroban_sdk::Env, user: &soroban_sdk::Address) -> Option<
    soroban_sdk::Vec<u32>,
> {
    let tag = saved_campaigns_tag(env);
    persistent_get_ids(env, &tag, user)
}

/// The saved list of `user`: `saved_or_empty` of `stored_saved_campaigns`,
/// so a wallet that never saved a campaign has the empty list.
pub fn get_saved_campaigns(env: &soroban_sdk::Env, user: &soroban_sdk::Address) -> (saved:
    soroban_sdk::Vec<u32>) {
    let stored = stored_saved_campaigns(env, user);
    saved_or_empty(env, stored)
}

/// Stores `saved` as the saved list of `user`.
pub fn set_saved_campaigns(
    env: &soroban_sdk::Env,
    user: &soroban_sdk::Address,
    saved: &soroban_sdk::Vec<u32>,
) {
    let tag = saved_campaigns_tag(env);
    persistent_set_ids(env, &tag, user, saved);
}

} // verus!
