use vstd::prelude::*;

use crate::error::Error;
use crate::storage::campaign_exists;

verus! {

/// Seconds in one day of ledger time.
pub const SECONDS_PER_DAY: u64 = 86_400;

/// The deadline of a campaign that opens at `current_time` and runs for
/// `duration_days` days of ledger time, when it fits in a `u64`.
pub open spec fn deadline_after(current_time: u64, duration_days: u64) -> int {
    current_time + duration_days * SECONDS_PER_DAY
}

/// Computes `current_time + duration_days * SECONDS_PER_DAY`: exactly that
/// many seconds of ledger time, with no calendar adjustment. Refuses with
/// `ValidationFailed` when the deadline does not fit in a `u64`.
pub fn calculate_deadline(current_time: u64, duration_days: u64) -> (r: Result<u64, Error>)
    ensures
        deadline_after(current_time, duration_days) <= u64::MAX ==> r == Ok::<u64, Error>(
            deadline_after(current_time, duration_days) as u64,
        ),
        deadline_after(current_time, duration_days) > u64::MAX ==> r == Err::<u64, Error>(
            Error::ValidationFailed,
        ),
{
    match duration_days.checked_mul(SECONDS_PER_DAY) {
        Some(span) => match current_time.checked_add(span) {
            Some(deadline) => Ok(deadline),
            None => Err(Error::ValidationFailed),
        },
        None => {
            assert(deadline_after(current_time, duration_days) > u64::MAX) by (nonlinear_arith)
                requires
                    duration_days * SECONDS_PER_DAY > u64::MAX,
            ;
            Err(Error::ValidationFailed)
        },
    }
}

/// The answer to a campaign lookup: success when the record was found,
/// `CampaignNotFound` when it was not.
pub fn campaign_check(found: bool) -> (r: Result<(), Error>)
    ensures
        r == (if found {
            Ok::<(), Error>(())
        } else {
            Err::<(), Error>(Error::CampaignNotFound)
        }),
{
    if found {
        Ok(())
    } else {
        Err(Error::CampaignNotFound)
    }
}

/// `campaign_check` of whether a campaign record is stored for
/// `campaign_id`.
pub fn get_campaign_or_error(env: &soroban_sdk::Env, campaign_id: u32) -> (r: Result<(), Error>)
    ensures
        r is Ok || r == Err::<(), Error>(Error::CampaignNotFound),
{
    let found = campaign_exists(env, campaign_id);
    campaign_check(found)
}

} // verus!
