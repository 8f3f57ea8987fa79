use vstd::prelude::*;

verus! {

/// The ways a bookmark operation can be refused.
#[derive(Debug, Clone, Copy, PartialEq, Eq, Structural)]
pub enum Error {
    /// The contract is paused, by the admin or automatically.
    ContractPaused,
    /// No campaign record exists for the requested id.
    CampaignNotFound,
    /// The campaign is already in the wallet's saved list.
    CampaignAlreadyBookmarked,
    /// The campaign is not in the wallet's saved list.
    CampaignNotBookmarked,
    /// An input is out of range, such as a deadline past the end of time.
    ValidationFailed,
    /// The saved list already holds `u32::MAX` ids, the most a host vector can hold.
    BookmarkListFull,
}

} // verus!
