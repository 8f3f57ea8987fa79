//! The pause rule: while the contract is paused, by the admin or
//! automatically, every state-changing operation is refused.
use vstd::prelude::*;

use crate::error::Error;
use crate::host::{instance_get_flag, symbol_new, symbol_text};

verus! {

/// The tag of the key `(tag,)` of the admin's pause flag.
pub fn paused_tag(env: &soroban_sdk::Env) -> (tag: soroban_sdk::Symbol)
    ensures
        symbol_text(tag) == "Paused"@,
{
    proof {
        reveal_strlit("Paused");
    }
    symbol_new(env, "Paused")
}

/// The tag of the key `(tag,)` of the automatic pause flag.
pub fn auto_paused_tag(env: &soroban_sdk::Env) -> (tag: soroban_sdk::Symbol)
    ensures
        symbol_text(tag) == "AutoPaused"@,
{
    proof {
        reveal_strlit("AutoPaused");
    }
    symbol_new(env, "AutoPaused")
}

/// A stored pause flag is set when it holds `true`; an absent flag is unset.
pub fn flag_is_set(stored: Option<bool>) -> (set: bool)
    ensures
        set == (stored == Some(true)),
{
    match stored {
        Some(b) => b,
        None => false,
    }
}

/// The answer to the pause rule: `ContractPaused` while either flag is set,
/// success otherwise.
pub fn pause_check(paused: bool, auto_paused: bool) -> (r: Result<(), Error>)
    ensures
        r == (if paused || auto_paused {
            Err::<(), Error>(Error::ContractPaused)
        } else {
            Ok::<(), Error>(())
        }),
{
    if paused || auto_paused {
        Err(Error::ContractPaused)
    } else {
        Ok(())
    }
}

/// The admin's pause flag and the automatic pause flag, as `flag_is_set`
/// reads them from instance storage.
pub fn pause_flags(env: &soroban_sdk::Env) -> (flags: (bool, bool)) {
    let paused_key = paused_tag(env);
    let paused = flag_is_set(instance_get_flag(env, &paused_key));
    let auto_key = auto_paused_tag(env);
    let auto_paused = flag_is_set(instance_get_flag(env, &auto_key));
    (paused, auto_paused)
}

} // verus!
