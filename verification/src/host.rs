//! The items of `soroban_sdk` that the library calls, with the contracts that
//! its verified code relies on.
use vstd::prelude::*;

verus! {

#[verifier::external_type_specification]
#[verifier::external_body]
pub struct ExEnv(soroban_sdk::Env);

#[verifier::external_type_specification]
#[verifier::external_body]
pub struct ExAddress(soroban_sdk::Address);

#[verifier::external_type_specification]
#[verifier::external_body]
pub struct ExSymbol(soroban_sdk::Symbol);

#[verifier::external_type_specification]
#[verifier::external_body]
#[verifier::reject_recursive_types(T)]
pub struct ExHostVec<T>(soroban_sdk::Vec<T>);

/// The items of a host vector, in order: `Some(x)` for an item that reads as
/// the `u32` `x`, `None` for an item of another kind.
pub uninterp spec fn entries_of(v: soroban_sdk::Vec<u32>) -> Seq<Option<u32>>;

/// `soroban_sdk::Vec::new`: a fresh vector holds no items.
#[verifier::external_body]
pub(crate) fn vec_new(env: &soroban_sdk::Env) -> (v: soroban_sdk::Vec<u32>)
    ensures
        entries_of(v) == Seq::<Option<u32>>::empty(),
{
    soroban_sdk::Vec::new(env)
}

/// `soroban_sdk::Vec::len`: the number of items.
#[verifier::external_body]
pub(crate) fn vec_len(v: &soroban_sdk::Vec<u32>) -> (n: u32)
    ensures
        n == entries_of(*v).len(),
{
    v.len()
}

/// `soroban_sdk::Vec::try_get`: the item at position `i` when it reads as a
/// `u32`; `None` past the end and for an item of another kind, which
/// `try_get` reports as an error.
#[verifier::external_body]
pub(crate) fn vec_try_get(v: &soroban_sdk::Vec<u32>, i: u32) -> (r: Option<u32>)
    ensures
        i < entries_of(*v).len() ==> r == entries_of(*v)[i as int],
        i >= entries_of(*v).len() ==> r is None,
{
    match v.try_get(i) {
        Ok(item) => item,
        Err(_) => None,
    }
}

/// `soroban_sdk::Vec::push_back`: appends an item at the end. The host
/// refuses to grow a vector past `u32::MAX` items, so that case is excluded.
#[verifier::external_body]
pub(crate) fn vec_push_back(v: &mut soroban_sdk::Vec<u32>, x: u32)
    requires
        entries_of(*old(v)).len() < u32::MAX,
    ensures
        entries_of(*final(v)) == entries_of(*old(v)).push(Some(x)),
{
    v.push_back(x)
}

/// `soroban_sdk::Vec::remove`: removes the item at position `i`, shifting
/// the later items down by one; past the end it returns `None` and changes
/// nothing.
#[verifier::external_body]
pub(crate) fn vec_remove(v: &mut soroban_sdk::Vec<u32>, i: u32) -> (r: Option<()>)
    ensures
        i < entries_of(*old(v)).len() ==> r is Some && entries_of(*final(v)) == entries_of(
            *old(v),
        ).remove(i as int),
        i >= entries_of(*old(v)).len() ==> r is None && entries_of(*final(v)) == entries_of(
            *old(v),
        ),
{
    v.remove(i)
}

/// A character that `Symbol::new` accepts: `a-z`, `A-Z`, `0-9` or `_`.
pub open spec fn is_symbol_char(c: char) -> bool {
    ||| ('a' <= c && c <= 'z')
    ||| ('A' <= c && c <= 'Z')
    ||| ('0' <= c && c <= '9')
    ||| c == '_'
}

/// A text that `Symbol::new` accepts: at most 32 symbol characters.
pub open spec fn is_symbol_text(s: Seq<char>) -> bool {
    &&& s.len() <= 32
    &&& forall|i: int| 0 <= i < s.len() ==> is_symbol_char(#[trigger] s[i])
}

/// The characters a symbol holds.
pub uninterp spec fn symbol_text(s: soroban_sdk::Symbol) -> Seq<char>;

/// `soroban_sdk::Symbol::new`, which panics on a text outside
/// `is_symbol_text`; the symbol it makes holds the given text.
#[verifier::external_body]
pub(crate) fn symbol_new(env: &soroban_sdk::Env, text: &str) -> (s: soroban_sdk::Symbol)
    requires
        is_symbol_text(text@),
    ensures
        symbol_text(s) == text@,
{
    soroban_sdk::Symbol::new(env, text)
}

/// `Persistent::has` on the campaign record key `(tag, campaign_id)`. The answer rests on
/// the ledger state, so nothing is stated of it.
#[verifier::external_body]
pub(crate) fn persistent_has_campaign(
    env: &soroban_sdk::Env,
    tag: &soroban_sdk::Symbol,
    campaign_id: u32,
) -> (found: bool)
    requires
        symbol_text(*tag) == "campaign"@,
{
    env.storage().persistent().has(&(tag.clone(), campaign_id))
}

/// `Persistent::get` of a `u32` vector on the saved-list key `(tag, user)`. What comes
/// back rests on the ledger state, so nothing is stated of it.
#[verifier::external_body]
pub(crate) fn persistent_get_ids(
    env: &soroban_sdk::Env,
    tag: &soroban_sdk::Symbol,
    user: &soroban_sdk::Address,
) -> (r: Option<soroban_sdk::Vec<u32>>)
    requires
        symbol_text(*tag) == "saved"@,
{
    env.storage().persistent().get(&(tag.clone(), user.clone()))
}

/// `Persistent::set` of a `u32` vector on the saved-list key `(tag, user)`.
#[verifier::external_body]
pub(crate) fn persistent_set_ids(
    env: &soroban_sdk::Env,
    tag: &soroban_sdk::Symbol,
    user: &soroban_sdk::Address,
    ids: &soroban_sdk::Vec<u32>,
)
    requires
        symbol_text(*tag) == "saved"@,
{
    env.storage().persistent().set(&(tag.clone(), user.clone()), ids)
}

/// `Instance::get` of a `bool` on a pause flag key `(tag,)`. What comes back rests
/// on the ledger state, so nothing is stated of it. It traps when a value
/// other than a `bool` sits under the key; only the pause operations write
/// these keys, and they write a `bool`.
#[verifier::external_body]
pub(crate) fn instance_get_flag(env: &soroban_sdk::Env, tag: &soroban_sdk::Symbol) -> (r: Option<
    bool,
>)
    requires
        symbol_text(*tag) == "Paused"@ || symbol_text(*tag) == "AutoPaused"@,
{
    env.storage().instance().get(&(tag.clone(),))
}

/// `Events::publish` of the topics `(topic, user)` with the data `campaign_id`.
#[verifier::external_body]
#[allow(deprecated)]
pub(crate) fn publish_campaign_event(
    env: &soroban_sdk::Env,
    topic: &str,
    user: &soroban_sdk::Address,
    campaign_id: u32,
) {
    env.events().publish((topic, user.clone()), campaign_id)
}

} // verus!
