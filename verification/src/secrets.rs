//! Where API keys are kept: each under its own key in the settings table.
use vstd::prelude::*;

verus! {

/// The prefix of the settings key that holds an API key.
pub const KEY_PREFIX: &'static str = "secret:api-key:";

/// The settings key of the API key `id`.
pub open spec fn secret_key(id: Seq<char>) -> Seq<char> {
    "secret:api-key:"@ + id
}

/// The settings key of the API key `id`.
pub fn storage_key(id: &str) -> (r: String)
    ensures
        r@ == secret_key(id@),
{
    let mut k = "secret:api-key:".to_string();
    k.append(id);
    k
}

/// Distinct API key ids are stored under distinct settings keys, so one provider's key never
/// overwrites another's.
pub proof fn law_storage_keys_distinct(a: Seq<char>, b: Seq<char>)
    requires
        a != b,
    ensures
        secret_key(a) != secret_key(b),
{
    let p = "secret:api-key:"@;
    if secret_key(a) == secret_key(b) {
        assert(a =~= secret_key(a).subrange(p.len() as int, secret_key(a).len() as int));
        assert(b =~= secret_key(b).subrange(p.len() as int, secret_key(b).len() as int));
    }
}

} // verus!
