//! Trusted signing keys for capability installation.
use vstd::prelude::*;
use crate::text::{chars_of, first_index, slice_of, string_of};

verus! {

/// A trusted public key with its id.
#[derive(Debug, Clone)]
pub struct TrustedKey {
    pub key_id: String,
    pub public_key: String,
}

/// Why a trusted key argument was refused.
#[derive(Debug, Clone, Copy, PartialEq, Eq, Structural)]
pub enum TrustedKeyError {
    /// The argument has no `:` between key id and public key.
    MissingSeparator,
}

impl TrustedKeyError {
    /// The message shown to the user.
    pub fn message(&self) -> (r: &'static str)
        ensures
            r@ == "trusted key must be key_id:hex_public_key"@,
    {
        "trusted key must be key_id:hex_public_key"
    }
}

/// The split of `key_id:hex_public_key` at its first `:`.
pub open spec fn split_key(v: Seq<char>) -> Option<(Seq<char>, Seq<char>)> {
    match first_index(v, ':') {
        Some(k) => Some((v.take(k as int), v.skip(k as int + 1))),
        None => None,
    }
}

/// Parses `key_id:hex_public_key` arguments, splitting each at its first
/// `:`; refuses the whole list when one of them has no `:`.
pub fn parse_trusted_keys(values: Vec<String>) -> (r: Result<Vec<TrustedKey>, TrustedKeyError>)
    ensures
        r is Err <==> exists|i: int| 0 <= i < values@.len() && split_key(values@[i]@) is None,
        r matches Ok(keys) ==> keys@.len() == values@.len() && forall|i: int|
            0 <= i < values@.len() ==> split_key(#[trigger] values@[i]@) == Some((keys@[i].key_id@, keys@[i].public_key@)),
{
    let mut keys: Vec<TrustedKey> = Vec::new();
    let mut i: usize = 0;
    while i < values.len()
        invariant
            i <= values.len(),
            keys@.len() == i,
            forall|q: int| 0 <= q < i ==> split_key(#[trigger] values@[q]@) == Some((keys@[q].key_id@, keys@[q].public_key@)),
        decreases values.len() - i,
    {
        let v = chars_of(values[i].as_str());
        let mut c: usize = 0;
        while c < v.len() && v[c] != ':'
            invariant
                c <= v.len(),
                forall|j: int| 0 <= j < c ==> v@[j] != ':',
            decreases v.len() - c,
        {
            c += 1;
        }
        proof {
            crate::text::lemma_first_index_at(v@, ':', c as int);
        }
        if c == v.len() {
            assert(split_key(values@[i as int]@) is None);
            return Err(TrustedKeyError::MissingSeparator);
        }
        let key_id = string_of(&slice_of(&v, 0, c));
        let public_key = string_of(&slice_of(&v, c + 1, v.len()));
        keys.push(TrustedKey { key_id, public_key });
        proof {
            assert(v@.subrange(0, c as int) =~= v@.take(c as int));
            assert(v@.subrange(c + 1, v@.len() as int) =~= v@.skip(c + 1));
        }
        i += 1;
    }
    Ok(keys)
}

} // verus!
