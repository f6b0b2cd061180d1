//! The thought-signature slot: keeps the longest signature seen.
use vstd::prelude::*;

use crate::text::copy_str;

verus! {

/// The length in bytes of a text in UTF-8, as `str::len` reports it.
pub open spec fn byte_len(s: Seq<char>) -> nat {
    (vstd::utf8::encode_utf8(s).len() as usize) as nat
}

/// The slot after `sig` is offered: an empty signature is ignored, and a
/// signature replaces the held one only where it is strictly longer.
pub open spec fn stored(slot: Option<Seq<char>>, sig: Seq<char>) -> Option<Seq<char>> {
    if sig.len() == 0 {
        slot
    } else {
        match slot {
            None => Some(sig),
            Some(existing) => if byte_len(sig) > byte_len(existing) {
                Some(sig)
            } else {
                slot
            },
        }
    }
}

/// A slot that holds at most one thought signature, the longest offered since
/// it was last cleared. One slot lives for the whole process; its owner guards
/// it with a lock.
#[derive(Debug, Clone, PartialEq, Eq)]
pub struct SignatureStore {
    pub slot: Option<String>,
}

impl View for SignatureStore {
    type V = Option<Seq<char>>;

    open spec fn view(&self) -> Option<Seq<char>> {
        match self.slot {
            Some(s) => Some(s@),
            None => None,
        }
    }
}

impl SignatureStore {
    /// An empty slot.
    pub fn new() -> (r: SignatureStore)
        ensures
            r@ is None,
    {
        SignatureStore { slot: None }
    }

    /// Offers a signature: see [`stored`].
    pub fn store(&mut self, sig: &str)
        ensures
            final(self)@ == stored(old(self)@, sig@),
    {
        if sig.is_empty() {
            return;
        }
        let should_store = match &self.slot {
            None => true,
            Some(existing) => sig.len() > existing.as_str().len(),
        };
        if should_store {
            self.slot = Some(copy_str(sig));
        }
    }

    /// The held signature.
    pub fn get(&self) -> (r: Option<String>)
        ensures
            r matches Some(s) ==> self@ == Some(s@),
            r is None ==> self@ is None,
    {
        match &self.slot {
            Some(s) => Some(s.clone()),
            None => None,
        }
    }

    /// Empties the slot.
    pub fn clear(&mut self)
        ensures
            final(self)@ is None,
    {
        self.slot = None;
    }

    /// Whether a signature of at least `min_length` bytes is held.
    pub fn has_valid(&self, min_length: usize) -> (r: bool)
        ensures
            r == (self@ matches Some(s) && byte_len(s) >= min_length),
    {
        match &self.slot {
            Some(s) => s.as_str().len() >= min_length,
            None => false,
        }
    }
}

/// Offers a signature to the slot: it is kept where it is longer than the held one.
pub fn store_thought_signature(store: &mut SignatureStore, sig: &str)
    ensures
        final(store)@ == stored(old(store)@, sig@),
{
    store.store(sig);
}

/// The signature that the slot holds.
pub fn get_thought_signature(store: &SignatureStore) -> (r: Option<String>)
    ensures
        r matches Some(s) ==> store@ == Some(s@),
        r is None ==> store@ is None,
{
    store.get()
}

/// Empties the slot.
pub fn clear_thought_signature(store: &mut SignatureStore)
    ensures
        final(store)@ is None,
{
    store.clear();
}

/// Whether the slot holds a signature of at least `min_length` bytes.
pub fn has_valid_signature(store: &SignatureStore, min_length: usize) -> (r: bool)
    ensures
        r == (store@ matches Some(s) && byte_len(s) >= min_length),
{
    store.has_valid(min_length)
}

/// The slot's value never gets shorter when a signature is offered: only
/// clearing empties it.
pub proof fn lemma_store_is_monotone(slot: Option<Seq<char>>, sig: Seq<char>)
    ensures
        slot matches Some(s) ==> stored(slot, sig) matches Some(t) && byte_len(t) >= byte_len(s),
        slot is None ==> stored(slot, sig) == (if sig.len() == 0 { None } else { Some(sig) }),
{
}

} // verus!
