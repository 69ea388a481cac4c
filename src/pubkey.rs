//! Account identifiers: 32 opaque bytes, compared byte for byte.

use vstd::prelude::*;

verus! {

/// Number of bytes in an account identifier.
pub const PUBKEY_BYTES: usize = 32;

/// An account identifier.
#[derive(Clone, Copy, Debug)]
pub struct Pubkey {
    pub bytes: [u8; 32],
}

impl View for Pubkey {
    type V = Seq<u8>;

    open spec fn view(&self) -> Seq<u8> {
        self.bytes@
    }
}

/// The identifiers of a sequence of keys.
pub open spec fn key_views(keys: Seq<Pubkey>) -> Seq<Seq<u8>> {
    keys.map_values(|k: Pubkey| k@)
}

impl Pubkey {
    /// The identifier made of the given bytes.
    pub fn new_from_array(bytes: [u8; 32]) -> (r: Pubkey)
        ensures
            r@ == bytes@,
    {
        Pubkey { bytes }
    }

    /// The raw bytes of the identifier.
    pub fn to_bytes(&self) -> (r: [u8; 32])
        ensures
            r@ == self@,
    {
        self.bytes
    }

    /// Byte-wise equality of two identifiers.
    pub fn same_key(&self, other: &Pubkey) -> (r: bool)
        ensures
            r == (self@ == other@),
    {
        let mut i: usize = 0;
        while i < PUBKEY_BYTES
            invariant
                i <= 32,
                self@.len() == 32,
                other@.len() == 32,
                forall|j: int| 0 <= j < i ==> self@[j] == other@[j],
            decreases 32 - i,
        {
            if self.bytes[i] != other.bytes[i] {
                return false;
            }
            i = i + 1;
        }
        assert(self@ =~= other@);
        true
    }
}

/// Whether `k` occurs in `keys`.
pub fn contains_key(keys: &Vec<Pubkey>, k: &Pubkey) -> (r: bool)
    ensures
        r == key_views(keys@).contains(k@),
{
    let mut i: usize = 0;
    while i < keys.len()
        invariant
            i <= keys@.len(),
            forall|j: int| 0 <= j < i ==> keys@[j]@ != k@,
        decreases keys@.len() - i,
    {
        if keys[i].same_key(k) {
            assert(key_views(keys@)[i as int] == k@);
            return true;
        }
        i = i + 1;
    }
    assert(!key_views(keys@).contains(k@)) by {
        if key_views(keys@).contains(k@) {
            let j = choose|j: int| 0 <= j < key_views(keys@).len() && key_views(keys@)[j] == k@;
            assert(keys@[j]@ == k@);
        }
    }
    false
}

/// Adds `k` to a duplicate-free sequence of keys unless it is already there.
pub fn insert_key(keys: &mut Vec<Pubkey>, k: Pubkey)
    requires
        key_views(old(keys)@).no_duplicates(),
    ensures
        key_views(final(keys)@).no_duplicates(),
        key_views(final(keys)@).to_set() == key_views(old(keys)@).to_set().insert(k@),
{
    if !contains_key(keys, &k) {
        keys.push(k);
        proof {
            assert(key_views(keys@) =~= key_views(old(keys)@).push(k@));
            key_views(old(keys)@).lemma_push_to_set_commute(k@);
        }
    } else {
        assert(key_views(keys@).to_set() =~= key_views(keys@).to_set().insert(k@));
    }
}

} // verus!
