//! Identities: a public key and, where the user can sign, the secret key
//! that goes with it.

use vstd::prelude::*;
use vstd::std_specs::cmp::PartialEqSpecImpl;

verus! {

/// Whether two 32-byte arrays hold the same bytes.
pub fn bytes_eq(a: &[u8; 32], b: &[u8; 32]) -> (same: bool)
    ensures
        same == (a@ == b@),
{
    let mut i: usize = 0;
    while i < 32
        invariant
            i <= 32,
            forall|j: int| 0 <= j < i ==> a@[j] == b@[j],
        decreases 32 - i,
    {
        if a[i] != b[i] {
            return false;
        }
        i += 1;
    }
    assert(a@ =~= b@);
    true
}

/// A 32-byte public key. Its view is the sequence of its bytes.
#[derive(Clone, Copy, Debug, Eq, Hash)]
pub struct Pubkey {
    bytes: [u8; 32],
}

impl View for Pubkey {
    type V = Seq<u8>;

    closed spec fn view(&self) -> Seq<u8> {
        self.bytes@
    }
}

impl Pubkey {
    pub fn new(bytes: [u8; 32]) -> (pk: Self)
        ensures
            pk@ == bytes@,
    {
        Pubkey { bytes }
    }

    pub fn bytes(&self) -> (bytes: &[u8; 32])
        ensures
            bytes@ == self@,
    {
        &self.bytes
    }

    /// Two public keys with the same bytes are the same key.
    pub proof fn lemma_view_injective(self, other: Pubkey)
        requires
            self@ == other@,
        ensures
            self == other,
    {
        assert(self.bytes =~= other.bytes);
    }

    /// Every public key has 32 bytes.
    pub proof fn lemma_view_len(self)
        ensures
            self@.len() == 32,
    {
    }
}

impl PartialEq for Pubkey {
    fn eq(&self, other: &Self) -> (same: bool) {
        bytes_eq(&self.bytes, &other.bytes)
    }
}

impl PartialEqSpecImpl for Pubkey {
    open spec fn obeys_eq_spec() -> bool {
        true
    }

    open spec fn eq_spec(&self, other: &Self) -> bool {
        self@ == other@
    }
}

/// A 32-byte secret key. Its view is the sequence of its bytes.
#[derive(Clone, Copy, Debug, Eq)]
pub struct SecretKey {
    bytes: [u8; 32],
}

impl View for SecretKey {
    type V = Seq<u8>;

    closed spec fn view(&self) -> Seq<u8> {
        self.bytes@
    }
}

impl SecretKey {
    pub fn new(bytes: [u8; 32]) -> (sk: Self)
        ensures
            sk@ == bytes@,
    {
        SecretKey { bytes }
    }

    pub fn bytes(&self) -> (bytes: &[u8; 32])
        ensures
            bytes@ == self@,
    {
        &self.bytes
    }
}

impl PartialEq for SecretKey {
    fn eq(&self, other: &Self) -> (same: bool) {
        bytes_eq(&self.bytes, &other.bytes)
    }
}

impl PartialEqSpecImpl for SecretKey {
    open spec fn obeys_eq_spec() -> bool {
        true
    }

    open spec fn eq_spec(&self, other: &Self) -> bool {
        self@ == other@
    }
}

/// One identity: a public key and, for an identity that can sign, its
/// secret key.
#[derive(Clone, Copy, Debug, Eq)]
pub struct Keypair {
    pub pubkey: Pubkey,
    pub secret_key: Option<SecretKey>,
}

impl Keypair {
    pub fn new(pubkey: Pubkey, secret_key: Option<SecretKey>) -> (kp: Self)
        ensures
            kp.pubkey == pubkey,
            kp.secret_key == secret_key,
    {
        Keypair { pubkey, secret_key }
    }

    /// An identity that can only read.
    pub fn only_pubkey(pubkey: Pubkey) -> (kp: Self)
        ensures
            kp.pubkey == pubkey,
            kp.secret_key.is_none(),
    {
        Keypair { pubkey, secret_key: None }
    }
}

impl PartialEq for Keypair {
    fn eq(&self, other: &Self) -> (same: bool) {
        self.pubkey == other.pubkey && self.secret_key == other.secret_key
    }
}

impl PartialEqSpecImpl for Keypair {
    open spec fn obeys_eq_spec() -> bool {
        true
    }

    open spec fn eq_spec(&self, other: &Self) -> bool {
        &&& self.pubkey@ == other.pubkey@
        &&& self.secret_key.is_some() == other.secret_key.is_some()
        &&& self.secret_key.is_some() ==> self.secret_key.unwrap()@ == other.secret_key.unwrap()@
    }
}

/// An account of the user is an identity.
pub type UserAccount = Keypair;

} // verus!
