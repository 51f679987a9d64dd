//! Generation of the keys that sign tokens: each key is the lower-case
//! hexadecimal form of 32 random bytes.

use vstd::prelude::*;

use crate::config::Secrets;
use crate::text::{hex_digits, hex_encode, hex_lower};

verus! {

/// The number of random bytes behind each key.
pub const KEY_BYTES: usize = 32;

/// `key` is the hexadecimal form of `KEY_BYTES` bytes.
pub open spec fn is_key(key: Seq<char>) -> bool {
    exists|bytes: Seq<u8>| bytes.len() == KEY_BYTES && key == hex_lower(bytes)
}

/// `KEY_BYTES` bytes from the thread-local random generator.
///
/// Trusted: `rand::random::<[u8; 32]>()`; only the length of the result is
/// stated, its contents are random.
#[verifier::external_body]
fn random_key_bytes() -> (bytes: Vec<u8>)
    ensures
        bytes@.len() == KEY_BYTES,
{
    rand::random::<[u8; 32]>().to_vec()
}

impl Secrets {
    /// The secrets whose keys are the hexadecimal forms of the given bytes.
    pub fn from_key_bytes(refresh: &[u8], access: &[u8], authorization_code: &[u8]) -> (s: Secrets)
        ensures
            s.refresh_key@ == hex_lower(refresh@),
            s.access_key@ == hex_lower(access@),
            s.authorization_code_key@ == hex_lower(authorization_code@),
    {
        Secrets {
            refresh_key: hex_encode(refresh),
            access_key: hex_encode(access),
            authorization_code_key: hex_encode(authorization_code),
        }
    }

    /// Fresh secrets: each key made of `KEY_BYTES` random bytes of its own.
    pub fn generate() -> (s: Secrets)
        ensures
            is_key(s.refresh_key@),
            is_key(s.access_key@),
            is_key(s.authorization_code_key@),
    {
        let refresh = random_key_bytes();
        let access = random_key_bytes();
        let authorization_code = random_key_bytes();
        Secrets::from_key_bytes(refresh.as_slice(), access.as_slice(), authorization_code.as_slice())
    }
}

/// Every key is 64 characters long, each a lower-case hexadecimal digit.
pub proof fn lemma_key_shape(key: Seq<char>)
    requires
        is_key(key),
    ensures
        key.len() == 2 * KEY_BYTES,
        forall|i: int| 0 <= i < key.len() ==> hex_digits().contains(#[trigger] key[i]),
{
    let bytes = choose|bytes: Seq<u8>| bytes.len() == KEY_BYTES && key == hex_lower(bytes);
    assert forall|i: int| 0 <= i < key.len() implies hex_digits().contains(#[trigger] key[i]) by {
        let b = bytes[i / 2] as int;
        let d = if i % 2 == 0 {
            b / 16
        } else {
            b % 16
        };
        assert(0 <= d < 16);
        assert(hex_digits()[d] == key[i]);
    }
}

} // verus!
