//! Random bytes and identifiers.

use vstd::prelude::*;

verus! {

/// `ring::rand::SecureRandom::fill` on the system's random source, over bytes that are zero: the
/// given number of bytes. Of their values nothing is said: they rest on chance, and where the source
/// fails that goes unnoticed.
#[verifier::external_body]
pub(crate) fn random_bytes(count: usize) -> (r: Vec<u8>)
    requires
        count <= 64,
    ensures
        r@.len() == count,
{
    let mut bytes = vec![0u8; count];
    let _ = ring::rand::SecureRandom::fill(&ring::rand::SystemRandom::new(), &mut bytes);
    bytes
}

/// The shape of an identifier: groups of 8, 4, 4, 4 and 12 lower-case hexadecimal digits with
/// hyphens between them.
pub open spec fn uuid_shaped(s: Seq<char>) -> bool {
    &&& s.len() == 36
    &&& forall|i: int|
        0 <= i < 36 ==> if i == 8 || i == 13 || i == 18 || i == 23 {
            #[trigger] s[i] == '-'
        } else {
            crate::encoding::is_hex(s[i])
        }
}

/// `uuid::Uuid::new_v4` printed: a random identifier in its usual shape. It panics where the system
/// has no random source.
#[verifier::external_body]
pub(crate) fn random_uuid() -> (r: String)
    ensures
        uuid_shaped(r@),
{
    uuid::Uuid::new_v4().to_string()
}

} // verus!
