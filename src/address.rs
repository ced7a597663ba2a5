use vstd::prelude::*;

use crate::error::AttestError;

verus! {

/// Width of a native contract address, in bytes.
pub const NATIVE_ADDRESS_LEN: usize = 20;

/// The universal form of a native address: twelve zero bytes, then the
/// address itself in its own byte order.
pub open spec fn universal_of(addr: Seq<u8>) -> Seq<u8> {
    Seq::new(12, |_i: int| 0u8) + addr
}

/// Left-pads a 20-byte native address with zeros to the 32-byte universal form.
pub fn to_universal_address(addr: &[u8; 20]) -> (r: [u8; 32])
    ensures
        r@ == universal_of(addr@),
{
    let mut padded: [u8; 32] = [0u8; 32];
    let mut i: usize = 0;
    while i < NATIVE_ADDRESS_LEN
        invariant
            0 <= i <= 20,
            padded@.len() == 32,
            addr@.len() == 20,
            forall|j: int| 0 <= j < 12 ==> padded@[j] == 0u8,
            forall|j: int| 12 <= j < 12 + i ==> padded@[j] == addr@[j - 12],
        decreases 20 - i,
    {
        padded[12 + i] = addr[i];
        i += 1;
    }
    assert(padded@ =~= universal_of(addr@));
    padded
}

/// The universal form of a native address has twelve zero bytes in front,
/// ends with the address itself, and is 32 bytes long.
pub proof fn lemma_universal_layout(addr: Seq<u8>)
    requires
        addr.len() == 20,
    ensures
        universal_of(addr).len() == 32,
        forall|i: int| 0 <= i < 12 ==> universal_of(addr)[i] == 0u8,
        universal_of(addr).subrange(12, 32) == addr,
{
    assert(universal_of(addr).subrange(12, 32) =~= addr);
}

/// Distinct native addresses have distinct universal forms.
pub proof fn lemma_universal_injective(a1: Seq<u8>, a2: Seq<u8>)
    requires
        a1.len() == 20,
        a2.len() == 20,
        universal_of(a1) == universal_of(a2),
    ensures
        a1 == a2,
{
    lemma_universal_layout(a1);
    lemma_universal_layout(a2);
}

/// Reads a native address from raw input bytes, which must be exactly 20 long.
pub fn parse_address(bytes: &[u8]) -> (r: Result<[u8; 20], AttestError>)
    ensures
        bytes@.len() == 20 <==> r is Ok,
        r matches Ok(a) ==> a@ == bytes@,
        r matches Err(e) ==> e == AttestError::InputDecoding,
{
    if bytes.len() != NATIVE_ADDRESS_LEN {
        return Err(AttestError::InputDecoding);
    }
    let mut addr: [u8; 20] = [0u8; 20];
    let mut i: usize = 0;
    while i < NATIVE_ADDRESS_LEN
        invariant
            0 <= i <= 20,
            addr@.len() == 20,
            bytes@.len() == 20,
            forall|j: int| 0 <= j < i ==> addr@[j] == bytes@[j],
        decreases 20 - i,
    {
        addr[i] = bytes[i];
        i += 1;
    }
    assert(addr@ =~= bytes@);
    Ok(addr)
}

} // verus!
