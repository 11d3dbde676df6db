//! Public keys and address masks, as the WireGuard library reads them.

use defguard_wireguard_rs::key::Key;
use defguard_wireguard_rs::net::IpAddrMask;
use vstd::prelude::*;

verus! {

/// A WireGuard public key: 32 bytes.
#[derive(Debug, Clone, Copy)]
pub struct PublicKey {
    pub bytes: [u8; 32],
}

impl DeepView for PublicKey {
    type V = Seq<u8>;

    open spec fn deep_view(&self) -> Seq<u8> {
        self.bytes@
    }
}

impl PublicKey {
    /// Whether two keys hold the same bytes.
    pub fn same(&self, other: &PublicKey) -> (r: bool)
        ensures
            r == (self.deep_view() == other.deep_view()),
    {
        let mut i: usize = 0;
        while i < 32
            invariant
                i <= 32,
                forall|j: int| 0 <= j < i ==> self.bytes@[j] == other.bytes@[j],
            decreases 32 - i,
        {
            if self.bytes[i] != other.bytes[i] {
                return false;
            }
            i += 1;
        }
        proof {
            assert(self.bytes@ =~= other.bytes@);
        }
        true
    }
}

/// An IP address with the length of its network prefix. The address is held in
/// its canonical notation.
#[derive(Debug)]
pub struct AddressMask {
    pub address: String,
    pub is_ipv4: bool,
    pub cidr: u8,
}

/// The model of an `AddressMask`.
pub struct MaskModel {
    pub address: Seq<char>,
    pub is_ipv4: bool,
    pub cidr: u8,
}

impl DeepView for AddressMask {
    type V = MaskModel;

    open spec fn deep_view(&self) -> MaskModel {
        MaskModel { address: self.address@, is_ipv4: self.is_ipv4, cidr: self.cidr }
    }
}

impl Clone for AddressMask {
    fn clone(&self) -> (r: Self)
        ensures
            r.deep_view() == self.deep_view(),
    {
        AddressMask { address: self.address.clone(), is_ipv4: self.is_ipv4, cidr: self.cidr }
    }
}

/// The model of what was read from a text: that of the value, or why there is none.
pub open spec fn reading<T: DeepView>(r: Result<T, String>) -> Result<T::V, Seq<char>> {
    match r {
        Ok(value) => Ok(value.deep_view()),
        Err(why) => Err(why@),
    }
}

/// The 32 bytes that a base16 or base64 text stands for, or why it is no key.
pub uninterp spec fn decoded_key(text: Seq<char>) -> Result<Seq<u8>, Seq<char>>;

/// `Key::try_from(&str)` of `defguard_wireguard_rs`: reads a key in base16 if
/// the text has 64 bytes, else in base64. Which bytes come out, or which message
/// the error has, depends on the text alone and is named by `decoded_key`; the two
/// encodings are not spelled out.
#[verifier::external_body]
pub(crate) fn decode_key(text: &str) -> (r: Result<PublicKey, String>)
    ensures
        reading(r) == decoded_key(text@),
{
    match Key::try_from(text) {
        Ok(key) => Ok(PublicKey { bytes: key.as_array() }),
        Err(error) => Err(error.to_string()),
    }
}

/// The address and prefix length that a text stands for, or why it stands for none.
pub uninterp spec fn parsed_mask(text: Seq<char>) -> Result<MaskModel, Seq<char>>;

/// `IpAddrMask::from_str` of `defguard_wireguard_rs`: reads an address and,
/// behind a slash, a prefix length no longer than the address; without a slash
/// the prefix is the whole address. Its error always has the same message. What
/// comes out depends on the text alone and is named by `parsed_mask`; the notation
/// of addresses is not spelled out.
#[verifier::external_body]
pub(crate) fn parse_mask(text: &str) -> (r: Result<AddressMask, String>)
    ensures
        reading(r) == parsed_mask(text@),
        r matches Err(why) ==> why@ == "IP address/mask parse error"@,
        r matches Ok(m) ==> m.cidr <= (if m.is_ipv4 { 32u8 } else { 128u8 }),
        !text@.contains('/') ==> (r matches Ok(m) ==> m.cidr == (if m.is_ipv4 {
            32u8
        } else {
            128u8
        })),
{
    match text.parse::<IpAddrMask>() {
        Ok(mask) => Ok(
            AddressMask {
                address: mask.address.to_string(),
                is_ipv4: mask.address.is_ipv4(),
                cidr: mask.cidr,
            },
        ),
        Err(error) => Err(error.to_string()),
    }
}

} // verus!
