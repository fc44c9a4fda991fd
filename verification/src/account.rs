//! Accounts of the host chain, as the signer of a message names them.

use vstd::prelude::*;
use vstd::slice::slice_subrange;
use vstd::string::StringSliceAdditionalSpecFns;

verus! {

/// The error of `hex::decode`. Nothing is read from it.
#[verifier::external_type_specification]
#[verifier::external_body]
pub struct ExFromHexError(hex::FromHexError);

/// The number that a hex digit stands for, in either case; `None` for any
/// other byte.
pub open spec fn hex_digit(c: u8) -> Option<int> {
    if 0x30 <= c <= 0x39 {
        Some(c - 0x30)
    } else if 0x61 <= c <= 0x66 {
        Some(c - 0x61 + 10)
    } else if 0x41 <= c <= 0x46 {
        Some(c - 0x41 + 10)
    } else {
        None
    }
}

/// Whether `text` is hex digits only, and an even number of them.
pub open spec fn is_hex(text: Seq<u8>) -> bool {
    &&& text.len() % 2 == 0
    &&& forall|i: int| 0 <= i < text.len() ==> hex_digit(#[trigger] text[i]) is Some
}

/// The bytes that hex digits stand for: one for each pair of digits, the
/// first digit of a pair being the higher half of the byte.
pub open spec fn hex_decoded(text: Seq<u8>) -> Seq<u8> {
    Seq::new(
        text.len() / 2,
        |i: int| (16 * hex_digit(text[2 * i])->0 + hex_digit(text[2 * i + 1])->0) as u8,
    )
}

/// `hex::decode` on a slice of bytes. It succeeds exactly where the bytes are
/// an even number of hex digits, and then gives the bytes that they stand for.
#[verifier::external_body]
fn hex_decode(text: &[u8]) -> (r: Result<Vec<u8>, hex::FromHexError>)
    ensures
        r is Ok <==> is_hex(text@),
        r matches Ok(bytes) ==> bytes@ == hex_decoded(text@),
{
    hex::decode(text)
}

/// What a signer names: the 32 bytes of an account, written as `0x` and 64
/// hex digits; or else what is wrong with it, in words.
pub open spec fn signer_account(signer: Seq<u8>) -> Result<Seq<u8>, Seq<char>> {
    if !(signer.len() >= 2 && signer[0] == 0x30 && signer[1] == 0x78) {
        Err("invalid ibc address or substrate address"@)
    } else if !is_hex(signer.skip(2)) {
        Err("Error decoding invalid hex string"@)
    } else if signer.len() != 66 {
        Err("Invalid account id hex string"@)
    } else {
        Ok(hex_decoded(signer.skip(2)))
    }
}

/// An account of the host chain that takes part in a token transfer.
#[derive(Clone, Copy, Debug, PartialEq)]
pub struct IbcAccount([u8; 32]);

impl View for IbcAccount {
    type V = Seq<u8>;

    /// The 32 bytes of the account id.
    closed spec fn view(&self) -> Seq<u8> {
        self.0@
    }
}

impl IbcAccount {
    /// The account id.
    pub fn into_account(self) -> (r: [u8; 32])
        ensures
            r@ == self@,
    {
        self.0
    }

    /// Convert a signer to an IBC account.
    /// Only valid hex strings are accepted for now.
    pub fn try_from(signer: &str) -> (r: Result<Self, &'static str>)
        ensures
            match r {
                Ok(account) => signer_account(signer.spec_bytes()) == Ok::<Seq<u8>, Seq<char>>(
                    account@,
                ),
                Err(message) => signer_account(signer.spec_bytes()) == Err::<Seq<u8>, Seq<char>>(
                    message@,
                ),
            },
    {
        let acc_str = signer.as_bytes();
        if !(acc_str.len() >= 2 && acc_str[0] == 0x30 && acc_str[1] == 0x78) {
            return Err("invalid ibc address or substrate address");
        }
        let hex_string = slice_subrange(acc_str, 2, acc_str.len());
        assert(hex_string@ == signer.spec_bytes().skip(2));
        let bytes = match hex_decode(hex_string) {
            Ok(bytes) => bytes,
            Err(_) => return Err("Error decoding invalid hex string"),
        };
        if bytes.len() != 32 {
            return Err("Invalid account id hex string");
        }
        let mut account_id = [0u8; 32];
        let mut i: usize = 0;
        while i < 32
            invariant
                i <= 32,
                bytes@.len() == 32,
                forall|j: int| 0 <= j < i ==> account_id@[j] == bytes@[j],
            decreases 32 - i,
        {
            account_id[i] = bytes[i];
            i = i + 1;
        }
        assert(account_id@ == bytes@);
        Ok(IbcAccount(account_id))
    }
}

} // verus!
