//! Account encodings and signature verification, as `sp_core` and `sp_runtime`
//! compute them.
use crate::primitives::{AccountId, Signature};
use sp_core::crypto::{default_ss58_version, AccountId32, Ss58AddressFormat, Ss58Codec};
use sp_core::Encode;
use sp_runtime::traits::Verify;
use sp_runtime::MultiAddress;
use vstd::prelude::*;

verus! {

/// The SS58 address of the account with the key `account` in the address format
/// with the number `format`, as bytes. It is what
/// `sp_core::crypto::Ss58Codec::to_ss58check_with_version` computes.
pub uninterp spec fn ss58_address(account: Seq<u8>, format: u16) -> Seq<u8>;

/// Whether `signature` is an sr25519 signature of `message` under the public key
/// `public`. It is what `sp_runtime::traits::Verify::verify` answers for
/// `sp_core::sr25519::Signature`.
pub uninterp spec fn sr25519_verifies(
    signature: Seq<u8>,
    message: Seq<u8>,
    public: Seq<u8>,
) -> bool;

/// `sp_core::crypto::default_ss58_version`: the number of the address format that
/// this process prints accounts in. Any program may set it, so nothing is said of
/// the number.
#[verifier::external_body]
pub(crate) fn default_address_format() -> (format: u16) {
    default_ss58_version().into()
}

/// `sp_core::crypto::Ss58Codec::to_ss58check_with_version` on an account, which is
/// also what printing the account calls, with the format of the process. The
/// address depends on the key and the format alone.
#[verifier::external_body]
pub(crate) fn account_to_address(account: &AccountId, format: u16) -> (address: Vec<u8>)
    ensures
        address@ == ss58_address(account@, format),
{
    let account = AccountId32::new(*account);
    account.to_ss58check_with_version(Ss58AddressFormat::from(format)).into_bytes()
}

/// `sp_core::Encode::encode` on `sp_runtime::MultiAddress::Id`: the number of the
/// variant, which is zero, and the bytes of the account.
#[verifier::external_body]
pub(crate) fn encode_address_of(account: &AccountId) -> (encoded: Vec<u8>)
    ensures
        encoded@ == seq![0u8] + account@,
{
    MultiAddress::<AccountId32, ()>::Id(AccountId32::new(*account)).encode()
}

/// `sp_runtime::traits::Verify::verify` on an `sp_core::sr25519::Signature`: the
/// answer depends on the signature, the message and the public key alone.
#[verifier::external_body]
pub(crate) fn verify_sr25519(
    signature: &Signature,
    message: &[u8],
    public: &[u8; 32],
) -> (verified: bool)
    ensures
        verified == sr25519_verifies(signature@, message@, public@),
{
    let signature = sp_core::sr25519::Signature(signature.bytes);
    signature.verify(message, &sp_core::sr25519::Public(*public))
}

} // verus!
