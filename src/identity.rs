use std::str::FromStr;
use vstd::prelude::*;

verus! {

/// The canonical base58 text of a 32-byte identity.
pub uninterp spec fn base58_of(bytes: Seq<u8>) -> Seq<char>;

/// The 32 bytes that a canonical identity text stands for, if it is one.
pub uninterp spec fn identity_parsed_from(text: Seq<char>) -> Option<Seq<u8>>;

/// The address of the metadata record that belongs to a mint, if one exists.
pub uninterp spec fn metadata_address_of(mint: Seq<u8>) -> Option<Seq<u8>>;

/// A fixed-width on-chain identity: a mint, a collection, an account address.
#[derive(Clone, Copy, Debug, PartialEq, Eq)]
pub struct Identity {
    pub bytes: [u8; 32],
}

/// Why a text is not an identity.
#[derive(Clone, Copy, Debug, PartialEq, Eq)]
pub enum IdentityError {
    Invalid,
}

/// Relies on `Display` for `solana_pubkey::Pubkey`: the base58 text of the
/// key's bytes, which depends on those bytes alone.
#[verifier::external_body]
fn pubkey_text(bytes: [u8; 32]) -> (r: String)
    ensures
        r@ == base58_of(bytes@),
{
    solana_pubkey::Pubkey::new_from_array(bytes).to_string()
}

/// Relies on `FromStr` for `solana_pubkey::Pubkey`: decodes base58 text into
/// 32 bytes, or fails; the outcome depends on the text alone.
#[verifier::external_body]
fn pubkey_from_text(text: &str) -> (r: Option<[u8; 32]>)
    ensures
        r is Some <==> identity_parsed_from(text@) is Some,
        r is Some ==> identity_parsed_from(text@) == Some(r->Some_0@),
{
    match solana_pubkey::Pubkey::from_str(text) {
        Ok(key) => Some(key.to_bytes()),
        Err(_) => None,
    }
}

/// Relies on `solana_pubkey::Pubkey::try_find_program_address` with the seeds
/// of `mpl_token_metadata::accounts::Metadata` ("metadata", the program id,
/// the mint) under the token metadata program: the derived address depends on
/// the mint alone, and is absent when no bump seed gives one.
#[verifier::external_body]
fn metadata_pda(mint: [u8; 32]) -> (r: Option<[u8; 32]>)
    ensures
        r is Some <==> metadata_address_of(mint@) is Some,
        r is Some ==> metadata_address_of(mint@) == Some(r->Some_0@),
{
    let program = mpl_token_metadata::ID;
    let seeds: [&[u8]; 3] = [mpl_token_metadata::accounts::Metadata::PREFIX, program.as_ref(), &mint];
    solana_pubkey::Pubkey::try_find_program_address(&seeds, &program).map(|found| found.0.to_bytes())
}

impl Identity {
    pub fn new(bytes: [u8; 32]) -> (r: Identity)
        ensures
            r.bytes == bytes,
    {
        Identity { bytes }
    }

    /// The canonical text of this identity.
    pub fn to_base58(&self) -> (r: String)
        ensures
            r@ == base58_of(self.bytes@),
    {
        pubkey_text(self.bytes)
    }

    /// Reads an identity from its canonical text.
    pub fn parse(text: &str) -> (r: Result<Identity, IdentityError>)
        ensures
            r is Ok <==> identity_parsed_from(text@) is Some,
            r is Ok ==> identity_parsed_from(text@) == Some(r->Ok_0.bytes@),
            r is Err ==> r->Err_0 == IdentityError::Invalid,
    {
        match pubkey_from_text(text) {
            Some(bytes) => Ok(Identity { bytes }),
            None => Err(IdentityError::Invalid),
        }
    }

    /// The address of the metadata record of this mint.
    pub fn metadata_address(&self) -> (r: Option<Identity>)
        ensures
            r is Some <==> metadata_address_of(self.bytes@) is Some,
            r is Some ==> metadata_address_of(self.bytes@) == Some(r->Some_0.bytes@),
    {
        match metadata_pda(self.bytes) {
            Some(bytes) => Some(Identity { bytes }),
            None => None,
        }
    }
}

} // verus!
