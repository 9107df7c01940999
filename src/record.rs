use crate::identity::Identity;
use crate::text::{before_nul, truncate_at_nul};
use vstd::prelude::*;

verus! {

/// First byte of a metadata record: the `MetadataV1` account key.
pub const METADATA_KEY: u8 = 4;

/// The mint, raw name and descriptor URI that a metadata record's bytes
/// decode to, if they decode.
pub uninterp spec fn metadata_fields_of(data: Seq<u8>) -> Option<(Seq<u8>, Seq<char>, Seq<char>)>;

/// Whether `data` starts with the metadata account key.
pub open spec fn has_metadata_header(data: Seq<u8>) -> bool {
    data.len() > 0 && data[0] == METADATA_KEY
}

/// One decoded metadata record of a collection member.
pub struct OnChainRecord {
    /// The mint: the item's own identity.
    pub owner: Identity,
    /// The name, cut at its first NUL character.
    pub name: String,
    /// Where the off-chain descriptor lives; any text at all.
    pub descriptor_uri: String,
}

/// Why a record's bytes do not decode.
#[derive(Clone, Copy, Debug, PartialEq, Eq)]
pub enum DecodeError {
    /// Empty, or the first byte is not the metadata account key.
    WrongKind,
    /// The header is right but the fields do not decode.
    Malformed,
}

/// Relies on `mpl_token_metadata::accounts::Metadata::safe_deserialize`: it
/// refuses data whose first byte is not the `MetadataV1` key, else decodes
/// the Borsh layout from the bytes alone, failing on truncated or malformed
/// data. Hands back the mint, the raw name and the URI.
#[verifier::external_body]
fn deserialize_metadata(data: &[u8]) -> (r: Option<([u8; 32], String, String)>)
    ensures
        r is Some <==> metadata_fields_of(data@) is Some,
        r is Some ==> metadata_fields_of(data@) == Some(
            (r->Some_0.0@, r->Some_0.1@, r->Some_0.2@),
        ),
        r is Some ==> has_metadata_header(data@),
{
    match mpl_token_metadata::accounts::Metadata::safe_deserialize(data) {
        Ok(m) => Some((m.mint.to_bytes(), m.name, m.uri)),
        Err(_) => None,
    }
}

/// Decodes a metadata record: checks the header, decodes the fields, and
/// cuts the name at its first NUL.
pub fn decode(data: &[u8]) -> (r: Result<OnChainRecord, DecodeError>)
    ensures
        !has_metadata_header(data@) ==> r == Err::<OnChainRecord, DecodeError>(
            DecodeError::WrongKind,
        ),
        has_metadata_header(data@) && metadata_fields_of(data@) is None ==> r == Err::<
            OnChainRecord,
            DecodeError,
        >(DecodeError::Malformed),
        r is Ok <==> has_metadata_header(data@) && metadata_fields_of(data@) is Some,
        r is Ok ==> {
            let f = metadata_fields_of(data@)->Some_0;
            &&& r->Ok_0.owner.bytes@ == f.0
            &&& r->Ok_0.name@ == before_nul(f.1)
            &&& r->Ok_0.descriptor_uri@ == f.2
        },
{
    if data.len() == 0 || data[0] != METADATA_KEY {
        return Err(DecodeError::WrongKind);
    }
    match deserialize_metadata(data) {
        Some((mint, raw_name, uri)) => {
            let name = truncate_at_nul(raw_name.as_str());
            Ok(OnChainRecord { owner: Identity::new(mint), name, descriptor_uri: uri })
        },
        None => Err(DecodeError::Malformed),
    }
}

} // verus!
