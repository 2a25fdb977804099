//! Addresses of storage slots, derived from a namespace tag, key fields and the
//! program's identity.

use crate::codec::{le_bytes, take, write_le};
use crate::state::gateway::GatewayConfig;
use crate::state::nft_origin::NftOrigin;
use crate::state::replay::ReplayMarker;
use anchor_lang::prelude::Pubkey;
use vstd::prelude::*;

verus! {

/// The identity of a party or the address of a storage slot.
pub type Address = [u8; 32];

/// The identity of this program.
pub const ID: Address = [
    215, 195, 180, 41, 73, 13, 210, 156, 18, 7, 102, 144, 174, 47, 87, 74,
    236, 242, 39, 56, 33, 12, 244, 255, 216, 124, 221, 199, 173, 164, 126, 157,
];

/// The program address that the seeds and the program's identity determine, with
/// its bump seed, where there is one.
pub uninterp spec fn program_address(seeds: Seq<Seq<u8>>, program_id: Seq<u8>) -> Option<(Seq<u8>, u8)>;

/// The seeds as runs of bytes.
pub open spec fn seeds_view(seeds: Seq<Vec<u8>>) -> Seq<Seq<u8>> {
    Seq::new(seeds.len(), |i: int| seeds[i]@)
}

/// A derived address and its bump seed, the address as a run of bytes.
pub open spec fn pda_view(pda: Option<(Address, u8)>) -> Option<(Seq<u8>, u8)> {
    match pda {
        Some((address, bump)) => Some((address@, bump)),
        None => None,
    }
}

/// `Pubkey::try_find_program_address`: the address and bump seed that the search
/// over bump seeds settles on for these seeds and this program, or nothing where
/// it finds none. The outcome depends on the seeds and the program alone.
#[verifier::external_body]
pub(crate) fn try_find_program_address(seeds: &Vec<Vec<u8>>, program_id: &Address) -> (r: Option<(Address, u8)>)
    ensures
        pda_view(r) == program_address(seeds_view(seeds@), program_id@),
{
    let parts: Vec<&[u8]> = seeds.iter().map(|seed| seed.as_slice()).collect();
    let found = Pubkey::try_find_program_address(&parts, &Pubkey::new_from_array(*program_id));
    found.map(|(key, bump)| (key.to_bytes(), bump))
}

/// Seeds of the gateway configuration's address: its namespace tag.
pub open spec fn gateway_config_seeds() -> Seq<Seq<u8>> {
    seq![GatewayConfig::SEED@]
}

/// Seeds of a replay marker's address: the namespace tag, the token id and the
/// nonce in 8 bytes, least significant first.
pub open spec fn replay_marker_seeds(token_id: Seq<u8>, nonce: u64) -> Seq<Seq<u8>> {
    seq![ReplayMarker::SEED@, token_id, le_bytes(nonce as nat, 8)]
}

/// Seeds of an origin record's address: the namespace tag and the token id.
pub open spec fn nft_origin_seeds(token_id: Seq<u8>) -> Seq<Seq<u8>> {
    seq![NftOrigin::SEED@, token_id]
}

/// The address of the gateway configuration: it depends on the program alone.
pub open spec fn gateway_config_pda() -> Option<(Seq<u8>, u8)> {
    program_address(gateway_config_seeds(), ID@)
}

/// The address of the replay marker of one message.
pub open spec fn replay_marker_pda(token_id: Seq<u8>, nonce: u64) -> Option<(Seq<u8>, u8)> {
    program_address(replay_marker_seeds(token_id, nonce), ID@)
}

/// The address of the origin record of one foreign token.
pub open spec fn nft_origin_pda(token_id: Seq<u8>) -> Option<(Seq<u8>, u8)> {
    program_address(nft_origin_seeds(token_id), ID@)
}

/// Derives the address of the gateway configuration.
pub fn derive_gateway_config_pda() -> (r: Option<(Address, u8)>)
    ensures
        pda_view(r) == gateway_config_pda(),
{
    let mut seeds: Vec<Vec<u8>> = Vec::new();
    seeds.push(take(&GatewayConfig::SEED, 0, 14));
    assert(seeds_view(seeds@) =~= gateway_config_seeds()) by {
        assert(GatewayConfig::SEED@.subrange(0, 14) =~= GatewayConfig::SEED@);
    }
    try_find_program_address(&seeds, &ID)
}

/// Derives the address of the replay marker of the message with this token id and
/// nonce.
pub fn derive_replay_marker_pda(token_id: &Address, nonce: u64) -> (r: Option<(Address, u8)>)
    ensures
        pda_view(r) == replay_marker_pda(token_id@, nonce),
{
    let mut seeds: Vec<Vec<u8>> = Vec::new();
    seeds.push(take(&ReplayMarker::SEED, 0, 6));
    seeds.push(take(token_id, 0, 32));
    let mut nonce_bytes: Vec<u8> = Vec::new();
    write_le(&mut nonce_bytes, nonce, 8);
    seeds.push(nonce_bytes);
    assert(seeds_view(seeds@) =~= replay_marker_seeds(token_id@, nonce)) by {
        assert(ReplayMarker::SEED@.subrange(0, 6) =~= ReplayMarker::SEED@);
        assert(token_id@.subrange(0, 32) =~= token_id@);
        assert(Seq::<u8>::empty() + le_bytes(nonce as nat, 8) =~= le_bytes(nonce as nat, 8));
    }
    try_find_program_address(&seeds, &ID)
}

/// Derives the address of the origin record of this token.
pub fn derive_nft_origin_pda(token_id: &Address) -> (r: Option<(Address, u8)>)
    ensures
        pda_view(r) == nft_origin_pda(token_id@),
{
    let mut seeds: Vec<Vec<u8>> = Vec::new();
    seeds.push(take(&NftOrigin::SEED, 0, 10));
    seeds.push(take(token_id, 0, 32));
    assert(seeds_view(seeds@) =~= nft_origin_seeds(token_id@)) by {
        assert(NftOrigin::SEED@.subrange(0, 10) =~= NftOrigin::SEED@);
        assert(token_id@.subrange(0, 32) =~= token_id@);
    }
    try_find_program_address(&seeds, &ID)
}

} // verus!
