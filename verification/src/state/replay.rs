//! Replay markers: the proof that one message has been consumed.

use crate::codec::{append, i64_bits, le_bytes, lemma_le_bytes_len, write_i64, write_le};
use vstd::prelude::*;

verus! {

/// Proof that the message with this token id and nonce has been processed.
#[derive(Clone, Copy, Debug, PartialEq, Eq)]
pub struct ReplayMarker {
    pub token_id: [u8; 32],
    pub nonce: u64,
    pub created_at: i64,
    pub bump: u8,
}

/// A replay marker as a value.
pub struct MarkerView {
    pub token_id: Seq<u8>,
    pub nonce: u64,
    pub created_at: i64,
    pub bump: u8,
}

impl View for ReplayMarker {
    type V = MarkerView;

    open spec fn view(&self) -> MarkerView {
        MarkerView {
            token_id: self.token_id@,
            nonce: self.nonce,
            created_at: self.created_at,
            bump: self.bump,
        }
    }
}

/// Type tag that opens the slot of a replay marker.
pub const REPLAY_MARKER_DISCRIMINATOR: [u8; 8] = [179, 176, 182, 232, 126, 154, 202, 146];

/// What the slot of a marker holds: the type tag, the token id, the nonce, the time
/// of creation and the bump seed of the slot's address.
pub open spec fn replay_marker_data(marker: MarkerView) -> Seq<u8> {
    REPLAY_MARKER_DISCRIMINATOR@ + marker.token_id + le_bytes(marker.nonce as nat, 8) + le_bytes(
        i64_bits(marker.created_at),
        8,
    ) + seq![marker.bump]
}

/// The slot of a marker is never empty: it holds the type tag and the record.
pub proof fn lemma_replay_marker_data_len(marker: MarkerView)
    requires
        marker.token_id.len() == 32,
    ensures
        replay_marker_data(marker).len() == 8 + ReplayMarker::LEN,
{
    lemma_le_bytes_len(marker.nonce as nat, 8);
    lemma_le_bytes_len(i64_bits(marker.created_at), 8);
}

impl ReplayMarker {
    /// Namespace tag of a marker's address.
    pub const SEED: [u8; 6] = [114, 101, 112, 108, 97, 121];

    /// Size of the record, without its type tag.
    pub const LEN: usize = 49;

    /// What the slot of this marker holds.
    pub fn to_account_data(&self) -> (r: Vec<u8>)
        ensures
            r@ == replay_marker_data(self@),
            r@.len() == 8 + ReplayMarker::LEN,
    {
        let mut out: Vec<u8> = Vec::new();
        append(&mut out, &REPLAY_MARKER_DISCRIMINATOR);
        append(&mut out, &self.token_id);
        write_le(&mut out, self.nonce, 8);
        write_i64(&mut out, self.created_at);
        out.push(self.bump);
        proof {
            assert(out@ =~= replay_marker_data(self@));
            lemma_replay_marker_data_len(self@);
        }
        out
    }
}

} // verus!
