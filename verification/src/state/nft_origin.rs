//! The incoming message and the origin record: where a bridged token came from.

use crate::codec::{
    append, bits_i64, i64_bits, le_bytes, le_value, lemma_field_of_parse_text,
    lemma_bits_i64_round_trip, lemma_i64_bits_round_trip, lemma_le_bytes_len, lemma_le_bytes_of_value,
    lemma_le_value_bound, lemma_le_value_of_bytes, lemma_parse_text_of_field,
    lemma_radix_values, parse_text, read_i64, read_text, read_u16, read_u64, take, take32,
    text_field, write_i64, write_le, write_text, same8,
};
use crate::pda::Address;
use vstd::prelude::*;
use vstd::utf8::encode_utf8;

verus! {

/// A decoded message from another chain.
#[derive(Clone, Debug, PartialEq, Eq)]
pub struct CrossChainNftPayload {
    /// The token's identifier on its chain of origin.
    pub token_id: [u8; 32],
    /// Tells apart the transfers of one token.
    pub nonce: u64,
    pub origin_chain_id: u16,
    /// The asset on the chain of origin that the token belongs to.
    pub origin_mint: [u8; 32],
    pub metadata_uri: String,
    /// Who receives the token on this chain.
    pub recipient: Address,
}

/// A message as a value.
pub struct PayloadView {
    pub token_id: Seq<u8>,
    pub nonce: u64,
    pub origin_chain_id: u16,
    pub origin_mint: Seq<u8>,
    pub metadata_uri: Seq<char>,
    pub recipient: Seq<u8>,
}

impl View for CrossChainNftPayload {
    type V = PayloadView;

    open spec fn view(&self) -> PayloadView {
        PayloadView {
            token_id: self.token_id@,
            nonce: self.nonce,
            origin_chain_id: self.origin_chain_id,
            origin_mint: self.origin_mint@,
            metadata_uri: self.metadata_uri@,
            recipient: self.recipient@,
        }
    }
}

impl PayloadView {
    /// The fixed fields have their widths, and the text's length fits its prefix.
    pub open spec fn wf(self) -> bool {
        &&& self.token_id.len() == 32
        &&& self.origin_mint.len() == 32
        &&& self.recipient.len() == 32
        &&& encode_utf8(self.metadata_uri).len() <= u32::MAX
    }
}

/// The message on the wire: token id, nonce, chain of origin, foreign mint, the
/// metadata URI as a text field, recipient.
pub open spec fn payload_wire(p: PayloadView) -> Seq<u8> {
    p.token_id + le_bytes(p.nonce as nat, 8) + le_bytes(p.origin_chain_id as nat, 2)
        + p.origin_mint + text_field(p.metadata_uri) + p.recipient
}

/// The message that the bytes are, if they are one, whole and with nothing after it.
pub open spec fn parse_payload(bytes: Seq<u8>) -> Option<PayloadView> {
    if bytes.len() < 74 {
        None
    } else {
        match parse_text(bytes, 74) {
            None => None,
            Some((uri, end)) => if bytes.len() != end + 32 {
                None
            } else {
                Some(
                    PayloadView {
                        token_id: bytes.subrange(0, 32),
                        nonce: le_value(bytes.subrange(32, 40)) as u64,
                        origin_chain_id: le_value(bytes.subrange(40, 42)) as u16,
                        origin_mint: bytes.subrange(42, 74),
                        metadata_uri: uri,
                        recipient: bytes.subrange(end, end + 32),
                    },
                )
            },
        }
    }
}

/// A message is decoded from its wire form as it was.
pub proof fn lemma_parse_of_wire(p: PayloadView)
    requires
        p.wf(),
    ensures
        parse_payload(payload_wire(p)) == Some(p),
{
    let nonce = le_bytes(p.nonce as nat, 8);
    let chain = le_bytes(p.origin_chain_id as nat, 2);
    let head = p.token_id + nonce + chain + p.origin_mint;
    let bytes = payload_wire(p);
    lemma_le_bytes_len(p.nonce as nat, 8);
    lemma_le_bytes_len(p.origin_chain_id as nat, 2);
    lemma_radix_values();
    lemma_le_value_of_bytes(p.nonce as nat, 8);
    lemma_le_value_of_bytes(p.origin_chain_id as nat, 2);
    lemma_parse_text_of_field(head, p.metadata_uri, p.recipient);
    lemma_le_bytes_len(encode_utf8(p.metadata_uri).len(), 4);
    assert(bytes =~= head + text_field(p.metadata_uri) + p.recipient);
    let end = 78 + encode_utf8(p.metadata_uri).len() as int;
    assert(bytes.subrange(0, 32) =~= p.token_id);
    assert(bytes.subrange(32, 40) =~= nonce);
    assert(bytes.subrange(40, 42) =~= chain);
    assert(bytes.subrange(42, 74) =~= p.origin_mint);
    assert(bytes.subrange(end, end + 32) =~= p.recipient);
}

/// No two messages have the same wire form.
pub proof fn lemma_wire_injective(p: PayloadView, q: PayloadView)
    requires
        p.wf(),
        q.wf(),
        payload_wire(p) == payload_wire(q),
    ensures
        p == q,
{
    lemma_parse_of_wire(p);
    lemma_parse_of_wire(q);
}

/// What decodes to a message is that message's wire form.
pub proof fn lemma_wire_of_parse(bytes: Seq<u8>)
    requires
        parse_payload(bytes) is Some,
    ensures
        parse_payload(bytes)->0.wf(),
        payload_wire(parse_payload(bytes)->0) == bytes,
{
    let p = parse_payload(bytes)->0;
    lemma_field_of_parse_text(bytes, 74);
    let nonce = bytes.subrange(32, 40);
    let chain = bytes.subrange(40, 42);
    lemma_le_value_bound(nonce);
    lemma_le_value_bound(chain);
    lemma_radix_values();
    lemma_le_bytes_of_value(nonce);
    lemma_le_bytes_of_value(chain);
    assert(payload_wire(p) =~= bytes);
}

/// Cutting a message short anywhere leaves bytes that are no message.
pub proof fn lemma_truncated_payload_rejected(p: PayloadView, kept: int)
    requires
        p.wf(),
        0 <= kept < payload_wire(p).len(),
    ensures
        parse_payload(payload_wire(p).subrange(0, kept)) is None,
{
    let whole = payload_wire(p);
    let cut = whole.subrange(0, kept);
    lemma_parse_of_wire(p);
    if kept >= 78 {
        assert(cut.subrange(74, 78) =~= whole.subrange(74, 78));
        let end = 78 + le_value(whole.subrange(74, 78));
        assert(whole.len() == end + 32);
    }
}

impl CrossChainNftPayload {
    /// Decodes a message. The bytes must be one message, whole, with nothing after
    /// it, and its text well-formed UTF-8.
    pub fn decode(bytes: &[u8]) -> (r: Option<CrossChainNftPayload>)
        ensures
            match r {
                Some(p) => parse_payload(bytes@) == Some(p@),
                None => parse_payload(bytes@) is None,
            },
    {
        if bytes.len() < 74 {
            return None;
        }
        match read_text(bytes, 74) {
            None => None,
            Some((metadata_uri, end)) => {
                if bytes.len() - end != 32 {
                    return None;
                }
                let nonce: u64 = read_u64(bytes, 32);
                let origin_chain_id: u16 = read_u16(bytes, 40);
                Some(
                    CrossChainNftPayload {
                        token_id: take32(bytes, 0),
                        nonce,
                        origin_chain_id,
                        origin_mint: take32(bytes, 42),
                        metadata_uri,
                        recipient: take32(bytes, end),
                    },
                )
            },
        }
    }

    /// The wire form of the message, unless its text is too long for the length
    /// prefix.
    pub fn encode(&self) -> (r: Option<Vec<u8>>)
        ensures
            match r {
                Some(bytes) => self@.wf() && bytes@ == payload_wire(self@),
                None => !self@.wf(),
            },
    {
        let mut out: Vec<u8> = Vec::new();
        append(&mut out, &self.token_id);
        write_le(&mut out, self.nonce, 8);
        write_le(&mut out, self.origin_chain_id as u64, 2);
        append(&mut out, &self.origin_mint);
        if !write_text(&mut out, self.metadata_uri.as_str()) {
            return None;
        }
        append(&mut out, &self.recipient);
        assert(out@ =~= payload_wire(self@));
        Some(out)
    }
}

/// The canonical record of where a bridged token came from.
#[derive(Clone, Debug, PartialEq, Eq)]
pub struct NftOrigin {
    pub origin_chain: u16,
    pub origin_token_id: [u8; 32],
    pub origin_mint: [u8; 32],
    pub metadata_uri: String,
    pub created_at: i64,
    pub bump: u8,
}

/// An origin record as a value.
pub struct OriginView {
    pub origin_chain: u16,
    pub origin_token_id: Seq<u8>,
    pub origin_mint: Seq<u8>,
    pub metadata_uri: Seq<char>,
    pub created_at: i64,
    pub bump: u8,
}

impl View for NftOrigin {
    type V = OriginView;

    open spec fn view(&self) -> OriginView {
        OriginView {
            origin_chain: self.origin_chain,
            origin_token_id: self.origin_token_id@,
            origin_mint: self.origin_mint@,
            metadata_uri: self.metadata_uri@,
            created_at: self.created_at,
            bump: self.bump,
        }
    }
}

impl OriginView {
    /// The fixed fields have their widths, and the text's length fits its prefix.
    pub open spec fn wf(self) -> bool {
        &&& self.origin_token_id.len() == 32
        &&& self.origin_mint.len() == 32
        &&& encode_utf8(self.metadata_uri).len() <= u32::MAX
    }
}

/// Type tag that opens the slot of an origin record.
pub const NFT_ORIGIN_DISCRIMINATOR: [u8; 8] = [190, 248, 47, 131, 75, 149, 160, 157];

/// What the slot of an origin record holds: the type tag, the chain of origin, the
/// token id, the foreign mint, the metadata URI as a text field, the time of
/// creation and the bump seed of the slot's address.
pub open spec fn nft_origin_data(o: OriginView) -> Seq<u8> {
    NFT_ORIGIN_DISCRIMINATOR@ + le_bytes(o.origin_chain as nat, 2) + o.origin_token_id
        + o.origin_mint + text_field(o.metadata_uri) + le_bytes(i64_bits(o.created_at), 8)
        + seq![o.bump]
}

/// The origin record that a slot holds, if what it holds is one and nothing more.
pub open spec fn parse_nft_origin(data: Seq<u8>) -> Option<OriginView> {
    if data.len() < 74 || data.subrange(0, 8) != NFT_ORIGIN_DISCRIMINATOR@ {
        None
    } else {
        match parse_text(data, 74) {
            None => None,
            Some((uri, end)) => if data.len() != end + 9 {
                None
            } else {
                Some(
                    OriginView {
                        origin_chain: le_value(data.subrange(8, 10)) as u16,
                        origin_token_id: data.subrange(10, 42),
                        origin_mint: data.subrange(42, 74),
                        metadata_uri: uri,
                        created_at: bits_i64(le_value(data.subrange(end, end + 8))),
                        bump: data[end + 8],
                    },
                )
            },
        }
    }
}

/// An origin record is read back from its slot as it was written.
pub proof fn lemma_parse_of_nft_origin_data(o: OriginView)
    requires
        o.wf(),
    ensures
        parse_nft_origin(nft_origin_data(o)) == Some(o),
        nft_origin_data(o).len() == 87 + encode_utf8(o.metadata_uri).len(),
{
    let chain = le_bytes(o.origin_chain as nat, 2);
    let time = le_bytes(i64_bits(o.created_at), 8);
    let head = NFT_ORIGIN_DISCRIMINATOR@ + chain + o.origin_token_id + o.origin_mint;
    let tail = time + seq![o.bump];
    let data = nft_origin_data(o);
    lemma_le_bytes_len(o.origin_chain as nat, 2);
    lemma_le_bytes_len(i64_bits(o.created_at), 8);
    lemma_radix_values();
    lemma_le_value_of_bytes(o.origin_chain as nat, 2);
    lemma_i64_bits_round_trip(o.created_at);
    lemma_le_value_of_bytes(i64_bits(o.created_at), 8);
    lemma_parse_text_of_field(head, o.metadata_uri, tail);
    lemma_le_bytes_len(encode_utf8(o.metadata_uri).len(), 4);
    assert(data =~= head + text_field(o.metadata_uri) + tail);
    let end = 78 + encode_utf8(o.metadata_uri).len() as int;
    assert(data.subrange(0, 8) =~= NFT_ORIGIN_DISCRIMINATOR@);
    assert(data.subrange(8, 10) =~= chain);
    assert(data.subrange(10, 42) =~= o.origin_token_id);
    assert(data.subrange(42, 74) =~= o.origin_mint);
    assert(data.subrange(end, end + 8) =~= time);
    assert(data[end + 8] == o.bump);
}

/// What is read as an origin record is what that record's slot holds.
pub proof fn lemma_nft_origin_data_of_parse(data: Seq<u8>)
    requires
        parse_nft_origin(data) is Some,
    ensures
        parse_nft_origin(data)->0.wf(),
        nft_origin_data(parse_nft_origin(data)->0) == data,
{
    let o = parse_nft_origin(data)->0;
    lemma_field_of_parse_text(data, 74);
    let chain = data.subrange(8, 10);
    let end = data.len() - 9;
    let time = data.subrange(end, end + 8);
    lemma_le_value_bound(chain);
    lemma_le_value_bound(time);
    lemma_radix_values();
    lemma_le_bytes_of_value(chain);
    lemma_le_bytes_of_value(time);
    lemma_bits_i64_round_trip(le_value(time));
    assert(nft_origin_data(o) =~= data);
}

impl NftOrigin {
    /// Namespace tag of an origin record's address.
    pub const SEED: [u8; 10] = [110, 102, 116, 95, 111, 114, 105, 103, 105, 110];

    /// Size of the record without its type tag and without the bytes of its text.
    pub const LEN: usize = 79;

    /// Reads an origin record out of what its slot holds.
    pub fn load(data: &[u8]) -> (r: Option<NftOrigin>)
        ensures
            match r {
                Some(origin) => parse_nft_origin(data@) == Some(origin@),
                None => parse_nft_origin(data@) is None,
            },
    {
        if data.len() < 74 {
            return None;
        }
        let tag: Vec<u8> = take(data, 0, 8);
        if !same8(tag.as_slice(), &NFT_ORIGIN_DISCRIMINATOR) {
            return None;
        }
        match read_text(data, 74) {
            None => None,
            Some((metadata_uri, end)) => {
                if data.len() - end != 9 {
                    return None;
                }
                let origin_chain: u16 = read_u16(data, 8);
                let created_at: i64 = read_i64(data, end);
                Some(
                    NftOrigin {
                        origin_chain,
                        origin_token_id: take32(data, 10),
                        origin_mint: take32(data, 42),
                        metadata_uri,
                        created_at,
                        bump: data[end + 8],
                    },
                )
            },
        }
    }

    /// What the slot of this record holds, unless its text is too long for the
    /// length prefix.
    pub fn to_account_data(&self) -> (r: Option<Vec<u8>>)
        ensures
            match r {
                Some(data) => self@.wf() && data@ == nft_origin_data(self@),
                None => !self@.wf(),
            },
    {
        let mut out: Vec<u8> = Vec::new();
        append(&mut out, &NFT_ORIGIN_DISCRIMINATOR);
        write_le(&mut out, self.origin_chain as u64, 2);
        append(&mut out, &self.origin_token_id);
        append(&mut out, &self.origin_mint);
        if !write_text(&mut out, self.metadata_uri.as_str()) {
            return None;
        }
        write_i64(&mut out, self.created_at);
        out.push(self.bump);
        assert(out@ =~= nft_origin_data(self@));
        Some(out)
    }
}

} // verus!
