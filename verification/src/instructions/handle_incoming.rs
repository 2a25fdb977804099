//! The handler of incoming cross-chain transfers.

use crate::codec::same32;
use crate::ledger::{
    CreateAccount, CreateAccountView, Ledger, LedgerView, MintTo, MintToView,
};
use crate::pda::{
    derive_gateway_config_pda, derive_nft_origin_pda, derive_replay_marker_pda,
    gateway_config_pda, nft_origin_pda, pda_view, replay_marker_pda, Address, ID,
};
use crate::state::gateway::{parse_gateway_config, GatewayConfig};
use crate::state::nft_origin::{
    lemma_parse_of_nft_origin_data, nft_origin_data, parse_nft_origin, parse_payload,
    CrossChainNftPayload, NftOrigin, OriginView, PayloadView,
};
use crate::state::replay::{replay_marker_data, MarkerView, ReplayMarker};
use vstd::prelude::*;

verus! {

/// Why the handler itself turns a message away.
#[derive(Clone, Copy, Debug, PartialEq, Eq, Structural)]
pub enum ErrorCode {
    /// The configuration slot is not the program's own, or holds no configuration.
    UnauthorizedGateway,
    /// The bytes are no message.
    InvalidPayload,
    /// The message was processed before.
    ReplayAttack,
    /// The replay slot is not the one that belongs to the message.
    ReplayPdaMismatch,
    /// The origin slot is not the one that belongs to the token, or holds something
    /// else than the token's origin record.
    OriginMismatch,
}

impl ErrorCode {
    /// The error in words, as a value.
    pub open spec fn message_spec(self) -> Seq<char> {
        match self {
            ErrorCode::UnauthorizedGateway => "Unauthorized gateway"@,
            ErrorCode::InvalidPayload => "Invalid payload"@,
            ErrorCode::ReplayAttack => "Replay attack detected"@,
            ErrorCode::ReplayPdaMismatch => "Replay PDA mismatch"@,
            ErrorCode::OriginMismatch => "Origin record mismatch"@,
        }
    }

    /// The error in words.
    pub fn message(&self) -> (r: &'static str)
        ensures
            r@ == self.message_spec(),
    {
        match self {
            ErrorCode::UnauthorizedGateway => "Unauthorized gateway",
            ErrorCode::InvalidPayload => "Invalid payload",
            ErrorCode::ReplayAttack => "Replay attack detected",
            ErrorCode::ReplayPdaMismatch => "Replay PDA mismatch",
            ErrorCode::OriginMismatch => "Origin record mismatch",
        }
    }
}

/// The audit record of one transfer that went through.
#[derive(Clone, Copy, Debug, PartialEq, Eq)]
pub struct CrossChainMintEvent {
    pub token_id: [u8; 32],
    pub origin_chain: u16,
    pub recipient: Address,
    pub nonce: u64,
    pub timestamp: i64,
}

/// An audit record as a value.
pub struct EventView {
    pub token_id: Seq<u8>,
    pub origin_chain: u16,
    pub recipient: Seq<u8>,
    pub nonce: u64,
    pub timestamp: i64,
}

impl View for CrossChainMintEvent {
    type V = EventView;

    open spec fn view(&self) -> EventView {
        EventView {
            token_id: self.token_id@,
            origin_chain: self.origin_chain,
            recipient: self.recipient@,
            nonce: self.nonce,
            timestamp: self.timestamp,
        }
    }
}

/// The parties and the storage slots that one invocation refers to.
#[derive(Clone, Copy, Debug, PartialEq, Eq)]
pub struct HandleIncoming {
    /// Who submits the message and pays for what it allocates.
    pub payer: Address,
    pub recipient: Address,
    /// The asset that this invocation creates for the token.
    pub mint: Address,
    /// The recipient's account for that asset.
    pub recipient_token_account: Address,
    /// The slot offered as the gateway configuration.
    pub gateway_config: Address,
    /// The slot offered as the message's replay marker.
    pub replay_marker: Address,
    /// The slot offered as the token's origin record.
    pub nft_origin: Address,
}

/// The parties and slots of an invocation, as a value.
pub struct HandleIncomingView {
    pub payer: Seq<u8>,
    pub recipient: Seq<u8>,
    pub mint: Seq<u8>,
    pub recipient_token_account: Seq<u8>,
    pub gateway_config: Seq<u8>,
    pub replay_marker: Seq<u8>,
    pub nft_origin: Seq<u8>,
}

impl View for HandleIncoming {
    type V = HandleIncomingView;

    open spec fn view(&self) -> HandleIncomingView {
        HandleIncomingView {
            payer: self.payer@,
            recipient: self.recipient@,
            mint: self.mint@,
            recipient_token_account: self.recipient_token_account@,
            gateway_config: self.gateway_config@,
            replay_marker: self.replay_marker@,
            nft_origin: self.nft_origin@,
        }
    }
}

/// How far an invocation has come. It passes the stages in this order, and ends at
/// the last one or is aborted at an earlier one.
#[derive(Clone, Copy, Debug, PartialEq, Eq, Structural)]
pub enum Stage {
    Start,
    Authenticated,
    Decoded,
    ReplayClaimed,
    Minted,
    OriginRecorded,
    Emitted,
}

/// Why an invocation was aborted.
#[derive(Clone, Copy, Debug, PartialEq, Eq, Structural)]
pub enum Cause {
    /// The handler turned the message away.
    Rejected(ErrorCode),
    /// A collaborator failed; its own code is handed on as it came.
    Collaborator(u64),
}

/// An invocation that ended without effect: the stage it had reached, and why it
/// went no further.
#[derive(Clone, Copy, Debug, PartialEq, Eq, Structural)]
pub struct Aborted {
    pub stage: Stage,
    pub cause: Cause,
}

/// What the issuance delegate answered to the request of this invocation.
#[derive(Clone, Copy, Debug, PartialEq, Eq, Structural)]
pub enum Issuance {
    /// The unit was issued.
    Done,
    /// The delegate refused, with this code.
    Failed(u64),
}

/// What an invocation that went through has done.
#[derive(Clone, Copy, Debug, PartialEq, Eq)]
pub struct Receipt {
    /// The allocation of the replay marker's slot.
    pub marker: CreateAccount,
    /// The allocation of the origin record's slot, where this invocation wrote the
    /// record; nothing where it found the record there.
    pub origin: Option<CreateAccount>,
    /// The issuance.
    pub mint: MintTo,
    /// The audit event.
    pub event: CrossChainMintEvent,
}

/// A receipt as a value.
pub struct ReceiptView {
    pub marker: CreateAccountView,
    pub origin: Option<CreateAccountView>,
    pub mint: MintToView,
    pub event: EventView,
}

impl View for Receipt {
    type V = ReceiptView;

    open spec fn view(&self) -> ReceiptView {
        ReceiptView {
            marker: self.marker@,
            origin: match self.origin {
                Some(request) => Some(request@),
                None => None,
            },
            mint: self.mint@,
            event: self.event@,
        }
    }
}

/// Whether the offered address is the derived one.
pub open spec fn bound_to(supplied: Seq<u8>, derived: Option<(Seq<u8>, u8)>) -> bool {
    derived matches Some((address, _)) && address == supplied
}

/// The gateway that the offered configuration slot names, where the slot is the
/// program's own and holds a configuration.
pub open spec fn authenticated(
    supplied: Seq<u8>,
    derived: Option<(Seq<u8>, u8)>,
    data: Seq<u8>,
) -> Result<Seq<u8>, ErrorCode> {
    if !bound_to(supplied, derived) {
        Err(ErrorCode::UnauthorizedGateway)
    } else {
        match parse_gateway_config(data) {
            Some(gateway) => Ok(gateway),
            None => Err(ErrorCode::UnauthorizedGateway),
        }
    }
}

/// The marker that claims the message's replay slot, where the offered slot is the
/// message's own and still empty.
pub open spec fn replay_guarded(
    supplied: Seq<u8>,
    derived: Option<(Seq<u8>, u8)>,
    data: Seq<u8>,
    p: PayloadView,
    now: i64,
) -> Result<MarkerView, ErrorCode> {
    match derived {
        None => Err(ErrorCode::ReplayPdaMismatch),
        Some((address, bump)) => if address != supplied {
            Err(ErrorCode::ReplayPdaMismatch)
        } else if data.len() != 0 {
            Err(ErrorCode::ReplayAttack)
        } else {
            Ok(MarkerView { token_id: p.token_id, nonce: p.nonce, created_at: now, bump })
        },
    }
}

/// The origin record of the message's token, as this invocation would write it.
pub open spec fn origin_of(p: PayloadView, now: i64, bump: u8) -> OriginView {
    OriginView {
        origin_chain: p.origin_chain_id,
        origin_token_id: p.token_id,
        origin_mint: p.origin_mint,
        metadata_uri: p.metadata_uri,
        created_at: now,
        bump,
    }
}

/// What to do about the token's origin record, where the offered slot is the
/// token's own: the bytes to write into it when it is empty, nothing when it holds
/// the token's record already. A record stays as it was first written. A slot that
/// holds anything else is a mismatch, and a text too long for a record makes the
/// message invalid.
pub open spec fn origin_registered(
    supplied: Seq<u8>,
    derived: Option<(Seq<u8>, u8)>,
    data: Seq<u8>,
    p: PayloadView,
    now: i64,
) -> Result<Option<Seq<u8>>, ErrorCode> {
    match derived {
        None => Err(ErrorCode::OriginMismatch),
        Some((address, bump)) => if address != supplied {
            Err(ErrorCode::OriginMismatch)
        } else if data.len() == 0 {
            if origin_of(p, now, bump).wf() {
                Ok(Some(nft_origin_data(origin_of(p, now, bump))))
            } else {
                Err(ErrorCode::InvalidPayload)
            }
        } else {
            match parse_nft_origin(data) {
                Some(found) => if found.origin_token_id == p.token_id {
                    Ok(None)
                } else {
                    Err(ErrorCode::OriginMismatch)
                },
                None => Err(ErrorCode::OriginMismatch),
            }
        },
    }
}

/// The allocation of the replay marker's slot: sized for a marker, paid for by the
/// submitter, owned by this program.
pub open spec fn marker_allocation_of(a: HandleIncomingView, bump: u8) -> CreateAccountView {
    CreateAccountView {
        payer: a.payer,
        key: a.replay_marker,
        space: (8 + ReplayMarker::LEN) as u64,
        owner: ID@,
        bump,
    }
}

/// The allocation of the origin record's slot: sized for the record, paid for by
/// the submitter, owned by this program.
pub open spec fn origin_allocation_of(
    a: HandleIncomingView,
    data: Seq<u8>,
    bump: u8,
) -> CreateAccountView {
    CreateAccountView {
        payer: a.payer,
        key: a.nft_origin,
        space: data.len() as u64,
        owner: ID@,
        bump,
    }
}

/// The allocation that a step of the origin registry asks for.
pub open spec fn origin_allocation_for(
    a: HandleIncomingView,
    step: Option<Seq<u8>>,
    bump: u8,
) -> Option<CreateAccountView> {
    match step {
        Some(data) => Some(origin_allocation_of(a, data, bump)),
        None => None,
    }
}

/// The request to the issuance delegate: one unit of the new asset to the
/// recipient's account, on the word of the submitter.
pub open spec fn mint_request_of(a: HandleIncomingView) -> MintToView {
    MintToView { mint: a.mint, to: a.recipient_token_account, authority: a.payer, amount: 1 }
}

/// The audit record of the message's transfer.
pub open spec fn mint_event_of(p: PayloadView, now: i64) -> EventView {
    EventView {
        token_id: p.token_id,
        origin_chain: p.origin_chain_id,
        recipient: p.recipient,
        nonce: p.nonce,
        timestamp: now,
    }
}

/// A ledger after an invocation, and how the invocation ended.
pub struct Outcome {
    pub ledger: LedgerView,
    pub result: Result<ReceiptView, Aborted>,
}

impl Outcome {
    /// The stage at which the invocation ended: the last one where it went
    /// through, the one it had reached where it was aborted.
    pub open spec fn stage(self) -> Stage {
        match self.result {
            Ok(_) => Stage::Emitted,
            Err(aborted) => aborted.stage,
        }
    }
}

/// The outcome of an invocation that was aborted on `ledger`.
pub open spec fn aborted(ledger: LedgerView, stage: Stage, cause: Cause) -> Outcome {
    Outcome { ledger, result: Err(Aborted { stage, cause }) }
}

/// What one invocation does to the ledger and how it ends: the gateway is
/// authenticated, the message decoded, its replay slot claimed, the unit issued,
/// the origin recorded and the event published, in this order. An invocation that
/// stops on the way leaves the ledger as it found it.
pub open spec fn handled(
    ledger: LedgerView,
    a: HandleIncomingView,
    payload: Seq<u8>,
    now: i64,
    issuance: Issuance,
) -> Outcome {
    match authenticated(a.gateway_config, gateway_config_pda(), ledger.data(a.gateway_config)) {
        Err(code) => aborted(ledger, Stage::Start, Cause::Rejected(code)),
        Ok(_) => match parse_payload(payload) {
            None => aborted(ledger, Stage::Authenticated, Cause::Rejected(ErrorCode::InvalidPayload)),
            Some(p) => match replay_guarded(
                a.replay_marker,
                replay_marker_pda(p.token_id, p.nonce),
                ledger.data(a.replay_marker),
                p,
                now,
            ) {
                Err(code) => aborted(ledger, Stage::Decoded, Cause::Rejected(code)),
                Ok(marker) => match issuance {
                    Issuance::Failed(code) => aborted(
                        ledger,
                        Stage::ReplayClaimed,
                        Cause::Collaborator(code),
                    ),
                    Issuance::Done => {
                        let claimed = ledger.with_slot(a.replay_marker, replay_marker_data(marker));
                        let derived = nft_origin_pda(p.token_id);
                        match origin_registered(
                            a.nft_origin,
                            derived,
                            claimed.data(a.nft_origin),
                            p,
                            now,
                        ) {
                            Err(code) => aborted(ledger, Stage::Minted, Cause::Rejected(code)),
                            Ok(step) => {
                                let recorded = match step {
                                    Some(data) => claimed.with_slot(a.nft_origin, data),
                                    None => claimed,
                                };
                                Outcome {
                                    ledger: recorded.with_issuance(mint_request_of(a)).with_event(
                                        mint_event_of(p, now),
                                    ),
                                    result: Ok(
                                        ReceiptView {
                                            marker: marker_allocation_of(a, marker.bump),
                                            origin: origin_allocation_for(
                                                a,
                                                step,
                                                derived.unwrap().1,
                                            ),
                                            mint: mint_request_of(a),
                                            event: mint_event_of(p, now),
                                        },
                                    ),
                                }
                            },
                        }
                    },
                },
            },
        },
    }
}

/// How an invocation ended, the receipt as a value.
pub open spec fn result_view(r: Result<Receipt, Aborted>) -> Result<ReceiptView, Aborted> {
    match r {
        Ok(receipt) => Ok(receipt@),
        Err(aborted) => Err(aborted),
    }
}

/// Checks the offered configuration slot against the derived address and reads the
/// configuration out of what the slot holds.
pub fn authenticate(supplied: &Address, derived: Option<(Address, u8)>, data: &[u8]) -> (r: Result<
    GatewayConfig,
    ErrorCode,
>)
    ensures
        match r {
            Ok(config) => authenticated(supplied@, pda_view(derived), data@) == Ok::<
                Seq<u8>,
                ErrorCode,
            >(config.gateway@),
            Err(code) => authenticated(supplied@, pda_view(derived), data@) == Err::<
                Seq<u8>,
                ErrorCode,
            >(code),
        },
{
    match derived {
        None => Err(ErrorCode::UnauthorizedGateway),
        Some((address, _)) => {
            if !same32(&address, supplied) {
                return Err(ErrorCode::UnauthorizedGateway);
            }
            match GatewayConfig::load(data) {
                Some(config) => Ok(config),
                None => Err(ErrorCode::UnauthorizedGateway),
            }
        },
    }
}

/// Checks the offered replay slot against the derived address and against reuse,
/// and makes the marker that claims it.
pub fn guard_replay(
    supplied: &Address,
    derived: Option<(Address, u8)>,
    data: &[u8],
    payload: &CrossChainNftPayload,
    now: i64,
) -> (r: Result<ReplayMarker, ErrorCode>)
    ensures
        match r {
            Ok(marker) => replay_guarded(supplied@, pda_view(derived), data@, payload@, now) == Ok::<
                MarkerView,
                ErrorCode,
            >(marker@),
            Err(code) => replay_guarded(supplied@, pda_view(derived), data@, payload@, now)
                == Err::<MarkerView, ErrorCode>(code),
        },
{
    match derived {
        None => Err(ErrorCode::ReplayPdaMismatch),
        Some((address, bump)) => {
            if !same32(&address, supplied) {
                return Err(ErrorCode::ReplayPdaMismatch);
            }
            if data.len() != 0 {
                return Err(ErrorCode::ReplayAttack);
            }
            Ok(
                ReplayMarker {
                    token_id: payload.token_id,
                    nonce: payload.nonce,
                    created_at: now,
                    bump,
                },
            )
        },
    }
}

/// Checks the offered origin slot against the derived address, and decides between
/// writing the token's origin record and keeping the one that is there.
pub fn register_origin(
    supplied: &Address,
    derived: Option<(Address, u8)>,
    data: &[u8],
    payload: &CrossChainNftPayload,
    now: i64,
) -> (r: Result<Option<Vec<u8>>, ErrorCode>)
    ensures
        match r {
            Ok(Some(bytes)) => origin_registered(supplied@, pda_view(derived), data@, payload@, now)
                == Ok::<Option<Seq<u8>>, ErrorCode>(Some(bytes@)),
            Ok(None) => origin_registered(supplied@, pda_view(derived), data@, payload@, now)
                == Ok::<Option<Seq<u8>>, ErrorCode>(None),
            Err(code) => origin_registered(supplied@, pda_view(derived), data@, payload@, now)
                == Err::<Option<Seq<u8>>, ErrorCode>(code),
        },
{
    match derived {
        None => Err(ErrorCode::OriginMismatch),
        Some((address, bump)) => {
            if !same32(&address, supplied) {
                return Err(ErrorCode::OriginMismatch);
            }
            if data.len() == 0 {
                let origin = NftOrigin {
                    origin_chain: payload.origin_chain_id,
                    origin_token_id: payload.token_id,
                    origin_mint: payload.origin_mint,
                    metadata_uri: payload.metadata_uri.clone(),
                    created_at: now,
                    bump,
                };
                assert(origin@ == origin_of(payload@, now, bump));
                return match origin.to_account_data() {
                    Some(bytes) => Ok(Some(bytes)),
                    None => Err(ErrorCode::InvalidPayload),
                };
            }
            match NftOrigin::load(data) {
                Some(found) => {
                    if same32(&found.origin_token_id, &payload.token_id) {
                        Ok(None)
                    } else {
                        Err(ErrorCode::OriginMismatch)
                    }
                },
                None => Err(ErrorCode::OriginMismatch),
            }
        },
    }
}

/// The allocation of the replay marker's slot.
pub fn marker_allocation(accounts: &HandleIncoming, bump: u8) -> (r: CreateAccount)
    ensures
        r@ == marker_allocation_of(accounts@, bump),
{
    CreateAccount {
        payer: accounts.payer,
        key: accounts.replay_marker,
        space: 8 + ReplayMarker::LEN as u64,
        owner: ID,
        bump,
    }
}

/// The request that the invocation puts to the issuance delegate.
pub fn mint_request(accounts: &HandleIncoming) -> (r: MintTo)
    ensures
        r@ == mint_request_of(accounts@),
{
    MintTo {
        mint: accounts.mint,
        to: accounts.recipient_token_account,
        authority: accounts.payer,
        amount: 1,
    }
}

/// The audit record of the message's transfer.
pub fn mint_event(payload: &CrossChainNftPayload, now: i64) -> (r: CrossChainMintEvent)
    ensures
        r@ == mint_event_of(payload@, now),
{
    CrossChainMintEvent {
        token_id: payload.token_id,
        origin_chain: payload.origin_chain_id,
        recipient: payload.recipient,
        nonce: payload.nonce,
        timestamp: now,
    }
}

/// An invocation whose message was admitted and whose replay slot is claimed: what
/// is left to do once the issuance delegate has answered.
#[derive(Debug)]
pub struct Claim {
    accounts: HandleIncoming,
    message: CrossChainNftPayload,
    now: i64,
    replay_bump: u8,
}

/// A claim as a value.
pub struct ClaimView {
    pub accounts: HandleIncomingView,
    pub message: PayloadView,
    pub now: i64,
    pub replay_bump: u8,
}

impl View for Claim {
    type V = ClaimView;

    closed spec fn view(&self) -> ClaimView {
        ClaimView {
            accounts: self.accounts@,
            message: self.message@,
            now: self.now,
            replay_bump: self.replay_bump,
        }
    }
}

impl Claim {
    /// The request to put to the issuance delegate.
    pub fn mint_request(&self) -> (r: MintTo)
        ensures
            r@ == mint_request_of(self@.accounts),
    {
        mint_request(&self.accounts)
    }

    /// The message that was admitted.
    pub fn message(&self) -> (r: &CrossChainNftPayload)
        ensures
            r@ == self@.message,
    {
        &self.message
    }

    /// The allocation of the replay slot that was claimed.
    pub fn marker_allocation(&self) -> (r: CreateAccount)
        ensures
            r@ == marker_allocation_of(self@.accounts, self@.replay_bump),
    {
        marker_allocation(&self.accounts, self.replay_bump)
    }
}

/// A ledger after the first part of an invocation, and the claim it led to.
pub struct Claimed {
    pub ledger: LedgerView,
    pub result: Result<ClaimView, Aborted>,
}

/// The first part of an invocation, up to the request to the issuance delegate:
/// the gateway is authenticated, the message decoded and its replay slot claimed.
/// The check that the slot is empty and the write that fills it are one step.
pub open spec fn claimed(
    ledger: LedgerView,
    a: HandleIncomingView,
    payload: Seq<u8>,
    now: i64,
) -> Claimed {
    match authenticated(a.gateway_config, gateway_config_pda(), ledger.data(a.gateway_config)) {
        Err(code) => Claimed {
            ledger,
            result: Err(Aborted { stage: Stage::Start, cause: Cause::Rejected(code) }),
        },
        Ok(_) => match parse_payload(payload) {
            None => Claimed {
                ledger,
                result: Err(
                    Aborted {
                        stage: Stage::Authenticated,
                        cause: Cause::Rejected(ErrorCode::InvalidPayload),
                    },
                ),
            },
            Some(p) => match replay_guarded(
                a.replay_marker,
                replay_marker_pda(p.token_id, p.nonce),
                ledger.data(a.replay_marker),
                p,
                now,
            ) {
                Err(code) => Claimed {
                    ledger,
                    result: Err(Aborted { stage: Stage::Decoded, cause: Cause::Rejected(code) }),
                },
                Ok(marker) => Claimed {
                    ledger: ledger.with_slot(a.replay_marker, replay_marker_data(marker)),
                    result: Ok(
                        ClaimView { accounts: a, message: p, now, replay_bump: marker.bump },
                    ),
                },
            },
        },
    }
}

/// The second part of an invocation, once the issuance delegate has answered. If
/// it failed, or the origin cannot be recorded, the replay slot is given up again.
/// Else the origin is recorded and the event published.
pub open spec fn settled(ledger: LedgerView, c: ClaimView, issuance: Issuance) -> Outcome {
    let a = c.accounts;
    let p = c.message;
    match issuance {
        Issuance::Failed(code) => aborted(
            ledger.without_slot(a.replay_marker),
            Stage::ReplayClaimed,
            Cause::Collaborator(code),
        ),
        Issuance::Done => {
            let derived = nft_origin_pda(p.token_id);
            match origin_registered(a.nft_origin, derived, ledger.data(a.nft_origin), p, c.now) {
                Err(code) => aborted(
                    ledger.without_slot(a.replay_marker),
                    Stage::Minted,
                    Cause::Rejected(code),
                ),
                Ok(step) => {
                    let recorded = match step {
                        Some(data) => ledger.with_slot(a.nft_origin, data),
                        None => ledger,
                    };
                    Outcome {
                        ledger: recorded.with_issuance(mint_request_of(a)).with_event(
                            mint_event_of(p, c.now),
                        ),
                        result: Ok(
                            ReceiptView {
                                marker: marker_allocation_of(a, c.replay_bump),
                                origin: origin_allocation_for(a, step, derived.unwrap().1),
                                mint: mint_request_of(a),
                                event: mint_event_of(p, c.now),
                            },
                        ),
                    }
                },
            }
        },
    }
}

/// The two parts make the whole: an invocation that does not get to its claim ends
/// as the first part says, and one that does ends as the second part says of the
/// ledger with the claim.
pub proof fn claim_then_settle(
    ledger: LedgerView,
    a: HandleIncomingView,
    payload: Seq<u8>,
    now: i64,
    issuance: Issuance,
)
    requires
        ledger.wf(),
    ensures
        handled(ledger, a, payload, now, issuance) == match claimed(ledger, a, payload, now).result {
            Err(e) => Outcome { ledger, result: Err(e) },
            Ok(c) => settled(claimed(ledger, a, payload, now).ledger, c, issuance),
        },
{
    let first = claimed(ledger, a, payload, now);
    if first.result is Ok {
        assert(!ledger.slots.dom().contains(a.replay_marker));
        assert(first.ledger.without_slot(a.replay_marker).slots =~= ledger.slots);
    }
}

/// The first part of an invocation: authenticates the gateway, decodes the message
/// and claims its replay slot.
pub fn claim(ledger: &mut Ledger, accounts: &HandleIncoming, payload: &[u8], now: i64) -> (r: Result<
    Claim,
    Aborted,
>)
    ensures
        old(ledger)@.wf(),
        final(ledger)@.wf(),
        final(ledger)@ == claimed(old(ledger)@, accounts@, payload@, now).ledger,
        match r {
            Ok(claim) => claimed(old(ledger)@, accounts@, payload@, now).result == Ok::<
                ClaimView,
                Aborted,
            >(claim@),
            Err(e) => claimed(old(ledger)@, accounts@, payload@, now).result == Err::<
                ClaimView,
                Aborted,
            >(e),
        },
{
    let config_data = ledger.data(&accounts.gateway_config);
    let derived_config = derive_gateway_config_pda();
    match authenticate(&accounts.gateway_config, derived_config, config_data.as_slice()) {
        Err(code) => {
            return Err(Aborted { stage: Stage::Start, cause: Cause::Rejected(code) });
        },
        Ok(_) => {},
    }
    let message = match CrossChainNftPayload::decode(payload) {
        None => {
            return Err(
                Aborted {
                    stage: Stage::Authenticated,
                    cause: Cause::Rejected(ErrorCode::InvalidPayload),
                },
            );
        },
        Some(message) => message,
    };
    let replay_data = ledger.data(&accounts.replay_marker);
    let derived_replay = derive_replay_marker_pda(&message.token_id, message.nonce);
    let marker = match guard_replay(
        &accounts.replay_marker,
        derived_replay,
        replay_data.as_slice(),
        &message,
        now,
    ) {
        Err(code) => {
            return Err(Aborted { stage: Stage::Decoded, cause: Cause::Rejected(code) });
        },
        Ok(marker) => marker,
    };
    let written = ledger.allocate(accounts.replay_marker, marker.to_account_data());
    assert(written);
    Ok(Claim { accounts: *accounts, message, now, replay_bump: marker.bump })
}

/// The second part of an invocation, given what the issuance delegate answered to
/// the claim's request: records the origin and publishes the event, or gives the
/// replay slot up again.
pub fn settle(ledger: &mut Ledger, claim: Claim, issuance: Issuance) -> (r: Result<Receipt, Aborted>)
    ensures
        final(ledger)@ == settled(old(ledger)@, claim@, issuance).ledger,
        result_view(r) == settled(old(ledger)@, claim@, issuance).result,
{
    let accounts = claim.accounts;
    let request = mint_request(&accounts);
    match issuance {
        Issuance::Failed(code) => {
            ledger.release(&accounts.replay_marker);
            return Err(Aborted { stage: Stage::ReplayClaimed, cause: Cause::Collaborator(code) });
        },
        Issuance::Done => {},
    }
    let origin_data = ledger.data(&accounts.nft_origin);
    let derived_origin = derive_nft_origin_pda(&claim.message.token_id);
    let step = match register_origin(
        &accounts.nft_origin,
        derived_origin,
        origin_data.as_slice(),
        &claim.message,
        claim.now,
    ) {
        Err(code) => {
            ledger.release(&accounts.replay_marker);
            return Err(Aborted { stage: Stage::Minted, cause: Cause::Rejected(code) });
        },
        Ok(step) => step,
    };
    let origin_bump: u8 = match derived_origin {
        Some((_, bump)) => bump,
        None => 0,
    };
    let origin: Option<CreateAccount> = match step {
        Some(bytes) => {
            proof {
                lemma_parse_of_nft_origin_data(origin_of(claim@.message, claim.now, origin_bump));
            }
            let request = CreateAccount {
                payer: accounts.payer,
                key: accounts.nft_origin,
                space: bytes.len() as u64,
                owner: ID,
                bump: origin_bump,
            };
            let written = ledger.allocate(accounts.nft_origin, bytes);
            assert(written);
            Some(request)
        },
        None => None,
    };
    let event = mint_event(&claim.message, claim.now);
    ledger.record_issuance(request);
    ledger.publish(event);
    Ok(
        Receipt {
            marker: marker_allocation(&accounts, claim.replay_bump),
            origin,
            mint: request,
            event,
        },
    )
}

/// Handles one incoming transfer on the ledger, given what the issuance delegate
/// answers to its request. The invocation either goes through, and the ledger then
/// holds the message's replay marker, the issuance, the token's origin record and
/// the audit event; or it is aborted, and the ledger is as it was.
///
/// A host that undoes an invocation whose later steps fail asks the delegate after
/// this call and passes `Issuance::Done`. A host that cannot calls `claim`, asks the
/// delegate, and calls `settle` with the answer.
pub fn handler(
    ledger: &mut Ledger,
    accounts: &HandleIncoming,
    payload: &[u8],
    now: i64,
    issuance: Issuance,
) -> (r: Result<Receipt, Aborted>)
    ensures
        final(ledger)@ == handled(old(ledger)@, accounts@, payload@, now, issuance).ledger,
        result_view(r) == handled(old(ledger)@, accounts@, payload@, now, issuance).result,
{
    match claim(ledger, accounts, payload, now) {
        Err(e) => {
            proof {
                claim_then_settle(old(ledger)@, accounts@, payload@, now, issuance);
            }
            Err(e)
        },
        Ok(claim) => {
            proof {
                claim_then_settle(old(ledger)@, accounts@, payload@, now, issuance);
            }
            settle(ledger, claim, issuance)
        },
    }
}

} // verus!
