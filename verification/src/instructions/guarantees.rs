//! What holds of every invocation of the handler, on every ledger.

use crate::instructions::handle_incoming::{
    aborted, authenticated, bound_to, claimed, handled, mint_event_of, mint_request_of,
    origin_of, replay_guarded, Aborted, Cause, ClaimView, ErrorCode, HandleIncomingView, Issuance, Stage,
};
use crate::ledger::LedgerView;
use crate::pda::{gateway_config_pda, nft_origin_pda, nft_origin_seeds, replay_marker_pda};
use crate::state::nft_origin::{
    lemma_parse_of_nft_origin_data, lemma_truncated_payload_rejected, lemma_wire_of_parse,
    parse_payload, payload_wire, PayloadView,
};
use crate::state::replay::{lemma_replay_marker_data_len, replay_marker_data, MarkerView};
use vstd::prelude::*;

verus! {

/// Whether the invocation gets past the gateway check on this ledger.
pub open spec fn gateway_accepted(ledger: LedgerView, a: HandleIncomingView) -> bool {
    authenticated(a.gateway_config, gateway_config_pda(), ledger.data(a.gateway_config)) is Ok
}

/// Whether `later` holds every slot of `earlier`, with the same bytes.
pub open spec fn keeps(later: LedgerView, earlier: LedgerView) -> bool {
    forall|key: Seq<u8>| #[trigger]
        earlier.slots.dom().contains(key) ==> later.slots.dom().contains(key) && later.slots[key]
            == earlier.slots[key]
}

/// Exactly once: when an invocation has gone through, its unit was issued once,
/// and no invocation with the same message goes through again, neither on the
/// ledger it left nor on any later one that keeps its slots, whatever accounts are
/// offered and whatever the issuance delegate would answer. It changes nothing, and
/// where it offers the same gateway and replay slots it is turned away as a replay.
pub proof fn exactly_once(
    ledger: LedgerView,
    a: HandleIncomingView,
    payload: Seq<u8>,
    now: i64,
    issuance: Issuance,
    later_ledger: LedgerView,
    b: HandleIncomingView,
    later: i64,
    issuance_later: Issuance,
)
    requires
        handled(ledger, a, payload, now, issuance).result is Ok,
        keeps(later_ledger, handled(ledger, a, payload, now, issuance).ledger),
    ensures
        ({
            let first = handled(ledger, a, payload, now, issuance);
            let second = handled(later_ledger, b, payload, later, issuance_later);
            &&& first.ledger.issued == ledger.issued.push(mint_request_of(a))
            &&& second.result is Err
            &&& second.ledger == later_ledger
            &&& b.gateway_config == a.gateway_config && b.replay_marker == a.replay_marker
                ==> second == aborted(
                later_ledger,
                Stage::Decoded,
                Cause::Rejected(ErrorCode::ReplayAttack),
            )
        }),
{
    let p = parse_payload(payload)->0;
    lemma_wire_of_parse(payload);
    let marker = MarkerView {
        token_id: p.token_id,
        nonce: p.nonce,
        created_at: now,
        bump: replay_marker_pda(p.token_id, p.nonce).unwrap().1,
    };
    lemma_replay_marker_data_len(marker);
    let first = handled(ledger, a, payload, now, issuance);
    assert(first.ledger.slots.dom().contains(a.replay_marker));
    assert(first.ledger.slots[a.replay_marker] == replay_marker_data(marker));
    assert(first.ledger.slots.dom().contains(a.gateway_config));
    assert(first.ledger.slots[a.gateway_config] == ledger.data(a.gateway_config));
}

/// While a claim waits for the issuance delegate, a second claim for the same
/// message is turned away as a replay and changes nothing.
pub proof fn claim_excludes_claim(
    ledger: LedgerView,
    a: HandleIncomingView,
    payload: Seq<u8>,
    now: i64,
    later: i64,
)
    requires
        claimed(ledger, a, payload, now).result is Ok,
    ensures
        ({
            let first = claimed(ledger, a, payload, now);
            let second = claimed(first.ledger, a, payload, later);
            &&& second.ledger == first.ledger
            &&& second.result == Err::<ClaimView, Aborted>(
                Aborted { stage: Stage::Decoded, cause: Cause::Rejected(ErrorCode::ReplayAttack) },
            )
        }),
{
    let p = parse_payload(payload)->0;
    lemma_wire_of_parse(payload);
    let marker = MarkerView {
        token_id: p.token_id,
        nonce: p.nonce,
        created_at: now,
        bump: replay_marker_pda(p.token_id, p.nonce).unwrap().1,
    };
    lemma_replay_marker_data_len(marker);
}

/// A replay marker is there when, and only when, its message was processed: after
/// an invocation that offers the message's own replay slot, the slot holds
/// something if it did before or the invocation went through, and not else.
pub proof fn marker_exists_iff_processed(
    ledger: LedgerView,
    a: HandleIncomingView,
    payload: Seq<u8>,
    now: i64,
    issuance: Issuance,
)
    requires
        ledger.wf(),
        parse_payload(payload) is Some,
        bound_to(
            a.replay_marker,
            replay_marker_pda(parse_payload(payload)->0.token_id, parse_payload(payload)->0.nonce),
        ),
    ensures
        ({
            let after = handled(ledger, a, payload, now, issuance);
            after.ledger.data(a.replay_marker).len() > 0 <==> (ledger.data(a.replay_marker).len() > 0
                || after.result is Ok)
        }),
{
    let after = handled(ledger, a, payload, now, issuance);
    if after.result is Ok {
        let p = parse_payload(payload)->0;
        lemma_wire_of_parse(payload);
        let marker = MarkerView {
            token_id: p.token_id,
            nonce: p.nonce,
            created_at: now,
            bump: replay_marker_pda(p.token_id, p.nonce).unwrap().1,
        };
        lemma_replay_marker_data_len(marker);
    }
}

/// Once a replay slot holds anything, no invocation that offers it gets further
/// than the replay check.
pub proof fn claimed_slot_stays_claimed(
    ledger: LedgerView,
    a: HandleIncomingView,
    payload: Seq<u8>,
    now: i64,
    issuance: Issuance,
)
    requires
        ledger.data(a.replay_marker).len() > 0,
    ensures
        handled(ledger, a, payload, now, issuance).result is Err,
        handled(ledger, a, payload, now, issuance).ledger == ledger,
{
}

/// Address binding: a message whose offered replay slot is not the one derived
/// from its token id and nonce is turned away with `ReplayPdaMismatch`, whatever
/// the ledger holds.
pub proof fn address_binding(
    ledger: LedgerView,
    a: HandleIncomingView,
    payload: Seq<u8>,
    now: i64,
    issuance: Issuance,
)
    requires
        gateway_accepted(ledger, a),
        parse_payload(payload) is Some,
        !bound_to(
            a.replay_marker,
            replay_marker_pda(parse_payload(payload)->0.token_id, parse_payload(payload)->0.nonce),
        ),
    ensures
        handled(ledger, a, payload, now, issuance) == aborted(
            ledger,
            Stage::Decoded,
            Cause::Rejected(ErrorCode::ReplayPdaMismatch),
        ),
{
}

/// Decode before trust: bytes that are no message are turned away with
/// `InvalidPayload` before anything is written, whatever slots are offered with
/// them.
pub proof fn decode_before_trust(
    ledger: LedgerView,
    a: HandleIncomingView,
    payload: Seq<u8>,
    now: i64,
    issuance: Issuance,
)
    requires
        gateway_accepted(ledger, a),
        parse_payload(payload) is None,
    ensures
        handled(ledger, a, payload, now, issuance) == aborted(
            ledger,
            Stage::Authenticated,
            Cause::Rejected(ErrorCode::InvalidPayload),
        ),
{
}

/// Bytes that are no message change nothing, whatever slots are offered with them:
/// the invocation is turned away at the gateway check or at decoding.
pub proof fn undecodable_message_changes_nothing(
    ledger: LedgerView,
    a: HandleIncomingView,
    payload: Seq<u8>,
    now: i64,
    issuance: Issuance,
)
    requires
        parse_payload(payload) is None,
    ensures
        handled(ledger, a, payload, now, issuance).ledger == ledger,
        handled(ledger, a, payload, now, issuance).result matches Err(e) && (e.cause
            == Cause::Rejected(ErrorCode::UnauthorizedGateway) || e.cause == Cause::Rejected(
            ErrorCode::InvalidPayload,
        )),
{
}

/// A message that was cut short, in its text or anywhere else, is no message.
pub proof fn truncated_message_is_turned_away(
    ledger: LedgerView,
    a: HandleIncomingView,
    message: PayloadView,
    kept: int,
    now: i64,
    issuance: Issuance,
)
    requires
        gateway_accepted(ledger, a),
        message.wf(),
        0 <= kept < payload_wire(message).len(),
    ensures
        handled(ledger, a, payload_wire(message).subrange(0, kept), now, issuance) == aborted(
            ledger,
            Stage::Authenticated,
            Cause::Rejected(ErrorCode::InvalidPayload),
        ),
{
    lemma_truncated_payload_rejected(message, kept);
}

/// The address of a token's origin record does not depend on the nonce: two
/// messages about one token have the same.
pub proof fn origin_address_ignores_nonce(p: PayloadView, q: PayloadView)
    requires
        p.token_id == q.token_id,
    ensures
        nft_origin_pda(p.token_id) == nft_origin_pda(q.token_id),
        nft_origin_seeds(p.token_id) == nft_origin_seeds(q.token_id),
{
}

/// Provenance stability: two transfers of one foreign token that go through, with
/// whatever nonces and on whatever ledgers, were offered the same origin slot: the
/// one derived from the token id alone.
pub proof fn provenance_stability(
    ledger: LedgerView,
    a: HandleIncomingView,
    payload: Seq<u8>,
    now: i64,
    issuance: Issuance,
    other_ledger: LedgerView,
    b: HandleIncomingView,
    other_payload: Seq<u8>,
    other_now: i64,
    other_issuance: Issuance,
)
    requires
        handled(ledger, a, payload, now, issuance).result is Ok,
        handled(other_ledger, b, other_payload, other_now, other_issuance).result is Ok,
        parse_payload(payload)->0.token_id == parse_payload(other_payload)->0.token_id,
    ensures
        a.nft_origin == b.nft_origin,
        bound_to(a.nft_origin, nft_origin_pda(parse_payload(payload)->0.token_id)),
{
}

/// Atomic abort: an invocation that does not go through leaves the ledger as it
/// was, the replay slot included.
pub proof fn atomic_abort(
    ledger: LedgerView,
    a: HandleIncomingView,
    payload: Seq<u8>,
    now: i64,
    issuance: Issuance,
)
    requires
        handled(ledger, a, payload, now, issuance).result is Err,
    ensures
        handled(ledger, a, payload, now, issuance).ledger == ledger,
{
}

/// A failure of the issuance delegate aborts the invocation at the stage where the
/// replay slot was claimed, and is handed on as it came.
pub proof fn failed_issuance_aborts(
    ledger: LedgerView,
    a: HandleIncomingView,
    payload: Seq<u8>,
    now: i64,
    code: u64,
)
    requires
        gateway_accepted(ledger, a),
        parse_payload(payload) is Some,
        replay_guarded(
            a.replay_marker,
            replay_marker_pda(parse_payload(payload)->0.token_id, parse_payload(payload)->0.nonce),
            ledger.data(a.replay_marker),
            parse_payload(payload)->0,
            now,
        ) is Ok,
    ensures
        handled(ledger, a, payload, now, Issuance::Failed(code)) == aborted(
            ledger,
            Stage::ReplayClaimed,
            Cause::Collaborator(code),
        ),
{
}

/// Audit completeness: the audit log grows by the event of this transfer when the
/// invocation goes through, and stays as it was when it does not.
pub proof fn audit_completeness(
    ledger: LedgerView,
    a: HandleIncomingView,
    payload: Seq<u8>,
    now: i64,
    issuance: Issuance,
)
    ensures
        ({
            let after = handled(ledger, a, payload, now, issuance);
            match after.result {
                Ok(receipt) => {
                    &&& after.ledger.events == ledger.events.push(receipt.event)
                    &&& receipt.event == mint_event_of(parse_payload(payload)->0, now)
                },
                Err(_) => after.ledger.events == ledger.events,
            }
        }),
{
}

/// The stages in order: an invocation publishes its event exactly when it ends at
/// the last stage, and an invocation that was aborted ended before the origin was
/// recorded.
pub proof fn event_marks_the_last_stage(
    ledger: LedgerView,
    a: HandleIncomingView,
    payload: Seq<u8>,
    now: i64,
    issuance: Issuance,
)
    ensures
        ({
            let after = handled(ledger, a, payload, now, issuance);
            &&& after.stage() == Stage::Emitted <==> after.ledger.events.len() == ledger.events.len() + 1
            &&& after.stage() != Stage::Emitted <==> after.ledger == ledger
            &&& after.stage() != Stage::OriginRecorded
        }),
{
    let after = handled(ledger, a, payload, now, issuance);
    if after.result is Ok {
        assert(after.ledger.events.len() == ledger.events.len() + 1);
    }
}

/// Written once: what a slot holds before an invocation, it holds after it.
pub proof fn slots_are_written_once(
    ledger: LedgerView,
    a: HandleIncomingView,
    payload: Seq<u8>,
    now: i64,
    issuance: Issuance,
)
    requires
        ledger.wf(),
    ensures
        keeps(handled(ledger, a, payload, now, issuance).ledger, ledger),
        handled(ledger, a, payload, now, issuance).ledger.wf(),
{
    let after = handled(ledger, a, payload, now, issuance);
    if after.result is Ok {
        let p = parse_payload(payload)->0;
        lemma_wire_of_parse(payload);
        let marker = MarkerView {
            token_id: p.token_id,
            nonce: p.nonce,
            created_at: now,
            bump: replay_marker_pda(p.token_id, p.nonce).unwrap().1,
        };
        lemma_replay_marker_data_len(marker);
        let origin = origin_of(p, now, nft_origin_pda(p.token_id).unwrap().1);
        lemma_parse_of_nft_origin_data(origin);
    }
}

} // verus!
