//! What holds of the locker whatever is done to it.

use vstd::prelude::*;
use vstd::utf8::{encode_utf8, is_ascii_chars_encode_utf8};
use crate::account::near_account_id_valid;
use crate::codec::{item_fits, lemma_decode_encode, payload_fits, value_fits};
use crate::error::Error;
use crate::message::{ContextView, LedgerCallView, LedgerReply};
use crate::model::{
    admin_run, admin_step, authenticated, dispatched, initial, key_num, key_to, named_received,
    received, transfer_body, Admin, AdminCall, LockerView, OutboundTransferView,
};
use crate::payload::{first_named, keys_unique, value_of, AddressView, ValueView};
use crate::sqos::{first_of_type, has_type, removed, types_unique, SQoSItemView, SQoSType};

verus! {

/// No administrative call, whoever makes it and however it ends, leaves two
/// directives of the same kind in the delivery policy.
pub proof fn lemma_policy_kinds_stay_unique(state: LockerView, caller: Seq<u8>, call: AdminCall)
    requires
        types_unique(state.sqos),
    ensures
        types_unique(admin_step(state, caller, call).0.sqos),
{
    let next = admin_step(state, caller, call).0;
    if next != state {
        match call {
            AdminCall::RemoveSQoS { qos_type } => {
                if exists|at: int| first_of_type(state.sqos, qos_type, at) {
                    let gone = choose|at: int| first_of_type(state.sqos, qos_type, at);
                    assert(next.sqos == state.sqos.remove(gone));
                    assert forall|i: int, j: int| 0 <= i < j < next.sqos.len() implies (
                    #[trigger] next.sqos[i]).qos_type != (#[trigger] next.sqos[j]).qos_type by {
                        let from_i = if i < gone {
                            i
                        } else {
                            i + 1
                        };
                        let from_j = if j < gone {
                            j
                        } else {
                            j + 1
                        };
                        assert(next.sqos[i] == state.sqos[from_i]);
                        assert(next.sqos[j] == state.sqos[from_j]);
                    }
                }
            },
            _ => {},
        }
    }
}

/// Taking a kind out of a policy twice is taking it out once, as long as the
/// policy has no kind twice.
pub proof fn lemma_remove_is_idempotent(items: Seq<SQoSItemView>, qos_type: SQoSType)
    requires
        types_unique(items),
    ensures
        !has_type(removed(items, qos_type), qos_type),
        removed(removed(items, qos_type), qos_type) == removed(items, qos_type),
{
    let once = removed(items, qos_type);
    if exists|at: int| first_of_type(items, qos_type, at) {
        let gone = choose|at: int| first_of_type(items, qos_type, at);
        assert forall|at: int| 0 <= at < once.len() implies (#[trigger] once[at]).qos_type
            != qos_type by {
            let from = if at < gone {
                at
            } else {
                at + 1
            };
            assert(once[at] == items[from]);
            if gone < from {
                assert(items[gone].qos_type != items[from].qos_type);
            }
        }
    } else {
        assert forall|at: int| 0 <= at < items.len() implies (#[trigger] items[at]).qos_type
            != qos_type by {
            if items[at].qos_type == qos_type {
                lemma_some_of_type_is_first(items, qos_type, at);
            }
        }
    }
}

proof fn lemma_some_of_type_is_first(items: Seq<SQoSItemView>, qos_type: SQoSType, at: int)
    requires
        0 <= at < items.len(),
        items[at].qos_type == qos_type,
    ensures
        exists|first: int| first_of_type(items, qos_type, first),
    decreases at,
{
    if exists|before: int| 0 <= before < at && (#[trigger] items[before]).qos_type == qos_type {
        let before = choose|before: int|
            0 <= before < at && (#[trigger] items[before]).qos_type == qos_type;
        lemma_some_of_type_is_first(items, qos_type, before);
    } else {
        assert(first_of_type(items, qos_type, at));
    }
}

/// Starting from a policy without two directives of the same kind, no
/// sequence of administrative calls (insertions, removals, replacements and
/// clearings among them) leads to one that has two.
pub proof fn lemma_policy_invariant(state: LockerView, calls: Seq<Admin>)
    requires
        types_unique(state.sqos),
    ensures
        types_unique(admin_run(state, calls).sqos),
    decreases calls.len(),
{
    if calls.len() > 0 {
        lemma_policy_invariant(state, calls.drop_last());
        lemma_policy_kinds_stay_unique(
            admin_run(state, calls.drop_last()),
            calls.last().caller,
            calls.last().call,
        );
    }
}

/// The policy of a locker never holds two directives of the same kind,
/// whatever was done to the locker since it was made.
pub proof fn lemma_policy_invariant_since_new(owner: Seq<u8>, calls: Seq<Admin>)
    ensures
        types_unique(admin_run(initial(owner), calls).sqos),
{
    lemma_policy_invariant(initial(owner), calls);
}

/// Every administrative call of a caller who is not the owner fails with
/// `AuthorizationError` and changes nothing.
pub proof fn lemma_non_owner_is_refused(state: LockerView, caller: Seq<u8>, call: AdminCall)
    requires
        state.owner != Some(caller),
    ensures
        admin_step(state, caller, call) == (state, Err::<(), Error>(Error::AuthorizationError)),
{
}

/// Once ownership is renounced, every administrative call that follows fails
/// with `AuthorizationError`, whoever makes it (the former owner too) and
/// whatever was tried in between, and the locker's state no longer changes.
pub proof fn lemma_renouncement_is_final(state: LockerView, caller: Seq<u8>, later: Seq<Admin>)
    requires
        admin_step(state, caller, AdminCall::RenounceOwnership).1 is Ok,
    ensures
        ({
            let renounced = admin_step(state, caller, AdminCall::RenounceOwnership).0;
            &&& renounced.owner is None
            &&& admin_run(renounced, later) == renounced
            &&& forall|at: int|
                0 <= at < later.len() ==> admin_step(
                    admin_run(renounced, #[trigger] later.take(at)),
                    later[at].caller,
                    later[at].call,
                ).1 == Err::<(), Error>(Error::AuthorizationError)
        }),
    decreases later.len(),
{
    let renounced = admin_step(state, caller, AdminCall::RenounceOwnership).0;
    if later.len() > 0 {
        lemma_renouncement_is_final(state, caller, later.drop_last());
        lemma_non_owner_is_refused(
            admin_run(renounced, later.drop_last()),
            later.last().caller,
            later.last().call,
        );
    }
    assert forall|at: int| 0 <= at < later.len() implies admin_step(
        admin_run(renounced, #[trigger] later.take(at)),
        later[at].caller,
        later[at].call,
    ).1 == Err::<(), Error>(Error::AuthorizationError) by {
        lemma_renouncement_is_final(state, caller, later.take(at));
        lemma_non_owner_is_refused(renounced, later[at].caller, later[at].call);
    }
}

/// The body of a transfer message names each of its two items once.
pub proof fn lemma_transfer_body_keys_unique(to: ValueView, num: u128)
    ensures
        keys_unique(transfer_body(to, num)),
        value_of(transfer_body(to, num), key_to()) == Some(to),
        value_of(transfer_body(to, num), key_num()) == Some(ValueView::Uint128(num)),
{
    reveal_strlit("to");
    reveal_strlit("num");
    let body = transfer_body(to, num);
    assert(key_to().len() == 2);
    assert(key_num().len() == 3);
    assert(body[0].key == key_to());
    assert(body[1].key == key_num());
    assert(first_named(body, key_to(), 0));
    assert(first_named(body, key_num(), 1));
    let to_at = choose|at: int| first_named(body, key_to(), at);
    let num_at = choose|at: int| first_named(body, key_num(), at);
    assert(to_at == 0);
    assert(num_at == 1);
}

/// What one locker sends, another reads as it was meant: a message made for
/// a transfer, once it is delivered by the messenger from a permitted
/// sender, asks for the mint of the amount that was burnt, to the receiver
/// that was named. That is so where the receiver is of the kind that the
/// receiving side reads, a native address on one side and the name of an
/// account on the other; a receiver of another kind is refused with
/// `CodecError`.
pub proof fn lemma_delivery_mints_what_was_sent(
    sender: LockerView,
    transfer: OutboundTransferView,
    receiver: LockerView,
    caller: Seq<u8>,
    context: ContextView,
)
    requires
        dispatched(sender, transfer, LedgerReply::Done) is Ok,
        value_fits(transfer.to),
        authenticated(receiver, caller, context) is Ok,
        receiver.token_contract is Some,
    ensures
        ({
            let data = dispatched(sender, transfer, LedgerReply::Done)->Ok_0.data;
            let token = receiver.token_contract.unwrap();
            &&& received(receiver, caller, data, context) == match transfer.to {
                ValueView::Address(AddressView::Native(account)) => Ok(
                    LedgerCallView { token, account, amount: transfer.num },
                ),
                _ => Err(Error::CodecError),
            }
            &&& named_received(receiver, caller, data, context) == match transfer.to {
                ValueView::Text(name) => if near_account_id_valid(encode_utf8(name)) {
                    Ok(LedgerCallView { token, account: encode_utf8(name), amount: transfer.num })
                } else {
                    Err(Error::CodecError)
                },
                _ => Err(Error::CodecError),
            }
        }),
{
    let body = transfer_body(transfer.to, transfer.num);
    lemma_transfer_body_keys_unique(transfer.to, transfer.num);
    reveal_strlit("to");
    reveal_strlit("num");
    assert(payload_fits(body)) by {
        is_ascii_chars_encode_utf8(key_to());
        is_ascii_chars_encode_utf8(key_num());
        assert(item_fits(body[0]));
        assert(item_fits(body[1]));
    }
    lemma_decode_encode(body);
}

/// Unless the ledger has confirmed the burn, there is no message to send:
/// whatever else the ledger replied is the error that comes back in its
/// place.
pub proof fn lemma_no_message_without_burn(
    state: LockerView,
    transfer: OutboundTransferView,
    reply: LedgerReply,
)
    requires
        reply != LedgerReply::Done,
    ensures
        dispatched(state, transfer, reply) is Err,
        reply.spec_outcome() is Err,
        dispatched(state, transfer, reply)->Err_0 == reply.spec_outcome()->Err_0,
{
}

/// A message whose sender is not registered as permitted is refused with
/// `AuthorizationError`, whoever delivers it and whatever it holds, so no
/// mint comes of it.
pub proof fn lemma_unpermitted_sender_is_refused(
    state: LockerView,
    caller: Seq<u8>,
    wire: Seq<u8>,
    context: ContextView,
)
    requires
        !state.permitted.contains((context.from_chain, context.sender_contract, context.action)),
    ensures
        received(state, caller, wire, context) == Err::<LedgerCallView, Error>(
            Error::AuthorizationError,
        ),
        named_received(state, caller, wire, context) == Err::<LedgerCallView, Error>(
            Error::AuthorizationError,
        ),
{
}

} // verus!
