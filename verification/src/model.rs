//! What the locker does, stated over mathematical values: its state, the
//! effect of each administrative call, and the two transfer flows.

use vstd::prelude::*;
use vstd::utf8::encode_utf8;
use crate::access::authorized;
use crate::account::near_account_id_valid;
use crate::codec::{parse_payload, payload_wire};
use crate::error::Error;
use crate::hexstr::receiver_value_of;
use crate::message::{ContentView, ContextView, LedgerCallView, LedgerReply, RequestMessageView};
use crate::payload::{value_of, AddressView, ItemView, ValueView};
use crate::registry::{
    routes_from, senders_from, DestinationEntryView, Route, RouteKey, SenderKey,
};
use crate::sqos::{inserted, removed, replaced, types_unique, SQoSItemView, SQoSType};

verus! {

/// The state of a locker.
pub struct LockerView {
    /// Who may administer the locker; nobody once ownership is renounced.
    pub owner: Option<Seq<u8>>,
    /// The messenger: it takes outbound messages and delivers inbound ones.
    pub cross_chain_contract: Option<Seq<u8>>,
    /// The token ledger.
    pub token_contract: Option<Seq<u8>>,
    pub destinations: Map<RouteKey, Route>,
    pub permitted: Set<SenderKey>,
    pub sqos: Seq<SQoSItemView>,
}

/// The state of a locker that `owner` has just made.
pub open spec fn initial(owner: Seq<u8>) -> LockerView {
    LockerView {
        owner: Some(owner),
        cross_chain_contract: None,
        token_contract: None,
        destinations: Map::empty(),
        permitted: Set::empty(),
        sqos: Seq::empty(),
    }
}

/// The state of a locker as it is stored: the tables as lists.
pub struct LockerRecordView {
    pub owner: Option<Seq<u8>>,
    pub cross_chain_contract: Option<Seq<u8>>,
    pub token_contract: Option<Seq<u8>>,
    pub destinations: Seq<DestinationEntryView>,
    pub permitted: Seq<SenderKey>,
    pub sqos: Seq<SQoSItemView>,
}

/// The state that a record holds. A record whose policy has two directives
/// of the same kind holds none.
pub open spec fn restored(record: LockerRecordView) -> Result<LockerView, Error> {
    if types_unique(record.sqos) {
        Ok(
            LockerView {
                owner: record.owner,
                cross_chain_contract: record.cross_chain_contract,
                token_contract: record.token_contract,
                destinations: routes_from(record.destinations),
                permitted: senders_from(record.permitted),
                sqos: record.sqos,
            },
        )
    } else {
        Err(Error::DuplicateQoSType)
    }
}

/// The calls that only the owner may make.
pub enum AdminCall {
    RenounceOwnership,
    TransferOwnership { new_owner: Seq<u8> },
    SetCrossChainContract { account: Seq<u8> },
    SetTokenContract { account: Seq<u8> },
    RegisterDestContract {
        chain_name: Seq<char>,
        action: Seq<char>,
        contract: Seq<char>,
        dest_action: Seq<char>,
    },
    RegisterPermittedSender { chain_name: Seq<char>, sender: Seq<char>, action: Seq<char> },
    InsertSQoS { item: SQoSItemView },
    RemoveSQoS { qos_type: SQoSType },
    ClearSQoS,
    SetSQoS { items: Seq<SQoSItemView> },
}

/// What `call` makes of `state` when the owner makes it.
pub open spec fn applied(state: LockerView, call: AdminCall) -> Result<LockerView, Error> {
    match call {
        AdminCall::RenounceOwnership => Ok(LockerView { owner: None, ..state }),
        AdminCall::TransferOwnership { new_owner } => Ok(
            LockerView { owner: Some(new_owner), ..state },
        ),
        AdminCall::SetCrossChainContract { account } => Ok(
            LockerView { cross_chain_contract: Some(account), ..state },
        ),
        AdminCall::SetTokenContract { account } => Ok(
            LockerView { token_contract: Some(account), ..state },
        ),
        AdminCall::RegisterDestContract { chain_name, action, contract, dest_action } => Ok(
            LockerView {
                destinations: state.destinations.insert(
                    (chain_name, action),
                    (contract, dest_action),
                ),
                ..state
            },
        ),
        AdminCall::RegisterPermittedSender { chain_name, sender, action } => Ok(
            LockerView { permitted: state.permitted.insert((chain_name, sender, action)), ..state },
        ),
        AdminCall::InsertSQoS { item } => match inserted(state.sqos, item) {
            Ok(sqos) => Ok(LockerView { sqos, ..state }),
            Err(error) => Err(error),
        },
        AdminCall::RemoveSQoS { qos_type } => Ok(
            LockerView { sqos: removed(state.sqos, qos_type), ..state },
        ),
        AdminCall::ClearSQoS => Ok(LockerView { sqos: Seq::empty(), ..state }),
        AdminCall::SetSQoS { items } => match replaced(state.sqos, items) {
            Ok(sqos) => Ok(LockerView { sqos, ..state }),
            Err(error) => Err(error),
        },
    }
}

/// The state after `caller` has made `call`, and what `caller` is told. A
/// call that fails leaves the state as it was.
pub open spec fn admin_step(state: LockerView, caller: Seq<u8>, call: AdminCall) -> (
    LockerView,
    Result<(), Error>,
) {
    match authorized(state.owner, caller) {
        Err(error) => (state, Err(error)),
        Ok(_) => match applied(state, call) {
            Ok(next) => (next, Ok(())),
            Err(error) => (state, Err(error)),
        },
    }
}

/// An administrative call and who makes it.
pub struct Admin {
    pub caller: Seq<u8>,
    pub call: AdminCall,
}

/// The state after `calls` have been made one after the other.
pub open spec fn admin_run(state: LockerView, calls: Seq<Admin>) -> LockerView
    decreases calls.len(),
{
    if calls.len() == 0 {
        state
    } else {
        admin_step(admin_run(state, calls.drop_last()), calls.last().caller, calls.last().call).0
    }
}

/// The name of the item that holds the receiver.
pub open spec fn key_to() -> Seq<char> {
    "to"@
}

/// The name of the item that holds the amount.
pub open spec fn key_num() -> Seq<char> {
    "num"@
}

/// The action under which a transfer asked for by a holder is routed.
pub open spec fn action_receive_token() -> Seq<char> {
    "receive_token"@
}

/// The action under which a transfer made by sending tokens to the locker is
/// routed.
pub open spec fn action_transfer_token() -> Seq<char> {
    "transfer_token"@
}

/// An outbound transfer that has been accepted and waits for the ledger to
/// confirm the burn.
pub struct OutboundTransferView {
    pub burn: LedgerCallView,
    pub messenger: Seq<u8>,
    pub to_chain: Seq<char>,
    pub action: Seq<char>,
    pub to: ValueView,
    pub num: u128,
}

/// The transfer that starts when `caller` asks for `num` tokens to go to
/// `to_address` on `chain_name`: both collaborators must be known, and the
/// burn is from `caller`.
pub open spec fn transfer_started(
    state: LockerView,
    caller: Seq<u8>,
    chain_name: Seq<char>,
    to_address: AddressView,
    num: u128,
) -> Result<OutboundTransferView, Error> {
    if state.token_contract is None {
        Err(Error::TokenContractNotSet)
    } else if state.cross_chain_contract is None {
        Err(Error::CrossChainContractNotSet)
    } else {
        Ok(
            OutboundTransferView {
                burn: LedgerCallView {
                    token: state.token_contract.unwrap(),
                    account: caller,
                    amount: num,
                },
                messenger: state.cross_chain_contract.unwrap(),
                to_chain: chain_name,
                action: action_receive_token(),
                to: ValueView::Address(to_address),
                num,
            },
        )
    }
}

/// The transfer that starts when the ledger tells the locker that it was sent
/// `amount` tokens along with a request to move them to `receiver` on
/// `to_chain`: only the ledger may say so, and the burn is from the locker's
/// own account.
pub open spec fn ft_transfer_started(
    state: LockerView,
    predecessor: Seq<u8>,
    current_account: Seq<u8>,
    amount: u128,
    receiver: Seq<char>,
    to_chain: Seq<char>,
) -> Result<OutboundTransferView, Error> {
    if state.token_contract is None {
        Err(Error::TokenContractNotSet)
    } else if state.token_contract != Some(predecessor) {
        Err(Error::AuthorizationError)
    } else if state.cross_chain_contract is None {
        Err(Error::CrossChainContractNotSet)
    } else {
        Ok(
            OutboundTransferView {
                burn: LedgerCallView { token: predecessor, account: current_account, amount },
                messenger: state.cross_chain_contract.unwrap(),
                to_chain,
                action: action_transfer_token(),
                to: receiver_value_of(receiver),
                num: amount,
            },
        )
    }
}

/// The body of the message that asks for `num` tokens to be minted to `to`.
pub open spec fn transfer_body(to: ValueView, num: u128) -> Seq<ItemView> {
    seq![
        ItemView { key: key_to(), value: to },
        ItemView { key: key_num(), value: ValueView::Uint128(num) },
    ]
}

/// The message to send once the ledger has answered the burn of `transfer`
/// with `reply`. There is one only if the burn was done and the transfer has
/// a route; it carries the policy in force.
pub open spec fn dispatched(
    state: LockerView,
    transfer: OutboundTransferView,
    reply: LedgerReply,
) -> Result<RequestMessageView, Error> {
    match reply.spec_outcome() {
        Err(error) => Err(error),
        Ok(_) => if !state.destinations.contains_key((transfer.to_chain, transfer.action)) {
            Err(Error::MethodNotRegistered)
        } else {
            let route = state.destinations[(transfer.to_chain, transfer.action)];
            Ok(
                RequestMessageView {
                    messenger: transfer.messenger,
                    to_chain: transfer.to_chain,
                    sqos: state.sqos,
                    content: ContentView {
                        target_contract: route.0,
                        target_action: route.1,
                        payload: transfer_body(transfer.to, transfer.num),
                    },
                    data: payload_wire(transfer_body(transfer.to, transfer.num)),
                },
            )
        },
    }
}

/// Whether an inbound message is let in: it must be handed over by the
/// messenger, and its sender must be permitted to call its action.
pub open spec fn authenticated(state: LockerView, caller: Seq<u8>, context: ContextView) -> Result<
    (),
    Error,
> {
    if state.cross_chain_contract != Some(caller) {
        Err(Error::AuthorizationError)
    } else if !state.permitted.contains(
        (context.from_chain, context.sender_contract, context.action),
    ) {
        Err(Error::AuthorizationError)
    } else {
        Ok(())
    }
}

/// The mint that a message body asks for, where the receiver is a native
/// address.
pub open spec fn mint_of(token: Seq<u8>, items: Seq<ItemView>) -> Result<LedgerCallView, Error> {
    match (value_of(items, key_to()), value_of(items, key_num())) {
        (
            Some(ValueView::Address(AddressView::Native(account))),
            Some(ValueView::Uint128(amount)),
        ) => Ok(LedgerCallView { token, account, amount }),
        _ => Err(Error::CodecError),
    }
}

/// The mint that a message body asks for, where the receiver is the name of
/// an account, which must be a valid one.
pub open spec fn named_mint_of(token: Seq<u8>, items: Seq<ItemView>) -> Result<
    LedgerCallView,
    Error,
> {
    match (value_of(items, key_to()), value_of(items, key_num())) {
        (Some(ValueView::Text(name)), Some(ValueView::Uint128(amount))) => if near_account_id_valid(
            encode_utf8(name),
        ) {
            Ok(LedgerCallView { token, account: encode_utf8(name), amount })
        } else {
            Err(Error::CodecError)
        },
        _ => Err(Error::CodecError),
    }
}

/// The mint to make when `caller` delivers `wire` with `context`, where the
/// receiver is a native address.
pub open spec fn received(
    state: LockerView,
    caller: Seq<u8>,
    wire: Seq<u8>,
    context: ContextView,
) -> Result<LedgerCallView, Error> {
    match authenticated(state, caller, context) {
        Err(error) => Err(error),
        Ok(_) => if state.token_contract is None {
            Err(Error::TokenContractNotSet)
        } else {
            match parse_payload(wire) {
                None => Err(Error::CodecError),
                Some(items) => mint_of(state.token_contract.unwrap(), items),
            }
        },
    }
}

/// The mint to make when `caller` delivers `wire` with `context`, where the
/// receiver is the name of an account.
pub open spec fn named_received(
    state: LockerView,
    caller: Seq<u8>,
    wire: Seq<u8>,
    context: ContextView,
) -> Result<LedgerCallView, Error> {
    match authenticated(state, caller, context) {
        Err(error) => Err(error),
        Ok(_) => if state.token_contract is None {
            Err(Error::TokenContractNotSet)
        } else {
            match parse_payload(wire) {
                None => Err(Error::CodecError),
                Some(items) => named_mint_of(state.token_contract.unwrap(), items),
            }
        },
    }
}

} // verus!
