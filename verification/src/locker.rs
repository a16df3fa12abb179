//! The locker: its state, the calls that administer it, and the two
//! transfer flows.
//!
//! A flow never calls the ledger or the messenger itself. An outbound
//! transfer is accepted first, which yields the burn to ask of the ledger;
//! the ledger's reply then decides whether there is a message to send. An
//! inbound message yields the mint to ask of the ledger, or is refused.

use vstd::prelude::*;
use vstd::string::*;
use crate::access::{authorized, AccessControl};
use crate::account::{account_view, is_valid_account_id, AccountId};
use crate::codec::{decode, encode};
use crate::error::Error;
use crate::hexstr::receiver_value;
use crate::laws::lemma_policy_kinds_stay_unique;
use crate::message::{Content, Context, LedgerCall, LedgerReply, RequestMessage, SendMessage};
use crate::model::{
    admin_step, authenticated, dispatched, ft_transfer_started, initial, mint_of, named_mint_of,
    named_received, received, restored, transfer_body, transfer_started, AdminCall,
    LockerRecordView, LockerView, OutboundTransferView,
};
use crate::payload::{Address, Payload, Value};
use crate::registry::{
    entries_view, routes_from, senders_from, senders_view, DestinationEntry, DestinationRegistry,
    PermittedEntry, PermittedSenders,
};
use crate::sqos::{items_view, types_unique, SQoS, SQoSItem, SQoSType};

verus! {

/// An outbound transfer that the locker has accepted. It holds the burn to
/// ask of the ledger, and what the message will say once the ledger has
/// confirmed it.
pub struct OutboundTransfer {
    burn: LedgerCall,
    messenger: AccountId,
    to_chain: String,
    action: String,
    to: Value,
    num: u128,
}

impl View for OutboundTransfer {
    type V = OutboundTransferView;

    closed spec fn view(&self) -> OutboundTransferView {
        OutboundTransferView {
            burn: self.burn@,
            messenger: self.messenger@,
            to_chain: self.to_chain@,
            action: self.action@,
            to: self.to@,
            num: self.num,
        }
    }
}

impl OutboundTransfer {
    /// The burn to ask of the ledger before anything is sent.
    pub fn burn(&self) -> (call: &LedgerCall)
        ensures
            call@ == self@.burn,
    {
        &self.burn
    }
}

/// The mint that `body` asks for, where the receiver is a native address:
/// the first item named `to` must be one, and the first named `num` a number.
pub fn mint_call(token: AccountId, body: &Payload) -> (call: Result<LedgerCall, Error>)
    ensures
        match mint_of(token@, body@) {
            Ok(view) => call matches Ok(made) && made@ == view,
            Err(error) => call matches Err(refusal) && refusal == error,
        },
{
    let to_key = "to".to_owned();
    let num_key = "num".to_owned();
    let account = match body.get_item(&to_key) {
        Some(Value::Address(Address::Native(account))) => account.clone(),
        _ => {
            return Err(Error::CodecError);
        },
    };
    let amount = match body.get_item(&num_key) {
        Some(Value::Uint128(amount)) => *amount,
        _ => {
            return Err(Error::CodecError);
        },
    };
    Ok(LedgerCall { token, account, amount })
}

/// The mint that `body` asks for, where the receiver is the name of an
/// account: the first item named `to` must be text that is a valid account
/// name, and the first named `num` a number.
pub fn named_mint_call(token: AccountId, body: &Payload) -> (call: Result<LedgerCall, Error>)
    ensures
        match named_mint_of(token@, body@) {
            Ok(view) => call matches Ok(made) && made@ == view,
            Err(error) => call matches Err(refusal) && refusal == error,
        },
{
    let to_key = "to".to_owned();
    let num_key = "num".to_owned();
    let account = match body.get_item(&to_key) {
        Some(Value::Text(name)) => AccountId::new(name.as_str().as_bytes_vec()),
        _ => {
            return Err(Error::CodecError);
        },
    };
    let amount = match body.get_item(&num_key) {
        Some(Value::Uint128(amount)) => *amount,
        _ => {
            return Err(Error::CodecError);
        },
    };
    if !is_valid_account_id(account.bytes.as_slice()) {
        return Err(Error::CodecError);
    }
    Ok(LedgerCall { token, account, amount })
}

/// The state of a locker as it is stored between calls.
#[derive(Debug, PartialEq, Eq)]
pub struct LockerRecord {
    pub owner: Option<AccountId>,
    pub cross_chain_contract: Option<AccountId>,
    pub token_contract: Option<AccountId>,
    pub destinations: Vec<DestinationEntry>,
    pub permitted: Vec<PermittedEntry>,
    pub sqos: Vec<SQoSItem>,
}

impl View for LockerRecord {
    type V = LockerRecordView;

    open spec fn view(&self) -> LockerRecordView {
        LockerRecordView {
            owner: account_view(self.owner),
            cross_chain_contract: account_view(self.cross_chain_contract),
            token_contract: account_view(self.token_contract),
            destinations: entries_view(self.destinations@),
            permitted: senders_view(self.permitted@),
            sqos: items_view(self.sqos@),
        }
    }
}

/// A token locker.
pub struct Locker {
    access: AccessControl,
    cross_chain_contract: Option<AccountId>,
    token_contract: Option<AccountId>,
    destinations: DestinationRegistry,
    permitted: PermittedSenders,
    sqos: SQoS,
}

impl View for Locker {
    type V = LockerView;

    closed spec fn view(&self) -> LockerView {
        LockerView {
            owner: self.access@,
            cross_chain_contract: account_view(self.cross_chain_contract),
            token_contract: account_view(self.token_contract),
            destinations: self.destinations@,
            permitted: self.permitted@,
            sqos: self.sqos@,
        }
    }
}

impl Locker {
    /// Whether no two directives of the delivery policy are of the same
    /// kind. A new locker is so, and no call makes it otherwise.
    pub open spec fn wf(&self) -> bool {
        types_unique(self@.sqos)
    }

    /// A locker owned by `owner`, which knows no collaborator, no route and
    /// no sender yet and has no delivery policy.
    pub fn new(owner: AccountId) -> (locker: Locker)
        ensures
            locker@ == initial(owner@),
            locker.wf(),
    {
        Locker {
            access: AccessControl::new(owner),
            cross_chain_contract: None,
            token_contract: None,
            destinations: DestinationRegistry::new(),
            permitted: PermittedSenders::new(),
            sqos: SQoS::new(),
        }
    }

    /// The locker in the state that `record` holds. A record whose policy
    /// has two directives of the same kind is refused.
    pub fn restore(record: LockerRecord) -> (locker: Result<Locker, Error>)
        ensures
            match restored(record@) {
                Ok(state) => locker matches Ok(made) && made@ == state && made.wf(),
                Err(error) => locker matches Err(refusal) && refusal == error,
            },
    {
        let mut sqos = SQoS::new();
        sqos.set(record.sqos)?;
        Ok(
            Locker {
                access: AccessControl::with_owner(record.owner),
                cross_chain_contract: record.cross_chain_contract,
                token_contract: record.token_contract,
                destinations: DestinationRegistry::from_entries(record.destinations),
                permitted: PermittedSenders::from_entries(record.permitted),
                sqos,
            },
        )
    }

    /// The state of the locker as a record. Unless the policy has come to
    /// hold two directives of the same kind, `restore` makes the same locker
    /// of it again.
    pub fn record(&self) -> (record: LockerRecord)
        ensures
            types_unique(self@.sqos) ==> restored(record@) == Ok::<LockerView, Error>(self@),
            record@.sqos == self@.sqos,
            record@.owner == self@.owner,
            record@.cross_chain_contract == self@.cross_chain_contract,
            record@.token_contract == self@.token_contract,
            routes_from(record@.destinations) == self@.destinations,
            senders_from(record@.permitted) == self@.permitted,
    {
        LockerRecord {
            owner: self.owner(),
            cross_chain_contract: self.get_cross_chain_contract_address(),
            token_contract: self.get_token_contract_address(),
            destinations: self.destinations.entries(),
            permitted: self.permitted.entries(),
            sqos: self.sqos.get(),
        }
    }

    /// Lets `caller` pass if it is the owner.
    pub fn only_owner(&self, caller: &AccountId) -> (passed: Result<(), Error>)
        ensures
            passed == authorized(self@.owner, caller@),
    {
        self.access.authorize(caller)
    }

    /// Gives up ownership for good: nobody can administer the locker
    /// afterwards.
    pub fn renounce_ownership(&mut self, caller: &AccountId) -> (done: Result<(), Error>)
        ensures
            (final(self)@, done) == admin_step(old(self)@, caller@, AdminCall::RenounceOwnership),
            old(self).wf() ==> final(self).wf(),
    {
        proof {
            if old(self).wf() {
                lemma_policy_kinds_stay_unique(old(self)@, caller@, AdminCall::RenounceOwnership);
            }
        }
        self.access.renounce_ownership(caller)
    }

    /// Makes `new_owner` the owner.
    pub fn transfer_ownership(&mut self, caller: &AccountId, new_owner: AccountId) -> (done: Result<
        (),
        Error,
    >)
        ensures
            (final(self)@, done) == admin_step(
                old(self)@,
                caller@,
                AdminCall::TransferOwnership { new_owner: new_owner@ },
            ),
            old(self).wf() ==> final(self).wf(),
    {
        proof {
            if old(self).wf() {
                lemma_policy_kinds_stay_unique(
                    old(self)@,
                    caller@,
                    AdminCall::TransferOwnership { new_owner: new_owner@ },
                );
            }
        }
        self.access.transfer_ownership(caller, new_owner)
    }

    /// Names the messenger.
    pub fn set_cross_chain_contract(&mut self, caller: &AccountId, contract: AccountId) -> (done:
        Result<(), Error>)
        ensures
            (final(self)@, done) == admin_step(
                old(self)@,
                caller@,
                AdminCall::SetCrossChainContract { account: contract@ },
            ),
            old(self).wf() ==> final(self).wf(),
    {
        proof {
            if old(self).wf() {
                lemma_policy_kinds_stay_unique(
                    old(self)@,
                    caller@,
                    AdminCall::SetCrossChainContract { account: contract@ },
                );
            }
        }
        self.only_owner(caller)?;
        self.cross_chain_contract = Some(contract);
        Ok(())
    }

    /// Names the token ledger.
    pub fn set_token_contract(&mut self, caller: &AccountId, contract: AccountId) -> (done: Result<
        (),
        Error,
    >)
        ensures
            (final(self)@, done) == admin_step(
                old(self)@,
                caller@,
                AdminCall::SetTokenContract { account: contract@ },
            ),
            old(self).wf() ==> final(self).wf(),
    {
        proof {
            if old(self).wf() {
                lemma_policy_kinds_stay_unique(
                    old(self)@,
                    caller@,
                    AdminCall::SetTokenContract { account: contract@ },
                );
            }
        }
        self.only_owner(caller)?;
        self.token_contract = Some(contract);
        Ok(())
    }

    /// Registers where messages for `chain_name` under `action` go, in place
    /// of what was registered for them before.
    pub fn register_dest_contract(
        &mut self,
        caller: &AccountId,
        chain_name: String,
        action: String,
        contract: String,
        dest_action: String,
    ) -> (done: Result<(), Error>)
        ensures
            (final(self)@, done) == admin_step(
                old(self)@,
                caller@,
                AdminCall::RegisterDestContract {
                    chain_name: chain_name@,
                    action: action@,
                    contract: contract@,
                    dest_action: dest_action@,
                },
            ),
            old(self).wf() ==> final(self).wf(),
    {
        proof {
            if old(self).wf() {
                lemma_policy_kinds_stay_unique(
                    old(self)@,
                    caller@,
                    AdminCall::RegisterDestContract {
                        chain_name: chain_name@,
                        action: action@,
                        contract: contract@,
                        dest_action: dest_action@,
                    },
                );
            }
        }
        self.only_owner(caller)?;
        self.destinations.register(chain_name, action, contract, dest_action);
        Ok(())
    }

    /// Permits `sender` on `chain_name` to call `action`.
    pub fn register_permitted_sender(
        &mut self,
        caller: &AccountId,
        chain_name: String,
        sender: String,
        action: String,
    ) -> (done: Result<(), Error>)
        ensures
            (final(self)@, done) == admin_step(
                old(self)@,
                caller@,
                AdminCall::RegisterPermittedSender {
                    chain_name: chain_name@,
                    sender: sender@,
                    action: action@,
                },
            ),
            old(self).wf() ==> final(self).wf(),
    {
        proof {
            if old(self).wf() {
                lemma_policy_kinds_stay_unique(
                    old(self)@,
                    caller@,
                    AdminCall::RegisterPermittedSender {
                        chain_name: chain_name@,
                        sender: sender@,
                        action: action@,
                    },
                );
            }
        }
        self.only_owner(caller)?;
        self.permitted.register(chain_name, sender, action);
        Ok(())
    }

    /// Adds a directive to the delivery policy; refused where the policy
    /// holds one of that kind.
    pub fn insert(&mut self, caller: &AccountId, sqos_item: SQoSItem) -> (done: Result<(), Error>)
        ensures
            (final(self)@, done) == admin_step(
                old(self)@,
                caller@,
                AdminCall::InsertSQoS { item: sqos_item@ },
            ),
            old(self).wf() ==> final(self).wf(),
    {
        proof {
            if old(self).wf() {
                lemma_policy_kinds_stay_unique(
                    old(self)@,
                    caller@,
                    AdminCall::InsertSQoS { item: sqos_item@ },
                );
            }
        }
        self.only_owner(caller)?;
        self.sqos.insert(sqos_item)
    }

    /// Takes the directive of kind `sqos_type` out of the delivery policy, if
    /// it holds one.
    pub fn remove(&mut self, caller: &AccountId, sqos_type: SQoSType) -> (done: Result<(), Error>)
        ensures
            (final(self)@, done) == admin_step(
                old(self)@,
                caller@,
                AdminCall::RemoveSQoS { qos_type: sqos_type },
            ),
            old(self).wf() ==> final(self).wf(),
    {
        proof {
            if old(self).wf() {
                lemma_policy_kinds_stay_unique(
                    old(self)@,
                    caller@,
                    AdminCall::RemoveSQoS { qos_type: sqos_type },
                );
            }
        }
        self.only_owner(caller)?;
        self.sqos.remove(sqos_type);
        Ok(())
    }

    /// Empties the delivery policy.
    pub fn clear(&mut self, caller: &AccountId) -> (done: Result<(), Error>)
        ensures
            (final(self)@, done) == admin_step(old(self)@, caller@, AdminCall::ClearSQoS),
            old(self).wf() ==> final(self).wf(),
    {
        proof {
            if old(self).wf() {
                lemma_policy_kinds_stay_unique(old(self)@, caller@, AdminCall::ClearSQoS);
            }
        }
        self.only_owner(caller)?;
        self.sqos.clear();
        Ok(())
    }

    /// Puts `sqos` in place of the delivery policy; refused, with nothing
    /// changed, where two of its directives are of the same kind.
    pub fn set(&mut self, caller: &AccountId, sqos: Vec<SQoSItem>) -> (done: Result<(), Error>)
        ensures
            (final(self)@, done) == admin_step(
                old(self)@,
                caller@,
                AdminCall::SetSQoS { items: items_view(sqos@) },
            ),
            old(self).wf() ==> final(self).wf(),
    {
        proof {
            if old(self).wf() {
                lemma_policy_kinds_stay_unique(
                    old(self)@,
                    caller@,
                    AdminCall::SetSQoS { items: items_view(sqos@) },
                );
            }
        }
        self.only_owner(caller)?;
        self.sqos.set(sqos)
    }

    /// The owner, if there is one.
    pub fn owner(&self) -> (owner: Option<AccountId>)
        ensures
            account_view(owner) == self@.owner,
    {
        self.access.owner()
    }

    /// The messenger, if it has been named.
    pub fn get_cross_chain_contract_address(&self) -> (contract: Option<AccountId>)
        ensures
            account_view(contract) == self@.cross_chain_contract,
    {
        match &self.cross_chain_contract {
            Some(contract) => Some(contract.clone()),
            None => None,
        }
    }

    /// The token ledger, if it has been named.
    pub fn get_token_contract_address(&self) -> (contract: Option<AccountId>)
        ensures
            account_view(contract) == self@.token_contract,
    {
        match &self.token_contract {
            Some(contract) => Some(contract.clone()),
            None => None,
        }
    }

    /// Where messages for `chain_name` under `action` go, if that is
    /// registered.
    pub fn get_dest_contract_info(&self, chain_name: String, action: String) -> (route: Option<
        (String, String),
    >)
        ensures
            match route {
                Some((contract, dest_action)) => self@.destinations.contains_key(
                    (chain_name@, action@),
                ) && self@.destinations[(chain_name@, action@)] == (contract@, dest_action@),
                None => !self@.destinations.contains_key((chain_name@, action@)),
            },
    {
        self.destinations.get(&chain_name, &action)
    }

    /// Lets a message from `sender` on `chain_name` for `action` pass if that
    /// sender is permitted; one that is not registered is not.
    pub fn assert_permitted(
        &self,
        chain_name: &String,
        sender: &String,
        action: &String,
    ) -> (passed: Result<(), Error>)
        ensures
            passed == if self@.permitted.contains((chain_name@, sender@, action@)) {
                Ok::<(), Error>(())
            } else {
                Err::<(), Error>(Error::AuthorizationError)
            },
    {
        if self.permitted.contains(chain_name, sender, action) {
            Ok(())
        } else {
            Err(Error::AuthorizationError)
        }
    }

    /// The delivery policy in force.
    pub fn get(&self) -> (sqos: Vec<SQoSItem>)
        ensures
            items_view(sqos@) == self@.sqos,
    {
        self.sqos.get()
    }

    /// Accepts the request of `caller` to move `num` tokens to `to_address`
    /// on `chain_name`. What comes back holds the burn to ask of the ledger;
    /// nothing is sent before `dispatch` has seen the ledger's reply.
    pub fn transfer_token(
        &self,
        caller: AccountId,
        chain_name: String,
        to_address: Address,
        num: u128,
    ) -> (started: Result<OutboundTransfer, Error>)
        ensures
            match transfer_started(self@, caller@, chain_name@, to_address@, num) {
                Ok(view) => started matches Ok(transfer) && transfer@ == view,
                Err(error) => started matches Err(refusal) && refusal == error,
            },
    {
        let token = match &self.token_contract {
            Some(token) => token.clone(),
            None => {
                return Err(Error::TokenContractNotSet);
            },
        };
        let messenger = match &self.cross_chain_contract {
            Some(messenger) => messenger.clone(),
            None => {
                return Err(Error::CrossChainContractNotSet);
            },
        };
        Ok(
            OutboundTransfer {
                burn: LedgerCall { token, account: caller, amount: num },
                messenger,
                to_chain: chain_name,
                action: "receive_token".to_owned(),
                to: Value::Address(to_address),
                num,
            },
        )
    }

    /// Accepts the tokens that the ledger says it has moved to the locker's
    /// own account, `current_account`, to have them moved on as `msg` asks.
    /// Only the ledger, as `predecessor`, may say so. What comes back holds
    /// the burn to ask of the ledger; nothing is sent before `dispatch` has
    /// seen the ledger's reply.
    pub fn ft_on_transfer(
        &self,
        predecessor: &AccountId,
        current_account: AccountId,
        sender_id: &AccountId,
        amount: u128,
        msg: SendMessage,
    ) -> (started: Result<OutboundTransfer, Error>)
        ensures
            match ft_transfer_started(
                self@,
                predecessor@,
                current_account@,
                amount,
                msg.receiver@,
                msg.to_chain@,
            ) {
                Ok(view) => started matches Ok(transfer) && transfer@ == view,
                Err(error) => started matches Err(refusal) && refusal == error,
            },
    {
        let token = match &self.token_contract {
            Some(token) => token.clone(),
            None => {
                return Err(Error::TokenContractNotSet);
            },
        };
        if !token.same(predecessor) {
            return Err(Error::AuthorizationError);
        }
        let messenger = match &self.cross_chain_contract {
            Some(messenger) => messenger.clone(),
            None => {
                return Err(Error::CrossChainContractNotSet);
            },
        };
        Ok(
            OutboundTransfer {
                burn: LedgerCall { token, account: current_account, amount },
                messenger,
                to_chain: msg.to_chain,
                action: "transfer_token".to_owned(),
                to: receiver_value(msg.receiver),
                num: amount,
            },
        )
    }

    /// Makes the message to hand to the messenger, once the ledger has
    /// answered the burn of `transfer` with `reply`. Unless the burn was
    /// done there is no message: a refusal of the ledger is passed on as it
    /// came, and a ledger that could not be reached is reported as such. The
    /// message goes where the transfer's chain and action are routed, and
    /// carries a copy of the delivery policy in force.
    pub fn dispatch(&self, transfer: OutboundTransfer, reply: LedgerReply) -> (message: Result<
        RequestMessage,
        Error,
    >)
        ensures
            match dispatched(self@, transfer@, reply) {
                Ok(view) => message matches Ok(made) && made@ == view,
                Err(error) => message matches Err(refusal) && refusal == error,
            },
    {
        reply.outcome()?;
        let (target_contract, target_action) = match self.destinations.get(
            &transfer.to_chain,
            &transfer.action,
        ) {
            Some(route) => route,
            None => {
                return Err(Error::MethodNotRegistered);
            },
        };
        let ghost to = transfer.to@;
        let mut payload = Payload::new();
        payload.push_item("to".to_owned(), transfer.to);
        payload.push_item("num".to_owned(), Value::Uint128(transfer.num));
        assert(payload@ =~= transfer_body(to, transfer.num));
        let data = encode(&payload);
        Ok(
            RequestMessage {
                messenger: transfer.messenger,
                to_chain: transfer.to_chain,
                sqos: self.sqos.get(),
                content: Content { target_contract, target_action, payload },
                data,
            },
        )
    }

    /// Lets an inbound message in if `caller` is the messenger and the
    /// sender that `context` names is permitted to call the action that it
    /// names.
    pub fn authenticate(&self, caller: &AccountId, context: &Context) -> (passed: Result<(), Error>)
        ensures
            passed == authenticated(self@, caller@, context@),
    {
        match &self.cross_chain_contract {
            Some(messenger) => {
                if !messenger.same(caller) {
                    return Err(Error::AuthorizationError);
                }
            },
            None => {
                return Err(Error::AuthorizationError);
            },
        }
        self.assert_permitted(&context.from_chain, &context.sender_contract, &context.action)
    }

    /// Takes in the message body `payload` that `caller` delivers with
    /// `context`, and gives the mint to ask of the ledger. The receiver is a
    /// native address. A message that is not authenticated is refused before
    /// its body is looked at. Nothing in a message tells it from a copy of
    /// itself: one that the messenger delivers twice asks for the mint twice.
    pub fn receive_token(&self, caller: &AccountId, payload: &[u8], context: &Context) -> (mint:
        Result<LedgerCall, Error>)
        ensures
            match received(self@, caller@, payload@, context@) {
                Ok(view) => mint matches Ok(call) && call@ == view,
                Err(error) => mint matches Err(refusal) && refusal == error,
            },
    {
        self.authenticate(caller, context)?;
        let token = match &self.token_contract {
            Some(token) => token.clone(),
            None => {
                return Err(Error::TokenContractNotSet);
            },
        };
        let body = decode(payload)?;
        mint_call(token, &body)
    }

    /// Takes in the message body `payload` that `predecessor` delivers with
    /// `context`, and gives the mint to ask of the ledger. The receiver is
    /// the name of an account, which must be a valid one. A message that is
    /// not authenticated is refused before its body is looked at.
    pub fn transfer(&self, predecessor: &AccountId, payload: &[u8], context: &Context) -> (mint:
        Result<LedgerCall, Error>)
        ensures
            match named_received(self@, predecessor@, payload@, context@) {
                Ok(view) => mint matches Ok(call) && call@ == view,
                Err(error) => mint matches Err(refusal) && refusal == error,
            },
    {
        self.authenticate(predecessor, context)?;
        let token = match &self.token_contract {
            Some(token) => token.clone(),
            None => {
                return Err(Error::TokenContractNotSet);
            },
        };
        let body = decode(payload)?;
        named_mint_call(token, &body)
    }
}

} // verus!
