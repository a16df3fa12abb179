//! What passes between the locker, the messenger and the ledger.

use vstd::prelude::*;
use crate::account::AccountId;
use crate::error::{Erc20Error, Error};
use crate::payload::{ItemView, Payload};
use crate::sqos::{items_view, SQoSItem, SQoSItemView};

verus! {

/// What remote code is to run, and on what data.
#[derive(Debug, PartialEq, Eq)]
pub struct Content {
    pub target_contract: String,
    pub target_action: String,
    pub payload: Payload,
}

/// What a [`Content`] stands for.
pub struct ContentView {
    pub target_contract: Seq<char>,
    pub target_action: Seq<char>,
    pub payload: Seq<ItemView>,
}

impl View for Content {
    type V = ContentView;

    open spec fn view(&self) -> ContentView {
        ContentView {
            target_contract: self.target_contract@,
            target_action: self.target_action@,
            payload: self.payload@,
        }
    }
}

/// Where an inbound message comes from, as the messenger attests it.
#[derive(Debug, PartialEq, Eq)]
pub struct Context {
    pub from_chain: String,
    pub sender_contract: String,
    pub action: String,
}

/// What a [`Context`] stands for.
pub struct ContextView {
    pub from_chain: Seq<char>,
    pub sender_contract: Seq<char>,
    pub action: Seq<char>,
}

impl View for Context {
    type V = ContextView;

    open spec fn view(&self) -> ContextView {
        ContextView {
            from_chain: self.from_chain@,
            sender_contract: self.sender_contract@,
            action: self.action@,
        }
    }
}

/// What a holder sends along with tokens to have them moved to another chain.
#[derive(Debug, PartialEq, Eq)]
pub struct SendMessage {
    pub receiver: String,
    pub to_chain: String,
}

impl Clone for SendMessage {
    fn clone(&self) -> (copy: SendMessage)
        ensures
            copy.receiver@ == self.receiver@,
            copy.to_chain@ == self.to_chain@,
    {
        SendMessage { receiver: self.receiver.clone(), to_chain: self.to_chain.clone() }
    }
}

/// A call to make on the token ledger: burn from, or mint to, `account`.
#[derive(Debug, PartialEq, Eq)]
pub struct LedgerCall {
    pub token: AccountId,
    pub account: AccountId,
    pub amount: u128,
}

/// What a [`LedgerCall`] stands for.
pub struct LedgerCallView {
    pub token: Seq<u8>,
    pub account: Seq<u8>,
    pub amount: u128,
}

impl View for LedgerCall {
    type V = LedgerCallView;

    open spec fn view(&self) -> LedgerCallView {
        LedgerCallView { token: self.token@, account: self.account@, amount: self.amount }
    }
}

/// How a call on the ledger ended.
#[derive(Debug, PartialEq, Eq, Clone, Copy, Structural)]
pub enum LedgerReply {
    /// The ledger did what it was asked.
    Done,
    /// The ledger ran the call and refused it.
    Rejected(Erc20Error),
    /// The call did not reach the ledger, or never came back.
    Unreachable,
}

impl LedgerReply {
    /// What a reply means for the operation that waited for it.
    pub open spec fn spec_outcome(self) -> Result<(), Error> {
        match self {
            LedgerReply::Done => Ok(()),
            LedgerReply::Rejected(reason) => Err(Error::Erc20Error(reason)),
            LedgerReply::Unreachable => Err(Error::CrossContractCallError),
        }
    }

    /// What this reply means for the operation that waited for it: a ledger
    /// that refused passes its reason on unchanged, and one that could not be
    /// reached is told apart from one that refused.
    pub fn outcome(&self) -> (outcome: Result<(), Error>)
        ensures
            outcome == self.spec_outcome(),
    {
        match self {
            LedgerReply::Done => Ok(()),
            LedgerReply::Rejected(reason) => Err(Error::Erc20Error(*reason)),
            LedgerReply::Unreachable => Err(Error::CrossContractCallError),
        }
    }
}

/// A message to hand to the messenger, which takes it from there.
#[derive(Debug, PartialEq, Eq)]
pub struct RequestMessage {
    /// The messenger to hand the message to.
    pub messenger: AccountId,
    pub to_chain: String,
    /// The delivery policy that was in force when the message was made.
    pub sqos: Vec<SQoSItem>,
    pub content: Content,
    /// The encoding of `content.payload`.
    pub data: Vec<u8>,
}

/// What a [`RequestMessage`] stands for.
pub struct RequestMessageView {
    pub messenger: Seq<u8>,
    pub to_chain: Seq<char>,
    pub sqos: Seq<SQoSItemView>,
    pub content: ContentView,
    pub data: Seq<u8>,
}

impl View for RequestMessage {
    type V = RequestMessageView;

    open spec fn view(&self) -> RequestMessageView {
        RequestMessageView {
            messenger: self.messenger@,
            to_chain: self.to_chain@,
            sqos: items_view(self.sqos@),
            content: self.content@,
            data: self.data@,
        }
    }
}

} // verus!
