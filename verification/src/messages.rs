//! The wire messages: a closed tagged union over the nine protocol message
//! kinds, together with the mathematical value of each.

use vstd::prelude::*;
use crate::types::{Block, BlockV, Transaction, TransactionV};

verus! {

/// Payload of a `block` message.
#[derive(Debug, PartialEq)]
pub struct Blockmsg {
    pub addr_from: String,
    pub block: Block,
}

pub struct BlockmsgV {
    pub addr_from: Seq<char>,
    pub block: BlockV,
}

impl View for Blockmsg {
    type V = BlockmsgV;

    open spec fn view(&self) -> BlockmsgV {
        BlockmsgV { addr_from: self.addr_from@, block: self.block@ }
    }
}

/// Payload of a `getblocks` message.
#[derive(Debug, PartialEq)]
pub struct GetBlocksmsg {
    pub addr_from: String,
}

pub struct GetBlocksmsgV {
    pub addr_from: Seq<char>,
}

impl View for GetBlocksmsg {
    type V = GetBlocksmsgV;

    open spec fn view(&self) -> GetBlocksmsgV {
        GetBlocksmsgV { addr_from: self.addr_from@ }
    }
}

/// Payload of a `getdata` message.
#[derive(Debug, PartialEq)]
pub struct GetDatamsg {
    pub addr_from: String,
    pub kind: String,
    pub id: String,
}

pub struct GetDatamsgV {
    pub addr_from: Seq<char>,
    pub kind: Seq<char>,
    pub id: Seq<char>,
}

impl View for GetDatamsg {
    type V = GetDatamsgV;

    open spec fn view(&self) -> GetDatamsgV {
        GetDatamsgV { addr_from: self.addr_from@, kind: self.kind@, id: self.id@ }
    }
}

/// Payload of an `inv` message.
#[derive(Debug, PartialEq)]
pub struct Invmsg {
    pub addr_from: String,
    pub kind: String,
    pub items: Vec<String>,
}

pub struct InvmsgV {
    pub addr_from: Seq<char>,
    pub kind: Seq<char>,
    pub items: Seq<Seq<char>>,
}

impl View for Invmsg {
    type V = InvmsgV;

    open spec fn view(&self) -> InvmsgV {
        InvmsgV { addr_from: self.addr_from@, kind: self.kind@, items: self.items.deep_view() }
    }
}

/// Payload of a `tx` message.
#[derive(Debug, PartialEq)]
pub struct Txmsg {
    pub addr_from: String,
    pub transaction: Transaction,
}

pub struct TxmsgV {
    pub addr_from: Seq<char>,
    pub transaction: TransactionV,
}

impl View for Txmsg {
    type V = TxmsgV;

    open spec fn view(&self) -> TxmsgV {
        TxmsgV { addr_from: self.addr_from@, transaction: self.transaction@ }
    }
}

/// Payload of a `version` message.
#[derive(Debug, PartialEq)]
pub struct Versionmsg {
    pub addr_from: String,
    pub version: i32,
    pub best_height: i32,
}

pub struct VersionmsgV {
    pub addr_from: Seq<char>,
    pub version: i32,
    pub best_height: i32,
}

impl View for Versionmsg {
    type V = VersionmsgV;

    open spec fn view(&self) -> VersionmsgV {
        VersionmsgV {
            addr_from: self.addr_from@,
            version: self.version,
            best_height: self.best_height,
        }
    }
}

/// Payload of a `signreq` message: a request to sign `transaction` with the
/// key of the wallet named `address`.
#[derive(Debug, PartialEq)]
pub struct SignRequestMsg {
    pub addr_from: String,
    pub address: String,
    pub transaction: Transaction,
}

pub struct SignRequestMsgV {
    pub addr_from: Seq<char>,
    pub address: Seq<char>,
    pub transaction: TransactionV,
}

impl View for SignRequestMsg {
    type V = SignRequestMsgV;

    open spec fn view(&self) -> SignRequestMsgV {
        SignRequestMsgV {
            addr_from: self.addr_from@,
            address: self.address@,
            transaction: self.transaction@,
        }
    }
}

/// Payload of a `signres` message: the reply leg of the signing round trip.
#[derive(Debug, PartialEq)]
pub struct SignResponseMsg {
    pub addr_from: String,
    pub transaction: Transaction,
    pub success: bool,
    pub error_message: String,
}

pub struct SignResponseMsgV {
    pub addr_from: Seq<char>,
    pub transaction: TransactionV,
    pub success: bool,
    pub error_message: Seq<char>,
}

impl View for SignResponseMsg {
    type V = SignResponseMsgV;

    open spec fn view(&self) -> SignResponseMsgV {
        SignResponseMsgV {
            addr_from: self.addr_from@,
            transaction: self.transaction@,
            success: self.success,
            error_message: self.error_message@,
        }
    }
}

/// The closed set of wire messages.
#[derive(Debug, PartialEq)]
pub enum Message {
    Addr(Vec<String>),
    Version(Versionmsg),
    Tx(Txmsg),
    GetData(GetDatamsg),
    GetBlock(GetBlocksmsg),
    Inv(Invmsg),
    Block(Blockmsg),
    SignRequest(SignRequestMsg),
    SignResponse(SignResponseMsg),
}

/// Mathematical value of a [`Message`].
pub enum MessageV {
    Addr(Seq<Seq<char>>),
    Version(VersionmsgV),
    Tx(TxmsgV),
    GetData(GetDatamsgV),
    GetBlock(GetBlocksmsgV),
    Inv(InvmsgV),
    Block(BlockmsgV),
    SignRequest(SignRequestMsgV),
    SignResponse(SignResponseMsgV),
}

impl View for Message {
    type V = MessageV;

    open spec fn view(&self) -> MessageV {
        match self {
            Message::Addr(v) => MessageV::Addr(v.deep_view()),
            Message::Version(m) => MessageV::Version(m@),
            Message::Tx(m) => MessageV::Tx(m@),
            Message::GetData(m) => MessageV::GetData(m@),
            Message::GetBlock(m) => MessageV::GetBlock(m@),
            Message::Inv(m) => MessageV::Inv(m@),
            Message::Block(m) => MessageV::Block(m@),
            Message::SignRequest(m) => MessageV::SignRequest(m@),
            Message::SignResponse(m) => MessageV::SignResponse(m@),
        }
    }
}

} // verus!
