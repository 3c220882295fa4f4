//! The `transactions` table (named `cake` in the schema).
use crate::api::{Data, DataView};
use vstd::prelude::*;

verus! {

/// The kind of a transaction, stored as a number.
#[derive(Debug, Clone, Copy, PartialEq, Eq)]
pub enum TxType {
    TxOpen,
    TxSend,
    TxCollect,
    TxDelegate,
}

/// The number under which a kind is stored.
pub open spec fn tx_type_value(t: TxType) -> u8 {
    match t {
        TxType::TxOpen => 0,
        TxType::TxSend => 1,
        TxType::TxCollect => 2,
        TxType::TxDelegate => 3,
    }
}

/// The kind of a transaction payload.
pub open spec fn tx_type_of(d: DataView) -> TxType {
    match d {
        DataView::TxOpen => TxType::TxOpen,
        DataView::TxSend { .. } => TxType::TxSend,
        DataView::TxCollect { .. } => TxType::TxCollect,
        DataView::TxDelegate { .. } => TxType::TxDelegate,
    }
}

impl TxType {
    /// The number under which the kind is stored.
    pub fn num_value(&self) -> (r: u8)
        ensures
            r == tx_type_value(*self),
    {
        match self {
            TxType::TxOpen => 0,
            TxType::TxSend => 1,
            TxType::TxCollect => 2,
            TxType::TxDelegate => 3,
        }
    }

    /// The kind stored under `value`, if any.
    pub fn from_num_value(value: u8) -> (r: Option<TxType>)
        ensures
            match r {
                Some(t) => tx_type_value(t) == value,
                None => value > 3,
            },
    {
        if value == 0 {
            Some(TxType::TxOpen)
        } else if value == 1 {
            Some(TxType::TxSend)
        } else if value == 2 {
            Some(TxType::TxCollect)
        } else if value == 3 {
            Some(TxType::TxDelegate)
        } else {
            None
        }
    }

    /// The kind of a transaction payload.
    pub fn of_data(data: &Data) -> (r: TxType)
        ensures
            r == tx_type_of(data@),
    {
        match data {
            Data::TxOpen(_) => TxType::TxOpen,
            Data::TxSend(_) => TxType::TxSend,
            Data::TxCollect(_) => TxType::TxCollect,
            Data::TxDelegate(_) => TxType::TxDelegate,
        }
    }
}

/// Reading back the number a kind is stored under gives the kind.
pub proof fn law_tx_type_round_trip(t: TxType)
    ensures
        tx_type_value(t) <= 3,
        forall|u: TxType| tx_type_value(u) == tx_type_value(t) ==> u == t,
{
}

/// How a transaction row relates to other rows.
#[derive(Debug, Clone, Copy, PartialEq, Eq)]
pub enum Relation {
    /// the block holding it (`block_id` -> `blocks.block_id`)
    Block,
}

} // verus!
