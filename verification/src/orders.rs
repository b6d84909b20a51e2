//! Order vocabulary: sides, order types, statuses and working orders.

use crate::config::InstrumentId;
use crate::decimal::{zero_dec, Dec};
use vstd::prelude::*;

verus! {

/// Order side.
#[derive(Clone, Copy, Debug, PartialEq, Eq, Structural)]
pub enum Side {
    Buy,
    Sell,
}

/// Order type.
#[derive(Clone, Copy, Debug, PartialEq, Eq, Structural)]
pub enum OrderType {
    Market,
    Limit,
    StopMarket,
    StopLimit,
}

/// Lifecycle status of an order.
#[derive(Clone, Copy, Debug, PartialEq, Eq, Structural)]
pub enum OrderStatus {
    Open,
    Filled,
    Canceled,
    Rejected,
}

/// A copy of an optional text.
pub fn clone_text(t: &Option<String>) -> (r: Option<String>)
    ensures
        r == *t,
{
    match t {
        Some(s) => Some(s.clone()),
        None => None,
    }
}

/// Whether two optional texts hold the same text.
pub fn same_text(a: &Option<String>, b: &Option<String>) -> (r: bool)
    ensures
        r == (match (*a, *b) {
            (Some(x), Some(y)) => x@ == y@,
            (None, None) => true,
            _ => false,
        }),
{
    match (a, b) {
        (Some(x), Some(y)) => *x == *y,
        (None, None) => true,
        _ => false,
    }
}

/// A working order.
#[derive(Debug)]
pub struct OpenOrder {
    pub id: u128,
    pub instrument: InstrumentId,
    pub side: Side,
    pub order_type: OrderType,
    pub price: Option<Dec>,
    pub stop_price: Option<Dec>,
    pub remaining_qty: Dec,
    pub original_qty: Dec,
    pub status: OrderStatus,
    pub client_order_id: Option<String>,
    pub oco_group: Option<String>,
    pub strategy_id: Option<String>,
}

impl Clone for OpenOrder {
    fn clone(&self) -> (r: Self)
        ensures
            r == *self,
    {
        OpenOrder {
            id: self.id,
            instrument: self.instrument.clone(),
            side: self.side,
            order_type: self.order_type,
            price: self.price,
            stop_price: self.stop_price,
            remaining_qty: self.remaining_qty,
            original_qty: self.original_qty,
            status: self.status,
            client_order_id: clone_text(&self.client_order_id),
            oco_group: clone_text(&self.oco_group),
            strategy_id: clone_text(&self.strategy_id),
        }
    }
}

/// An optional decimal is well formed when present.
pub open spec fn opt_wf(d: Option<Dec>) -> bool {
    match d {
        Some(x) => x.wf(),
        None => true,
    }
}

impl OpenOrder {
    /// Every decimal of the order is well formed.
    pub open spec fn wf(self) -> bool {
        &&& opt_wf(self.price)
        &&& opt_wf(self.stop_price)
        &&& self.remaining_qty.wf()
        &&& self.original_qty.wf()
    }

    /// The order closed with `status` and nothing left to fill.
    pub open spec fn closed_as(self, status: OrderStatus) -> OpenOrder {
        OpenOrder { status, remaining_qty: zero_dec(), ..self }
    }

    /// A copy of the order closed with `status` and nothing left to fill.
    pub fn close_as(&self, status: OrderStatus) -> (r: OpenOrder)
        ensures
            r == self.closed_as(status),
    {
        let mut c = self.clone();
        c.status = status;
        c.remaining_qty = Dec::zero();
        c
    }
}

} // verus!
