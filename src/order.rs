//! Orders, fills, and the in-memory backtest executor that settles them against a
//! cash balance.
use vstd::prelude::*;
use crate::quantity::{
    checked_from, from_nanos, lemma_checked_from, lemma_lt_is_value_lt, trunc_div, Quantity,
};

verus! {

/// How an order is priced.
#[derive(Clone, Copy, Debug, PartialEq, Eq, Structural)]
pub enum OrderType {
    Unspecified,
    Limit,
    Market,
    BestPrice,
}

/// Buy or sell.
#[derive(Clone, Copy, Debug, PartialEq, Eq, Structural)]
pub enum OrderDirection {
    Buy,
    Sell,
}

/// A settled order: all of it, at one price.
#[derive(Clone, Copy, Debug, PartialEq, Eq, Structural)]
pub struct Fill {
    pub direction: OrderDirection,
    pub lots: i64,
    pub price: Quantity,
    pub commission: Quantity,
}

/// Why an order was not settled.
#[derive(Clone, Copy, Debug, PartialEq, Eq, Structural)]
pub enum ExecutionError {
    /// A buy while the balance's whole units are under the threshold.
    InsufficientFunds { balance_units: i64, threshold: u64 },
    /// The balance cannot pay for the order.
    NotEnoughMoney,
    /// A price hint or an order type other than market, which the backtest cannot price.
    UnsupportedOrder,
    /// The order was turned down: no positive quantity, or no positive balance to buy with.
    Cancelled,
    /// An amount left the representable range.
    Overflow,
    /// The trading venue turned the order down.
    Rejected,
}

impl ExecutionError {
    /// Errors that mean the run is misconfigured and must stop.
    pub open spec fn spec_is_fatal(self) -> bool {
        match self {
            ExecutionError::InsufficientFunds { .. } => true,
            ExecutionError::NotEnoughMoney => true,
            ExecutionError::UnsupportedOrder => true,
            ExecutionError::Overflow => true,
            ExecutionError::Cancelled => false,
            ExecutionError::Rejected => false,
        }
    }

    /// Whether the run must stop on this error; the others only drop the order.
    pub fn is_fatal(&self) -> (r: bool)
        ensures
            r == self.spec_is_fatal(),
    {
        match self {
            ExecutionError::InsufficientFunds { .. } => true,
            ExecutionError::NotEnoughMoney => true,
            ExecutionError::UnsupportedOrder => true,
            ExecutionError::Overflow => true,
            ExecutionError::Cancelled => false,
            ExecutionError::Rejected => false,
        }
    }
}

/// The commission on an amount: `percent` hundredths of it, rounded toward zero.
pub open spec fn commission_on(amount: Quantity, percent: u8) -> Option<Quantity> {
    checked_from(trunc_div(amount.value() * percent, 100))
}

/// Backtest executor: settles market orders at the current simulated price against an
/// in-memory balance, charging a percentage commission on each.
pub struct OrderServiceHistBoxImpl {
    commission: u8,
    balance: Quantity,
    trash_hold: u64,
    current_price: Quantity,
}

impl OrderServiceHistBoxImpl {
    pub closed spec fn spec_balance(self) -> Quantity {
        self.balance
    }

    pub closed spec fn spec_commission(self) -> u8 {
        self.commission
    }

    pub closed spec fn spec_threshold(self) -> u64 {
        self.trash_hold
    }

    pub closed spec fn spec_current_price(self) -> Quantity {
        self.current_price
    }

    pub open spec fn wf(self) -> bool {
        self.spec_balance().wf() && self.spec_current_price().wf()
    }

    /// What a buy of `quantity` lots settles to: the fill and the new balance, or the error.
    pub open spec fn spec_buy(self, quantity: i64, price: Option<Quantity>, order_type: OrderType) -> Result<
        (Fill, Quantity),
        ExecutionError,
    > {
        let balance = self.spec_balance();
        let p = self.spec_current_price();
        if balance.units < self.spec_threshold() {
            Err(ExecutionError::InsufficientFunds {
                balance_units: balance.units,
                threshold: self.spec_threshold(),
            })
        } else if balance.units <= 0 || quantity <= 0 {
            Err(ExecutionError::Cancelled)
        } else if price is Some || order_type != OrderType::Market {
            Err(ExecutionError::UnsupportedOrder)
        } else {
            match p.spec_scale(quantity as int) {
                None => Err(ExecutionError::Overflow),
                Some(cost) => if balance.value() < cost.value() {
                    Err(ExecutionError::NotEnoughMoney)
                } else {
                    match commission_on(cost, self.spec_commission()) {
                        None => Err(ExecutionError::Overflow),
                        Some(fee) => match checked_from(balance.value() - cost.value() - fee.value()) {
                            None => Err(ExecutionError::Overflow),
                            Some(b) => Ok(
                                (
                                    Fill {
                                        direction: OrderDirection::Buy,
                                        lots: quantity,
                                        price: p,
                                        commission: fee,
                                    },
                                    b,
                                ),
                            ),
                        },
                    }
                },
            }
        }
    }

    /// What a sale of `quantity` lots settles to: the fill and the new balance, or the error.
    pub open spec fn spec_sell(self, quantity: i64, price: Option<Quantity>, order_type: OrderType) -> Result<
        (Fill, Quantity),
        ExecutionError,
    > {
        let balance = self.spec_balance();
        let p = self.spec_current_price();
        if quantity <= 0 {
            Err(ExecutionError::Cancelled)
        } else if price is Some || order_type != OrderType::Market {
            Err(ExecutionError::UnsupportedOrder)
        } else {
            match p.spec_scale(quantity as int) {
                None => Err(ExecutionError::Overflow),
                Some(proceeds) => match commission_on(proceeds, self.spec_commission()) {
                    None => Err(ExecutionError::Overflow),
                    Some(fee) => match checked_from(balance.value() + proceeds.value() - fee.value()) {
                        None => Err(ExecutionError::Overflow),
                        Some(b) => Ok(
                            (
                                Fill {
                                    direction: OrderDirection::Sell,
                                    lots: quantity,
                                    price: p,
                                    commission: fee,
                                },
                                b,
                            ),
                        ),
                    },
                },
            }
        }
    }

    /// An executor holding `balance`, charging `commission` percent, refusing buys once
    /// the balance's whole units fall under `trash_hold`. The simulated price starts at zero.
    pub fn new(balance: Quantity, commission: u8, trash_hold: u64) -> (r: Self)
        requires
            balance.wf(),
        ensures
            r.wf(),
            r.spec_balance() == balance,
            r.spec_commission() == commission,
            r.spec_threshold() == trash_hold,
            r.spec_current_price() == (Quantity { units: 0, fraction: 0 }),
    {
        Self { commission, balance, trash_hold, current_price: Quantity { units: 0, fraction: 0 } }
    }

    /// The current balance.
    pub fn get_balance(&self) -> (r: Quantity)
        ensures
            r == self.spec_balance(),
    {
        self.balance
    }

    /// The orders still waiting to be filled: none, as every order settles at once.
    pub fn get_orders(&self) -> (r: Vec<Fill>)
        ensures
            r@.len() == 0,
    {
        Vec::new()
    }

    /// Sets the price at which the next orders settle.
    pub fn set_current_price(&mut self, price: Quantity)
        requires
            old(self).wf(),
            price.wf(),
        ensures
            final(self).wf(),
            final(self).spec_current_price() == price,
            final(self).spec_balance() == old(self).spec_balance(),
            final(self).spec_commission() == old(self).spec_commission(),
            final(self).spec_threshold() == old(self).spec_threshold(),
    {
        self.current_price = price;
    }

    /// Buys `quantity` lots at the current simulated price, debiting the cost and the
    /// commission. Only market orders without a price hint are accepted.
    pub fn order_buy(&mut self, quantity: i64, price: Option<Quantity>, order_type: OrderType) -> (r: Result<Fill, ExecutionError>)
        requires
            old(self).wf(),
        ensures
            final(self).wf(),
            final(self).spec_current_price() == old(self).spec_current_price(),
            final(self).spec_commission() == old(self).spec_commission(),
            final(self).spec_threshold() == old(self).spec_threshold(),
            match old(self).spec_buy(quantity, price, order_type) {
                Ok((fill, b)) => r == Ok::<Fill, ExecutionError>(fill) && final(self).spec_balance() == b,
                Err(e) => r == Err::<Fill, ExecutionError>(e) && final(self).spec_balance() == old(self).spec_balance(),
            },
    {
        if self.balance.units < 0 || (self.balance.units as i128) < (self.trash_hold as i128) {
            return Err(ExecutionError::InsufficientFunds {
                balance_units: self.balance.units,
                threshold: self.trash_hold,
            });
        }
        if self.balance.units <= 0 || quantity <= 0 {
            return Err(ExecutionError::Cancelled);
        }
        if price.is_some() || order_type != OrderType::Market {
            return Err(ExecutionError::UnsupportedOrder);
        }
        let p = self.current_price;
        let cost = match p.scale(quantity) {
            Some(c) => c,
            None => return Err(ExecutionError::Overflow),
        };
        proof {
            lemma_checked_from(p.value() * quantity);
            lemma_lt_is_value_lt(self.balance, cost);
        }
        if self.balance.lt(&cost) {
            return Err(ExecutionError::NotEnoughMoney);
        }
        let fee = match cost.percent_of(self.commission) {
            Some(f) => f,
            None => return Err(ExecutionError::Overflow),
        };
        proof {
            lemma_checked_from(trunc_div(cost.value() * self.commission, 100));
        }
        let wide: i128 = self.balance.to_nanos() - cost.to_nanos() - fee.to_nanos();
        let b = match from_nanos(wide) {
            Some(b) => b,
            None => return Err(ExecutionError::Overflow),
        };
        self.balance = b;
        Ok(Fill { direction: OrderDirection::Buy, lots: quantity, price: p, commission: fee })
    }

    /// Sells `quantity` lots at the current simulated price, crediting the proceeds and
    /// debiting the commission. Only market orders without a price hint are accepted.
    pub fn order_sell(&mut self, quantity: i64, price: Option<Quantity>, order_type: OrderType) -> (r: Result<Fill, ExecutionError>)
        requires
            old(self).wf(),
        ensures
            final(self).wf(),
            final(self).spec_current_price() == old(self).spec_current_price(),
            final(self).spec_commission() == old(self).spec_commission(),
            final(self).spec_threshold() == old(self).spec_threshold(),
            match old(self).spec_sell(quantity, price, order_type) {
                Ok((fill, b)) => r == Ok::<Fill, ExecutionError>(fill) && final(self).spec_balance() == b,
                Err(e) => r == Err::<Fill, ExecutionError>(e) && final(self).spec_balance() == old(self).spec_balance(),
            },
    {
        if quantity <= 0 {
            return Err(ExecutionError::Cancelled);
        }
        if price.is_some() || order_type != OrderType::Market {
            return Err(ExecutionError::UnsupportedOrder);
        }
        let p = self.current_price;
        let proceeds = match p.scale(quantity) {
            Some(c) => c,
            None => return Err(ExecutionError::Overflow),
        };
        proof {
            lemma_checked_from(p.value() * quantity);
        }
        let fee = match proceeds.percent_of(self.commission) {
            Some(f) => f,
            None => return Err(ExecutionError::Overflow),
        };
        proof {
            lemma_checked_from(trunc_div(proceeds.value() * self.commission, 100));
        }
        let wide: i128 = self.balance.to_nanos() + proceeds.to_nanos() - fee.to_nanos();
        let b = match from_nanos(wide) {
            Some(b) => b,
            None => return Err(ExecutionError::Overflow),
        };
        self.balance = b;
        Ok(Fill { direction: OrderDirection::Sell, lots: quantity, price: p, commission: fee })
    }
}

} // verus!
