//! The records that the engine reads.

use vstd::prelude::*;

verus! {

/// A venue on which one instrument trades.
#[derive(Debug)]
pub struct StockExchange {
    pub isin: String,
    pub name: String,
    pub code: String,
    pub quality: Option<String>,
    /// Identifies venue and instrument together; price rows carry it.
    pub onvista_record_id: i32,
    /// Identifies the venue alone.
    pub onvista_exchange_id: Option<i32>,
}

/// Copies an optional string.
pub fn clone_optional_string(s: &Option<String>) -> (r: Option<String>)
    ensures
        r == *s,
{
    match s {
        Some(x) => Some(x.clone()),
        None => None,
    }
}

impl Clone for StockExchange {
    fn clone(&self) -> (r: Self)
        ensures
            r == *self,
    {
        StockExchange {
            isin: self.isin.clone(),
            name: self.name.clone(),
            code: self.code.clone(),
            quality: clone_optional_string(&self.quality),
            onvista_record_id: self.onvista_record_id,
            onvista_exchange_id: self.onvista_exchange_id,
        }
    }
}

/// An end-of-day bar of one venue.
#[derive(Debug, Clone, Copy, PartialEq, Eq, Structural)]
pub struct HistoricalPrice {
    /// The calendar day of the bar.
    pub date: i32,
    /// 09:00 local time on that day, as an instant.
    pub opens_at: i64,
    /// 18:00 local time on that day, as an instant.
    pub closes_at: i64,
    pub opening: i64,
    pub closing: i64,
    pub high: i64,
    pub low: i64,
    pub volume: i32,
    pub onvista_record_id: i32,
}

/// An intraday tick of one venue.
#[derive(Debug, Clone, Copy, PartialEq, Eq, Structural)]
pub struct RealtimePrice {
    pub date: i64,
    pub price: i64,
    pub onvista_record_id: i32,
}

impl HistoricalPrice {
    /// Prices and instants of the bar are of a size that the engine can
    /// work with, and the bar opens before it closes.
    pub open spec fn in_range(&self) -> bool {
        &&& -MAX_PRICE <= self.opening <= MAX_PRICE
        &&& -MAX_PRICE <= self.closing <= MAX_PRICE
        &&& -MAX_INSTANT <= self.opens_at <= MAX_INSTANT
        &&& -MAX_INSTANT <= self.closes_at <= MAX_INSTANT
        &&& self.opens_at < self.closes_at
    }

    /// Computes `in_range`.
    pub fn is_in_range(&self) -> (r: bool)
        ensures
            r == self.in_range(),
    {
        -MAX_PRICE <= self.opening && self.opening <= MAX_PRICE && -MAX_PRICE <= self.closing
            && self.closing <= MAX_PRICE && -MAX_INSTANT <= self.opens_at && self.opens_at
            <= MAX_INSTANT && -MAX_INSTANT <= self.closes_at && self.closes_at <= MAX_INSTANT
            && self.opens_at < self.closes_at
    }
}

impl RealtimePrice {
    /// Price and instant of the tick are of a size that the engine can work
    /// with.
    pub open spec fn in_range(&self) -> bool {
        &&& -MAX_PRICE <= self.price <= MAX_PRICE
        &&& -MAX_INSTANT <= self.date <= MAX_INSTANT
    }

    /// Computes `in_range`.
    pub fn is_in_range(&self) -> (r: bool)
        ensures
            r == self.in_range(),
    {
        -MAX_PRICE <= self.price && self.price <= MAX_PRICE && -MAX_INSTANT <= self.date
            && self.date <= MAX_INSTANT
    }
}

#[derive(Debug)]
pub struct User {
    pub id: i32,
    pub name: String,
    pub full_name: String,
    pub hash: String,
}

impl Clone for User {
    fn clone(&self) -> (r: Self)
        ensures
            r == *self,
    {
        User {
            id: self.id,
            name: self.name.clone(),
            full_name: self.full_name.clone(),
            hash: self.hash.clone(),
        }
    }
}

#[derive(Debug)]
pub struct NewUser {
    pub name: String,
    pub full_name: String,
    pub hash: String,
}

impl Clone for NewUser {
    fn clone(&self) -> (r: Self)
        ensures
            r == *self,
    {
        NewUser {
            name: self.name.clone(),
            full_name: self.full_name.clone(),
            hash: self.hash.clone(),
        }
    }
}

#[derive(Debug)]
pub struct Account {
    pub id: i32,
    pub user_id: i32,
    pub name: String,
    pub iban: Option<String>,
}

impl Clone for Account {
    fn clone(&self) -> (r: Self)
        ensures
            r == *self,
    {
        Account {
            id: self.id,
            user_id: self.user_id,
            name: self.name.clone(),
            iban: clone_optional_string(&self.iban),
        }
    }
}

#[derive(Debug)]
pub struct NewAccount {
    pub user_id: i32,
    pub name: String,
    pub iban: Option<String>,
}

impl Clone for NewAccount {
    fn clone(&self) -> (r: Self)
        ensures
            r == *self,
    {
        NewAccount {
            user_id: self.user_id,
            name: self.name.clone(),
            iban: clone_optional_string(&self.iban),
        }
    }
}

/// A purchase, sale or dividend booked on an account.
#[derive(Debug)]
pub struct Transaction {
    pub id: i32,
    pub account_id: i32,
    pub isin: String,
    /// The instant of the booking.
    pub date: i64,
    /// The calendar day on which that instant falls in local time.
    pub local_day: i32,
    /// Change of the position, in millionths of a unit; negative for a sale.
    pub units: i64,
    /// Cash in minor units, fees not included; negative for money paid out.
    pub amount: i64,
    /// Fees in minor units; negative for fees paid.
    pub fees: i64,
    pub onvista_exchange_id: Option<i32>,
    pub comments: String,
    pub exchange: Option<String>,
    pub receipt_number: Option<i64>,
}

/// The largest number of entries in a list that the engine works on.
pub const MAX_ENTRIES: usize = 1_000_000;

/// The largest magnitude of a transaction's unit count.
pub const MAX_UNITS: i64 = 10_000_000_000_000;

/// The largest magnitude of a transaction's amount and of its fees.
pub const MAX_AMOUNT: i64 = 1_000_000_000_000_000;

/// The largest magnitude of a price.
pub const MAX_PRICE: i64 = 10_000_000_000;

/// The largest magnitude of an instant.
pub const MAX_INSTANT: i64 = 10_000_000_000_000;

impl Transaction {
    /// The numbers of the transaction are of a size that the engine can add
    /// up without loss.
    pub open spec fn in_range(&self) -> bool {
        &&& -MAX_UNITS <= self.units <= MAX_UNITS
        &&& -MAX_AMOUNT <= self.amount <= MAX_AMOUNT
        &&& -MAX_AMOUNT <= self.fees <= MAX_AMOUNT
        &&& -MAX_INSTANT <= self.date <= MAX_INSTANT
    }

    /// Computes `in_range`.
    pub fn is_in_range(&self) -> (r: bool)
        ensures
            r == self.in_range(),
    {
        -MAX_UNITS <= self.units && self.units <= MAX_UNITS && -MAX_AMOUNT <= self.amount
            && self.amount <= MAX_AMOUNT && -MAX_AMOUNT <= self.fees && self.fees <= MAX_AMOUNT
            && -MAX_INSTANT <= self.date && self.date <= MAX_INSTANT
    }

    /// The cash that the transaction moved, fees included, in minor units.
    pub open spec fn cash(&self) -> int {
        self.amount + self.fees
    }
}

/// Every transaction of the list is in range, and the list is not longer
/// than the engine allows.
pub open spec fn transactions_in_range(ts: Seq<Transaction>) -> bool {
    &&& ts.len() <= MAX_ENTRIES
    &&& forall|i: int| 0 <= i < ts.len() ==> (#[trigger] ts[i]).in_range()
}

/// Computes `transactions_in_range`.
pub fn check_transactions(ts: &Vec<Transaction>) -> (r: bool)
    ensures
        r == transactions_in_range(ts@),
{
    if ts.len() > MAX_ENTRIES {
        return false;
    }
    let mut i: usize = 0;
    while i < ts.len()
        invariant
            i <= ts.len(),
            forall|j: int| 0 <= j < i ==> (#[trigger] ts[j]).in_range(),
        decreases ts.len() - i,
    {
        if !ts[i].is_in_range() {
            return false;
        }
        i += 1;
    }
    true
}

impl Clone for Transaction {
    fn clone(&self) -> (r: Self)
        ensures
            r == *self,
    {
        Transaction {
            id: self.id,
            account_id: self.account_id,
            isin: self.isin.clone(),
            date: self.date,
            local_day: self.local_day,
            units: self.units,
            amount: self.amount,
            fees: self.fees,
            onvista_exchange_id: self.onvista_exchange_id,
            comments: self.comments.clone(),
            exchange: clone_optional_string(&self.exchange),
            receipt_number: self.receipt_number,
        }
    }
}

} // verus!
