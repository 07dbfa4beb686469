//! Preference between the venues of one instrument.

use crate::models::StockExchange;
use std::cmp::Ordering;
use vstd::prelude::*;
use vstd::string::StringExecFns;

verus! {

/// The number of venue codes on the priority list.
pub const FAVORITE_COUNT: usize = 10;

/// The place of a venue code on the priority list, counted from zero, or
/// `FAVORITE_COUNT` for a code that is not on it.
pub open spec fn preference_rank(code: Seq<char>) -> int {
    if code == "GER"@ {
        0
    } else if code == "QUO"@ {
        1
    } else if code == "FRA"@ {
        2
    } else if code == "LUSG"@ {
        3
    } else if code == "STU"@ {
        4
    } else if code == "HAM"@ {
        5
    } else if code == "MUN"@ {
        6
    } else if code == "BER"@ {
        7
    } else if code == "GAT"@ {
        8
    } else if code == "DUS"@ {
        9
    } else {
        10
    }
}

fn code_is(code: &String, favorite: &str) -> (r: bool)
    ensures
        r == (code@ == favorite@),
{
    let f = String::from_str(favorite);
    *code == f
}

/// Computes `preference_rank` of a venue code.
pub fn exchange_rank(code: &String) -> (r: usize)
    ensures
        r == preference_rank(code@),
        r <= FAVORITE_COUNT,
{
    if code_is(code, "GER") {
        0
    } else if code_is(code, "QUO") {
        1
    } else if code_is(code, "FRA") {
        2
    } else if code_is(code, "LUSG") {
        3
    } else if code_is(code, "STU") {
        4
    } else if code_is(code, "HAM") {
        5
    } else if code_is(code, "MUN") {
        6
    } else if code_is(code, "BER") {
        7
    } else if code_is(code, "GAT") {
        8
    } else if code_is(code, "DUS") {
        9
    } else {
        10
    }
}

/// Orders two venues by preference: the one whose code stands earlier on the
/// priority list comes first, a listed code comes before an unlisted one, and
/// two unlisted codes are equal.
pub fn exchange_comparison(a: &StockExchange, b: &StockExchange) -> (r: Ordering)
    ensures
        (r == Ordering::Less) == (preference_rank(a.code@) < preference_rank(b.code@)),
        (r == Ordering::Equal) == (preference_rank(a.code@) == preference_rank(b.code@)),
        (r == Ordering::Greater) == (preference_rank(a.code@) > preference_rank(b.code@)),
{
    let rank_a = exchange_rank(&a.code);
    let rank_b = exchange_rank(&b.code);
    if rank_a < rank_b {
        Ordering::Less
    } else if rank_a == rank_b {
        Ordering::Equal
    } else {
        Ordering::Greater
    }
}

} // verus!
