//! The triples of an HDT file: their orders, and the cache beside the file.
use crate::text::decimal_text;
use vstd::prelude::*;

pub mod cache_load;
pub mod cache_source;
pub mod cache_store;
pub mod hybrid_cache;
pub mod wavelet;

verus! {

/// The number of a term in its section of the dictionary, from 1. 0 stands for
/// no term, or, in a pattern, for any.
pub type Id = usize;

/// A triple by the numbers of its subject, predicate and object.
pub type TripleId = [usize; 3];

/// The order in which triples are stored.
#[derive(Debug, Clone, Copy, PartialEq, Eq, Structural)]
pub enum Order {
    Unknown,
    SPO,
    SOP,
    PSO,
    POS,
    OSP,
    OPS,
}

impl Order {
    /// The number that stands for the order in a file.
    pub open spec fn spec_number(self) -> u8 {
        match self {
            Order::Unknown => 0,
            Order::SPO => 1,
            Order::SOP => 2,
            Order::PSO => 3,
            Order::POS => 4,
            Order::OSP => 5,
            Order::OPS => 6,
        }
    }

    /// The number that stands for the order in a file.
    pub fn number(&self) -> (number: u8)
        ensures
            number == self.spec_number(),
            number == match self {
                Order::Unknown => 0u8,
                Order::SPO => 1,
                Order::SOP => 2,
                Order::PSO => 3,
                Order::POS => 4,
                Order::OSP => 5,
                Order::OPS => 6,
            },
    {
        match self {
            Order::Unknown => 0,
            Order::SPO => 1,
            Order::SOP => 2,
            Order::PSO => 3,
            Order::POS => 4,
            Order::OSP => 5,
            Order::OPS => 6,
        }
    }

    /// The order that a number stands for.
    pub fn try_from(number: u32) -> (order: Result<Order, UnrecognizedOrder>)
        ensures
            match order {
                Ok(order) => order.spec_number() == number,
                Err(e) => number > 6 && e.number == number,
            },
            number == 0 ==> order == Ok::<Order, UnrecognizedOrder>(Order::Unknown),
            number == 1 ==> order == Ok::<Order, UnrecognizedOrder>(Order::SPO),
            number == 2 ==> order == Ok::<Order, UnrecognizedOrder>(Order::SOP),
            number == 3 ==> order == Ok::<Order, UnrecognizedOrder>(Order::PSO),
            number == 4 ==> order == Ok::<Order, UnrecognizedOrder>(Order::POS),
            number == 5 ==> order == Ok::<Order, UnrecognizedOrder>(Order::OSP),
            number == 6 ==> order == Ok::<Order, UnrecognizedOrder>(Order::OPS),
            number > 6 ==> order is Err,
    {
        match number {
            0 => Ok(Order::Unknown),
            1 => Ok(Order::SPO),
            2 => Ok(Order::SOP),
            3 => Ok(Order::PSO),
            4 => Ok(Order::POS),
            5 => Ok(Order::OSP),
            6 => Ok(Order::OPS),
            _ => Err(UnrecognizedOrder { number }),
        }
    }
}

/// A number that stands for no order.
#[derive(Debug, Clone, Copy, PartialEq, Eq, Structural)]
pub struct UnrecognizedOrder {
    pub number: u32,
}

impl UnrecognizedOrder {
    /// What the error says.
    pub open spec fn spec_message(self) -> Seq<char> {
        "unrecognized triples order "@ + crate::text::decimal(self.number as nat)
    }

    /// What the error says.
    pub fn message(&self) -> (text: String)
        ensures
            text@ == self.spec_message(),
    {
        let mut text = "unrecognized triples order ".to_owned();
        text.append(decimal_text(self.number as u64).as_str());
        text
    }
}

} // verus!
