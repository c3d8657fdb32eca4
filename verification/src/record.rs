//! The quote record and its mathematical view.

use vstd::prelude::*;

verus! {

/// A price, held as the bit pattern of an IEEE 754 binary64 number.
///
/// The store never computes with a price; it only carries it. Two prices are
/// equal when their bit patterns are.
#[derive(Clone, Copy, Debug, PartialEq, Eq, Structural)]
pub struct Price {
    bits: u64,
}

impl Price {
    /// The bit pattern this price stands for.
    pub closed spec fn spec_bits(self) -> u64 {
        self.bits
    }

    /// Makes a price from a binary64 bit pattern.
    pub fn from_bits(bits: u64) -> (price: Price)
        ensures
            price.spec_bits() == bits,
    {
        Price { bits }
    }

    /// Returns the binary64 bit pattern of this price.
    #[verifier::when_used_as_spec(spec_bits)]
    pub fn to_bits(self) -> (bits: u64)
        ensures
            bits == self.spec_bits(),
    {
        self.bits
    }
}

/// One currency-pair quote: the only entity of the service.
///
/// No field is validated: any identifier, any symbol and any price are
/// accepted.
#[derive(Debug, PartialEq)]
pub struct ForexPair {
    /// The key under which the store holds the record.
    pub id: u64,
    /// The symbol of the pair, such as `EUR/USD`.
    pub pair: String,
    /// The quoted price.
    pub price: Price,
}

/// What a [`ForexPair`] is, mathematically: its identifier, the characters of
/// its symbol, and its price.
pub struct ForexPairView {
    pub id: u64,
    pub pair: Seq<char>,
    pub price: Price,
}

impl View for ForexPair {
    type V = ForexPairView;

    open spec fn view(&self) -> ForexPairView {
        ForexPairView { id: self.id, pair: self.pair@, price: self.price }
    }
}

impl Clone for ForexPair {
    fn clone(&self) -> (copy: ForexPair)
        ensures
            copy == *self,
    {
        ForexPair { id: self.id, pair: self.pair.clone(), price: self.price }
    }
}

/// The view of an optional record.
pub open spec fn option_view(record: Option<ForexPair>) -> Option<ForexPairView> {
    match record {
        Some(r) => Some(r@),
        None => None,
    }
}

/// The view of an optional borrowed record.
pub open spec fn option_ref_view(record: Option<&ForexPair>) -> Option<ForexPairView> {
    match record {
        Some(r) => Some(r@),
        None => None,
    }
}

/// The views of a sequence of borrowed records, in the same order.
pub open spec fn seq_view(records: Seq<&ForexPair>) -> Seq<ForexPairView> {
    records.map_values(|r: &ForexPair| r@)
}

/// The views of a sequence of keyed records, in the same order.
pub open spec fn entries_view(entries: Seq<(u64, ForexPair)>) -> Seq<(u64, ForexPairView)> {
    entries.map_values(|e: (u64, ForexPair)| (e.0, e.1@))
}

/// The views of a sequence of keyed borrowed records, in the same order.
pub open spec fn entries_ref_view(entries: Seq<(u64, &ForexPair)>) -> Seq<(u64, ForexPairView)> {
    entries.map_values(|e: (u64, &ForexPair)| (e.0, e.1@))
}

/// The views of the keyed records that were read back, if any were.
pub open spec fn parsed_view(parsed: Option<Vec<(u64, ForexPair)>>) -> Option<
    Seq<(u64, ForexPairView)>,
> {
    match parsed {
        Some(entries) => Some(entries_view(entries@)),
        None => None,
    }
}

} // verus!
