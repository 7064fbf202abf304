//! The instruments that the exchange knows.

use crate::names::{AssetNameExchange, ExchangeId, InstrumentNameExchange};
use vstd::prelude::*;

verus! {

/// The two assets of an instrument.
#[derive(Debug, PartialEq, Eq)]
pub struct Underlying {
    pub base: AssetNameExchange,
    pub quote: AssetNameExchange,
}

impl Clone for Underlying {
    fn clone(&self) -> (result: Underlying)
        ensures
            result == *self,
    {
        Underlying { base: self.base.clone(), quote: self.quote.clone() }
    }
}

/// An instrument: its base asset is traded against its quote asset.
#[derive(Debug, PartialEq, Eq)]
pub struct Instrument {
    pub exchange: ExchangeId,
    pub name_exchange: InstrumentNameExchange,
    pub underlying: Underlying,
}

/// `fnv`'s hasher.
#[verifier::external_type_specification]
#[verifier::external_body]
pub struct ExFnvHasher(fnv::FnvHasher);

/// std's builder of hashers that start from their default.
#[verifier::external_type_specification]
#[verifier::external_body]
#[verifier::reject_recursive_types(H)]
pub struct ExBuildHasherDefault<H>(core::hash::BuildHasherDefault<H>);

/// The instruments of a map, by their names.
pub uninterp spec fn instruments_of(map: fnv::FnvHashMap<String, Instrument>) -> Map<Seq<char>, Instrument>;

/// Looks a name up with `get` of `fnv`'s `FnvHashMap`, which is a `HashMap` with another hasher.
#[verifier::external_body]
pub(crate) fn instrument_named<'a>(
    map: &'a fnv::FnvHashMap<String, Instrument>,
    name: &InstrumentNameExchange,
) -> (result: Option<&'a Instrument>)
    ensures
        result is Some <==> instruments_of(*map).contains_key(name@),
        result matches Some(instrument) ==> *instrument == instruments_of(*map)[name@],
{
    map.get(&name.0)
}

} // verus!
