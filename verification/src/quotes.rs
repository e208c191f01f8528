//! What Upstox reports of the market: option chains and quotes.
use vstd::prelude::*;

use crate::amount::Amount;

verus! {

/// The traded side of one option contract.
#[derive(Debug, Clone, Copy)]
pub struct MarketData<N> {
    pub ltp: N,
    pub volume: N,
    pub oi: N,
    /// `None` when Upstox sends null. Callers must not treat that as zero, or the
    /// strike's entire OI would count as a same-day build-up.
    pub prev_oi: Option<N>,
    pub close_price: N,
}

#[derive(Debug, Clone, Copy)]
pub struct OptionGreeks<N> {
    pub iv: N,
    pub delta: N,
}

#[derive(Debug, Clone)]
pub struct OptionSide<N> {
    pub instrument_key: String,
    pub market_data: Option<MarketData<N>>,
    pub option_greeks: Option<OptionGreeks<N>>,
}

/// One strike of an option chain.
#[derive(Debug, Clone)]
pub struct OptionChainStrike<N> {
    pub expiry: String,
    pub strike_price: N,
    pub underlying_spot_price: N,
    pub call_options: Option<OptionSide<N>>,
    pub put_options: Option<OptionSide<N>>,
}

#[derive(Debug, Clone)]
pub struct Quote<N> {
    /// Pipe form (`NSE_FO|12345`). The response map itself is keyed by the
    /// colon/trading-symbol form, so match on this field instead.
    pub instrument_token: String,
    pub last_price: N,
    /// Exchange average traded price for the day, i.e. VWAP.
    pub average_price: N,
    pub volume: N,
    pub oi: N,
}

/// Market data with nothing traded.
pub open spec fn no_market_data<N: Amount>() -> MarketData<N> {
    MarketData {
        ltp: N::spec_zero(),
        volume: N::spec_zero(),
        oi: N::spec_zero(),
        prev_oi: None,
        close_price: N::spec_zero(),
    }
}

impl<N: Amount> Default for MarketData<N> {
    fn default() -> (r: Self)
        ensures
            r == no_market_data::<N>(),
    {
        MarketData {
            ltp: N::zero(),
            volume: N::zero(),
            oi: N::zero(),
            prev_oi: None,
            close_price: N::zero(),
        }
    }
}

impl<N: Amount> Default for OptionGreeks<N> {
    fn default() -> (r: Self)
        ensures
            r == (OptionGreeks { iv: N::spec_zero(), delta: N::spec_zero() }),
    {
        OptionGreeks { iv: N::zero(), delta: N::zero() }
    }
}

impl<N: Amount> Default for OptionSide<N> {
    fn default() -> (r: Self)
        ensures
            r.instrument_key@ == Seq::<char>::empty(),
            r.market_data is None,
            r.option_greeks is None,
    {
        OptionSide { instrument_key: String::new(), market_data: None, option_greeks: None }
    }
}

/// A numeric field of a response, as far as its JSON form has been read: a number, or
/// a text with the number it spells (its surrounding blanks aside), each as far as it
/// has a value, or anything else (null, missing, a list).
#[derive(Debug, Clone, Copy)]
pub enum NumericField<N> {
    Number(Option<N>),
    Text(Option<N>),
    Other,
}

/// The value of a numeric field, where it has one.
pub open spec fn field_value<N>(field: NumericField<N>) -> Option<N> {
    match field {
        NumericField::Number(v) => v,
        NumericField::Text(v) => v,
        NumericField::Other => None,
    }
}

/// Accepts a JSON number, a numeric string, or null, which counts as zero. Upstox
/// returns `null` for fields on illiquid strikes.
pub fn num<N: Amount>(field: NumericField<N>) -> (r: N)
    ensures
        r == (match field_value(field) {
            Some(v) => v,
            None => N::spec_zero(),
        }),
{
    match opt_num(field) {
        Some(v) => v,
        None => N::zero(),
    }
}

/// Like [`num`], but keeps "absent" distinct from zero: null, missing or unparseable
/// gives `None`.
pub fn opt_num<N: Amount>(field: NumericField<N>) -> (r: Option<N>)
    ensures
        r == field_value(field),
{
    match field {
        NumericField::Number(v) => v,
        NumericField::Text(v) => v,
        NumericField::Other => None,
    }
}

/// The market data of one side of a strike, all zero where there is none.
pub open spec fn side_data<N: Amount>(side: Option<OptionSide<N>>) -> MarketData<N> {
    match side {
        Some(s) => match s.market_data {
            Some(m) => m,
            None => no_market_data(),
        },
        None => no_market_data(),
    }
}

/// The implied volatility of one side of a strike, zero where there is none.
pub open spec fn side_iv<N: Amount>(side: Option<OptionSide<N>>) -> N {
    match side {
        Some(s) => match s.option_greeks {
            Some(g) => g.iv,
            None => N::spec_zero(),
        },
        None => N::spec_zero(),
    }
}

pub(crate) fn market_data_of<N: Amount>(side: &Option<OptionSide<N>>) -> (r: MarketData<N>)
    ensures
        r == side_data(*side),
{
    match side {
        Some(s) => match &s.market_data {
            Some(m) => *m,
            None => MarketData::default(),
        },
        None => MarketData::default(),
    }
}

pub(crate) fn iv_of<N: Amount>(side: &Option<OptionSide<N>>) -> (r: N)
    ensures
        r == side_iv(*side),
{
    match side {
        Some(s) => match &s.option_greeks {
            Some(g) => g.iv,
            None => N::zero(),
        },
        None => N::zero(),
    }
}

/// A numeric field has the value that its number or its text has, and none where it is
/// neither.
pub proof fn fields_have_their_own_value<N>(v: Option<N>)
    ensures
        field_value(NumericField::Number(v)) == v,
        field_value(NumericField::Text(v)) == v,
        field_value(NumericField::<N>::Other) is None,
{
}

/// Each side of a strike has the market data and the volatility that were reported of it,
/// and zeros where none were; the default of a missing previous open interest is none.
pub proof fn sides_have_what_was_reported<N: Amount>(side: Option<OptionSide<N>>)
    ensures
        side is Some && side->0.market_data is Some ==> side_data(side) == side->0.market_data->0,
        side is Some && side->0.option_greeks is Some ==> side_iv(side)
            == side->0.option_greeks->0.iv,
        side is None || side->0.market_data is None ==> {
            let m = side_data(side);
            &&& m.ltp == N::spec_zero()
            &&& m.volume == N::spec_zero()
            &&& m.oi == N::spec_zero()
            &&& m.prev_oi is None
            &&& m.close_price == N::spec_zero()
        },
        side is None || side->0.option_greeks is None ==> side_iv(side) == N::spec_zero(),
{
}

} // verus!
