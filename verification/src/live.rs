//! The latest state of each index, and what the market page is shown of it.
use vstd::prelude::*;

use crate::amount::Amount;
use crate::chain::{aggregate, is_aggregate, StrikeRow, WindowAgg, STRIKE_WINDOWS};
use crate::indices::{index_at, index_position, index_spec, position_of, INDEX_COUNT};
use crate::text::same_text;

verus! {

#[derive(Debug, Clone)]
pub struct IndexLive<N> {
    pub expiry: Option<String>,
    pub spot: Option<N>,
    pub atm_strike: Option<N>,
    pub future_symbol: Option<String>,
    pub fut_ltp: Option<N>,
    pub fut_vwap: Option<N>,
    /// IST `YYYY-MM-DD HH:MM:SS` of the last successful chain poll.
    pub updated_at: Option<String>,
    pub last_error: Option<String>,
    /// Sorted by strike ascending.
    pub chain: Vec<StrikeRow<N>>,
}

impl<N> IndexLive<N> {
    /// Whether two states agree in everything.
    pub open spec fn same(self, other: IndexLive<N>) -> bool {
        &&& self.same_but_error(other)
        &&& self.last_error == other.last_error
    }

    /// Whether two states agree in everything but the last error.
    pub open spec fn same_but_error(self, other: IndexLive<N>) -> bool {
        &&& self.expiry == other.expiry
        &&& self.spot == other.spot
        &&& self.atm_strike == other.atm_strike
        &&& self.future_symbol == other.future_symbol
        &&& self.fut_ltp == other.fut_ltp
        &&& self.fut_vwap == other.fut_vwap
        &&& self.updated_at == other.updated_at
        &&& self.chain@ == other.chain@
    }

    /// Whether nothing is known yet.
    pub open spec fn unknown(self) -> bool {
        &&& self.unknown_but_error()
        &&& self.last_error is None
    }

    /// Whether nothing is known yet but, perhaps, an error.
    pub open spec fn unknown_but_error(self) -> bool {
        &&& self.expiry is None
        &&& self.spot is None
        &&& self.atm_strike is None
        &&& self.future_symbol is None
        &&& self.fut_ltp is None
        &&& self.fut_vwap is None
        &&& self.updated_at is None
        &&& self.chain@.len() == 0
    }
}

impl<N> Default for IndexLive<N> {
    fn default() -> (r: Self)
        ensures
            r.unknown(),
    {
        IndexLive {
            expiry: None,
            spot: None,
            atm_strike: None,
            future_symbol: None,
            fut_ltp: None,
            fut_vwap: None,
            updated_at: None,
            last_error: None,
            chain: Vec::new(),
        }
    }
}

fn copy_text(t: &Option<String>) -> (r: Option<String>)
    ensures
        r == *t,
{
    match t {
        Some(s) => Some(s.clone()),
        None => None,
    }
}

fn copy_rows<N: Amount>(rows: &Vec<StrikeRow<N>>) -> (r: Vec<StrikeRow<N>>)
    ensures
        r@ == rows@,
{
    let mut out: Vec<StrikeRow<N>> = Vec::new();
    let mut i: usize = 0;
    while i < rows.len()
        invariant
            i <= rows@.len(),
            out@ == rows@.take(i as int),
        decreases rows@.len() - i,
    {
        out.push(rows[i]);
        assert(out@ =~= rows@.take(i + 1));
        i = i + 1;
    }
    assert(out@ =~= rows@);
    out
}

fn copy_live<N: Amount>(live: &IndexLive<N>) -> (r: IndexLive<N>)
    ensures
        r.same(*live),
{
    IndexLive {
        expiry: copy_text(&live.expiry),
        spot: live.spot,
        atm_strike: live.atm_strike,
        future_symbol: copy_text(&live.future_symbol),
        fut_ltp: live.fut_ltp,
        fut_vwap: live.fut_vwap,
        updated_at: copy_text(&live.updated_at),
        last_error: copy_text(&live.last_error),
        chain: copy_rows(&live.chain),
    }
}

/// The latest state of every index.
#[derive(Debug)]
pub struct MarketDataState<N> {
    /// Whether an analytics token is configured at all.
    pub configured: bool,
    /// By position of the index; `None` until its first poll.
    pub indices: Vec<Option<IndexLive<N>>>,
}

/// Whether `live` is what is known of an index: its state, or that nothing is known.
pub open spec fn is_known_state<N>(state: Option<IndexLive<N>>, live: IndexLive<N>) -> bool {
    match state {
        Some(s) => live.same(s),
        None => live.unknown(),
    }
}

impl<N: Amount> MarketDataState<N> {
    /// There is a place for every index.
    pub open spec fn wf(self) -> bool {
        self.indices@.len() == INDEX_COUNT
    }

    /// A state in which nothing has been polled.
    pub fn new(configured: bool) -> (r: Self)
        ensures
            r.wf(),
            r.configured == configured,
            forall|i: int| 0 <= i < INDEX_COUNT ==> (#[trigger] r.indices@[i]) is None,
    {
        let mut indices: Vec<Option<IndexLive<N>>> = Vec::new();
        while indices.len() < INDEX_COUNT
            invariant
                indices@.len() <= INDEX_COUNT,
                forall|i: int| 0 <= i < indices@.len() ==> (#[trigger] indices@[i]) is None,
            decreases INDEX_COUNT - indices@.len(),
        {
            indices.push(None);
        }
        MarketDataState { configured, indices }
    }

    /// What is known of the index at position `i`.
    pub fn live(&self, i: usize) -> (r: IndexLive<N>)
        requires
            self.wf(),
            i < INDEX_COUNT,
        ensures
            is_known_state(self.indices@[i as int], r),
            self.indices@[i as int] is Some ==> {
                let stored = self.indices@[i as int]->0;
                &&& r.expiry == stored.expiry
                &&& r.spot == stored.spot
                &&& r.atm_strike == stored.atm_strike
                &&& r.future_symbol == stored.future_symbol
                &&& r.fut_ltp == stored.fut_ltp
                &&& r.fut_vwap == stored.fut_vwap
                &&& r.updated_at == stored.updated_at
                &&& r.last_error == stored.last_error
                &&& r.chain@ == stored.chain@
            },
    {
        match &self.indices[i] {
            Some(live) => copy_live(live),
            None => IndexLive::default(),
        }
    }

    /// Records a successful poll: everything known of the index is replaced.
    pub fn record_success(&mut self, i: usize, live: IndexLive<N>)
        requires
            old(self).wf(),
            i < INDEX_COUNT,
        ensures
            final(self).wf(),
            final(self).configured == old(self).configured,
            final(self).indices@ == old(self).indices@.update(i as int, Some(live)),
    {
        self.indices.set(i, Some(live));
    }

    /// Records a failed poll: the last error becomes `message` and everything else stays
    /// as it was. Returns whether the error is news, that is, differs from the last one.
    pub fn record_failure(&mut self, i: usize, message: String) -> (news: bool)
        requires
            old(self).wf(),
            i < INDEX_COUNT,
        ensures
            final(self).wf(),
            final(self).configured == old(self).configured,
            forall|j: int|
                0 <= j < INDEX_COUNT && j != i ==> #[trigger] final(self).indices@[j]
                    == old(self).indices@[j],
            final(self).indices@[i as int] is Some,
            final(self).indices@[i as int]->0.last_error == Some(message),
            match old(self).indices@[i as int] {
                Some(before) => final(self).indices@[i as int]->0.same_but_error(before),
                None => final(self).indices@[i as int]->0.unknown_but_error(),
            },
            news == !(old(self).indices@[i as int] is Some && old(
                self,
            ).indices@[i as int]->0.last_error is Some && old(
                self,
            ).indices@[i as int]->0.last_error->0@ == message@),
    {
        let mut live = self.live(i);
        let news: bool = match &live.last_error {
            Some(e) => !same_text(e.as_str(), message.as_str()),
            None => true,
        };
        live.last_error = Some(message);
        self.indices.set(i, Some(live));
        news
    }
}

/// One index on the market page.
#[derive(Debug)]
pub struct LiveIndexDto<N> {
    pub underlying: &'static str,
    pub live: IndexLive<N>,
    pub windows: Vec<WindowAgg<N>>,
}

/// The market page.
#[derive(Debug)]
pub struct LiveDto<N> {
    pub configured: bool,
    pub indices: Vec<LiveIndexDto<N>>,
}

/// Whether `windows` are the aggregates of every strike window, where there is a chain
/// and a spot to aggregate around; none otherwise.
pub open spec fn are_windows<N: Amount>(live: IndexLive<N>, windows: Seq<WindowAgg<N>>) -> bool {
    if live.spot is Some && live.chain@.len() > 0 {
        &&& windows.len() == STRIKE_WINDOWS@.len()
        &&& forall|k: int|
            0 <= k < windows.len() ==> is_aggregate(
                live.chain@,
                live.spot->0,
                STRIKE_WINDOWS@[k],
                #[trigger] windows[k],
            )
    } else {
        windows.len() == 0
    }
}

/// The aggregates of every strike window around `spot`.
pub fn all_windows<N: Amount>(rows: &Vec<StrikeRow<N>>, spot: N) -> (r: Vec<WindowAgg<N>>)
    ensures
        r@.len() == STRIKE_WINDOWS@.len(),
        forall|k: int|
            0 <= k < r@.len() ==> is_aggregate(rows@, spot, STRIKE_WINDOWS@[k], #[trigger] r@[k]),
{
    let mut out: Vec<WindowAgg<N>> = Vec::new();
    let mut k: usize = 0;
    while k < 4
        invariant
            k <= 4,
            STRIKE_WINDOWS@.len() == 4,
            out@.len() == k,
            forall|j: int|
                0 <= j < k ==> is_aggregate(
                    rows@,
                    spot,
                    STRIKE_WINDOWS@[j],
                    #[trigger] out@[j],
                ),
        decreases 4 - k,
    {
        let w: i64 = STRIKE_WINDOWS[k];
        out.push(aggregate(rows.as_slice(), spot, w));
        k = k + 1;
    }
    out
}

/// The market page: every index in order, with what is known of it and the open interest
/// of its strike windows.
pub fn market_live<N: Amount>(state: &MarketDataState<N>) -> (r: LiveDto<N>)
    requires
        state.wf(),
    ensures
        r.configured == state.configured,
        r.indices@.len() == INDEX_COUNT,
        forall|i: int|
            0 <= i < INDEX_COUNT ==> {
                let dto = #[trigger] r.indices@[i];
                &&& dto.underlying == index_at(i).id
                &&& is_known_state(state.indices@[i], dto.live)
                &&& are_windows(dto.live, dto.windows@)
            },
{
    let mut out: Vec<LiveIndexDto<N>> = Vec::new();
    let mut i: usize = 0;
    while i < INDEX_COUNT
        invariant
            i <= INDEX_COUNT,
            state.wf(),
            out@.len() == i,
            forall|j: int|
                0 <= j < i ==> {
                    let dto = #[trigger] out@[j];
                    &&& dto.underlying == index_at(j).id
                    &&& is_known_state(state.indices@[j], dto.live)
                    &&& are_windows(dto.live, dto.windows@)
                },
        decreases INDEX_COUNT - i,
    {
        let live = state.live(i);
        let windows = match live.spot {
            Some(spot) => if live.chain.len() > 0 {
                all_windows(&live.chain, spot)
            } else {
                Vec::new()
            },
            None => Vec::new(),
        };
        out.push(LiveIndexDto { underlying: index_spec(i).id, live, windows });
        i = i + 1;
    }
    LiveDto { configured: state.configured, indices: out }
}

/// A request that cannot be served.
#[derive(Debug, Clone, Copy, PartialEq, Eq, Structural)]
pub enum RequestError {
    UnknownUnderlying,
    UnknownInterval,
    UnknownWindow,
}

impl RequestError {
    /// What the caller is told.
    pub open spec fn text(self) -> Seq<char> {
        match self {
            RequestError::UnknownUnderlying => "unknown underlying"@,
            RequestError::UnknownInterval => "interval must be one of 5, 15, 30, 60"@,
            RequestError::UnknownWindow => "window must be one of 5, 10, 20, 0"@,
        }
    }

    /// What the caller is told.
    pub fn message(&self) -> (r: &'static str)
        ensures
            r@ == self.text(),
    {
        match self {
            RequestError::UnknownUnderlying => "unknown underlying",
            RequestError::UnknownInterval => "interval must be one of 5, 15, 30, 60",
            RequestError::UnknownWindow => "window must be one of 5, 10, 20, 0",
        }
    }
}

/// Asks for the chain of one index.
#[derive(Debug, Clone)]
pub struct ChainQuery {
    pub underlying: String,
}

/// The latest chain of one index.
#[derive(Debug)]
pub struct ChainDto<N> {
    pub underlying: &'static str,
    pub expiry: Option<String>,
    pub spot: Option<N>,
    pub atm_strike: Option<N>,
    pub updated_at: Option<String>,
    pub strikes: Vec<StrikeRow<N>>,
}

/// The latest chain of the index that the query names, strike by strike.
pub fn market_option_chain<N: Amount>(state: &MarketDataState<N>, q: &ChainQuery) -> (r: Result<
    ChainDto<N>,
    RequestError,
>)
    requires
        state.wf(),
    ensures
        r is Ok <==> position_of(q.underlying@) is Some,
        r is Err ==> r->Err_0 == RequestError::UnknownUnderlying,
        r is Ok ==> {
            let i = position_of(q.underlying@)->0;
            let dto = r->Ok_0;
            &&& dto.underlying == index_at(i).id
            &&& match state.indices@[i] {
                Some(live) => {
                    &&& dto.expiry == live.expiry
                    &&& dto.spot == live.spot
                    &&& dto.atm_strike == live.atm_strike
                    &&& dto.updated_at == live.updated_at
                    &&& dto.strikes@ == live.chain@
                },
                None => {
                    &&& dto.expiry is None
                    &&& dto.spot is None
                    &&& dto.atm_strike is None
                    &&& dto.updated_at is None
                    &&& dto.strikes@.len() == 0
                },
            }
        },
{
    let i: usize = match index_position(q.underlying.as_str()) {
        Some(i) => i,
        None => {
            return Err(RequestError::UnknownUnderlying);
        },
    };
    let live = state.live(i);
    Ok(
        ChainDto {
            underlying: index_spec(i).id,
            expiry: live.expiry,
            spot: live.spot,
            atm_strike: live.atm_strike,
            updated_at: live.updated_at,
            strikes: live.chain,
        },
    )
}

/// States that agree in everything agree field by field, and those that agree in all but
/// the error in every field but the error; and states that agree in each field agree.
pub proof fn same_states_have_the_same_fields<N>(a: IndexLive<N>, b: IndexLive<N>)
    ensures
        a.same(b) <==> a.same_but_error(b) && a.last_error == b.last_error,
        a.same_but_error(b) <==> {
            &&& a.expiry == b.expiry
            &&& a.spot == b.spot
            &&& a.atm_strike == b.atm_strike
            &&& a.future_symbol == b.future_symbol
            &&& a.fut_ltp == b.fut_ltp
            &&& a.fut_vwap == b.fut_vwap
            &&& a.updated_at == b.updated_at
            &&& a.chain@ == b.chain@
        },
{
}

/// To agree is an equivalence: every state agrees with itself, both ways, and with what
/// agrees with one that it agrees with. A state of which nothing is known agrees only with
/// such states.
pub proof fn same_states_are_interchangeable<N>(
    a: IndexLive<N>,
    b: IndexLive<N>,
    c: IndexLive<N>,
)
    ensures
        a.same(a),
        a.same_but_error(a),
        a.same(b) ==> b.same(a),
        a.same_but_error(b) ==> b.same_but_error(a),
        a.same(b) && b.same(c) ==> a.same(c),
        a.same_but_error(b) && b.same_but_error(c) ==> a.same_but_error(c),
        a.unknown() && a.same(b) ==> b.unknown(),
        a.unknown() && b.unknown() ==> a.same(b),
        a.unknown_but_error() && b.unknown_but_error() ==> a.same_but_error(b),
{
    if a.unknown_but_error() && b.unknown_but_error() {
        assert(a.chain@ =~= b.chain@);
    }
}

/// What is shown of an index that has been polled is, field by field, what was recorded of
/// it; of one that has not been, nothing at all.
pub proof fn page_shows_what_was_recorded<N>(state: Option<IndexLive<N>>, shown: IndexLive<N>)
    requires
        is_known_state(state, shown),
    ensures
        state is Some ==> {
            let live = state->0;
            &&& shown.expiry == live.expiry
            &&& shown.spot == live.spot
            &&& shown.atm_strike == live.atm_strike
            &&& shown.future_symbol == live.future_symbol
            &&& shown.fut_ltp == live.fut_ltp
            &&& shown.fut_vwap == live.fut_vwap
            &&& shown.updated_at == live.updated_at
            &&& shown.last_error == live.last_error
            &&& shown.chain@ == live.chain@
        },
        state is None ==> {
            &&& shown.expiry is None
            &&& shown.spot is None
            &&& shown.atm_strike is None
            &&& shown.future_symbol is None
            &&& shown.fut_ltp is None
            &&& shown.fut_vwap is None
            &&& shown.updated_at is None
            &&& shown.last_error is None
            &&& shown.chain@.len() == 0
        },
{
}

/// Of an index about which at most an error is known, no field but the error is there.
pub proof fn unknown_states_are_empty<N>(live: IndexLive<N>)
    ensures
        live.unknown() <==> live.unknown_but_error() && live.last_error is None,
        live.unknown_but_error() <==> {
            &&& live.expiry is None
            &&& live.spot is None
            &&& live.atm_strike is None
            &&& live.future_symbol is None
            &&& live.fut_ltp is None
            &&& live.fut_vwap is None
            &&& live.updated_at is None
            &&& live.chain@.len() == 0
        },
{
}

/// The page aggregates a chain with a spot over 5, 10 and 20 strikes and as a whole, each
/// of them around that spot, and shows no aggregate without either.
pub proof fn page_aggregates_four_windows<N: Amount>(
    live: IndexLive<N>,
    windows: Seq<WindowAgg<N>>,
)
    requires
        are_windows(live, windows),
    ensures
        live.spot is None || live.chain@.len() == 0 ==> windows.len() == 0,
        live.spot is Some && live.chain@.len() > 0 ==> {
            &&& windows.len() == 4
            &&& is_aggregate(live.chain@, live.spot->0, 5, windows[0])
            &&& is_aggregate(live.chain@, live.spot->0, 10, windows[1])
            &&& is_aggregate(live.chain@, live.spot->0, 20, windows[2])
            &&& is_aggregate(live.chain@, live.spot->0, 0, windows[3])
        },
{
    if live.spot is Some && live.chain@.len() > 0 {
        assert(STRIKE_WINDOWS@[0] == 5 && STRIKE_WINDOWS@[1] == 10 && STRIKE_WINDOWS@[2] == 20
            && STRIKE_WINDOWS@[3] == 0);
        assert(is_aggregate(live.chain@, live.spot->0, STRIKE_WINDOWS@[0], windows[0]));
        assert(is_aggregate(live.chain@, live.spot->0, STRIKE_WINDOWS@[1], windows[1]));
        assert(is_aggregate(live.chain@, live.spot->0, STRIKE_WINDOWS@[2], windows[2]));
        assert(is_aggregate(live.chain@, live.spot->0, STRIKE_WINDOWS@[3], windows[3]));
    }
}

/// Each refusal says what was wrong with the request.
pub proof fn refusals_say_what_is_wrong(e: RequestError)
    ensures
        e is UnknownUnderlying ==> e.text() == "unknown underlying"@,
        e is UnknownInterval ==> e.text() == "interval must be one of 5, 15, 30, 60"@,
        e is UnknownWindow ==> e.text() == "window must be one of 5, 10, 20, 0"@,
{
}

} // verus!
