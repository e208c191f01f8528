//! The market-data poller: once a minute during market hours it asks for the index
//! futures, their quotes and the option chains, and publishes what it learns.
//!
//! [`Poller`] makes the decisions. Whoever runs it performs the [`Action`] it names and
//! reports what came of it by the method that the action's documentation gives.
use vstd::prelude::*;

use crate::amount::Amount;
use crate::calendar::{day_text, format_day, is_day, is_plain_day, Clock};
use crate::chain::{
    atm_index, is_aggregate, is_atm, rows_of, stably_sorted, to_strike_rows, StrikeRow,
    WindowAgg, STRIKE_WINDOWS,
};
use crate::checks::minute_in;
use crate::client::UpstoxError;
use crate::futures::FutureContract;
use crate::indices::{
    index_at, index_spec, BSE_INSTRUMENTS_URL, INDEX_COUNT, NSE_INSTRUMENTS_URL,
};
use crate::live::{all_windows, IndexLive};
use crate::quotes::{OptionChainStrike, Quote};
use crate::text::{same_text, texts};
use crate::text_map::TextMap;

verus! {

/// First minute of day in which chains are polled: 09:15.
pub const POLL_START_MINUTE: u32 = 555;

/// Last minute of day in which chains are polled: 15:31, so that the closing "boundary +
/// 1 minute" check has a snapshot.
pub const POLL_END_MINUTE: u32 = 931;

/// Instruments files are fetched from 09:00, before the open, so that the multi-MB
/// download and parse do not land on top of the 09:15 open.
pub const FUTURES_REFRESH_START_MINUTE: u32 = 540;

/// A failed download is not tried again before so many nanoseconds have passed: ten
/// minutes.
pub const FUTURES_RETRY_GAP_NANOS: u64 = 600_000_000_000;

/// How many instruments files there are.
pub const FILE_COUNT: usize = 2;

/// Where the instruments file at position `file` is found.
pub open spec fn file_url(file: int) -> &'static str {
    if file == 0 {
        NSE_INSTRUMENTS_URL
    } else {
        BSE_INSTRUMENTS_URL
    }
}

/// The future symbols of the indices before position `n` whose instruments stand in the
/// file.
pub open spec fn wanted_before(file: int, n: int) -> Seq<Seq<char>>
    decreases n,
{
    if n <= 0 {
        Seq::empty()
    } else if index_at(n - 1).instruments_url@ == file_url(file)@ {
        wanted_before(file, n - 1).push(index_at(n - 1).future_symbol@)
    } else {
        wanted_before(file, n - 1)
    }
}

/// The future symbols looked for in an instruments file.
pub open spec fn wanted_in(file: int) -> Seq<Seq<char>> {
    wanted_before(file, INDEX_COUNT as int)
}

fn instruments_file(file: usize) -> (r: &'static str)
    ensures
        r == file_url(file as int),
{
    if file == 0 {
        NSE_INSTRUMENTS_URL
    } else {
        BSE_INSTRUMENTS_URL
    }
}

fn wanted_symbols(file: usize) -> (r: Vec<String>)
    ensures
        texts(r@) == wanted_in(file as int),
{
    let mut out: Vec<String> = Vec::new();
    let mut i: usize = 0;
    assert(texts(out@) =~= wanted_before(file as int, 0));
    while i < INDEX_COUNT
        invariant
            i <= INDEX_COUNT,
            texts(out@) == wanted_before(file as int, i as int),
        decreases INDEX_COUNT - i,
    {
        let spec = index_spec(i);
        if same_text(spec.instruments_url, instruments_file(file)) {
            out.push(spec.future_symbol.to_owned());
        }
        i = i + 1;
        assert(texts(out@) =~= wanted_before(file as int, i as int));
    }
    out
}

/// One aggregated row for the snapshot table.
#[derive(Debug)]
pub struct OiSnapshot<N> {
    pub ts: String,
    pub underlying: &'static str,
    pub expiry: String,
    pub strike_window: i64,
    pub call_oi: N,
    pub put_oi: N,
    pub call_oi_chg: N,
    pub put_oi_chg: N,
    pub spot: N,
    pub fut_ltp: Option<N>,
    pub fut_vwap: Option<N>,
}

/// What the poller knows for the rest of the current minute.
#[derive(Debug)]
pub struct Round<N> {
    pub today: i32,
    pub ts: String,
    pub quotes: TextMap<Quote<N>>,
}

/// What the poller waits for.
#[derive(Debug)]
pub enum Phase<N> {
    /// The next minute.
    Asleep,
    /// An instruments file.
    Refreshing { today: i32, file: usize },
    /// A second look at the clock.
    CheckingHours { today: i32 },
    /// The quotes of the index futures.
    Quoting { today: i32, ts: String },
    /// The nearest expiry of an index.
    FindingExpiry { round: Round<N>, index: usize },
    /// The option chain of an index.
    FetchingChain { round: Round<N>, index: usize, expiry: i32 },
    /// That the outcome for an index has been recorded.
    Recording { round: Round<N>, index: usize },
}

/// What has to be done next.
#[derive(Debug)]
pub enum Action<N> {
    /// Sleep to the next minute, then report to [`Poller::wake`].
    Sleep,
    /// Fetch the nearest futures on the wanted symbols out of an instruments file; report
    /// to [`Poller::futures_arrived`].
    FetchFutures { url: &'static str, wanted: Vec<String>, today: i32 },
    /// Read the clock; report to [`Poller::hours_checked`].
    ReadClock,
    /// Fetch the quotes of these instruments; report to [`Poller::quotes_arrived`].
    FetchQuotes { keys: Vec<String> },
    /// Fetch the nearest option expiry of an index; report to [`Poller::expiry_arrived`].
    FetchExpiry { index: usize, today: i32 },
    /// Fetch the option chain of an index; report to [`Poller::chain_arrived`].
    FetchChain { index: usize, expiry: i32 },
    /// Store the snapshots, then replace the live state of an index; report to
    /// [`Poller::recorded`]. The snapshots come first: if the writer's queue is full, only
    /// the poller waits, not the readers of the live state.
    Publish { index: usize, snapshots: Vec<OiSnapshot<N>>, live: IndexLive<N> },
    /// Record the failure to poll an index; report to [`Poller::recorded`].
    Fail { index: usize, message: String },
}

/// The nearest expiry of an index, and the day for which it was looked up.
#[derive(Debug, Clone, Copy)]
pub struct ExpiryLookup {
    pub day: i32,
    pub expiry: i32,
}

/// The poller's memory.
#[derive(Debug)]
pub struct Poller<N> {
    /// By position of the index.
    pub expiries: Vec<Option<ExpiryLookup>>,
    /// The index futures by symbol.
    pub futures: TextMap<FutureContract>,
    /// By position of the file: the day for which its futures are resolved.
    pub resolved_day: Vec<Option<i32>>,
    /// By position of the file: when it was last fetched, in nanoseconds of a clock that
    /// never goes back.
    pub last_attempt: Vec<Option<u64>>,
    pub phase: Phase<N>,
}

/// Whether a round can be carried on with.
pub open spec fn round_ok<N>(round: Round<N>) -> bool {
    is_day(round.today as int) && round.quotes.wf()
}

/// Whether this is the round of a minute for which the quotes have come or, where they
/// failed to, none are known.
pub open spec fn starts_round<N>(
    round: Round<N>,
    today: i32,
    ts: String,
    result: Result<TextMap<Quote<N>>, UpstoxError>,
) -> bool {
    &&& round.today == today
    &&& round.ts == ts
    &&& match result {
        Ok(quotes) => round.quotes == quotes,
        Err(e) => round.quotes.map() == Map::<Seq<char>, Quote<N>>::empty(),
    }
}

impl<N: Amount> Poller<N> {
    /// Every file and index has its place, and every date is one.
    pub open spec fn wf(self) -> bool {
        &&& self.expiries@.len() == INDEX_COUNT
        &&& forall|i: int|
            0 <= i < INDEX_COUNT && (#[trigger] self.expiries@[i]) is Some ==> is_day(
                self.expiries@[i]->0.expiry as int,
            )
        &&& self.futures.wf()
        &&& self.resolved_day@.len() == FILE_COUNT
        &&& self.last_attempt@.len() == FILE_COUNT
        &&& match self.phase {
            Phase::Asleep => true,
            Phase::Refreshing { today, file } => is_day(today as int) && file < FILE_COUNT,
            Phase::CheckingHours { today } => is_day(today as int),
            Phase::Quoting { today, ts } => is_day(today as int),
            Phase::FindingExpiry { round, index } => round_ok(round) && index < INDEX_COUNT,
            Phase::FetchingChain { round, index, expiry } => {
                &&& round_ok(round)
                &&& index < INDEX_COUNT
                &&& is_day(expiry as int)
            },
            Phase::Recording { round, index } => round_ok(round) && index < INDEX_COUNT,
        }
    }

    /// Whether a file has to be fetched: its futures are not resolved for `today`, and the
    /// last attempt, if any, lies far enough back.
    pub open spec fn is_due(self, file: int, today: i32, now: u64) -> bool {
        &&& self.resolved_day@[file] != Some(today)
        &&& self.last_attempt@[file] is Some ==> now - self.last_attempt@[file]->0
            >= FUTURES_RETRY_GAP_NANOS
    }

    /// Whether the poller remembers the same about files, futures and expiries.
    pub open spec fn remembers(self, other: Poller<N>) -> bool {
        &&& self.remembers_but_attempts(other)
        &&& self.last_attempt@ == other.last_attempt@
    }

    /// Whether the poller remembers the same, attempts at files aside.
    pub open spec fn remembers_but_attempts(self, other: Poller<N>) -> bool {
        &&& self.expiries@ == other.expiries@
        &&& self.futures == other.futures
        &&& self.resolved_day@ == other.resolved_day@
    }

    /// A poller that knows nothing yet, about to sleep to the next minute.
    pub fn new() -> (r: Self)
        ensures
            r.wf(),
            r.phase is Asleep,
            r.futures.map() == Map::<Seq<char>, FutureContract>::empty(),
            forall|i: int| 0 <= i < INDEX_COUNT ==> (#[trigger] r.expiries@[i]) is None,
            forall|f: int| 0 <= f < FILE_COUNT ==> (#[trigger] r.resolved_day@[f]) is None,
            forall|f: int| 0 <= f < FILE_COUNT ==> (#[trigger] r.last_attempt@[f]) is None,
    {
        let mut expiries: Vec<Option<ExpiryLookup>> = Vec::new();
        while expiries.len() < INDEX_COUNT
            invariant
                expiries@.len() <= INDEX_COUNT,
                forall|i: int| 0 <= i < expiries@.len() ==> (#[trigger] expiries@[i]) is None,
            decreases INDEX_COUNT - expiries@.len(),
        {
            expiries.push(None);
        }
        let mut resolved_day: Vec<Option<i32>> = Vec::new();
        let mut last_attempt: Vec<Option<u64>> = Vec::new();
        while resolved_day.len() < FILE_COUNT
            invariant
                resolved_day@.len() <= FILE_COUNT,
                resolved_day@.len() == last_attempt@.len(),
                forall|f: int|
                    0 <= f < resolved_day@.len() ==> (#[trigger] resolved_day@[f]) is None,
                forall|f: int|
                    0 <= f < resolved_day@.len() ==> (#[trigger] last_attempt@[f]) is None,
            decreases FILE_COUNT - resolved_day@.len(),
        {
            resolved_day.push(None);
            last_attempt.push(None);
        }
        Poller {
            expiries,
            futures: TextMap::new(),
            resolved_day,
            last_attempt,
            phase: Phase::Asleep,
        }
    }

    /// Whether the poller went on from `before` to the first file from position `from`
    /// that is due, and to the second look at the clock where none is.
    pub open spec fn goes_to_file(
        self,
        before: Poller<N>,
        from: int,
        today: i32,
        now: u64,
        action: Action<N>,
    ) -> bool {
        &&& self.remembers_but_attempts(before)
        &&& match self.phase {
            Phase::Refreshing { today: t, file } => {
                &&& t == today
                &&& from <= file < FILE_COUNT
                &&& before.is_due(file as int, today, now)
                &&& forall|f: int| from <= f < file ==> !before.is_due(f, today, now)
                &&& self.last_attempt@ == before.last_attempt@.update(file as int, Some(now))
                &&& action is FetchFutures
                &&& action->url == file_url(file as int)
                &&& texts(action->wanted@) == wanted_in(file as int)
                &&& action->FetchFutures_today == today
            },
            Phase::CheckingHours { today: t } => {
                &&& t == today
                &&& forall|f: int| from <= f < FILE_COUNT ==> !before.is_due(f, today, now)
                &&& self.last_attempt@ == before.last_attempt@
                &&& action is ReadClock
            },
            _ => false,
        }
    }

    fn go_to_file(&mut self, from: usize, today: i32, now: u64) -> (action: Action<N>)
        requires
            old(self).wf(),
            from <= FILE_COUNT,
            is_day(today as int),
        ensures
            final(self).wf(),
            final(self).goes_to_file(*old(self), from as int, today, now, action),
    {
        let mut file: usize = from;
        while file < FILE_COUNT
            invariant
                from <= file <= FILE_COUNT,
                self.wf(),
                *self == *old(self),
                is_day(today as int),
                forall|f: int| from <= f < file ==> !self.is_due(f, today, now),
            decreases FILE_COUNT - file,
        {
            let resolved: bool = match self.resolved_day[file] {
                Some(day) => day == today,
                None => false,
            };
            let waiting: bool = match self.last_attempt[file] {
                Some(t) => now < t || now - t < FUTURES_RETRY_GAP_NANOS,
                None => false,
            };
            if !resolved && !waiting {
                assert(self.is_due(file as int, today, now));
                self.last_attempt.set(file, Some(now));
                self.phase = Phase::Refreshing { today, file };
                return Action::FetchFutures {
                    url: instruments_file(file),
                    wanted: wanted_symbols(file),
                    today,
                };
            }
            file = file + 1;
        }
        self.phase = Phase::CheckingHours { today };
        Action::ReadClock
    }

    /// A new minute: outside the hours of a trading day the poller goes back to sleep,
    /// otherwise it turns to the instruments files.
    pub fn wake(&mut self, clock: &Clock, now: u64) -> (action: Action<N>)
        requires
            old(self).wf(),
            old(self).phase is Asleep,
            clock.valid(),
        ensures
            final(self).wf(),
            if !clock.is_weekend() && FUTURES_REFRESH_START_MINUTE <= clock.minute_of_day()
                <= POLL_END_MINUTE {
                final(self).goes_to_file(*old(self), 0, clock.day, now, action)
            } else {
                &&& *final(self) == *old(self)
                &&& action is Sleep
            },
    {
        if !clock.weekday_minute_between(FUTURES_REFRESH_START_MINUTE, POLL_END_MINUTE) {
            return Action::Sleep;
        }
        self.go_to_file(0, clock.day, now)
    }

    /// Whether the poller took over from `before` what came of fetching a file: its futures
    /// in place of those of the file's symbols, or nothing where the fetch failed.
    pub open spec fn takes_futures(
        self,
        before: Poller<N>,
        file: int,
        today: i32,
        result: Result<TextMap<FutureContract>, UpstoxError>,
    ) -> bool {
        &&& self.phase == before.phase
        &&& self.expiries@ == before.expiries@
        &&& self.last_attempt@ == before.last_attempt@
        &&& match result {
            Ok(found) => {
                &&& self.futures.map() == before.futures.map().remove_keys(
                    wanted_in(file).to_set(),
                ).union_prefer_right(found.map())
                &&& self.resolved_day@ == before.resolved_day@.update(file, Some(today))
            },
            Err(e) => {
                &&& self.futures == before.futures
                &&& self.resolved_day@ == before.resolved_day@
            },
        }
    }

    /// The futures of the file that was asked for have come, or failed to: they replace
    /// the file's own symbols and no others, and the file is resolved for the day; a
    /// failure changes nothing. Then the next file is looked at.
    pub fn futures_arrived(
        &mut self,
        result: Result<TextMap<FutureContract>, UpstoxError>,
        now: u64,
    ) -> (action: Action<N>)
        requires
            old(self).wf(),
            old(self).phase is Refreshing,
            result is Ok ==> result->Ok_0.wf(),
        ensures
            final(self).wf(),
            exists|mid: Poller<N>| #[trigger]
                mid.takes_futures(
                    *old(self),
                    old(self).phase->file as int,
                    old(self).phase->Refreshing_today,
                    result,
                ) && final(self).goes_to_file(
                    mid,
                    old(self).phase->file + 1,
                    old(self).phase->Refreshing_today,
                    now,
                    action,
                ),
    {
        let (today, file): (i32, usize) = match &self.phase {
            Phase::Refreshing { today, file } => (*today, *file),
            _ => (0, 0),
        };
        match result {
            Ok(found) => {
                // Replace only this file's symbols; keep the other file's.
                let wanted = wanted_symbols(file);
                self.futures.remove_listed(&wanted);
                self.futures.extend(found);
                self.resolved_day.set(file, Some(today));
            },
            Err(_) => {},
        }
        assert(self.takes_futures(*old(self), file as int, today, result));
        self.go_to_file(file + 1, today, now)
    }

    /// The keys by which the index futures are quoted, in the order in which the futures
    /// are held.
    pub open spec fn future_keys(self) -> Seq<Seq<char>> {
        self.futures.list().map_values(|e: (String, FutureContract)| e.1.instrument_key@)
    }

    fn quote_keys(&self) -> (r: Vec<String>)
        requires
            self.wf(),
        ensures
            texts(r@) == self.future_keys(),
    {
        let mut keys: Vec<String> = Vec::new();
        let mut i: usize = 0;
        while i < self.futures.len()
            invariant
                self.wf(),
                i <= self.futures.list().len(),
                texts(keys@) == self.future_keys().take(i as int),
            decreases self.futures.list().len() - i,
        {
            let ghost before = keys@;
            let (_, f) = self.futures.entry(i);
            keys.push(f.instrument_key.clone());
            assert(texts(keys@) =~= texts(before).push(f.instrument_key@));
            assert(self.future_keys()[i as int] == f.instrument_key@);
            assert(texts(keys@) =~= self.future_keys().take(i + 1));
            i = i + 1;
        }
        assert(texts(keys@) =~= self.future_keys());
        keys
    }

    /// A second look at the clock, once the files are done: outside polling hours the
    /// poller goes back to sleep, otherwise it asks for the quotes of the futures. The
    /// minute's snapshots are stamped with this reading, and in the four-digit years the
    /// trend table reads its minute back from the stamp.
    pub fn hours_checked(&mut self, clock: &Clock) -> (action: Action<N>)
        requires
            old(self).wf(),
            old(self).phase is CheckingHours,
            clock.valid(),
        ensures
            final(self).wf(),
            final(self).remembers(*old(self)),
            if !clock.is_weekend() && POLL_START_MINUTE <= clock.minute_of_day()
                <= POLL_END_MINUTE {
                &&& final(self).phase is Quoting
                &&& final(self).phase->Quoting_today == old(self).phase->CheckingHours_today
                &&& final(self).phase->ts@ == clock.text()
                &&& is_plain_day(clock.day as int) ==> minute_in(final(self).phase->ts@) == Some(
                    clock.minute_of_day(),
                )
                &&& action is FetchQuotes
                &&& texts(action->keys@) == old(self).future_keys()
            } else {
                &&& final(self).phase is Asleep
                &&& action is Sleep
            },
    {
        let today: i32 = match &self.phase {
            Phase::CheckingHours { today } => *today,
            _ => 0,
        };
        if !clock.weekday_minute_between(POLL_START_MINUTE, POLL_END_MINUTE) {
            self.phase = Phase::Asleep;
            return Action::Sleep;
        }
        let keys = self.quote_keys();
        self.phase = Phase::Quoting { today, ts: clock.timestamp() };
        Action::FetchQuotes { keys }
    }

    /// Whether the poller turned to the index at position `index`: with its expiry where
    /// that has been looked up on the same day, by looking it up otherwise, and to sleep
    /// where there is no such index.
    pub open spec fn goes_to_index(
        self,
        before: Poller<N>,
        round: Round<N>,
        index: int,
        action: Action<N>,
    ) -> bool {
        &&& self.remembers(before)
        &&& if index >= INDEX_COUNT {
            &&& self.phase is Asleep
            &&& action is Sleep
        } else if before.expiries@[index] is Some && before.expiries@[index]->0.day == round.today {
            let expiry = before.expiries@[index]->0.expiry;
            &&& self.phase == (Phase::FetchingChain { round, index: index as usize, expiry })
            &&& action == (Action::<N>::FetchChain { index: index as usize, expiry })
        } else {
            &&& self.phase == (Phase::FindingExpiry { round, index: index as usize })
            &&& action == (Action::<N>::FetchExpiry { index: index as usize, today: round.today })
        }
    }

    fn go_to_index(&mut self, round: Round<N>, index: usize) -> (action: Action<N>)
        requires
            old(self).wf(),
            round_ok(round),
        ensures
            final(self).wf(),
            final(self).goes_to_index(*old(self), round, index as int, action),
    {
        if index >= INDEX_COUNT {
            self.phase = Phase::Asleep;
            return Action::Sleep;
        }
        let today: i32 = round.today;
        match self.expiries[index] {
            Some(known) => {
                if known.day == today {
                    self.phase = Phase::FetchingChain { round, index, expiry: known.expiry };
                    return Action::FetchChain { index, expiry: known.expiry };
                }
            },
            None => {},
        }
        self.phase = Phase::FindingExpiry { round, index };
        Action::FetchExpiry { index, today }
    }

    /// The quotes of the futures have come; where they failed to, the minute goes on
    /// without any. The first index is turned to.
    pub fn quotes_arrived(&mut self, result: Result<TextMap<Quote<N>>, UpstoxError>) -> (action:
        Action<N>)
        requires
            old(self).wf(),
            old(self).phase is Quoting,
            result is Ok ==> result->Ok_0.wf(),
        ensures
            final(self).wf(),
            exists|round: Round<N>| #[trigger]
                starts_round(
                    round,
                    old(self).phase->Quoting_today,
                    old(self).phase->ts,
                    result,
                ) && final(self).goes_to_index(*old(self), round, 0, action),
    {
        let (today, ts): (i32, String) = match &self.phase {
            Phase::Quoting { today, ts } => (*today, ts.clone()),
            _ => (0, String::new()),
        };
        let quotes: TextMap<Quote<N>> = match result {
            Ok(q) => q,
            Err(_) => TextMap::new(),
        };
        let round = Round { today, ts, quotes };
        assert(starts_round(round, today, old(self).phase->ts, result));
        self.go_to_index(round, 0)
    }

    /// The nearest expiry of the index has come, and is remembered for the day; or it
    /// failed to, and so did the index.
    pub fn expiry_arrived(&mut self, result: Result<i32, UpstoxError>) -> (action: Action<N>)
        requires
            old(self).wf(),
            old(self).phase is FindingExpiry,
            result is Ok ==> is_day(result->Ok_0 as int),
        ensures
            final(self).wf(),
            final(self).futures == old(self).futures,
            final(self).resolved_day@ == old(self).resolved_day@,
            final(self).last_attempt@ == old(self).last_attempt@,
            ({
                let round = old(self).phase->FindingExpiry_round;
                let index = old(self).phase->FindingExpiry_index;
                match result {
                    Ok(expiry) => {
                        &&& final(self).expiries@ == old(self).expiries@.update(
                            index as int,
                            Some(ExpiryLookup { day: round.today, expiry }),
                        )
                        &&& final(self).phase == (Phase::FetchingChain { round, index, expiry })
                        &&& action == (Action::<N>::FetchChain { index, expiry })
                    },
                    Err(e) => {
                        &&& final(self).expiries@ == old(self).expiries@
                        &&& final(self).phase == (Phase::Recording { round, index })
                        &&& fails(action, index, failure_text(e))
                    },
                }
            }),
    {
        let mut phase: Phase<N> = Phase::Asleep;
        std::mem::swap(&mut phase, &mut self.phase);
        match phase {
            Phase::FindingExpiry { round, index } => match result {
                Ok(expiry) => {
                    self.expiries.set(index, Some(ExpiryLookup { day: round.today, expiry }));
                    self.phase = Phase::FetchingChain { round, index, expiry };
                    Action::FetchChain { index, expiry }
                },
                Err(e) => {
                    self.phase = Phase::Recording { round, index };
                    Action::Fail { index, message: failure_message(&e) }
                },
            },
            _ => {
                assert(false);
                Action::Sleep
            },
        }
    }

    /// The option chain of the index has come: it is aggregated and published; or it
    /// failed to come, or is empty, and so the index failed.
    pub fn chain_arrived(
        &mut self,
        result: Result<Vec<OptionChainStrike<N>>, UpstoxError>,
    ) -> (action: Action<N>)
        requires
            old(self).wf(),
            old(self).phase is FetchingChain,
        ensures
            final(self).wf(),
            final(self).remembers(*old(self)),
            ({
                let round = old(self).phase->FetchingChain_round;
                let index = old(self).phase->FetchingChain_index;
                let expiry = old(self).phase->expiry;
                &&& final(self).phase == (Phase::Recording { round, index })
                &&& match result {
                    Ok(chain) => match spot_of(chain@) {
                        Some(spot) => publishes(
                            action,
                            old(self).futures.map(),
                            round,
                            index,
                            expiry,
                            chain@,
                            spot,
                        ),
                        None => fails(
                            action,
                            index,
                            "decode error: "@ + empty_chain_text(index as int, expiry),
                        ),
                    },
                    Err(e) => fails(action, index, failure_text(e)),
                }
            }),
    {
        let mut phase: Phase<N> = Phase::Asleep;
        std::mem::swap(&mut phase, &mut self.phase);
        match phase {
            Phase::FetchingChain { round, index, expiry } => {
                let reading = match result {
                    Ok(chain) => read_chain(index, expiry, &chain),
                    Err(e) => Err(e),
                };
                let action = match reading {
                    Ok((rows, spot)) => publication(
                        &self.futures,
                        &round,
                        index,
                        expiry,
                        rows,
                        spot,
                    ),
                    Err(e) => Action::Fail { index, message: failure_message(&e) },
                };
                self.phase = Phase::Recording { round, index };
                action
            },
            _ => {
                assert(false);
                Action::Sleep
            },
        }
    }

    /// The outcome for an index has been recorded; the next index is turned to.
    pub fn recorded(&mut self) -> (action: Action<N>)
        requires
            old(self).wf(),
            old(self).phase is Recording,
        ensures
            final(self).wf(),
            final(self).goes_to_index(
                *old(self),
                old(self).phase->Recording_round,
                old(self).phase->Recording_index + 1,
                action,
            ),
    {
        let mut phase: Phase<N> = Phase::Asleep;
        std::mem::swap(&mut phase, &mut self.phase);
        match phase {
            Phase::Recording { round, index } => self.go_to_index(round, index + 1),
            _ => {
                assert(false);
                Action::Sleep
            },
        }
    }
}

/// What is shown of a failure: how to mend it where the token was rejected, what the error
/// says otherwise.
pub open spec fn failure_text(e: UpstoxError) -> Seq<char> {
    if e.unauthorized() {
        "Upstox rejected the analytics token (HTTP 401/403) — regenerate it"@
    } else {
        e.text()
    }
}

/// What is shown of a failure.
pub fn failure_message(e: &UpstoxError) -> (r: String)
    ensures
        r@ == failure_text(*e),
{
    if e.is_unauthorized() {
        "Upstox rejected the analytics token (HTTP 401/403) — regenerate it".to_owned()
    } else {
        e.message()
    }
}

/// Whether the action is to record the failure of an index with this message.
pub open spec fn fails<N>(action: Action<N>, index: usize, message: Seq<char>) -> bool {
    &&& action is Fail
    &&& action->Fail_index == index
    &&& action->message@ == message
}

/// The spot price that a chain reports: the first that is positive.
pub open spec fn spot_of<N: Amount>(chain: Seq<OptionChainStrike<N>>) -> Option<N>
    decreases chain.len(),
{
    if chain.len() == 0 {
        None
    } else if chain[0].underlying_spot_price.spec_is_positive() {
        Some(chain[0].underlying_spot_price)
    } else {
        spot_of(chain.drop_first())
    }
}

/// What is said of a chain without strikes or without a spot price.
pub open spec fn empty_chain_text(index: int, expiry: i32) -> Seq<char> {
    "empty option chain for "@ + index_at(index).id@ + " expiry "@ + day_text(expiry)
}

fn first_spot<N: Amount>(chain: &Vec<OptionChainStrike<N>>) -> (r: Option<N>)
    ensures
        r == spot_of(chain@),
{
    let mut i: usize = 0;
    assert(chain@.skip(0) =~= chain@);
    while i < chain.len()
        invariant
            i <= chain@.len(),
            spot_of(chain@) == spot_of(chain@.skip(i as int)),
        decreases chain@.len() - i,
    {
        let spot = chain[i].underlying_spot_price;
        if spot.is_positive() {
            return Some(spot);
        }
        assert(chain@.skip(i as int).drop_first() =~= chain@.skip(i + 1));
        i = i + 1;
    }
    None
}

/// The strike rows of a chain and its spot price; a chain without either is an error.
pub fn read_chain<N: Amount>(index: usize, expiry: i32, chain: &Vec<OptionChainStrike<N>>) -> (r:
    Result<(Vec<StrikeRow<N>>, N), UpstoxError>)
    requires
        index < INDEX_COUNT,
        is_day(expiry as int),
    ensures
        match spot_of(chain@) {
            Some(spot) => {
                &&& r is Ok
                &&& stably_sorted(rows_of(chain@), r->Ok_0.0@)
                &&& r->Ok_0.1 == spot
            },
            None => {
                &&& r is Err
                &&& r->Err_0 is Decode
                &&& r->Err_0->Decode_0@ == empty_chain_text(index as int, expiry)
            },
        },
{
    match first_spot(chain) {
        Some(spot) => Ok((to_strike_rows(chain.as_slice()), spot)),
        None => {
            let mut out = String::new();
            out.append("empty option chain for ");
            out.append(index_spec(index).id);
            out.append(" expiry ");
            out.append(format_day(expiry).as_str());
            assert(out@ =~= empty_chain_text(index as int, expiry));
            Err(UpstoxError::Decode(out))
        },
    }
}

/// The future of an index, where it has been resolved.
pub open spec fn future_of(futures: Map<Seq<char>, FutureContract>, index: int) -> Option<
    FutureContract,
> {
    let symbol = index_at(index).future_symbol@;
    if futures.contains_key(symbol) {
        Some(futures[symbol])
    } else {
        None
    }
}

/// The quote of the future of an index, where there is one.
pub open spec fn quote_of<N>(
    futures: Map<Seq<char>, FutureContract>,
    quotes: Map<Seq<char>, Quote<N>>,
    index: int,
) -> Option<Quote<N>> {
    match future_of(futures, index) {
        Some(f) => if quotes.contains_key(f.instrument_key@) {
            Some(quotes[f.instrument_key@])
        } else {
            None
        },
        None => None,
    }
}

/// A price, where it is positive.
pub open spec fn positive<N: Amount>(price: N) -> Option<N> {
    if price.spec_is_positive() {
        Some(price)
    } else {
        None
    }
}

/// The last price in a quote, where there is one.
pub open spec fn ltp_of<N: Amount>(quote: Option<Quote<N>>) -> Option<N> {
    match quote {
        Some(q) => positive(q.last_price),
        None => None,
    }
}

/// The volume-weighted average price in a quote, where there is one.
pub open spec fn vwap_of<N: Amount>(quote: Option<Quote<N>>) -> Option<N> {
    match quote {
        Some(q) => positive(q.average_price),
        None => None,
    }
}

fn if_positive<N: Amount>(price: N) -> (r: Option<N>)
    ensures
        r == positive(price),
{
    if price.is_positive() {
        Some(price)
    } else {
        None
    }
}

/// Whether `s` is the snapshot of one strike window of the sorted chain `rows`.
pub open spec fn is_snapshot<N: Amount>(
    s: OiSnapshot<N>,
    ts: Seq<char>,
    index: int,
    expiry: i32,
    window: i64,
    rows: Seq<StrikeRow<N>>,
    spot: N,
    quote: Option<Quote<N>>,
) -> bool {
    &&& s.ts@ == ts
    &&& s.underlying == index_at(index).id
    &&& s.expiry@ == day_text(expiry)
    &&& s.strike_window == window
    &&& exists|agg: WindowAgg<N>| #[trigger]
        is_aggregate(rows, spot, window, agg) && s.call_oi == agg.call_oi && s.put_oi
            == agg.put_oi && s.call_oi_chg == agg.call_oi_chg && s.put_oi_chg == agg.put_oi_chg
    &&& s.spot == spot
    &&& s.fut_ltp == ltp_of(quote)
    &&& s.fut_vwap == vwap_of(quote)
}

/// Whether `live` is the state of an index after a successful poll of the sorted chain
/// `rows`.
pub open spec fn is_fresh_state<N: Amount>(
    live: IndexLive<N>,
    ts: Seq<char>,
    expiry: i32,
    rows: Seq<StrikeRow<N>>,
    spot: N,
    future: Option<FutureContract>,
    quote: Option<Quote<N>>,
) -> bool {
    &&& live.expiry is Some && live.expiry->0@ == day_text(expiry)
    &&& live.spot == Some(spot)
    &&& exists|atm: int| #[trigger]
        is_atm(rows, spot, atm) && live.atm_strike == Some(rows[atm].strike)
    &&& live.future_symbol == (match future {
        Some(f) => Some(f.trading_symbol),
        None => None,
    })
    &&& live.fut_ltp == ltp_of(quote)
    &&& live.fut_vwap == vwap_of(quote)
    &&& live.updated_at is Some && live.updated_at->0@ == ts
    &&& live.last_error is None
    &&& live.chain@ == rows
}

/// Whether the action is to publish the sorted chain `rows` of an index: a snapshot of
/// every strike window, and the state.
pub open spec fn publishes_rows<N: Amount>(
    action: Action<N>,
    futures: Map<Seq<char>, FutureContract>,
    round: Round<N>,
    index: usize,
    expiry: i32,
    rows: Seq<StrikeRow<N>>,
    spot: N,
) -> bool {
    let quote = quote_of(futures, round.quotes.map(), index as int);
    match action {
        Action::Publish { index: i, snapshots, live } => {
            &&& i == index
            &&& snapshots@.len() == STRIKE_WINDOWS@.len()
            &&& forall|k: int|
                0 <= k < snapshots@.len() ==> is_snapshot(
                    #[trigger] snapshots@[k],
                    round.ts@,
                    index as int,
                    expiry,
                    STRIKE_WINDOWS@[k],
                    rows,
                    spot,
                    quote,
                )
            &&& is_fresh_state(
                live,
                round.ts@,
                expiry,
                rows,
                spot,
                future_of(futures, index as int),
                quote,
            )
        },
        _ => false,
    }
}

/// Whether the action is to publish the chain of an index, sorted by strike.
pub open spec fn publishes<N: Amount>(
    action: Action<N>,
    futures: Map<Seq<char>, FutureContract>,
    round: Round<N>,
    index: usize,
    expiry: i32,
    chain: Seq<OptionChainStrike<N>>,
    spot: N,
) -> bool {
    exists|rows: Seq<StrikeRow<N>>| #[trigger]
        stably_sorted(rows_of(chain), rows) && publishes_rows(
            action,
            futures,
            round,
            index,
            expiry,
            rows,
            spot,
        )
}

/// Publishes the sorted chain of an index.
pub fn publication<N: Amount>(
    futures: &TextMap<FutureContract>,
    round: &Round<N>,
    index: usize,
    expiry: i32,
    rows: Vec<StrikeRow<N>>,
    spot: N,
) -> (action: Action<N>)
    requires
        futures.wf(),
        round_ok(*round),
        index < INDEX_COUNT,
        is_day(expiry as int),
        rows@.len() > 0,
    ensures
        publishes_rows(action, futures.map(), *round, index, expiry, rows@, spot),
{
    let spec = index_spec(index);
    let future = futures.get(spec.future_symbol);
    let quote = match future {
        Some(f) => round.quotes.get(f.instrument_key.as_str()),
        None => None,
    };
    let fut_ltp: Option<N> = match quote {
        Some(q) => if_positive(q.last_price),
        None => None,
    };
    let fut_vwap: Option<N> = match quote {
        Some(q) => if_positive(q.average_price),
        None => None,
    };
    let ghost the_quote = quote_of(futures.map(), round.quotes.map(), index as int);
    let aggs = all_windows(&rows, spot);
    let mut snapshots: Vec<OiSnapshot<N>> = Vec::new();
    let mut k: usize = 0;
    while k < aggs.len()
        invariant
            k <= aggs@.len(),
            aggs@.len() == STRIKE_WINDOWS@.len(),
            snapshots@.len() == k,
            spec == index_at(index as int),
            is_day(expiry as int),
            fut_ltp == ltp_of(the_quote),
            fut_vwap == vwap_of(the_quote),
            forall|j: int|
                0 <= j < aggs@.len() ==> is_aggregate(
                    rows@,
                    spot,
                    STRIKE_WINDOWS@[j],
                    #[trigger] aggs@[j],
                ),
            forall|j: int|
                0 <= j < k ==> is_snapshot(
                    #[trigger] snapshots@[j],
                    round.ts@,
                    index as int,
                    expiry,
                    STRIKE_WINDOWS@[j],
                    rows@,
                    spot,
                    the_quote,
                ),
        decreases aggs@.len() - k,
    {
        let agg = aggs[k];
        let window: i64 = STRIKE_WINDOWS[k];
        assert(is_aggregate(rows@, spot, window, agg));
        snapshots.push(
            OiSnapshot {
                ts: round.ts.clone(),
                underlying: spec.id,
                expiry: format_day(expiry),
                strike_window: window,
                call_oi: agg.call_oi,
                put_oi: agg.put_oi,
                call_oi_chg: agg.call_oi_chg,
                put_oi_chg: agg.put_oi_chg,
                spot,
                fut_ltp,
                fut_vwap,
            },
        );
        k = k + 1;
    }
    let atm_strike: Option<N> = match atm_index(rows.as_slice(), spot) {
        Some(i) => Some(rows[i].strike),
        None => None,
    };
    Action::Publish {
        index,
        snapshots,
        live: IndexLive {
            expiry: Some(format_day(expiry)),
            spot: Some(spot),
            atm_strike,
            future_symbol: match future {
                Some(f) => Some(f.trading_symbol.clone()),
                None => None,
            },
            fut_ltp,
            fut_vwap,
            updated_at: Some(round.ts.clone()),
            last_error: None,
            chain: rows,
        },
    }
}

} // verus!
