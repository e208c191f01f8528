//! What holds of the poller from minute to minute.
use vstd::prelude::*;

use crate::amount::Amount;
use crate::calendar::formatted_date;
use crate::chain::{
    ascending, is_aggregate, is_atm, rows_of, stably_sorted, StrikeRow, WindowAgg, STRIKE_WINDOWS,
};
use crate::chain_laws::aggregate_is_unique;
use crate::checks::{check_of, check_within_trading_day};
use crate::client::UpstoxError;
use crate::futures::{
    holds_nearest, only_wanted_futures_are_picked, wanted_futures, FutureContract, InstrumentRow,
};
use crate::indices::{index_at, INDEX_COUNT};
use crate::live::{are_windows, IndexLive};
use crate::poller::{
    empty_chain_text, failure_text, fails, file_url, is_snapshot, publishes, publishes_rows,
    quote_of, spot_of, starts_round, wanted_before, wanted_in, Action, ExpiryLookup, Phase, Poller,
    Round, FILE_COUNT, FUTURES_REFRESH_START_MINUTE, FUTURES_RETRY_GAP_NANOS, POLL_END_MINUTE,
    POLL_START_MINUTE,
};
use crate::quotes::{OptionChainStrike, Quote};
use crate::text::texts;
use crate::text_map::TextMap;

verus! {

proof fn lemma_files_differ()
    ensures
        file_url(0)@ != file_url(1)@,
{
    reveal_strlit("https://assets.upstox.com/market-quote/instruments/exchange/NSE.json.gz");
    reveal_strlit("https://assets.upstox.com/market-quote/instruments/exchange/BSE.json.gz");
    assert(file_url(0)@[60] != file_url(1)@[60]);
}

/// The future of every index is looked for in one of the two instruments files, and not in
/// the other.
pub proof fn every_future_has_one_file(index: int)
    requires
        0 <= index < INDEX_COUNT,
    ensures
        wanted_in(0).contains(index_at(index).future_symbol@) <==> !wanted_in(1).contains(
            index_at(index).future_symbol@,
        ),
{
    reveal_with_fuel(wanted_before, 4);
    reveal_strlit("NIFTY");
    reveal_strlit("BANKNIFTY");
    reveal_strlit("SENSEX");
    lemma_files_differ();
    assert(wanted_in(0) =~= seq!["NIFTY"@, "BANKNIFTY"@]);
    assert(wanted_in(1) =~= seq!["SENSEX"@]);
    assert("NIFTY"@.len() != "SENSEX"@.len());
    assert("BANKNIFTY"@.len() != "SENSEX"@.len());
    let symbol = index_at(index).future_symbol@;
    if index == 2 {
        assert(wanted_in(1)[0] == symbol);
        assert(!wanted_in(0).contains(symbol));
    } else {
        assert(wanted_in(0)[index] == symbol);
        assert(!wanted_in(1).contains(symbol));
    }
}

/// A file resolved for the day is passed over for the rest of that day, whatever the time,
/// and stays resolved.
pub proof fn resolved_file_is_not_fetched_again<N: Amount>(
    before: Poller<N>,
    after: Poller<N>,
    from: int,
    file: int,
    today: i32,
    now: u64,
    action: Action<N>,
)
    requires
        0 <= from,
        0 <= file < FILE_COUNT,
        before.resolved_day@[file] == Some(today),
        after.goes_to_file(before, from, today, now, action),
    ensures
        action is FetchFutures ==> action->url@ != file_url(file)@,
        after.resolved_day@[file] == Some(today),
{
    lemma_files_differ();
}

/// Two attempts at a file lie at least the retry gap apart, and each is remembered.
pub proof fn attempts_keep_their_distance<N: Amount>(
    before: Poller<N>,
    after: Poller<N>,
    from: int,
    file: int,
    today: i32,
    attempt: u64,
    now: u64,
    action: Action<N>,
)
    requires
        before.wf(),
        0 <= from,
        0 <= file < FILE_COUNT,
        before.last_attempt@[file] == Some(attempt),
        after.goes_to_file(before, from, today, now, action),
        action is FetchFutures,
        action->url@ == file_url(file)@,
    ensures
        now >= attempt + FUTURES_RETRY_GAP_NANOS,
        after.last_attempt@[file] == Some(now),
{
    lemma_files_differ();
}

/// A file that failed is fetched again once the gap has passed, on its own: the other
/// file, resolved for the day, is not.
pub proof fn failed_file_is_retried_on_its_own<N: Amount>(
    before: Poller<N>,
    after: Poller<N>,
    file: int,
    today: i32,
    attempt: u64,
    now: u64,
    action: Action<N>,
)
    requires
        before.wf(),
        0 <= file < FILE_COUNT,
        before.last_attempt@[file] == Some(attempt),
        before.resolved_day@[file] != Some(today),
        before.resolved_day@[1 - file] == Some(today),
        now >= attempt + FUTURES_RETRY_GAP_NANOS,
        after.goes_to_file(before, 0, today, now, action),
    ensures
        action is FetchFutures,
        action->url == file_url(file),
        texts(action->wanted@) == wanted_in(file),
{
    assert(before.is_due(file, today, now));
}

/// The futures of one file come and go without touching those of another: a symbol that
/// is neither looked for in the file nor found in it keeps its future, and a symbol that
/// is looked for but not found loses it. Where the file failed, every symbol keeps its
/// future.
pub proof fn other_futures_are_kept<N: Amount>(
    before: Poller<N>,
    after: Poller<N>,
    file: int,
    today: i32,
    result: Result<TextMap<FutureContract>, UpstoxError>,
    symbol: Seq<char>,
)
    requires
        after.takes_futures(before, file, today, result),
        result is Ok ==> !result->Ok_0.map().contains_key(symbol),
    ensures
        if result is Ok && wanted_in(file).contains(symbol) {
            !after.futures.map().contains_key(symbol)
        } else {
            &&& after.futures.map().contains_key(symbol) == before.futures.map().contains_key(
                symbol,
            )
            &&& before.futures.map().contains_key(symbol) ==> after.futures.map()[symbol]
                == before.futures.map()[symbol]
        },
{
}

/// As long as a file yields futures for its own symbols only, as what is picked out of it
/// does, it leaves every other symbol as it was.
pub proof fn unwanted_futures_are_untouched<N: Amount>(
    before: Poller<N>,
    after: Poller<N>,
    file: int,
    today: i32,
    rows: Seq<InstrumentRow>,
    found: TextMap<FutureContract>,
    symbol: Seq<char>,
)
    requires
        holds_nearest(wanted_futures(rows, wanted_in(file)), today, found.map()),
        after.takes_futures(before, file, today, Ok(found)),
        !wanted_in(file).contains(symbol),
    ensures
        after.futures.map().contains_key(symbol) == before.futures.map().contains_key(symbol),
        before.futures.map().contains_key(symbol) ==> after.futures.map()[symbol]
            == before.futures.map()[symbol],
{
    only_wanted_futures_are_picked(rows, wanted_in(file), today, found.map(), symbol);
    other_futures_are_kept(before, after, file, today, Ok(found), symbol);
}

/// An expiry looked up on a day serves the index for the rest of that day.
pub proof fn expiry_is_looked_up_once_a_day<N: Amount>(
    before: Poller<N>,
    after: Poller<N>,
    round: Round<N>,
    index: int,
    expiry: i32,
    action: Action<N>,
)
    requires
        before.wf(),
        0 <= index < INDEX_COUNT,
        before.expiries@[index] == Some(ExpiryLookup { day: round.today, expiry }),
        after.goes_to_index(before, round, index, action),
    ensures
        action == (Action::<N>::FetchChain { index: index as usize, expiry }),
{
}

/// An expiry looked up on an earlier day is looked up anew.
pub proof fn expiry_is_looked_up_every_day<N: Amount>(
    before: Poller<N>,
    after: Poller<N>,
    round: Round<N>,
    index: int,
    known: ExpiryLookup,
    action: Action<N>,
)
    requires
        before.wf(),
        0 <= index < INDEX_COUNT,
        before.expiries@[index] == Some(known),
        known.day != round.today,
        after.goes_to_index(before, round, index, action),
    ensures
        action == (Action::<N>::FetchExpiry { index: index as usize, today: round.today }),
{
}

/// A minute's round takes up every index in turn: from one index it goes on to the next
/// with the same day, timestamp and quotes, and sleeps after the last.
pub proof fn round_takes_up_every_index<N: Amount>(
    before: Poller<N>,
    after: Poller<N>,
    round: Round<N>,
    index: int,
    action: Action<N>,
)
    requires
        before.wf(),
        0 <= index,
        after.goes_to_index(before, round, index, action),
    ensures
        index < INDEX_COUNT ==> match after.phase {
            Phase::FindingExpiry { round: r, index: i } => r == round && i == index,
            Phase::FetchingChain { round: r, index: i, expiry } => r == round && i == index,
            _ => false,
        },
        index >= INDEX_COUNT ==> after.phase is Asleep && action is Sleep,
{
}

/// A published chain has every strike of the response, sorted ascending.
pub proof fn published_chain_is_sorted<N: Amount>(
    action: Action<N>,
    futures: Map<Seq<char>, FutureContract>,
    round: Round<N>,
    index: usize,
    expiry: i32,
    chain: Seq<OptionChainStrike<N>>,
    spot: N,
)
    requires
        publishes(action, futures, round, index, expiry, chain, spot),
    ensures
        action is Publish,
        ascending(action->live.chain@),
        stably_sorted(rows_of(chain), action->live.chain@),
        action->live.chain@.len() == chain.len(),
{
}

/// What the market page shows of a chain just published is what was stored of it: the
/// aggregates of its strike windows are those of the snapshots.
pub proof fn page_shows_what_is_stored<N: Amount>(
    action: Action<N>,
    futures: Map<Seq<char>, FutureContract>,
    round: Round<N>,
    index: usize,
    expiry: i32,
    chain: Seq<OptionChainStrike<N>>,
    spot: N,
    shown: IndexLive<N>,
    windows: Seq<WindowAgg<N>>,
    k: int,
)
    requires
        publishes(action, futures, round, index, expiry, chain, spot),
        shown.same(action->live),
        are_windows(shown, windows),
        0 <= k < STRIKE_WINDOWS@.len(),
    ensures
        windows.len() == STRIKE_WINDOWS@.len(),
        action->snapshots@.len() == STRIKE_WINDOWS@.len(),
        ({
            let stored = action->snapshots@[k];
            &&& windows[k].strike_window == stored.strike_window
            &&& windows[k].call_oi == stored.call_oi
            &&& windows[k].put_oi == stored.put_oi
            &&& windows[k].call_oi_chg == stored.call_oi_chg
            &&& windows[k].put_oi_chg == stored.put_oi_chg
            &&& shown.spot == Some(stored.spot)
        }),
{
    let rows = choose|rows: Seq<StrikeRow<N>>| #[trigger]
        stably_sorted(rows_of(chain), rows) && publishes_rows(
            action,
            futures,
            round,
            index,
            expiry,
            rows,
            spot,
        );
    let atm = choose|atm: int| #[trigger]
        is_atm(rows, spot, atm) && action->live.atm_strike == Some(rows[atm].strike);
    assert(0 <= atm < rows.len());
    let stored = action->snapshots@[k];
    let w = STRIKE_WINDOWS@[k];
    assert(is_snapshot(
        stored,
        round.ts@,
        index as int,
        expiry,
        w,
        rows,
        spot,
        quote_of(futures, round.quotes.map(), index as int),
    ));
    let agg = choose|agg: WindowAgg<N>| #[trigger]
        is_aggregate(rows, spot, w, agg) && stored.call_oi == agg.call_oi && stored.put_oi
            == agg.put_oi && stored.call_oi_chg == agg.call_oi_chg && stored.put_oi_chg
            == agg.put_oi_chg;
    assert(is_aggregate(rows, spot, w, windows[k]));
    aggregate_is_unique(rows, spot, w, agg, windows[k]);
}

/// A chain is published whether or not its future could be resolved and quoted: where it
/// could not, the live state and the snapshots carry the spot without futures prices.
pub proof fn no_quote_leaves_prices_out<N: Amount>(
    action: Action<N>,
    futures: Map<Seq<char>, FutureContract>,
    round: Round<N>,
    index: usize,
    expiry: i32,
    chain: Seq<OptionChainStrike<N>>,
    spot: N,
    k: int,
)
    requires
        publishes(action, futures, round, index, expiry, chain, spot),
        quote_of(futures, round.quotes.map(), index as int) is None,
        0 <= k < STRIKE_WINDOWS@.len(),
    ensures
        action->live.fut_ltp is None,
        action->live.fut_vwap is None,
        action->snapshots@[k].fut_ltp is None,
        action->snapshots@[k].fut_vwap is None,
        action->live.spot == Some(spot),
        action->snapshots@[k].spot == spot,
{
    let rows = choose|rows: Seq<StrikeRow<N>>| #[trigger]
        stably_sorted(rows_of(chain), rows) && publishes_rows(
            action,
            futures,
            round,
            index,
            expiry,
            rows,
            spot,
        );
    assert(is_snapshot(
        action->snapshots@[k],
        round.ts@,
        index as int,
        expiry,
        STRIKE_WINDOWS@[k],
        rows,
        spot,
        None,
    ));
}

/// The polling hours reach from before the opening check through the closing one:
/// whenever a snapshot is taken, the minute of the check it belongs to is polled too,
/// whatever the interval.
pub proof fn every_check_is_polled(minute: int, interval: int)
    requires
        POLL_START_MINUTE <= minute <= POLL_END_MINUTE,
        interval > 0,
    ensures
        POLL_START_MINUTE <= check_of(minute, interval) <= POLL_END_MINUTE,
{
    check_within_trading_day(minute, interval);
}

/// Chains are polled from 09:15 to 15:31 and files fetched from 09:00 on; a failed file
/// waits ten minutes.
pub proof fn polling_hours_are_fixed()
    ensures
        FUTURES_REFRESH_START_MINUTE == 9 * 60,
        POLL_START_MINUTE == 9 * 60 + 15,
        POLL_END_MINUTE == 15 * 60 + 31,
        FUTURES_RETRY_GAP_NANOS == 10 * 60 * 1_000_000_000,
        FILE_COUNT == 2,
{
}

/// The NSE list is asked for the futures on NIFTY and BANKNIFTY, the BSE list for that on
/// SENSEX.
pub proof fn files_are_asked_for_their_own()
    ensures
        file_url(0)@ == "https://assets.upstox.com/market-quote/instruments/exchange/NSE.json.gz"@,
        file_url(1)@ == "https://assets.upstox.com/market-quote/instruments/exchange/BSE.json.gz"@,
        wanted_in(0) == seq!["NIFTY"@, "BANKNIFTY"@],
        wanted_in(1) == seq!["SENSEX"@],
{
    reveal_with_fuel(wanted_before, 4);
    lemma_files_differ();
    assert(wanted_in(0) =~= seq!["NIFTY"@, "BANKNIFTY"@]);
    assert(wanted_in(1) =~= seq!["SENSEX"@]);
}

/// A file is due exactly where it is not resolved for today and either was never tried or
/// was last tried at least ten minutes ago.
pub proof fn due_files_are_unresolved_and_rested<N: Amount>(
    poller: Poller<N>,
    file: int,
    today: i32,
    now: u64,
)
    ensures
        poller.is_due(file, today, now) <==> {
            &&& poller.resolved_day@[file] is None || poller.resolved_day@[file]->0 != today
            &&& poller.last_attempt@[file] is None || now >= poller.last_attempt@[file]->0
                + 600_000_000_000
        },
{
}

/// From one file on, the first that is due is fetched, for the symbols it is asked for and
/// the day it is; where none is due, the clock is read. Only the attempt is written down.
pub proof fn first_due_file_is_fetched<N: Amount>(
    before: Poller<N>,
    after: Poller<N>,
    from: int,
    today: i32,
    now: u64,
    action: Action<N>,
)
    requires
        after.goes_to_file(before, from, today, now, action),
        0 <= from <= 2,
        before.last_attempt@.len() == 2,
    ensures
        after.expiries@ == before.expiries@,
        after.futures == before.futures,
        after.resolved_day@ == before.resolved_day@,
        action is FetchFutures || action is ReadClock,
        action is ReadClock <==> forall|f: int|
            from <= f < 2 ==> !#[trigger] before.is_due(f, today, now),
        action is ReadClock ==> after.last_attempt@ == before.last_attempt@ && after.phase == (
        Phase::<N>::CheckingHours { today }),
        action is FetchFutures ==> exists|f: int|
            from <= f < 2 && #[trigger] before.is_due(f, today, now) && (forall|e: int|
                from <= e < f ==> !#[trigger] before.is_due(e, today, now))
                && after.last_attempt@[f] == Some(now) && (forall|e: int|
                0 <= e < 2 && e != f ==> #[trigger] after.last_attempt@[e]
                    == before.last_attempt@[e]) && after.phase == (Phase::<N>::Refreshing {
                today,
                file: f as usize,
            }) && action->url@ == file_url(f)@ && texts(action->wanted@) == wanted_in(f)
                && action->FetchFutures_today == today,
{
    if action is FetchFutures {
        let f = after.phase->file as int;
        assert(before.is_due(f, today, now));
        assert(after.last_attempt@ == before.last_attempt@.update(f, Some(now)));
    }
}

/// After a file has been fetched, every symbol found in it has exactly the contract that
/// was found, whatever it had before.
pub proof fn found_futures_take_over<N: Amount>(
    before: Poller<N>,
    after: Poller<N>,
    file: int,
    today: i32,
    found: TextMap<FutureContract>,
    symbol: Seq<char>,
)
    requires
        after.takes_futures(before, file, today, Ok(found)),
        found.map().contains_key(symbol),
    ensures
        after.futures.map().contains_key(symbol),
        after.futures.map()[symbol] == found.map()[symbol],
{
}

/// A fetched file is resolved for the day and the other stays as it was; a failed one
/// changes nothing that is known of futures and files. Either way expiries, attempts and
/// what is waited for stay.
pub proof fn fetched_files_are_resolved<N: Amount>(
    before: Poller<N>,
    after: Poller<N>,
    file: int,
    today: i32,
    result: Result<TextMap<FutureContract>, UpstoxError>,
)
    requires
        after.takes_futures(before, file, today, result),
        before.resolved_day@.len() == 2,
        0 <= file < 2,
    ensures
        result is Ok ==> after.resolved_day@.len() == 2 && after.resolved_day@[file] == Some(today)
            && after.resolved_day@[1 - file] == before.resolved_day@[1 - file],
        result is Err ==> after.resolved_day@ == before.resolved_day@ && after.futures
            == before.futures,
        after.expiries@ == before.expiries@,
        after.last_attempt@ == before.last_attempt@,
        after.phase == before.phase,
{
}

/// What is remembered stays whole: the same expiries, futures, resolved days and attempts.
pub proof fn memory_is_kept_whole<N: Amount>(a: Poller<N>, b: Poller<N>)
    ensures
        a.remembers(b) <==> a.remembers_but_attempts(b) && a.last_attempt@ == b.last_attempt@,
        a.remembers_but_attempts(b) <==> {
            &&& a.expiries@ == b.expiries@
            &&& a.futures == b.futures
            &&& a.resolved_day@ == b.resolved_day@
        },
{
}

/// Quotes are asked for by the instrument keys of the futures, one for each, and the
/// future of every symbol is among them.
pub proof fn every_future_is_quoted<N: Amount>(poller: Poller<N>, symbol: Seq<char>)
    requires
        poller.futures.wf(),
        poller.futures.map().contains_key(symbol),
    ensures
        poller.future_keys().len() == poller.futures.map().dom().len(),
        poller.future_keys().contains(poller.futures.map()[symbol].instrument_key@),
        forall|i: int|
            0 <= i < poller.future_keys().len() ==> exists|s: Seq<char>| #[trigger]
                poller.futures.map().contains_key(s) && poller.futures.map()[s].instrument_key@
                    == #[trigger] poller.future_keys()[i],
{
    poller.futures.keys_are_distinct();
    poller.futures.values_stand_under_their_keys();
    let list = poller.futures.list();
    let i = choose|i: int| 0 <= i < list.len() && (#[trigger] list[i]).0@ == symbol;
    assert(poller.futures.map()[list[i].0@] == list[i].1);
    assert(poller.future_keys()[i] == poller.futures.map()[symbol].instrument_key@);
    assert forall|i: int| 0 <= i < poller.future_keys().len() implies exists|s: Seq<char>|
     #[trigger]
        poller.futures.map().contains_key(s) && poller.futures.map()[s].instrument_key@
            == #[trigger] poller.future_keys()[i] by {
        assert(poller.futures.map().contains_key(list[i].0@));
        assert(poller.futures.map()[list[i].0@] == list[i].1);
    }
}

/// A round keeps the day and the timestamp of its minute and has the quotes that came, or
/// none where they failed to.
pub proof fn rounds_have_the_quotes_that_came<N>(
    round: Round<N>,
    today: i32,
    ts: String,
    result: Result<TextMap<Quote<N>>, UpstoxError>,
)
    requires
        starts_round(round, today, ts, result),
    ensures
        round.today == today,
        round.ts@ == ts@,
        result is Ok ==> round.quotes.map() == result->Ok_0.map(),
        result is Err ==> forall|k: Seq<char>| !#[trigger] round.quotes.map().contains_key(k),
{
}

/// An index is taken up with the expiry known for today or, where none is, by asking for
/// it; memory stays as it was.
pub proof fn indices_are_taken_up_with_todays_expiry<N: Amount>(
    before: Poller<N>,
    after: Poller<N>,
    round: Round<N>,
    index: int,
    action: Action<N>,
)
    requires
        after.goes_to_index(before, round, index, action),
        0 <= index <= 3,
    ensures
        after.expiries@ == before.expiries@,
        after.futures == before.futures,
        after.resolved_day@ == before.resolved_day@,
        after.last_attempt@ == before.last_attempt@,
        index == 3 ==> action is Sleep && after.phase is Asleep,
        index < 3 && before.expiries@[index] is Some && before.expiries@[index]->0.day
            == round.today ==> {
            &&& action is FetchChain
            &&& action->FetchChain_index == index
            &&& action->FetchChain_expiry == before.expiries@[index]->0.expiry
            &&& after.phase is FetchingChain
            &&& after.phase->FetchingChain_round == round
            &&& after.phase->FetchingChain_index == index
            &&& after.phase->expiry == before.expiries@[index]->0.expiry
        },
        index < 3 && (before.expiries@[index] is None || before.expiries@[index]->0.day
            != round.today) ==> {
            &&& action is FetchExpiry
            &&& action->FetchExpiry_index == index
            &&& action->FetchExpiry_today == round.today
            &&& after.phase is FindingExpiry
            &&& after.phase->FindingExpiry_round == round
            &&& after.phase->FindingExpiry_index == index
        },
{
}

/// What is shown of a failure is how to mend it where the API answered 401 or 403, and
/// otherwise what the error says; it is recorded for the index that failed.
pub proof fn failures_are_told_to_their_index<N>(
    e: UpstoxError,
    action: Action<N>,
    index: usize,
    message: Seq<char>,
)
    ensures
        e is Api && (e->status == 401 || e->status == 403) ==> failure_text(e)
            == "Upstox rejected the analytics token (HTTP 401/403) — regenerate it"@,
        !(e is Api && (e->status == 401 || e->status == 403)) ==> failure_text(e) == e.text(),
        fails(action, index, message) ==> action is Fail && action->Fail_index == index
            && action->message@ == message,
{
}

/// The spot of a chain is the first positive spot price that one of its strikes reports;
/// a chain without one has none.
pub proof fn spot_is_the_first_positive_one<N: Amount>(chain: Seq<OptionChainStrike<N>>)
    ensures
        spot_of(chain) is None <==> forall|i: int|
            0 <= i < chain.len() ==> !(
            #[trigger] chain[i]).underlying_spot_price.spec_is_positive(),
        spot_of(chain) is Some ==> exists|i: int|
            0 <= i < chain.len() && (#[trigger] chain[i]).underlying_spot_price == spot_of(chain)->0
                && chain[i].underlying_spot_price.spec_is_positive() && (forall|j: int|
                0 <= j < i ==> !(#[trigger] chain[j]).underlying_spot_price.spec_is_positive()),
    decreases chain.len(),
{
    if chain.len() > 0 {
        if chain[0].underlying_spot_price.spec_is_positive() {
            assert(chain[0].underlying_spot_price == spot_of(chain)->0);
        } else {
            let rest = chain.drop_first();
            spot_is_the_first_positive_one(rest);
            assert(forall|i: int| 0 <= i < rest.len() ==> #[trigger] rest[i] == chain[i + 1]);
            if spot_of(rest) is Some {
                let i = choose|i: int|
                    0 <= i < rest.len() && (#[trigger] rest[i]).underlying_spot_price
                        == spot_of(rest)->0 && rest[i].underlying_spot_price.spec_is_positive() && (
                    forall|j: int|
                        0 <= j < i ==> !(
                        #[trigger] rest[j]).underlying_spot_price.spec_is_positive());
                assert(chain[i + 1].underlying_spot_price == spot_of(chain)->0);
                assert forall|j: int| 0 <= j < i + 1 implies !(
                #[trigger] chain[j]).underlying_spot_price.spec_is_positive() by {
                    if j > 0 {
                        assert(chain[j] == rest[j - 1]);
                    }
                }
            } else {
                assert forall|i: int| 0 <= i < chain.len() implies !(
                #[trigger] chain[i]).underlying_spot_price.spec_is_positive() by {
                    if i > 0 {
                        assert(chain[i] == rest[i - 1]);
                    }
                }
            }
            if forall|i: int|
                0 <= i < chain.len() ==> !(
                #[trigger] chain[i]).underlying_spot_price.spec_is_positive() {
                assert forall|i: int| 0 <= i < rest.len() implies !(
                #[trigger] rest[i]).underlying_spot_price.spec_is_positive() by {
                    assert(rest[i] == chain[i + 1]);
                }
            }
        }
    }
}

/// A chain without a spot is told by the id of its index and its expiry.
pub proof fn empty_chains_are_told_by_index_and_expiry(index: int, expiry: i32)
    ensures
        empty_chain_text(index, expiry) == "empty option chain for "@ + index_at(index).id@
            + " expiry "@ + formatted_date(expiry, "%Y-%m-%d"@),
{
}

/// A publication is for the index that was polled: its live state has the expiry and spot
/// of the poll, the strike at the money and the minute's timestamp, and no error; each of
/// its four snapshots has the same timestamp, expiry, spot and futures prices, and the
/// sums of its own window over the chain that is published.
pub proof fn publications_report_the_poll<N: Amount>(
    action: Action<N>,
    futures: Map<Seq<char>, FutureContract>,
    round: Round<N>,
    index: usize,
    expiry: i32,
    chain: Seq<OptionChainStrike<N>>,
    spot: N,
    k: int,
)
    requires
        publishes(action, futures, round, index, expiry, chain, spot),
        0 <= k < 4,
    ensures
        action is Publish,
        action->Publish_index == index,
        action->snapshots@.len() == 4,
        ({
            let live = action->live;
            &&& live.expiry is Some
            &&& live.expiry->0@ == formatted_date(expiry, "%Y-%m-%d"@)
            &&& live.spot == Some(spot)
            &&& live.updated_at is Some
            &&& live.updated_at->0@ == round.ts@
            &&& live.last_error is None
            &&& exists|atm: int| #[trigger]
                is_atm(live.chain@, spot, atm) && live.atm_strike == Some(live.chain@[atm].strike)
        }),
        ({
            let live = action->live;
            let s = action->snapshots@[k];
            &&& s.ts@ == round.ts@
            &&& s.underlying == index_at(index as int).id
            &&& s.expiry@ == formatted_date(expiry, "%Y-%m-%d"@)
            &&& s.strike_window == seq![5i64, 10, 20, 0][k]
            &&& s.spot == spot
            &&& s.fut_ltp == live.fut_ltp
            &&& s.fut_vwap == live.fut_vwap
            &&& exists|agg: WindowAgg<N>| #[trigger]
                is_aggregate(live.chain@, spot, s.strike_window, agg) && s.call_oi == agg.call_oi
                    && s.put_oi == agg.put_oi && s.call_oi_chg == agg.call_oi_chg && s.put_oi_chg
                    == agg.put_oi_chg
        }),
{
    let rows = choose|rows: Seq<StrikeRow<N>>| #[trigger]
        stably_sorted(rows_of(chain), rows) && publishes_rows(
            action,
            futures,
            round,
            index,
            expiry,
            rows,
            spot,
        );
    assert(STRIKE_WINDOWS@ =~= seq![5i64, 10, 20, 0]);
    assert(is_snapshot(
        action->snapshots@[k],
        round.ts@,
        index as int,
        expiry,
        STRIKE_WINDOWS@[k],
        rows,
        spot,
        quote_of(futures, round.quotes.map(), index as int),
    ));
}

/// The futures prices of a publication are those of the index's own future: its trading
/// symbol where it is resolved and, where it is quoted under its instrument key, its last
/// price as the price and its average price as VWAP, each as far as it is positive.
pub proof fn futures_prices_are_of_the_own_future<N: Amount>(
    action: Action<N>,
    futures: Map<Seq<char>, FutureContract>,
    round: Round<N>,
    index: usize,
    expiry: i32,
    chain: Seq<OptionChainStrike<N>>,
    spot: N,
)
    requires
        publishes(action, futures, round, index, expiry, chain, spot),
    ensures
        ({
            let live = action->live;
            let symbol = index_at(index as int).future_symbol@;
            let future = futures[symbol];
            let quotes = round.quotes.map();
            let quote = quotes[future.instrument_key@];
            let quoted = futures.contains_key(symbol) && quotes.contains_key(
                future.instrument_key@,
            );
            &&& futures.contains_key(symbol) ==> live.future_symbol == Some(future.trading_symbol)
            &&& !futures.contains_key(symbol) ==> live.future_symbol is None
            &&& !quoted ==> live.fut_ltp is None && live.fut_vwap is None
            &&& quoted && quote.last_price.spec_is_positive() ==> live.fut_ltp == Some(
                quote.last_price,
            )
            &&& quoted && !quote.last_price.spec_is_positive() ==> live.fut_ltp is None
            &&& quoted && quote.average_price.spec_is_positive() ==> live.fut_vwap == Some(
                quote.average_price,
            )
            &&& quoted && !quote.average_price.spec_is_positive() ==> live.fut_vwap is None
        }),
{
}

} // verus!
