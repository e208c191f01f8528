//! The indices whose option chains are followed.
use vstd::prelude::*;

use crate::text::{ascii_lower, eq_ignore_ascii_case, same_ignoring_ascii_case};

verus! {

/// The gzipped list of everything traded on the NSE.
pub const NSE_INSTRUMENTS_URL: &'static str =
    "https://assets.upstox.com/market-quote/instruments/exchange/NSE.json.gz";

/// The gzipped list of everything traded on the BSE.
pub const BSE_INSTRUMENTS_URL: &'static str =
    "https://assets.upstox.com/market-quote/instruments/exchange/BSE.json.gz";

#[derive(Clone, Copy)]
pub struct IndexSpec {
    /// Id used by the API and the database (`NIFTY`).
    pub id: &'static str,
    /// Upstox underlying key for option chain and contracts.
    pub underlying_key: &'static str,
    /// `underlying_symbol` of the index future in the instruments file.
    pub future_symbol: &'static str,
    pub instruments_url: &'static str,
}

/// How many indices are followed.
pub const INDEX_COUNT: usize = 3;

/// The indices, in the order in which they are polled and shown.
pub open spec fn index_at(i: int) -> IndexSpec {
    if i == 0 {
        IndexSpec {
            id: "NIFTY",
            underlying_key: "NSE_INDEX|Nifty 50",
            future_symbol: "NIFTY",
            instruments_url: NSE_INSTRUMENTS_URL,
        }
    } else if i == 1 {
        IndexSpec {
            id: "BANKNIFTY",
            underlying_key: "NSE_INDEX|Nifty Bank",
            future_symbol: "BANKNIFTY",
            instruments_url: NSE_INSTRUMENTS_URL,
        }
    } else {
        IndexSpec {
            id: "SENSEX",
            underlying_key: "BSE_INDEX|SENSEX",
            future_symbol: "SENSEX",
            instruments_url: BSE_INSTRUMENTS_URL,
        }
    }
}

/// The index at position `i`.
pub fn index_spec(i: usize) -> (r: IndexSpec)
    requires
        i < INDEX_COUNT,
    ensures
        r == index_at(i as int),
{
    if i == 0 {
        IndexSpec {
            id: "NIFTY",
            underlying_key: "NSE_INDEX|Nifty 50",
            future_symbol: "NIFTY",
            instruments_url: NSE_INSTRUMENTS_URL,
        }
    } else if i == 1 {
        IndexSpec {
            id: "BANKNIFTY",
            underlying_key: "NSE_INDEX|Nifty Bank",
            future_symbol: "BANKNIFTY",
            instruments_url: NSE_INSTRUMENTS_URL,
        }
    } else {
        IndexSpec {
            id: "SENSEX",
            underlying_key: "BSE_INDEX|SENSEX",
            future_symbol: "SENSEX",
            instruments_url: BSE_INSTRUMENTS_URL,
        }
    }
}

/// The position of the index that goes by `id`, the case of its letters aside.
pub open spec fn position_of(id: Seq<char>) -> Option<int> {
    if same_ignoring_ascii_case(index_at(0).id@, id) {
        Some(0int)
    } else if same_ignoring_ascii_case(index_at(1).id@, id) {
        Some(1int)
    } else if same_ignoring_ascii_case(index_at(2).id@, id) {
        Some(2int)
    } else {
        None
    }
}

/// The position of the index that a request names, in whatever case it writes it.
pub fn index_position(id: &str) -> (r: Option<usize>)
    ensures
        r is Some <==> position_of(id@) is Some,
        r is Some ==> r->0 == position_of(id@)->0 && r->0 < INDEX_COUNT,
{
    let mut i: usize = 0;
    while i < INDEX_COUNT
        invariant
            i <= INDEX_COUNT,
            forall|j: int|
                0 <= j < i ==> !same_ignoring_ascii_case(#[trigger] index_at(j).id@, id@),
        decreases INDEX_COUNT - i,
    {
        if eq_ignore_ascii_case(index_spec(i).id, id) {
            assert(forall|j: int|
                0 <= j < i ==> !same_ignoring_ascii_case(#[trigger] index_at(j).id@, id@));
            return Some(i);
        }
        i = i + 1;
    }
    assert(!same_ignoring_ascii_case(index_at(0).id@, id@));
    assert(!same_ignoring_ascii_case(index_at(1).id@, id@));
    assert(!same_ignoring_ascii_case(index_at(2).id@, id@));
    None
}

/// The id of the index that a request names, as the API writes it.
pub fn known_index(id: &str) -> (r: Option<&'static str>)
    ensures
        r == (match position_of(id@) {
            Some(i) => Some(index_at(i).id),
            None => None,
        }),
{
    match index_position(id) {
        Some(i) => Some(index_spec(i).id),
        None => None,
    }
}

/// Every index is known by its own id.
pub proof fn ids_name_their_index(i: int)
    requires
        0 <= i < INDEX_COUNT,
    ensures
        position_of(index_at(i).id@) == Some(i),
{
    reveal_strlit("NIFTY");
    reveal_strlit("BANKNIFTY");
    reveal_strlit("SENSEX");
    let id = index_at(i).id@;
    if i == 2 {
        assert(ascii_lower(index_at(0).id@[0]) != ascii_lower(id[0]) || index_at(0).id@.len() != id.len());
    }
}

/// How an id is written makes no difference: texts that agree but for the case of
/// their letters name the same index.
pub proof fn case_does_not_matter(a: Seq<char>, b: Seq<char>)
    requires
        same_ignoring_ascii_case(a, b),
    ensures
        position_of(a) == position_of(b),
{
    assert forall|i: int| 0 <= i < INDEX_COUNT implies same_ignoring_ascii_case(
        #[trigger] index_at(i).id@,
        a,
    ) == same_ignoring_ascii_case(index_at(i).id@, b) by {
        let id = index_at(i).id@;
        if same_ignoring_ascii_case(id, a) {
            assert forall|j: int| 0 <= j < id.len() implies ascii_lower(#[trigger] id[j])
                == ascii_lower(b[j]) by {
                assert(ascii_lower(a[j]) == ascii_lower(b[j]));
            }
        }
        if same_ignoring_ascii_case(id, b) {
            assert forall|j: int| 0 <= j < id.len() implies ascii_lower(#[trigger] id[j])
                == ascii_lower(a[j]) by {
                assert(ascii_lower(a[j]) == ascii_lower(b[j]));
            }
        }
    }
    assert(same_ignoring_ascii_case(index_at(0).id@, a) == same_ignoring_ascii_case(
        index_at(0).id@,
        b,
    ));
    assert(same_ignoring_ascii_case(index_at(1).id@, a) == same_ignoring_ascii_case(
        index_at(1).id@,
        b,
    ));
    assert(same_ignoring_ascii_case(index_at(2).id@, a) == same_ignoring_ascii_case(
        index_at(2).id@,
        b,
    ));
}

/// Three indices are followed, each under its id, its underlying key, the symbol of its
/// future and the list of the exchange it is traded on.
pub proof fn indices_are_three()
    ensures
        INDEX_COUNT == 3,
        index_at(0).id@ == "NIFTY"@,
        index_at(0).underlying_key@ == "NSE_INDEX|Nifty 50"@,
        index_at(0).future_symbol@ == "NIFTY"@,
        index_at(0).instruments_url@
            == "https://assets.upstox.com/market-quote/instruments/exchange/NSE.json.gz"@,
        index_at(1).id@ == "BANKNIFTY"@,
        index_at(1).underlying_key@ == "NSE_INDEX|Nifty Bank"@,
        index_at(1).future_symbol@ == "BANKNIFTY"@,
        index_at(1).instruments_url@
            == "https://assets.upstox.com/market-quote/instruments/exchange/NSE.json.gz"@,
        index_at(2).id@ == "SENSEX"@,
        index_at(2).underlying_key@ == "BSE_INDEX|SENSEX"@,
        index_at(2).future_symbol@ == "SENSEX"@,
        index_at(2).instruments_url@
            == "https://assets.upstox.com/market-quote/instruments/exchange/BSE.json.gz"@,
{
}

/// A request names an index exactly where it writes that index's id, the case of ASCII
/// letters aside; any other text names none.
pub proof fn requests_name_an_index_by_its_id(id: Seq<char>, i: int)
    requires
        0 <= i < INDEX_COUNT,
    ensures
        position_of(id) == Some(i) <==> same_ignoring_ascii_case(index_at(i).id@, id),
        position_of(id) is Some ==> 0 <= position_of(id)->0 < INDEX_COUNT,
{
    reveal_strlit("NIFTY");
    reveal_strlit("BANKNIFTY");
    reveal_strlit("SENSEX");
    if same_ignoring_ascii_case(index_at(0).id@, id) && same_ignoring_ascii_case(
        index_at(1).id@,
        id,
    ) {
        assert(false);
    }
    if same_ignoring_ascii_case(index_at(0).id@, id) && same_ignoring_ascii_case(
        index_at(2).id@,
        id,
    ) {
        assert(false);
    }
    if same_ignoring_ascii_case(index_at(1).id@, id) && same_ignoring_ascii_case(
        index_at(2).id@,
        id,
    ) {
        assert(false);
    }
}

} // verus!
