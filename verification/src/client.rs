//! The read-only Upstox API as seen from the library: requests as URLs, responses as
//! status, body and values, failures as [`UpstoxError`].
use vstd::prelude::*;

use crate::calendar::{day_in, day_text, format_day, is_day, parse_day, parsed_date};
use crate::quotes::Quote;
use crate::text::{decimal, decimals_read_back, join, joined, push_decimal, spelled, texts};
use crate::text_map::TextMap;

verus! {

/// Where the API is served.
pub const API_BASE: &'static str = "https://api.upstox.com/v2";

/// How many characters of an error response are kept.
pub const ERROR_BODY_CHARS: usize = 300;

#[derive(Debug)]
pub enum UpstoxError {
    /// The request could not be sent or answered; what the transport says about it.
    Http(String),
    /// The API answered with an error status.
    Api { status: u16, body: String },
    /// The answer could not be read.
    Decode(String),
}

impl UpstoxError {
    /// 401 or 403: the analytics token is missing, revoked, or expired.
    pub open spec fn unauthorized(self) -> bool {
        match self {
            UpstoxError::Api { status, body } => status == 401 || status == 403,
            _ => false,
        }
    }

    /// What the error says.
    pub open spec fn text(self) -> Seq<char> {
        match self {
            UpstoxError::Http(e) => "http error: "@ + e@,
            UpstoxError::Api { status, body } => "upstox api returned HTTP "@ + decimal(
                status as nat,
            ) + ": "@ + body@,
            UpstoxError::Decode(e) => "decode error: "@ + e@,
        }
    }

    /// 401 or 403: the analytics token is missing, revoked, or expired.
    pub fn is_unauthorized(&self) -> (r: bool)
        ensures
            r == self.unauthorized(),
    {
        match self {
            UpstoxError::Api { status, .. } => *status == 401 || *status == 403,
            _ => false,
        }
    }

    /// What the error says.
    pub fn message(&self) -> (r: String)
        ensures
            r@ == self.text(),
    {
        let mut out = String::new();
        match self {
            UpstoxError::Http(e) => {
                out.append("http error: ");
                out.append(e.as_str());
            },
            UpstoxError::Api { status, body } => {
                out.append("upstox api returned HTTP ");
                push_decimal(&mut out, *status as u32);
                out.append(": ");
                out.append(body.as_str());
            },
            UpstoxError::Decode(e) => {
                out.append("decode error: ");
                out.append(e.as_str());
            },
        }
        assert(out@ =~= self.text());
        out
    }
}

/// The URL that `base` with the query parameters `params` makes, or why it makes none.
pub uninterp spec fn url_with_params(
    base: Seq<char>,
    params: Seq<(Seq<char>, Seq<char>)>,
) -> Result<Seq<char>, Seq<char>>;

/// The texts of a list of query parameters.
pub open spec fn param_texts(params: Seq<(String, String)>) -> Seq<(Seq<char>, Seq<char>)> {
    params.map_values(|p: (String, String)| (p.0@, p.1@))
}

/// Calls `reqwest::Url::parse_with_params`. Trusted: the URL, or the text of the error,
/// depends on the base and the parameters alone.
#[verifier::external_body]
fn build_url(base: &str, params: &Vec<(String, String)>) -> (r: Result<String, String>)
    ensures
        match r {
            Ok(u) => url_with_params(base@, param_texts(params@)) == Ok::<Seq<char>, Seq<char>>(u@),
            Err(e) => url_with_params(base@, param_texts(params@)) == Err::<Seq<char>, Seq<char>>(
                e@,
            ),
        },
{
    match reqwest::Url::parse_with_params(base, params) {
        Ok(u) => Ok(u.to_string()),
        Err(e) => Err(e.to_string()),
    }
}

/// Whether `r` is the request that comes of the URL `url`: the URL itself, or a decode
/// error with the reason why there is none.
pub open spec fn is_request(
    url: Result<Seq<char>, Seq<char>>,
    r: Result<String, UpstoxError>,
) -> bool {
    match url {
        Ok(u) => r is Ok && r->Ok_0@ == u,
        Err(e) => r is Err && r->Err_0 is Decode && r->Err_0->Decode_0@ == e,
    }
}

/// The request that comes of an attempt to build its URL.
pub fn request_of(url: Result<String, String>) -> (r: Result<String, UpstoxError>)
    ensures
        is_request(
            match url {
                Ok(u) => Ok(u@),
                Err(e) => Err(e@),
            },
            r,
        ),
{
    match url {
        Ok(u) => Ok(u),
        Err(e) => Err(UpstoxError::Decode(e)),
    }
}

/// The request for `path` with the query parameters `params`.
pub fn request_url(path: &str, params: &Vec<(String, String)>) -> (r: Result<String, UpstoxError>)
    ensures
        is_request(url_with_params(API_BASE@ + path@, param_texts(params@)), r),
{
    let mut base = String::new();
    base.append(API_BASE);
    base.append(path);
    assert(base@ =~= API_BASE@ + path@);
    request_of(build_url(base.as_str(), params))
}

/// The request for the option contracts of an underlying such as `NSE_INDEX|Nifty 50`.
pub fn option_contracts_url(underlying_key: &str) -> (r: Result<String, UpstoxError>)
    ensures
        is_request(
            url_with_params(
                API_BASE@ + "/option/contract"@,
                seq![("instrument_key"@, underlying_key@)],
            ),
            r,
        ),
{
    let mut params: Vec<(String, String)> = Vec::new();
    params.push(("instrument_key".to_owned(), underlying_key.to_owned()));
    assert(param_texts(params@) =~= seq![("instrument_key"@, underlying_key@)]);
    request_url("/option/contract", &params)
}

/// The request for the option chain of an underlying for one expiry.
pub fn option_chain_url(underlying_key: &str, expiry: i32) -> (r: Result<String, UpstoxError>)
    requires
        is_day(expiry as int),
    ensures
        is_request(
            url_with_params(
                API_BASE@ + "/option/chain"@,
                seq![("instrument_key"@, underlying_key@), ("expiry_date"@, day_text(expiry))],
            ),
            r,
        ),
{
    let mut params: Vec<(String, String)> = Vec::new();
    params.push(("instrument_key".to_owned(), underlying_key.to_owned()));
    params.push(("expiry_date".to_owned(), format_day(expiry)));
    assert(param_texts(params@) =~= seq![
        ("instrument_key"@, underlying_key@),
        ("expiry_date"@, day_text(expiry)),
    ]);
    request_url("/option/chain", &params)
}

/// The request for the full quotes of some instruments, all in one; `None` where there
/// are none to ask for.
pub fn quotes_url(keys: &Vec<String>) -> (r: Option<Result<String, UpstoxError>>)
    ensures
        r is None <==> keys@.len() == 0,
        r is Some ==> is_request(
            url_with_params(
                API_BASE@ + "/market-quote/quotes"@,
                seq![("instrument_key"@, joined(texts(keys@), ","@))],
            ),
            r->0,
        ),
{
    if keys.len() == 0 {
        return None;
    }
    let mut params: Vec<(String, String)> = Vec::new();
    params.push(("instrument_key".to_owned(), join(keys, ",")));
    assert(param_texts(params@) =~= seq![("instrument_key"@, joined(texts(keys@), ","@))]);
    Some(request_url("/market-quote/quotes", &params))
}

/// Whether an HTTP status means success.
pub open spec fn is_success(status: u16) -> bool {
    200 <= status <= 299
}

/// The beginning of a text, `n` characters at most.
pub open spec fn beginning(s: Seq<char>, n: int) -> Seq<char> {
    if s.len() <= n {
        s
    } else {
        s.take(n)
    }
}

/// Lets a successful response pass; of any other, keeps the status and the beginning of
/// the body.
pub fn check_response(status: u16, body: &str) -> (r: Result<(), UpstoxError>)
    ensures
        r is Ok <==> is_success(status),
        r is Err ==> r->Err_0 is Api && r->Err_0->status == status && r->Err_0->body@
            == beginning(body@, ERROR_BODY_CHARS as int),
{
    if 200 <= status && status <= 299 {
        return Ok(());
    }
    let n = body.unicode_len();
    let kept: usize = if n < ERROR_BODY_CHARS {
        n
    } else {
        ERROR_BODY_CHARS
    };
    let body_text = body.substring_char(0, kept).to_owned();
    assert(body_text@ =~= beginning(body@, ERROR_BODY_CHARS as int));
    Err(UpstoxError::Api { status, body: body_text })
}

/// Lets a successful download pass; of any other, keeps the status.
pub fn check_download(status: u16) -> (r: Result<(), UpstoxError>)
    ensures
        r is Ok <==> is_success(status),
        r is Err ==> r->Err_0 is Api && r->Err_0->status == status && r->Err_0->body@
            == Seq::<char>::empty(),
{
    if 200 <= status && status <= 299 {
        Ok(())
    } else {
        Err(UpstoxError::Api { status, body: String::new() })
    }
}

/// The failure to read what came from `source`, for the given reason.
pub fn decode_failure(source: &str, reason: &str) -> (r: UpstoxError)
    ensures
        r is Decode,
        r->Decode_0@ == source@ + ": "@ + reason@,
{
    let mut out = String::new();
    out.append(source);
    out.append(": ");
    out.append(reason);
    assert(out@ =~= source@ + ": "@ + reason@);
    UpstoxError::Decode(out)
}

/// Whether `day` is one of the days, and not before `today`.
pub open spec fn is_live_day(days: Seq<Option<i32>>, today: i32, day: i32) -> bool {
    day >= today && days.contains(Some(day))
}

/// Nearest of the days on or after `today`; the error names the underlying.
pub fn nearest_day(days: &Vec<Option<i32>>, today: i32, underlying_key: &str) -> (r: Result<
    i32,
    UpstoxError,
>)
    ensures
        r is Ok <==> exists|day: i32| is_live_day(days@, today, day),
        r is Ok ==> is_live_day(days@, today, r->Ok_0),
        r is Ok ==> forall|day: i32| is_live_day(days@, today, day) ==> r->Ok_0 <= day,
        r is Err ==> r->Err_0 is Decode && r->Err_0->Decode_0@ == "no live option expiry for "@
            + underlying_key@,
{
    let mut best: Option<i32> = None;
    let mut i: usize = 0;
    while i < days.len()
        invariant
            i <= days@.len(),
            best is Some ==> is_live_day(days@, today, best->0),
            forall|j: int|
                0 <= j < i && (#[trigger] days@[j]) is Some && days@[j]->0 >= today ==> best
                    is Some && best->0 <= days@[j]->0,
        decreases days@.len() - i,
    {
        match days[i] {
            Some(d) => {
                let closer: bool = match best {
                    Some(b) => d < b,
                    None => true,
                };
                if d >= today && closer {
                    assert(days@[i as int] == Some(d));
                    best = Some(d);
                }
            },
            None => {},
        }
        i = i + 1;
    }
    match best {
        Some(d) => Ok(d),
        None => {
            let mut out = String::new();
            out.append("no live option expiry for ");
            out.append(underlying_key);
            assert(out@ =~= "no live option expiry for "@ + underlying_key@);
            Err(UpstoxError::Decode(out))
        },
    }
}

/// The dates of the expiries, each as far as it is one.
pub open spec fn expiry_days(expiries: Seq<String>) -> Seq<Option<i32>> {
    expiries.map_values(|s: String| day_in(s@))
}

/// Nearest option expiry on or after `today` among those of the contracts of an
/// underlying; expiries that are no dates are passed over.
pub fn nearest_expiry(expiries: &Vec<String>, today: i32, underlying_key: &str) -> (r: Result<
    i32,
    UpstoxError,
>)
    ensures
        r is Ok <==> exists|day: i32| is_live_day(expiry_days(expiries@), today, day),
        r is Ok ==> is_live_day(expiry_days(expiries@), today, r->Ok_0),
        r is Ok ==> forall|day: i32|
            is_live_day(expiry_days(expiries@), today, day) ==> r->Ok_0 <= day,
        r is Ok ==> is_day(r->Ok_0 as int),
        r is Err ==> r->Err_0 is Decode && r->Err_0->Decode_0@ == "no live option expiry for "@
            + underlying_key@,
{
    let mut days: Vec<Option<i32>> = Vec::new();
    let mut i: usize = 0;
    while i < expiries.len()
        invariant
            i <= expiries@.len(),
            days@ == expiry_days(expiries@).take(i as int),
            forall|j: int| 0 <= j < i && (#[trigger] days@[j]) is Some ==> is_day(days@[j]->0 as int),
        decreases expiries@.len() - i,
    {
        days.push(parse_day(expiries[i].as_str()));
        assert(days@ =~= expiry_days(expiries@).take(i + 1));
        i = i + 1;
    }
    assert(days@ =~= expiry_days(expiries@));
    nearest_day(&days, today, underlying_key)
}

/// The quotes by the instrument they are of; of two for one instrument, the later.
pub open spec fn quotes_by_token<N>(raw: Seq<Quote<N>>) -> Map<Seq<char>, Quote<N>>
    decreases raw.len(),
{
    if raw.len() == 0 {
        Map::empty()
    } else {
        quotes_by_token(raw.drop_last()).insert(raw.last().instrument_token@, raw.last())
    }
}

/// Keys the quotes of a response by their own pipe-form instrument key.
pub fn key_quotes<N>(raw: Vec<Quote<N>>) -> (r: TextMap<Quote<N>>)
    ensures
        r.wf(),
        r.map() == quotes_by_token(raw@),
{
    let ghost all = raw@;
    let mut rest = raw;
    let mut out: TextMap<Quote<N>> = TextMap::new();
    assert(all.take(0) =~= Seq::empty());
    while rest.len() > 0
        invariant
            rest@.len() <= all.len(),
            rest@ == all.skip(all.len() - rest@.len()),
            out.wf(),
            out.map() == quotes_by_token(all.take(all.len() - rest@.len())),
        decreases rest@.len(),
    {
        let ghost n = all.len() - rest@.len();
        let q = rest.remove(0);
        assert(q == all[n]);
        assert(rest@ =~= all.skip(n + 1));
        assert(all.take(n + 1).drop_last() =~= all.take(n));
        let key = q.instrument_token.clone();
        out.insert(key, q);
    }
    assert(all.take(all.len() as int) =~= all);
    out
}

/// A quote is found under its own instrument key, and under no other.
pub proof fn quotes_are_found_by_their_token<N>(raw: Seq<Quote<N>>, key: Seq<char>)
    ensures
        quotes_by_token(raw).contains_key(key) <==> exists|i: int|
            0 <= i < raw.len() && (#[trigger] raw[i]).instrument_token@ == key,
        quotes_by_token(raw).contains_key(key) ==> quotes_by_token(raw)[key].instrument_token@
            == key,
    decreases raw.len(),
{
    if raw.len() > 0 {
        quotes_are_found_by_their_token(raw.drop_last(), key);
        assert(forall|i: int| 0 <= i < raw.len() - 1 ==> raw.drop_last()[i] == raw[i]);
        if quotes_by_token(raw.drop_last()).contains_key(key) {
            let i = choose|i: int|
                0 <= i < raw.len() - 1 && (#[trigger] raw.drop_last()[i]).instrument_token@ == key;
            assert(raw[i].instrument_token@ == key);
        }
        if raw.last().instrument_token@ == key {
            assert(raw[raw.len() - 1].instrument_token@ == key);
        }
        if exists|i: int| 0 <= i < raw.len() && (#[trigger] raw[i]).instrument_token@ == key {
            let i = choose|i: int|
                0 <= i < raw.len() && (#[trigger] raw[i]).instrument_token@ == key;
            if i < raw.len() - 1 {
                assert(raw.drop_last()[i].instrument_token@ == key);
            }
        }
    }
}

/// The token was rejected exactly where the API answered 401 or 403.
pub proof fn rejected_tokens_are_401_and_403(e: UpstoxError)
    ensures
        e.unauthorized() <==> e is Api && (e->status == 401 || e->status == 403),
{
}

/// An error says what kind it is and then, unchanged, what it was given; an API error its
/// status in decimal before the body.
pub proof fn errors_say_what_they_were_given(e: UpstoxError)
    ensures
        e is Http ==> e.text() == "http error: "@ + e->Http_0@,
        e is Decode ==> e.text() == "decode error: "@ + e->Decode_0@,
        e is Api ==> exists|number: Seq<char>|
            e.text() == "upstox api returned HTTP "@ + number + ": "@ + e->body@ && spelled(number)
                == e->status && number == #[trigger] decimal(e->status as nat),
{
    if e is Api {
        decimals_read_back(e->status as nat);
    }
}

/// Success is a status of 200 to 299.
pub proof fn success_is_the_two_hundreds(status: u16)
    ensures
        is_success(status) <==> status / 100 == 2,
{
}

/// The beginning of a text is a part of it that begins where it begins, of `n` characters
/// or, where the text is shorter, the whole of it.
pub proof fn beginnings_begin_the_text(s: Seq<char>, n: int)
    requires
        n >= 0,
    ensures
        beginning(s, n).len() == (if s.len() < n {
            s.len() as int
        } else {
            n
        }),
        beginning(s, n).is_prefix_of(s),
{
}

/// A request is the URL that was built, or a decode error with the reason why there is
/// none.
pub proof fn requests_are_their_urls(
    url: Result<Seq<char>, Seq<char>>,
    r: Result<String, UpstoxError>,
)
    requires
        is_request(url, r),
    ensures
        r is Ok <==> url is Ok,
        url is Ok ==> r->Ok_0@ == url->Ok_0,
        url is Err ==> r->Err_0 is Decode && r->Err_0->Decode_0@ == url->Err_0,
{
}

/// Parameters are sent as they are given: each name with its own value, in order.
pub proof fn parameters_are_sent_as_given(params: Seq<(String, String)>)
    ensures
        param_texts(params).len() == params.len(),
        forall|i: int|
            0 <= i < params.len() ==> #[trigger] param_texts(params)[i] == (
                params[i].0@,
                params[i].1@,
            ),
{
}

/// A live day is one of the days given, today or later.
pub proof fn live_days_are_not_past(days: Seq<Option<i32>>, today: i32, day: i32)
    ensures
        is_live_day(days, today, day) <==> day >= today && exists|i: int|
            0 <= i < days.len() && #[trigger] days[i] == Some(day),
{
}

/// Expiries are read as dates, each for itself.
pub proof fn expiries_are_read_one_by_one(expiries: Seq<String>)
    ensures
        expiry_days(expiries).len() == expiries.len(),
        forall|i: int|
            0 <= i < expiries.len() ==> #[trigger] expiry_days(expiries)[i] == parsed_date(
                expiries[i]@,
                "%Y-%m-%d"@,
            ),
{
}

/// Under its instrument key stands the last quote that was given of the instrument, whole.
pub proof fn last_quote_of_an_instrument_counts<N>(raw: Seq<Quote<N>>, i: int)
    requires
        0 <= i < raw.len(),
        forall|j: int|
            i < j < raw.len() ==> (#[trigger] raw[j]).instrument_token@
                != raw[i].instrument_token@,
    ensures
        quotes_by_token(raw).contains_key(raw[i].instrument_token@),
        quotes_by_token(raw)[raw[i].instrument_token@] == raw[i],
    decreases raw.len(),
{
    if i < raw.len() - 1 {
        let rest = raw.drop_last();
        assert(rest[i] == raw[i]);
        assert forall|j: int| i < j < rest.len() implies (#[trigger] rest[j]).instrument_token@
            != rest[i].instrument_token@ by {
            assert(rest[j] == raw[j]);
        }
        last_quote_of_an_instrument_counts(rest, i);
        assert(raw[raw.len() - 1].instrument_token@ != raw[i].instrument_token@);
    }
}

} // verus!
