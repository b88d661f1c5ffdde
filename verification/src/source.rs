//! The rate source: what is asked of the rate service, and what a reply
//! amounts to.
//!
//! The service is asked for the rates of one asset. A good reply is a JSON
//! document of the shape
//! `{ "data": { "currency": <string>, "rates": { <symbol>: <string>, .. } } }`,
//! in which every rate is a decimal numeral in a string. The caller sends
//! the request and hands the reply to [`rate_from_reply`].

use vstd::prelude::*;
use vstd::string::*;
use crate::json::{json_object, json_string, object_members, string_value};
use crate::numeral::{append_decimal, decimal_text};
use crate::rate::Rate;
use crate::reading::reading;
use crate::status::{status_text, status_words};

verus! {

/// Why no rate came of a fetch.
#[derive(Clone, Copy, Debug, PartialEq, Eq, Structural)]
pub enum FetchError {
    /// The service was not reached, or its reply did not arrive whole.
    Transport,
    /// The service answered with a status outside 200 to 299.
    BadStatus(u16),
    /// The body is not a document of the expected shape.
    MalformedBody,
    /// The document quotes no rate in the currency asked for.
    MissingCurrency,
    /// The rate quoted is not a decimal numeral of an amount above zero
    /// that a rate can hold.
    UnparseableRate,
}

/// What came of a request.
#[derive(Debug)]
pub enum Reply {
    /// No reply arrived, or not all of it.
    Failed,
    /// A reply arrived. Where the status is no success the body is not
    /// looked at, and may be left empty.
    Received { status: u16, body: String },
}

/// A list of keys with their texts, as views.
pub type Entries = Seq<(Seq<char>, Seq<char>)>;

/// Whether a status code reports success.
pub open spec fn is_success(status: u16) -> bool {
    200 <= status < 300
}

/// The text that stands with `key` in `entries`; with the last such key
/// where there are several, and `None` where there is none.
pub open spec fn entry_text(entries: Entries, key: Seq<char>) -> Option<Seq<char>>
    decreases entries.len(),
{
    if entries.len() == 0 {
        None
    } else if entries.last().0 == key {
        Some(entries.last().1)
    } else {
        entry_text(entries.drop_last(), key)
    }
}

/// The entries with each text read as a JSON string; `None` where one of
/// the texts is not a JSON string.
pub open spec fn strings_of(entries: Entries) -> Option<Entries>
    decreases entries.len(),
{
    if entries.len() == 0 {
        Some(Seq::empty())
    } else {
        match (strings_of(entries.drop_last()), json_string(entries.last().1)) {
            (Some(before), Some(content)) => Some(before.push((entries.last().0, content))),
            _ => None,
        }
    }
}

/// The rates that a body quotes, each symbol with its numeral; `None`
/// where the body is not of the expected shape: where it is no object,
/// has no object under `data`, or that object has no string under
/// `currency` or no object of strings under `rates`.
pub open spec fn quoted_rates(body: Seq<char>) -> Option<Entries> {
    match json_object(body) {
        None => None,
        Some(top) => match entry_text(top, "data"@) {
            None => None,
            Some(data_text) => match json_object(data_text) {
                None => None,
                Some(data) => match (entry_text(data, "currency"@), entry_text(data, "rates"@)) {
                    (Some(currency_text), Some(rates_text)) => if json_string(currency_text)
                        is Some {
                        match json_object(rates_text) {
                            None => None,
                            Some(rates) => strings_of(rates),
                        }
                    } else {
                        None
                    },
                    _ => None,
                },
            },
        },
    }
}

/// The rate that `rates` quote in `currency`.
pub open spec fn rate_among(rates: Entries, currency: Seq<char>) -> Result<Rate, FetchError> {
    match entry_text(rates, currency) {
        None => Err(FetchError::MissingCurrency),
        Some(numeral) => match reading(numeral) {
            Ok(rate) => if rate@ > 0 {
                Ok(rate)
            } else {
                Err(FetchError::UnparseableRate)
            },
            Err(_) => Err(FetchError::UnparseableRate),
        },
    }
}

/// The rate that a body quotes in `currency`.
pub open spec fn rate_in_body(body: Seq<char>, currency: Seq<char>) -> Result<Rate, FetchError> {
    match quoted_rates(body) {
        None => Err(FetchError::MalformedBody),
        Some(rates) => rate_among(rates, currency),
    }
}

/// The rate that a reply gives in `currency`.
pub open spec fn rate_in_reply(reply: Reply, currency: Seq<char>) -> Result<Rate, FetchError> {
    match reply {
        Reply::Failed => Err(FetchError::Transport),
        Reply::Received { status, body } => if is_success(status) {
            rate_in_body(body@, currency)
        } else {
            Err(FetchError::BadStatus(status))
        },
    }
}

/// Where the rates of an asset are asked for: the address of the service
/// with the asset's symbol at its end.
pub open spec fn request_url_of(asset: Seq<char>) -> Seq<char> {
    "https://api.coinbase.com/v2/exchange-rates?currency="@ + asset
}

/// The address at which the rates of `asset` are asked for.
pub fn request_url(asset: &str) -> (url: String)
    ensures
        url@ == request_url_of(asset@),
{
    String::from_str("https://api.coinbase.com/v2/exchange-rates?currency=").concat(asset)
}

/// Whether `status` reports success: whether it lies in 200 to 299.
pub fn status_is_success(status: u16) -> (b: bool)
    ensures
        b == is_success(status),
{
    200 <= status && status < 300
}

/// Finds the text that stands with `key` among `entries`: with the last
/// such key where there are several.
pub fn find_entry<'a>(entries: &'a Vec<(String, String)>, key: &str) -> (r: Option<&'a String>)
    ensures
        r.deep_view() == entry_text(entries.deep_view(), key@),
{
    let wanted = String::from_str(key);
    let mut found: Option<&'a String> = None;
    let mut i: usize = 0;
    while i < entries.len()
        invariant
            i <= entries.len(),
            wanted@ == key@,
            found.deep_view() == entry_text(entries.deep_view().take(i as int), key@),
        decreases entries.len() - i,
    {
        proof {
            let all = entries.deep_view();
            assert(all.take(i + 1).drop_last() =~= all.take(i as int));
        }
        if entries[i].0 == wanted {
            found = Some(&entries[i].1);
        }
        i = i + 1;
    }
    proof {
        assert(entries.deep_view().take(i as int) =~= entries.deep_view());
    }
    found
}

/// Once a text among the entries is no JSON string, the entries as a whole
/// are not strings.
proof fn lemma_strings_of_prefix(entries: Entries, upto: int)
    requires
        0 <= upto <= entries.len(),
        strings_of(entries.take(upto)) is None,
    ensures
        strings_of(entries) is None,
    decreases entries.len() - upto,
{
    if upto < entries.len() {
        assert(entries.take(upto + 1).drop_last() =~= entries.take(upto));
        lemma_strings_of_prefix(entries, upto + 1);
    } else {
        assert(entries.take(upto) =~= entries);
    }
}

/// Reads each text among `entries` as a JSON string.
fn read_strings(entries: &Vec<(String, String)>) -> (r: Option<Vec<(String, String)>>)
    ensures
        r.deep_view() == strings_of(entries.deep_view()),
{
    let mut out: Vec<(String, String)> = Vec::new();
    let mut i: usize = 0;
    let ghost all = entries.deep_view();
    while i < entries.len()
        invariant
            i <= entries.len(),
            all == entries.deep_view(),
            strings_of(all.take(i as int)) == Some(out.deep_view()),
        decreases entries.len() - i,
    {
        proof {
            assert(all.take(i + 1).drop_last() =~= all.take(i as int));
        }
        match string_value(entries[i].1.as_str()) {
            None => {
                proof {
                    lemma_strings_of_prefix(all, i + 1);
                }
                return None;
            },
            Some(content) => {
                out.push((entries[i].0.clone(), content));
            },
        }
        i = i + 1;
    }
    proof {
        assert(all.take(i as int) =~= all);
    }
    Some(out)
}

/// Reads the rates that a body quotes.
fn read_rates(body: &str) -> (r: Option<Vec<(String, String)>>)
    ensures
        r.deep_view() == quoted_rates(body@),
{
    let top = match object_members(body) {
        Some(top) => top,
        None => return None,
    };
    let data_text = match find_entry(&top, "data") {
        Some(text) => text,
        None => return None,
    };
    let data = match object_members(data_text.as_str()) {
        Some(data) => data,
        None => return None,
    };
    let currency_text = match find_entry(&data, "currency") {
        Some(text) => text,
        None => return None,
    };
    let rates_text = match find_entry(&data, "rates") {
        Some(text) => text,
        None => return None,
    };
    if string_value(currency_text.as_str()).is_none() {
        return None;
    }
    match object_members(rates_text.as_str()) {
        Some(rates) => read_strings(&rates),
        None => None,
    }
}

/// Picks the rate in `currency` out of quoted rates, each a symbol with its
/// numeral: the rate of the numeral that stands with `currency`, where it is
/// a decimal numeral of an amount above zero.
pub fn select_rate(rates: &Vec<(String, String)>, currency: &str) -> (r: Result<Rate, FetchError>)
    ensures
        r == rate_among(rates.deep_view(), currency@),
        r is Ok ==> r.unwrap()@ > 0,
{
    match find_entry(rates, currency) {
        None => Err(FetchError::MissingCurrency),
        Some(numeral) => match Rate::from_text(numeral.as_str()) {
            Ok(rate) => if rate.is_positive() {
                Ok(rate)
            } else {
                Err(FetchError::UnparseableRate)
            },
            Err(_) => Err(FetchError::UnparseableRate),
        },
    }
}

/// Reads the rate in `currency` from the body of a good reply.
pub fn rate_from_body(body: &str, currency: &str) -> (r: Result<Rate, FetchError>)
    ensures
        r == rate_in_body(body@, currency@),
        r is Ok ==> r.unwrap()@ > 0,
{
    match read_rates(body) {
        None => Err(FetchError::MalformedBody),
        Some(rates) => select_rate(&rates, currency),
    }
}

/// What a fetch comes to: the rate in `currency` that the reply gives, or
/// the reason why it gives none.
pub fn rate_from_reply(reply: &Reply, currency: &str) -> (r: Result<Rate, FetchError>)
    ensures
        r == rate_in_reply(*reply, currency@),
        r is Ok ==> r.unwrap()@ > 0,
        *reply is Failed ==> r == Err::<Rate, FetchError>(FetchError::Transport),
        *reply matches Reply::Received { status, .. } ==> (!is_success(status) ==> r == Err::<
            Rate,
            FetchError,
        >(FetchError::BadStatus(status))),
{
    match reply {
        Reply::Failed => Err(FetchError::Transport),
        Reply::Received { status, body } => if status_is_success(*status) {
            rate_from_body(body.as_str(), currency)
        } else {
            Err(FetchError::BadStatus(*status))
        },
    }
}

/// The words in which a refused request is reported: they end in the
/// status as it is written out, or in its bare number where it has no such
/// writing.
pub open spec fn refusal_text(status: u16, words: Option<Seq<char>>) -> Seq<char> {
    "Request failed with status: "@ + match words {
        Some(written) => written,
        None => decimal_text(status as nat),
    }
}

/// The words in which an error is reported. For a refused request they end
/// in the status, written as its number and the phrase that goes with it.
pub open spec fn message_of(error: FetchError) -> Seq<char> {
    match error {
        FetchError::Transport => "Request could not be completed"@,
        FetchError::BadStatus(status) => refusal_text(status, status_text(status)),
        FetchError::MalformedBody => "Response is not of the expected shape"@,
        FetchError::MissingCurrency => "Currency not found in coinbase api rates"@,
        FetchError::UnparseableRate => "Rate is not a decimal number above zero"@,
    }
}

/// The words in which a refused request is reported, given its status and
/// the status as it is written out.
pub fn refusal_message(status: u16, words: Option<String>) -> (text: String)
    ensures
        text@ == refusal_text(status, words.deep_view()),
{
    let mut text = String::from_str("Request failed with status: ");
    match words {
        Some(written) => text.append(written.as_str()),
        None => append_decimal(&mut text, status as u128),
    }
    text
}

impl FetchError {
    /// The words in which this error is reported.
    pub fn message(&self) -> (text: String)
        ensures
            text@ == message_of(*self),
    {
        match self {
            FetchError::Transport => String::from_str("Request could not be completed"),
            FetchError::BadStatus(status) => refusal_message(*status, status_words(*status)),
            FetchError::MalformedBody => String::from_str("Response is not of the expected shape"),
            FetchError::MissingCurrency => String::from_str(
                "Currency not found in coinbase api rates",
            ),
            FetchError::UnparseableRate => String::from_str(
                "Rate is not a decimal number above zero",
            ),
        }
    }
}

/// Whether `reply` is a good reply whose document has the expected shape
/// but quotes no rate in `currency`.
pub open spec fn lacks_currency(reply: Reply, currency: Seq<char>) -> bool {
    match reply {
        Reply::Failed => false,
        Reply::Received { status, body } => is_success(status) && match quoted_rates(body@) {
            None => false,
            Some(rates) => entry_text(rates, currency) is None,
        },
    }
}

/// A missing currency has an error of its own: a good reply whose document
/// has the expected shape but quotes no rate in the currency gives
/// `MissingCurrency` and nothing else does, and the transport error comes
/// of a failed request and of nothing else.
pub proof fn law_missing_currency_is_told_apart(reply: Reply, currency: Seq<char>)
    ensures
        rate_in_reply(reply, currency) == Err::<Rate, FetchError>(FetchError::MissingCurrency)
            <==> lacks_currency(reply, currency),
        rate_in_reply(reply, currency) == Err::<Rate, FetchError>(FetchError::Transport)
            <==> reply is Failed,
        FetchError::MissingCurrency != FetchError::Transport,
{
}

} // verus!
