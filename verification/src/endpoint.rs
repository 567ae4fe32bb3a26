//! The two endpoints of the item graph and the requests that address them.

use vstd::prelude::*;

verus! {

/// A request the caller is to perform: `GET` the URL and decode the body as JSON.
#[derive(Debug, Clone, PartialEq, Eq)]
pub struct Request {
    /// The absolute URL to fetch.
    pub url: String,
}

/// The character that writes the digit `d`, for `d` from 0 to 9.
pub open spec fn digit(d: int) -> char {
    if d == 0 {
        '0'
    } else if d == 1 {
        '1'
    } else if d == 2 {
        '2'
    } else if d == 3 {
        '3'
    } else if d == 4 {
        '4'
    } else if d == 5 {
        '5'
    } else if d == 6 {
        '6'
    } else if d == 7 {
        '7'
    } else if d == 8 {
        '8'
    } else {
        '9'
    }
}

/// The decimal numeral of `n`, most significant digit first, without leading zeros.
pub open spec fn numeral(n: nat) -> Seq<char>
    decreases n,
{
    if n < 10 {
        seq![digit(n as int)]
    } else {
        numeral(n / 10).push(digit((n % 10) as int))
    }
}

/// The decimal numeral of `i`, with a leading minus sign if it is negative.
pub open spec fn signed_numeral(i: int) -> Seq<char> {
    if i < 0 {
        seq!['-'] + numeral((-i) as nat)
    } else {
        numeral(i as nat)
    }
}

/// The URL that lists the identifiers of the current top stories.
pub open spec fn top_stories_url_text() -> Seq<char> {
    "https://hacker-news.firebaseio.com/v0/topstories.json"@
}

/// The URL of the item `id`: the identifier in decimal between a fixed prefix
/// and the `.json` suffix.
pub open spec fn item_url_text(id: int) -> Seq<char> {
    "https://hacker-news.firebaseio.com/v0/item/"@ + signed_numeral(id) + ".json"@
}

/// The one-character string that writes the digit `d`.
fn digit_str(d: u64) -> (s: &'static str)
    requires
        d < 10,
    ensures
        s@ == seq![digit(d as int)],
{
    proof {
        reveal_strlit("0");
        reveal_strlit("1");
        reveal_strlit("2");
        reveal_strlit("3");
        reveal_strlit("4");
        reveal_strlit("5");
        reveal_strlit("6");
        reveal_strlit("7");
        reveal_strlit("8");
        reveal_strlit("9");
    }
    let s = if d == 0 {
        "0"
    } else if d == 1 {
        "1"
    } else if d == 2 {
        "2"
    } else if d == 3 {
        "3"
    } else if d == 4 {
        "4"
    } else if d == 5 {
        "5"
    } else if d == 6 {
        "6"
    } else if d == 7 {
        "7"
    } else if d == 8 {
        "8"
    } else {
        "9"
    };
    assert(s@ =~= seq![digit(d as int)]);
    s
}

/// Appends the decimal numeral of `n` to `out`.
fn push_numeral(out: &mut String, n: u64)
    ensures
        final(out)@ == old(out)@ + numeral(n as nat),
    decreases n,
{
    if n >= 10 {
        push_numeral(out, n / 10);
    }
    out.append(digit_str(n % 10));
}

/// The request for the list of top story identifiers.
pub(crate) fn top_stories_request() -> (request: Request)
    ensures
        request.url@ == top_stories_url_text(),
{
    Request { url: String::from_str("https://hacker-news.firebaseio.com/v0/topstories.json") }
}

/// The request for the item `id`.
pub(crate) fn item_request(id: i64) -> (request: Request)
    ensures
        request.url@ == item_url_text(id as int),
{
    let mut url = String::from_str("https://hacker-news.firebaseio.com/v0/item/");
    if id < 0 {
        url.append("-");
        proof {
            reveal_strlit("-");
        }
        let magnitude: u64 = if id == i64::MIN {
            9223372036854775808u64
        } else {
            (-id) as u64
        };
        push_numeral(&mut url, magnitude);
    } else {
        push_numeral(&mut url, id as u64);
    }
    url.append(".json");
    Request { url }
}

} // verus!
