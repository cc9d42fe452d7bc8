//! The texts of the requests to the remote endpoints.

use crate::brightcove::{page_offset, spec_page_offset, VIDEOS_PER_PAGE};
use vstd::prelude::*;
use vstd::string::StringExecFns;

verus! {

/// The decimal digit of a number below ten.
pub open spec fn spec_digit(digit: nat) -> char {
    if digit == 0 {
        '0'
    } else if digit == 1 {
        '1'
    } else if digit == 2 {
        '2'
    } else if digit == 3 {
        '3'
    } else if digit == 4 {
        '4'
    } else if digit == 5 {
        '5'
    } else if digit == 6 {
        '6'
    } else if digit == 7 {
        '7'
    } else if digit == 8 {
        '8'
    } else {
        '9'
    }
}

/// A number in decimal, without sign or leading zeros.
pub open spec fn spec_decimal(number: nat) -> Seq<char>
    decreases number,
{
    if number < 10 {
        seq![spec_digit(number)]
    } else {
        spec_decimal(number / 10).push(spec_digit(number % 10))
    }
}

fn digit_text(digit: u32) -> (text: &'static str)
    requires
        digit < 10,
    ensures
        text@ == seq![spec_digit(digit as nat)],
{
    proof {
        reveal_strlit("0");
        reveal_strlit("1");
        reveal_strlit("2");
        reveal_strlit("3");
        reveal_strlit("4");
        reveal_strlit("5");
        reveal_strlit("6");
        reveal_strlit("7");
        reveal_strlit("8");
        reveal_strlit("9");
    }
    let text = if digit == 0 {
        "0"
    } else if digit == 1 {
        "1"
    } else if digit == 2 {
        "2"
    } else if digit == 3 {
        "3"
    } else if digit == 4 {
        "4"
    } else if digit == 5 {
        "5"
    } else if digit == 6 {
        "6"
    } else if digit == 7 {
        "7"
    } else if digit == 8 {
        "8"
    } else {
        "9"
    };
    assert(text@ =~= seq![spec_digit(digit as nat)]);
    text
}

/// Writes a number in decimal.
pub fn decimal(number: u32) -> (text: String)
    ensures
        text@ == spec_decimal(number as nat),
    decreases number,
{
    if number < 10 {
        String::from_str(digit_text(number))
    } else {
        let mut text = decimal(number / 10);
        text.append(digit_text(number % 10));
        assert(text@ == spec_decimal((number / 10) as nat).push(spec_digit((number % 10) as nat)));
        text
    }
}

/// Address of the page of an account's catalog that begins at `offset`:
/// twenty-five videos, newest first.
pub open spec fn spec_catalog_url(account_id: Seq<char>, offset: nat) -> Seq<char> {
    "https://edge.api.brightcove.com/playback/v1/accounts/"@ + account_id
        + "/videos?sort=-created_at&limit="@ + spec_decimal(VIDEOS_PER_PAGE as nat) + "&offset="@
        + spec_decimal(offset)
}

/// Address of the report of the view counts of all videos of an account.
pub open spec fn spec_analytics_url(account_id: Seq<char>) -> Seq<char> {
    "https://analytics.api.brightcove.com/v1/data?accounts="@ + account_id
        + "&limit=all&dimensions=video&fields=video_view"@
}

/// What the catalog endpoint is told to answer with, and under which policy
/// key.
pub open spec fn spec_accept_header(policy_key: Seq<char>) -> Seq<char> {
    "application/json;pk="@ + policy_key
}

/// Builds the address of page `page` of an account's catalog, counted from
/// one. `None` where no such page can exist.
pub fn catalog_url(account_id: &str, page: u32) -> (url: Option<String>)
    ensures
        url is Some <==> 1 <= page && spec_page_offset(page as int) <= u32::MAX,
        url matches Some(text) ==> text@ == spec_catalog_url(
            account_id@,
            spec_page_offset(page as int) as nat,
        ),
{
    match page_offset(page) {
        None => None,
        Some(offset) => {
            let mut url = String::from_str("https://edge.api.brightcove.com/playback/v1/accounts/");
            url.append(account_id);
            url.append("/videos?sort=-created_at&limit=");
            url.append(decimal(VIDEOS_PER_PAGE).as_str());
            url.append("&offset=");
            url.append(decimal(offset).as_str());
            Some(url)
        },
    }
}

/// Builds the address of the report of all view counts of an account.
pub fn analytics_url(account_id: &str) -> (url: String)
    ensures
        url@ == spec_analytics_url(account_id@),
{
    let mut url = String::from_str("https://analytics.api.brightcove.com/v1/data?accounts=");
    url.append(account_id);
    url.append("&limit=all&dimensions=video&fields=video_view");
    url
}

/// Builds the `Accept` header of a catalog request.
pub fn accept_header(policy_key: &str) -> (header: String)
    ensures
        header@ == spec_accept_header(policy_key@),
{
    let mut header = String::from_str("application/json;pk=");
    header.append(policy_key);
    header
}

} // verus!
