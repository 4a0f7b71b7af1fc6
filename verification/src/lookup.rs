//! The decisions of the lookup route.
//!
//! A lookup names an RFC by the `number` parameter of the request. The route
//! reads the number, asks the source for the page at [`source_url`], builds the
//! document with [`RFCData::new`] and answers with [`reply`]. Every failure on
//! the way ends in the same answer: a redirect to the landing page.

use vstd::prelude::*;
use vstd::string::StringExecFns;
use crate::decimal::{decimal_digits, decimal_u32, parse_decimal, push_decimal};
use crate::rfc_parser::{lookup_result, LookupError, RFCData, RFCDataView};

verus! {

/// What the route answers.
#[derive(Debug)]
pub enum Reply {
    /// The page of the document.
    Page(RFCData),
    /// A redirect to the landing page.
    Redirect,
}

/// The mathematical value of a [`Reply`].
pub enum ReplyView {
    Page(RFCDataView),
    Redirect,
}

impl View for Reply {
    type V = ReplyView;

    open spec fn view(&self) -> ReplyView {
        match self {
            Reply::Page(doc) => ReplyView::Page(doc@),
            Reply::Redirect => ReplyView::Redirect,
        }
    }
}

/// The number that a request asks for: its parameter read as a positive
/// decimal number. A missing parameter, one that is no number and zero are
/// input errors.
pub open spec fn requested(param: Option<Seq<char>>) -> Result<u32, LookupError> {
    match param {
        Some(text) => match decimal_u32(text) {
            Some(num) => if num > 0 {
                Ok(num)
            } else {
                Err(LookupError::Input)
            },
            None => Err(LookupError::Input),
        },
        None => Err(LookupError::Input),
    }
}

/// The address of the page of an RFC.
pub open spec fn source_url_of(num: u32) -> Seq<char> {
    "https://www.rfc-editor.org/rfc/rfc"@ + decimal_digits(num as nat) + ".html"@
}

/// The answer to the outcome of a lookup: the page of the document, or a
/// redirect whatever the failure was.
pub open spec fn reply_to(outcome: Result<RFCDataView, LookupError>) -> ReplyView {
    match outcome {
        Ok(doc) => ReplyView::Page(doc),
        Err(_) => ReplyView::Redirect,
    }
}

/// The view of a parameter that may be missing.
pub open spec fn param_view(param: Option<&str>) -> Option<Seq<char>> {
    match param {
        Some(text) => Some(text@),
        None => None,
    }
}

/// The view of the outcome of a lookup.
pub open spec fn outcome_view(outcome: Result<RFCData, LookupError>) -> Result<
    RFCDataView,
    LookupError,
> {
    match outcome {
        Ok(doc) => Ok(doc@),
        Err(e) => Err(e),
    }
}

/// Reads the number that a request asks for from its `number` parameter.
pub fn requested_number(param: Option<&str>) -> (r: Result<u32, LookupError>)
    ensures
        r == requested(param_view(param)),
{
    match param {
        Some(text) => match parse_decimal(text) {
            Some(num) => if num > 0 {
                Ok(num)
            } else {
                Err(LookupError::Input)
            },
            None => Err(LookupError::Input),
        },
        None => Err(LookupError::Input),
    }
}

/// The address to fetch the page of RFC `num` from.
pub fn source_url(num: u32) -> (url: String)
    ensures
        url@ == source_url_of(num),
{
    let mut url = String::from_str("https://www.rfc-editor.org/rfc/rfc");
    push_decimal(&mut url, num);
    url.append(".html");
    url
}

/// Whether a response with this status carries the page: only status 200 does.
pub fn status_accepted(status: u16) -> (accepted: bool)
    ensures
        accepted == (status == 200),
{
    status == 200
}

/// The path of the landing page, to which every failed lookup is redirected.
pub fn landing_path() -> (path: &'static str)
    ensures
        path@ == "/"@,
{
    "/"
}

/// Answers the outcome of a lookup.
pub fn reply(outcome: Result<RFCData, LookupError>) -> (r: Reply)
    ensures
        r@ == reply_to(outcome_view(outcome)),
{
    match outcome {
        Ok(doc) => Reply::Page(doc),
        Err(_) => Reply::Redirect,
    }
}

/// What the route answers to a request, given what the source sent back for
/// the page that was asked for: its status and body, or nothing where the
/// request to the source failed.
pub open spec fn route(param: Option<Seq<char>>, fetched: Option<(u16, Seq<char>)>) -> ReplyView {
    match requested(param) {
        Ok(num) => match fetched {
            Some((status, body)) => reply_to(lookup_result(num, status, body)),
            None => reply_to(Err(LookupError::Fetch)),
        },
        Err(e) => reply_to(Err(e)),
    }
}

/// A request without a `number` parameter is redirected to the landing page,
/// whatever the source would send.
pub proof fn law_missing_number_redirects(fetched: Option<(u16, Seq<char>)>)
    ensures
        requested(None) == Err::<u32, LookupError>(LookupError::Input),
        route(None, fetched) == ReplyView::Redirect,
{
}

/// A request whose `number` parameter is no decimal number is redirected to
/// the landing page, whatever the source would send.
pub proof fn law_bad_number_redirects(text: Seq<char>, fetched: Option<(u16, Seq<char>)>)
    requires
        decimal_u32(text) is None,
    ensures
        requested(Some(text)) == Err::<u32, LookupError>(LookupError::Input),
        route(Some(text), fetched) == ReplyView::Redirect,
{
}

/// A request is redirected to the landing page when the source answers with
/// any status other than 200, such as 404, and when it does not answer.
pub proof fn law_failed_fetch_redirects(param: Option<Seq<char>>, fetched: Option<(u16, Seq<char>)>)
    requires
        fetched matches Some((status, _)) ==> status != 200,
    ensures
        route(param, fetched) == ReplyView::Redirect,
{
}

/// The route answers with a page only if the parameter is a positive number,
/// the source answered with status 200 and the body could be parsed; the page
/// is then that of the document of the body.
pub proof fn law_page_only_on_success(param: Option<Seq<char>>, fetched: Option<(u16, Seq<char>)>)
    ensures
        route(param, fetched) matches ReplyView::Page(doc) ==> {
            &&& requested(param) matches Ok(num)
            &&& fetched matches Some((status, body))
            &&& status == 200
            &&& lookup_result(num, status, body) == Ok::<RFCDataView, LookupError>(doc)
        },
{
}

} // verus!
