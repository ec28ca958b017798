//! The top-level wire units: untagged response-data, and the two entry
//! points that decode exactly one unit per call.

use vstd::prelude::*;
use crate::lex::{spec_kw, spec_byte, spec_crlf, kw, crlf, copy_range, lemma_run_end, ByteClass};
use crate::parser::{
    Parsed, SpecParsed, parsed_matches, in_bounds, sp_alt, lemma_bytes_deep_view,
};
use crate::grammar::{
    spec_resp_cond_state, resp_cond_state, spec_resp_cond_bye, resp_cond_bye,
    spec_capability_data, capability_data, spec_greeting, greeting, spec_continue_req,
    continue_req, spec_response_tagged, response_tagged, spec_imap_tag,
    lemma_resp_text_verbatim, lemma_resp_cond_state_verbatim, lemma_resp_cond_auth_verbatim,
    lemma_resp_cond_bye_verbatim,
};
use crate::mailbox::{spec_mailbox_data, mailbox_data};
use crate::message::{spec_message_data, message_data};
use crate::types::{
    ImapResponse, ImapResponseView, UntaggedResponse, UntaggedResponseView, GreetingStatusView,
    ContinueReqView, RespTextView,
};
use crate::error::Error;

verus! {

broadcast use lemma_bytes_deep_view;

/// resp-cond-state as an untagged unit.
pub open spec fn spec_rd_state(s: Seq<u8>, pos: int) -> SpecParsed<UntaggedResponseView> {
    match spec_resp_cond_state(s, pos) {
        SpecParsed::Match { next, val } => SpecParsed::Match {
            next,
            val: UntaggedResponseView::RespCond(val),
        },
        SpecParsed::Incomplete => SpecParsed::Incomplete,
        SpecParsed::Fail => SpecParsed::Fail,
    }
}

fn rd_state(i: &[u8], pos: usize) -> (r: Parsed<UntaggedResponse>)
    requires
        pos <= i@.len(),
    ensures
        parsed_matches(r, spec_rd_state(i@, pos as int)),
        in_bounds(r, pos as int, i@.len() as int),
{
    match resp_cond_state(i, pos) {
        Parsed::Match { next, val } => Parsed::Match {
            next,
            val: UntaggedResponse::RespCond(val),
        },
        Parsed::Incomplete => Parsed::Incomplete,
        Parsed::Fail => Parsed::Fail,
    }
}

/// resp-cond-bye as an untagged unit.
pub open spec fn spec_rd_bye(s: Seq<u8>, pos: int) -> SpecParsed<UntaggedResponseView> {
    match spec_resp_cond_bye(s, pos) {
        SpecParsed::Match { next, val } => SpecParsed::Match {
            next,
            val: UntaggedResponseView::RespBye(val),
        },
        SpecParsed::Incomplete => SpecParsed::Incomplete,
        SpecParsed::Fail => SpecParsed::Fail,
    }
}

fn rd_bye(i: &[u8], pos: usize) -> (r: Parsed<UntaggedResponse>)
    requires
        pos <= i@.len(),
    ensures
        parsed_matches(r, spec_rd_bye(i@, pos as int)),
        in_bounds(r, pos as int, i@.len() as int),
{
    match resp_cond_bye(i, pos) {
        Parsed::Match { next, val } => Parsed::Match {
            next,
            val: UntaggedResponse::RespBye(val),
        },
        Parsed::Incomplete => Parsed::Incomplete,
        Parsed::Fail => Parsed::Fail,
    }
}

/// mailbox-data as an untagged unit.
pub open spec fn spec_rd_mailbox(s: Seq<u8>, pos: int) -> SpecParsed<UntaggedResponseView> {
    match spec_mailbox_data(s, pos) {
        SpecParsed::Match { next, val } => SpecParsed::Match {
            next,
            val: UntaggedResponseView::MailBox(val),
        },
        SpecParsed::Incomplete => SpecParsed::Incomplete,
        SpecParsed::Fail => SpecParsed::Fail,
    }
}

fn rd_mailbox(i: &[u8], pos: usize) -> (r: Parsed<UntaggedResponse>)
    requires
        pos <= i@.len(),
    ensures
        parsed_matches(r, spec_rd_mailbox(i@, pos as int)),
        in_bounds(r, pos as int, i@.len() as int),
{
    match mailbox_data(i, pos) {
        Parsed::Match { next, val } => Parsed::Match {
            next,
            val: UntaggedResponse::MailBox(val),
        },
        Parsed::Incomplete => Parsed::Incomplete,
        Parsed::Fail => Parsed::Fail,
    }
}

/// message-data as an untagged unit.
pub open spec fn spec_rd_message(s: Seq<u8>, pos: int) -> SpecParsed<UntaggedResponseView> {
    match spec_message_data(s, pos) {
        SpecParsed::Match { next, val } => SpecParsed::Match {
            next,
            val: UntaggedResponseView::Message(val),
        },
        SpecParsed::Incomplete => SpecParsed::Incomplete,
        SpecParsed::Fail => SpecParsed::Fail,
    }
}

fn rd_message(i: &[u8], pos: usize) -> (r: Parsed<UntaggedResponse>)
    requires
        pos <= i@.len(),
    ensures
        parsed_matches(r, spec_rd_message(i@, pos as int)),
        in_bounds(r, pos as int, i@.len() as int),
{
    match message_data(i, pos) {
        Parsed::Match { next, val } => Parsed::Match {
            next,
            val: UntaggedResponse::Message(val),
        },
        Parsed::Incomplete => Parsed::Incomplete,
        Parsed::Fail => Parsed::Fail,
    }
}

/// capability-data as an untagged unit.
pub open spec fn spec_rd_capability(s: Seq<u8>, pos: int) -> SpecParsed<
    UntaggedResponseView,
> {
    match spec_capability_data(s, pos) {
        SpecParsed::Match { next, val } => SpecParsed::Match {
            next,
            val: UntaggedResponseView::Capability(val),
        },
        SpecParsed::Incomplete => SpecParsed::Incomplete,
        SpecParsed::Fail => SpecParsed::Fail,
    }
}

fn rd_capability(i: &[u8], pos: usize) -> (r: Parsed<UntaggedResponse>)
    requires
        pos <= i@.len(),
    ensures
        parsed_matches(r, spec_rd_capability(i@, pos as int)),
        in_bounds(r, pos as int, i@.len() as int),
{
    match capability_data(i, pos) {
        Parsed::Match { next, val } => Parsed::Match {
            next,
            val: UntaggedResponse::Capability(val),
        },
        Parsed::Incomplete => Parsed::Incomplete,
        Parsed::Fail => Parsed::Fail,
    }
}

/// response-data: `* ` then a status condition, `BYE`, mailbox data,
/// message data or capability data, CRLF-framed. Untagged dispatch is by
/// the case-insensitive leading keyword (or leading number).
#[verifier::opaque]
pub open spec fn spec_response_data(s: Seq<u8>, pos: int) -> SpecParsed<UntaggedResponseView> {
    match spec_kw(s, pos, "* "@) {
        SpecParsed::Incomplete => SpecParsed::Incomplete,
        SpecParsed::Fail => SpecParsed::Fail,
        SpecParsed::Match { next: n1, .. } => {
            let body = sp_alt(
                spec_rd_state(s, n1),
                sp_alt(
                    spec_rd_bye(s, n1),
                    sp_alt(
                        spec_rd_mailbox(s, n1),
                        sp_alt(spec_rd_message(s, n1), spec_rd_capability(s, n1)),
                    ),
                ),
            );
            match body {
                SpecParsed::Incomplete => SpecParsed::Incomplete,
                SpecParsed::Fail => SpecParsed::Fail,
                SpecParsed::Match { next: n2, val } => match spec_crlf(s, n2) {
                    SpecParsed::Match { next, .. } => SpecParsed::Match { next, val },
                    SpecParsed::Incomplete => SpecParsed::Incomplete,
                    SpecParsed::Fail => SpecParsed::Fail,
                },
            }
        },
    }
}

#[verifier::rlimit(100)]
pub fn response_data(i: &[u8], pos: usize) -> (r: Parsed<UntaggedResponse>)
    requires
        pos <= i@.len(),
    ensures
        parsed_matches(r, spec_response_data(i@, pos as int)),
        in_bounds(r, pos as int, i@.len() as int),
{
    proof {
        reveal(spec_response_data);
        reveal_strlit("* ");
    }
    let n1 = match kw(i, pos, "* ") {
        Parsed::Match { next, .. } => next,
        Parsed::Incomplete => {
            return Parsed::Incomplete;
        },
        Parsed::Fail => {
            return Parsed::Fail;
        },
    };
    let body = {
        let mut b = rd_state(i, n1);
        if let Parsed::Fail = b {
            b = rd_bye(i, n1);
        }
        if let Parsed::Fail = b {
            b = rd_mailbox(i, n1);
        }
        if let Parsed::Fail = b {
            b = rd_message(i, n1);
        }
        if let Parsed::Fail = b {
            b = rd_capability(i, n1);
        }
        b
    };
    let (n2, val) = match body {
        Parsed::Match { next, val } => (next, val),
        Parsed::Incomplete => {
            return Parsed::Incomplete;
        },
        Parsed::Fail => {
            return Parsed::Fail;
        },
    };
    match crlf(i, n2) {
        Parsed::Match { next, .. } => Parsed::Match { next, val },
        Parsed::Incomplete => Parsed::Incomplete,
        Parsed::Fail => Parsed::Fail,
    }
}

/// One top-level unit, any of the four kinds: a greeting, a continuation
/// request, a tagged completion, or an untagged data unit, in that order
/// of preference. A `* OK`/`* PREAUTH`/`* BYE` status line decodes as the
/// greeting here: this entry point is for the connection's first unit,
/// where such a line positionally is the greeting.
pub open spec fn spec_parse(s: Seq<u8>, pos: int) -> SpecParsed<ImapResponseView> {
    sp_alt(
        match spec_greeting(s, pos) {
            SpecParsed::Match { next, val } => SpecParsed::Match {
                next,
                val: ImapResponseView::Greeting(val),
            },
            SpecParsed::Incomplete => SpecParsed::Incomplete,
            SpecParsed::Fail => SpecParsed::Fail,
        },
        sp_alt(
            match spec_continue_req(s, pos) {
                SpecParsed::Match { next, val } => SpecParsed::Match {
                    next,
                    val: ImapResponseView::Continue(val),
                },
                SpecParsed::Incomplete => SpecParsed::Incomplete,
                SpecParsed::Fail => SpecParsed::Fail,
            },
            sp_alt(
                match spec_response_tagged(s, pos) {
                    SpecParsed::Match { next, val } => SpecParsed::Match {
                        next,
                        val: ImapResponseView::Response(val),
                    },
                    SpecParsed::Incomplete => SpecParsed::Incomplete,
                    SpecParsed::Fail => SpecParsed::Fail,
                },
                match spec_response_data(s, pos) {
                    SpecParsed::Match { next, val } => SpecParsed::Match {
                        next,
                        val: ImapResponseView::Untagged(val),
                    },
                    SpecParsed::Incomplete => SpecParsed::Incomplete,
                    SpecParsed::Fail => SpecParsed::Fail,
                },
            ),
        ),
    )
}

#[verifier::rlimit(100)]
pub fn parse(i: &[u8]) -> (r: Parsed<ImapResponse>)
    ensures
        parsed_matches(r, spec_parse(i@, 0)),
        in_bounds(r, 0, i@.len() as int),
{
    match greeting(i, 0) {
        Parsed::Match { next, val } => {
            return Parsed::Match { next, val: ImapResponse::Greeting(val) };
        },
        Parsed::Incomplete => {
            return Parsed::Incomplete;
        },
        Parsed::Fail => {},
    }
    match continue_req(i, 0) {
        Parsed::Match { next, val } => {
            return Parsed::Match { next, val: ImapResponse::Continue(val) };
        },
        Parsed::Incomplete => {
            return Parsed::Incomplete;
        },
        Parsed::Fail => {},
    }
    match response_tagged(i, 0) {
        Parsed::Match { next, val } => {
            return Parsed::Match { next, val: ImapResponse::Response(val) };
        },
        Parsed::Incomplete => {
            return Parsed::Incomplete;
        },
        Parsed::Fail => {},
    }
    match response_data(i, 0) {
        Parsed::Match { next, val } => Parsed::Match {
            next,
            val: ImapResponse::Untagged(val),
        },
        Parsed::Incomplete => Parsed::Incomplete,
        Parsed::Fail => Parsed::Fail,
    }
}

/// One top-level unit after the greeting: a continuation request, a
/// tagged completion, or an untagged unit. This is the frame decoder the
/// background reader runs on every CRLF-framed unit.
pub open spec fn spec_parse_response(s: Seq<u8>, pos: int) -> SpecParsed<ImapResponseView> {
    sp_alt(
        match spec_continue_req(s, pos) {
            SpecParsed::Match { next, val } => SpecParsed::Match {
                next,
                val: ImapResponseView::Continue(val),
            },
            SpecParsed::Incomplete => SpecParsed::Incomplete,
            SpecParsed::Fail => SpecParsed::Fail,
        },
        sp_alt(
            match spec_response_tagged(s, pos) {
                SpecParsed::Match { next, val } => SpecParsed::Match {
                    next,
                    val: ImapResponseView::Response(val),
                },
                SpecParsed::Incomplete => SpecParsed::Incomplete,
                SpecParsed::Fail => SpecParsed::Fail,
            },
            match spec_response_data(s, pos) {
                SpecParsed::Match { next, val } => SpecParsed::Match {
                    next,
                    val: ImapResponseView::Untagged(val),
                },
                SpecParsed::Incomplete => SpecParsed::Incomplete,
                SpecParsed::Fail => SpecParsed::Fail,
            },
        ),
    )
}

#[verifier::rlimit(100)]
pub fn parse_response(i: &[u8]) -> (r: Parsed<ImapResponse>)
    ensures
        parsed_matches(r, spec_parse_response(i@, 0)),
        in_bounds(r, 0, i@.len() as int),
{
    match continue_req(i, 0) {
        Parsed::Match { next, val } => {
            return Parsed::Match { next, val: ImapResponse::Continue(val) };
        },
        Parsed::Incomplete => {
            return Parsed::Incomplete;
        },
        Parsed::Fail => {},
    }
    match response_tagged(i, 0) {
        Parsed::Match { next, val } => {
            return Parsed::Match { next, val: ImapResponse::Response(val) };
        },
        Parsed::Incomplete => {
            return Parsed::Incomplete;
        },
        Parsed::Fail => {},
    }
    match response_data(i, 0) {
        Parsed::Match { next, val } => Parsed::Match {
            next,
            val: ImapResponse::Untagged(val),
        },
        Parsed::Incomplete => Parsed::Incomplete,
        Parsed::Fail => Parsed::Fail,
    }
}

/// Decodes one complete CRLF-framed unit handed over by the transport.
/// A frame that is malformed, or that does not hold exactly one whole
/// unit, is a parser error carrying the offending bytes; insufficient
/// buffered input is never an error at this layer, since the transport
/// delivers only complete frames.
pub fn decode_frame(i: &[u8]) -> (r: Result<ImapResponse, Error>)
    ensures
        (match r {
            Ok(v) => spec_parse_response(i@, 0) matches SpecParsed::Match { next, val } && next
                == i@.len() && v.deep_view() == val,
            Err(e) => e matches Error::Parser(b) && b@ == i@ && !(spec_parse_response(i@, 0)
                matches SpecParsed::Match { next, .. } && next == i@.len()),
        }),
{
    match parse_response(i) {
        Parsed::Match { next, val } => {
            if next == i.len() {
                Ok(val)
            } else {
                Err(Error::Parser(copy_range(i, 0, i.len())))
            }
        },
        _ => Err(Error::Parser(copy_range(i, 0, i.len()))),
    }
}


// ------------------------------------------------------------------
// The text-verbatim law at the top-level units.
// ------------------------------------------------------------------

/// The free text of a unit's status line, where the unit carries one.
pub open spec fn unit_resp_text(v: ImapResponseView) -> Option<RespTextView> {
    match v {
        ImapResponseView::Greeting(g) => match g.status {
            GreetingStatusView::Okay(t) => Some(t),
            GreetingStatusView::Preauth(t) => Some(t),
            GreetingStatusView::Bye(b) => Some(b.resp),
        },
        ImapResponseView::Continue(c) => match c {
            ContinueReqView::Text(t) => Some(t),
            ContinueReqView::Base64(_) => None,
        },
        ImapResponseView::Response(tr) => Some(tr.resp.text),
        ImapResponseView::Untagged(u) => match u {
            UntaggedResponseView::RespCond(c) => Some(c.text),
            UntaggedResponseView::RespBye(b) => Some(b.resp),
            _ => None,
        },
    }
}

/// The unit's text sits verbatim just before its CRLF terminator.
pub open spec fn unit_text_verbatim(s: Seq<u8>, next: int, v: ImapResponseView) -> bool {
    unit_resp_text(v) matches Some(t) ==> t.text == s.subrange(
        next - 2 - t.text.len(),
        next - 2,
    )
}

proof fn lemma_greeting_verbatim(s: Seq<u8>, pos: int)
    requires
        0 <= pos <= s.len(),
    ensures
        spec_greeting(s, pos) matches SpecParsed::Match { next, val } ==> unit_text_verbatim(
            s,
            next,
            ImapResponseView::Greeting(val),
        ),
{
    match spec_kw(s, pos, "* "@) {
        SpecParsed::Match { next: n1, .. } => {
            lemma_resp_cond_auth_verbatim(s, n1);
            lemma_resp_cond_bye_verbatim(s, n1);
        },
        _ => {},
    }
}

proof fn lemma_continue_req_verbatim(s: Seq<u8>, pos: int)
    requires
        0 <= pos <= s.len(),
    ensures
        spec_continue_req(s, pos) matches SpecParsed::Match { next, val } ==> unit_text_verbatim(
            s,
            next,
            ImapResponseView::Continue(val),
        ),
{
    match spec_kw(s, pos, "+ "@) {
        SpecParsed::Match { next: n1, .. } => {
            lemma_resp_text_verbatim(s, n1);
        },
        _ => {},
    }
}

proof fn lemma_response_tagged_verbatim(s: Seq<u8>, pos: int)
    requires
        0 <= pos <= s.len(),
    ensures
        spec_response_tagged(s, pos) matches SpecParsed::Match { next, val } ==> unit_text_verbatim(
            s,
            next,
            ImapResponseView::Response(val),
        ),
{
    if pos < s.len() {
        lemma_run_end(s, pos + 1, ByteClass::Digit);
    }
    match spec_response_tagged(s, pos) {
        SpecParsed::Match { .. } => {
            match spec_imap_tag(s, pos) {
                SpecParsed::Match { next: n1, .. } => {
                    match spec_byte(s, n1, ' ' as u8) {
                        SpecParsed::Match { next: n2, .. } => {
                            lemma_resp_cond_state_verbatim(s, n2);
                        },
                        _ => {},
                    }
                },
                _ => {},
            }
        },
        _ => {},
    }
}

proof fn lemma_response_data_verbatim(s: Seq<u8>, pos: int)
    requires
        0 <= pos <= s.len(),
    ensures
        spec_response_data(s, pos) matches SpecParsed::Match { next, val } ==> unit_text_verbatim(
            s,
            next,
            ImapResponseView::Untagged(val),
        ),
{
    reveal(spec_response_data);
    match spec_kw(s, pos, "* "@) {
        SpecParsed::Match { next: n1, .. } => {
            lemma_resp_cond_state_verbatim(s, n1);
            lemma_resp_cond_bye_verbatim(s, n1);
        },
        _ => {},
    }
}

/// Law: decoding reproduces the free text of every top-level unit
/// verbatim, through both entry points: the status-line text of the
/// decoded value is exactly the run of input bytes that precedes the
/// unit's CRLF terminator. Only keyword comparisons are case-folded; the
/// free text never is.
pub proof fn lemma_unit_text_verbatim(s: Seq<u8>)
    ensures
        spec_parse(s, 0) matches SpecParsed::Match { next, val } ==> unit_text_verbatim(
            s,
            next,
            val,
        ),
        spec_parse_response(s, 0) matches SpecParsed::Match { next, val } ==> unit_text_verbatim(
            s,
            next,
            val,
        ),
{
    lemma_greeting_verbatim(s, 0);
    lemma_continue_req_verbatim(s, 0);
    lemma_response_tagged_verbatim(s, 0);
    lemma_response_data_verbatim(s, 0);
}

} // verus!
