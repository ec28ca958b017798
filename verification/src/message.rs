//! message-data: expunge notices and fetched message attributes, with
//! the envelope, address and date-time grammar they rely on.

use vstd::prelude::*;
use crate::lex::{
    spec_nstring, spec_number, spec_nz_number, spec_fixed_num, spec_byte, spec_kw, pow10,
    lemma_fixed_num_val, nstring, number, nz_number, fixed_num, byte, kw,
};
use crate::parser::{
    Parsed, SpecParsed, parsed_matches, in_bounds, progress, sp_prepend, sp_alt,
    lemma_prepend_step, lemma_prepend_empty, lemma_prepend_nil, lemma_bytes_deep_view,
};
use crate::grammar::{spec_flag, flag};
use crate::types::{
    Address, AddressView, Envelope, EnvelopeView, Time, Month, DateTime, MsgFlag, MsgFlagView,
    MsgAtt, MsgAttView, MessageData, MessageDataView,
};

verus! {

broadcast use lemma_bytes_deep_view;

// ------------------------------------------------------------------
// Addresses and envelopes.
// ------------------------------------------------------------------

/// address: four nil-able fields in parentheses.
pub open spec fn spec_address(s: Seq<u8>, pos: int) -> SpecParsed<AddressView> {
    match spec_byte(s, pos, '(' as u8) {
        SpecParsed::Incomplete => SpecParsed::Incomplete,
        SpecParsed::Fail => SpecParsed::Fail,
        SpecParsed::Match { next: p1, .. } => match spec_nstring(s, p1) {
            SpecParsed::Incomplete => SpecParsed::Incomplete,
            SpecParsed::Fail => SpecParsed::Fail,
            SpecParsed::Match { next: p2, val: name } => match spec_byte(s, p2, ' ' as u8) {
                SpecParsed::Incomplete => SpecParsed::Incomplete,
                SpecParsed::Fail => SpecParsed::Fail,
                SpecParsed::Match { next: p3, .. } => match spec_nstring(s, p3) {
                    SpecParsed::Incomplete => SpecParsed::Incomplete,
                    SpecParsed::Fail => SpecParsed::Fail,
                    SpecParsed::Match { next: p4, val: adl } => match spec_byte(
                        s,
                        p4,
                        ' ' as u8,
                    ) {
                        SpecParsed::Incomplete => SpecParsed::Incomplete,
                        SpecParsed::Fail => SpecParsed::Fail,
                        SpecParsed::Match { next: p5, .. } => match spec_nstring(s, p5) {
                            SpecParsed::Incomplete => SpecParsed::Incomplete,
                            SpecParsed::Fail => SpecParsed::Fail,
                            SpecParsed::Match { next: p6, val: mailbox } => match spec_byte(
                                s,
                                p6,
                                ' ' as u8,
                            ) {
                                SpecParsed::Incomplete => SpecParsed::Incomplete,
                                SpecParsed::Fail => SpecParsed::Fail,
                                SpecParsed::Match { next: p7, .. } => match spec_nstring(
                                    s,
                                    p7,
                                ) {
                                    SpecParsed::Incomplete => SpecParsed::Incomplete,
                                    SpecParsed::Fail => SpecParsed::Fail,
                                    SpecParsed::Match { next: p8, val: host } => match spec_byte(
                                        s,
                                        p8,
                                        ')' as u8,
                                    ) {
                                        SpecParsed::Incomplete => SpecParsed::Incomplete,
                                        SpecParsed::Fail => SpecParsed::Fail,
                                        SpecParsed::Match { next, .. } => SpecParsed::Match {
                                            next,
                                            val: AddressView { name, adl, mailbox, host },
                                        },
                                    },
                                },
                            },
                        },
                    },
                },
            },
        },
    }
}

pub fn address(i: &[u8], pos: usize) -> (r: Parsed<Address>)
    requires
        pos <= i@.len(),
    ensures
        parsed_matches(r, spec_address(i@, pos as int)),
        in_bounds(r, pos as int, i@.len() as int),
        progress(r, pos as int),
{
    let p1 = match byte(i, pos, 40) {
        Parsed::Match { next, .. } => next,
        Parsed::Incomplete => {
            return Parsed::Incomplete;
        },
        Parsed::Fail => {
            return Parsed::Fail;
        },
    };
    let (p2, name) = match nstring(i, p1) {
        Parsed::Match { next, val } => (next, val),
        Parsed::Incomplete => {
            return Parsed::Incomplete;
        },
        Parsed::Fail => {
            return Parsed::Fail;
        },
    };
    let p3 = match byte(i, p2, 32) {
        Parsed::Match { next, .. } => next,
        Parsed::Incomplete => {
            return Parsed::Incomplete;
        },
        Parsed::Fail => {
            return Parsed::Fail;
        },
    };
    let (p4, adl) = match nstring(i, p3) {
        Parsed::Match { next, val } => (next, val),
        Parsed::Incomplete => {
            return Parsed::Incomplete;
        },
        Parsed::Fail => {
            return Parsed::Fail;
        },
    };
    let p5 = match byte(i, p4, 32) {
        Parsed::Match { next, .. } => next,
        Parsed::Incomplete => {
            return Parsed::Incomplete;
        },
        Parsed::Fail => {
            return Parsed::Fail;
        },
    };
    let (p6, mbox) = match nstring(i, p5) {
        Parsed::Match { next, val } => (next, val),
        Parsed::Incomplete => {
            return Parsed::Incomplete;
        },
        Parsed::Fail => {
            return Parsed::Fail;
        },
    };
    let p7 = match byte(i, p6, 32) {
        Parsed::Match { next, .. } => next,
        Parsed::Incomplete => {
            return Parsed::Incomplete;
        },
        Parsed::Fail => {
            return Parsed::Fail;
        },
    };
    let (p8, host) = match nstring(i, p7) {
        Parsed::Match { next, val } => (next, val),
        Parsed::Incomplete => {
            return Parsed::Incomplete;
        },
        Parsed::Fail => {
            return Parsed::Fail;
        },
    };
    match byte(i, p8, 41) {
        Parsed::Match { next, .. } => Parsed::Match {
            next,
            val: Address { name, adl, mailbox: mbox, host },
        },
        Parsed::Incomplete => Parsed::Incomplete,
        Parsed::Fail => Parsed::Fail,
    }
}

/// `1*address` without separators.
pub open spec fn spec_addrs(s: Seq<u8>, pos: int) -> SpecParsed<Seq<AddressView>>
    decreases s.len() - pos,
{
    if pos < 0 || pos > s.len() {
        SpecParsed::Fail
    } else {
        match spec_address(s, pos) {
            SpecParsed::Incomplete => SpecParsed::Incomplete,
            SpecParsed::Fail => SpecParsed::Match { next: pos, val: Seq::empty() },
            SpecParsed::Match { next, val } => if next <= pos || next > s.len() {
                SpecParsed::Match { next: pos, val: Seq::empty() }
            } else {
                sp_prepend(seq![val], spec_addrs(s, next))
            },
        }
    }
}

#[verifier::loop_isolation(false)]
fn addrs(i: &[u8], pos: usize) -> (r: Parsed<Vec<Address>>)
    requires
        pos <= i@.len(),
    ensures
        parsed_matches(r, spec_addrs(i@, pos as int)),
        in_bounds(r, pos as int, i@.len() as int),
{
    let mut acc: Vec<Address> = Vec::new();
    let mut cur: usize = pos;
    proof {
        assert(acc.deep_view() =~= Seq::<AddressView>::empty());
        lemma_prepend_nil(spec_addrs(i@, pos as int));
    }
    loop
        invariant
            pos <= cur <= i@.len(),
            spec_addrs(i@, pos as int) == sp_prepend(
                acc.deep_view(),
                spec_addrs(i@, cur as int),
            ),
        decreases i@.len() - cur,
    {
        match address(i, cur) {
            Parsed::Incomplete => {
                return Parsed::Incomplete;
            },
            Parsed::Fail => {
                proof {
                    lemma_prepend_empty(acc.deep_view(), cur as int);
                }
                return Parsed::Match { next: cur, val: acc };
            },
            Parsed::Match { next, val } => {
                let ghost a0 = acc.deep_view();
                let ghost vd = val.deep_view();
                acc.push(val);
                proof {
                    assert(acc.deep_view() =~= a0.push(vd));
                    lemma_prepend_step(a0, vd, spec_addrs(i@, next as int));
                }
                cur = next;
            },
        }
    }
}

/// `( 1*address )` or `NIL`.
pub open spec fn spec_envelope_addr(s: Seq<u8>, pos: int) -> SpecParsed<
    Option<Seq<AddressView>>,
> {
    match spec_byte(s, pos, '(' as u8) {
        SpecParsed::Incomplete => SpecParsed::Incomplete,
        SpecParsed::Match { next: p1, .. } => match spec_addrs(s, p1) {
            SpecParsed::Incomplete => SpecParsed::Incomplete,
            SpecParsed::Fail => SpecParsed::Fail,
            SpecParsed::Match { next: n, val } => if val.len() == 0 {
                SpecParsed::Fail
            } else {
                match spec_byte(s, n, ')' as u8) {
                    SpecParsed::Match { next, .. } => SpecParsed::Match {
                        next,
                        val: Some(val),
                    },
                    SpecParsed::Incomplete => SpecParsed::Incomplete,
                    SpecParsed::Fail => SpecParsed::Fail,
                }
            },
        },
        SpecParsed::Fail => match spec_kw(s, pos, "NIL"@) {
            SpecParsed::Match { next, .. } => SpecParsed::Match { next, val: None },
            SpecParsed::Incomplete => SpecParsed::Incomplete,
            SpecParsed::Fail => SpecParsed::Fail,
        },
    }
}

pub fn envelope_addr(i: &[u8], pos: usize) -> (r: Parsed<Option<Vec<Address>>>)
    requires
        pos <= i@.len(),
    ensures
        parsed_matches(r, spec_envelope_addr(i@, pos as int)),
        in_bounds(r, pos as int, i@.len() as int),
{
    proof {
        reveal_strlit("NIL");
    }
    match byte(i, pos, 40) {
        Parsed::Incomplete => {
            return Parsed::Incomplete;
        },
        Parsed::Match { next: p1, .. } => {
            let (n, val) = match addrs(i, p1) {
                Parsed::Match { next, val } => (next, val),
                Parsed::Incomplete => {
                    return Parsed::Incomplete;
                },
                Parsed::Fail => {
                    return Parsed::Fail;
                },
            };
            if val.len() == 0 {
                proof {
                    assert(val.deep_view().len() == 0);
                }
                return Parsed::Fail;
            }
            match byte(i, n, 41) {
                Parsed::Match { next, .. } => Parsed::Match { next, val: Some(val) },
                Parsed::Incomplete => Parsed::Incomplete,
                Parsed::Fail => Parsed::Fail,
            }
        },
        Parsed::Fail => match kw(i, pos, "NIL") {
            Parsed::Match { next, .. } => Parsed::Match { next, val: None },
            Parsed::Incomplete => Parsed::Incomplete,
            Parsed::Fail => Parsed::Fail,
        },
    }
}

/// envelope: ten nil-able metadata fields in parentheses.
#[verifier::opaque]
pub open spec fn spec_envelope(s: Seq<u8>, pos: int) -> SpecParsed<EnvelopeView> {
    match spec_byte(s, pos, '(' as u8) {
        SpecParsed::Incomplete => SpecParsed::Incomplete,
        SpecParsed::Fail => SpecParsed::Fail,
        SpecParsed::Match { next: p0, .. } => match spec_nstring(s, p0) {
            SpecParsed::Incomplete => SpecParsed::Incomplete,
            SpecParsed::Fail => SpecParsed::Fail,
            SpecParsed::Match { next: q1, val: date } => match spec_byte(s, q1, ' ' as u8) {
                SpecParsed::Incomplete => SpecParsed::Incomplete,
                SpecParsed::Fail => SpecParsed::Fail,
                SpecParsed::Match { next: p1, .. } => match spec_nstring(s, p1) {
                    SpecParsed::Incomplete => SpecParsed::Incomplete,
                    SpecParsed::Fail => SpecParsed::Fail,
                    SpecParsed::Match { next: q2, val: subject } => match spec_byte(
                        s,
                        q2,
                        ' ' as u8,
                    ) {
                        SpecParsed::Incomplete => SpecParsed::Incomplete,
                        SpecParsed::Fail => SpecParsed::Fail,
                        SpecParsed::Match { next: p2, .. } => match spec_envelope_addr(s, p2) {
                            SpecParsed::Incomplete => SpecParsed::Incomplete,
                            SpecParsed::Fail => SpecParsed::Fail,
                            SpecParsed::Match { next: q3, val: from } => match spec_byte(
                                s,
                                q3,
                                ' ' as u8,
                            ) {
                                SpecParsed::Incomplete => SpecParsed::Incomplete,
                                SpecParsed::Fail => SpecParsed::Fail,
                                SpecParsed::Match { next: p3, .. } => match spec_envelope_addr(
                                    s,
                                    p3,
                                ) {
                                    SpecParsed::Incomplete => SpecParsed::Incomplete,
                                    SpecParsed::Fail => SpecParsed::Fail,
                                    SpecParsed::Match { next: q4, val: sender } => match spec_byte(
                                        s,
                                        q4,
                                        ' ' as u8,
                                    ) {
                                        SpecParsed::Incomplete => SpecParsed::Incomplete,
                                        SpecParsed::Fail => SpecParsed::Fail,
                                        SpecParsed::Match { next: p4, .. } => spec_envelope_tail(
                                            s,
                                            p4,
                                            date,
                                            subject,
                                            from,
                                            sender,
                                        ),
                                    },
                                },
                            },
                        },
                    },
                },
            },
        },
    }
}

/// The second half of an envelope, after `env-sender SP`.
#[verifier::opaque]
pub open spec fn spec_envelope_tail(
    s: Seq<u8>,
    pos: int,
    date: Option<Seq<u8>>,
    subject: Option<Seq<u8>>,
    from: Option<Seq<AddressView>>,
    sender: Option<Seq<AddressView>>,
) -> SpecParsed<EnvelopeView> {
    match spec_envelope_addr(s, pos) {
        SpecParsed::Incomplete => SpecParsed::Incomplete,
        SpecParsed::Fail => SpecParsed::Fail,
        SpecParsed::Match { next: q5, val: reply_to } => match spec_byte(s, q5, ' ' as u8) {
            SpecParsed::Incomplete => SpecParsed::Incomplete,
            SpecParsed::Fail => SpecParsed::Fail,
            SpecParsed::Match { next: p5, .. } => match spec_envelope_addr(s, p5) {
                SpecParsed::Incomplete => SpecParsed::Incomplete,
                SpecParsed::Fail => SpecParsed::Fail,
                SpecParsed::Match { next: q6, val: to } => match spec_byte(s, q6, ' ' as u8) {
                    SpecParsed::Incomplete => SpecParsed::Incomplete,
                    SpecParsed::Fail => SpecParsed::Fail,
                    SpecParsed::Match { next: p6, .. } => match spec_envelope_addr(s, p6) {
                        SpecParsed::Incomplete => SpecParsed::Incomplete,
                        SpecParsed::Fail => SpecParsed::Fail,
                        SpecParsed::Match { next: q7, val: cc } => match spec_byte(
                            s,
                            q7,
                            ' ' as u8,
                        ) {
                            SpecParsed::Incomplete => SpecParsed::Incomplete,
                            SpecParsed::Fail => SpecParsed::Fail,
                            SpecParsed::Match { next: p7, .. } => match spec_envelope_addr(
                                s,
                                p7,
                            ) {
                                SpecParsed::Incomplete => SpecParsed::Incomplete,
                                SpecParsed::Fail => SpecParsed::Fail,
                                SpecParsed::Match { next: q8, val: bcc } => match spec_byte(
                                    s,
                                    q8,
                                    ' ' as u8,
                                ) {
                                    SpecParsed::Incomplete => SpecParsed::Incomplete,
                                    SpecParsed::Fail => SpecParsed::Fail,
                                    SpecParsed::Match { next: p8, .. } => match spec_nstring(
                                        s,
                                        p8,
                                    ) {
                                        SpecParsed::Incomplete => SpecParsed::Incomplete,
                                        SpecParsed::Fail => SpecParsed::Fail,
                                        SpecParsed::Match {
                                            next: q9,
                                            val: in_reply_to,
                                        } => match spec_byte(s, q9, ' ' as u8) {
                                            SpecParsed::Incomplete => SpecParsed::Incomplete,
                                            SpecParsed::Fail => SpecParsed::Fail,
                                            SpecParsed::Match { next: p9, .. } => match spec_nstring(
                                                s,
                                                p9,
                                            ) {
                                                SpecParsed::Incomplete => SpecParsed::Incomplete,
                                                SpecParsed::Fail => SpecParsed::Fail,
                                                SpecParsed::Match {
                                                    next: q10,
                                                    val: message_id,
                                                } => match spec_byte(s, q10, ')' as u8) {
                                                    SpecParsed::Incomplete => SpecParsed::Incomplete,
                                                    SpecParsed::Fail => SpecParsed::Fail,
                                                    SpecParsed::Match { next, .. } => SpecParsed::Match {
                                                        next,
                                                        val: EnvelopeView {
                                                            date,
                                                            subject,
                                                            from,
                                                            sender,
                                                            reply_to,
                                                            to,
                                                            cc,
                                                            bcc,
                                                            in_reply_to,
                                                            message_id,
                                                        },
                                                    },
                                                },
                                            },
                                        },
                                    },
                                },
                            },
                        },
                    },
                },
            },
        },
    }
}

#[verifier::rlimit(100)]
pub fn envelope(i: &[u8], pos: usize) -> (r: Parsed<Envelope>)
    requires
        pos <= i@.len(),
    ensures
        parsed_matches(r, spec_envelope(i@, pos as int)),
        in_bounds(r, pos as int, i@.len() as int),
{
    proof {
        reveal(spec_envelope);
        reveal(spec_envelope_tail);
    }
    let p0 = match byte(i, pos, 40) {
        Parsed::Match { next, .. } => next,
        Parsed::Incomplete => {
            return Parsed::Incomplete;
        },
        Parsed::Fail => {
            return Parsed::Fail;
        },
    };
    let (q1, date) = match nstring(i, p0) {
        Parsed::Match { next, val } => (next, val),
        Parsed::Incomplete => {
            return Parsed::Incomplete;
        },
        Parsed::Fail => {
            return Parsed::Fail;
        },
    };
    let p1 = match byte(i, q1, 32) {
        Parsed::Match { next, .. } => next,
        Parsed::Incomplete => {
            return Parsed::Incomplete;
        },
        Parsed::Fail => {
            return Parsed::Fail;
        },
    };
    let (q2, subject) = match nstring(i, p1) {
        Parsed::Match { next, val } => (next, val),
        Parsed::Incomplete => {
            return Parsed::Incomplete;
        },
        Parsed::Fail => {
            return Parsed::Fail;
        },
    };
    let p2 = match byte(i, q2, 32) {
        Parsed::Match { next, .. } => next,
        Parsed::Incomplete => {
            return Parsed::Incomplete;
        },
        Parsed::Fail => {
            return Parsed::Fail;
        },
    };
    let (q3, from) = match envelope_addr(i, p2) {
        Parsed::Match { next, val } => (next, val),
        Parsed::Incomplete => {
            return Parsed::Incomplete;
        },
        Parsed::Fail => {
            return Parsed::Fail;
        },
    };
    let p3 = match byte(i, q3, 32) {
        Parsed::Match { next, .. } => next,
        Parsed::Incomplete => {
            return Parsed::Incomplete;
        },
        Parsed::Fail => {
            return Parsed::Fail;
        },
    };
    let (q4, sender) = match envelope_addr(i, p3) {
        Parsed::Match { next, val } => (next, val),
        Parsed::Incomplete => {
            return Parsed::Incomplete;
        },
        Parsed::Fail => {
            return Parsed::Fail;
        },
    };
    let p4 = match byte(i, q4, 32) {
        Parsed::Match { next, .. } => next,
        Parsed::Incomplete => {
            return Parsed::Incomplete;
        },
        Parsed::Fail => {
            return Parsed::Fail;
        },
    };
    let (q5, reply_to) = match envelope_addr(i, p4) {
        Parsed::Match { next, val } => (next, val),
        Parsed::Incomplete => {
            return Parsed::Incomplete;
        },
        Parsed::Fail => {
            return Parsed::Fail;
        },
    };
    let p5 = match byte(i, q5, 32) {
        Parsed::Match { next, .. } => next,
        Parsed::Incomplete => {
            return Parsed::Incomplete;
        },
        Parsed::Fail => {
            return Parsed::Fail;
        },
    };
    let (q6, to) = match envelope_addr(i, p5) {
        Parsed::Match { next, val } => (next, val),
        Parsed::Incomplete => {
            return Parsed::Incomplete;
        },
        Parsed::Fail => {
            return Parsed::Fail;
        },
    };
    let p6 = match byte(i, q6, 32) {
        Parsed::Match { next, .. } => next,
        Parsed::Incomplete => {
            return Parsed::Incomplete;
        },
        Parsed::Fail => {
            return Parsed::Fail;
        },
    };
    let (q7, cc) = match envelope_addr(i, p6) {
        Parsed::Match { next, val } => (next, val),
        Parsed::Incomplete => {
            return Parsed::Incomplete;
        },
        Parsed::Fail => {
            return Parsed::Fail;
        },
    };
    let p7 = match byte(i, q7, 32) {
        Parsed::Match { next, .. } => next,
        Parsed::Incomplete => {
            return Parsed::Incomplete;
        },
        Parsed::Fail => {
            return Parsed::Fail;
        },
    };
    let (q8, bcc) = match envelope_addr(i, p7) {
        Parsed::Match { next, val } => (next, val),
        Parsed::Incomplete => {
            return Parsed::Incomplete;
        },
        Parsed::Fail => {
            return Parsed::Fail;
        },
    };
    let p8 = match byte(i, q8, 32) {
        Parsed::Match { next, .. } => next,
        Parsed::Incomplete => {
            return Parsed::Incomplete;
        },
        Parsed::Fail => {
            return Parsed::Fail;
        },
    };
    let (q9, in_reply_to) = match nstring(i, p8) {
        Parsed::Match { next, val } => (next, val),
        Parsed::Incomplete => {
            return Parsed::Incomplete;
        },
        Parsed::Fail => {
            return Parsed::Fail;
        },
    };
    let p9 = match byte(i, q9, 32) {
        Parsed::Match { next, .. } => next,
        Parsed::Incomplete => {
            return Parsed::Incomplete;
        },
        Parsed::Fail => {
            return Parsed::Fail;
        },
    };
    let (q10, message_id) = match nstring(i, p9) {
        Parsed::Match { next, val } => (next, val),
        Parsed::Incomplete => {
            return Parsed::Incomplete;
        },
        Parsed::Fail => {
            return Parsed::Fail;
        },
    };
    match byte(i, q10, 41) {
        Parsed::Match { next, .. } => Parsed::Match {
            next,
            val: Envelope {
                date,
                subject,
                from,
                sender,
                reply_to,
                to,
                cc,
                bcc,
                in_reply_to,
                message_id,
            },
        },
        Parsed::Incomplete => Parsed::Incomplete,
        Parsed::Fail => Parsed::Fail,
    }
}

// ------------------------------------------------------------------
// Dates and times.
// ------------------------------------------------------------------

/// date-day-fixed: a space-padded single digit, or two digits.
pub open spec fn spec_date_day_fixed(s: Seq<u8>, pos: int) -> SpecParsed<u32> {
    if pos >= s.len() {
        SpecParsed::Incomplete
    } else if s[pos] == (' ' as u8) {
        spec_fixed_num(s, pos + 1, 1)
    } else {
        spec_fixed_num(s, pos, 2)
    }
}

pub fn date_day_fixed(i: &[u8], pos: usize) -> (r: Parsed<u32>)
    requires
        pos <= i@.len(),
    ensures
        parsed_matches(r, spec_date_day_fixed(i@, pos as int)),
        in_bounds(r, pos as int, i@.len() as int),
        (r matches Parsed::Match { val, .. } ==> val < 100),
{
    proof {
        lemma_fixed_num_val(i@, pos + 1, 1);
        lemma_fixed_num_val(i@, pos as int, 2);
        reveal_with_fuel(pow10, 9);
    }
    if pos >= i.len() {
        Parsed::Incomplete
    } else if i[pos] == 32 {
        fixed_num(i, pos + 1, 1)
    } else {
        fixed_num(i, pos, 2)
    }
}

/// date-month: the three-letter month names, case-insensitively.
pub open spec fn spec_date_month(s: Seq<u8>, pos: int) -> SpecParsed<Month> {
    sp_alt(
        spec_month_kw(s, pos, "Jan"@, Month::Jan),
        sp_alt(
            spec_month_kw(s, pos, "Feb"@, Month::Feb),
            sp_alt(
                spec_month_kw(s, pos, "Mar"@, Month::Mar),
                sp_alt(
                    spec_month_kw(s, pos, "Apr"@, Month::Apr),
                    sp_alt(
                        spec_month_kw(s, pos, "May"@, Month::May),
                        sp_alt(
                            spec_month_kw(s, pos, "Jun"@, Month::Jun),
                            sp_alt(
                                spec_month_kw(s, pos, "Jul"@, Month::Jul),
                                sp_alt(
                                    spec_month_kw(s, pos, "Aug"@, Month::Aug),
                                    sp_alt(
                                        spec_month_kw(s, pos, "Sep"@, Month::Sep),
                                        sp_alt(
                                            spec_month_kw(s, pos, "Oct"@, Month::Oct),
                                            sp_alt(
                                                spec_month_kw(s, pos, "Nov"@, Month::Nov),
                                                spec_month_kw(s, pos, "Dec"@, Month::Dec),
                                            ),
                                        ),
                                    ),
                                ),
                            ),
                        ),
                    ),
                ),
            ),
        ),
    )
}

/// One month word mapped to its month.
pub open spec fn spec_month_kw(s: Seq<u8>, pos: int, w: Seq<char>, m: Month) -> SpecParsed<
    Month,
> {
    match spec_kw(s, pos, w) {
        SpecParsed::Match { next, .. } => SpecParsed::Match { next, val: m },
        SpecParsed::Incomplete => SpecParsed::Incomplete,
        SpecParsed::Fail => SpecParsed::Fail,
    }
}

fn month_kw(i: &[u8], pos: usize, w: &str, m: Month) -> (r: Parsed<Month>)
    requires
        pos <= i@.len(),
        w.is_ascii(),
    ensures
        parsed_matches(r, spec_month_kw(i@, pos as int, w@, m)),
        in_bounds(r, pos as int, i@.len() as int),
{
    match kw(i, pos, w) {
        Parsed::Match { next, .. } => Parsed::Match { next, val: m },
        Parsed::Incomplete => Parsed::Incomplete,
        Parsed::Fail => Parsed::Fail,
    }
}

#[verifier::rlimit(100)]
pub fn date_month(i: &[u8], pos: usize) -> (r: Parsed<Month>)
    requires
        pos <= i@.len(),
    ensures
        parsed_matches(r, spec_date_month(i@, pos as int)),
        in_bounds(r, pos as int, i@.len() as int),
{
    proof {
        reveal_strlit("Jan");
        reveal_strlit("Feb");
        reveal_strlit("Mar");
        reveal_strlit("Apr");
        reveal_strlit("May");
        reveal_strlit("Jun");
        reveal_strlit("Jul");
        reveal_strlit("Aug");
        reveal_strlit("Sep");
        reveal_strlit("Oct");
        reveal_strlit("Nov");
        reveal_strlit("Dec");
    }
    match month_kw(i, pos, "Jan", Month::Jan) {
        Parsed::Fail => {},
        o => {
            return o;
        },
    }
    match month_kw(i, pos, "Feb", Month::Feb) {
        Parsed::Fail => {},
        o => {
            return o;
        },
    }
    match month_kw(i, pos, "Mar", Month::Mar) {
        Parsed::Fail => {},
        o => {
            return o;
        },
    }
    match month_kw(i, pos, "Apr", Month::Apr) {
        Parsed::Fail => {},
        o => {
            return o;
        },
    }
    match month_kw(i, pos, "May", Month::May) {
        Parsed::Fail => {},
        o => {
            return o;
        },
    }
    match month_kw(i, pos, "Jun", Month::Jun) {
        Parsed::Fail => {},
        o => {
            return o;
        },
    }
    match month_kw(i, pos, "Jul", Month::Jul) {
        Parsed::Fail => {},
        o => {
            return o;
        },
    }
    match month_kw(i, pos, "Aug", Month::Aug) {
        Parsed::Fail => {},
        o => {
            return o;
        },
    }
    match month_kw(i, pos, "Sep", Month::Sep) {
        Parsed::Fail => {},
        o => {
            return o;
        },
    }
    match month_kw(i, pos, "Oct", Month::Oct) {
        Parsed::Fail => {},
        o => {
            return o;
        },
    }
    match month_kw(i, pos, "Nov", Month::Nov) {
        Parsed::Fail => {},
        o => {
            return o;
        },
    }
    month_kw(i, pos, "Dec", Month::Dec)
}

/// date-year: four digits.
pub open spec fn spec_date_year(s: Seq<u8>, pos: int) -> SpecParsed<u32> {
    spec_fixed_num(s, pos, 4)
}

pub fn date_year(i: &[u8], pos: usize) -> (r: Parsed<u32>)
    requires
        pos <= i@.len(),
    ensures
        parsed_matches(r, spec_date_year(i@, pos as int)),
        in_bounds(r, pos as int, i@.len() as int),
        (r matches Parsed::Match { val, .. } ==> val < 10000),
{
    proof {
        lemma_fixed_num_val(i@, pos as int, 4);
        reveal_with_fuel(pow10, 9);
    }
    fixed_num(i, pos, 4)
}

/// time: `hh:mm:ss`.
pub open spec fn spec_time(s: Seq<u8>, pos: int) -> SpecParsed<Time> {
    match spec_fixed_num(s, pos, 2) {
        SpecParsed::Incomplete => SpecParsed::Incomplete,
        SpecParsed::Fail => SpecParsed::Fail,
        SpecParsed::Match { next: n1, val: h } => match spec_byte(s, n1, ':' as u8) {
            SpecParsed::Incomplete => SpecParsed::Incomplete,
            SpecParsed::Fail => SpecParsed::Fail,
            SpecParsed::Match { next: n2, .. } => match spec_fixed_num(s, n2, 2) {
                SpecParsed::Incomplete => SpecParsed::Incomplete,
                SpecParsed::Fail => SpecParsed::Fail,
                SpecParsed::Match { next: n3, val: m } => match spec_byte(s, n3, ':' as u8) {
                    SpecParsed::Incomplete => SpecParsed::Incomplete,
                    SpecParsed::Fail => SpecParsed::Fail,
                    SpecParsed::Match { next: n4, .. } => match spec_fixed_num(s, n4, 2) {
                        SpecParsed::Incomplete => SpecParsed::Incomplete,
                        SpecParsed::Fail => SpecParsed::Fail,
                        SpecParsed::Match { next, val: sec } => SpecParsed::Match {
                            next,
                            val: Time {
                                hours: h as u8,
                                minutes: m as u8,
                                seconds: sec as u8,
                            },
                        },
                    },
                },
            },
        },
    }
}

pub fn time(i: &[u8], pos: usize) -> (r: Parsed<Time>)
    requires
        pos <= i@.len(),
    ensures
        parsed_matches(r, spec_time(i@, pos as int)),
        in_bounds(r, pos as int, i@.len() as int),
{
    let (n1, h) = match fixed_num(i, pos, 2) {
        Parsed::Match { next, val } => (next, val),
        Parsed::Incomplete => {
            return Parsed::Incomplete;
        },
        Parsed::Fail => {
            return Parsed::Fail;
        },
    };
    let n2 = match byte(i, n1, 58) {
        Parsed::Match { next, .. } => next,
        Parsed::Incomplete => {
            return Parsed::Incomplete;
        },
        Parsed::Fail => {
            return Parsed::Fail;
        },
    };
    let (n3, m) = match fixed_num(i, n2, 2) {
        Parsed::Match { next, val } => (next, val),
        Parsed::Incomplete => {
            return Parsed::Incomplete;
        },
        Parsed::Fail => {
            return Parsed::Fail;
        },
    };
    let n4 = match byte(i, n3, 58) {
        Parsed::Match { next, .. } => next,
        Parsed::Incomplete => {
            return Parsed::Incomplete;
        },
        Parsed::Fail => {
            return Parsed::Fail;
        },
    };
    match fixed_num(i, n4, 2) {
        Parsed::Match { next, val } => Parsed::Match {
            next,
            val: Time {
                hours: #[verifier::truncate] (h as u8),
                minutes: #[verifier::truncate] (m as u8),
                seconds: #[verifier::truncate] (val as u8),
            },
        },
        Parsed::Incomplete => Parsed::Incomplete,
        Parsed::Fail => Parsed::Fail,
    }
}

/// zone: a sign and four digits, as signed minutes-and-hours offset.
pub open spec fn spec_zone(s: Seq<u8>, pos: int) -> SpecParsed<i16> {
    if pos >= s.len() {
        SpecParsed::Incomplete
    } else if s[pos] == ('+' as u8) {
        match spec_fixed_num(s, pos + 1, 4) {
            SpecParsed::Match { next, val } => SpecParsed::Match { next, val: val as i16 },
            SpecParsed::Incomplete => SpecParsed::Incomplete,
            SpecParsed::Fail => SpecParsed::Fail,
        }
    } else if s[pos] == ('-' as u8) {
        match spec_fixed_num(s, pos + 1, 4) {
            SpecParsed::Match { next, val } => SpecParsed::Match {
                next,
                val: (0 - (val as int)) as i16,
            },
            SpecParsed::Incomplete => SpecParsed::Incomplete,
            SpecParsed::Fail => SpecParsed::Fail,
        }
    } else {
        SpecParsed::Fail
    }
}

pub fn zone(i: &[u8], pos: usize) -> (r: Parsed<i16>)
    requires
        pos <= i@.len(),
    ensures
        parsed_matches(r, spec_zone(i@, pos as int)),
        in_bounds(r, pos as int, i@.len() as int),
{
    proof {
        lemma_fixed_num_val(i@, pos + 1, 4);
        reveal_with_fuel(pow10, 9);
    }
    if pos >= i.len() {
        return Parsed::Incomplete;
    }
    if i[pos] == 43 {
        match fixed_num(i, pos + 1, 4) {
            Parsed::Match { next, val } => Parsed::Match { next, val: val as i16 },
            Parsed::Incomplete => Parsed::Incomplete,
            Parsed::Fail => Parsed::Fail,
        }
    } else if i[pos] == 45 {
        match fixed_num(i, pos + 1, 4) {
            Parsed::Match { next, val } => {
                let z: i16 = val as i16;
                Parsed::Match { next, val: -z }
            },
            Parsed::Incomplete => Parsed::Incomplete,
            Parsed::Fail => Parsed::Fail,
        }
    } else {
        Parsed::Fail
    }
}

/// date-time: the quoted day, month, year, time and zone.
#[verifier::opaque]
pub open spec fn spec_date_time(s: Seq<u8>, pos: int) -> SpecParsed<DateTime> {
    match spec_byte(s, pos, '"' as u8) {
        SpecParsed::Incomplete => SpecParsed::Incomplete,
        SpecParsed::Fail => SpecParsed::Fail,
        SpecParsed::Match { next: p1, .. } => match spec_date_day_fixed(s, p1) {
            SpecParsed::Incomplete => SpecParsed::Incomplete,
            SpecParsed::Fail => SpecParsed::Fail,
            SpecParsed::Match { next: p2, val: day } => match spec_byte(s, p2, '-' as u8) {
                SpecParsed::Incomplete => SpecParsed::Incomplete,
                SpecParsed::Fail => SpecParsed::Fail,
                SpecParsed::Match { next: p3, .. } => match spec_date_month(s, p3) {
                    SpecParsed::Incomplete => SpecParsed::Incomplete,
                    SpecParsed::Fail => SpecParsed::Fail,
                    SpecParsed::Match { next: p4, val: month } => match spec_byte(
                        s,
                        p4,
                        '-' as u8,
                    ) {
                        SpecParsed::Incomplete => SpecParsed::Incomplete,
                        SpecParsed::Fail => SpecParsed::Fail,
                        SpecParsed::Match { next: p5, .. } => match spec_date_year(s, p5) {
                            SpecParsed::Incomplete => SpecParsed::Incomplete,
                            SpecParsed::Fail => SpecParsed::Fail,
                            SpecParsed::Match { next: p6, val: year } => match spec_byte(
                                s,
                                p6,
                                ' ' as u8,
                            ) {
                                SpecParsed::Incomplete => SpecParsed::Incomplete,
                                SpecParsed::Fail => SpecParsed::Fail,
                                SpecParsed::Match { next: p7, .. } => match spec_time(s, p7) {
                                    SpecParsed::Incomplete => SpecParsed::Incomplete,
                                    SpecParsed::Fail => SpecParsed::Fail,
                                    SpecParsed::Match { next: p8, val: tm } => match spec_byte(
                                        s,
                                        p8,
                                        ' ' as u8,
                                    ) {
                                        SpecParsed::Incomplete => SpecParsed::Incomplete,
                                        SpecParsed::Fail => SpecParsed::Fail,
                                        SpecParsed::Match { next: p9, .. } => match spec_zone(
                                            s,
                                            p9,
                                        ) {
                                            SpecParsed::Incomplete => SpecParsed::Incomplete,
                                            SpecParsed::Fail => SpecParsed::Fail,
                                            SpecParsed::Match { next: p10, val: zn } => match spec_byte(
                                                s,
                                                p10,
                                                '"' as u8,
                                            ) {
                                                SpecParsed::Incomplete => SpecParsed::Incomplete,
                                                SpecParsed::Fail => SpecParsed::Fail,
                                                SpecParsed::Match { next, .. } => SpecParsed::Match {
                                                    next,
                                                    val: DateTime {
                                                        day: day as u8,
                                                        month,
                                                        year: year as u16,
                                                        time: tm,
                                                        zone: zn,
                                                    },
                                                },
                                            },
                                        },
                                    },
                                },
                            },
                        },
                    },
                },
            },
        },
    }
}

#[verifier::rlimit(100)]
pub fn date_time(i: &[u8], pos: usize) -> (r: Parsed<DateTime>)
    requires
        pos <= i@.len(),
    ensures
        parsed_matches(r, spec_date_time(i@, pos as int)),
        in_bounds(r, pos as int, i@.len() as int),
{
    proof {
        reveal(spec_date_time);
    }
    let p1 = match byte(i, pos, 34) {
        Parsed::Match { next, .. } => next,
        Parsed::Incomplete => {
            return Parsed::Incomplete;
        },
        Parsed::Fail => {
            return Parsed::Fail;
        },
    };
    let (p2, day) = match date_day_fixed(i, p1) {
        Parsed::Match { next, val } => (next, val),
        Parsed::Incomplete => {
            return Parsed::Incomplete;
        },
        Parsed::Fail => {
            return Parsed::Fail;
        },
    };
    let p3 = match byte(i, p2, 45) {
        Parsed::Match { next, .. } => next,
        Parsed::Incomplete => {
            return Parsed::Incomplete;
        },
        Parsed::Fail => {
            return Parsed::Fail;
        },
    };
    let (p4, month) = match date_month(i, p3) {
        Parsed::Match { next, val } => (next, val),
        Parsed::Incomplete => {
            return Parsed::Incomplete;
        },
        Parsed::Fail => {
            return Parsed::Fail;
        },
    };
    let p5 = match byte(i, p4, 45) {
        Parsed::Match { next, .. } => next,
        Parsed::Incomplete => {
            return Parsed::Incomplete;
        },
        Parsed::Fail => {
            return Parsed::Fail;
        },
    };
    let (p6, year) = match date_year(i, p5) {
        Parsed::Match { next, val } => (next, val),
        Parsed::Incomplete => {
            return Parsed::Incomplete;
        },
        Parsed::Fail => {
            return Parsed::Fail;
        },
    };
    let p7 = match byte(i, p6, 32) {
        Parsed::Match { next, .. } => next,
        Parsed::Incomplete => {
            return Parsed::Incomplete;
        },
        Parsed::Fail => {
            return Parsed::Fail;
        },
    };
    let (p8, tm) = match time(i, p7) {
        Parsed::Match { next, val } => (next, val),
        Parsed::Incomplete => {
            return Parsed::Incomplete;
        },
        Parsed::Fail => {
            return Parsed::Fail;
        },
    };
    let p9 = match byte(i, p8, 32) {
        Parsed::Match { next, .. } => next,
        Parsed::Incomplete => {
            return Parsed::Incomplete;
        },
        Parsed::Fail => {
            return Parsed::Fail;
        },
    };
    let (p10, zn) = match zone(i, p9) {
        Parsed::Match { next, val } => (next, val),
        Parsed::Incomplete => {
            return Parsed::Incomplete;
        },
        Parsed::Fail => {
            return Parsed::Fail;
        },
    };
    match byte(i, p10, 34) {
        Parsed::Match { next, .. } => Parsed::Match {
            next,
            val: DateTime {
                day: day as u8,
                month,
                year: #[verifier::truncate] (year as u16),
                time: tm,
                zone: zn,
            },
        },
        Parsed::Incomplete => Parsed::Incomplete,
        Parsed::Fail => Parsed::Fail,
    }
}

// ------------------------------------------------------------------
// Fetched message attributes.
// ------------------------------------------------------------------

/// flag-fetch: a flag, or the fetch-only `\Recent` marker.
pub open spec fn spec_flag_fetch(s: Seq<u8>, pos: int) -> SpecParsed<MsgFlagView> {
    match spec_flag(s, pos) {
        SpecParsed::Match { next, val } => SpecParsed::Match {
            next,
            val: MsgFlagView::Common(val),
        },
        SpecParsed::Incomplete => SpecParsed::Incomplete,
        SpecParsed::Fail => match spec_kw(s, pos, "\\Recent"@) {
            SpecParsed::Match { next, .. } => SpecParsed::Match {
                next,
                val: MsgFlagView::Recent,
            },
            SpecParsed::Incomplete => SpecParsed::Incomplete,
            SpecParsed::Fail => SpecParsed::Fail,
        },
    }
}

pub fn flag_fetch(i: &[u8], pos: usize) -> (r: Parsed<MsgFlag>)
    requires
        pos <= i@.len(),
    ensures
        parsed_matches(r, spec_flag_fetch(i@, pos as int)),
        in_bounds(r, pos as int, i@.len() as int),
{
    proof {
        reveal_strlit("\\Recent");
    }
    match flag(i, pos) {
        Parsed::Match { next, val } => {
            return Parsed::Match { next, val: MsgFlag::Common(val) };
        },
        Parsed::Incomplete => {
            return Parsed::Incomplete;
        },
        Parsed::Fail => {},
    }
    match kw(i, pos, "\\Recent") {
        Parsed::Match { next, .. } => Parsed::Match { next, val: MsgFlag::Recent },
        Parsed::Incomplete => Parsed::Incomplete,
        Parsed::Fail => Parsed::Fail,
    }
}

/// `*(SP flag-fetch)`.
pub open spec fn spec_flag_fetch_rest(s: Seq<u8>, pos: int) -> SpecParsed<Seq<MsgFlagView>>
    decreases s.len() - pos,
{
    if pos < 0 || pos >= s.len() {
        SpecParsed::Incomplete
    } else if s[pos] != (' ' as u8) {
        SpecParsed::Match { next: pos, val: Seq::empty() }
    } else {
        match spec_flag_fetch(s, pos + 1) {
            SpecParsed::Incomplete => SpecParsed::Incomplete,
            SpecParsed::Fail => SpecParsed::Match { next: pos, val: Seq::empty() },
            SpecParsed::Match { next, val } => if next <= pos || next > s.len() {
                SpecParsed::Match { next: pos, val: Seq::empty() }
            } else {
                sp_prepend(seq![val], spec_flag_fetch_rest(s, next))
            },
        }
    }
}

/// msg-att-dynamic: `FLAGS SP ( [flag-fetch *(SP flag-fetch)] )`. The
/// flag list may be empty: an unflagged message fetches `FLAGS ()`.
#[verifier::opaque]
pub open spec fn spec_msg_att_dynamic(s: Seq<u8>, pos: int) -> SpecParsed<MsgAttView> {
    match spec_kw(s, pos, "FLAGS ("@) {
        SpecParsed::Incomplete => SpecParsed::Incomplete,
        SpecParsed::Fail => SpecParsed::Fail,
        SpecParsed::Match { next: n1, .. } => match spec_flag_fetch(s, n1) {
            SpecParsed::Incomplete => SpecParsed::Incomplete,
            SpecParsed::Fail => match spec_byte(s, n1, ')' as u8) {
                SpecParsed::Match { next, .. } => SpecParsed::Match {
                    next,
                    val: MsgAttView::Flags(Seq::empty()),
                },
                SpecParsed::Incomplete => SpecParsed::Incomplete,
                SpecParsed::Fail => SpecParsed::Fail,
            },
            SpecParsed::Match { next: n2, val: f0 } => match spec_flag_fetch_rest(s, n2) {
                SpecParsed::Incomplete => SpecParsed::Incomplete,
                SpecParsed::Fail => SpecParsed::Fail,
                SpecParsed::Match { next: n3, val: fs } => match spec_byte(s, n3, ')' as u8) {
                    SpecParsed::Match { next, .. } => SpecParsed::Match {
                        next,
                        val: MsgAttView::Flags(seq![f0] + fs),
                    },
                    SpecParsed::Incomplete => SpecParsed::Incomplete,
                    SpecParsed::Fail => SpecParsed::Fail,
                },
            },
        },
    }
}

#[verifier::loop_isolation(false)]
#[verifier::rlimit(100)]
pub fn msg_att_dynamic(i: &[u8], pos: usize) -> (r: Parsed<MsgAtt>)
    requires
        pos <= i@.len(),
    ensures
        parsed_matches(r, spec_msg_att_dynamic(i@, pos as int)),
        in_bounds(r, pos as int, i@.len() as int),
{
    proof {
        reveal(spec_msg_att_dynamic);
        reveal_strlit("FLAGS (");
    }
    let n1 = match kw(i, pos, "FLAGS (") {
        Parsed::Match { next, .. } => next,
        Parsed::Incomplete => {
            return Parsed::Incomplete;
        },
        Parsed::Fail => {
            return Parsed::Fail;
        },
    };
    let mut acc: Vec<MsgFlag> = Vec::new();
    let mut cur: usize;
    let ghost f0d: MsgFlagView;
    let ghost n2_0: int;
    match flag_fetch(i, n1) {
        Parsed::Incomplete => {
            return Parsed::Incomplete;
        },
        Parsed::Fail => {
            proof {
                assert(acc.deep_view() =~= Seq::<MsgFlagView>::empty());
            }
            return match byte(i, n1, 41) {
                Parsed::Match { next, .. } => Parsed::Match { next, val: MsgAtt::Flags(acc) },
                Parsed::Incomplete => Parsed::Incomplete,
                Parsed::Fail => Parsed::Fail,
            };
        },
        Parsed::Match { next, val } => {
            proof {
                f0d = val.deep_view();
                n2_0 = next as int;
            }
            acc.push(val);
            cur = next;
            proof {
                assert(acc.deep_view() =~= seq![f0d]);
            }
        },
    }
    loop
        invariant
            n1 <= cur <= i@.len(),
            sp_prepend(acc.deep_view(), spec_flag_fetch_rest(i@, cur as int)) == sp_prepend(
                seq![f0d],
                spec_flag_fetch_rest(i@, n2_0),
            ),
        decreases i@.len() - cur,
    {
        if cur >= i.len() {
            return Parsed::Incomplete;
        }
        if i[cur] != 32 {
            proof {
                lemma_prepend_empty(acc.deep_view(), cur as int);
            }
            return match byte(i, cur, 41) {
                Parsed::Match { next, .. } => Parsed::Match { next, val: MsgAtt::Flags(acc) },
                Parsed::Incomplete => Parsed::Incomplete,
                Parsed::Fail => Parsed::Fail,
            };
        }
        match flag_fetch(i, cur + 1) {
            Parsed::Incomplete => {
                return Parsed::Incomplete;
            },
            Parsed::Fail => {
                proof {
                    lemma_prepend_empty(acc.deep_view(), cur as int);
                }
                return match byte(i, cur, 41) {
                    Parsed::Match { next, .. } => Parsed::Match {
                        next,
                        val: MsgAtt::Flags(acc),
                    },
                    Parsed::Incomplete => Parsed::Incomplete,
                    Parsed::Fail => Parsed::Fail,
                };
            },
            Parsed::Match { next, val } => {
                let ghost a0 = acc.deep_view();
                let ghost vd = val.deep_view();
                acc.push(val);
                proof {
                    assert(acc.deep_view() =~= a0.push(vd));
                    lemma_prepend_step(a0, vd, spec_flag_fetch_rest(i@, next as int));
                }
                cur = next;
            },
        }
    }
}

/// `ENVELOPE SP envelope`.
#[verifier::opaque]
pub open spec fn spec_att_envelope(s: Seq<u8>, pos: int) -> SpecParsed<MsgAttView> {
    match spec_kw(s, pos, "ENVELOPE "@) {
        SpecParsed::Incomplete => SpecParsed::Incomplete,
        SpecParsed::Fail => SpecParsed::Fail,
        SpecParsed::Match { next: n1, .. } => match spec_envelope(s, n1) {
            SpecParsed::Match { next, val } => SpecParsed::Match {
                next,
                val: MsgAttView::Envelope(val),
            },
            SpecParsed::Incomplete => SpecParsed::Incomplete,
            SpecParsed::Fail => SpecParsed::Fail,
        },
    }
}

fn att_envelope(i: &[u8], pos: usize) -> (r: Parsed<MsgAtt>)
    requires
        pos <= i@.len(),
    ensures
        parsed_matches(r, spec_att_envelope(i@, pos as int)),
        in_bounds(r, pos as int, i@.len() as int),
{
    proof {
        reveal(spec_att_envelope);
        reveal_strlit("ENVELOPE ");
    }
    let n1 = match kw(i, pos, "ENVELOPE ") {
        Parsed::Match { next, .. } => next,
        Parsed::Incomplete => {
            return Parsed::Incomplete;
        },
        Parsed::Fail => {
            return Parsed::Fail;
        },
    };
    match envelope(i, n1) {
        Parsed::Match { next, val } => Parsed::Match { next, val: MsgAtt::Envelope(val) },
        Parsed::Incomplete => Parsed::Incomplete,
        Parsed::Fail => Parsed::Fail,
    }
}

/// `INTERNALDATE SP date-time`.
#[verifier::opaque]
pub open spec fn spec_att_internal_date(s: Seq<u8>, pos: int) -> SpecParsed<MsgAttView> {
    match spec_kw(s, pos, "INTERNALDATE "@) {
        SpecParsed::Incomplete => SpecParsed::Incomplete,
        SpecParsed::Fail => SpecParsed::Fail,
        SpecParsed::Match { next: n1, .. } => match spec_date_time(s, n1) {
            SpecParsed::Match { next, val } => SpecParsed::Match {
                next,
                val: MsgAttView::InternalDate(val),
            },
            SpecParsed::Incomplete => SpecParsed::Incomplete,
            SpecParsed::Fail => SpecParsed::Fail,
        },
    }
}

fn att_internal_date(i: &[u8], pos: usize) -> (r: Parsed<MsgAtt>)
    requires
        pos <= i@.len(),
    ensures
        parsed_matches(r, spec_att_internal_date(i@, pos as int)),
        in_bounds(r, pos as int, i@.len() as int),
{
    proof {
        reveal(spec_att_internal_date);
        reveal_strlit("INTERNALDATE ");
    }
    let n1 = match kw(i, pos, "INTERNALDATE ") {
        Parsed::Match { next, .. } => next,
        Parsed::Incomplete => {
            return Parsed::Incomplete;
        },
        Parsed::Fail => {
            return Parsed::Fail;
        },
    };
    match date_time(i, n1) {
        Parsed::Match { next, val } => Parsed::Match { next, val: MsgAtt::InternalDate(val) },
        Parsed::Incomplete => Parsed::Incomplete,
        Parsed::Fail => Parsed::Fail,
    }
}

/// `RFC822 SP nstring`.
#[verifier::opaque]
pub open spec fn spec_att_rfc822(s: Seq<u8>, pos: int) -> SpecParsed<MsgAttView> {
    match spec_kw(s, pos, "RFC822 "@) {
        SpecParsed::Incomplete => SpecParsed::Incomplete,
        SpecParsed::Fail => SpecParsed::Fail,
        SpecParsed::Match { next: n1, .. } => match spec_nstring(s, n1) {
            SpecParsed::Match { next, val } => SpecParsed::Match {
                next,
                val: MsgAttView::Rfc822(val),
            },
            SpecParsed::Incomplete => SpecParsed::Incomplete,
            SpecParsed::Fail => SpecParsed::Fail,
        },
    }
}

fn att_rfc822(i: &[u8], pos: usize) -> (r: Parsed<MsgAtt>)
    requires
        pos <= i@.len(),
    ensures
        parsed_matches(r, spec_att_rfc822(i@, pos as int)),
        in_bounds(r, pos as int, i@.len() as int),
{
    proof {
        reveal(spec_att_rfc822);
        reveal_strlit("RFC822 ");
    }
    let n1 = match kw(i, pos, "RFC822 ") {
        Parsed::Match { next, .. } => next,
        Parsed::Incomplete => {
            return Parsed::Incomplete;
        },
        Parsed::Fail => {
            return Parsed::Fail;
        },
    };
    match nstring(i, n1) {
        Parsed::Match { next, val } => Parsed::Match { next, val: MsgAtt::Rfc822(val) },
        Parsed::Incomplete => Parsed::Incomplete,
        Parsed::Fail => Parsed::Fail,
    }
}

/// `RFC822.HEADER SP nstring`.
#[verifier::opaque]
pub open spec fn spec_att_rfc822_header(s: Seq<u8>, pos: int) -> SpecParsed<MsgAttView> {
    match spec_kw(s, pos, "RFC822.HEADER "@) {
        SpecParsed::Incomplete => SpecParsed::Incomplete,
        SpecParsed::Fail => SpecParsed::Fail,
        SpecParsed::Match { next: n1, .. } => match spec_nstring(s, n1) {
            SpecParsed::Match { next, val } => SpecParsed::Match {
                next,
                val: MsgAttView::Rfc822Header(val),
            },
            SpecParsed::Incomplete => SpecParsed::Incomplete,
            SpecParsed::Fail => SpecParsed::Fail,
        },
    }
}

fn att_rfc822_header(i: &[u8], pos: usize) -> (r: Parsed<MsgAtt>)
    requires
        pos <= i@.len(),
    ensures
        parsed_matches(r, spec_att_rfc822_header(i@, pos as int)),
        in_bounds(r, pos as int, i@.len() as int),
{
    proof {
        reveal(spec_att_rfc822_header);
        reveal_strlit("RFC822.HEADER ");
    }
    let n1 = match kw(i, pos, "RFC822.HEADER ") {
        Parsed::Match { next, .. } => next,
        Parsed::Incomplete => {
            return Parsed::Incomplete;
        },
        Parsed::Fail => {
            return Parsed::Fail;
        },
    };
    match nstring(i, n1) {
        Parsed::Match { next, val } => Parsed::Match { next, val: MsgAtt::Rfc822Header(val) },
        Parsed::Incomplete => Parsed::Incomplete,
        Parsed::Fail => Parsed::Fail,
    }
}

/// `RFC822.TEXT SP nstring`.
#[verifier::opaque]
pub open spec fn spec_att_rfc822_text(s: Seq<u8>, pos: int) -> SpecParsed<MsgAttView> {
    match spec_kw(s, pos, "RFC822.TEXT "@) {
        SpecParsed::Incomplete => SpecParsed::Incomplete,
        SpecParsed::Fail => SpecParsed::Fail,
        SpecParsed::Match { next: n1, .. } => match spec_nstring(s, n1) {
            SpecParsed::Match { next, val } => SpecParsed::Match {
                next,
                val: MsgAttView::Rfc822Text(val),
            },
            SpecParsed::Incomplete => SpecParsed::Incomplete,
            SpecParsed::Fail => SpecParsed::Fail,
        },
    }
}

fn att_rfc822_text(i: &[u8], pos: usize) -> (r: Parsed<MsgAtt>)
    requires
        pos <= i@.len(),
    ensures
        parsed_matches(r, spec_att_rfc822_text(i@, pos as int)),
        in_bounds(r, pos as int, i@.len() as int),
{
    proof {
        reveal(spec_att_rfc822_text);
        reveal_strlit("RFC822.TEXT ");
    }
    let n1 = match kw(i, pos, "RFC822.TEXT ") {
        Parsed::Match { next, .. } => next,
        Parsed::Incomplete => {
            return Parsed::Incomplete;
        },
        Parsed::Fail => {
            return Parsed::Fail;
        },
    };
    match nstring(i, n1) {
        Parsed::Match { next, val } => Parsed::Match { next, val: MsgAtt::Rfc822Text(val) },
        Parsed::Incomplete => Parsed::Incomplete,
        Parsed::Fail => Parsed::Fail,
    }
}

/// `RFC822.SIZE SP number`.
#[verifier::opaque]
pub open spec fn spec_att_rfc822_size(s: Seq<u8>, pos: int) -> SpecParsed<MsgAttView> {
    match spec_kw(s, pos, "RFC822.SIZE "@) {
        SpecParsed::Incomplete => SpecParsed::Incomplete,
        SpecParsed::Fail => SpecParsed::Fail,
        SpecParsed::Match { next: n1, .. } => match spec_number(s, n1) {
            SpecParsed::Match { next, val } => SpecParsed::Match {
                next,
                val: MsgAttView::Rfc822Size(val),
            },
            SpecParsed::Incomplete => SpecParsed::Incomplete,
            SpecParsed::Fail => SpecParsed::Fail,
        },
    }
}

fn att_rfc822_size(i: &[u8], pos: usize) -> (r: Parsed<MsgAtt>)
    requires
        pos <= i@.len(),
    ensures
        parsed_matches(r, spec_att_rfc822_size(i@, pos as int)),
        in_bounds(r, pos as int, i@.len() as int),
{
    proof {
        reveal(spec_att_rfc822_size);
        reveal_strlit("RFC822.SIZE ");
    }
    let n1 = match kw(i, pos, "RFC822.SIZE ") {
        Parsed::Match { next, .. } => next,
        Parsed::Incomplete => {
            return Parsed::Incomplete;
        },
        Parsed::Fail => {
            return Parsed::Fail;
        },
    };
    match number(i, n1) {
        Parsed::Match { next, val } => Parsed::Match { next, val: MsgAtt::Rfc822Size(val) },
        Parsed::Incomplete => Parsed::Incomplete,
        Parsed::Fail => Parsed::Fail,
    }
}

/// msg-att-static: the attributes that never change for a message.
pub open spec fn spec_msg_att_static(s: Seq<u8>, pos: int) -> SpecParsed<MsgAttView> {
    sp_alt(
        spec_att_envelope(s, pos),
        sp_alt(
            spec_att_internal_date(s, pos),
            sp_alt(
                spec_att_rfc822(s, pos),
                sp_alt(
                    spec_att_rfc822_header(s, pos),
                    sp_alt(spec_att_rfc822_text(s, pos), spec_att_rfc822_size(s, pos)),
                ),
            ),
        ),
    )
}

pub fn msg_att_static(i: &[u8], pos: usize) -> (r: Parsed<MsgAtt>)
    requires
        pos <= i@.len(),
    ensures
        parsed_matches(r, spec_msg_att_static(i@, pos as int)),
        in_bounds(r, pos as int, i@.len() as int),
{
    match att_envelope(i, pos) {
        Parsed::Fail => {},
        o => {
            return o;
        },
    }
    match att_internal_date(i, pos) {
        Parsed::Fail => {},
        o => {
            return o;
        },
    }
    match att_rfc822(i, pos) {
        Parsed::Fail => {},
        o => {
            return o;
        },
    }
    match att_rfc822_header(i, pos) {
        Parsed::Fail => {},
        o => {
            return o;
        },
    }
    match att_rfc822_text(i, pos) {
        Parsed::Fail => {},
        o => {
            return o;
        },
    }
    att_rfc822_size(i, pos)
}

/// One msg-att item: dynamic flags or a static attribute.
pub open spec fn spec_msg_att_item(s: Seq<u8>, pos: int) -> SpecParsed<MsgAttView> {
    sp_alt(spec_msg_att_dynamic(s, pos), spec_msg_att_static(s, pos))
}

pub fn msg_att_item(i: &[u8], pos: usize) -> (r: Parsed<MsgAtt>)
    requires
        pos <= i@.len(),
    ensures
        parsed_matches(r, spec_msg_att_item(i@, pos as int)),
        in_bounds(r, pos as int, i@.len() as int),
{
    match msg_att_dynamic(i, pos) {
        Parsed::Fail => {},
        o => {
            return o;
        },
    }
    msg_att_static(i, pos)
}

/// `*(SP msg-att-item)`.
pub open spec fn spec_msg_att_rest(s: Seq<u8>, pos: int) -> SpecParsed<Seq<MsgAttView>>
    decreases s.len() - pos,
{
    if pos < 0 || pos >= s.len() {
        SpecParsed::Incomplete
    } else if s[pos] != (' ' as u8) {
        SpecParsed::Match { next: pos, val: Seq::empty() }
    } else {
        match spec_msg_att_item(s, pos + 1) {
            SpecParsed::Incomplete => SpecParsed::Incomplete,
            SpecParsed::Fail => SpecParsed::Match { next: pos, val: Seq::empty() },
            SpecParsed::Match { next, val } => if next <= pos || next > s.len() {
                SpecParsed::Match { next: pos, val: Seq::empty() }
            } else {
                sp_prepend(seq![val], spec_msg_att_rest(s, next))
            },
        }
    }
}

/// msg-att: `( item *(SP item) )`.
#[verifier::opaque]
pub open spec fn spec_msg_att(s: Seq<u8>, pos: int) -> SpecParsed<Seq<MsgAttView>> {
    match spec_byte(s, pos, '(' as u8) {
        SpecParsed::Incomplete => SpecParsed::Incomplete,
        SpecParsed::Fail => SpecParsed::Fail,
        SpecParsed::Match { next: n1, .. } => match spec_msg_att_item(s, n1) {
            SpecParsed::Incomplete => SpecParsed::Incomplete,
            SpecParsed::Fail => SpecParsed::Fail,
            SpecParsed::Match { next: n2, val: a0 } => match spec_msg_att_rest(s, n2) {
                SpecParsed::Incomplete => SpecParsed::Incomplete,
                SpecParsed::Fail => SpecParsed::Fail,
                SpecParsed::Match { next: n3, val: rest } => match spec_byte(s, n3, ')' as u8) {
                    SpecParsed::Match { next, .. } => SpecParsed::Match {
                        next,
                        val: seq![a0] + rest,
                    },
                    SpecParsed::Incomplete => SpecParsed::Incomplete,
                    SpecParsed::Fail => SpecParsed::Fail,
                },
            },
        },
    }
}

#[verifier::loop_isolation(false)]
pub fn msg_att(i: &[u8], pos: usize) -> (r: Parsed<Vec<MsgAtt>>)
    requires
        pos <= i@.len(),
    ensures
        parsed_matches(r, spec_msg_att(i@, pos as int)),
        in_bounds(r, pos as int, i@.len() as int),
{
    proof {
        reveal(spec_msg_att);
    }
    let n1 = match byte(i, pos, 40) {
        Parsed::Match { next, .. } => next,
        Parsed::Incomplete => {
            return Parsed::Incomplete;
        },
        Parsed::Fail => {
            return Parsed::Fail;
        },
    };
    let mut acc: Vec<MsgAtt> = Vec::new();
    let mut cur: usize;
    let ghost a0d: MsgAttView;
    let ghost n2_0: int;
    match msg_att_item(i, n1) {
        Parsed::Incomplete => {
            return Parsed::Incomplete;
        },
        Parsed::Fail => {
            return Parsed::Fail;
        },
        Parsed::Match { next, val } => {
            proof {
                a0d = val.deep_view();
                n2_0 = next as int;
            }
            acc.push(val);
            cur = next;
            proof {
                assert(acc.deep_view() =~= seq![a0d]);
            }
        },
    }
    loop
        invariant
            n1 <= cur <= i@.len(),
            sp_prepend(acc.deep_view(), spec_msg_att_rest(i@, cur as int)) == sp_prepend(
                seq![a0d],
                spec_msg_att_rest(i@, n2_0),
            ),
        decreases i@.len() - cur,
    {
        if cur >= i.len() {
            return Parsed::Incomplete;
        }
        if i[cur] != 32 {
            proof {
                lemma_prepend_empty(acc.deep_view(), cur as int);
            }
            return match byte(i, cur, 41) {
                Parsed::Match { next, .. } => Parsed::Match { next, val: acc },
                Parsed::Incomplete => Parsed::Incomplete,
                Parsed::Fail => Parsed::Fail,
            };
        }
        match msg_att_item(i, cur + 1) {
            Parsed::Incomplete => {
                return Parsed::Incomplete;
            },
            Parsed::Fail => {
                proof {
                    lemma_prepend_empty(acc.deep_view(), cur as int);
                }
                return match byte(i, cur, 41) {
                    Parsed::Match { next, .. } => Parsed::Match { next, val: acc },
                    Parsed::Incomplete => Parsed::Incomplete,
                    Parsed::Fail => Parsed::Fail,
                };
            },
            Parsed::Match { next, val } => {
                let ghost a0 = acc.deep_view();
                let ghost vd = val.deep_view();
                acc.push(val);
                proof {
                    assert(acc.deep_view() =~= a0.push(vd));
                    lemma_prepend_step(a0, vd, spec_msg_att_rest(i@, next as int));
                }
                cur = next;
            },
        }
    }
}

/// message-data: `nz-number SP (EXPUNGE | FETCH SP msg-att)`.
pub open spec fn spec_message_data(s: Seq<u8>, pos: int) -> SpecParsed<MessageDataView> {
    match spec_nz_number(s, pos) {
        SpecParsed::Incomplete => SpecParsed::Incomplete,
        SpecParsed::Fail => SpecParsed::Fail,
        SpecParsed::Match { next: n1, val: num } => match spec_byte(s, n1, ' ' as u8) {
            SpecParsed::Incomplete => SpecParsed::Incomplete,
            SpecParsed::Fail => SpecParsed::Fail,
            SpecParsed::Match { next: n2, .. } => match spec_kw(s, n2, "EXPUNGE"@) {
                SpecParsed::Incomplete => SpecParsed::Incomplete,
                SpecParsed::Match { next, .. } => SpecParsed::Match {
                    next,
                    val: MessageDataView::Expunge(num),
                },
                SpecParsed::Fail => match spec_kw(s, n2, "FETCH "@) {
                    SpecParsed::Incomplete => SpecParsed::Incomplete,
                    SpecParsed::Fail => SpecParsed::Fail,
                    SpecParsed::Match { next: n3, .. } => match spec_msg_att(s, n3) {
                        SpecParsed::Match { next, val } => SpecParsed::Match {
                            next,
                            val: MessageDataView::Fetch(num, val),
                        },
                        SpecParsed::Incomplete => SpecParsed::Incomplete,
                        SpecParsed::Fail => SpecParsed::Fail,
                    },
                },
            },
        },
    }
}

pub fn message_data(i: &[u8], pos: usize) -> (r: Parsed<MessageData>)
    requires
        pos <= i@.len(),
    ensures
        parsed_matches(r, spec_message_data(i@, pos as int)),
        in_bounds(r, pos as int, i@.len() as int),
{
    proof {
        reveal_strlit("EXPUNGE");
        reveal_strlit("FETCH ");
    }
    let (n1, num) = match nz_number(i, pos) {
        Parsed::Match { next, val } => (next, val),
        Parsed::Incomplete => {
            return Parsed::Incomplete;
        },
        Parsed::Fail => {
            return Parsed::Fail;
        },
    };
    let n2 = match byte(i, n1, 32) {
        Parsed::Match { next, .. } => next,
        Parsed::Incomplete => {
            return Parsed::Incomplete;
        },
        Parsed::Fail => {
            return Parsed::Fail;
        },
    };
    match kw(i, n2, "EXPUNGE") {
        Parsed::Incomplete => {
            return Parsed::Incomplete;
        },
        Parsed::Match { next, .. } => {
            return Parsed::Match { next, val: MessageData::Expunge(num) };
        },
        Parsed::Fail => {},
    }
    let n3 = match kw(i, n2, "FETCH ") {
        Parsed::Match { next, .. } => next,
        Parsed::Incomplete => {
            return Parsed::Incomplete;
        },
        Parsed::Fail => {
            return Parsed::Fail;
        },
    };
    match msg_att(i, n3) {
        Parsed::Match { next, val } => Parsed::Match {
            next,
            val: MessageData::Fetch(num, val),
        },
        Parsed::Incomplete => Parsed::Incomplete,
        Parsed::Fail => Parsed::Fail,
    }
}

} // verus!
