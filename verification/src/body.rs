//! Partial body-structure grammar: single-part bodies (basic, text, and
//! one level of encapsulated `MESSAGE/RFC822`). Deeper nesting and the
//! multipart forms are intentionally out of scope.

use vstd::prelude::*;
use crate::lex::{
    spec_number, spec_nstring, spec_string, spec_byte, spec_kw, number, nstring, string, byte,
    kw,
};
use crate::parser::{
    Parsed, SpecParsed, parsed_matches, in_bounds, sp_prepend, sp_alt, lemma_prepend_step,
    lemma_prepend_empty, lemma_bytes_deep_view,
};
use crate::message::{spec_envelope, envelope};
use crate::types::{
    MediaType, MediaTypeView, MediaBasic, MediaBasicView, BodyEnc, BodyEncView, BodyFields,
    BodyFieldsView, BodyTypeBasic, BodyTypeBasicView, BodyTypeText, BodyTypeTextView, BodyLeaf,
    BodyLeafView, BodyTypeMsg, BodyTypeMsgView, Body, BodyView,
};

verus! {

broadcast use lemma_bytes_deep_view;

// ------------------------------------------------------------------
// Media types and transfer encodings.
// ------------------------------------------------------------------

/// One quoted media-type word mapped to its type.
pub open spec fn spec_media_kw(s: Seq<u8>, pos: int, w: Seq<char>, m: MediaTypeView) -> SpecParsed<
    MediaTypeView,
> {
    match spec_byte(s, pos, '"' as u8) {
        SpecParsed::Incomplete => SpecParsed::Incomplete,
        SpecParsed::Fail => SpecParsed::Fail,
        SpecParsed::Match { next: n1, .. } => match spec_kw(s, n1, w) {
            SpecParsed::Incomplete => SpecParsed::Incomplete,
            SpecParsed::Fail => SpecParsed::Fail,
            SpecParsed::Match { next: n2, .. } => match spec_byte(s, n2, '"' as u8) {
                SpecParsed::Match { next, .. } => SpecParsed::Match { next, val: m },
                SpecParsed::Incomplete => SpecParsed::Incomplete,
                SpecParsed::Fail => SpecParsed::Fail,
            },
        },
    }
}

fn media_kw(i: &[u8], pos: usize, w: &str, m: MediaType) -> (r: Parsed<MediaType>)
    requires
        pos <= i@.len(),
        w.is_ascii(),
        m.deep_view() == spec_media_view(m),
    ensures
        parsed_matches(r, spec_media_kw(i@, pos as int, w@, spec_media_view(m))),
        in_bounds(r, pos as int, i@.len() as int),
{
    let n1 = match byte(i, pos, 34) {
        Parsed::Match { next, .. } => next,
        Parsed::Incomplete => {
            return Parsed::Incomplete;
        },
        Parsed::Fail => {
            return Parsed::Fail;
        },
    };
    let n2 = match kw(i, n1, w) {
        Parsed::Match { next, .. } => next,
        Parsed::Incomplete => {
            return Parsed::Incomplete;
        },
        Parsed::Fail => {
            return Parsed::Fail;
        },
    };
    match byte(i, n2, 34) {
        Parsed::Match { next, .. } => Parsed::Match { next, val: m },
        Parsed::Incomplete => Parsed::Incomplete,
        Parsed::Fail => Parsed::Fail,
    }
}

/// The view of a media type that carries no custom name.
pub open spec fn spec_media_view(m: MediaType) -> MediaTypeView {
    match m {
        MediaType::Application => MediaTypeView::Application,
        MediaType::Audio => MediaTypeView::Audio,
        MediaType::Image => MediaTypeView::Image,
        MediaType::Message => MediaTypeView::Message,
        MediaType::Video => MediaTypeView::Video,
        MediaType::Custom(v) => MediaTypeView::Custom(v.deep_view()),
    }
}

/// The media type of a basic part: one of the five quoted words, or any
/// string kept as a custom type.
pub open spec fn spec_media_type(s: Seq<u8>, pos: int) -> SpecParsed<MediaTypeView> {
    sp_alt(
        spec_media_kw(s, pos, "APPLICATION"@, MediaTypeView::Application),
        sp_alt(
            spec_media_kw(s, pos, "AUDIO"@, MediaTypeView::Audio),
            sp_alt(
                spec_media_kw(s, pos, "IMAGE"@, MediaTypeView::Image),
                sp_alt(
                    spec_media_kw(s, pos, "MESSAGE"@, MediaTypeView::Message),
                    sp_alt(
                        spec_media_kw(s, pos, "VIDEO"@, MediaTypeView::Video),
                        match spec_string(s, pos) {
                            SpecParsed::Match { next, val } => SpecParsed::Match {
                                next,
                                val: MediaTypeView::Custom(val),
                            },
                            SpecParsed::Incomplete => SpecParsed::Incomplete,
                            SpecParsed::Fail => SpecParsed::Fail,
                        },
                    ),
                ),
            ),
        ),
    )
}

#[verifier::rlimit(100)]
pub fn media_type(i: &[u8], pos: usize) -> (r: Parsed<MediaType>)
    requires
        pos <= i@.len(),
    ensures
        parsed_matches(r, spec_media_type(i@, pos as int)),
        in_bounds(r, pos as int, i@.len() as int),
{
    proof {
        reveal_strlit("APPLICATION");
        reveal_strlit("AUDIO");
        reveal_strlit("IMAGE");
        reveal_strlit("MESSAGE");
        reveal_strlit("VIDEO");
    }
    match media_kw(i, pos, "APPLICATION", MediaType::Application) {
        Parsed::Fail => {},
        o => {
            return o;
        },
    }
    match media_kw(i, pos, "AUDIO", MediaType::Audio) {
        Parsed::Fail => {},
        o => {
            return o;
        },
    }
    match media_kw(i, pos, "IMAGE", MediaType::Image) {
        Parsed::Fail => {},
        o => {
            return o;
        },
    }
    match media_kw(i, pos, "MESSAGE", MediaType::Message) {
        Parsed::Fail => {},
        o => {
            return o;
        },
    }
    match media_kw(i, pos, "VIDEO", MediaType::Video) {
        Parsed::Fail => {},
        o => {
            return o;
        },
    }
    match string(i, pos) {
        Parsed::Match { next, val } => Parsed::Match { next, val: MediaType::Custom(val) },
        Parsed::Incomplete => Parsed::Incomplete,
        Parsed::Fail => Parsed::Fail,
    }
}

/// media-basic: the media type, a space, and the subtype string.
pub open spec fn spec_media_basic(s: Seq<u8>, pos: int) -> SpecParsed<MediaBasicView> {
    match spec_media_type(s, pos) {
        SpecParsed::Incomplete => SpecParsed::Incomplete,
        SpecParsed::Fail => SpecParsed::Fail,
        SpecParsed::Match { next: n1, val: mt } => match spec_byte(s, n1, ' ' as u8) {
            SpecParsed::Incomplete => SpecParsed::Incomplete,
            SpecParsed::Fail => SpecParsed::Fail,
            SpecParsed::Match { next: n2, .. } => match spec_string(s, n2) {
                SpecParsed::Match { next, val } => SpecParsed::Match {
                    next,
                    val: MediaBasicView { media_type: mt, subtype: val },
                },
                SpecParsed::Incomplete => SpecParsed::Incomplete,
                SpecParsed::Fail => SpecParsed::Fail,
            },
        },
    }
}

pub fn media_basic(i: &[u8], pos: usize) -> (r: Parsed<MediaBasic>)
    requires
        pos <= i@.len(),
    ensures
        parsed_matches(r, spec_media_basic(i@, pos as int)),
        in_bounds(r, pos as int, i@.len() as int),
{
    let (n1, mt) = match media_type(i, pos) {
        Parsed::Match { next, val } => (next, val),
        Parsed::Incomplete => {
            return Parsed::Incomplete;
        },
        Parsed::Fail => {
            return Parsed::Fail;
        },
    };
    let n2 = match byte(i, n1, 32) {
        Parsed::Match { next, .. } => next,
        Parsed::Incomplete => {
            return Parsed::Incomplete;
        },
        Parsed::Fail => {
            return Parsed::Fail;
        },
    };
    match string(i, n2) {
        Parsed::Match { next, val } => Parsed::Match {
            next,
            val: MediaBasic { media_type: mt, subtype: val },
        },
        Parsed::Incomplete => Parsed::Incomplete,
        Parsed::Fail => Parsed::Fail,
    }
}

/// One quoted encoding word mapped to its encoding.
pub open spec fn spec_enc_kw(s: Seq<u8>, pos: int, w: Seq<char>, e: BodyEncView) -> SpecParsed<
    BodyEncView,
> {
    match spec_byte(s, pos, '"' as u8) {
        SpecParsed::Incomplete => SpecParsed::Incomplete,
        SpecParsed::Fail => SpecParsed::Fail,
        SpecParsed::Match { next: n1, .. } => match spec_kw(s, n1, w) {
            SpecParsed::Incomplete => SpecParsed::Incomplete,
            SpecParsed::Fail => SpecParsed::Fail,
            SpecParsed::Match { next: n2, .. } => match spec_byte(s, n2, '"' as u8) {
                SpecParsed::Match { next, .. } => SpecParsed::Match { next, val: e },
                SpecParsed::Incomplete => SpecParsed::Incomplete,
                SpecParsed::Fail => SpecParsed::Fail,
            },
        },
    }
}

/// The view of an encoding that carries no custom name.
pub open spec fn spec_enc_view(e: BodyEnc) -> BodyEncView {
    match e {
        BodyEnc::N7bit => BodyEncView::N7bit,
        BodyEnc::N8bit => BodyEncView::N8bit,
        BodyEnc::Binary => BodyEncView::Binary,
        BodyEnc::Base64 => BodyEncView::Base64,
        BodyEnc::QuotedPrintable => BodyEncView::QuotedPrintable,
        BodyEnc::Custom(v) => BodyEncView::Custom(v.deep_view()),
    }
}

fn enc_kw(i: &[u8], pos: usize, w: &str, e: BodyEnc) -> (r: Parsed<BodyEnc>)
    requires
        pos <= i@.len(),
        w.is_ascii(),
        e.deep_view() == spec_enc_view(e),
    ensures
        parsed_matches(r, spec_enc_kw(i@, pos as int, w@, spec_enc_view(e))),
        in_bounds(r, pos as int, i@.len() as int),
{
    let n1 = match byte(i, pos, 34) {
        Parsed::Match { next, .. } => next,
        Parsed::Incomplete => {
            return Parsed::Incomplete;
        },
        Parsed::Fail => {
            return Parsed::Fail;
        },
    };
    let n2 = match kw(i, n1, w) {
        Parsed::Match { next, .. } => next,
        Parsed::Incomplete => {
            return Parsed::Incomplete;
        },
        Parsed::Fail => {
            return Parsed::Fail;
        },
    };
    match byte(i, n2, 34) {
        Parsed::Match { next, .. } => Parsed::Match { next, val: e },
        Parsed::Incomplete => Parsed::Incomplete,
        Parsed::Fail => Parsed::Fail,
    }
}

/// body-fld-enc: one of the five quoted encodings, or any string kept as
/// a custom encoding.
pub open spec fn spec_body_fld_enc(s: Seq<u8>, pos: int) -> SpecParsed<BodyEncView> {
    sp_alt(
        spec_enc_kw(s, pos, "7BIT"@, BodyEncView::N7bit),
        sp_alt(
            spec_enc_kw(s, pos, "8BIT"@, BodyEncView::N8bit),
            sp_alt(
                spec_enc_kw(s, pos, "BINARY"@, BodyEncView::Binary),
                sp_alt(
                    spec_enc_kw(s, pos, "BASE64"@, BodyEncView::Base64),
                    sp_alt(
                        spec_enc_kw(s, pos, "QUOTED-PRINTABLE"@, BodyEncView::QuotedPrintable),
                        match spec_string(s, pos) {
                            SpecParsed::Match { next, val } => SpecParsed::Match {
                                next,
                                val: BodyEncView::Custom(val),
                            },
                            SpecParsed::Incomplete => SpecParsed::Incomplete,
                            SpecParsed::Fail => SpecParsed::Fail,
                        },
                    ),
                ),
            ),
        ),
    )
}

#[verifier::rlimit(100)]
pub fn body_fld_enc(i: &[u8], pos: usize) -> (r: Parsed<BodyEnc>)
    requires
        pos <= i@.len(),
    ensures
        parsed_matches(r, spec_body_fld_enc(i@, pos as int)),
        in_bounds(r, pos as int, i@.len() as int),
{
    proof {
        reveal_strlit("7BIT");
        reveal_strlit("8BIT");
        reveal_strlit("BINARY");
        reveal_strlit("BASE64");
        reveal_strlit("QUOTED-PRINTABLE");
    }
    match enc_kw(i, pos, "7BIT", BodyEnc::N7bit) {
        Parsed::Fail => {},
        o => {
            return o;
        },
    }
    match enc_kw(i, pos, "8BIT", BodyEnc::N8bit) {
        Parsed::Fail => {},
        o => {
            return o;
        },
    }
    match enc_kw(i, pos, "BINARY", BodyEnc::Binary) {
        Parsed::Fail => {},
        o => {
            return o;
        },
    }
    match enc_kw(i, pos, "BASE64", BodyEnc::Base64) {
        Parsed::Fail => {},
        o => {
            return o;
        },
    }
    match enc_kw(i, pos, "QUOTED-PRINTABLE", BodyEnc::QuotedPrintable) {
        Parsed::Fail => {},
        o => {
            return o;
        },
    }
    match string(i, pos) {
        Parsed::Match { next, val } => Parsed::Match { next, val: BodyEnc::Custom(val) },
        Parsed::Incomplete => Parsed::Incomplete,
        Parsed::Fail => Parsed::Fail,
    }
}

// ------------------------------------------------------------------
// Body fields.
// ------------------------------------------------------------------

/// One `string SP string` parameter pair.
pub open spec fn spec_body_param(s: Seq<u8>, pos: int) -> SpecParsed<(Seq<u8>, Seq<u8>)> {
    match spec_string(s, pos) {
        SpecParsed::Incomplete => SpecParsed::Incomplete,
        SpecParsed::Fail => SpecParsed::Fail,
        SpecParsed::Match { next: n1, val: k } => match spec_byte(s, n1, ' ' as u8) {
            SpecParsed::Incomplete => SpecParsed::Incomplete,
            SpecParsed::Fail => SpecParsed::Fail,
            SpecParsed::Match { next: n2, .. } => match spec_string(s, n2) {
                SpecParsed::Match { next, val: v } => SpecParsed::Match { next, val: (k, v) },
                SpecParsed::Incomplete => SpecParsed::Incomplete,
                SpecParsed::Fail => SpecParsed::Fail,
            },
        },
    }
}

fn body_param(i: &[u8], pos: usize) -> (r: Parsed<(Vec<u8>, Vec<u8>)>)
    requires
        pos <= i@.len(),
    ensures
        parsed_matches(r, spec_body_param(i@, pos as int)),
        in_bounds(r, pos as int, i@.len() as int),
{
    let (n1, k) = match string(i, pos) {
        Parsed::Match { next, val } => (next, val),
        Parsed::Incomplete => {
            return Parsed::Incomplete;
        },
        Parsed::Fail => {
            return Parsed::Fail;
        },
    };
    let n2 = match byte(i, n1, 32) {
        Parsed::Match { next, .. } => next,
        Parsed::Incomplete => {
            return Parsed::Incomplete;
        },
        Parsed::Fail => {
            return Parsed::Fail;
        },
    };
    match string(i, n2) {
        Parsed::Match { next, val } => Parsed::Match { next, val: (k, val) },
        Parsed::Incomplete => Parsed::Incomplete,
        Parsed::Fail => Parsed::Fail,
    }
}

/// `*(SP pair)`.
pub open spec fn spec_body_params_rest(s: Seq<u8>, pos: int) -> SpecParsed<
    Seq<(Seq<u8>, Seq<u8>)>,
>
    decreases s.len() - pos,
{
    if pos < 0 || pos >= s.len() {
        SpecParsed::Incomplete
    } else if s[pos] != (' ' as u8) {
        SpecParsed::Match { next: pos, val: Seq::empty() }
    } else {
        match spec_body_param(s, pos + 1) {
            SpecParsed::Incomplete => SpecParsed::Incomplete,
            SpecParsed::Fail => SpecParsed::Match { next: pos, val: Seq::empty() },
            SpecParsed::Match { next, val } => if next <= pos || next > s.len() {
                SpecParsed::Match { next: pos, val: Seq::empty() }
            } else {
                sp_prepend(seq![val], spec_body_params_rest(s, next))
            },
        }
    }
}

/// body-fld-param: `( pair *(SP pair) )` or `NIL`.
pub open spec fn spec_body_fld_param(s: Seq<u8>, pos: int) -> SpecParsed<
    Option<Seq<(Seq<u8>, Seq<u8>)>>,
> {
    match spec_byte(s, pos, '(' as u8) {
        SpecParsed::Incomplete => SpecParsed::Incomplete,
        SpecParsed::Match { next: p1, .. } => match spec_body_param(s, p1) {
            SpecParsed::Incomplete => SpecParsed::Incomplete,
            SpecParsed::Fail => SpecParsed::Fail,
            SpecParsed::Match { next: p2, val: pr } => match spec_body_params_rest(s, p2) {
                SpecParsed::Incomplete => SpecParsed::Incomplete,
                SpecParsed::Fail => SpecParsed::Fail,
                SpecParsed::Match { next: p3, val: rest } => match spec_byte(s, p3, ')' as u8) {
                    SpecParsed::Match { next, .. } => SpecParsed::Match {
                        next,
                        val: Some(seq![pr] + rest),
                    },
                    SpecParsed::Incomplete => SpecParsed::Incomplete,
                    SpecParsed::Fail => SpecParsed::Fail,
                },
            },
        },
        SpecParsed::Fail => match spec_kw(s, pos, "NIL"@) {
            SpecParsed::Match { next, .. } => SpecParsed::Match { next, val: None },
            SpecParsed::Incomplete => SpecParsed::Incomplete,
            SpecParsed::Fail => SpecParsed::Fail,
        },
    }
}

#[verifier::loop_isolation(false)]
pub fn body_fld_param(i: &[u8], pos: usize) -> (r: Parsed<Option<Vec<(Vec<u8>, Vec<u8>)>>>)
    requires
        pos <= i@.len(),
    ensures
        parsed_matches(r, spec_body_fld_param(i@, pos as int)),
        in_bounds(r, pos as int, i@.len() as int),
{
    proof {
        reveal_strlit("NIL");
    }
    let p1 = match byte(i, pos, 40) {
        Parsed::Match { next, .. } => next,
        Parsed::Incomplete => {
            return Parsed::Incomplete;
        },
        Parsed::Fail => {
            return match kw(i, pos, "NIL") {
                Parsed::Match { next, .. } => Parsed::Match { next, val: None },
                Parsed::Incomplete => Parsed::Incomplete,
                Parsed::Fail => Parsed::Fail,
            };
        },
    };
    let mut acc: Vec<(Vec<u8>, Vec<u8>)> = Vec::new();
    let mut cur: usize;
    let ghost p0d: (Seq<u8>, Seq<u8>);
    let ghost p2_0: int;
    match body_param(i, p1) {
        Parsed::Incomplete => {
            return Parsed::Incomplete;
        },
        Parsed::Fail => {
            return Parsed::Fail;
        },
        Parsed::Match { next, val } => {
            proof {
                p0d = val.deep_view();
                p2_0 = next as int;
            }
            acc.push(val);
            cur = next;
            proof {
                assert(acc.deep_view() =~= seq![p0d]);
            }
        },
    }
    loop
        invariant
            p1 <= cur <= i@.len(),
            sp_prepend(acc.deep_view(), spec_body_params_rest(i@, cur as int)) == sp_prepend(
                seq![p0d],
                spec_body_params_rest(i@, p2_0),
            ),
        decreases i@.len() - cur,
    {
        if cur >= i.len() {
            return Parsed::Incomplete;
        }
        if i[cur] != 32 {
            proof {
                lemma_prepend_empty(acc.deep_view(), cur as int);
            }
            return match byte(i, cur, 41) {
                Parsed::Match { next, .. } => Parsed::Match { next, val: Some(acc) },
                Parsed::Incomplete => Parsed::Incomplete,
                Parsed::Fail => Parsed::Fail,
            };
        }
        match body_param(i, cur + 1) {
            Parsed::Incomplete => {
                return Parsed::Incomplete;
            },
            Parsed::Fail => {
                proof {
                    lemma_prepend_empty(acc.deep_view(), cur as int);
                }
                return match byte(i, cur, 41) {
                    Parsed::Match { next, .. } => Parsed::Match { next, val: Some(acc) },
                    Parsed::Incomplete => Parsed::Incomplete,
                    Parsed::Fail => Parsed::Fail,
                };
            },
            Parsed::Match { next, val } => {
                let ghost a0 = acc.deep_view();
                let ghost vd = val.deep_view();
                acc.push(val);
                proof {
                    assert(acc.deep_view() =~= a0.push(vd));
                    lemma_prepend_step(a0, vd, spec_body_params_rest(i@, next as int));
                }
                cur = next;
            },
        }
    }
}

/// body-fields: parameters, id, description, encoding and octet count.
#[verifier::opaque]
pub open spec fn spec_body_fields(s: Seq<u8>, pos: int) -> SpecParsed<BodyFieldsView> {
    match spec_body_fld_param(s, pos) {
        SpecParsed::Incomplete => SpecParsed::Incomplete,
        SpecParsed::Fail => SpecParsed::Fail,
        SpecParsed::Match { next: q1, val: param } => match spec_byte(s, q1, ' ' as u8) {
            SpecParsed::Incomplete => SpecParsed::Incomplete,
            SpecParsed::Fail => SpecParsed::Fail,
            SpecParsed::Match { next: p1, .. } => match spec_nstring(s, p1) {
                SpecParsed::Incomplete => SpecParsed::Incomplete,
                SpecParsed::Fail => SpecParsed::Fail,
                SpecParsed::Match { next: q2, val: id } => match spec_byte(s, q2, ' ' as u8) {
                    SpecParsed::Incomplete => SpecParsed::Incomplete,
                    SpecParsed::Fail => SpecParsed::Fail,
                    SpecParsed::Match { next: p2, .. } => match spec_nstring(s, p2) {
                        SpecParsed::Incomplete => SpecParsed::Incomplete,
                        SpecParsed::Fail => SpecParsed::Fail,
                        SpecParsed::Match { next: q3, val: desc } => match spec_byte(
                            s,
                            q3,
                            ' ' as u8,
                        ) {
                            SpecParsed::Incomplete => SpecParsed::Incomplete,
                            SpecParsed::Fail => SpecParsed::Fail,
                            SpecParsed::Match { next: p3, .. } => match spec_body_fld_enc(
                                s,
                                p3,
                            ) {
                                SpecParsed::Incomplete => SpecParsed::Incomplete,
                                SpecParsed::Fail => SpecParsed::Fail,
                                SpecParsed::Match { next: q4, val: enc } => match spec_byte(
                                    s,
                                    q4,
                                    ' ' as u8,
                                ) {
                                    SpecParsed::Incomplete => SpecParsed::Incomplete,
                                    SpecParsed::Fail => SpecParsed::Fail,
                                    SpecParsed::Match { next: p4, .. } => match spec_number(
                                        s,
                                        p4,
                                    ) {
                                        SpecParsed::Match { next, val: octets } => SpecParsed::Match {
                                            next,
                                            val: BodyFieldsView {
                                                param,
                                                id,
                                                desc,
                                                enc,
                                                octets,
                                            },
                                        },
                                        SpecParsed::Incomplete => SpecParsed::Incomplete,
                                        SpecParsed::Fail => SpecParsed::Fail,
                                    },
                                },
                            },
                        },
                    },
                },
            },
        },
    }
}

#[verifier::rlimit(100)]
pub fn body_fields(i: &[u8], pos: usize) -> (r: Parsed<BodyFields>)
    requires
        pos <= i@.len(),
    ensures
        parsed_matches(r, spec_body_fields(i@, pos as int)),
        in_bounds(r, pos as int, i@.len() as int),
{
    proof {
        reveal(spec_body_fields);
    }
    let (q1, param) = match body_fld_param(i, pos) {
        Parsed::Match { next, val } => (next, val),
        Parsed::Incomplete => {
            return Parsed::Incomplete;
        },
        Parsed::Fail => {
            return Parsed::Fail;
        },
    };
    let p1 = match byte(i, q1, 32) {
        Parsed::Match { next, .. } => next,
        Parsed::Incomplete => {
            return Parsed::Incomplete;
        },
        Parsed::Fail => {
            return Parsed::Fail;
        },
    };
    let (q2, id) = match nstring(i, p1) {
        Parsed::Match { next, val } => (next, val),
        Parsed::Incomplete => {
            return Parsed::Incomplete;
        },
        Parsed::Fail => {
            return Parsed::Fail;
        },
    };
    let p2 = match byte(i, q2, 32) {
        Parsed::Match { next, .. } => next,
        Parsed::Incomplete => {
            return Parsed::Incomplete;
        },
        Parsed::Fail => {
            return Parsed::Fail;
        },
    };
    let (q3, desc) = match nstring(i, p2) {
        Parsed::Match { next, val } => (next, val),
        Parsed::Incomplete => {
            return Parsed::Incomplete;
        },
        Parsed::Fail => {
            return Parsed::Fail;
        },
    };
    let p3 = match byte(i, q3, 32) {
        Parsed::Match { next, .. } => next,
        Parsed::Incomplete => {
            return Parsed::Incomplete;
        },
        Parsed::Fail => {
            return Parsed::Fail;
        },
    };
    let (q4, enc) = match body_fld_enc(i, p3) {
        Parsed::Match { next, val } => (next, val),
        Parsed::Incomplete => {
            return Parsed::Incomplete;
        },
        Parsed::Fail => {
            return Parsed::Fail;
        },
    };
    let p4 = match byte(i, q4, 32) {
        Parsed::Match { next, .. } => next,
        Parsed::Incomplete => {
            return Parsed::Incomplete;
        },
        Parsed::Fail => {
            return Parsed::Fail;
        },
    };
    match number(i, p4) {
        Parsed::Match { next, val } => Parsed::Match {
            next,
            val: BodyFields { param, id, desc, enc, octets: val },
        },
        Parsed::Incomplete => Parsed::Incomplete,
        Parsed::Fail => Parsed::Fail,
    }
}

// ------------------------------------------------------------------
// Single-part bodies.
// ------------------------------------------------------------------

/// body-type-basic: `media-basic SP body-fields`.
#[verifier::opaque]
pub open spec fn spec_body_type_basic(s: Seq<u8>, pos: int) -> SpecParsed<BodyTypeBasicView> {
    match spec_media_basic(s, pos) {
        SpecParsed::Incomplete => SpecParsed::Incomplete,
        SpecParsed::Fail => SpecParsed::Fail,
        SpecParsed::Match { next: n1, val: media } => match spec_byte(s, n1, ' ' as u8) {
            SpecParsed::Incomplete => SpecParsed::Incomplete,
            SpecParsed::Fail => SpecParsed::Fail,
            SpecParsed::Match { next: n2, .. } => match spec_body_fields(s, n2) {
                SpecParsed::Match { next, val } => SpecParsed::Match {
                    next,
                    val: BodyTypeBasicView { media, fields: val },
                },
                SpecParsed::Incomplete => SpecParsed::Incomplete,
                SpecParsed::Fail => SpecParsed::Fail,
            },
        },
    }
}

pub fn body_type_basic(i: &[u8], pos: usize) -> (r: Parsed<BodyTypeBasic>)
    requires
        pos <= i@.len(),
    ensures
        parsed_matches(r, spec_body_type_basic(i@, pos as int)),
        in_bounds(r, pos as int, i@.len() as int),
{
    proof {
        reveal(spec_body_type_basic);
    }
    let (n1, media) = match media_basic(i, pos) {
        Parsed::Match { next, val } => (next, val),
        Parsed::Incomplete => {
            return Parsed::Incomplete;
        },
        Parsed::Fail => {
            return Parsed::Fail;
        },
    };
    let n2 = match byte(i, n1, 32) {
        Parsed::Match { next, .. } => next,
        Parsed::Incomplete => {
            return Parsed::Incomplete;
        },
        Parsed::Fail => {
            return Parsed::Fail;
        },
    };
    match body_fields(i, n2) {
        Parsed::Match { next, val } => Parsed::Match {
            next,
            val: BodyTypeBasic { media, fields: val },
        },
        Parsed::Incomplete => Parsed::Incomplete,
        Parsed::Fail => Parsed::Fail,
    }
}

/// body-type-text: `"TEXT" SP subtype SP body-fields SP line-count`.
#[verifier::opaque]
pub open spec fn spec_body_type_text(s: Seq<u8>, pos: int) -> SpecParsed<BodyTypeTextView> {
    match spec_kw(s, pos, "\"TEXT\" "@) {
        SpecParsed::Incomplete => SpecParsed::Incomplete,
        SpecParsed::Fail => SpecParsed::Fail,
        SpecParsed::Match { next: n1, .. } => match spec_string(s, n1) {
            SpecParsed::Incomplete => SpecParsed::Incomplete,
            SpecParsed::Fail => SpecParsed::Fail,
            SpecParsed::Match { next: n2, val: subtype } => match spec_byte(s, n2, ' ' as u8) {
                SpecParsed::Incomplete => SpecParsed::Incomplete,
                SpecParsed::Fail => SpecParsed::Fail,
                SpecParsed::Match { next: n3, .. } => match spec_body_fields(s, n3) {
                    SpecParsed::Incomplete => SpecParsed::Incomplete,
                    SpecParsed::Fail => SpecParsed::Fail,
                    SpecParsed::Match { next: n4, val: fields } => match spec_byte(
                        s,
                        n4,
                        ' ' as u8,
                    ) {
                        SpecParsed::Incomplete => SpecParsed::Incomplete,
                        SpecParsed::Fail => SpecParsed::Fail,
                        SpecParsed::Match { next: n5, .. } => match spec_number(s, n5) {
                            SpecParsed::Match { next, val: lines } => SpecParsed::Match {
                                next,
                                val: BodyTypeTextView { subtype, fields, lines },
                            },
                            SpecParsed::Incomplete => SpecParsed::Incomplete,
                            SpecParsed::Fail => SpecParsed::Fail,
                        },
                    },
                },
            },
        },
    }
}

pub fn body_type_text(i: &[u8], pos: usize) -> (r: Parsed<BodyTypeText>)
    requires
        pos <= i@.len(),
    ensures
        parsed_matches(r, spec_body_type_text(i@, pos as int)),
        in_bounds(r, pos as int, i@.len() as int),
{
    proof {
        reveal(spec_body_type_text);
        reveal_strlit("\"TEXT\" ");
    }
    let n1 = match kw(i, pos, "\"TEXT\" ") {
        Parsed::Match { next, .. } => next,
        Parsed::Incomplete => {
            return Parsed::Incomplete;
        },
        Parsed::Fail => {
            return Parsed::Fail;
        },
    };
    let (n2, subtype) = match string(i, n1) {
        Parsed::Match { next, val } => (next, val),
        Parsed::Incomplete => {
            return Parsed::Incomplete;
        },
        Parsed::Fail => {
            return Parsed::Fail;
        },
    };
    let n3 = match byte(i, n2, 32) {
        Parsed::Match { next, .. } => next,
        Parsed::Incomplete => {
            return Parsed::Incomplete;
        },
        Parsed::Fail => {
            return Parsed::Fail;
        },
    };
    let (n4, fields) = match body_fields(i, n3) {
        Parsed::Match { next, val } => (next, val),
        Parsed::Incomplete => {
            return Parsed::Incomplete;
        },
        Parsed::Fail => {
            return Parsed::Fail;
        },
    };
    let n5 = match byte(i, n4, 32) {
        Parsed::Match { next, .. } => next,
        Parsed::Incomplete => {
            return Parsed::Incomplete;
        },
        Parsed::Fail => {
            return Parsed::Fail;
        },
    };
    match number(i, n5) {
        Parsed::Match { next, val } => Parsed::Match {
            next,
            val: BodyTypeText { subtype, fields, lines: val },
        },
        Parsed::Incomplete => Parsed::Incomplete,
        Parsed::Fail => Parsed::Fail,
    }
}

/// The non-nesting body inside an encapsulated message: a parenthesized
/// text or basic part.
#[verifier::opaque]
pub open spec fn spec_body_leaf(s: Seq<u8>, pos: int) -> SpecParsed<BodyLeafView> {
    match spec_byte(s, pos, '(' as u8) {
        SpecParsed::Incomplete => SpecParsed::Incomplete,
        SpecParsed::Fail => SpecParsed::Fail,
        SpecParsed::Match { next: n1, .. } => {
            let inner = sp_alt(
                match spec_body_type_text(s, n1) {
                    SpecParsed::Match { next, val } => SpecParsed::Match {
                        next,
                        val: BodyLeafView::Text(val),
                    },
                    SpecParsed::Incomplete => SpecParsed::Incomplete,
                    SpecParsed::Fail => SpecParsed::Fail,
                },
                match spec_body_type_basic(s, n1) {
                    SpecParsed::Match { next, val } => SpecParsed::Match {
                        next,
                        val: BodyLeafView::Basic(val),
                    },
                    SpecParsed::Incomplete => SpecParsed::Incomplete,
                    SpecParsed::Fail => SpecParsed::Fail,
                },
            );
            match inner {
                SpecParsed::Incomplete => SpecParsed::Incomplete,
                SpecParsed::Fail => SpecParsed::Fail,
                SpecParsed::Match { next: n2, val } => match spec_byte(s, n2, ')' as u8) {
                    SpecParsed::Match { next, .. } => SpecParsed::Match { next, val },
                    SpecParsed::Incomplete => SpecParsed::Incomplete,
                    SpecParsed::Fail => SpecParsed::Fail,
                },
            }
        },
    }
}

pub fn body_leaf(i: &[u8], pos: usize) -> (r: Parsed<BodyLeaf>)
    requires
        pos <= i@.len(),
    ensures
        parsed_matches(r, spec_body_leaf(i@, pos as int)),
        in_bounds(r, pos as int, i@.len() as int),
{
    proof {
        reveal(spec_body_leaf);
    }
    let n1 = match byte(i, pos, 40) {
        Parsed::Match { next, .. } => next,
        Parsed::Incomplete => {
            return Parsed::Incomplete;
        },
        Parsed::Fail => {
            return Parsed::Fail;
        },
    };
    let inner = match body_type_text(i, n1) {
        Parsed::Match { next, val } => Parsed::Match { next, val: BodyLeaf::Text(val) },
        Parsed::Incomplete => Parsed::Incomplete,
        Parsed::Fail => match body_type_basic(i, n1) {
            Parsed::Match { next, val } => Parsed::Match { next, val: BodyLeaf::Basic(val) },
            Parsed::Incomplete => Parsed::Incomplete,
            Parsed::Fail => Parsed::Fail,
        },
    };
    let (n2, val) = match inner {
        Parsed::Match { next, val } => (next, val),
        Parsed::Incomplete => {
            return Parsed::Incomplete;
        },
        Parsed::Fail => {
            return Parsed::Fail;
        },
    };
    match byte(i, n2, 41) {
        Parsed::Match { next, .. } => Parsed::Match { next, val },
        Parsed::Incomplete => Parsed::Incomplete,
        Parsed::Fail => Parsed::Fail,
    }
}

/// body-type-msg: an encapsulated `MESSAGE/RFC822` part with its
/// envelope, one non-nesting inner body and a line count.
#[verifier::opaque]
pub open spec fn spec_body_type_msg(s: Seq<u8>, pos: int) -> SpecParsed<BodyTypeMsgView> {
    match spec_kw(s, pos, "\"MESSAGE\" \"RFC822\" "@) {
        SpecParsed::Incomplete => SpecParsed::Incomplete,
        SpecParsed::Fail => SpecParsed::Fail,
        SpecParsed::Match { next: n1, .. } => match spec_body_fields(s, n1) {
            SpecParsed::Incomplete => SpecParsed::Incomplete,
            SpecParsed::Fail => SpecParsed::Fail,
            SpecParsed::Match { next: n2, val: fields } => match spec_byte(s, n2, ' ' as u8) {
                SpecParsed::Incomplete => SpecParsed::Incomplete,
                SpecParsed::Fail => SpecParsed::Fail,
                SpecParsed::Match { next: n3, .. } => match spec_envelope(s, n3) {
                    SpecParsed::Incomplete => SpecParsed::Incomplete,
                    SpecParsed::Fail => SpecParsed::Fail,
                    SpecParsed::Match { next: n4, val: env } => match spec_byte(
                        s,
                        n4,
                        ' ' as u8,
                    ) {
                        SpecParsed::Incomplete => SpecParsed::Incomplete,
                        SpecParsed::Fail => SpecParsed::Fail,
                        SpecParsed::Match { next: n5, .. } => match spec_body_leaf(s, n5) {
                            SpecParsed::Incomplete => SpecParsed::Incomplete,
                            SpecParsed::Fail => SpecParsed::Fail,
                            SpecParsed::Match { next: n6, val: inner } => match spec_byte(
                                s,
                                n6,
                                ' ' as u8,
                            ) {
                                SpecParsed::Incomplete => SpecParsed::Incomplete,
                                SpecParsed::Fail => SpecParsed::Fail,
                                SpecParsed::Match { next: n7, .. } => match spec_number(
                                    s,
                                    n7,
                                ) {
                                    SpecParsed::Match { next, val: lines } => SpecParsed::Match {
                                        next,
                                        val: BodyTypeMsgView {
                                            fields,
                                            envelope: env,
                                            body: inner,
                                            lines,
                                        },
                                    },
                                    SpecParsed::Incomplete => SpecParsed::Incomplete,
                                    SpecParsed::Fail => SpecParsed::Fail,
                                },
                            },
                        },
                    },
                },
            },
        },
    }
}

#[verifier::rlimit(100)]
pub fn body_type_msg(i: &[u8], pos: usize) -> (r: Parsed<BodyTypeMsg>)
    requires
        pos <= i@.len(),
    ensures
        parsed_matches(r, spec_body_type_msg(i@, pos as int)),
        in_bounds(r, pos as int, i@.len() as int),
{
    proof {
        reveal(spec_body_type_msg);
        reveal_strlit("\"MESSAGE\" \"RFC822\" ");
    }
    let n1 = match kw(i, pos, "\"MESSAGE\" \"RFC822\" ") {
        Parsed::Match { next, .. } => next,
        Parsed::Incomplete => {
            return Parsed::Incomplete;
        },
        Parsed::Fail => {
            return Parsed::Fail;
        },
    };
    let (n2, fields) = match body_fields(i, n1) {
        Parsed::Match { next, val } => (next, val),
        Parsed::Incomplete => {
            return Parsed::Incomplete;
        },
        Parsed::Fail => {
            return Parsed::Fail;
        },
    };
    let n3 = match byte(i, n2, 32) {
        Parsed::Match { next, .. } => next,
        Parsed::Incomplete => {
            return Parsed::Incomplete;
        },
        Parsed::Fail => {
            return Parsed::Fail;
        },
    };
    let (n4, env) = match envelope(i, n3) {
        Parsed::Match { next, val } => (next, val),
        Parsed::Incomplete => {
            return Parsed::Incomplete;
        },
        Parsed::Fail => {
            return Parsed::Fail;
        },
    };
    let n5 = match byte(i, n4, 32) {
        Parsed::Match { next, .. } => next,
        Parsed::Incomplete => {
            return Parsed::Incomplete;
        },
        Parsed::Fail => {
            return Parsed::Fail;
        },
    };
    let (n6, inner) = match body_leaf(i, n5) {
        Parsed::Match { next, val } => (next, val),
        Parsed::Incomplete => {
            return Parsed::Incomplete;
        },
        Parsed::Fail => {
            return Parsed::Fail;
        },
    };
    let n7 = match byte(i, n6, 32) {
        Parsed::Match { next, .. } => next,
        Parsed::Incomplete => {
            return Parsed::Incomplete;
        },
        Parsed::Fail => {
            return Parsed::Fail;
        },
    };
    match number(i, n7) {
        Parsed::Match { next, val } => Parsed::Match {
            next,
            val: BodyTypeMsg { fields, envelope: env, body: inner, lines: val },
        },
        Parsed::Incomplete => Parsed::Incomplete,
        Parsed::Fail => Parsed::Fail,
    }
}

/// body-type-1part: an encapsulated message, a text part, or a basic
/// part. The message and text forms come first, since a basic part is a
/// prefix of both.
pub open spec fn spec_body_type_1part(s: Seq<u8>, pos: int) -> SpecParsed<BodyView> {
    sp_alt(
        match spec_body_type_msg(s, pos) {
            SpecParsed::Match { next, val } => SpecParsed::Match {
                next,
                val: BodyView::Msg(val),
            },
            SpecParsed::Incomplete => SpecParsed::Incomplete,
            SpecParsed::Fail => SpecParsed::Fail,
        },
        sp_alt(
            match spec_body_type_text(s, pos) {
                SpecParsed::Match { next, val } => SpecParsed::Match {
                    next,
                    val: BodyView::Text(val),
                },
                SpecParsed::Incomplete => SpecParsed::Incomplete,
                SpecParsed::Fail => SpecParsed::Fail,
            },
            match spec_body_type_basic(s, pos) {
                SpecParsed::Match { next, val } => SpecParsed::Match {
                    next,
                    val: BodyView::Basic(val),
                },
                SpecParsed::Incomplete => SpecParsed::Incomplete,
                SpecParsed::Fail => SpecParsed::Fail,
            },
        ),
    )
}

pub fn body_type_1part(i: &[u8], pos: usize) -> (r: Parsed<Body>)
    requires
        pos <= i@.len(),
    ensures
        parsed_matches(r, spec_body_type_1part(i@, pos as int)),
        in_bounds(r, pos as int, i@.len() as int),
{
    match body_type_msg(i, pos) {
        Parsed::Match { next, val } => {
            return Parsed::Match { next, val: Body::Msg(val) };
        },
        Parsed::Incomplete => {
            return Parsed::Incomplete;
        },
        Parsed::Fail => {},
    }
    match body_type_text(i, pos) {
        Parsed::Match { next, val } => {
            return Parsed::Match { next, val: Body::Text(val) };
        },
        Parsed::Incomplete => {
            return Parsed::Incomplete;
        },
        Parsed::Fail => {},
    }
    match body_type_basic(i, pos) {
        Parsed::Match { next, val } => Parsed::Match { next, val: Body::Basic(val) },
        Parsed::Incomplete => Parsed::Incomplete,
        Parsed::Fail => Parsed::Fail,
    }
}

/// body: `( body-type-1part )`.
pub open spec fn spec_body(s: Seq<u8>, pos: int) -> SpecParsed<BodyView> {
    match spec_byte(s, pos, '(' as u8) {
        SpecParsed::Incomplete => SpecParsed::Incomplete,
        SpecParsed::Fail => SpecParsed::Fail,
        SpecParsed::Match { next: n1, .. } => match spec_body_type_1part(s, n1) {
            SpecParsed::Incomplete => SpecParsed::Incomplete,
            SpecParsed::Fail => SpecParsed::Fail,
            SpecParsed::Match { next: n2, val } => match spec_byte(s, n2, ')' as u8) {
                SpecParsed::Match { next, .. } => SpecParsed::Match { next, val },
                SpecParsed::Incomplete => SpecParsed::Incomplete,
                SpecParsed::Fail => SpecParsed::Fail,
            },
        },
    }
}

pub fn body(i: &[u8], pos: usize) -> (r: Parsed<Body>)
    requires
        pos <= i@.len(),
    ensures
        parsed_matches(r, spec_body(i@, pos as int)),
        in_bounds(r, pos as int, i@.len() as int),
{
    let n1 = match byte(i, pos, 40) {
        Parsed::Match { next, .. } => next,
        Parsed::Incomplete => {
            return Parsed::Incomplete;
        },
        Parsed::Fail => {
            return Parsed::Fail;
        },
    };
    let (n2, val) = match body_type_1part(i, n1) {
        Parsed::Match { next, val } => (next, val),
        Parsed::Incomplete => {
            return Parsed::Incomplete;
        },
        Parsed::Fail => {
            return Parsed::Fail;
        },
    };
    match byte(i, n2, 41) {
        Parsed::Match { next, .. } => Parsed::Match { next, val },
        Parsed::Incomplete => Parsed::Incomplete,
        Parsed::Fail => Parsed::Fail,
    }
}

} // verus!
