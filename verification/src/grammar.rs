//! Status-line grammar of RFC 3501: tags, flags, capabilities,
//! resp-text with its bracketed codes, and the framed top-level units
//! (greeting, continuation request, tagged response).
//!
//! Keyword comparisons throughout are case-insensitive.

use vstd::prelude::*;
use crate::lex::{
    spec_is_astring_char, spec_number, spec_nz_number, spec_atom, spec_astring, spec_text,
    spec_fold_eq, spec_byte, spec_kw, spec_crlf, spec_class_run1, spec_base64, ByteClass,
    is_astring_char, number, nz_number, atom, astring, text, fold_eq, byte, kw, crlf,
    class_run1, base64,
};
use crate::parser::{
    Parsed, SpecParsed, parsed_matches, in_bounds, sp_prepend, sp_alt, lemma_prepend_step,
    lemma_prepend_empty, lemma_prepend_nil, lemma_bytes_deep_view,
};
use crate::tag::Tag;
use crate::types::{
    Flag, FlagView, DefinedFlag, Capability, CapabilityView, RespTextCode, RespTextCodeView,
    RespText, RespTextView, RespCond, RespCondView, ImapResult, ByeResponse, ByeResponseView,
    GreetingStatus, GreetingStatusView, Greeting, GreetingView, ContinueReq, ContinueReqView,
    TaggedResponse, TaggedResponseView,
};

verus! {

broadcast use lemma_bytes_deep_view;

// ------------------------------------------------------------------
// Tags.
// ------------------------------------------------------------------

/// tag: one ASTRING-CHAR prefix followed by the decimal sequence number.
/// This engine generates its own tags in that shape and decodes the echo.
pub open spec fn spec_imap_tag(s: Seq<u8>, pos: int) -> SpecParsed<Tag> {
    if pos >= s.len() {
        SpecParsed::Incomplete
    } else if !spec_is_astring_char(s[pos]) {
        SpecParsed::Fail
    } else {
        match spec_number(s, pos + 1) {
            SpecParsed::Match { next, val } => SpecParsed::Match {
                next,
                val: Tag { prefix: s[pos] as char, sequence: val },
            },
            SpecParsed::Incomplete => SpecParsed::Incomplete,
            SpecParsed::Fail => SpecParsed::Fail,
        }
    }
}

pub fn imap_tag(i: &[u8], pos: usize) -> (r: Parsed<Tag>)
    requires
        pos <= i@.len(),
    ensures
        parsed_matches(r, spec_imap_tag(i@, pos as int)),
        in_bounds(r, pos as int, i@.len() as int),
{
    if pos >= i.len() {
        return Parsed::Incomplete;
    }
    if !is_astring_char(i[pos]) {
        return Parsed::Fail;
    }
    match number(i, pos + 1) {
        Parsed::Match { next, val } => Parsed::Match {
            next,
            val: Tag { prefix: i[pos] as char, sequence: val },
        },
        Parsed::Incomplete => Parsed::Incomplete,
        Parsed::Fail => Parsed::Fail,
    }
}

// ------------------------------------------------------------------
// Flags.
// ------------------------------------------------------------------

/// Sorts a backslash-prefixed flag atom into the defined flags or an
/// extension, comparing case-insensitively.
pub open spec fn spec_classify_flag(a: Seq<u8>) -> FlagView {
    if spec_fold_eq(a, "Seen"@) {
        FlagView::Defined(DefinedFlag::Seen)
    } else if spec_fold_eq(a, "Answered"@) {
        FlagView::Defined(DefinedFlag::Answered)
    } else if spec_fold_eq(a, "Flagged"@) {
        FlagView::Defined(DefinedFlag::Flagged)
    } else if spec_fold_eq(a, "Deleted"@) {
        FlagView::Defined(DefinedFlag::Deleted)
    } else if spec_fold_eq(a, "Draft"@) {
        FlagView::Defined(DefinedFlag::Draft)
    } else if spec_fold_eq(a, "Recent"@) {
        FlagView::Defined(DefinedFlag::Recent)
    } else {
        FlagView::Extension(a)
    }
}

fn classify_flag(a: Vec<u8>) -> (r: Flag)
    ensures
        r.deep_view() == spec_classify_flag(a@),
{
    proof {
        reveal_strlit("Seen");
        reveal_strlit("Answered");
        reveal_strlit("Flagged");
        reveal_strlit("Deleted");
        reveal_strlit("Draft");
        reveal_strlit("Recent");
    }
    if fold_eq(a.as_slice(), "Seen") {
        Flag::Defined(DefinedFlag::Seen)
    } else if fold_eq(a.as_slice(), "Answered") {
        Flag::Defined(DefinedFlag::Answered)
    } else if fold_eq(a.as_slice(), "Flagged") {
        Flag::Defined(DefinedFlag::Flagged)
    } else if fold_eq(a.as_slice(), "Deleted") {
        Flag::Defined(DefinedFlag::Deleted)
    } else if fold_eq(a.as_slice(), "Draft") {
        Flag::Defined(DefinedFlag::Draft)
    } else if fold_eq(a.as_slice(), "Recent") {
        Flag::Defined(DefinedFlag::Recent)
    } else {
        Flag::Extension(a)
    }
}

/// flag: a backslash-prefixed defined or extension flag, or a keyword
/// atom without prefix.
pub open spec fn spec_flag(s: Seq<u8>, pos: int) -> SpecParsed<FlagView> {
    if pos >= s.len() {
        SpecParsed::Incomplete
    } else if s[pos] == ('\\' as u8) {
        match spec_atom(s, pos + 1) {
            SpecParsed::Match { next, val } => SpecParsed::Match {
                next,
                val: spec_classify_flag(val),
            },
            SpecParsed::Incomplete => SpecParsed::Incomplete,
            SpecParsed::Fail => SpecParsed::Fail,
        }
    } else {
        match spec_atom(s, pos) {
            SpecParsed::Match { next, val } => SpecParsed::Match {
                next,
                val: FlagView::Keyword(val),
            },
            SpecParsed::Incomplete => SpecParsed::Incomplete,
            SpecParsed::Fail => SpecParsed::Fail,
        }
    }
}

pub fn flag(i: &[u8], pos: usize) -> (r: Parsed<Flag>)
    requires
        pos <= i@.len(),
    ensures
        parsed_matches(r, spec_flag(i@, pos as int)),
        in_bounds(r, pos as int, i@.len() as int),
{
    if pos >= i.len() {
        return Parsed::Incomplete;
    }
    if i[pos] == 92 {
        match atom(i, pos + 1) {
            Parsed::Match { next, val } => Parsed::Match { next, val: classify_flag(val) },
            Parsed::Incomplete => Parsed::Incomplete,
            Parsed::Fail => Parsed::Fail,
        }
    } else {
        match atom(i, pos) {
            Parsed::Match { next, val } => Parsed::Match { next, val: Flag::Keyword(val) },
            Parsed::Incomplete => Parsed::Incomplete,
            Parsed::Fail => Parsed::Fail,
        }
    }
}

/// flag-perm: a flag or the `\*` marker inside `PERMANENTFLAGS`.
pub open spec fn spec_flag_perm(s: Seq<u8>, pos: int) -> SpecParsed<FlagView> {
    if pos >= s.len() {
        SpecParsed::Incomplete
    } else if s[pos] == ('\\' as u8) {
        if pos + 1 >= s.len() {
            SpecParsed::Incomplete
        } else if s[pos + 1] == ('*' as u8) {
            SpecParsed::Match { next: pos + 2, val: FlagView::Perm }
        } else {
            spec_flag(s, pos)
        }
    } else {
        spec_flag(s, pos)
    }
}

pub fn flag_perm(i: &[u8], pos: usize) -> (r: Parsed<Flag>)
    requires
        pos <= i@.len(),
    ensures
        parsed_matches(r, spec_flag_perm(i@, pos as int)),
        in_bounds(r, pos as int, i@.len() as int),
{
    if pos >= i.len() {
        return Parsed::Incomplete;
    }
    if i[pos] == 92 {
        if pos + 1 >= i.len() {
            return Parsed::Incomplete;
        }
        if i[pos + 1] == 42 {
            return Parsed::Match { next: pos + 2, val: Flag::Perm };
        }
    }
    flag(i, pos)
}

/// The item of a flag list: `flag`, or `flag-perm` inside
/// `PERMANENTFLAGS`.
pub open spec fn spec_flag_item(s: Seq<u8>, pos: int, perm: bool) -> SpecParsed<FlagView> {
    if perm {
        spec_flag_perm(s, pos)
    } else {
        spec_flag(s, pos)
    }
}

/// `*(SP item)`: the space-separated continuation of a flag list. A
/// missing separator or a failing item ends the list before it.
pub open spec fn spec_flags_rest(s: Seq<u8>, pos: int, perm: bool) -> SpecParsed<
    Seq<FlagView>,
>
    decreases s.len() - pos,
{
    if pos < 0 || pos >= s.len() {
        SpecParsed::Incomplete
    } else if s[pos] != (' ' as u8) {
        SpecParsed::Match { next: pos, val: Seq::empty() }
    } else {
        match spec_flag_item(s, pos + 1, perm) {
            SpecParsed::Incomplete => SpecParsed::Incomplete,
            SpecParsed::Fail => SpecParsed::Match { next: pos, val: Seq::empty() },
            SpecParsed::Match { next, val } => if next <= pos || next > s.len() {
                SpecParsed::Match { next: pos, val: Seq::empty() }
            } else {
                sp_prepend(seq![val], spec_flags_rest(s, next, perm))
            },
        }
    }
}

/// `[item *(SP item)]`: a possibly empty space-separated flag list.
pub open spec fn spec_flags_sep0(s: Seq<u8>, pos: int, perm: bool) -> SpecParsed<
    Seq<FlagView>,
> {
    match spec_flag_item(s, pos, perm) {
        SpecParsed::Incomplete => SpecParsed::Incomplete,
        SpecParsed::Fail => SpecParsed::Match { next: pos, val: Seq::empty() },
        SpecParsed::Match { next, val } => sp_prepend(seq![val], spec_flags_rest(s, next, perm)),
    }
}

#[verifier::loop_isolation(false)]
pub fn flags_sep0(i: &[u8], pos: usize, perm: bool) -> (r: Parsed<Vec<Flag>>)
    requires
        pos <= i@.len(),
    ensures
        parsed_matches(r, spec_flags_sep0(i@, pos as int, perm)),
        in_bounds(r, pos as int, i@.len() as int),
{
    let first = if perm {
        flag_perm(i, pos)
    } else {
        flag(i, pos)
    };
    let mut acc: Vec<Flag> = Vec::new();
    let mut cur: usize;
    match first {
        Parsed::Incomplete => {
            return Parsed::Incomplete;
        },
        Parsed::Fail => {
            proof {
                assert(acc.deep_view() =~= Seq::<FlagView>::empty());
            }
            return Parsed::Match { next: pos, val: acc };
        },
        Parsed::Match { next, val } => {
            let ghost vd = val.deep_view();
            acc.push(val);
            cur = next;
            proof {
                assert(acc.deep_view() =~= seq![vd]);
            }
        },
    }
    loop
        invariant
            pos <= cur <= i@.len(),
            spec_flags_sep0(i@, pos as int, perm) == sp_prepend(
                acc.deep_view(),
                spec_flags_rest(i@, cur as int, perm),
            ),
        decreases i@.len() - cur,
    {
        if cur >= i.len() {
            return Parsed::Incomplete;
        }
        if i[cur] != 32 {
            proof {
                lemma_prepend_empty(acc.deep_view(), cur as int);
            }
            return Parsed::Match { next: cur, val: acc };
        }
        let it = if perm {
            flag_perm(i, cur + 1)
        } else {
            flag(i, cur + 1)
        };
        match it {
            Parsed::Incomplete => {
                return Parsed::Incomplete;
            },
            Parsed::Fail => {
                proof {
                    lemma_prepend_empty(acc.deep_view(), cur as int);
                }
                return Parsed::Match { next: cur, val: acc };
            },
            Parsed::Match { next, val } => {
                let ghost a0 = acc.deep_view();
                let ghost vd = val.deep_view();
                acc.push(val);
                proof {
                    assert(acc.deep_view() =~= a0.push(vd));
                    lemma_prepend_step(a0, vd, spec_flags_rest(i@, next as int, perm));
                }
                cur = next;
            },
        }
    }
}

/// flag-list: a parenthesized, space-separated, possibly empty flag list.
pub open spec fn spec_flag_list(s: Seq<u8>, pos: int) -> SpecParsed<Seq<FlagView>> {
    match spec_byte(s, pos, '(' as u8) {
        SpecParsed::Incomplete => SpecParsed::Incomplete,
        SpecParsed::Fail => SpecParsed::Fail,
        SpecParsed::Match { next: p1, .. } => match spec_flags_sep0(s, p1, false) {
            SpecParsed::Incomplete => SpecParsed::Incomplete,
            SpecParsed::Fail => SpecParsed::Fail,
            SpecParsed::Match { next: p2, val } => match spec_byte(s, p2, ')' as u8) {
                SpecParsed::Incomplete => SpecParsed::Incomplete,
                SpecParsed::Fail => SpecParsed::Fail,
                SpecParsed::Match { next: p3, .. } => SpecParsed::Match { next: p3, val },
            },
        },
    }
}

pub fn flag_list(i: &[u8], pos: usize) -> (r: Parsed<Vec<Flag>>)
    requires
        pos <= i@.len(),
    ensures
        parsed_matches(r, spec_flag_list(i@, pos as int)),
        in_bounds(r, pos as int, i@.len() as int),
{
    let p1 = match byte(i, pos, 40) {
        Parsed::Match { next, .. } => next,
        Parsed::Incomplete => { return Parsed::Incomplete; },
        Parsed::Fail => { return Parsed::Fail; },
    };
    let (p2, val) = match flags_sep0(i, p1, false) {
        Parsed::Match { next, val } => (next, val),
        Parsed::Incomplete => { return Parsed::Incomplete; },
        Parsed::Fail => { return Parsed::Fail; },
    };
    match byte(i, p2, 41) {
        Parsed::Match { next, .. } => Parsed::Match { next, val },
        Parsed::Incomplete => Parsed::Incomplete,
        Parsed::Fail => Parsed::Fail,
    }
}

// ------------------------------------------------------------------
// Capabilities.
// ------------------------------------------------------------------

/// A capability that is not an `AUTH=` mechanism: a bare atom.
pub open spec fn spec_cap_other(s: Seq<u8>, pos: int) -> SpecParsed<CapabilityView> {
    match spec_atom(s, pos) {
        SpecParsed::Match { next, val } => SpecParsed::Match {
            next,
            val: CapabilityView::Other(val),
        },
        SpecParsed::Incomplete => SpecParsed::Incomplete,
        SpecParsed::Fail => SpecParsed::Fail,
    }
}

/// capability: an `AUTH=` mechanism name, or any other capability atom.
pub open spec fn spec_capability(s: Seq<u8>, pos: int) -> SpecParsed<CapabilityView> {
    match spec_kw(s, pos, "AUTH="@) {
        SpecParsed::Incomplete => SpecParsed::Incomplete,
        SpecParsed::Match { next: n1, .. } => match spec_atom(s, n1) {
            SpecParsed::Match { next, val } => SpecParsed::Match {
                next,
                val: CapabilityView::Auth(val),
            },
            SpecParsed::Incomplete => SpecParsed::Incomplete,
            SpecParsed::Fail => spec_cap_other(s, pos),
        },
        SpecParsed::Fail => spec_cap_other(s, pos),
    }
}

pub fn capability(i: &[u8], pos: usize) -> (r: Parsed<Capability>)
    requires
        pos <= i@.len(),
    ensures
        parsed_matches(r, spec_capability(i@, pos as int)),
        in_bounds(r, pos as int, i@.len() as int),
{
    proof {
        reveal_strlit("AUTH=");
    }
    match kw(i, pos, "AUTH=") {
        Parsed::Incomplete => {
            return Parsed::Incomplete;
        },
        Parsed::Match { next: n1, .. } => {
            match atom(i, n1) {
                Parsed::Match { next, val } => {
                    return Parsed::Match { next, val: Capability::Auth(val) };
                },
                Parsed::Incomplete => {
                    return Parsed::Incomplete;
                },
                Parsed::Fail => {},
            }
        },
        Parsed::Fail => {},
    }
    match atom(i, pos) {
        Parsed::Match { next, val } => Parsed::Match { next, val: Capability::Other(val) },
        Parsed::Incomplete => Parsed::Incomplete,
        Parsed::Fail => Parsed::Fail,
    }
}

/// `*(SP capability)`: the space-separated run of capability atoms.
pub open spec fn spec_caps_rest(s: Seq<u8>, pos: int) -> SpecParsed<Seq<CapabilityView>>
    decreases s.len() - pos,
{
    if pos < 0 || pos >= s.len() {
        SpecParsed::Incomplete
    } else if s[pos] != (' ' as u8) {
        SpecParsed::Match { next: pos, val: Seq::empty() }
    } else {
        match spec_capability(s, pos + 1) {
            SpecParsed::Incomplete => SpecParsed::Incomplete,
            SpecParsed::Fail => SpecParsed::Match { next: pos, val: Seq::empty() },
            SpecParsed::Match { next, val } => if next <= pos || next > s.len() {
                SpecParsed::Match { next: pos, val: Seq::empty() }
            } else {
                sp_prepend(seq![val], spec_caps_rest(s, next))
            },
        }
    }
}

/// capability-data: the word `CAPABILITY` followed by at least one
/// space-prefixed capability.
pub open spec fn spec_capability_data(s: Seq<u8>, pos: int) -> SpecParsed<
    Seq<CapabilityView>,
> {
    match spec_kw(s, pos, "CAPABILITY"@) {
        SpecParsed::Incomplete => SpecParsed::Incomplete,
        SpecParsed::Fail => SpecParsed::Fail,
        SpecParsed::Match { next: n1, .. } => match spec_caps_rest(s, n1) {
            SpecParsed::Incomplete => SpecParsed::Incomplete,
            SpecParsed::Fail => SpecParsed::Fail,
            SpecParsed::Match { next, val } => if val.len() == 0 {
                SpecParsed::Fail
            } else {
                SpecParsed::Match { next, val }
            },
        },
    }
}

#[verifier::loop_isolation(false)]
fn caps_rest(i: &[u8], pos: usize) -> (r: Parsed<Vec<Capability>>)
    requires
        pos <= i@.len(),
    ensures
        parsed_matches(r, spec_caps_rest(i@, pos as int)),
        in_bounds(r, pos as int, i@.len() as int),
{
    let mut acc: Vec<Capability> = Vec::new();
    let mut cur: usize = pos;
    proof {
        assert(acc.deep_view() =~= Seq::<CapabilityView>::empty());
        lemma_prepend_nil(spec_caps_rest(i@, pos as int));
    }
    loop
        invariant
            pos <= cur <= i@.len(),
            spec_caps_rest(i@, pos as int) == sp_prepend(
                acc.deep_view(),
                spec_caps_rest(i@, cur as int),
            ),
        decreases i@.len() - cur,
    {
        if cur >= i.len() {
            return Parsed::Incomplete;
        }
        if i[cur] != 32 {
            proof {
                lemma_prepend_empty(acc.deep_view(), cur as int);
            }
            return Parsed::Match { next: cur, val: acc };
        }
        match capability(i, cur + 1) {
            Parsed::Incomplete => {
                return Parsed::Incomplete;
            },
            Parsed::Fail => {
                proof {
                    lemma_prepend_empty(acc.deep_view(), cur as int);
                }
                return Parsed::Match { next: cur, val: acc };
            },
            Parsed::Match { next, val } => {
                let ghost a0 = acc.deep_view();
                let ghost vd = val.deep_view();
                acc.push(val);
                proof {
                    assert(acc.deep_view() =~= a0.push(vd));
                    lemma_prepend_step(a0, vd, spec_caps_rest(i@, next as int));
                }
                cur = next;
            },
        }
    }
}

pub fn capability_data(i: &[u8], pos: usize) -> (r: Parsed<Vec<Capability>>)
    requires
        pos <= i@.len(),
    ensures
        parsed_matches(r, spec_capability_data(i@, pos as int)),
        in_bounds(r, pos as int, i@.len() as int),
{
    proof {
        reveal_strlit("CAPABILITY");
    }
    let n1 = match kw(i, pos, "CAPABILITY") {
        Parsed::Match { next, .. } => next,
        Parsed::Incomplete => {
            return Parsed::Incomplete;
        },
        Parsed::Fail => {
            return Parsed::Fail;
        },
    };
    match caps_rest(i, n1) {
        Parsed::Match { next, val } => {
            if val.len() == 0 {
                return Parsed::Fail;
            }
            Parsed::Match { next, val }
        },
        Parsed::Incomplete => Parsed::Incomplete,
        Parsed::Fail => Parsed::Fail,
    }
}

// ------------------------------------------------------------------
// resp-text-code branches. A code is recognised by its whole bracketed
// atom, compared case-insensitively: an unknown atom, even one that
// merely begins with a defined word, is kept as an opaque extension and
// never mistaken for the defined code (mandatory forward compatibility).
// ------------------------------------------------------------------

/// The astrings of a `BADCHARSET` list, each followed by an optional
/// space.
pub open spec fn spec_bc_items(s: Seq<u8>, pos: int) -> SpecParsed<Seq<Seq<u8>>>
    decreases s.len() - pos,
{
    if pos < 0 || pos > s.len() {
        SpecParsed::Fail
    } else {
        match spec_astring(s, pos) {
            SpecParsed::Incomplete => SpecParsed::Incomplete,
            SpecParsed::Fail => SpecParsed::Match { next: pos, val: Seq::empty() },
            SpecParsed::Match { next: n, val: v } => if n <= pos || n > s.len() {
                SpecParsed::Match { next: pos, val: Seq::empty() }
            } else if n == s.len() {
                SpecParsed::Incomplete
            } else {
                if s[n] == (' ' as u8) {
                    sp_prepend(seq![v], spec_bc_items(s, n + 1))
                } else {
                    sp_prepend(seq![v], spec_bc_items(s, n))
                }
            },
        }
    }
}

#[verifier::loop_isolation(false)]
fn bc_items(i: &[u8], pos: usize) -> (r: Parsed<Vec<Vec<u8>>>)
    requires
        pos <= i@.len(),
    ensures
        parsed_matches(r, spec_bc_items(i@, pos as int)),
        in_bounds(r, pos as int, i@.len() as int),
{
    let mut acc: Vec<Vec<u8>> = Vec::new();
    let mut cur: usize = pos;
    proof {
        assert(acc.deep_view() =~= Seq::<Seq<u8>>::empty());
        lemma_prepend_nil(spec_bc_items(i@, pos as int));
    }
    loop
        invariant
            pos <= cur <= i@.len(),
            spec_bc_items(i@, pos as int) == sp_prepend(
                acc.deep_view(),
                spec_bc_items(i@, cur as int),
            ),
        decreases i@.len() - cur,
    {
        match astring(i, cur) {
            Parsed::Incomplete => {
                return Parsed::Incomplete;
            },
            Parsed::Fail => {
                proof {
                    lemma_prepend_empty(acc.deep_view(), cur as int);
                }
                return Parsed::Match { next: cur, val: acc };
            },
            Parsed::Match { next, val } => {
                if next == i.len() {
                    return Parsed::Incomplete;
                }
                let n2 = if i[next] == 32 {
                    next + 1
                } else {
                    next
                };
                let ghost a0 = acc.deep_view();
                let ghost vd = val.deep_view();
                acc.push(val);
                proof {
                    assert(acc.deep_view() =~= a0.push(vd));
                    lemma_prepend_step(a0, vd, spec_bc_items(i@, n2 as int));
                }
                cur = n2;
            },
        }
    }
}

/// The optional remainder of an opaque extension code after its atom:
/// `[SP 1*<TEXT-CHAR except "]">]`.
pub open spec fn spec_opaque_code_tail(s: Seq<u8>, n: int, a: Seq<u8>) -> SpecParsed<
    RespTextCodeView,
> {
    if n >= s.len() {
        SpecParsed::Incomplete
    } else if s[n] == (' ' as u8) {
        match spec_class_run1(s, n + 1, ByteClass::TextNoBracket) {
            SpecParsed::Match { next, val } => SpecParsed::Match {
                next,
                val: RespTextCodeView::Other(a, Some(val)),
            },
            SpecParsed::Incomplete => SpecParsed::Incomplete,
            SpecParsed::Fail => SpecParsed::Match {
                next: n,
                val: RespTextCodeView::Other(a, None),
            },
        }
    } else {
        SpecParsed::Match { next: n, val: RespTextCodeView::Other(a, None) }
    }
}

fn opaque_code_tail(i: &[u8], n: usize, a: Vec<u8>) -> (r: Parsed<RespTextCode>)
    requires
        n <= i@.len(),
    ensures
        parsed_matches(r, spec_opaque_code_tail(i@, n as int, a@)),
        in_bounds(r, n as int, i@.len() as int),
{
    if n >= i.len() {
        return Parsed::Incomplete;
    }
    if i[n] == 32 {
        match class_run1(i, n + 1, ByteClass::TextNoBracket) {
            Parsed::Match { next, val } => Parsed::Match {
                next,
                val: RespTextCode::Other(a, Some(val)),
            },
            Parsed::Incomplete => Parsed::Incomplete,
            Parsed::Fail => Parsed::Match { next: n, val: RespTextCode::Other(a, None) },
        }
    } else {
        Parsed::Match { next: n, val: RespTextCode::Other(a, None) }
    }
}

/// `BADCHARSET`'s optional charset list: `[SP ( astring *(SP astring) )]`.
/// A missing or malformed list leaves the bare code with no charsets.
pub open spec fn spec_bad_charset_tail(s: Seq<u8>, n: int) -> SpecParsed<RespTextCodeView> {
    match spec_kw(s, n, " ("@) {
        SpecParsed::Incomplete => SpecParsed::Incomplete,
        SpecParsed::Fail => SpecParsed::Match {
            next: n,
            val: RespTextCodeView::BadCharset(Seq::empty()),
        },
        SpecParsed::Match { next: n2, .. } => match spec_bc_items(s, n2) {
            SpecParsed::Incomplete => SpecParsed::Incomplete,
            SpecParsed::Fail => SpecParsed::Fail,
            SpecParsed::Match { next: n3, val } => if val.len() == 0 {
                SpecParsed::Match {
                    next: n,
                    val: RespTextCodeView::BadCharset(Seq::empty()),
                }
            } else {
                match spec_byte(s, n3, ')' as u8) {
                    SpecParsed::Incomplete => SpecParsed::Incomplete,
                    SpecParsed::Fail => SpecParsed::Match {
                        next: n,
                        val: RespTextCodeView::BadCharset(Seq::empty()),
                    },
                    SpecParsed::Match { next: n4, .. } => SpecParsed::Match {
                        next: n4,
                        val: RespTextCodeView::BadCharset(val),
                    },
                }
            },
        },
    }
}

fn bad_charset_tail(i: &[u8], n: usize) -> (r: Parsed<RespTextCode>)
    requires
        n <= i@.len(),
    ensures
        parsed_matches(r, spec_bad_charset_tail(i@, n as int)),
        in_bounds(r, n as int, i@.len() as int),
{
    proof {
        reveal_strlit(" (");
    }
    let ghost emptyv = Seq::<Seq<u8>>::empty();
    let n2 = match kw(i, n, " (") {
        Parsed::Match { next, .. } => next,
        Parsed::Incomplete => {
            return Parsed::Incomplete;
        },
        Parsed::Fail => {
            let empty: Vec<Vec<u8>> = Vec::new();
            proof {
                assert(empty.deep_view() =~= emptyv);
            }
            return Parsed::Match { next: n, val: RespTextCode::BadCharset(empty) };
        },
    };
    let (n3, lst) = match bc_items(i, n2) {
        Parsed::Match { next, val } => (next, val),
        Parsed::Incomplete => {
            return Parsed::Incomplete;
        },
        Parsed::Fail => {
            return Parsed::Fail;
        },
    };
    if lst.len() == 0 {
        let empty: Vec<Vec<u8>> = Vec::new();
        proof {
            assert(empty.deep_view() =~= emptyv);
            assert(lst.deep_view().len() == 0);
        }
        return Parsed::Match { next: n, val: RespTextCode::BadCharset(empty) };
    }
    match byte(i, n3, 41) {
        Parsed::Match { next, .. } => Parsed::Match {
            next,
            val: RespTextCode::BadCharset(lst),
        },
        Parsed::Incomplete => Parsed::Incomplete,
        Parsed::Fail => {
            let empty: Vec<Vec<u8>> = Vec::new();
            proof {
                assert(empty.deep_view() =~= emptyv);
            }
            Parsed::Match { next: n, val: RespTextCode::BadCharset(empty) }
        },
    }
}

/// `CAPABILITY`'s listing: at least one space-prefixed capability; with
/// none, the atom stays an opaque extension.
pub open spec fn spec_capability_code_tail(s: Seq<u8>, n: int, a: Seq<u8>) -> SpecParsed<
    RespTextCodeView,
> {
    match spec_caps_rest(s, n) {
        SpecParsed::Incomplete => SpecParsed::Incomplete,
        SpecParsed::Fail => SpecParsed::Fail,
        SpecParsed::Match { next, val } => if val.len() == 0 {
            spec_opaque_code_tail(s, n, a)
        } else {
            SpecParsed::Match { next, val: RespTextCodeView::Capability(val) }
        },
    }
}

fn capability_code_tail(i: &[u8], n: usize, a: Vec<u8>) -> (r: Parsed<RespTextCode>)
    requires
        n <= i@.len(),
    ensures
        parsed_matches(r, spec_capability_code_tail(i@, n as int, a@)),
        in_bounds(r, n as int, i@.len() as int),
{
    match caps_rest(i, n) {
        Parsed::Match { next, val } => {
            if val.len() == 0 {
                return opaque_code_tail(i, n, a);
            }
            Parsed::Match { next, val: RespTextCode::Capability(val) }
        },
        Parsed::Incomplete => Parsed::Incomplete,
        Parsed::Fail => Parsed::Fail,
    }
}

/// `PERMANENTFLAGS`'s flag list: `SP ( [flag-perm *(SP flag-perm)] )`.
/// Without a well-formed list the atom stays an opaque extension.
pub open spec fn spec_permanent_flags_tail(s: Seq<u8>, n: int, a: Seq<u8>) -> SpecParsed<
    RespTextCodeView,
> {
    match spec_kw(s, n, " ("@) {
        SpecParsed::Incomplete => SpecParsed::Incomplete,
        SpecParsed::Fail => spec_opaque_code_tail(s, n, a),
        SpecParsed::Match { next: n1, .. } => match spec_flags_sep0(s, n1, true) {
            SpecParsed::Incomplete => SpecParsed::Incomplete,
            SpecParsed::Fail => SpecParsed::Fail,
            SpecParsed::Match { next: n2, val } => match spec_byte(s, n2, ')' as u8) {
                SpecParsed::Incomplete => SpecParsed::Incomplete,
                SpecParsed::Fail => spec_opaque_code_tail(s, n, a),
                SpecParsed::Match { next, .. } => SpecParsed::Match {
                    next,
                    val: RespTextCodeView::PermanentFlags(val),
                },
            },
        },
    }
}

fn permanent_flags_tail(i: &[u8], n: usize, a: Vec<u8>) -> (r: Parsed<RespTextCode>)
    requires
        n <= i@.len(),
    ensures
        parsed_matches(r, spec_permanent_flags_tail(i@, n as int, a@)),
        in_bounds(r, n as int, i@.len() as int),
{
    proof {
        reveal_strlit(" (");
    }
    let n1 = match kw(i, n, " (") {
        Parsed::Match { next, .. } => next,
        Parsed::Incomplete => {
            return Parsed::Incomplete;
        },
        Parsed::Fail => {
            return opaque_code_tail(i, n, a);
        },
    };
    let (n2, lst) = match flags_sep0(i, n1, true) {
        Parsed::Match { next, val } => (next, val),
        Parsed::Incomplete => {
            return Parsed::Incomplete;
        },
        Parsed::Fail => {
            return Parsed::Fail;
        },
    };
    match byte(i, n2, 41) {
        Parsed::Match { next, .. } => Parsed::Match {
            next,
            val: RespTextCode::PermanentFlags(lst),
        },
        Parsed::Incomplete => Parsed::Incomplete,
        Parsed::Fail => opaque_code_tail(i, n, a),
    }
}

/// Which of the three numeric codes a recognised atom names.
pub enum NumCode {
    Next,
    Validity,
    Unseen,
}

/// The view a numeric code produces for its value.
pub open spec fn spec_num_code_view(k: NumCode, v: u32) -> RespTextCodeView {
    match k {
        NumCode::Next => RespTextCodeView::UidNext(v),
        NumCode::Validity => RespTextCodeView::UidValidity(v),
        NumCode::Unseen => RespTextCodeView::Unseen(v),
    }
}

/// `SP nz-number` after a numeric code word; without it the atom stays
/// an opaque extension.
pub open spec fn spec_numeric_code_tail(s: Seq<u8>, n: int, a: Seq<u8>, k: NumCode) -> SpecParsed<
    RespTextCodeView,
> {
    match spec_byte(s, n, ' ' as u8) {
        SpecParsed::Incomplete => SpecParsed::Incomplete,
        SpecParsed::Fail => spec_opaque_code_tail(s, n, a),
        SpecParsed::Match { next: n1, .. } => match spec_nz_number(s, n1) {
            SpecParsed::Incomplete => SpecParsed::Incomplete,
            SpecParsed::Fail => spec_opaque_code_tail(s, n, a),
            SpecParsed::Match { next, val } => SpecParsed::Match {
                next,
                val: spec_num_code_view(k, val),
            },
        },
    }
}

fn numeric_code_tail(i: &[u8], n: usize, a: Vec<u8>, k: NumCode) -> (r: Parsed<RespTextCode>)
    requires
        n <= i@.len(),
    ensures
        parsed_matches(r, spec_numeric_code_tail(i@, n as int, a@, k)),
        in_bounds(r, n as int, i@.len() as int),
{
    let n1 = match byte(i, n, 32) {
        Parsed::Match { next, .. } => next,
        Parsed::Incomplete => {
            return Parsed::Incomplete;
        },
        Parsed::Fail => {
            return opaque_code_tail(i, n, a);
        },
    };
    match nz_number(i, n1) {
        Parsed::Match { next, val } => Parsed::Match {
            next,
            val: (match k {
                NumCode::Next => RespTextCode::UidNext(val),
                NumCode::Validity => RespTextCode::UidValidity(val),
                NumCode::Unseen => RespTextCode::Unseen(val),
            }),
        },
        Parsed::Incomplete => Parsed::Incomplete,
        Parsed::Fail => opaque_code_tail(i, n, a),
    }
}

/// resp-text-code: the whole bracketed atom decides the code. A defined
/// word (compared whole, case-insensitively) takes its own shape, with
/// its argument where it has one; any other atom is the opaque extension
/// code carrying the atom and its optional argument text. A defined word
/// whose argument does not follow is likewise kept opaque rather than
/// failing the parse.
#[verifier::opaque]
pub open spec fn spec_resp_text_code(s: Seq<u8>, pos: int) -> SpecParsed<RespTextCodeView> {
    match spec_atom(s, pos) {
        SpecParsed::Incomplete => SpecParsed::Incomplete,
        SpecParsed::Fail => SpecParsed::Fail,
        SpecParsed::Match { next: n, val: a } => {
            if spec_fold_eq(a, "ALERT"@) {
                SpecParsed::Match { next: n, val: RespTextCodeView::Alert }
            } else if spec_fold_eq(a, "PARSE"@) {
                SpecParsed::Match { next: n, val: RespTextCodeView::Parse }
            } else if spec_fold_eq(a, "READ-ONLY"@) {
                SpecParsed::Match { next: n, val: RespTextCodeView::ReadOnly }
            } else if spec_fold_eq(a, "READ-WRITE"@) {
                SpecParsed::Match { next: n, val: RespTextCodeView::ReadWrite }
            } else if spec_fold_eq(a, "TRYCREATE"@) {
                SpecParsed::Match { next: n, val: RespTextCodeView::TryCreate }
            } else if spec_fold_eq(a, "BADCHARSET"@) {
                spec_bad_charset_tail(s, n)
            } else if spec_fold_eq(a, "CAPABILITY"@) {
                spec_capability_code_tail(s, n, a)
            } else if spec_fold_eq(a, "PERMANENTFLAGS"@) {
                spec_permanent_flags_tail(s, n, a)
            } else if spec_fold_eq(a, "UIDNEXT"@) {
                spec_numeric_code_tail(s, n, a, NumCode::Next)
            } else if spec_fold_eq(a, "UIDVALIDITY"@) {
                spec_numeric_code_tail(s, n, a, NumCode::Validity)
            } else if spec_fold_eq(a, "UNSEEN"@) {
                spec_numeric_code_tail(s, n, a, NumCode::Unseen)
            } else {
                spec_opaque_code_tail(s, n, a)
            }
        },
    }
}

#[verifier::rlimit(100)]
pub fn resp_text_code(i: &[u8], pos: usize) -> (r: Parsed<RespTextCode>)
    requires
        pos <= i@.len(),
    ensures
        parsed_matches(r, spec_resp_text_code(i@, pos as int)),
        in_bounds(r, pos as int, i@.len() as int),
{
    proof {
        reveal(spec_resp_text_code);
        reveal_strlit("ALERT");
        reveal_strlit("PARSE");
        reveal_strlit("READ-ONLY");
        reveal_strlit("READ-WRITE");
        reveal_strlit("TRYCREATE");
        reveal_strlit("BADCHARSET");
        reveal_strlit("CAPABILITY");
        reveal_strlit("PERMANENTFLAGS");
        reveal_strlit("UIDNEXT");
        reveal_strlit("UIDVALIDITY");
        reveal_strlit("UNSEEN");
    }
    let (n, a) = match atom(i, pos) {
        Parsed::Match { next, val } => (next, val),
        Parsed::Incomplete => {
            return Parsed::Incomplete;
        },
        Parsed::Fail => {
            return Parsed::Fail;
        },
    };
    if fold_eq(a.as_slice(), "ALERT") {
        return Parsed::Match { next: n, val: RespTextCode::Alert };
    }
    if fold_eq(a.as_slice(), "PARSE") {
        return Parsed::Match { next: n, val: RespTextCode::Parse };
    }
    if fold_eq(a.as_slice(), "READ-ONLY") {
        return Parsed::Match { next: n, val: RespTextCode::ReadOnly };
    }
    if fold_eq(a.as_slice(), "READ-WRITE") {
        return Parsed::Match { next: n, val: RespTextCode::ReadWrite };
    }
    if fold_eq(a.as_slice(), "TRYCREATE") {
        return Parsed::Match { next: n, val: RespTextCode::TryCreate };
    }
    if fold_eq(a.as_slice(), "BADCHARSET") {
        return bad_charset_tail(i, n);
    }
    if fold_eq(a.as_slice(), "CAPABILITY") {
        return capability_code_tail(i, n, a);
    }
    if fold_eq(a.as_slice(), "PERMANENTFLAGS") {
        return permanent_flags_tail(i, n, a);
    }
    if fold_eq(a.as_slice(), "UIDNEXT") {
        return numeric_code_tail(i, n, a, NumCode::Next);
    }
    if fold_eq(a.as_slice(), "UIDVALIDITY") {
        return numeric_code_tail(i, n, a, NumCode::Validity);
    }
    if fold_eq(a.as_slice(), "UNSEEN") {
        return numeric_code_tail(i, n, a, NumCode::Unseen);
    }
    opaque_code_tail(i, n, a)
}

// ------------------------------------------------------------------
// resp-text.
// ------------------------------------------------------------------

/// `*( [ resp-text-code ] SP )`: the bracketed codes before the free
/// text. A bracket whose inside does not parse as a code is left to the
/// free text.
pub open spec fn spec_codes(s: Seq<u8>, pos: int) -> SpecParsed<Seq<RespTextCodeView>>
    decreases s.len() - pos,
{
    if pos < 0 || pos >= s.len() {
        SpecParsed::Incomplete
    } else if s[pos] != ('[' as u8) {
        SpecParsed::Match { next: pos, val: Seq::empty() }
    } else {
        match spec_resp_text_code(s, pos + 1) {
            SpecParsed::Incomplete => SpecParsed::Incomplete,
            SpecParsed::Fail => SpecParsed::Match { next: pos, val: Seq::empty() },
            SpecParsed::Match { next: n1, val: c } => match spec_kw(s, n1, "] "@) {
                SpecParsed::Incomplete => SpecParsed::Incomplete,
                SpecParsed::Fail => SpecParsed::Match { next: pos, val: Seq::empty() },
                SpecParsed::Match { next: n2, .. } => if n2 <= pos || n2 > s.len() {
                    SpecParsed::Match { next: pos, val: Seq::empty() }
                } else {
                    sp_prepend(seq![c], spec_codes(s, n2))
                },
            },
        }
    }
}

#[verifier::loop_isolation(false)]
#[verifier::rlimit(60)]
pub fn codes(i: &[u8], pos: usize) -> (r: Parsed<Vec<RespTextCode>>)
    requires
        pos <= i@.len(),
    ensures
        parsed_matches(r, spec_codes(i@, pos as int)),
        in_bounds(r, pos as int, i@.len() as int),
{
    proof {
        reveal_strlit("] ");
    }
    let mut acc: Vec<RespTextCode> = Vec::new();
    let mut cur: usize = pos;
    proof {
        assert(acc.deep_view() =~= Seq::<RespTextCodeView>::empty());
        lemma_prepend_nil(spec_codes(i@, pos as int));
    }
    loop
        invariant
            pos <= cur <= i@.len(),
            spec_codes(i@, pos as int) == sp_prepend(
                acc.deep_view(),
                spec_codes(i@, cur as int),
            ),
        decreases i@.len() - cur,
    {
        if cur >= i.len() {
            return Parsed::Incomplete;
        }
        if i[cur] != 91 {
            proof {
                lemma_prepend_empty(acc.deep_view(), cur as int);
            }
            return Parsed::Match { next: cur, val: acc };
        }
        let (n1, c) = match resp_text_code(i, cur + 1) {
            Parsed::Match { next, val } => (next, val),
            Parsed::Incomplete => {
                return Parsed::Incomplete;
            },
            Parsed::Fail => {
                proof {
                    lemma_prepend_empty(acc.deep_view(), cur as int);
                }
                return Parsed::Match { next: cur, val: acc };
            },
        };
        match kw(i, n1, "] ") {
            Parsed::Incomplete => {
                return Parsed::Incomplete;
            },
            Parsed::Fail => {
                proof {
                    lemma_prepend_empty(acc.deep_view(), cur as int);
                }
                return Parsed::Match { next: cur, val: acc };
            },
            Parsed::Match { next: n2, .. } => {
                let ghost a0 = acc.deep_view();
                let ghost cd = c.deep_view();
                acc.push(c);
                proof {
                    assert(acc.deep_view() =~= a0.push(cd));
                    lemma_prepend_step(a0, cd, spec_codes(i@, n2 as int));
                }
                cur = n2;
            },
        }
    }
}

/// resp-text: optional bracketed codes, then the free text, carried
/// verbatim. Only keyword comparisons are case-folded; the text is not.
#[verifier::opaque]
pub open spec fn spec_resp_text(s: Seq<u8>, pos: int) -> SpecParsed<RespTextView> {
    match spec_codes(s, pos) {
        SpecParsed::Incomplete => SpecParsed::Incomplete,
        SpecParsed::Fail => SpecParsed::Fail,
        SpecParsed::Match { next: n1, val: cs } => match spec_text(s, n1) {
            SpecParsed::Match { next, val } => SpecParsed::Match {
                next,
                val: RespTextView { code: cs, text: val },
            },
            SpecParsed::Incomplete => SpecParsed::Incomplete,
            SpecParsed::Fail => SpecParsed::Fail,
        },
    }
}

pub fn resp_text(i: &[u8], pos: usize) -> (r: Parsed<RespText>)
    requires
        pos <= i@.len(),
    ensures
        parsed_matches(r, spec_resp_text(i@, pos as int)),
        in_bounds(r, pos as int, i@.len() as int),
{
    proof {
        reveal(spec_resp_text);
    }
    let (n1, cs) = match codes(i, pos) {
        Parsed::Match { next, val } => (next, val),
        Parsed::Incomplete => {
            return Parsed::Incomplete;
        },
        Parsed::Fail => {
            return Parsed::Fail;
        },
    };
    match text(i, n1) {
        Parsed::Match { next, val } => Parsed::Match {
            next,
            val: RespText { code: cs, text: val },
        },
        Parsed::Incomplete => Parsed::Incomplete,
        Parsed::Fail => Parsed::Fail,
    }
}

/// The code list never ends outside the input.
proof fn lemma_codes_bounds(s: Seq<u8>, pos: int)
    requires
        0 <= pos <= s.len(),
    ensures
        spec_codes(s, pos) matches SpecParsed::Match { next, .. } ==> pos <= next <= s.len(),
    decreases s.len() - pos,
{
    if pos < s.len() && s[pos] == ('[' as u8) {
        match spec_resp_text_code(s, pos + 1) {
            SpecParsed::Match { next: n1, val: c } => {
                match spec_kw(s, n1, "] "@) {
                    SpecParsed::Match { next: n2, .. } => {
                        if pos < n2 <= s.len() {
                            lemma_codes_bounds(s, n2);
                        }
                    },
                    _ => {},
                }
            },
            _ => {},
        }
    }
}

/// Law: decoding reproduces the free text verbatim. The text field of a
/// decoded resp-text is exactly the run of input bytes that ends where
/// the unit's text ends; nothing in it is altered, and in particular it
/// is not case-folded (only keyword comparisons are).
pub proof fn lemma_resp_text_verbatim(s: Seq<u8>, pos: int)
    requires
        0 <= pos <= s.len(),
    ensures
        spec_resp_text(s, pos) matches SpecParsed::Match { next, val } ==> val.text
            == s.subrange(next - val.text.len(), next),
{
    reveal(spec_resp_text);
    lemma_codes_bounds(s, pos);
    match spec_codes(s, pos) {
        SpecParsed::Match { next: n1, .. } => {
            crate::lex::lemma_run_end(s, n1, ByteClass::Text);
            match spec_class_run1(s, n1, ByteClass::Text) {
                SpecParsed::Match { next: e, val: t } => {
                    assert(t == s.subrange(n1, e));
                    assert(t.len() == e - n1);
                },
                _ => {},
            }
        },
        _ => {},
    }
}

/// The free text of a condition line (`OK|NO|BAD SP resp-text`) is
/// verbatim input ending where the condition's match ends.
pub proof fn lemma_resp_cond_state_verbatim(s: Seq<u8>, pos: int)
    requires
        0 <= pos <= s.len(),
    ensures
        spec_resp_cond_state(s, pos) matches SpecParsed::Match { next, val } ==> val.text.text
            == s.subrange(next - val.text.text.len(), next),
{
    match spec_status_word(s, pos) {
        SpecParsed::Match { next: n1, .. } => {
            match spec_byte(s, n1, ' ' as u8) {
                SpecParsed::Match { next: n2, .. } => {
                    lemma_resp_text_verbatim(s, n2);
                },
                _ => {},
            }
        },
        _ => {},
    }
}

/// The free text of an authentication condition is verbatim input ending
/// where the condition's match ends.
pub proof fn lemma_resp_cond_auth_verbatim(s: Seq<u8>, pos: int)
    requires
        0 <= pos <= s.len(),
    ensures
        spec_resp_cond_auth(s, pos) matches SpecParsed::Match { next, val } ==> (match val {
            GreetingStatusView::Okay(t) => t.text == s.subrange(next - t.text.len(), next),
            GreetingStatusView::Preauth(t) => t.text == s.subrange(next - t.text.len(), next),
            GreetingStatusView::Bye(_) => true,
        }),
{
    match spec_kw(s, pos, "OK "@) {
        SpecParsed::Match { next: n1, .. } => {
            lemma_resp_text_verbatim(s, n1);
        },
        SpecParsed::Fail => {
            match spec_kw(s, pos, "PREAUTH "@) {
                SpecParsed::Match { next: n1, .. } => {
                    lemma_resp_text_verbatim(s, n1);
                },
                _ => {},
            }
        },
        _ => {},
    }
}

/// The free text of a `BYE` condition is verbatim input ending where the
/// condition's match ends.
pub proof fn lemma_resp_cond_bye_verbatim(s: Seq<u8>, pos: int)
    requires
        0 <= pos <= s.len(),
    ensures
        spec_resp_cond_bye(s, pos) matches SpecParsed::Match { next, val } ==> val.resp.text
            == s.subrange(next - val.resp.text.len(), next),
{
    match spec_kw(s, pos, "BYE "@) {
        SpecParsed::Match { next: n1, .. } => {
            lemma_resp_text_verbatim(s, n1);
        },
        _ => {},
    }
}

// ------------------------------------------------------------------
// Status conditions and the framed top-level units.
// ------------------------------------------------------------------

/// The status word of a condition line: `OK`, `NO` or `BAD`.
pub open spec fn spec_status_word(s: Seq<u8>, pos: int) -> SpecParsed<ImapResult> {
    match spec_kw(s, pos, "OK"@) {
        SpecParsed::Match { next, .. } => SpecParsed::Match { next, val: ImapResult::Okay },
        SpecParsed::Incomplete => SpecParsed::Incomplete,
        SpecParsed::Fail => match spec_kw(s, pos, "NO"@) {
            SpecParsed::Match { next, .. } => SpecParsed::Match { next, val: ImapResult::No },
            SpecParsed::Incomplete => SpecParsed::Incomplete,
            SpecParsed::Fail => match spec_kw(s, pos, "BAD"@) {
                SpecParsed::Match { next, .. } => SpecParsed::Match {
                    next,
                    val: ImapResult::Bad,
                },
                SpecParsed::Incomplete => SpecParsed::Incomplete,
                SpecParsed::Fail => SpecParsed::Fail,
            },
        },
    }
}

pub fn status_word(i: &[u8], pos: usize) -> (r: Parsed<ImapResult>)
    requires
        pos <= i@.len(),
    ensures
        parsed_matches(r, spec_status_word(i@, pos as int)),
        in_bounds(r, pos as int, i@.len() as int),
{
    proof {
        reveal_strlit("OK");
        reveal_strlit("NO");
        reveal_strlit("BAD");
    }
    match kw(i, pos, "OK") {
        Parsed::Match { next, .. } => {
            return Parsed::Match { next, val: ImapResult::Okay };
        },
        Parsed::Incomplete => {
            return Parsed::Incomplete;
        },
        Parsed::Fail => {},
    }
    match kw(i, pos, "NO") {
        Parsed::Match { next, .. } => {
            return Parsed::Match { next, val: ImapResult::No };
        },
        Parsed::Incomplete => {
            return Parsed::Incomplete;
        },
        Parsed::Fail => {},
    }
    match kw(i, pos, "BAD") {
        Parsed::Match { next, .. } => Parsed::Match { next, val: ImapResult::Bad },
        Parsed::Incomplete => Parsed::Incomplete,
        Parsed::Fail => Parsed::Fail,
    }
}

/// resp-cond-state: a status word, a space, then resp-text.
pub open spec fn spec_resp_cond_state(s: Seq<u8>, pos: int) -> SpecParsed<RespCondView> {
    match spec_status_word(s, pos) {
        SpecParsed::Incomplete => SpecParsed::Incomplete,
        SpecParsed::Fail => SpecParsed::Fail,
        SpecParsed::Match { next: n1, val: st } => match spec_byte(s, n1, ' ' as u8) {
            SpecParsed::Incomplete => SpecParsed::Incomplete,
            SpecParsed::Fail => SpecParsed::Fail,
            SpecParsed::Match { next: n2, .. } => match spec_resp_text(s, n2) {
                SpecParsed::Match { next, val } => SpecParsed::Match {
                    next,
                    val: RespCondView { status: st, text: val },
                },
                SpecParsed::Incomplete => SpecParsed::Incomplete,
                SpecParsed::Fail => SpecParsed::Fail,
            },
        },
    }
}

pub fn resp_cond_state(i: &[u8], pos: usize) -> (r: Parsed<RespCond>)
    requires
        pos <= i@.len(),
    ensures
        parsed_matches(r, spec_resp_cond_state(i@, pos as int)),
        in_bounds(r, pos as int, i@.len() as int),
{
    let (n1, st) = match status_word(i, pos) {
        Parsed::Match { next, val } => (next, val),
        Parsed::Incomplete => {
            return Parsed::Incomplete;
        },
        Parsed::Fail => {
            return Parsed::Fail;
        },
    };
    let n2 = match byte(i, n1, 32) {
        Parsed::Match { next, .. } => next,
        Parsed::Incomplete => {
            return Parsed::Incomplete;
        },
        Parsed::Fail => {
            return Parsed::Fail;
        },
    };
    match resp_text(i, n2) {
        Parsed::Match { next, val } => Parsed::Match {
            next,
            val: RespCond { status: st, text: val },
        },
        Parsed::Incomplete => Parsed::Incomplete,
        Parsed::Fail => Parsed::Fail,
    }
}

/// resp-cond-auth: `OK` or `PREAUTH` with resp-text, as greeting status.
pub open spec fn spec_resp_cond_auth(s: Seq<u8>, pos: int) -> SpecParsed<GreetingStatusView> {
    match spec_kw(s, pos, "OK "@) {
        SpecParsed::Incomplete => SpecParsed::Incomplete,
        SpecParsed::Match { next: n1, .. } => match spec_resp_text(s, n1) {
            SpecParsed::Match { next, val } => SpecParsed::Match {
                next,
                val: GreetingStatusView::Okay(val),
            },
            SpecParsed::Incomplete => SpecParsed::Incomplete,
            SpecParsed::Fail => SpecParsed::Fail,
        },
        SpecParsed::Fail => match spec_kw(s, pos, "PREAUTH "@) {
            SpecParsed::Incomplete => SpecParsed::Incomplete,
            SpecParsed::Fail => SpecParsed::Fail,
            SpecParsed::Match { next: n1, .. } => match spec_resp_text(s, n1) {
                SpecParsed::Match { next, val } => SpecParsed::Match {
                    next,
                    val: GreetingStatusView::Preauth(val),
                },
                SpecParsed::Incomplete => SpecParsed::Incomplete,
                SpecParsed::Fail => SpecParsed::Fail,
            },
        },
    }
}

#[verifier::rlimit(60)]
pub fn resp_cond_auth(i: &[u8], pos: usize) -> (r: Parsed<GreetingStatus>)
    requires
        pos <= i@.len(),
    ensures
        parsed_matches(r, spec_resp_cond_auth(i@, pos as int)),
        in_bounds(r, pos as int, i@.len() as int),
{
    proof {
        reveal_strlit("OK ");
        reveal_strlit("PREAUTH ");
    }
    match kw(i, pos, "OK ") {
        Parsed::Incomplete => {
            return Parsed::Incomplete;
        },
        Parsed::Match { next: n1, .. } => {
            return match resp_text(i, n1) {
                Parsed::Match { next, val } => Parsed::Match {
                    next,
                    val: GreetingStatus::Okay(val),
                },
                Parsed::Incomplete => Parsed::Incomplete,
                Parsed::Fail => Parsed::Fail,
            };
        },
        Parsed::Fail => {},
    }
    let n1 = match kw(i, pos, "PREAUTH ") {
        Parsed::Match { next, .. } => next,
        Parsed::Incomplete => {
            return Parsed::Incomplete;
        },
        Parsed::Fail => {
            return Parsed::Fail;
        },
    };
    match resp_text(i, n1) {
        Parsed::Match { next, val } => Parsed::Match {
            next,
            val: GreetingStatus::Preauth(val),
        },
        Parsed::Incomplete => Parsed::Incomplete,
        Parsed::Fail => Parsed::Fail,
    }
}

/// resp-cond-bye: `BYE` with resp-text.
pub open spec fn spec_resp_cond_bye(s: Seq<u8>, pos: int) -> SpecParsed<ByeResponseView> {
    match spec_kw(s, pos, "BYE "@) {
        SpecParsed::Incomplete => SpecParsed::Incomplete,
        SpecParsed::Fail => SpecParsed::Fail,
        SpecParsed::Match { next: n1, .. } => match spec_resp_text(s, n1) {
            SpecParsed::Match { next, val } => SpecParsed::Match {
                next,
                val: ByeResponseView { resp: val },
            },
            SpecParsed::Incomplete => SpecParsed::Incomplete,
            SpecParsed::Fail => SpecParsed::Fail,
        },
    }
}

pub fn resp_cond_bye(i: &[u8], pos: usize) -> (r: Parsed<ByeResponse>)
    requires
        pos <= i@.len(),
    ensures
        parsed_matches(r, spec_resp_cond_bye(i@, pos as int)),
        in_bounds(r, pos as int, i@.len() as int),
{
    proof {
        reveal_strlit("BYE ");
    }
    let n1 = match kw(i, pos, "BYE ") {
        Parsed::Match { next, .. } => next,
        Parsed::Incomplete => {
            return Parsed::Incomplete;
        },
        Parsed::Fail => {
            return Parsed::Fail;
        },
    };
    match resp_text(i, n1) {
        Parsed::Match { next, val } => Parsed::Match {
            next,
            val: ByeResponse { resp: val },
        },
        Parsed::Incomplete => Parsed::Incomplete,
        Parsed::Fail => Parsed::Fail,
    }
}

/// greeting: `* ` then an authentication or `BYE` condition, CRLF-framed.
pub open spec fn spec_greeting(s: Seq<u8>, pos: int) -> SpecParsed<GreetingView> {
    match spec_kw(s, pos, "* "@) {
        SpecParsed::Incomplete => SpecParsed::Incomplete,
        SpecParsed::Fail => SpecParsed::Fail,
        SpecParsed::Match { next: n1, .. } => {
            let st = sp_alt(
                spec_resp_cond_auth(s, n1),
                match spec_resp_cond_bye(s, n1) {
                    SpecParsed::Match { next, val } => SpecParsed::Match {
                        next,
                        val: GreetingStatusView::Bye(val),
                    },
                    SpecParsed::Incomplete => SpecParsed::Incomplete,
                    SpecParsed::Fail => SpecParsed::Fail,
                },
            );
            match st {
                SpecParsed::Incomplete => SpecParsed::Incomplete,
                SpecParsed::Fail => SpecParsed::Fail,
                SpecParsed::Match { next: n2, val } => match spec_crlf(s, n2) {
                    SpecParsed::Match { next, .. } => SpecParsed::Match {
                        next,
                        val: GreetingView { status: val },
                    },
                    SpecParsed::Incomplete => SpecParsed::Incomplete,
                    SpecParsed::Fail => SpecParsed::Fail,
                },
            }
        },
    }
}

#[verifier::rlimit(60)]
pub fn greeting(i: &[u8], pos: usize) -> (r: Parsed<Greeting>)
    requires
        pos <= i@.len(),
    ensures
        parsed_matches(r, spec_greeting(i@, pos as int)),
        in_bounds(r, pos as int, i@.len() as int),
{
    proof {
        reveal_strlit("* ");
    }
    let n1 = match kw(i, pos, "* ") {
        Parsed::Match { next, .. } => next,
        Parsed::Incomplete => {
            return Parsed::Incomplete;
        },
        Parsed::Fail => {
            return Parsed::Fail;
        },
    };
    let st = match resp_cond_auth(i, n1) {
        Parsed::Match { next, val } => Parsed::Match { next, val },
        Parsed::Incomplete => Parsed::Incomplete,
        Parsed::Fail => match resp_cond_bye(i, n1) {
            Parsed::Match { next, val } => Parsed::Match {
                next,
                val: GreetingStatus::Bye(val),
            },
            Parsed::Incomplete => Parsed::Incomplete,
            Parsed::Fail => Parsed::Fail,
        },
    };
    let (n2, val) = match st {
        Parsed::Match { next, val } => (next, val),
        Parsed::Incomplete => {
            return Parsed::Incomplete;
        },
        Parsed::Fail => {
            return Parsed::Fail;
        },
    };
    match crlf(i, n2) {
        Parsed::Match { next, .. } => Parsed::Match { next, val: Greeting { status: val } },
        Parsed::Incomplete => Parsed::Incomplete,
        Parsed::Fail => Parsed::Fail,
    }
}

/// continue-req: `+ ` then resp-text or a base64 prompt, CRLF-framed.
pub open spec fn spec_continue_req(s: Seq<u8>, pos: int) -> SpecParsed<ContinueReqView> {
    match spec_kw(s, pos, "+ "@) {
        SpecParsed::Incomplete => SpecParsed::Incomplete,
        SpecParsed::Fail => SpecParsed::Fail,
        SpecParsed::Match { next: n1, .. } => {
            let body = sp_alt(
                match spec_resp_text(s, n1) {
                    SpecParsed::Match { next, val } => SpecParsed::Match {
                        next,
                        val: ContinueReqView::Text(val),
                    },
                    SpecParsed::Incomplete => SpecParsed::Incomplete,
                    SpecParsed::Fail => SpecParsed::Fail,
                },
                match spec_base64(s, n1) {
                    SpecParsed::Match { next, val } => SpecParsed::Match {
                        next,
                        val: ContinueReqView::Base64(val),
                    },
                    SpecParsed::Incomplete => SpecParsed::Incomplete,
                    SpecParsed::Fail => SpecParsed::Fail,
                },
            );
            match body {
                SpecParsed::Incomplete => SpecParsed::Incomplete,
                SpecParsed::Fail => SpecParsed::Fail,
                SpecParsed::Match { next: n2, val } => match spec_crlf(s, n2) {
                    SpecParsed::Match { next, .. } => SpecParsed::Match { next, val },
                    SpecParsed::Incomplete => SpecParsed::Incomplete,
                    SpecParsed::Fail => SpecParsed::Fail,
                },
            }
        },
    }
}

pub fn continue_req(i: &[u8], pos: usize) -> (r: Parsed<ContinueReq>)
    requires
        pos <= i@.len(),
    ensures
        parsed_matches(r, spec_continue_req(i@, pos as int)),
        in_bounds(r, pos as int, i@.len() as int),
{
    proof {
        reveal_strlit("+ ");
    }
    let n1 = match kw(i, pos, "+ ") {
        Parsed::Match { next, .. } => next,
        Parsed::Incomplete => {
            return Parsed::Incomplete;
        },
        Parsed::Fail => {
            return Parsed::Fail;
        },
    };
    let body = match resp_text(i, n1) {
        Parsed::Match { next, val } => Parsed::Match { next, val: ContinueReq::Text(val) },
        Parsed::Incomplete => Parsed::Incomplete,
        Parsed::Fail => match base64(i, n1) {
            Parsed::Match { next, val } => Parsed::Match {
                next,
                val: ContinueReq::Base64(val),
            },
            Parsed::Incomplete => Parsed::Incomplete,
            Parsed::Fail => Parsed::Fail,
        },
    };
    let (n2, val) = match body {
        Parsed::Match { next, val } => (next, val),
        Parsed::Incomplete => {
            return Parsed::Incomplete;
        },
        Parsed::Fail => {
            return Parsed::Fail;
        },
    };
    match crlf(i, n2) {
        Parsed::Match { next, .. } => Parsed::Match { next, val },
        Parsed::Incomplete => Parsed::Incomplete,
        Parsed::Fail => Parsed::Fail,
    }
}

/// response-tagged: tag, space, condition state, CRLF.
pub open spec fn spec_response_tagged(s: Seq<u8>, pos: int) -> SpecParsed<
    TaggedResponseView,
> {
    match spec_imap_tag(s, pos) {
        SpecParsed::Incomplete => SpecParsed::Incomplete,
        SpecParsed::Fail => SpecParsed::Fail,
        SpecParsed::Match { next: n1, val: tag } => match spec_byte(s, n1, ' ' as u8) {
            SpecParsed::Incomplete => SpecParsed::Incomplete,
            SpecParsed::Fail => SpecParsed::Fail,
            SpecParsed::Match { next: n2, .. } => match spec_resp_cond_state(s, n2) {
                SpecParsed::Incomplete => SpecParsed::Incomplete,
                SpecParsed::Fail => SpecParsed::Fail,
                SpecParsed::Match { next: n3, val: rc } => match spec_crlf(s, n3) {
                    SpecParsed::Match { next, .. } => SpecParsed::Match {
                        next,
                        val: TaggedResponseView { tag, resp: rc },
                    },
                    SpecParsed::Incomplete => SpecParsed::Incomplete,
                    SpecParsed::Fail => SpecParsed::Fail,
                },
            },
        },
    }
}

pub fn response_tagged(i: &[u8], pos: usize) -> (r: Parsed<TaggedResponse>)
    requires
        pos <= i@.len(),
    ensures
        parsed_matches(r, spec_response_tagged(i@, pos as int)),
        in_bounds(r, pos as int, i@.len() as int),
{
    let (n1, tag) = match imap_tag(i, pos) {
        Parsed::Match { next, val } => (next, val),
        Parsed::Incomplete => {
            return Parsed::Incomplete;
        },
        Parsed::Fail => {
            return Parsed::Fail;
        },
    };
    let n2 = match byte(i, n1, 32) {
        Parsed::Match { next, .. } => next,
        Parsed::Incomplete => {
            return Parsed::Incomplete;
        },
        Parsed::Fail => {
            return Parsed::Fail;
        },
    };
    let (n3, rc) = match resp_cond_state(i, n2) {
        Parsed::Match { next, val } => (next, val),
        Parsed::Incomplete => {
            return Parsed::Incomplete;
        },
        Parsed::Fail => {
            return Parsed::Fail;
        },
    };
    match crlf(i, n3) {
        Parsed::Match { next, .. } => Parsed::Match {
            next,
            val: TaggedResponse { tag, resp: rc },
        },
        Parsed::Incomplete => Parsed::Incomplete,
        Parsed::Fail => Parsed::Fail,
    }
}


} // verus!
