//! mailbox-data: the untagged mailbox information units (`FLAGS`,
//! `LIST`, `LSUB`, `SEARCH`, `STATUS`, `EXISTS`, `RECENT`).

use vstd::prelude::*;
use crate::lex::{
    spec_is_text_char, spec_number, spec_nz_number, spec_atom, spec_astring, spec_fold_eq,
    spec_byte, spec_kw, is_text_char, number, nz_number, atom, astring, fold_eq, byte, kw,
};
use crate::parser::{
    Parsed, SpecParsed, parsed_matches, in_bounds, sp_prepend, sp_alt, lemma_prepend_step,
    lemma_prepend_empty, lemma_prepend_nil, lemma_bytes_deep_view,
};
use crate::grammar::{spec_flag_list, flag_list};
use crate::types::{
    ListFlag, ListFlagView, ListDefinedFlag, ListMailBox, ListMailBoxView, StatusInfo,
    StatusResponse, StatusResponseView, MailBoxData, MailBoxDataView,
};

verus! {

broadcast use lemma_bytes_deep_view;

// ------------------------------------------------------------------
// Mailbox names and list flags.
// ------------------------------------------------------------------

/// mailbox: an astring name (`INBOX` is just one such name).
pub open spec fn spec_mailbox(s: Seq<u8>, pos: int) -> SpecParsed<Seq<u8>> {
    spec_astring(s, pos)
}

pub fn mailbox(i: &[u8], pos: usize) -> (r: Parsed<Vec<u8>>)
    requires
        pos <= i@.len(),
    ensures
        parsed_matches(r, spec_mailbox(i@, pos as int)),
        in_bounds(r, pos as int, i@.len() as int),
{
    astring(i, pos)
}

/// Sorts a backslash-prefixed mailbox-list flag atom into the defined
/// flags or an extension, comparing case-insensitively.
pub open spec fn spec_classify_list_flag(a: Seq<u8>) -> ListFlagView {
    if spec_fold_eq(a, "Noinferiors"@) {
        ListFlagView::Defined(ListDefinedFlag::Noinferiors)
    } else if spec_fold_eq(a, "Noselect"@) {
        ListFlagView::Defined(ListDefinedFlag::Noselect)
    } else if spec_fold_eq(a, "Marked"@) {
        ListFlagView::Defined(ListDefinedFlag::Marked)
    } else if spec_fold_eq(a, "Unmarked"@) {
        ListFlagView::Defined(ListDefinedFlag::Unmarked)
    } else {
        ListFlagView::Extension(a)
    }
}

fn classify_list_flag(a: Vec<u8>) -> (r: ListFlag)
    ensures
        r.deep_view() == spec_classify_list_flag(a@),
{
    proof {
        reveal_strlit("Noinferiors");
        reveal_strlit("Noselect");
        reveal_strlit("Marked");
        reveal_strlit("Unmarked");
    }
    if fold_eq(a.as_slice(), "Noinferiors") {
        ListFlag::Defined(ListDefinedFlag::Noinferiors)
    } else if fold_eq(a.as_slice(), "Noselect") {
        ListFlag::Defined(ListDefinedFlag::Noselect)
    } else if fold_eq(a.as_slice(), "Marked") {
        ListFlag::Defined(ListDefinedFlag::Marked)
    } else if fold_eq(a.as_slice(), "Unmarked") {
        ListFlag::Defined(ListDefinedFlag::Unmarked)
    } else {
        ListFlag::Extension(a)
    }
}

/// mbx-list-oflag / mbx-list-sflag: one backslash-prefixed list flag.
pub open spec fn spec_mbx_flag(s: Seq<u8>, pos: int) -> SpecParsed<ListFlagView> {
    if pos >= s.len() {
        SpecParsed::Incomplete
    } else if s[pos] != ('\\' as u8) {
        SpecParsed::Fail
    } else {
        match spec_atom(s, pos + 1) {
            SpecParsed::Match { next, val } => SpecParsed::Match {
                next,
                val: spec_classify_list_flag(val),
            },
            SpecParsed::Incomplete => SpecParsed::Incomplete,
            SpecParsed::Fail => SpecParsed::Fail,
        }
    }
}

pub fn mbx_flag(i: &[u8], pos: usize) -> (r: Parsed<ListFlag>)
    requires
        pos <= i@.len(),
    ensures
        parsed_matches(r, spec_mbx_flag(i@, pos as int)),
        in_bounds(r, pos as int, i@.len() as int),
{
    if pos >= i.len() {
        return Parsed::Incomplete;
    }
    if i[pos] != 92 {
        return Parsed::Fail;
    }
    match atom(i, pos + 1) {
        Parsed::Match { next, val } => Parsed::Match { next, val: classify_list_flag(val) },
        Parsed::Incomplete => Parsed::Incomplete,
        Parsed::Fail => Parsed::Fail,
    }
}

/// `*(SP mbx-list-flag)`.
pub open spec fn spec_mbx_flags_rest(s: Seq<u8>, pos: int) -> SpecParsed<Seq<ListFlagView>>
    decreases s.len() - pos,
{
    if pos < 0 || pos >= s.len() {
        SpecParsed::Incomplete
    } else if s[pos] != (' ' as u8) {
        SpecParsed::Match { next: pos, val: Seq::empty() }
    } else {
        match spec_mbx_flag(s, pos + 1) {
            SpecParsed::Incomplete => SpecParsed::Incomplete,
            SpecParsed::Fail => SpecParsed::Match { next: pos, val: Seq::empty() },
            SpecParsed::Match { next, val } => if next <= pos || next > s.len() {
                SpecParsed::Match { next: pos, val: Seq::empty() }
            } else {
                sp_prepend(seq![val], spec_mbx_flags_rest(s, next))
            },
        }
    }
}

/// mbx-list-flags, allowing the empty list: `[flag *(SP flag)]`.
pub open spec fn spec_mbx_list_flags(s: Seq<u8>, pos: int) -> SpecParsed<Seq<ListFlagView>> {
    match spec_mbx_flag(s, pos) {
        SpecParsed::Incomplete => SpecParsed::Incomplete,
        SpecParsed::Fail => SpecParsed::Match { next: pos, val: Seq::empty() },
        SpecParsed::Match { next, val } => sp_prepend(seq![val], spec_mbx_flags_rest(s, next)),
    }
}

#[verifier::loop_isolation(false)]
pub fn mbx_list_flags(i: &[u8], pos: usize) -> (r: Parsed<Vec<ListFlag>>)
    requires
        pos <= i@.len(),
    ensures
        parsed_matches(r, spec_mbx_list_flags(i@, pos as int)),
        in_bounds(r, pos as int, i@.len() as int),
{
    let mut acc: Vec<ListFlag> = Vec::new();
    let mut cur: usize;
    match mbx_flag(i, pos) {
        Parsed::Incomplete => {
            return Parsed::Incomplete;
        },
        Parsed::Fail => {
            proof {
                assert(acc.deep_view() =~= Seq::<ListFlagView>::empty());
            }
            return Parsed::Match { next: pos, val: acc };
        },
        Parsed::Match { next, val } => {
            let ghost vd = val.deep_view();
            acc.push(val);
            cur = next;
            proof {
                assert(acc.deep_view() =~= seq![vd]);
            }
        },
    }
    loop
        invariant
            pos <= cur <= i@.len(),
            spec_mbx_list_flags(i@, pos as int) == sp_prepend(
                acc.deep_view(),
                spec_mbx_flags_rest(i@, cur as int),
            ),
        decreases i@.len() - cur,
    {
        if cur >= i.len() {
            return Parsed::Incomplete;
        }
        if i[cur] != 32 {
            proof {
                lemma_prepend_empty(acc.deep_view(), cur as int);
            }
            return Parsed::Match { next: cur, val: acc };
        }
        match mbx_flag(i, cur + 1) {
            Parsed::Incomplete => {
                return Parsed::Incomplete;
            },
            Parsed::Fail => {
                proof {
                    lemma_prepend_empty(acc.deep_view(), cur as int);
                }
                return Parsed::Match { next: cur, val: acc };
            },
            Parsed::Match { next, val } => {
                let ghost a0 = acc.deep_view();
                let ghost vd = val.deep_view();
                acc.push(val);
                proof {
                    assert(acc.deep_view() =~= a0.push(vd));
                    lemma_prepend_step(a0, vd, spec_mbx_flags_rest(i@, next as int));
                }
                cur = next;
            },
        }
    }
}

/// The hierarchy delimiter: a single QUOTED-CHAR in quotes, or `NIL`.
/// A quote or backslash delimiter must be escaped, as inside any quoted
/// string; the value is the resolved character.
pub open spec fn spec_delimiter(s: Seq<u8>, pos: int) -> SpecParsed<Option<u8>> {
    if pos >= s.len() {
        SpecParsed::Incomplete
    } else if s[pos] == ('"' as u8) {
        if pos + 1 >= s.len() {
            SpecParsed::Incomplete
        } else if s[pos + 1] == ('\\' as u8) {
            if pos + 2 >= s.len() {
                SpecParsed::Incomplete
            } else if s[pos + 2] == ('"' as u8) || s[pos + 2] == ('\\' as u8) {
                if pos + 3 >= s.len() {
                    SpecParsed::Incomplete
                } else if s[pos + 3] == ('"' as u8) {
                    SpecParsed::Match { next: pos + 4, val: Some(s[pos + 2]) }
                } else {
                    SpecParsed::Fail
                }
            } else {
                SpecParsed::Fail
            }
        } else if spec_is_text_char(s[pos + 1]) && s[pos + 1] != ('"' as u8) {
            if pos + 2 >= s.len() {
                SpecParsed::Incomplete
            } else if s[pos + 2] == ('"' as u8) {
                SpecParsed::Match { next: pos + 3, val: Some(s[pos + 1]) }
            } else {
                SpecParsed::Fail
            }
        } else {
            SpecParsed::Fail
        }
    } else {
        match spec_kw(s, pos, "NIL"@) {
            SpecParsed::Match { next, .. } => SpecParsed::Match { next, val: None },
            SpecParsed::Incomplete => SpecParsed::Incomplete,
            SpecParsed::Fail => SpecParsed::Fail,
        }
    }
}

pub fn delimiter(i: &[u8], pos: usize) -> (r: Parsed<Option<u8>>)
    requires
        pos <= i@.len(),
    ensures
        parsed_matches(r, spec_delimiter(i@, pos as int)),
        in_bounds(r, pos as int, i@.len() as int),
{
    proof {
        reveal_strlit("NIL");
    }
    if pos >= i.len() {
        return Parsed::Incomplete;
    }
    if i[pos] == 34 {
        if pos + 1 >= i.len() {
            return Parsed::Incomplete;
        }
        if i[pos + 1] == 92 {
            if pos + 2 >= i.len() {
                return Parsed::Incomplete;
            }
            if i[pos + 2] == 34 || i[pos + 2] == 92 {
                if pos + 3 >= i.len() {
                    return Parsed::Incomplete;
                }
                if i[pos + 3] == 34 {
                    return Parsed::Match { next: pos + 4, val: Some(i[pos + 2]) };
                }
                return Parsed::Fail;
            }
            return Parsed::Fail;
        }
        if is_text_char(i[pos + 1]) && i[pos + 1] != 34 {
            if pos + 2 >= i.len() {
                return Parsed::Incomplete;
            }
            if i[pos + 2] == 34 {
                return Parsed::Match { next: pos + 3, val: Some(i[pos + 1]) };
            }
            return Parsed::Fail;
        }
        return Parsed::Fail;
    }
    match kw(i, pos, "NIL") {
        Parsed::Match { next, .. } => Parsed::Match { next, val: None },
        Parsed::Incomplete => Parsed::Incomplete,
        Parsed::Fail => Parsed::Fail,
    }
}

/// mailbox-list: the flag list, delimiter and name of one `LIST`/`LSUB`
/// line.
pub open spec fn spec_mailbox_list(s: Seq<u8>, pos: int) -> SpecParsed<ListMailBoxView> {
    match spec_byte(s, pos, '(' as u8) {
        SpecParsed::Incomplete => SpecParsed::Incomplete,
        SpecParsed::Fail => SpecParsed::Fail,
        SpecParsed::Match { next: p1, .. } => match spec_mbx_list_flags(s, p1) {
            SpecParsed::Incomplete => SpecParsed::Incomplete,
            SpecParsed::Fail => SpecParsed::Fail,
            SpecParsed::Match { next: p2, val: flags } => match spec_byte(s, p2, ')' as u8) {
                SpecParsed::Incomplete => SpecParsed::Incomplete,
                SpecParsed::Fail => SpecParsed::Fail,
                SpecParsed::Match { next: p3, .. } => match spec_byte(s, p3, ' ' as u8) {
                    SpecParsed::Incomplete => SpecParsed::Incomplete,
                    SpecParsed::Fail => SpecParsed::Fail,
                    SpecParsed::Match { next: p4, .. } => match spec_delimiter(s, p4) {
                        SpecParsed::Incomplete => SpecParsed::Incomplete,
                        SpecParsed::Fail => SpecParsed::Fail,
                        SpecParsed::Match { next: p5, val: delim } => match spec_byte(
                            s,
                            p5,
                            ' ' as u8,
                        ) {
                            SpecParsed::Incomplete => SpecParsed::Incomplete,
                            SpecParsed::Fail => SpecParsed::Fail,
                            SpecParsed::Match { next: p6, .. } => match spec_mailbox(s, p6) {
                                SpecParsed::Match { next, val: name } => SpecParsed::Match {
                                    next,
                                    val: ListMailBoxView { flags, delimiter: delim, name },
                                },
                                SpecParsed::Incomplete => SpecParsed::Incomplete,
                                SpecParsed::Fail => SpecParsed::Fail,
                            },
                        },
                    },
                },
            },
        },
    }
}

pub fn mailbox_list(i: &[u8], pos: usize) -> (r: Parsed<ListMailBox>)
    requires
        pos <= i@.len(),
    ensures
        parsed_matches(r, spec_mailbox_list(i@, pos as int)),
        in_bounds(r, pos as int, i@.len() as int),
{
    let p1 = match byte(i, pos, 40) {
        Parsed::Match { next, .. } => next,
        Parsed::Incomplete => {
            return Parsed::Incomplete;
        },
        Parsed::Fail => {
            return Parsed::Fail;
        },
    };
    let (p2, flags) = match mbx_list_flags(i, p1) {
        Parsed::Match { next, val } => (next, val),
        Parsed::Incomplete => {
            return Parsed::Incomplete;
        },
        Parsed::Fail => {
            return Parsed::Fail;
        },
    };
    let p3 = match byte(i, p2, 41) {
        Parsed::Match { next, .. } => next,
        Parsed::Incomplete => {
            return Parsed::Incomplete;
        },
        Parsed::Fail => {
            return Parsed::Fail;
        },
    };
    let p4 = match byte(i, p3, 32) {
        Parsed::Match { next, .. } => next,
        Parsed::Incomplete => {
            return Parsed::Incomplete;
        },
        Parsed::Fail => {
            return Parsed::Fail;
        },
    };
    let (p5, delim) = match delimiter(i, p4) {
        Parsed::Match { next, val } => (next, val),
        Parsed::Incomplete => {
            return Parsed::Incomplete;
        },
        Parsed::Fail => {
            return Parsed::Fail;
        },
    };
    let p6 = match byte(i, p5, 32) {
        Parsed::Match { next, .. } => next,
        Parsed::Incomplete => {
            return Parsed::Incomplete;
        },
        Parsed::Fail => {
            return Parsed::Fail;
        },
    };
    match mailbox(i, p6) {
        Parsed::Match { next, val } => Parsed::Match {
            next,
            val: ListMailBox { flags, delimiter: delim, name: val },
        },
        Parsed::Incomplete => Parsed::Incomplete,
        Parsed::Fail => Parsed::Fail,
    }
}

// ------------------------------------------------------------------
// SEARCH results.
// ------------------------------------------------------------------

/// `*(SP nz-number)`.
pub open spec fn spec_search_rest(s: Seq<u8>, pos: int) -> SpecParsed<Seq<u32>>
    decreases s.len() - pos,
{
    if pos < 0 || pos >= s.len() {
        SpecParsed::Incomplete
    } else if s[pos] != (' ' as u8) {
        SpecParsed::Match { next: pos, val: Seq::empty() }
    } else {
        match spec_nz_number(s, pos + 1) {
            SpecParsed::Incomplete => SpecParsed::Incomplete,
            SpecParsed::Fail => SpecParsed::Match { next: pos, val: Seq::empty() },
            SpecParsed::Match { next, val } => if next <= pos || next > s.len() {
                SpecParsed::Match { next: pos, val: Seq::empty() }
            } else {
                sp_prepend(seq![val], spec_search_rest(s, next))
            },
        }
    }
}

/// The message numbers of a `SEARCH` reply: zero or more, each prefixed
/// by a space, preserving wire order and duplicates. An empty result
/// list is valid.
pub open spec fn spec_mailbox_data_search(s: Seq<u8>, pos: int) -> SpecParsed<Seq<u32>> {
    spec_search_rest(s, pos)
}

#[verifier::loop_isolation(false)]
pub fn mailbox_data_search(i: &[u8], pos: usize) -> (r: Parsed<Vec<u32>>)
    requires
        pos <= i@.len(),
    ensures
        parsed_matches(r, spec_mailbox_data_search(i@, pos as int)),
        in_bounds(r, pos as int, i@.len() as int),
{
    let mut acc: Vec<u32> = Vec::new();
    let mut cur: usize = pos;
    proof {
        assert(acc.deep_view() =~= Seq::<u32>::empty());
        lemma_prepend_nil(spec_search_rest(i@, pos as int));
    }
    loop
        invariant
            pos <= cur <= i@.len(),
            spec_mailbox_data_search(i@, pos as int) == sp_prepend(
                acc.deep_view(),
                spec_search_rest(i@, cur as int),
            ),
        decreases i@.len() - cur,
    {
        if cur >= i.len() {
            return Parsed::Incomplete;
        }
        if i[cur] != 32 {
            proof {
                lemma_prepend_empty(acc.deep_view(), cur as int);
            }
            return Parsed::Match { next: cur, val: acc };
        }
        match nz_number(i, cur + 1) {
            Parsed::Incomplete => {
                return Parsed::Incomplete;
            },
            Parsed::Fail => {
                proof {
                    lemma_prepend_empty(acc.deep_view(), cur as int);
                }
                return Parsed::Match { next: cur, val: acc };
            },
            Parsed::Match { next, val } => {
                let ghost a0 = acc.deep_view();
                acc.push(val);
                proof {
                    assert(acc.deep_view() =~= a0.push(val));
                    lemma_prepend_step(a0, val, spec_search_rest(i@, next as int));
                }
                cur = next;
            },
        }
    }
}

// ------------------------------------------------------------------
// STATUS data.
// ------------------------------------------------------------------

/// `MESSAGES SP nz-number`.
pub open spec fn spec_status_messages(s: Seq<u8>, pos: int) -> SpecParsed<StatusInfo> {
    match spec_kw(s, pos, "MESSAGES "@) {
        SpecParsed::Incomplete => SpecParsed::Incomplete,
        SpecParsed::Fail => SpecParsed::Fail,
        SpecParsed::Match { next: n1, .. } => match spec_nz_number(s, n1) {
            SpecParsed::Match { next, val } => SpecParsed::Match {
                next,
                val: StatusInfo::Messages(val),
            },
            SpecParsed::Incomplete => SpecParsed::Incomplete,
            SpecParsed::Fail => SpecParsed::Fail,
        },
    }
}

pub fn status_messages(i: &[u8], pos: usize) -> (r: Parsed<StatusInfo>)
    requires
        pos <= i@.len(),
    ensures
        parsed_matches(r, spec_status_messages(i@, pos as int)),
        in_bounds(r, pos as int, i@.len() as int),
{
    proof {
        reveal_strlit("MESSAGES ");
    }
    let n1 = match kw(i, pos, "MESSAGES ") {
        Parsed::Match { next, .. } => next,
        Parsed::Incomplete => {
            return Parsed::Incomplete;
        },
        Parsed::Fail => {
            return Parsed::Fail;
        },
    };
    match nz_number(i, n1) {
        Parsed::Match { next, val } => Parsed::Match { next, val: StatusInfo::Messages(val) },
        Parsed::Incomplete => Parsed::Incomplete,
        Parsed::Fail => Parsed::Fail,
    }
}

/// `RECENT SP nz-number`.
pub open spec fn spec_status_recent(s: Seq<u8>, pos: int) -> SpecParsed<StatusInfo> {
    match spec_kw(s, pos, "RECENT "@) {
        SpecParsed::Incomplete => SpecParsed::Incomplete,
        SpecParsed::Fail => SpecParsed::Fail,
        SpecParsed::Match { next: n1, .. } => match spec_nz_number(s, n1) {
            SpecParsed::Match { next, val } => SpecParsed::Match {
                next,
                val: StatusInfo::Recent(val),
            },
            SpecParsed::Incomplete => SpecParsed::Incomplete,
            SpecParsed::Fail => SpecParsed::Fail,
        },
    }
}

pub fn status_recent(i: &[u8], pos: usize) -> (r: Parsed<StatusInfo>)
    requires
        pos <= i@.len(),
    ensures
        parsed_matches(r, spec_status_recent(i@, pos as int)),
        in_bounds(r, pos as int, i@.len() as int),
{
    proof {
        reveal_strlit("RECENT ");
    }
    let n1 = match kw(i, pos, "RECENT ") {
        Parsed::Match { next, .. } => next,
        Parsed::Incomplete => {
            return Parsed::Incomplete;
        },
        Parsed::Fail => {
            return Parsed::Fail;
        },
    };
    match nz_number(i, n1) {
        Parsed::Match { next, val } => Parsed::Match { next, val: StatusInfo::Recent(val) },
        Parsed::Incomplete => Parsed::Incomplete,
        Parsed::Fail => Parsed::Fail,
    }
}

/// `UIDNEXT SP nz-number`.
pub open spec fn spec_status_uidnext(s: Seq<u8>, pos: int) -> SpecParsed<StatusInfo> {
    match spec_kw(s, pos, "UIDNEXT "@) {
        SpecParsed::Incomplete => SpecParsed::Incomplete,
        SpecParsed::Fail => SpecParsed::Fail,
        SpecParsed::Match { next: n1, .. } => match spec_nz_number(s, n1) {
            SpecParsed::Match { next, val } => SpecParsed::Match {
                next,
                val: StatusInfo::UidNext(val),
            },
            SpecParsed::Incomplete => SpecParsed::Incomplete,
            SpecParsed::Fail => SpecParsed::Fail,
        },
    }
}

pub fn status_uidnext(i: &[u8], pos: usize) -> (r: Parsed<StatusInfo>)
    requires
        pos <= i@.len(),
    ensures
        parsed_matches(r, spec_status_uidnext(i@, pos as int)),
        in_bounds(r, pos as int, i@.len() as int),
{
    proof {
        reveal_strlit("UIDNEXT ");
    }
    let n1 = match kw(i, pos, "UIDNEXT ") {
        Parsed::Match { next, .. } => next,
        Parsed::Incomplete => {
            return Parsed::Incomplete;
        },
        Parsed::Fail => {
            return Parsed::Fail;
        },
    };
    match nz_number(i, n1) {
        Parsed::Match { next, val } => Parsed::Match { next, val: StatusInfo::UidNext(val) },
        Parsed::Incomplete => Parsed::Incomplete,
        Parsed::Fail => Parsed::Fail,
    }
}

/// `UIDVALIDITY SP nz-number`.
pub open spec fn spec_status_uidvalidity(s: Seq<u8>, pos: int) -> SpecParsed<StatusInfo> {
    match spec_kw(s, pos, "UIDVALIDITY "@) {
        SpecParsed::Incomplete => SpecParsed::Incomplete,
        SpecParsed::Fail => SpecParsed::Fail,
        SpecParsed::Match { next: n1, .. } => match spec_nz_number(s, n1) {
            SpecParsed::Match { next, val } => SpecParsed::Match {
                next,
                val: StatusInfo::UidValidity(val),
            },
            SpecParsed::Incomplete => SpecParsed::Incomplete,
            SpecParsed::Fail => SpecParsed::Fail,
        },
    }
}

pub fn status_uidvalidity(i: &[u8], pos: usize) -> (r: Parsed<StatusInfo>)
    requires
        pos <= i@.len(),
    ensures
        parsed_matches(r, spec_status_uidvalidity(i@, pos as int)),
        in_bounds(r, pos as int, i@.len() as int),
{
    proof {
        reveal_strlit("UIDVALIDITY ");
    }
    let n1 = match kw(i, pos, "UIDVALIDITY ") {
        Parsed::Match { next, .. } => next,
        Parsed::Incomplete => {
            return Parsed::Incomplete;
        },
        Parsed::Fail => {
            return Parsed::Fail;
        },
    };
    match nz_number(i, n1) {
        Parsed::Match { next, val } => Parsed::Match {
            next,
            val: StatusInfo::UidValidity(val),
        },
        Parsed::Incomplete => Parsed::Incomplete,
        Parsed::Fail => Parsed::Fail,
    }
}

/// `UNSEEN SP nz-number`.
pub open spec fn spec_status_unseen(s: Seq<u8>, pos: int) -> SpecParsed<StatusInfo> {
    match spec_kw(s, pos, "UNSEEN "@) {
        SpecParsed::Incomplete => SpecParsed::Incomplete,
        SpecParsed::Fail => SpecParsed::Fail,
        SpecParsed::Match { next: n1, .. } => match spec_nz_number(s, n1) {
            SpecParsed::Match { next, val } => SpecParsed::Match {
                next,
                val: StatusInfo::Unseen(val),
            },
            SpecParsed::Incomplete => SpecParsed::Incomplete,
            SpecParsed::Fail => SpecParsed::Fail,
        },
    }
}

pub fn status_unseen(i: &[u8], pos: usize) -> (r: Parsed<StatusInfo>)
    requires
        pos <= i@.len(),
    ensures
        parsed_matches(r, spec_status_unseen(i@, pos as int)),
        in_bounds(r, pos as int, i@.len() as int),
{
    proof {
        reveal_strlit("UNSEEN ");
    }
    let n1 = match kw(i, pos, "UNSEEN ") {
        Parsed::Match { next, .. } => next,
        Parsed::Incomplete => {
            return Parsed::Incomplete;
        },
        Parsed::Fail => {
            return Parsed::Fail;
        },
    };
    match nz_number(i, n1) {
        Parsed::Match { next, val } => Parsed::Match { next, val: StatusInfo::Unseen(val) },
        Parsed::Incomplete => Parsed::Incomplete,
        Parsed::Fail => Parsed::Fail,
    }
}

/// status-att with its value: one of the five attribute pairs.
pub open spec fn spec_status_att(s: Seq<u8>, pos: int) -> SpecParsed<StatusInfo> {
    sp_alt(
        spec_status_messages(s, pos),
        sp_alt(
            spec_status_recent(s, pos),
            sp_alt(
                spec_status_uidnext(s, pos),
                sp_alt(spec_status_uidvalidity(s, pos), spec_status_unseen(s, pos)),
            ),
        ),
    )
}

pub fn status_att(i: &[u8], pos: usize) -> (r: Parsed<StatusInfo>)
    requires
        pos <= i@.len(),
    ensures
        parsed_matches(r, spec_status_att(i@, pos as int)),
        in_bounds(r, pos as int, i@.len() as int),
{
    match status_messages(i, pos) {
        Parsed::Fail => {},
        o => {
            return o;
        },
    }
    match status_recent(i, pos) {
        Parsed::Fail => {},
        o => {
            return o;
        },
    }
    match status_uidnext(i, pos) {
        Parsed::Fail => {},
        o => {
            return o;
        },
    }
    match status_uidvalidity(i, pos) {
        Parsed::Fail => {},
        o => {
            return o;
        },
    }
    status_unseen(i, pos)
}

/// `*(SP status-att)`.
pub open spec fn spec_status_atts_rest(s: Seq<u8>, pos: int) -> SpecParsed<Seq<StatusInfo>>
    decreases s.len() - pos,
{
    if pos < 0 || pos >= s.len() {
        SpecParsed::Incomplete
    } else if s[pos] != (' ' as u8) {
        SpecParsed::Match { next: pos, val: Seq::empty() }
    } else {
        match spec_status_att(s, pos + 1) {
            SpecParsed::Incomplete => SpecParsed::Incomplete,
            SpecParsed::Fail => SpecParsed::Match { next: pos, val: Seq::empty() },
            SpecParsed::Match { next, val } => if next <= pos || next > s.len() {
                SpecParsed::Match { next: pos, val: Seq::empty() }
            } else {
                sp_prepend(seq![val], spec_status_atts_rest(s, next))
            },
        }
    }
}

/// status-att-list, allowing the empty list.
pub open spec fn spec_status_att_list(s: Seq<u8>, pos: int) -> SpecParsed<Seq<StatusInfo>> {
    match spec_status_att(s, pos) {
        SpecParsed::Incomplete => SpecParsed::Incomplete,
        SpecParsed::Fail => SpecParsed::Match { next: pos, val: Seq::empty() },
        SpecParsed::Match { next, val } => sp_prepend(
            seq![val],
            spec_status_atts_rest(s, next),
        ),
    }
}

#[verifier::loop_isolation(false)]
pub fn status_att_list(i: &[u8], pos: usize) -> (r: Parsed<Vec<StatusInfo>>)
    requires
        pos <= i@.len(),
    ensures
        parsed_matches(r, spec_status_att_list(i@, pos as int)),
        in_bounds(r, pos as int, i@.len() as int),
{
    let mut acc: Vec<StatusInfo> = Vec::new();
    let mut cur: usize;
    match status_att(i, pos) {
        Parsed::Incomplete => {
            return Parsed::Incomplete;
        },
        Parsed::Fail => {
            proof {
                assert(acc.deep_view() =~= Seq::<StatusInfo>::empty());
            }
            return Parsed::Match { next: pos, val: acc };
        },
        Parsed::Match { next, val } => {
            acc.push(val);
            cur = next;
            proof {
                assert(acc.deep_view() =~= seq![val]);
            }
        },
    }
    loop
        invariant
            pos <= cur <= i@.len(),
            spec_status_att_list(i@, pos as int) == sp_prepend(
                acc.deep_view(),
                spec_status_atts_rest(i@, cur as int),
            ),
        decreases i@.len() - cur,
    {
        if cur >= i.len() {
            return Parsed::Incomplete;
        }
        if i[cur] != 32 {
            proof {
                lemma_prepend_empty(acc.deep_view(), cur as int);
            }
            return Parsed::Match { next: cur, val: acc };
        }
        match status_att(i, cur + 1) {
            Parsed::Incomplete => {
                return Parsed::Incomplete;
            },
            Parsed::Fail => {
                proof {
                    lemma_prepend_empty(acc.deep_view(), cur as int);
                }
                return Parsed::Match { next: cur, val: acc };
            },
            Parsed::Match { next, val } => {
                let ghost a0 = acc.deep_view();
                acc.push(val);
                proof {
                    assert(acc.deep_view() =~= a0.push(val));
                    lemma_prepend_step(a0, val, spec_status_atts_rest(i@, next as int));
                }
                cur = next;
            },
        }
    }
}

/// `mailbox SP ( [status-att-list] )`.
pub open spec fn spec_mailbox_data_status(s: Seq<u8>, pos: int) -> SpecParsed<
    StatusResponseView,
> {
    match spec_mailbox(s, pos) {
        SpecParsed::Incomplete => SpecParsed::Incomplete,
        SpecParsed::Fail => SpecParsed::Fail,
        SpecParsed::Match { next: n1, val: name } => match spec_byte(s, n1, ' ' as u8) {
            SpecParsed::Incomplete => SpecParsed::Incomplete,
            SpecParsed::Fail => SpecParsed::Fail,
            SpecParsed::Match { next: n2, .. } => match spec_byte(s, n2, '(' as u8) {
                SpecParsed::Incomplete => SpecParsed::Incomplete,
                SpecParsed::Fail => SpecParsed::Fail,
                SpecParsed::Match { next: n3, .. } => match spec_status_att_list(s, n3) {
                    SpecParsed::Incomplete => SpecParsed::Incomplete,
                    SpecParsed::Fail => SpecParsed::Fail,
                    SpecParsed::Match { next: n4, val: atts } => match spec_byte(
                        s,
                        n4,
                        ')' as u8,
                    ) {
                        SpecParsed::Match { next, .. } => SpecParsed::Match {
                            next,
                            val: StatusResponseView { name, status: atts },
                        },
                        SpecParsed::Incomplete => SpecParsed::Incomplete,
                        SpecParsed::Fail => SpecParsed::Fail,
                    },
                },
            },
        },
    }
}

pub fn mailbox_data_status(i: &[u8], pos: usize) -> (r: Parsed<StatusResponse>)
    requires
        pos <= i@.len(),
    ensures
        parsed_matches(r, spec_mailbox_data_status(i@, pos as int)),
        in_bounds(r, pos as int, i@.len() as int),
{
    let (n1, name) = match mailbox(i, pos) {
        Parsed::Match { next, val } => (next, val),
        Parsed::Incomplete => {
            return Parsed::Incomplete;
        },
        Parsed::Fail => {
            return Parsed::Fail;
        },
    };
    let n2 = match byte(i, n1, 32) {
        Parsed::Match { next, .. } => next,
        Parsed::Incomplete => {
            return Parsed::Incomplete;
        },
        Parsed::Fail => {
            return Parsed::Fail;
        },
    };
    let n3 = match byte(i, n2, 40) {
        Parsed::Match { next, .. } => next,
        Parsed::Incomplete => {
            return Parsed::Incomplete;
        },
        Parsed::Fail => {
            return Parsed::Fail;
        },
    };
    let (n4, atts) = match status_att_list(i, n3) {
        Parsed::Match { next, val } => (next, val),
        Parsed::Incomplete => {
            return Parsed::Incomplete;
        },
        Parsed::Fail => {
            return Parsed::Fail;
        },
    };
    match byte(i, n4, 41) {
        Parsed::Match { next, .. } => Parsed::Match {
            next,
            val: StatusResponse { name, status: atts },
        },
        Parsed::Incomplete => Parsed::Incomplete,
        Parsed::Fail => Parsed::Fail,
    }
}

// ------------------------------------------------------------------
// mailbox-data dispatch.
// ------------------------------------------------------------------

/// `FLAGS SP flag-list`.
#[verifier::opaque]
pub open spec fn spec_mbx_flags_branch(s: Seq<u8>, pos: int) -> SpecParsed<MailBoxDataView> {
    match spec_kw(s, pos, "FLAGS "@) {
        SpecParsed::Incomplete => SpecParsed::Incomplete,
        SpecParsed::Fail => SpecParsed::Fail,
        SpecParsed::Match { next: n1, .. } => match spec_flag_list(s, n1) {
            SpecParsed::Match { next, val } => SpecParsed::Match {
                next,
                val: MailBoxDataView::Flags(val),
            },
            SpecParsed::Incomplete => SpecParsed::Incomplete,
            SpecParsed::Fail => SpecParsed::Fail,
        },
    }
}

/// `LIST SP mailbox-list`.
#[verifier::opaque]
pub open spec fn spec_mbx_list_branch(s: Seq<u8>, pos: int) -> SpecParsed<MailBoxDataView> {
    match spec_kw(s, pos, "LIST "@) {
        SpecParsed::Incomplete => SpecParsed::Incomplete,
        SpecParsed::Fail => SpecParsed::Fail,
        SpecParsed::Match { next: n1, .. } => match spec_mailbox_list(s, n1) {
            SpecParsed::Match { next, val } => SpecParsed::Match {
                next,
                val: MailBoxDataView::List(val),
            },
            SpecParsed::Incomplete => SpecParsed::Incomplete,
            SpecParsed::Fail => SpecParsed::Fail,
        },
    }
}

/// `LSUB SP mailbox-list`.
#[verifier::opaque]
pub open spec fn spec_mbx_lsub_branch(s: Seq<u8>, pos: int) -> SpecParsed<MailBoxDataView> {
    match spec_kw(s, pos, "LSUB "@) {
        SpecParsed::Incomplete => SpecParsed::Incomplete,
        SpecParsed::Fail => SpecParsed::Fail,
        SpecParsed::Match { next: n1, .. } => match spec_mailbox_list(s, n1) {
            SpecParsed::Match { next, val } => SpecParsed::Match {
                next,
                val: MailBoxDataView::Lsub(val),
            },
            SpecParsed::Incomplete => SpecParsed::Incomplete,
            SpecParsed::Fail => SpecParsed::Fail,
        },
    }
}

/// `SEARCH *(SP nz-number)`: zero results are valid.
#[verifier::opaque]
pub open spec fn spec_mbx_search_branch(s: Seq<u8>, pos: int) -> SpecParsed<MailBoxDataView> {
    match spec_kw(s, pos, "SEARCH"@) {
        SpecParsed::Incomplete => SpecParsed::Incomplete,
        SpecParsed::Fail => SpecParsed::Fail,
        SpecParsed::Match { next: n1, .. } => match spec_mailbox_data_search(s, n1) {
            SpecParsed::Match { next, val } => SpecParsed::Match {
                next,
                val: MailBoxDataView::Search(val),
            },
            SpecParsed::Incomplete => SpecParsed::Incomplete,
            SpecParsed::Fail => SpecParsed::Fail,
        },
    }
}

/// `STATUS SP mailbox SP ( [status-att-list] )`.
#[verifier::opaque]
pub open spec fn spec_mbx_status_branch(s: Seq<u8>, pos: int) -> SpecParsed<MailBoxDataView> {
    match spec_kw(s, pos, "STATUS "@) {
        SpecParsed::Incomplete => SpecParsed::Incomplete,
        SpecParsed::Fail => SpecParsed::Fail,
        SpecParsed::Match { next: n1, .. } => match spec_mailbox_data_status(s, n1) {
            SpecParsed::Match { next, val } => SpecParsed::Match {
                next,
                val: MailBoxDataView::Status(val),
            },
            SpecParsed::Incomplete => SpecParsed::Incomplete,
            SpecParsed::Fail => SpecParsed::Fail,
        },
    }
}

/// `number SP EXISTS`.
#[verifier::opaque]
pub open spec fn spec_mbx_exists_branch(s: Seq<u8>, pos: int) -> SpecParsed<MailBoxDataView> {
    match spec_number(s, pos) {
        SpecParsed::Incomplete => SpecParsed::Incomplete,
        SpecParsed::Fail => SpecParsed::Fail,
        SpecParsed::Match { next: n1, val } => match spec_kw(s, n1, " EXISTS"@) {
            SpecParsed::Match { next, .. } => SpecParsed::Match {
                next,
                val: MailBoxDataView::Exists(val),
            },
            SpecParsed::Incomplete => SpecParsed::Incomplete,
            SpecParsed::Fail => SpecParsed::Fail,
        },
    }
}

/// `number SP RECENT`.
#[verifier::opaque]
pub open spec fn spec_mbx_recent_branch(s: Seq<u8>, pos: int) -> SpecParsed<MailBoxDataView> {
    match spec_number(s, pos) {
        SpecParsed::Incomplete => SpecParsed::Incomplete,
        SpecParsed::Fail => SpecParsed::Fail,
        SpecParsed::Match { next: n1, val } => match spec_kw(s, n1, " RECENT"@) {
            SpecParsed::Match { next, .. } => SpecParsed::Match {
                next,
                val: MailBoxDataView::Recent(val),
            },
            SpecParsed::Incomplete => SpecParsed::Incomplete,
            SpecParsed::Fail => SpecParsed::Fail,
        },
    }
}

/// mailbox-data: the keyword alternatives in order, then the two
/// number-prefixed counters.
pub open spec fn spec_mailbox_data(s: Seq<u8>, pos: int) -> SpecParsed<MailBoxDataView> {
    sp_alt(
        spec_mbx_flags_branch(s, pos),
        sp_alt(
            spec_mbx_list_branch(s, pos),
            sp_alt(
                spec_mbx_lsub_branch(s, pos),
                sp_alt(
                    spec_mbx_search_branch(s, pos),
                    sp_alt(
                        spec_mbx_status_branch(s, pos),
                        sp_alt(
                            spec_mbx_exists_branch(s, pos),
                            spec_mbx_recent_branch(s, pos),
                        ),
                    ),
                ),
            ),
        ),
    )
}

fn mbx_flags_branch(i: &[u8], pos: usize) -> (r: Parsed<MailBoxData>)
    requires
        pos <= i@.len(),
    ensures
        parsed_matches(r, spec_mbx_flags_branch(i@, pos as int)),
        in_bounds(r, pos as int, i@.len() as int),
{
    proof {
        reveal(spec_mbx_flags_branch);
        reveal_strlit("FLAGS ");
    }
    let n1 = match kw(i, pos, "FLAGS ") {
        Parsed::Match { next, .. } => next,
        Parsed::Incomplete => {
            return Parsed::Incomplete;
        },
        Parsed::Fail => {
            return Parsed::Fail;
        },
    };
    match flag_list(i, n1) {
        Parsed::Match { next, val } => Parsed::Match { next, val: MailBoxData::Flags(val) },
        Parsed::Incomplete => Parsed::Incomplete,
        Parsed::Fail => Parsed::Fail,
    }
}

fn mbx_list_branch(i: &[u8], pos: usize) -> (r: Parsed<MailBoxData>)
    requires
        pos <= i@.len(),
    ensures
        parsed_matches(r, spec_mbx_list_branch(i@, pos as int)),
        in_bounds(r, pos as int, i@.len() as int),
{
    proof {
        reveal(spec_mbx_list_branch);
        reveal_strlit("LIST ");
    }
    let n1 = match kw(i, pos, "LIST ") {
        Parsed::Match { next, .. } => next,
        Parsed::Incomplete => {
            return Parsed::Incomplete;
        },
        Parsed::Fail => {
            return Parsed::Fail;
        },
    };
    match mailbox_list(i, n1) {
        Parsed::Match { next, val } => Parsed::Match { next, val: MailBoxData::List(val) },
        Parsed::Incomplete => Parsed::Incomplete,
        Parsed::Fail => Parsed::Fail,
    }
}

fn mbx_lsub_branch(i: &[u8], pos: usize) -> (r: Parsed<MailBoxData>)
    requires
        pos <= i@.len(),
    ensures
        parsed_matches(r, spec_mbx_lsub_branch(i@, pos as int)),
        in_bounds(r, pos as int, i@.len() as int),
{
    proof {
        reveal(spec_mbx_lsub_branch);
        reveal_strlit("LSUB ");
    }
    let n1 = match kw(i, pos, "LSUB ") {
        Parsed::Match { next, .. } => next,
        Parsed::Incomplete => {
            return Parsed::Incomplete;
        },
        Parsed::Fail => {
            return Parsed::Fail;
        },
    };
    match mailbox_list(i, n1) {
        Parsed::Match { next, val } => Parsed::Match { next, val: MailBoxData::Lsub(val) },
        Parsed::Incomplete => Parsed::Incomplete,
        Parsed::Fail => Parsed::Fail,
    }
}

fn mbx_search_branch(i: &[u8], pos: usize) -> (r: Parsed<MailBoxData>)
    requires
        pos <= i@.len(),
    ensures
        parsed_matches(r, spec_mbx_search_branch(i@, pos as int)),
        in_bounds(r, pos as int, i@.len() as int),
{
    proof {
        reveal(spec_mbx_search_branch);
        reveal_strlit("SEARCH");
    }
    let n1 = match kw(i, pos, "SEARCH") {
        Parsed::Match { next, .. } => next,
        Parsed::Incomplete => {
            return Parsed::Incomplete;
        },
        Parsed::Fail => {
            return Parsed::Fail;
        },
    };
    match mailbox_data_search(i, n1) {
        Parsed::Match { next, val } => Parsed::Match { next, val: MailBoxData::Search(val) },
        Parsed::Incomplete => Parsed::Incomplete,
        Parsed::Fail => Parsed::Fail,
    }
}

#[verifier::rlimit(100)]
fn mbx_status_branch(i: &[u8], pos: usize) -> (r: Parsed<MailBoxData>)
    requires
        pos <= i@.len(),
    ensures
        parsed_matches(r, spec_mbx_status_branch(i@, pos as int)),
        in_bounds(r, pos as int, i@.len() as int),
{
    proof {
        reveal(spec_mbx_status_branch);
        reveal_strlit("STATUS ");
    }
    let n1 = match kw(i, pos, "STATUS ") {
        Parsed::Match { next, .. } => next,
        Parsed::Incomplete => {
            return Parsed::Incomplete;
        },
        Parsed::Fail => {
            return Parsed::Fail;
        },
    };
    match mailbox_data_status(i, n1) {
        Parsed::Match { next, val } => Parsed::Match { next, val: MailBoxData::Status(val) },
        Parsed::Incomplete => Parsed::Incomplete,
        Parsed::Fail => Parsed::Fail,
    }
}

fn mbx_exists_branch(i: &[u8], pos: usize) -> (r: Parsed<MailBoxData>)
    requires
        pos <= i@.len(),
    ensures
        parsed_matches(r, spec_mbx_exists_branch(i@, pos as int)),
        in_bounds(r, pos as int, i@.len() as int),
{
    proof {
        reveal(spec_mbx_exists_branch);
        reveal_strlit(" EXISTS");
    }
    let (n1, val) = match number(i, pos) {
        Parsed::Match { next, val } => (next, val),
        Parsed::Incomplete => {
            return Parsed::Incomplete;
        },
        Parsed::Fail => {
            return Parsed::Fail;
        },
    };
    match kw(i, n1, " EXISTS") {
        Parsed::Match { next, .. } => Parsed::Match { next, val: MailBoxData::Exists(val) },
        Parsed::Incomplete => Parsed::Incomplete,
        Parsed::Fail => Parsed::Fail,
    }
}

fn mbx_recent_branch(i: &[u8], pos: usize) -> (r: Parsed<MailBoxData>)
    requires
        pos <= i@.len(),
    ensures
        parsed_matches(r, spec_mbx_recent_branch(i@, pos as int)),
        in_bounds(r, pos as int, i@.len() as int),
{
    proof {
        reveal(spec_mbx_recent_branch);
        reveal_strlit(" RECENT");
    }
    let (n1, val) = match number(i, pos) {
        Parsed::Match { next, val } => (next, val),
        Parsed::Incomplete => {
            return Parsed::Incomplete;
        },
        Parsed::Fail => {
            return Parsed::Fail;
        },
    };
    match kw(i, n1, " RECENT") {
        Parsed::Match { next, .. } => Parsed::Match { next, val: MailBoxData::Recent(val) },
        Parsed::Incomplete => Parsed::Incomplete,
        Parsed::Fail => Parsed::Fail,
    }
}

pub fn mailbox_data(i: &[u8], pos: usize) -> (r: Parsed<MailBoxData>)
    requires
        pos <= i@.len(),
    ensures
        parsed_matches(r, spec_mailbox_data(i@, pos as int)),
        in_bounds(r, pos as int, i@.len() as int),
{
    match mbx_flags_branch(i, pos) {
        Parsed::Fail => {},
        o => {
            return o;
        },
    }
    match mbx_list_branch(i, pos) {
        Parsed::Fail => {},
        o => {
            return o;
        },
    }
    match mbx_lsub_branch(i, pos) {
        Parsed::Fail => {},
        o => {
            return o;
        },
    }
    match mbx_search_branch(i, pos) {
        Parsed::Fail => {},
        o => {
            return o;
        },
    }
    match mbx_status_branch(i, pos) {
        Parsed::Fail => {},
        o => {
            return o;
        },
    }
    match mbx_exists_branch(i, pos) {
        Parsed::Fail => {},
        o => {
            return o;
        },
    }
    mbx_recent_branch(i, pos)
}

} // verus!
