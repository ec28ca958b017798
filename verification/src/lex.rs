//! Lexical core of the response grammar: byte classifiers and the
//! primitive tokens (atoms, quoted strings, literals, numbers, base64).
//!
//! Every primitive works on a byte slice from a position and follows the
//! streaming discipline of [`crate::parser::Parsed`]: a run that reaches
//! the end of the buffered input is reported as incomplete, never as a
//! match that a longer buffer could extend.

use vstd::prelude::*;
use crate::parser::{Parsed, SpecParsed, parsed_matches, sp_prepend, in_bounds, progress, lemma_bytes_deep_view};

verus! {

broadcast use lemma_bytes_deep_view;

// ------------------------------------------------------------------
// Byte classifiers (RFC 5234 core rules and the RFC 3501 additions).
// ------------------------------------------------------------------

/// CHAR: any 7-bit US-ASCII character excluding NUL.
pub open spec fn spec_is_char(i: u8) -> bool {
    0x01 <= i <= 0x7f
}

/// CTL: control characters.
pub open spec fn spec_is_ctl(i: u8) -> bool {
    i <= 0x1f || i == 0x7f
}

/// SP: the space character.
pub open spec fn spec_is_space(i: u8) -> bool {
    i == 0x20
}

/// CHAR8: any octet except NUL.
pub open spec fn spec_is_char8(i: u8) -> bool {
    i != 0x00
}

/// TEXT-CHAR: any CHAR except CR and LF.
pub open spec fn spec_is_text_char(i: u8) -> bool {
    spec_is_char(i) && i != ('\r' as u8) && i != ('\n' as u8)
}

/// quoted-specials: double quote or backslash.
pub open spec fn spec_is_quoted_specials(i: u8) -> bool {
    i == ('"' as u8) || i == ('\\' as u8)
}

/// QUOTED-CHAR alternatives that need no escaping, plus the two
/// characters that may appear escaped.
pub open spec fn spec_is_quoted_char(i: u8) -> bool {
    spec_is_quoted_specials(i) || spec_is_text_char(i)
}

/// list-wildcards: `%` or `*`.
pub open spec fn spec_is_list_wildcards(i: u8) -> bool {
    i == ('%' as u8) || i == ('*' as u8)
}

/// resp-specials: `]`.
pub open spec fn spec_is_resp_specials(i: u8) -> bool {
    i == (']' as u8)
}

/// base64-char: ALPHA, DIGIT, `+` or `/`.
pub open spec fn spec_is_base64_char(i: u8) -> bool {
    ('A' as u8) <= i <= ('Z' as u8) || ('a' as u8) <= i <= ('z' as u8) || ('0' as u8) <= i
        <= ('9' as u8) || i == ('+' as u8) || i == ('/' as u8)
}

/// atom-specials: `(`, `)`, `{`, SP, CTL, list-wildcards, quoted-specials
/// and resp-specials.
pub open spec fn spec_is_atom_specials(i: u8) -> bool {
    i == ('(' as u8) || i == (')' as u8) || i == ('{' as u8) || spec_is_space(i) || spec_is_ctl(
        i,
    ) || spec_is_list_wildcards(i) || spec_is_quoted_specials(i) || spec_is_resp_specials(i)
}

/// ATOM-CHAR: any CHAR except atom-specials.
pub open spec fn spec_is_atom_char(i: u8) -> bool {
    !spec_is_atom_specials(i) && spec_is_char(i)
}

/// ASTRING-CHAR: ATOM-CHAR or resp-specials.
pub open spec fn spec_is_astring_char(i: u8) -> bool {
    spec_is_atom_char(i) || spec_is_resp_specials(i)
}

/// DIGIT: `0` to `9`.
pub open spec fn spec_is_digit(i: u8) -> bool {
    ('0' as u8) <= i <= ('9' as u8)
}

pub fn is_char(i: u8) -> (r: bool)
    ensures
        r == spec_is_char(i),
{
    0x01 <= i && i <= 0x7f
}

pub fn is_ctl(i: u8) -> (r: bool)
    ensures
        r == spec_is_ctl(i),
{
    i <= 0x1f || i == 0x7f
}

pub fn is_space(i: u8) -> (r: bool)
    ensures
        r == spec_is_space(i),
{
    i == 0x20
}

pub fn is_char8(i: u8) -> (r: bool)
    ensures
        r == spec_is_char8(i),
{
    i != 0x00
}

pub fn is_text_char(i: u8) -> (r: bool)
    ensures
        r == spec_is_text_char(i),
{
    is_char(i) && i != 0x0d && i != 0x0a
}

pub fn is_quoted_specials(i: u8) -> (r: bool)
    ensures
        r == spec_is_quoted_specials(i),
{
    i == 0x22 || i == 0x5c
}

pub fn is_quoted_char(i: u8) -> (r: bool)
    ensures
        r == spec_is_quoted_char(i),
{
    is_quoted_specials(i) || is_text_char(i)
}

pub fn is_list_wildcards(i: u8) -> (r: bool)
    ensures
        r == spec_is_list_wildcards(i),
{
    i == 0x25 || i == 0x2a
}

pub fn is_resp_specials(i: u8) -> (r: bool)
    ensures
        r == spec_is_resp_specials(i),
{
    i == 0x5d
}

pub fn is_base64_char(i: u8) -> (r: bool)
    ensures
        r == spec_is_base64_char(i),
{
    (65 <= i && i <= 90) || (97 <= i && i <= 122) || (48 <= i && i <= 57) || i == 0x2b || i == 0x2f
}

pub fn is_atom_specials(i: u8) -> (r: bool)
    ensures
        r == spec_is_atom_specials(i),
{
    i == 0x28 || i == 0x29 || i == 0x7b || is_space(i) || is_ctl(i) || is_list_wildcards(i)
        || is_quoted_specials(i) || is_resp_specials(i)
}

pub fn is_atom_char(i: u8) -> (r: bool)
    ensures
        r == spec_is_atom_char(i),
{
    !is_atom_specials(i) && is_char(i)
}

pub fn is_astring_char(i: u8) -> (r: bool)
    ensures
        r == spec_is_astring_char(i),
{
    is_atom_char(i) || is_resp_specials(i)
}

pub fn is_digit(i: u8) -> (r: bool)
    ensures
        r == spec_is_digit(i),
{
    48 <= i && i <= 57
}

// ------------------------------------------------------------------
// ASCII case folding: keyword comparisons are case-insensitive.
// ------------------------------------------------------------------

/// Case-folds one ASCII byte: upper-case letters map to lower case,
/// every other byte is unchanged.
pub open spec fn fold_byte(b: u8) -> u8 {
    if 'A' as u8 <= b <= 'Z' as u8 {
        (b + 32) as u8
    } else {
        b
    }
}

/// Executable ASCII case folding, equal to `fold_byte`.
pub fn lower_byte(b: u8) -> (r: u8)
    ensures
        r == fold_byte(b),
{
    if b >= 65 && b <= 90 {
        b + 32
    } else {
        b
    }
}

// ------------------------------------------------------------------
// Maximal runs of a byte class.
// ------------------------------------------------------------------

/// The byte classes over which the grammar takes maximal runs.
#[derive(Clone, Copy, Debug, PartialEq, Eq, Structural)]
pub enum ByteClass {
    Atom,
    Astring,
    Text,
    TextNoBracket,
    Base64,
    Digit,
}

pub open spec fn spec_in_class(k: ByteClass, b: u8) -> bool {
    match k {
        ByteClass::Atom => spec_is_atom_char(b),
        ByteClass::Astring => spec_is_astring_char(b),
        ByteClass::Text => spec_is_text_char(b),
        ByteClass::TextNoBracket => spec_is_text_char(b) && b != (']' as u8),
        ByteClass::Base64 => spec_is_base64_char(b),
        ByteClass::Digit => spec_is_digit(b),
    }
}

pub fn in_class(k: ByteClass, b: u8) -> (r: bool)
    ensures
        r == spec_in_class(k, b),
{
    match k {
        ByteClass::Atom => is_atom_char(b),
        ByteClass::Astring => is_astring_char(b),
        ByteClass::Text => is_text_char(b),
        ByteClass::TextNoBracket => is_text_char(b) && b != 93,
        ByteClass::Base64 => is_base64_char(b),
        ByteClass::Digit => is_digit(b),
    }
}

/// The first index at or after `pos` whose byte leaves the class, or the
/// end of the input if the run reaches it.
pub open spec fn spec_run_end(s: Seq<u8>, pos: int, k: ByteClass) -> int
    decreases s.len() - pos,
{
    if pos < 0 || pos >= s.len() {
        pos
    } else if spec_in_class(k, s[pos]) {
        spec_run_end(s, pos + 1, k)
    } else {
        pos
    }
}

pub proof fn lemma_run_end(s: Seq<u8>, pos: int, k: ByteClass)
    requires
        0 <= pos <= s.len(),
    ensures
        pos <= spec_run_end(s, pos, k) <= s.len(),
        forall|q: int| pos <= q < spec_run_end(s, pos, k) ==> spec_in_class(k, s[q]),
        spec_run_end(s, pos, k) < s.len() ==> !spec_in_class(k, s[spec_run_end(s, pos, k)]),
    decreases s.len() - pos,
{
    if pos < s.len() && spec_in_class(k, s[pos]) {
        lemma_run_end(s, pos + 1, k);
    }
}

/// A run that is known byte-by-byte ends exactly where the class ends.
pub proof fn lemma_run_end_exact(s: Seq<u8>, a: int, b: int, k: ByteClass)
    requires
        0 <= a <= b < s.len(),
        forall|q: int| a <= q < b ==> spec_in_class(k, #[trigger] s[q]),
        !spec_in_class(k, s[b]),
    ensures
        spec_run_end(s, a, k) == b,
    decreases b - a,
{
    if a < b {
        lemma_run_end_exact(s, a + 1, b, k);
    }
}

pub fn run_end(i: &[u8], pos: usize, k: ByteClass) -> (r: usize)
    requires
        pos <= i@.len(),
    ensures
        r == spec_run_end(i@, pos as int, k),
{
    let n = i.len();
    let mut j = pos;
    while j < n && in_class(k, i[j])
        invariant
            pos <= j <= n,
            n == i@.len(),
            spec_run_end(i@, pos as int, k) == spec_run_end(i@, j as int, k),
        decreases n - j,
    {
        j = j + 1;
    }
    j
}

// ------------------------------------------------------------------
// Keywords: case-insensitive fixed words.
// ------------------------------------------------------------------

/// Case-insensitive streaming match of the fixed word `w` at `pos`: a
/// mismatch within the buffered bytes fails; a buffer that ends inside a
/// so-far-matching word is incomplete.
pub open spec fn spec_kw(s: Seq<u8>, pos: int, w: Seq<char>) -> SpecParsed<()> {
    if exists|q: int|
        pos <= q < pos + w.len() && q < s.len() && fold_byte(#[trigger] s[q]) != fold_byte(
            w[q - pos] as u8,
        ) {
        SpecParsed::Fail
    } else if pos + w.len() <= s.len() {
        SpecParsed::Match { next: pos + w.len(), val: () }
    } else {
        SpecParsed::Incomplete
    }
}

/// Matches the ASCII word `w` at `pos`, ignoring case.
pub fn kw(i: &[u8], pos: usize, w: &str) -> (r: Parsed<()>)
    requires
        pos <= i@.len(),
        w.is_ascii(),
    ensures
        parsed_matches(r, spec_kw(i@, pos as int, w@)),
        in_bounds(r, pos as int, i@.len() as int),
{
    let wb = w.as_bytes();
    proof {
        vstd::string::is_ascii_spec_bytes(w);
    }
    let m = wb.len();
    let n = i.len();
    let mut k: usize = 0;
    while k < m
        invariant
            0 <= k <= m,
            m == w@.len(),
            n == i@.len(),
            pos <= n,
            wb@.len() == m,
            pos + k <= n,
            forall|q: int| 0 <= q < m ==> wb@[q] == (w@[q] as u8),
            forall|q: int|
                pos <= q < pos + k ==> q < n && fold_byte(#[trigger] i@[q]) == fold_byte(
                    w@[q - pos] as u8,
                ),
        decreases m - k,
    {
        if n - pos <= k {
            return Parsed::Incomplete;
        }
        let a = lower_byte(i[pos + k]);
        let b = lower_byte(wb[k]);
        if a != b {
            assert(fold_byte(i@[pos + k]) != fold_byte(w@[(pos + k) - pos as int] as u8));
            return Parsed::Fail;
        }
        k = k + 1;
    }
    Parsed::Match { next: pos + m, val: () }
}

/// Case-insensitive equality of a byte sequence with an ASCII word.
pub open spec fn spec_fold_eq(a: Seq<u8>, w: Seq<char>) -> bool {
    a.len() == w.len() && forall|q: int|
        0 <= q < a.len() ==> fold_byte(#[trigger] a[q]) == fold_byte(w[q] as u8)
}

/// Compares bytes with the ASCII word `w`, ignoring case.
pub fn fold_eq(v: &[u8], w: &str) -> (r: bool)
    requires
        w.is_ascii(),
    ensures
        r == spec_fold_eq(v@, w@),
{
    let wb = w.as_bytes();
    proof {
        vstd::string::is_ascii_spec_bytes(w);
    }
    let m = wb.len();
    if v.len() != m {
        return false;
    }
    let mut k: usize = 0;
    while k < m
        invariant
            0 <= k <= m,
            m == w@.len(),
            v@.len() == m,
            wb@.len() == m,
            forall|q: int| 0 <= q < m ==> wb@[q] == (w@[q] as u8),
            forall|q: int| 0 <= q < k ==> fold_byte(#[trigger] v@[q]) == fold_byte(w@[q] as u8),
        decreases m - k,
    {
        if lower_byte(v[k]) != lower_byte(wb[k]) {
            return false;
        }
        k = k + 1;
    }
    true
}

// ------------------------------------------------------------------
// Single fixed bytes.
// ------------------------------------------------------------------

/// Streaming match of the single byte `b` at `pos`.
pub open spec fn spec_byte(s: Seq<u8>, pos: int, b: u8) -> SpecParsed<()> {
    if pos >= s.len() {
        SpecParsed::Incomplete
    } else if s[pos] == b {
        SpecParsed::Match { next: pos + 1, val: () }
    } else {
        SpecParsed::Fail
    }
}

pub fn byte(i: &[u8], pos: usize, b: u8) -> (r: Parsed<()>)
    requires
        pos <= i@.len(),
    ensures
        parsed_matches(r, spec_byte(i@, pos as int, b)),
        in_bounds(r, pos as int, i@.len() as int),
{
    if pos >= i.len() {
        Parsed::Incomplete
    } else if i[pos] == b {
        Parsed::Match { next: pos + 1, val: () }
    } else {
        Parsed::Fail
    }
}

// ------------------------------------------------------------------
// Copying a range of the input.
// ------------------------------------------------------------------

/// Copies `i[a..b]` into an owned vector.
pub fn copy_range(i: &[u8], a: usize, b: usize) -> (r: Vec<u8>)
    requires
        a <= b <= i@.len(),
    ensures
        r@ == i@.subrange(a as int, b as int),
{
    let s = vstd::slice::slice_subrange(i, a, b);
    vstd::slice::slice_to_vec(s)
}

// ------------------------------------------------------------------
// Numbers.
// ------------------------------------------------------------------

/// The value of the decimal digits `s[a..b]`.
pub open spec fn spec_digits_val(s: Seq<u8>, a: int, b: int) -> int
    decreases b - a,
{
    if a >= b {
        0
    } else {
        spec_digits_val(s, a, b - 1) * 10 + (s[b - 1] - ('0' as u8))
    }
}

pub proof fn lemma_digits_val_nonneg(s: Seq<u8>, a: int, b: int)
    requires
        forall|q: int| a <= q < b ==> spec_is_digit(s[q]),
    ensures
        0 <= spec_digits_val(s, a, b),
    decreases b - a,
{
    if a < b {
        lemma_digits_val_nonneg(s, a, b - 1);
    }
}

/// Reading more digits never shrinks the value.
pub proof fn lemma_digits_val_mono(s: Seq<u8>, a: int, c: int, b: int)
    requires
        a <= c <= b,
        forall|q: int| a <= q < b ==> spec_is_digit(s[q]),
    ensures
        spec_digits_val(s, a, c) <= spec_digits_val(s, a, b),
    decreases b - c,
{
    if c < b {
        lemma_digits_val_mono(s, a, c, b - 1);
        lemma_digits_val_nonneg(s, a, b - 1);
    }
}

/// `n` digits are worth less than `10^n`.
pub proof fn lemma_digits_val_bound(s: Seq<u8>, a: int, b: int, bound: int)
    requires
        a <= b,
        forall|q: int| a <= q < b ==> spec_is_digit(s[q]),
        pow10(b - a) <= bound,
    ensures
        spec_digits_val(s, a, b) < bound,
    decreases b - a,
{
    if a < b {
        lemma_pow10_mono(b - 1 - a, b - a);
        lemma_digits_val_bound(s, a, b - 1, pow10(b - 1 - a));
    } else {
        lemma_pow10_pos(0);
    }
}

pub open spec fn pow10(n: int) -> int
    decreases n,
{
    if n <= 0 {
        1
    } else {
        10 * pow10(n - 1)
    }
}

pub proof fn lemma_pow10_pos(n: int)
    ensures
        pow10(n) >= 1,
    decreases n,
{
    if n > 0 {
        lemma_pow10_pos(n - 1);
    }
}

pub proof fn lemma_pow10_mono(m: int, n: int)
    requires
        m <= n,
    ensures
        pow10(m) <= pow10(n),
    decreases n - m,
{
    if m < n {
        lemma_pow10_mono(m, n - 1);
        lemma_pow10_pos(n - 1);
    }
}

/// number: one or more digits read as an unsigned 32-bit decimal; a value
/// that overflows 32 bits is malformed. The run reaching the end of the
/// buffer is incomplete, since more digits may follow.
pub open spec fn spec_number(s: Seq<u8>, pos: int) -> SpecParsed<u32> {
    let e = spec_run_end(s, pos, ByteClass::Digit);
    if e == s.len() {
        SpecParsed::Incomplete
    } else if e == pos {
        SpecParsed::Fail
    } else if spec_digits_val(s, pos, e) > u32::MAX {
        SpecParsed::Fail
    } else {
        SpecParsed::Match { next: e, val: spec_digits_val(s, pos, e) as u32 }
    }
}

pub fn number(i: &[u8], pos: usize) -> (r: Parsed<u32>)
    requires
        pos <= i@.len(),
    ensures
        parsed_matches(r, spec_number(i@, pos as int)),
        in_bounds(r, pos as int, i@.len() as int),
{
    let e = run_end(i, pos, ByteClass::Digit);
    proof {
        lemma_run_end(i@, pos as int, ByteClass::Digit);
    }
    if e == i.len() {
        return Parsed::Incomplete;
    }
    if e == pos {
        return Parsed::Fail;
    }
    let mut acc: u32 = 0;
    let mut j = pos;
    while j < e
        invariant
            pos <= j <= e < i@.len(),
            pos < e,
            e == spec_run_end(i@, pos as int, ByteClass::Digit),
            forall|q: int| pos <= q < e ==> spec_is_digit(i@[q]),
            acc == spec_digits_val(i@, pos as int, j as int),
        decreases e - j,
    {
        let d = i[j] - 48;
        let t = match acc.checked_mul(10) {
            Some(t) => t,
            None => {
                proof {
                    lemma_digits_val_nonneg(i@, pos as int, j as int);
                    assert(spec_is_digit(i@[j as int]));
                    assert(spec_digits_val(i@, pos as int, j + 1) == acc * 10 + (i@[j as int]
                        - 48));
                    lemma_digits_val_mono(i@, pos as int, j + 1, e as int);
                }
                return Parsed::Fail;
            },
        };
        let t2 = match t.checked_add(d as u32) {
            Some(v) => v,
            None => {
                proof {
                    assert(spec_is_digit(i@[j as int]));
                    assert(spec_digits_val(i@, pos as int, j + 1) == acc * 10 + (i@[j as int]
                        - 48));
                    lemma_digits_val_mono(i@, pos as int, j + 1, e as int);
                }
                return Parsed::Fail;
            },
        };
        acc = t2;
        j = j + 1;
    }
    Parsed::Match { next: e, val: acc }
}

/// nz-number: a number that is not 0 and has no leading zero digit.
pub open spec fn spec_nz_number(s: Seq<u8>, pos: int) -> SpecParsed<u32> {
    if pos >= s.len() {
        SpecParsed::Incomplete
    } else if s[pos] == ('0' as u8) {
        SpecParsed::Fail
    } else {
        spec_number(s, pos)
    }
}

pub fn nz_number(i: &[u8], pos: usize) -> (r: Parsed<u32>)
    requires
        pos <= i@.len(),
    ensures
        parsed_matches(r, spec_nz_number(i@, pos as int)),
        in_bounds(r, pos as int, i@.len() as int),
{
    if pos >= i.len() {
        Parsed::Incomplete
    } else if i[pos] == 48 {
        Parsed::Fail
    } else {
        number(i, pos)
    }
}

/// The value of exactly `m` digits stays under `10^m`.
pub proof fn lemma_fixed_num_val(s: Seq<u8>, pos: int, m: int)
    requires
        0 <= m <= 8,
    ensures
        spec_fixed_num(s, pos, m) matches SpecParsed::Match { val, .. } ==> (val as int) < pow10(
            m,
        ),
{
    if spec_fixed_num(s, pos, m) matches SpecParsed::Match { val, .. } {
        assert forall|q: int| pos <= q < pos + m implies spec_is_digit(#[trigger] s[q]) by {
            assert(!(pos <= q < pos + m && q < s.len() && !spec_is_digit(s[q])));
        }
        lemma_digits_val_nonneg(s, pos, pos + m);
        lemma_digits_val_bound(s, pos, pos + m, pow10(m));
        lemma_pow10_mono(m, 8);
        reveal_with_fuel(pow10, 9);
    }
}

/// Exactly `m` digits read as a decimal value.
pub open spec fn spec_fixed_num(s: Seq<u8>, pos: int, m: int) -> SpecParsed<u32> {
    if exists|q: int| pos <= q < pos + m && q < s.len() && !spec_is_digit(#[trigger] s[q]) {
        SpecParsed::Fail
    } else if pos + m <= s.len() {
        SpecParsed::Match { next: pos + m, val: spec_digits_val(s, pos, pos + m) as u32 }
    } else {
        SpecParsed::Incomplete
    }
}

pub fn fixed_num(i: &[u8], pos: usize, m: usize) -> (r: Parsed<u32>)
    requires
        pos <= i@.len(),
        m <= 8,
    ensures
        parsed_matches(r, spec_fixed_num(i@, pos as int, m as int)),
        in_bounds(r, pos as int, i@.len() as int),
{
    let n = i.len();
    let mut acc: u32 = 0;
    let mut k: usize = 0;
    while k < m
        invariant
            0 <= k <= m <= 8,
            pos <= n,
            n == i@.len(),
            forall|q: int| pos <= q < pos + k ==> q < n && spec_is_digit(#[trigger] i@[q]),
            acc == spec_digits_val(i@, pos as int, pos + k),
            acc < pow10(k as int),
        decreases m - k,
    {
        if n - pos <= k {
            return Parsed::Incomplete;
        }
        let b = i[pos + k];
        if !is_digit(b) {
            assert(!spec_is_digit(i@[pos + k]));
            return Parsed::Fail;
        }
        proof {
            lemma_pow10_mono(k + 1, 8);
            reveal_with_fuel(pow10, 9);
            assert(pow10(8) == 100000000);
        }
        acc = acc * 10 + (b - 48) as u32;
        k = k + 1;
    }
    Parsed::Match { next: pos + m, val: acc }
}

// ------------------------------------------------------------------
// Token runs: atoms, astrings, free text.
// ------------------------------------------------------------------

/// A maximal non-empty run of one byte class, returned verbatim. A run
/// that reaches the end of the buffer is incomplete, since it may extend.
pub open spec fn spec_class_run1(s: Seq<u8>, pos: int, k: ByteClass) -> SpecParsed<Seq<u8>> {
    let e = spec_run_end(s, pos, k);
    if e == s.len() {
        SpecParsed::Incomplete
    } else if e == pos {
        SpecParsed::Fail
    } else {
        SpecParsed::Match { next: e, val: s.subrange(pos, e) }
    }
}

pub fn class_run1(i: &[u8], pos: usize, k: ByteClass) -> (r: Parsed<Vec<u8>>)
    requires
        pos <= i@.len(),
    ensures
        parsed_matches(r, spec_class_run1(i@, pos as int, k)),
        in_bounds(r, pos as int, i@.len() as int),
        progress(r, pos as int),
{
    let e = run_end(i, pos, k);
    proof {
        lemma_run_end(i@, pos as int, k);
    }
    if e == i.len() {
        Parsed::Incomplete
    } else if e == pos {
        Parsed::Fail
    } else {
        Parsed::Match { next: e, val: copy_range(i, pos, e) }
    }
}

/// atom: one or more ATOM-CHARs.
pub open spec fn spec_atom(s: Seq<u8>, pos: int) -> SpecParsed<Seq<u8>> {
    spec_class_run1(s, pos, ByteClass::Atom)
}

pub fn atom(i: &[u8], pos: usize) -> (r: Parsed<Vec<u8>>)
    requires
        pos <= i@.len(),
    ensures
        parsed_matches(r, spec_atom(i@, pos as int)),
        in_bounds(r, pos as int, i@.len() as int),
        progress(r, pos as int),
{
    class_run1(i, pos, ByteClass::Atom)
}

/// text: one or more TEXT-CHARs, i.e. free text up to the next CR or LF.
pub open spec fn spec_text(s: Seq<u8>, pos: int) -> SpecParsed<Seq<u8>> {
    spec_class_run1(s, pos, ByteClass::Text)
}

pub fn text(i: &[u8], pos: usize) -> (r: Parsed<Vec<u8>>)
    requires
        pos <= i@.len(),
    ensures
        parsed_matches(r, spec_text(i@, pos as int)),
        in_bounds(r, pos as int, i@.len() as int),
        progress(r, pos as int),
{
    class_run1(i, pos, ByteClass::Text)
}

// ------------------------------------------------------------------
// Quoted strings.
// ------------------------------------------------------------------

/// The inside of a quoted string from `pos` up to the closing quote:
/// `\"` and `\\` unescape to the bare character, raw CR/LF (and any
/// other non-text byte) is malformed, and the value is the unescaped
/// content.
pub open spec fn spec_quoted_tail(s: Seq<u8>, pos: int) -> SpecParsed<Seq<u8>>
    decreases s.len() - pos,
{
    if pos < 0 || pos >= s.len() {
        SpecParsed::Incomplete
    } else if s[pos] == ('"' as u8) {
        SpecParsed::Match { next: pos + 1, val: Seq::empty() }
    } else if s[pos] == ('\\' as u8) {
        if pos + 1 >= s.len() {
            SpecParsed::Incomplete
        } else if s[pos + 1] == ('"' as u8) || s[pos + 1] == ('\\' as u8) {
            sp_prepend(seq![s[pos + 1]], spec_quoted_tail(s, pos + 2))
        } else {
            SpecParsed::Fail
        }
    } else if spec_is_text_char(s[pos]) {
        sp_prepend(seq![s[pos]], spec_quoted_tail(s, pos + 1))
    } else {
        SpecParsed::Fail
    }
}

/// quoted: a double-quote delimited string; the value is the unescaped
/// content.
pub open spec fn spec_quoted(s: Seq<u8>, pos: int) -> SpecParsed<Seq<u8>> {
    if pos >= s.len() {
        SpecParsed::Incomplete
    } else if s[pos] != ('"' as u8) {
        SpecParsed::Fail
    } else {
        spec_quoted_tail(s, pos + 1)
    }
}

#[verifier::loop_isolation(false)]
pub fn quoted(i: &[u8], pos: usize) -> (r: Parsed<Vec<u8>>)
    requires
        pos <= i@.len(),
    ensures
        parsed_matches(r, spec_quoted(i@, pos as int)),
        in_bounds(r, pos as int, i@.len() as int),
        progress(r, pos as int),
{
    let n = i.len();
    if pos >= n {
        return Parsed::Incomplete;
    }
    if i[pos] != 34 {
        return Parsed::Fail;
    }
    let mut cur = pos + 1;
    let mut acc: Vec<u8> = Vec::new();
    loop
        invariant
            pos + 1 <= cur <= n,
            spec_quoted_tail(i@, pos + 1) == sp_prepend(acc@, spec_quoted_tail(i@, cur as int)),
        decreases n - cur,
    {
        if cur == n {
            return Parsed::Incomplete;
        }
        let b = i[cur];
        if b == 34 {
            proof {
                assert(acc@ + Seq::<u8>::empty() =~= acc@);
            }
            return Parsed::Match { next: cur + 1, val: acc };
        }
        if b == 92 {
            if cur + 1 == n {
                return Parsed::Incomplete;
            }
            let c = i[cur + 1];
            if c == 34 || c == 92 {
                let ghost a0 = acc@;
                acc.push(c);
                proof {
                    assert forall|sp: SpecParsed<Seq<u8>>|
                        sp_prepend(a0, sp_prepend(seq![c], sp)) == sp_prepend(
                            acc@,
                            sp,
                        ) by {
                        assert(a0 + (seq![c] + (match sp {
                            SpecParsed::Match { val, .. } => val,
                            _ => Seq::empty(),
                        })) =~= acc@ + (match sp {
                            SpecParsed::Match { val, .. } => val,
                            _ => Seq::empty(),
                        }));
                    }
                }
                cur = cur + 2;
            } else {
                return Parsed::Fail;
            }
        } else if is_text_char(b) {
            let ghost a0 = acc@;
            acc.push(b);
            proof {
                assert forall|sp: SpecParsed<Seq<u8>>|
                    sp_prepend(a0, sp_prepend(seq![b], sp)) == sp_prepend(acc@, sp) by {
                    assert(a0 + (seq![b] + (match sp {
                        SpecParsed::Match { val, .. } => val,
                        _ => Seq::empty(),
                    })) =~= acc@ + (match sp {
                        SpecParsed::Match { val, .. } => val,
                        _ => Seq::empty(),
                    }));
                }
            }
            cur = cur + 1;
        } else {
            return Parsed::Fail;
        }
    }
}

// ------------------------------------------------------------------
// CRLF and literals.
// ------------------------------------------------------------------

/// CRLF: the two-byte line terminator.
pub open spec fn spec_crlf(s: Seq<u8>, pos: int) -> SpecParsed<()> {
    if pos >= s.len() {
        SpecParsed::Incomplete
    } else if s[pos] != ('\r' as u8) {
        SpecParsed::Fail
    } else if pos + 1 >= s.len() {
        SpecParsed::Incomplete
    } else if s[pos + 1] != ('\n' as u8) {
        SpecParsed::Fail
    } else {
        SpecParsed::Match { next: pos + 2, val: () }
    }
}

pub fn crlf(i: &[u8], pos: usize) -> (r: Parsed<()>)
    requires
        pos <= i@.len(),
    ensures
        parsed_matches(r, spec_crlf(i@, pos as int)),
        in_bounds(r, pos as int, i@.len() as int),
{
    let n = i.len();
    if pos >= n {
        Parsed::Incomplete
    } else if i[pos] != 13 {
        Parsed::Fail
    } else if pos + 1 >= n {
        Parsed::Incomplete
    } else if i[pos + 1] != 10 {
        Parsed::Fail
    } else {
        Parsed::Match { next: pos + 2, val: () }
    }
}

/// literal: `{` count `}` CRLF followed by exactly `count` raw octets,
/// taken verbatim regardless of content.
pub open spec fn spec_literal(s: Seq<u8>, pos: int) -> SpecParsed<Seq<u8>> {
    match spec_byte(s, pos, '{' as u8) {
        SpecParsed::Incomplete => SpecParsed::Incomplete,
        SpecParsed::Fail => SpecParsed::Fail,
        SpecParsed::Match { next: p1, .. } => match spec_number(s, p1) {
            SpecParsed::Incomplete => SpecParsed::Incomplete,
            SpecParsed::Fail => SpecParsed::Fail,
            SpecParsed::Match { next: p2, val: cnt } => match spec_byte(s, p2, '}' as u8) {
                SpecParsed::Incomplete => SpecParsed::Incomplete,
                SpecParsed::Fail => SpecParsed::Fail,
                SpecParsed::Match { next: p3, .. } => match spec_crlf(s, p3) {
                    SpecParsed::Incomplete => SpecParsed::Incomplete,
                    SpecParsed::Fail => SpecParsed::Fail,
                    SpecParsed::Match { next: p4, .. } => if p4 + cnt <= s.len() {
                        SpecParsed::Match { next: p4 + cnt, val: s.subrange(p4, p4 + cnt) }
                    } else {
                        SpecParsed::Incomplete
                    },
                },
            },
        },
    }
}

pub fn literal(i: &[u8], pos: usize) -> (r: Parsed<Vec<u8>>)
    requires
        pos <= i@.len(),
    ensures
        parsed_matches(r, spec_literal(i@, pos as int)),
        in_bounds(r, pos as int, i@.len() as int),
        progress(r, pos as int),
{
    let p1 = match byte(i, pos, 123) {
        Parsed::Match { next, .. } => next,
        Parsed::Incomplete => { return Parsed::Incomplete; },
        Parsed::Fail => { return Parsed::Fail; },
    };
    let (p2, cnt) = match number(i, p1) {
        Parsed::Match { next, val } => (next, val),
        Parsed::Incomplete => { return Parsed::Incomplete; },
        Parsed::Fail => { return Parsed::Fail; },
    };
    let p3 = match byte(i, p2, 125) {
        Parsed::Match { next, .. } => next,
        Parsed::Incomplete => { return Parsed::Incomplete; },
        Parsed::Fail => { return Parsed::Fail; },
    };
    let p4 = match crlf(i, p3) {
        Parsed::Match { next, .. } => next,
        Parsed::Incomplete => { return Parsed::Incomplete; },
        Parsed::Fail => { return Parsed::Fail; },
    };
    let avail = i.len() - p4;
    if (cnt as u64) > (avail as u64) {
        return Parsed::Incomplete;
    }
    let cn = cnt as usize;
    Parsed::Match { next: p4 + cn, val: copy_range(i, p4, p4 + cn) }
}

/// Law: a literal's payload is verbatim input. The decoded octets are
/// exactly the input bytes that end where the literal's match ends,
/// regardless of their content.
pub proof fn lemma_literal_verbatim(s: Seq<u8>, pos: int)
    requires
        0 <= pos <= s.len(),
    ensures
        spec_literal(s, pos) matches SpecParsed::Match { next, val } ==> val == s.subrange(
            next - val.len(),
            next,
        ),
{
    if pos < s.len() {
        lemma_run_end(s, pos + 1, ByteClass::Digit);
    }
    match spec_literal(s, pos) {
        SpecParsed::Match { next, val } => {
            assert(val =~= s.subrange(next - val.len(), next));
        },
        _ => {},
    }
}

// ------------------------------------------------------------------
// string, nstring, astring.
// ------------------------------------------------------------------

/// string: quoted or literal.
pub open spec fn spec_string(s: Seq<u8>, pos: int) -> SpecParsed<Seq<u8>> {
    match spec_quoted(s, pos) {
        SpecParsed::Fail => spec_literal(s, pos),
        o => o,
    }
}

pub fn string(i: &[u8], pos: usize) -> (r: Parsed<Vec<u8>>)
    requires
        pos <= i@.len(),
    ensures
        parsed_matches(r, spec_string(i@, pos as int)),
        in_bounds(r, pos as int, i@.len() as int),
        progress(r, pos as int),
{
    match quoted(i, pos) {
        Parsed::Fail => literal(i, pos),
        o => o,
    }
}

/// nstring: a string, or the case-insensitive word `NIL` standing for an
/// absent value.
pub open spec fn spec_nstring(s: Seq<u8>, pos: int) -> SpecParsed<Option<Seq<u8>>> {
    match spec_string(s, pos) {
        SpecParsed::Match { next, val } => SpecParsed::Match { next, val: Some(val) },
        SpecParsed::Incomplete => SpecParsed::Incomplete,
        SpecParsed::Fail => match spec_kw(s, pos, "NIL"@) {
            SpecParsed::Match { next, .. } => SpecParsed::Match { next, val: None },
            SpecParsed::Incomplete => SpecParsed::Incomplete,
            SpecParsed::Fail => SpecParsed::Fail,
        },
    }
}

pub fn nstring(i: &[u8], pos: usize) -> (r: Parsed<Option<Vec<u8>>>)
    requires
        pos <= i@.len(),
    ensures
        parsed_matches(r, spec_nstring(i@, pos as int)),
        in_bounds(r, pos as int, i@.len() as int),
{
    proof {
        reveal_strlit("NIL");
        assert("NIL".is_ascii());
    }
    match string(i, pos) {
        Parsed::Match { next, val } => Parsed::Match { next, val: Some(val) },
        Parsed::Incomplete => Parsed::Incomplete,
        Parsed::Fail => match kw(i, pos, "NIL") {
            Parsed::Match { next, .. } => Parsed::Match { next, val: None },
            Parsed::Incomplete => Parsed::Incomplete,
            Parsed::Fail => Parsed::Fail,
        },
    }
}

/// astring: a string, or one or more ASTRING-CHARs.
pub open spec fn spec_astring(s: Seq<u8>, pos: int) -> SpecParsed<Seq<u8>> {
    match spec_string(s, pos) {
        SpecParsed::Fail => spec_class_run1(s, pos, ByteClass::Astring),
        o => o,
    }
}

pub fn astring(i: &[u8], pos: usize) -> (r: Parsed<Vec<u8>>)
    requires
        pos <= i@.len(),
    ensures
        parsed_matches(r, spec_astring(i@, pos as int)),
        in_bounds(r, pos as int, i@.len() as int),
        progress(r, pos as int),
{
    match string(i, pos) {
        Parsed::Fail => class_run1(i, pos, ByteClass::Astring),
        o => o,
    }
}

// ------------------------------------------------------------------
// base64.
// ------------------------------------------------------------------

/// How many of the next four bytes at `pos` are base64-alphabet bytes,
/// stopping at the first byte that is not.
pub open spec fn spec_b64_prefix(s: Seq<u8>, pos: int) -> int {
    if pos >= s.len() || !spec_is_base64_char(s[pos]) {
        0
    } else if pos + 1 >= s.len() || !spec_is_base64_char(s[pos + 1]) {
        1
    } else if pos + 2 >= s.len() || !spec_is_base64_char(s[pos + 2]) {
        2
    } else if pos + 3 >= s.len() || !spec_is_base64_char(s[pos + 3]) {
        3
    } else {
        4
    }
}

/// End of a base64 token starting at `pos`: complete four-byte groups,
/// then optionally a padded terminal group of two or three alphabet bytes.
/// A group cut off by the end of the buffer is incomplete.
pub open spec fn spec_base64_end(s: Seq<u8>, pos: int) -> SpecParsed<()>
    decreases s.len() - pos,
{
    let c = spec_b64_prefix(s, pos);
    if pos < 0 || pos > s.len() {
        SpecParsed::Fail
    } else if c == 4 {
        spec_base64_end(s, pos + 4)
    } else if pos + c == s.len() {
        SpecParsed::Incomplete
    } else if c == 3 {
        if s[pos + 3] == ('=' as u8) {
            SpecParsed::Match { next: pos + 4, val: () }
        } else {
            SpecParsed::Match { next: pos, val: () }
        }
    } else if c == 2 {
        if s[pos + 2] == ('=' as u8) {
            if pos + 3 == s.len() {
                SpecParsed::Incomplete
            } else if s[pos + 3] == ('=' as u8) {
                SpecParsed::Match { next: pos + 4, val: () }
            } else {
                SpecParsed::Match { next: pos, val: () }
            }
        } else {
            SpecParsed::Match { next: pos, val: () }
        }
    } else {
        SpecParsed::Match { next: pos, val: () }
    }
}

pub proof fn lemma_base64_end_bounds(s: Seq<u8>, pos: int)
    requires
        0 <= pos <= s.len(),
    ensures
        spec_base64_end(s, pos) matches SpecParsed::Match { next, .. } ==> pos <= next
            <= s.len(),
    decreases s.len() - pos,
{
    if spec_b64_prefix(s, pos) == 4 {
        lemma_base64_end_bounds(s, pos + 4);
    }
}

/// base64: the maximal run of four-byte groups with an optional padded
/// terminal group, returned verbatim. The token may be empty.
pub open spec fn spec_base64(s: Seq<u8>, pos: int) -> SpecParsed<Seq<u8>> {
    match spec_base64_end(s, pos) {
        SpecParsed::Match { next, .. } => SpecParsed::Match {
            next,
            val: s.subrange(pos, next),
        },
        SpecParsed::Incomplete => SpecParsed::Incomplete,
        SpecParsed::Fail => SpecParsed::Fail,
    }
}

#[verifier::loop_isolation(false)]
pub fn base64(i: &[u8], pos: usize) -> (r: Parsed<Vec<u8>>)
    requires
        pos <= i@.len(),
    ensures
        parsed_matches(r, spec_base64(i@, pos as int)),
        in_bounds(r, pos as int, i@.len() as int),
{
    let n = i.len();
    let mut cur = pos;
    loop
        invariant
            pos <= cur <= n,
            spec_base64_end(i@, pos as int) == spec_base64_end(i@, cur as int),
        decreases n - cur,
    {
        let c: usize = if cur >= n || !is_base64_char(i[cur]) {
            0
        } else if cur + 1 >= n || !is_base64_char(i[cur + 1]) {
            1
        } else if cur + 2 >= n || !is_base64_char(i[cur + 2]) {
            2
        } else if cur + 3 >= n || !is_base64_char(i[cur + 3]) {
            3
        } else {
            4
        };
        assert(c == spec_b64_prefix(i@, cur as int));
        if c == 4 {
            cur = cur + 4;
        } else if cur + c == n {
            return Parsed::Incomplete;
        } else if c == 3 {
            if i[cur + 3] == 61 {
                return Parsed::Match { next: cur + 4, val: copy_range(i, pos, cur + 4) };
            } else {
                return Parsed::Match { next: cur, val: copy_range(i, pos, cur) };
            }
        } else if c == 2 {
            if i[cur + 2] == 61 {
                if cur + 3 == n {
                    return Parsed::Incomplete;
                } else if i[cur + 3] == 61 {
                    return Parsed::Match { next: cur + 4, val: copy_range(i, pos, cur + 4) };
                } else {
                    return Parsed::Match { next: cur, val: copy_range(i, pos, cur) };
                }
            } else {
                return Parsed::Match { next: cur, val: copy_range(i, pos, cur) };
            }
        } else {
            return Parsed::Match { next: cur, val: copy_range(i, pos, cur) };
        }
    }
}


} // verus!
