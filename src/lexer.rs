//! Bytes of a line: classes, runs, positions and number literals.
use vstd::prelude::*;
use crate::source::{Position, Span};

verus! {

/// Kinds of lexical and syntactic failure.
#[derive(Clone, Copy, Debug, PartialEq, Eq, Structural)]
pub enum ParseErrorKind {
    UnexpectedToken,
    UnterminatedString,
    InvalidNumberLiteral,
    InvalidAddressingSyntax,
}

/// A lexical or syntactic failure at a position.
#[derive(Clone, Copy, Debug, PartialEq, Eq, Structural)]
pub struct ParseError {
    pub kind: ParseErrorKind,
    pub position: Position,
}

/// The line being read: its bounds in the buffer and its number.
#[derive(Clone, Copy, Debug, PartialEq, Eq, Structural)]
pub struct LineCtx {
    pub file_id: usize,
    pub start: usize,
    pub end: usize,
    pub line: usize,
}

impl LineCtx {
    pub open spec fn wf(self, s: Seq<u8>) -> bool {
        self.start <= self.end <= s.len()
    }

    /// The position of byte offset `i` on this line; the column saturates.
    pub open spec fn pos(self, i: usize) -> Position {
        Position {
            file_id: self.file_id,
            line: self.line,
            column: sat_inc((i - self.start) as usize),
            byte_offset: i,
        }
    }

    pub open spec fn fail(self, kind: ParseErrorKind, i: usize) -> ParseError {
        ParseError { kind, position: self.pos(i) }
    }

    pub fn position(&self, i: usize) -> (r: Position)
        requires
            self.start <= i,
        ensures
            r == self.pos(i),
    {
        Position {
            file_id: self.file_id,
            line: self.line,
            column: saturating_inc(i - self.start),
            byte_offset: i,
        }
    }

    pub fn error(&self, kind: ParseErrorKind, i: usize) -> (r: ParseError)
        requires
            self.start <= i,
        ensures
            r == self.fail(kind, i),
    {
        ParseError { kind, position: self.position(i) }
    }
}

pub open spec fn sat_inc(x: usize) -> usize {
    if x == usize::MAX {
        x
    } else {
        (x + 1) as usize
    }
}

pub fn saturating_inc(x: usize) -> (r: usize)
    ensures
        r == sat_inc(x),
{
    if x == usize::MAX {
        x
    } else {
        x + 1
    }
}

pub open spec fn is_space(c: u8) -> bool {
    c == 32 || c == 9 || c == 13
}

pub open spec fn is_alpha(c: u8) -> bool {
    (65 <= c <= 90) || (97 <= c <= 122)
}

pub open spec fn is_digit(c: u8) -> bool {
    48 <= c <= 57
}

pub open spec fn is_ident_start(c: u8) -> bool {
    is_alpha(c) || c == 95
}

pub open spec fn is_word_char(c: u8) -> bool {
    is_ident_start(c) || is_digit(c)
}

/// Byte classes whose runs the lexer skips over.
#[derive(Clone, Copy, Debug, PartialEq, Eq, Structural)]
pub enum Class {
    Space,
    Word,
    NotQuote,
    NotNewline,
}

pub open spec fn in_class(c: u8, cls: Class) -> bool {
    match cls {
        Class::Space => is_space(c),
        Class::Word => is_word_char(c),
        Class::NotQuote => c != 34,
        Class::NotNewline => c != 10,
    }
}

pub fn class_has(c: u8, cls: Class) -> (r: bool)
    ensures
        r == in_class(c, cls),
{
    match cls {
        Class::Space => c == 32 || c == 9 || c == 13,
        Class::Word => (65 <= c && c <= 90) || (97 <= c && c <= 122) || c == 95 || (48 <= c && c
            <= 57),
        Class::NotQuote => c != 34,
        Class::NotNewline => c != 10,
    }
}

pub fn ident_start(c: u8) -> (r: bool)
    ensures
        r == is_ident_start(c),
{
    (65 <= c && c <= 90) || (97 <= c && c <= 122) || c == 95
}

/// The end of the run of bytes of class `cls` that starts at `i`, stopping at `e`.
pub open spec fn run_end(s: Seq<u8>, i: usize, e: usize, cls: Class) -> usize
    decreases e - i,
{
    if i < e && in_class(s[i as int], cls) {
        run_end(s, (i + 1) as usize, e, cls)
    } else {
        i
    }
}

pub fn scan(s: &[u8], i: usize, e: usize, cls: Class) -> (r: usize)
    requires
        i <= e <= s@.len(),
    ensures
        r == run_end(s@, i, e, cls),
        i <= r <= e,
{
    let mut k: usize = i;
    while k < e && class_has(s[k], cls)
        invariant
            i <= k <= e,
            e <= s@.len(),
            run_end(s@, k, e, cls) == run_end(s@, i, e, cls),
        decreases e - k,
    {
        k = k + 1;
    }
    k
}

pub open spec fn skip_ws(s: Seq<u8>, cx: LineCtx, i: usize) -> usize {
    run_end(s, i, cx.end, Class::Space)
}

/// Whether nothing but a comment is left of the line at `i`.
pub open spec fn at_end(s: Seq<u8>, cx: LineCtx, i: usize) -> bool {
    i >= cx.end || s[i as int] == 59
}

pub fn skip_spaces(s: &[u8], cx: LineCtx, i: usize) -> (r: usize)
    requires
        cx.wf(s@),
        i <= cx.end,
    ensures
        r == skip_ws(s@, cx, i),
        i <= r <= cx.end,
{
    scan(s, i, cx.end, Class::Space)
}

pub fn ends_here(s: &[u8], cx: LineCtx, i: usize) -> (r: bool)
    requires
        cx.wf(s@),
    ensures
        r == at_end(s@, cx, i),
{
    i >= cx.end || s[i] == 59
}

/// The value of a digit in bases up to sixteen; 99 for any other byte.
pub open spec fn digit_val(c: u8) -> nat {
    if 48 <= c <= 57 {
        (c - 48) as nat
    } else if 97 <= c <= 102 {
        (c - 87) as nat
    } else if 65 <= c <= 70 {
        (c - 55) as nat
    } else {
        99
    }
}

fn digit_value(c: u8) -> (r: u32)
    ensures
        r == digit_val(c),
{
    if 48 <= c && c <= 57 {
        (c - 48) as u32
    } else if 97 <= c && c <= 102 {
        (c - 87) as u32
    } else if 65 <= c && c <= 70 {
        (c - 55) as u32
    } else {
        99
    }
}

pub open spec fn digits_ok(t: Seq<u8>, base: nat) -> bool {
    forall|k: int| 0 <= k < t.len() ==> digit_val(#[trigger] t[k]) < base
}

/// The number that the digits `t` write in `base`, most significant first.
pub open spec fn digits_value(t: Seq<u8>, base: nat) -> nat
    decreases t.len(),
{
    if t.len() == 0 {
        0
    } else {
        digits_value(t.drop_last(), base) * base + digit_val(t.last())
    }
}

proof fn lemma_digits_monotone(t: Seq<u8>, base: nat, k: int)
    requires
        0 <= k <= t.len(),
        base >= 1,
    ensures
        digits_value(t.subrange(0, k), base) <= digits_value(t, base),
    decreases t.len() - k,
{
    if k < t.len() {
        lemma_digits_monotone(t, base, k + 1);
        let p = t.subrange(0, k + 1);
        assert(p.drop_last() =~= t.subrange(0, k));
        assert(digits_value(p, base) == digits_value(t.subrange(0, k), base) * base + digit_val(
            p.last(),
        ));
        assert(digits_value(t.subrange(0, k), base) * base >= digits_value(t.subrange(0, k), base))
            by (nonlinear_arith)
            requires
                base >= 1,
        ;
    } else {
        assert(t.subrange(0, k) =~= t);
    }
}

/// Where the digits of a number literal starting at `i` begin, and their base:
/// `$` and `0x` give hexadecimal, `%` binary, a bare digit decimal.
pub open spec fn literal_digits(s: Seq<u8>, cx: LineCtx, i: usize) -> (usize, nat) {
    if s[i as int] == 36 {
        ((i + 1) as usize, 16)
    } else if s[i as int] == 37 {
        ((i + 1) as usize, 2)
    } else if s[i as int] == 48 && i + 1 < cx.end && (s[i + 1] == 120 || s[i + 1] == 88) {
        ((i + 2) as usize, 16)
    } else {
        (i, 10)
    }
}

/// A number literal at `i`: its digits run to the end of the word, must all be
/// digits of the base, at least one, and the value must fit in 16 bits.
pub open spec fn number_at(s: Seq<u8>, cx: LineCtx, i: usize) -> Result<(u16, usize), ParseError> {
    let (d0, base) = literal_digits(s, cx, i);
    let w = run_end(s, d0, cx.end, Class::Word);
    let t = s.subrange(d0 as int, w as int);
    if w > d0 && digits_ok(t, base) && digits_value(t, base) <= 0xFFFF {
        Ok((digits_value(t, base) as u16, w))
    } else {
        Err(cx.fail(ParseErrorKind::InvalidNumberLiteral, i))
    }
}

pub open spec fn starts_number(c: u8) -> bool {
    c == 36 || c == 37 || is_digit(c)
}

/// Reads the number literal at `i`.
pub fn parse_number(s: &[u8], cx: LineCtx, i: usize) -> (r: Result<(u16, usize), ParseError>)
    requires
        cx.wf(s@),
        cx.start <= i < cx.end,
        starts_number(s@[i as int]),
    ensures
        r == number_at(s@, cx, i),
        r is Ok ==> i < r->Ok_0.1 <= cx.end,
{
    let d0: usize;
    let base: u32;
    if s[i] == 36 {
        d0 = i + 1;
        base = 16;
    } else if s[i] == 37 {
        d0 = i + 1;
        base = 2;
    } else if s[i] == 48 && i + 1 < cx.end && (s[i + 1] == 120 || s[i + 1] == 88) {
        d0 = i + 2;
        base = 16;
    } else {
        d0 = i;
        base = 10;
    }
    assert(literal_digits(s@, cx, i) == (d0, base as nat));
    let w = scan(s, d0, cx.end, Class::Word);
    if w == d0 {
        return Err(cx.error(ParseErrorKind::InvalidNumberLiteral, i));
    }
    let ghost t = s@.subrange(d0 as int, w as int);
    let mut acc: u32 = 0;
    let mut k: usize = d0;
    while k < w
        invariant
            d0 <= k <= w <= cx.end <= s@.len(),
            cx.start <= i,
            w == run_end(s@, d0, cx.end, Class::Word),
            literal_digits(s@, cx, i) == (d0, base as nat),
            t == s@.subrange(d0 as int, w as int),
            2 <= base <= 16,
            acc == digits_value(t.subrange(0, k - d0), base as nat),
            digits_ok(t.subrange(0, k - d0), base as nat),
            acc <= 0xFFFF,
        decreases w - k,
    {
        let d = digit_value(s[k]);
        if d >= base {
            assert(t[k - d0] == s@[k as int]);
            assert(digit_val(t[k - d0]) >= base);
            assert(!digits_ok(t, base as nat));
            return Err(cx.error(ParseErrorKind::InvalidNumberLiteral, i));
        }
        let ghost p = t.subrange(0, k - d0 + 1);
        assert(p.drop_last() =~= t.subrange(0, k - d0));
        assert(p.last() == s@[k as int]);
        assert(acc * base <= 0xFFFF * 16) by (nonlinear_arith)
            requires
                acc <= 0xFFFF,
                base <= 16,
        ;
        acc = acc * base + d;
        assert(acc == digits_value(p, base as nat));
        k = k + 1;
        assert(p == t.subrange(0, k - d0));
        if acc > 0xFFFF {
            proof {
                lemma_digits_monotone(t, base as nat, k - d0);
            }
            return Err(cx.error(ParseErrorKind::InvalidNumberLiteral, i));
        }
    }
    assert(t.subrange(0, k - d0) =~= t);
    Ok((acc as u16, w))
}

} // verus!
