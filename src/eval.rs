//! Symbols and the values of expressions.
use vstd::prelude::*;
use crate::parser::{Atom, Term};
use crate::source::{Position, Span};

verus! {

/// A defined label and its address.
#[derive(Clone, Copy, Debug, PartialEq, Eq, Structural)]
pub struct Symbol {
    pub name: Span,
    pub value: u32,
    pub defined_at: Position,
}

/// Whether two spans lie in the buffer and hold the same bytes.
pub open spec fn same_text(src: Seq<u8>, a: Span, b: Span) -> bool {
    a.within(src) && b.within(src) && a.text(src) == b.text(src)
}

/// The value of the first symbol named as `name`.
pub open spec fn lookup(src: Seq<u8>, syms: Seq<Symbol>, name: Span) -> Option<u32>
    decreases syms.len(),
{
    if syms.len() == 0 {
        None
    } else if same_text(src, syms[0].name, name) {
        Some(syms[0].value)
    } else {
        lookup(src, syms.drop_first(), name)
    }
}

// ---------------------------------------------------------------- expressions

#[derive(Clone, Copy, Debug, PartialEq, Eq, Structural)]
pub enum EvalError {
    Unresolved(Span),
    TooLarge,
}

/// Bound on the running sum of an expression.
pub const SUM_LIMIT: i64 = 0x7FFF_FFFF;

pub open spec fn atom_value(src: Seq<u8>, syms: Seq<Symbol>, pc: u32, a: Atom) -> Result<int, EvalError> {
    match a {
        Atom::Number(v) => Ok(v as int),
        Atom::Pc => Ok(pc as int),
        Atom::Symbol(sp) => match lookup(src, syms, sp) {
            Some(v) => Ok(v as int),
            None => Err(EvalError::Unresolved(sp)),
        },
    }
}

/// The sum of the first `n` terms, left to right; the first unknown symbol
/// or the first partial sum beyond `SUM_LIMIT` fails it.
pub open spec fn eval_upto(src: Seq<u8>, syms: Seq<Symbol>, pc: u32, t: Seq<Term>, n: int) -> Result<
    int,
    EvalError,
>
    decreases n,
{
    if n <= 0 {
        Ok(0)
    } else {
        match eval_upto(src, syms, pc, t, n - 1) {
            Ok(acc) => match atom_value(src, syms, pc, t[n - 1].atom) {
                Ok(v) => {
                    let r = if t[n - 1].negate {
                        acc - v
                    } else {
                        acc + v
                    };
                    if -SUM_LIMIT <= r <= SUM_LIMIT {
                        Ok(r)
                    } else {
                        Err(EvalError::TooLarge)
                    }
                },
                Err(x) => Err(x),
            },
            Err(x) => Err(x),
        }
    }
}

pub open spec fn eval(src: Seq<u8>, syms: Seq<Symbol>, pc: u32, t: Seq<Term>) -> Result<int, EvalError> {
    eval_upto(src, syms, pc, t, t.len() as int)
}

/// Whether the expression is made of number literals only.
pub open spec fn is_constant(t: Seq<Term>) -> bool {
    forall|k: int| 0 <= k < t.len() ==> #[trigger] t[k].atom is Number
}

/// Whether the operand is a constant that fits in a zero-page address. Only
/// such operands take a zero-page form: a symbol's value is not known while
/// the program is laid out, so it always takes the absolute form.
pub open spec fn zp_ok(src: Seq<u8>, t: Seq<Term>) -> bool {
    is_constant(t) && match eval(src, seq![], 0, t) {
        Ok(v) => 0 <= v <= 255,
        Err(_) => false,
    }
}

// ---------------------------------------------------------------- executable

fn same_name(src: &[u8], a: Span, b: Span) -> (r: bool)
    ensures
        r == same_text(src@, a, b),
{
    if !(a.start <= a.end && a.end <= src.len() && b.start <= b.end && b.end <= src.len()) {
        return false;
    }
    if a.end - a.start != b.end - b.start {
        assert(a.text(src@).len() != b.text(src@).len());
        return false;
    }
    let n = a.end - a.start;
    let mut k: usize = 0;
    while k < n
        invariant
            k <= n,
            n == a.end - a.start,
            n == b.end - b.start,
            a.start <= a.end <= src@.len(),
            b.start <= b.end <= src@.len(),
            forall|j: int| 0 <= j < k ==> #[trigger] a.text(src@)[j] == b.text(src@)[j],
        decreases n - k,
    {
        if src[a.start + k] != src[b.start + k] {
            assert(a.text(src@)[k as int] != b.text(src@)[k as int]);
            return false;
        }
        k = k + 1;
    }
    assert(a.text(src@) =~= b.text(src@));
    true
}

/// The value of the first symbol named as `name`, if any.
pub fn find_symbol(src: &[u8], syms: &Vec<Symbol>, name: Span) -> (r: Option<u32>)
    ensures
        r == lookup(src@, syms@, name),
{
    let mut k: usize = 0;
    assert(syms@.subrange(0, syms@.len() as int) =~= syms@);
    while k < syms.len()
        invariant
            k <= syms@.len(),
            lookup(src@, syms@, name) == lookup(
                src@,
                syms@.subrange(k as int, syms@.len() as int),
                name,
            ),
        decreases syms@.len() - k,
    {
        let ghost rest = syms@.subrange(k as int, syms@.len() as int);
        assert(rest.drop_first() =~= syms@.subrange(k + 1, syms@.len() as int));
        assert(rest[0] == syms@[k as int]);
        if same_name(src, syms[k].name, name) {
            return Some(syms[k].value);
        }
        k = k + 1;
    }
    assert(syms@.subrange(k as int, syms@.len() as int).len() == 0);
    None
}

fn atom_val(src: &[u8], syms: &Vec<Symbol>, pc: u32, a: Atom) -> (r: Result<i64, EvalError>)
    ensures
        match r {
            Ok(v) => atom_value(src@, syms@, pc, a) == Ok::<int, EvalError>(v as int) && 0 <= v
                <= u32::MAX,
            Err(e) => atom_value(src@, syms@, pc, a) == Err::<int, EvalError>(e),
        },
{
    match a {
        Atom::Number(v) => Ok(v as i64),
        Atom::Pc => Ok(pc as i64),
        Atom::Symbol(sp) => match find_symbol(src, syms, sp) {
            Some(v) => Ok(v as i64),
            None => Err(EvalError::Unresolved(sp)),
        },
    }
}

proof fn lemma_eval_err(src: Seq<u8>, syms: Seq<Symbol>, pc: u32, t: Seq<Term>, k: int, n: int)
    requires
        1 <= k <= n,
        eval_upto(src, syms, pc, t, k) is Err,
    ensures
        eval_upto(src, syms, pc, t, n) == eval_upto(src, syms, pc, t, k),
    decreases n - k,
{
    if k < n {
        lemma_eval_err(src, syms, pc, t, k, n - 1);
    }
}

/// Evaluates an expression against the symbols known so far.
pub fn evaluate(src: &[u8], syms: &Vec<Symbol>, pc: u32, t: &Vec<Term>) -> (r: Result<i64, EvalError>)
    ensures
        match r {
            Ok(v) => eval(src@, syms@, pc, t@) == Ok::<int, EvalError>(v as int),
            Err(e) => eval(src@, syms@, pc, t@) == Err::<int, EvalError>(e),
        },
{
    let mut acc: i64 = 0;
    let mut k: usize = 0;
    while k < t.len()
        invariant
            k <= t@.len(),
            -SUM_LIMIT <= acc <= SUM_LIMIT,
            eval_upto(src@, syms@, pc, t@, k as int) == Ok::<int, EvalError>(acc as int),
        decreases t@.len() - k,
    {
        let term = t[k];
        match atom_val(src, syms, pc, term.atom) {
            Ok(v) => {
                let r = if term.negate {
                    acc - v
                } else {
                    acc + v
                };
                if r < -SUM_LIMIT || r > SUM_LIMIT {
                    proof {
                        lemma_eval_err(src@, syms@, pc, t@, k + 1, t@.len() as int);
                    }
                    return Err(EvalError::TooLarge);
                }
                acc = r;
            },
            Err(e) => {
                proof {
                    lemma_eval_err(src@, syms@, pc, t@, k + 1, t@.len() as int);
                }
                return Err(e);
            },
        }
        k = k + 1;
    }
    Ok(acc)
}

pub fn constant_zp(src: &[u8], t: &Vec<Term>) -> (r: bool)
    ensures
        r == zp_ok(src@, t@),
{
    let mut k: usize = 0;
    while k < t.len()
        invariant
            k <= t@.len(),
            forall|j: int| 0 <= j < k ==> #[trigger] t@[j].atom is Number,
        decreases t@.len() - k,
    {
        match t[k].atom {
            Atom::Number(_) => {},
            _ => {
                return false;
            },
        }
        k = k + 1;
    }
    let empty: Vec<Symbol> = Vec::new();
    assert(empty@ =~= seq![]);
    match evaluate(src, &empty, 0, t) {
        Ok(v) => 0 <= v && v <= 255,
        Err(_) => false,
    }
}

} // verus!
