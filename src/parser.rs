//! From source bytes to statements: one line at a time, stopping at the
//! first error.
use vstd::prelude::*;
use crate::lexer::{
    at_end, class_has, ends_here, ident_start, is_ident_start, is_word_char, number_at, parse_number,
    run_end, sat_inc, saturating_inc, scan, skip_spaces, skip_ws, starts_number, Class, LineCtx, ParseError, ParseErrorKind,
};
use crate::opcode::{Mnemonic, mnemonic_from, mnemonic_of, to_upper, upper};
use crate::source::{Position, Span};

verus! {

/// An operand of an expression.
#[derive(Clone, Copy, Debug, PartialEq, Eq, Structural)]
pub enum Atom {
    Number(u16),
    Symbol(Span),
    /// `*`, the address of the current statement.
    Pc,
}

/// One operand of an expression and the sign it enters with. An expression
/// is a sequence of terms, summed left to right.
#[derive(Clone, Copy, Debug, PartialEq, Eq, Structural)]
pub struct Term {
    pub negate: bool,
    pub atom: Atom,
}

/// The form an instruction's operand is written in.
#[derive(Clone, Copy, Debug, PartialEq, Eq, Structural)]
pub enum OperandSyntax {
    /// No operand.
    NoOperand,
    /// `A`
    Accumulator,
    /// `#e`
    Immediate,
    /// `e`
    Direct,
    /// `e,X`
    DirectX,
    /// `e,Y`
    DirectY,
    /// `(e)`
    Indirect,
    /// `(e,X)`
    IndirectX,
    /// `(e),Y`
    IndirectY,
}

/// A directive argument: an expression or a quoted string.
#[derive(Debug)]
pub enum Arg {
    Value(Vec<Term>),
    Text(Span),
}

pub enum ArgModel {
    Value(Seq<Term>),
    Text(Span),
}

impl View for Arg {
    type V = ArgModel;

    open spec fn view(&self) -> ArgModel {
        match self {
            Arg::Value(t) => ArgModel::Value(t@),
            Arg::Text(sp) => ArgModel::Text(*sp),
        }
    }
}

/// One statement of the source, as written.
#[derive(Debug)]
pub enum Statement {
    LabelDef { name: Span, position: Position },
    /// `name = e`
    Constant { name: Span, value: Vec<Term>, position: Position },
    Directive { name: Span, args: Vec<Arg>, position: Position },
    Instruction {
        mnemonic: Mnemonic,
        syntax: OperandSyntax,
        operand: Vec<Term>,
        position: Position,
    },
}

pub enum StatementModel {
    LabelDef { name: Span, position: Position },
    Constant { name: Span, value: Seq<Term>, position: Position },
    Directive { name: Span, args: Seq<ArgModel>, position: Position },
    Instruction {
        mnemonic: Mnemonic,
        syntax: OperandSyntax,
        operand: Seq<Term>,
        position: Position,
    },
}

pub open spec fn args_view(a: Seq<Arg>) -> Seq<ArgModel> {
    a.map_values(|x: Arg| x@)
}

impl View for Statement {
    type V = StatementModel;

    open spec fn view(&self) -> StatementModel {
        match self {
            Statement::LabelDef { name, position } => StatementModel::LabelDef {
                name: *name,
                position: *position,
            },
            Statement::Constant { name, value, position } => StatementModel::Constant {
                name: *name,
                value: value@,
                position: *position,
            },
            Statement::Directive { name, args, position } => StatementModel::Directive {
                name: *name,
                args: args_view(args@),
                position: *position,
            },
            Statement::Instruction { mnemonic, syntax, operand, position } =>
                StatementModel::Instruction {
                mnemonic: *mnemonic,
                syntax: *syntax,
                operand: operand@,
                position: *position,
            },
        }
    }
}

pub open spec fn stmts_view(v: Seq<Statement>) -> Seq<StatementModel> {
    v.map_values(|x: Statement| x@)
}

// ---------------------------------------------------------------- expressions

/// The operand at `i`: `*`, a symbol name or a number literal.
pub open spec fn term_at(s: Seq<u8>, cx: LineCtx, i: usize) -> Result<(Atom, usize), ParseError> {
    if i >= cx.end {
        Err(cx.fail(ParseErrorKind::UnexpectedToken, i))
    } else if s[i as int] == 42 {
        Ok((Atom::Pc, (i + 1) as usize))
    } else if is_ident_start(s[i as int]) {
        let j = run_end(s, i, cx.end, Class::Word);
        Ok((Atom::Symbol(Span { start: i, end: j }), j))
    } else if starts_number(s[i as int]) {
        match number_at(s, cx, i) {
            Ok((v, j)) => Ok((Atom::Number(v), j)),
            Err(x) => Err(x),
        }
    } else {
        Err(cx.fail(ParseErrorKind::UnexpectedToken, i))
    }
}

/// The rest of an expression after the terms `acc`: further `+ term` or
/// `- term`. The cursor returned stands after the spaces that follow it.
pub open spec fn expr_tail(s: Seq<u8>, cx: LineCtx, i: usize, acc: Seq<Term>) -> Result<
    (Seq<Term>, usize),
    ParseError,
>
    decreases cx.end - i,
{
    let j = skip_ws(s, cx, i);
    if j < cx.end && (s[j as int] == 43 || s[j as int] == 45) {
        match term_at(s, cx, skip_ws(s, cx, (j + 1) as usize)) {
            Ok((a, n)) => if i < n <= cx.end {
                expr_tail(s, cx, n, acc.push(Term { negate: s[j as int] == 45, atom: a }))
            } else {
                Ok((acc, j))
            },
            Err(x) => Err(x),
        }
    } else {
        Ok((acc, j))
    }
}

pub open spec fn expr_at(s: Seq<u8>, cx: LineCtx, i: usize) -> Result<(Seq<Term>, usize), ParseError> {
    match term_at(s, cx, skip_ws(s, cx, i)) {
        Ok((a, n)) => expr_tail(s, cx, n, seq![Term { negate: false, atom: a }]),
        Err(x) => Err(x),
    }
}

pub open spec fn expr_view(r: Result<(Vec<Term>, usize), ParseError>) -> Result<
    (Seq<Term>, usize),
    ParseError,
> {
    match r {
        Ok((v, k)) => Ok((v@, k)),
        Err(x) => Err(x),
    }
}

fn parse_term(s: &[u8], cx: LineCtx, i: usize) -> (r: Result<(Atom, usize), ParseError>)
    requires
        cx.wf(s@),
        cx.start <= i <= cx.end,
    ensures
        r == term_at(s@, cx, i),
        r is Ok ==> i < r->Ok_0.1 <= cx.end,
{
    if i >= cx.end {
        Err(cx.error(ParseErrorKind::UnexpectedToken, i))
    } else if s[i] == 42 {
        Ok((Atom::Pc, i + 1))
    } else if ident_start(s[i]) {
        let j = scan(s, i + 1, cx.end, Class::Word);
        assert(run_end(s@, i, cx.end, Class::Word) == j);
        Ok((Atom::Symbol(Span { start: i, end: j }), j))
    } else if s[i] == 36 || s[i] == 37 || (48 <= s[i] && s[i] <= 57) {
        match parse_number(s, cx, i) {
            Ok((v, j)) => Ok((Atom::Number(v), j)),
            Err(x) => Err(x),
        }
    } else {
        Err(cx.error(ParseErrorKind::UnexpectedToken, i))
    }
}

/// Reads an expression at `i` (spaces first allowed).
pub fn parse_expr(s: &[u8], cx: LineCtx, i: usize) -> (r: Result<(Vec<Term>, usize), ParseError>)
    requires
        cx.wf(s@),
        cx.start <= i <= cx.end,
    ensures
        expr_view(r) == expr_at(s@, cx, i),
        r is Ok ==> i < r->Ok_0.1 <= cx.end,
{
    let k = skip_spaces(s, cx, i);
    let (a, n) = match parse_term(s, cx, k) {
        Ok(t) => t,
        Err(x) => {
            return Err(x);
        },
    };
    let mut terms: Vec<Term> = Vec::new();
    terms.push(Term { negate: false, atom: a });
    assert(terms@ =~= seq![Term { negate: false, atom: a }]);
    let mut cur: usize = n;
    loop
        invariant
            cx.wf(s@),
            cx.start <= i < cur <= cx.end,
            expr_at(s@, cx, i) == expr_tail(s@, cx, cur, terms@),
        decreases cx.end - cur,
    {
        let j = skip_spaces(s, cx, cur);
        if j < cx.end && (s[j] == 43 || s[j] == 45) {
            let k2 = skip_spaces(s, cx, j + 1);
            match parse_term(s, cx, k2) {
                Ok((a2, n2)) => {
                    let ghost old_terms = terms@;
                    terms.push(Term { negate: s[j] == 45, atom: a2 });
                    cur = n2;
                    assert(terms@ == old_terms.push(Term { negate: s@[j as int] == 45, atom: a2 }));
                },
                Err(x) => {
                    return Err(x);
                },
            }
        } else {
            return Ok((terms, j));
        }
    }
}

// ---------------------------------------------------------------- operands

/// Whether the register letter `reg` stands alone at `n`.
pub open spec fn is_reg(s: Seq<u8>, cx: LineCtx, n: usize, reg: u8) -> bool {
    n < cx.end && upper(s[n as int]) == reg && (n + 1 >= cx.end || !is_word_char(s[n + 1]))
}

fn register_at(s: &[u8], cx: LineCtx, n: usize, reg: u8) -> (r: bool)
    requires
        cx.wf(s@),
    ensures
        r == is_reg(s@, cx, n, reg),
{
    n < cx.end && to_upper(s[n]) == reg && (n + 1 >= cx.end || !class_has(s[n + 1], Class::Word))
}

pub open spec fn indirect_tail(s: Seq<u8>, cx: LineCtx, t: Seq<Term>, m: usize) -> Result<
    (OperandSyntax, Seq<Term>, usize),
    ParseError,
> {
    if m < cx.end && s[m as int] == 44 {
        let n = skip_ws(s, cx, (m + 1) as usize);
        if is_reg(s, cx, n, 88) {
            let p = skip_ws(s, cx, (n + 1) as usize);
            if p < cx.end && s[p as int] == 41 {
                Ok((OperandSyntax::IndirectX, t, (p + 1) as usize))
            } else {
                Err(cx.fail(ParseErrorKind::InvalidAddressingSyntax, p))
            }
        } else {
            Err(cx.fail(ParseErrorKind::InvalidAddressingSyntax, n))
        }
    } else if m < cx.end && s[m as int] == 41 {
        let p = skip_ws(s, cx, (m + 1) as usize);
        if p < cx.end && s[p as int] == 44 {
            let n = skip_ws(s, cx, (p + 1) as usize);
            if is_reg(s, cx, n, 89) {
                Ok((OperandSyntax::IndirectY, t, (n + 1) as usize))
            } else {
                Err(cx.fail(ParseErrorKind::InvalidAddressingSyntax, n))
            }
        } else {
            Ok((OperandSyntax::Indirect, t, p))
        }
    } else {
        Err(cx.fail(ParseErrorKind::InvalidAddressingSyntax, m))
    }
}

pub open spec fn index_tail(s: Seq<u8>, cx: LineCtx, t: Seq<Term>, m: usize) -> Result<
    (OperandSyntax, Seq<Term>, usize),
    ParseError,
> {
    if m < cx.end && s[m as int] == 44 {
        let n = skip_ws(s, cx, (m + 1) as usize);
        if is_reg(s, cx, n, 88) {
            Ok((OperandSyntax::DirectX, t, (n + 1) as usize))
        } else if is_reg(s, cx, n, 89) {
            Ok((OperandSyntax::DirectY, t, (n + 1) as usize))
        } else {
            Err(cx.fail(ParseErrorKind::InvalidAddressingSyntax, n))
        }
    } else {
        Ok((OperandSyntax::Direct, t, m))
    }
}

/// The operand of an instruction whose mnemonic ends at `i`.
pub open spec fn operand_at(s: Seq<u8>, cx: LineCtx, i: usize) -> Result<
    (OperandSyntax, Seq<Term>, usize),
    ParseError,
> {
    let k = skip_ws(s, cx, i);
    if at_end(s, cx, k) {
        Ok((OperandSyntax::NoOperand, seq![], k))
    } else if s[k as int] == 35 {
        match expr_at(s, cx, (k + 1) as usize) {
            Ok((t, m)) => Ok((OperandSyntax::Immediate, t, m)),
            Err(x) => Err(x),
        }
    } else if s[k as int] == 40 {
        match expr_at(s, cx, (k + 1) as usize) {
            Ok((t, m)) => indirect_tail(s, cx, t, m),
            Err(x) => Err(x),
        }
    } else if is_reg(s, cx, k, 65) && at_end(s, cx, skip_ws(s, cx, (k + 1) as usize)) {
        Ok((OperandSyntax::Accumulator, seq![], (k + 1) as usize))
    } else {
        match expr_at(s, cx, k) {
            Ok((t, m)) => index_tail(s, cx, t, m),
            Err(x) => Err(x),
        }
    }
}

pub open spec fn operand_view(r: Result<(OperandSyntax, Vec<Term>, usize), ParseError>) -> Result<
    (OperandSyntax, Seq<Term>, usize),
    ParseError,
> {
    match r {
        Ok((y, v, k)) => Ok((y, v@, k)),
        Err(x) => Err(x),
    }
}

fn parse_indirect_tail(s: &[u8], cx: LineCtx, t: Vec<Term>, m: usize) -> (r: Result<
    (OperandSyntax, Vec<Term>, usize),
    ParseError,
>)
    requires
        cx.wf(s@),
        cx.start <= m <= cx.end,
    ensures
        operand_view(r) == indirect_tail(s@, cx, t@, m),
        r is Ok ==> m <= r->Ok_0.2 <= cx.end,
{
    if m < cx.end && s[m] == 44 {
        let n = skip_spaces(s, cx, m + 1);
        if register_at(s, cx, n, 88) {
            let p = skip_spaces(s, cx, n + 1);
            if p < cx.end && s[p] == 41 {
                Ok((OperandSyntax::IndirectX, t, p + 1))
            } else {
                Err(cx.error(ParseErrorKind::InvalidAddressingSyntax, p))
            }
        } else {
            Err(cx.error(ParseErrorKind::InvalidAddressingSyntax, n))
        }
    } else if m < cx.end && s[m] == 41 {
        let p = skip_spaces(s, cx, m + 1);
        if p < cx.end && s[p] == 44 {
            let n = skip_spaces(s, cx, p + 1);
            if register_at(s, cx, n, 89) {
                Ok((OperandSyntax::IndirectY, t, n + 1))
            } else {
                Err(cx.error(ParseErrorKind::InvalidAddressingSyntax, n))
            }
        } else {
            Ok((OperandSyntax::Indirect, t, p))
        }
    } else {
        Err(cx.error(ParseErrorKind::InvalidAddressingSyntax, m))
    }
}

fn parse_index_tail(s: &[u8], cx: LineCtx, t: Vec<Term>, m: usize) -> (r: Result<
    (OperandSyntax, Vec<Term>, usize),
    ParseError,
>)
    requires
        cx.wf(s@),
        cx.start <= m <= cx.end,
    ensures
        operand_view(r) == index_tail(s@, cx, t@, m),
        r is Ok ==> m <= r->Ok_0.2 <= cx.end,
{
    if m < cx.end && s[m] == 44 {
        let n = skip_spaces(s, cx, m + 1);
        if register_at(s, cx, n, 88) {
            Ok((OperandSyntax::DirectX, t, n + 1))
        } else if register_at(s, cx, n, 89) {
            Ok((OperandSyntax::DirectY, t, n + 1))
        } else {
            Err(cx.error(ParseErrorKind::InvalidAddressingSyntax, n))
        }
    } else {
        Ok((OperandSyntax::Direct, t, m))
    }
}

/// Reads the operand of an instruction whose mnemonic ends at `i`.
pub fn parse_operand(s: &[u8], cx: LineCtx, i: usize) -> (r: Result<
    (OperandSyntax, Vec<Term>, usize),
    ParseError,
>)
    requires
        cx.wf(s@),
        cx.start <= i <= cx.end,
    ensures
        operand_view(r) == operand_at(s@, cx, i),
        r is Ok ==> i <= r->Ok_0.2 <= cx.end,
{
    let k = skip_spaces(s, cx, i);
    if ends_here(s, cx, k) {
        let v: Vec<Term> = Vec::new();
        assert(v@ =~= seq![]);
        Ok((OperandSyntax::NoOperand, v, k))
    } else if s[k] == 35 {
        match parse_expr(s, cx, k + 1) {
            Ok((t, m)) => Ok((OperandSyntax::Immediate, t, m)),
            Err(x) => Err(x),
        }
    } else if s[k] == 40 {
        match parse_expr(s, cx, k + 1) {
            Ok((t, m)) => parse_indirect_tail(s, cx, t, m),
            Err(x) => Err(x),
        }
    } else if register_at(s, cx, k, 65) && ends_here(s, cx, skip_spaces(s, cx, k + 1)) {
        let v: Vec<Term> = Vec::new();
        assert(v@ =~= seq![]);
        Ok((OperandSyntax::Accumulator, v, k + 1))
    } else {
        match parse_expr(s, cx, k) {
            Ok((t, m)) => parse_index_tail(s, cx, t, m),
            Err(x) => Err(x),
        }
    }
}

// ---------------------------------------------------------------- directives

/// One directive argument at `q`: a quoted string or an expression.
pub open spec fn arg_at(s: Seq<u8>, cx: LineCtx, q: usize) -> Result<(ArgModel, usize), ParseError> {
    if q < cx.end && s[q as int] == 34 {
        let c = run_end(s, (q + 1) as usize, cx.end, Class::NotQuote);
        if c >= cx.end {
            Err(cx.fail(ParseErrorKind::UnterminatedString, q))
        } else {
            Ok((ArgModel::Text(Span { start: (q + 1) as usize, end: c }), (c + 1) as usize))
        }
    } else {
        match expr_at(s, cx, q) {
            Ok((t, m)) => Ok((ArgModel::Value(t), m)),
            Err(x) => Err(x),
        }
    }
}

/// The comma-separated arguments from `q` on, after those in `acc`.
pub open spec fn args_at(s: Seq<u8>, cx: LineCtx, q: usize, acc: Seq<ArgModel>) -> Result<
    (Seq<ArgModel>, usize),
    ParseError,
>
    decreases cx.end - q,
{
    match arg_at(s, cx, q) {
        Ok((a, p)) => {
            let sep = skip_ws(s, cx, p);
            let next_arg = skip_ws(s, cx, (sep + 1) as usize);
            if sep < cx.end && s[sep as int] == 44 && q < next_arg <= cx.end {
                args_at(s, cx, next_arg, acc.push(a))
            } else {
                Ok((acc.push(a), sep))
            }
        },
        Err(x) => Err(x),
    }
}

/// A directive whose `.` stands at `k`.
pub open spec fn directive_at(s: Seq<u8>, cx: LineCtx, k: usize) -> Result<
    StatementModel,
    ParseError,
> {
    let j = run_end(s, (k + 1) as usize, cx.end, Class::Word);
    let name = Span { start: (k + 1) as usize, end: j };
    if j == k + 1 {
        Err(cx.fail(ParseErrorKind::UnexpectedToken, (k + 1) as usize))
    } else if at_end(s, cx, skip_ws(s, cx, j)) {
        Ok(StatementModel::Directive { name, args: seq![], position: cx.pos(k) })
    } else {
        match args_at(s, cx, skip_ws(s, cx, j), seq![]) {
            Ok((args, p)) => if at_end(s, cx, p) {
                Ok(StatementModel::Directive { name, args, position: cx.pos(k) })
            } else {
                Err(cx.fail(ParseErrorKind::UnexpectedToken, p))
            },
            Err(x) => Err(x),
        }
    }
}

pub open spec fn arg_result_view(r: Result<(Arg, usize), ParseError>) -> Result<(ArgModel, usize), ParseError> {
    match r {
        Ok((a, k)) => Ok((a@, k)),
        Err(x) => Err(x),
    }
}

fn parse_arg(s: &[u8], cx: LineCtx, q: usize) -> (r: Result<(Arg, usize), ParseError>)
    requires
        cx.wf(s@),
        cx.start <= q <= cx.end,
    ensures
        arg_result_view(r) == arg_at(s@, cx, q),
        r is Ok ==> q < r->Ok_0.1 <= cx.end,
{
    if q < cx.end && s[q] == 34 {
        let c = scan(s, q + 1, cx.end, Class::NotQuote);
        if c >= cx.end {
            Err(cx.error(ParseErrorKind::UnterminatedString, q))
        } else {
            Ok((Arg::Text(Span { start: q + 1, end: c }), c + 1))
        }
    } else {
        match parse_expr(s, cx, q) {
            Ok((t, m)) => Ok((Arg::Value(t), m)),
            Err(x) => Err(x),
        }
    }
}

proof fn lemma_args_view_push(v: Seq<Arg>, a: Arg)
    ensures
        args_view(v.push(a)) == args_view(v).push(a@),
{
    assert(args_view(v.push(a)) =~= args_view(v).push(a@));
}

fn parse_directive(s: &[u8], cx: LineCtx, k: usize) -> (r: Result<Statement, ParseError>)
    requires
        cx.wf(s@),
        cx.start <= k < cx.end,
    ensures
        match r {
            Ok(st) => directive_at(s@, cx, k) == Ok::<StatementModel, ParseError>(st@),
            Err(x) => directive_at(s@, cx, k) == Err::<StatementModel, ParseError>(x),
        },
{
    let j = scan(s, k + 1, cx.end, Class::Word);
    let name = Span { start: k + 1, end: j };
    if j == k + 1 {
        return Err(cx.error(ParseErrorKind::UnexpectedToken, k + 1));
    }
    let q0 = skip_spaces(s, cx, j);
    let mut args: Vec<Arg> = Vec::new();
    assert(args_view(args@) =~= seq![]);
    if ends_here(s, cx, q0) {
        return Ok(Statement::Directive { name, args, position: cx.position(k) });
    }
    let mut q: usize = q0;
    loop
        invariant
            cx.wf(s@),
            cx.start <= k < cx.end,
            cx.start <= q <= cx.end,
            j == run_end(s@, (k + 1) as usize, cx.end, Class::Word),
            j != k + 1,
            name == (Span { start: (k + 1) as usize, end: j }),
            q0 == skip_ws(s@, cx, j),
            !at_end(s@, cx, q0),
            args_at(s@, cx, q0, seq![]) == args_at(s@, cx, q, args_view(args@)),
        decreases cx.end - q,
    {
        let (a, p) = match parse_arg(s, cx, q) {
            Ok(t) => t,
            Err(x) => {
                return Err(x);
            },
        };
        let sep = skip_spaces(s, cx, p);
        proof {
            lemma_args_view_push(args@, a);
        }
        args.push(a);
        if sep < cx.end && s[sep] == 44 {
            q = skip_spaces(s, cx, sep + 1);
        } else {
            if ends_here(s, cx, sep) {
                return Ok(Statement::Directive { name, args, position: cx.position(k) });
            } else {
                return Err(cx.error(ParseErrorKind::UnexpectedToken, sep));
            }
        }
    }
}

// ---------------------------------------------------------------- statements

/// An instruction whose mnemonic `m` spans `[k, j)`.
pub open spec fn instruction_at(s: Seq<u8>, cx: LineCtx, k: usize, m: Mnemonic, j: usize) -> Result<
    StatementModel,
    ParseError,
> {
    match operand_at(s, cx, j) {
        Ok((syntax, operand, q)) => {
            let r = skip_ws(s, cx, q);
            if at_end(s, cx, r) {
                Ok(StatementModel::Instruction { mnemonic: m, syntax, operand, position: cx.pos(k) })
            } else {
                Err(cx.fail(ParseErrorKind::UnexpectedToken, r))
            }
        },
        Err(x) => Err(x),
    }
}

/// The directive or instruction at `k`, if the line holds one there.
pub open spec fn statement_at(s: Seq<u8>, cx: LineCtx, k: usize) -> Result<
    Option<StatementModel>,
    ParseError,
> {
    if at_end(s, cx, k) {
        Ok(None)
    } else if s[k as int] == 46 {
        match directive_at(s, cx, k) {
            Ok(st) => Ok(Some(st)),
            Err(x) => Err(x),
        }
    } else if is_ident_start(s[k as int]) {
        let j = run_end(s, k, cx.end, Class::Word);
        match mnemonic_of(s.subrange(k as int, j as int)) {
            Some(m) => match instruction_at(s, cx, k, m, j) {
                Ok(st) => Ok(Some(st)),
                Err(x) => Err(x),
            },
            None => Err(cx.fail(ParseErrorKind::UnexpectedToken, k)),
        }
    } else {
        Err(cx.fail(ParseErrorKind::UnexpectedToken, k))
    }
}

pub open spec fn optional(r: Result<Option<StatementModel>, ParseError>) -> Result<
    Seq<StatementModel>,
    ParseError,
> {
    match r {
        Ok(Some(st)) => Ok(seq![st]),
        Ok(None) => Ok(seq![]),
        Err(x) => Err(x),
    }
}

/// A constant definition `name = e`, the name spanning `[i, j)` and the `=`
/// standing at `q`.
pub open spec fn constant_at(s: Seq<u8>, cx: LineCtx, i: usize, j: usize, q: usize) -> Result<
    Seq<StatementModel>,
    ParseError,
> {
    match expr_at(s, cx, (q + 1) as usize) {
        Ok((t, m)) => if at_end(s, cx, m) {
            Ok(
                seq![
                    StatementModel::Constant {
                        name: Span { start: i, end: j },
                        value: t,
                        position: cx.pos(i),
                    },
                ],
            )
        } else {
            Err(cx.fail(ParseErrorKind::UnexpectedToken, m))
        },
        Err(x) => Err(x),
    }
}

/// The statements of one line: a constant definition; or an optional label, then at most one
/// directive or instruction, then an optional comment.
pub open spec fn line_at(s: Seq<u8>, cx: LineCtx) -> Result<Seq<StatementModel>, ParseError> {
    let i = skip_ws(s, cx, cx.start);
    if i < cx.end && is_ident_start(s[i as int]) {
        let j = run_end(s, i, cx.end, Class::Word);
        let label = StatementModel::LabelDef { name: Span { start: i, end: j }, position: cx.pos(i) };
        if j < cx.end && s[j as int] == 58 {
            appended(seq![label], optional(statement_at(s, cx, skip_ws(s, cx, (j + 1) as usize))))
        } else if mnemonic_of(s.subrange(i as int, j as int)) is None {
            let q = skip_ws(s, cx, j);
            if at_end(s, cx, q) {
                Ok(seq![label])
            } else if s[q as int] == 61 {
                constant_at(s, cx, i, j, q)
            } else {
                Err(cx.fail(ParseErrorKind::UnexpectedToken, q))
            }
        } else {
            optional(statement_at(s, cx, i))
        }
    } else {
        optional(statement_at(s, cx, i))
    }
}

fn parse_instruction(s: &[u8], cx: LineCtx, k: usize, m: Mnemonic, j: usize) -> (r: Result<
    Statement,
    ParseError,
>)
    requires
        cx.wf(s@),
        cx.start <= k <= j <= cx.end,
    ensures
        match r {
            Ok(st) => instruction_at(s@, cx, k, m, j) == Ok::<StatementModel, ParseError>(st@),
            Err(x) => instruction_at(s@, cx, k, m, j) == Err::<StatementModel, ParseError>(x),
        },
{
    match parse_operand(s, cx, j) {
        Ok((syntax, operand, q)) => {
            let r = skip_spaces(s, cx, q);
            if ends_here(s, cx, r) {
                Ok(Statement::Instruction { mnemonic: m, syntax, operand, position: cx.position(k) })
            } else {
                Err(cx.error(ParseErrorKind::UnexpectedToken, r))
            }
        },
        Err(x) => Err(x),
    }
}

/// `v` followed by the statements of `r`, or the error of `r`.
pub open spec fn appended(v: Seq<StatementModel>, r: Result<Seq<StatementModel>, ParseError>) -> Result<
    Seq<StatementModel>,
    ParseError,
> {
    match r {
        Ok(rest) => Ok(v + rest),
        Err(x) => Err(x),
    }
}

proof fn lemma_appended_assoc(
    a: Seq<StatementModel>,
    b: Seq<StatementModel>,
    r: Result<Seq<StatementModel>, ParseError>,
)
    ensures
        appended(a, appended(b, r)) == appended(a + b, r),
{
    match r {
        Ok(rest) => {
            assert(a + (b + rest) =~= (a + b) + rest);
        },
        Err(_) => {},
    }
}

/// Reads the directive or instruction at `k` and appends it to `out`.
fn parse_statement(s: &[u8], cx: LineCtx, k: usize, out: &mut Vec<Statement>) -> (r: Result<
    (),
    ParseError,
>)
    requires
        cx.wf(s@),
        cx.start <= k <= cx.end,
    ensures
        match r {
            Ok(()) => appended(stmts_view(old(out)@), optional(statement_at(s@, cx, k))) == Ok::<
                Seq<StatementModel>,
                ParseError,
            >(stmts_view(final(out)@)),
            Err(x) => statement_at(s@, cx, k) == Err::<Option<StatementModel>, ParseError>(x),
        },
{
    let ghost v = stmts_view(out@);
    if ends_here(s, cx, k) {
        assert(v + seq![] =~= v);
        Ok(())
    } else if s[k] == 46 {
        match parse_directive(s, cx, k) {
            Ok(st) => {
                push_statement(out, st);
                assert(v + seq![st@] =~= v.push(st@));
                Ok(())
            },
            Err(x) => Err(x),
        }
    } else if ident_start(s[k]) {
        let j = scan(s, k, cx.end, Class::Word);
        match mnemonic_from(&s[k..j]) {
            Some(m) => match parse_instruction(s, cx, k, m, j) {
                Ok(st) => {
                    push_statement(out, st);
                    assert(v + seq![st@] =~= v.push(st@));
                    Ok(())
                },
                Err(x) => Err(x),
            },
            None => Err(cx.error(ParseErrorKind::UnexpectedToken, k)),
        }
    } else {
        Err(cx.error(ParseErrorKind::UnexpectedToken, k))
    }
}

fn push_statement(out: &mut Vec<Statement>, st: Statement)
    ensures
        stmts_view(final(out)@) == stmts_view(old(out)@).push(st@),
{
    let ghost v = out@;
    out.push(st);
    assert(stmts_view(out@) =~= stmts_view(v).push(st@));
}

/// Reads one line and appends its statements to `out`.
fn parse_line(s: &[u8], cx: LineCtx, out: &mut Vec<Statement>) -> (r: Result<(), ParseError>)
    requires
        cx.wf(s@),
    ensures
        match r {
            Ok(()) => appended(stmts_view(old(out)@), line_at(s@, cx)) == Ok::<
                Seq<StatementModel>,
                ParseError,
            >(stmts_view(final(out)@)),
            Err(x) => line_at(s@, cx) == Err::<Seq<StatementModel>, ParseError>(x),
        },
{
    let ghost v = stmts_view(out@);
    let i = skip_spaces(s, cx, cx.start);
    if i < cx.end && ident_start(s[i]) {
        let j = scan(s, i, cx.end, Class::Word);
        let label = Statement::LabelDef { name: Span { start: i, end: j }, position: cx.position(i) };
        if j < cx.end && s[j] == 58 {
            push_statement(out, label);
            let k = skip_spaces(s, cx, j + 1);
            assert(v.push(label@) =~= v + seq![label@]);
            proof {
                lemma_appended_assoc(v, seq![label@], optional(statement_at(s@, cx, k)));
            }
            parse_statement(s, cx, k, out)
        } else if mnemonic_from(&s[i..j]).is_none() {
            let q = skip_spaces(s, cx, j);
            if ends_here(s, cx, q) {
                push_statement(out, label);
                assert(v.push(label@) =~= v + seq![label@]);
                Ok(())
            } else if s[q] == 61 {
                match parse_expr(s, cx, q + 1) {
                    Ok((t, m)) => if ends_here(s, cx, m) {
                        let c = Statement::Constant {
                            name: Span { start: i, end: j },
                            value: t,
                            position: cx.position(i),
                        };
                        push_statement(out, c);
                        assert(v.push(c@) =~= v + seq![c@]);
                        Ok(())
                    } else {
                        Err(cx.error(ParseErrorKind::UnexpectedToken, m))
                    },
                    Err(x) => Err(x),
                }
            } else {
                Err(cx.error(ParseErrorKind::UnexpectedToken, q))
            }
        } else {
            parse_statement(s, cx, i, out)
        }
    } else {
        parse_statement(s, cx, i, out)
    }
}

// ---------------------------------------------------------------- lines

/// The statements of the lines from offset `ls` on, the first being line `line`.
pub open spec fn lines_from(s: Seq<u8>, file_id: usize, ls: usize, line: usize) -> Result<
    Seq<StatementModel>,
    ParseError,
>
    decreases s.len() - ls,
{
    let e = run_end(s, ls, s.len() as usize, Class::NotNewline);
    let cx = LineCtx { file_id, start: ls, end: e, line };
    match line_at(s, cx) {
        Err(x) => Err(x),
        Ok(sts) => if ls <= e < s.len() && e < usize::MAX {
            appended(sts, lines_from(s, file_id, (e + 1) as usize, sat_inc(line)))
        } else {
            Ok(sts)
        },
    }
}

/// The statements of a whole buffer, or the first error in it.
pub open spec fn parse_source(s: Seq<u8>, file_id: usize) -> Result<Seq<StatementModel>, ParseError> {
    lines_from(s, file_id, 0, 1)
}

/// Splits the buffer into lines and reads each; stops at the first error.
pub fn parse(s: &[u8], file_id: usize) -> (r: Result<Vec<Statement>, ParseError>)
    ensures
        match r {
            Ok(v) => parse_source(s@, file_id) == Ok::<Seq<StatementModel>, ParseError>(stmts_view(v@)),
            Err(x) => parse_source(s@, file_id) == Err::<Seq<StatementModel>, ParseError>(x),
        },
{
    let mut out: Vec<Statement> = Vec::new();
    let mut ls: usize = 0;
    let mut line: usize = 1;
    assert(stmts_view(out@) =~= seq![]);
    loop
        invariant
            ls <= s@.len(),
            parse_source(s@, file_id) == appended(
                stmts_view(out@),
                lines_from(s@, file_id, ls, line),
            ),
        decreases s@.len() - ls,
    {
        let e = scan(s, ls, s.len(), Class::NotNewline);
        let cx = LineCtx { file_id, start: ls, end: e, line };
        let ghost before = stmts_view(out@);
        match parse_line(s, cx, &mut out) {
            Err(x) => {
                return Err(x);
            },
            Ok(()) => {},
        }
        let ghost sts = line_at(s@, cx)->Ok_0;
        assert(stmts_view(out@) == before + sts);
        if e < s.len() {
            proof {
                lemma_appended_assoc(before, sts, lines_from(s@, file_id, (e + 1) as usize, sat_inc(line)));
            }
            ls = e + 1;
            line = saturating_inc(line);
        } else {
            return Ok(out);
        }
    }
}

} // verus!
