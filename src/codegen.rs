//! The two passes. Pass one lays the program out and defines the symbols;
//! pass two encodes every node with all symbols known.
use vstd::prelude::*;
use crate::ast::{nodes_view, Node, NodeModel};
use crate::opcode::{has_mode, opcode_of, operand_len, operand_length, resolve, supports, AddressingMode, Mnemonic};
use crate::parser::{args_view, Arg, ArgModel, OperandSyntax, Term};
use crate::eval::{
    constant_zp, eval, evaluate, find_symbol, lookup, zp_ok, EvalError, Symbol,
};
use crate::source::{Position, Span};
use std::collections::HashMap;

verus! {

broadcast use vstd::std_specs::hash::group_hash_axioms;

/// Kinds of failure while laying out and encoding the program.
#[derive(Clone, Copy, Debug, PartialEq, Eq, Structural)]
pub enum CodeGenErrorKind {
    DuplicateSymbol,
    UndefinedSymbol,
    IllegalAddressingMode,
    BranchOutOfRange,
    SizeMismatch,
    /// A value does not fit where it is used, or an expression's running
    /// sum leaves the range of `i32`.
    ValueOutOfRange,
    /// The program runs past address `$FFFF`.
    AddressOverflow,
    /// `.org` moves back over output already laid out.
    OriginBackwards,
}

#[derive(Clone, Copy, Debug, PartialEq, Eq, Structural)]
pub struct CodeGeneratorError {
    pub kind: CodeGenErrorKind,
    pub position: Position,
    /// The symbol concerned, for `DuplicateSymbol` and `UndefinedSymbol`.
    pub symbol: Option<Span>,
}

/// The addressing mode an instruction is encoded in.
pub open spec fn final_mode(m: Mnemonic, syntax: OperandSyntax, zp: bool) -> AddressingMode {
    match syntax {
        OperandSyntax::NoOperand => if has_mode(m, AddressingMode::Implicit) {
            AddressingMode::Implicit
        } else {
            AddressingMode::Accumulator
        },
        OperandSyntax::Accumulator => AddressingMode::Accumulator,
        OperandSyntax::Immediate => AddressingMode::Immediate,
        OperandSyntax::Direct => if has_mode(m, AddressingMode::Relative) {
            AddressingMode::Relative
        } else if zp && has_mode(m, AddressingMode::ZeroPage) {
            AddressingMode::ZeroPage
        } else {
            AddressingMode::Absolute
        },
        OperandSyntax::DirectX => if zp && has_mode(m, AddressingMode::ZeroPageX) {
            AddressingMode::ZeroPageX
        } else {
            AddressingMode::AbsoluteX
        },
        OperandSyntax::DirectY => if zp && has_mode(m, AddressingMode::ZeroPageY) {
            AddressingMode::ZeroPageY
        } else {
            AddressingMode::AbsoluteY
        },
        OperandSyntax::Indirect => AddressingMode::Indirect,
        OperandSyntax::IndirectX => AddressingMode::IndirectX,
        OperandSyntax::IndirectY => AddressingMode::IndirectY,
    }
}

// ---------------------------------------------------------------- layout

/// Where the program counter stands, and where output began.
#[derive(Clone, Copy, Debug, PartialEq, Eq, Structural)]
pub struct Layout {
    pub pc: u32,
    pub origin: u32,
    /// Whether any byte has been laid out yet.
    pub started: bool,
}

impl Layout {
    pub open spec fn wf(self) -> bool {
        &&& self.pc <= 0x10000
        &&& self.started ==> self.origin <= self.pc
        &&& !self.started ==> self.pc <= 0xFFFF
    }
}

pub open spec fn initial_layout() -> Layout {
    Layout { pc: 0, origin: 0, started: false }
}

pub open spec fn fail(kind: CodeGenErrorKind, position: Position) -> CodeGeneratorError {
    CodeGeneratorError { kind, position, symbol: None }
}

pub open spec fn eval_fail(e: EvalError, position: Position) -> CodeGeneratorError {
    match e {
        EvalError::Unresolved(sp) => CodeGeneratorError {
            kind: CodeGenErrorKind::UndefinedSymbol,
            position,
            symbol: Some(sp),
        },
        EvalError::TooLarge => fail(CodeGenErrorKind::ValueOutOfRange, position),
    }
}

/// The layout after `size` more bytes.
pub open spec fn advance(l: Layout, size: int, position: Position) -> Result<Layout, CodeGeneratorError> {
    if l.pc + size > 0x10000 {
        Err(fail(CodeGenErrorKind::AddressOverflow, position))
    } else {
        Ok(
            Layout {
                pc: (l.pc + size) as u32,
                origin: if !l.started && size > 0 {
                    l.pc
                } else {
                    l.origin
                },
                started: l.started || size > 0,
            },
        )
    }
}

/// Where `.org` with value `v` puts the program counter, and how many zero
/// bytes fill the gap once output has begun.
pub open spec fn origin_gap(l: Layout, v: int, position: Position) -> Result<(Layout, int), CodeGeneratorError> {
    if v < 0 || v > 0xFFFF {
        Err(fail(CodeGenErrorKind::ValueOutOfRange, position))
    } else if !l.started {
        Ok((Layout { pc: v as u32, ..l }, 0))
    } else if v < l.pc {
        Err(fail(CodeGenErrorKind::OriginBackwards, position))
    } else {
        Ok((l, v - l.pc))
    }
}

pub open spec fn node_position(nd: NodeModel) -> Position {
    match nd {
        NodeModel::Label { position, .. } => position,
        NodeModel::Constant { position, .. } => position,
        NodeModel::Origin { position, .. } => position,
        NodeModel::Reserve { position, .. } => position,
        NodeModel::Data { position, .. } => position,
        NodeModel::Instruction { position, .. } => position,
    }
}

pub open spec fn text_len(src: Seq<u8>, sp: Span) -> int {
    if sp.within(src) {
        sp.end - sp.start
    } else {
        0
    }
}

/// The number of bytes the first `n` arguments of a data directive occupy.
pub open spec fn data_size_upto(src: Seq<u8>, args: Seq<ArgModel>, words: bool, n: int) -> int
    decreases n,
{
    if n <= 0 {
        0
    } else {
        data_size_upto(src, args, words, n - 1) + match args[n - 1] {
            ArgModel::Value(_) => if words {
                2int
            } else {
                1int
            },
            ArgModel::Text(sp) => text_len(src, sp),
        }
    }
}

pub open spec fn data_size(src: Seq<u8>, args: Seq<ArgModel>, words: bool) -> int {
    data_size_upto(src, args, words, args.len() as int)
}

pub open spec fn sized(l: Layout, syms: Seq<Symbol>, size: int, position: Position) -> Result<
    (Layout, Seq<Symbol>, int),
    CodeGeneratorError,
> {
    match advance(l, size, position) {
        Ok(l2) => Ok((l2, syms, size)),
        Err(x) => Err(x),
    }
}

/// Pass one on one node: the layout after it, the symbols known after it,
/// and the number of bytes it occupies.
pub open spec fn step1(src: Seq<u8>, l: Layout, syms: Seq<Symbol>, nd: NodeModel) -> Result<
    (Layout, Seq<Symbol>, int),
    CodeGeneratorError,
> {
    let position = node_position(nd);
    match nd {
        NodeModel::Label { name, position } => if lookup(src, syms, name) is Some {
            Err(
                CodeGeneratorError {
                    kind: CodeGenErrorKind::DuplicateSymbol,
                    position,
                    symbol: Some(name),
                },
            )
        } else {
            Ok((l, syms.push(Symbol { name, value: l.pc, defined_at: position }), 0))
        },
        NodeModel::Constant { name, value, position } => if lookup(src, syms, name) is Some {
            Err(
                CodeGeneratorError {
                    kind: CodeGenErrorKind::DuplicateSymbol,
                    position,
                    symbol: Some(name),
                },
            )
        } else {
            match eval(src, syms, l.pc, value) {
                Err(e) => Err(eval_fail(e, position)),
                Ok(v) => if 0 <= v <= 0xFFFF {
                    Ok((l, syms.push(Symbol { name, value: v as u32, defined_at: position }), 0))
                } else {
                    Err(fail(CodeGenErrorKind::ValueOutOfRange, position))
                },
            }
        },
        NodeModel::Origin { value, .. } => match eval(src, syms, l.pc, value) {
            Err(e) => Err(eval_fail(e, position)),
            Ok(v) => match origin_gap(l, v, position) {
                Err(x) => Err(x),
                Ok((l2, gap)) => match advance(l2, gap, position) {
                    Ok(l3) => Ok((l3, syms, gap)),
                    Err(x) => Err(x),
                },
            },
        },
        NodeModel::Reserve { count, .. } => match eval(src, syms, l.pc, count) {
            Err(e) => Err(eval_fail(e, position)),
            Ok(v) => if v < 0 {
                Err(fail(CodeGenErrorKind::ValueOutOfRange, position))
            } else {
                sized(l, syms, v, position)
            },
        },
        NodeModel::Data { words, args, .. } => sized(l, syms, data_size(src, args, words), position),
        NodeModel::Instruction { mnemonic, syntax, operand, .. } => {
            let mode = final_mode(mnemonic, syntax, zp_ok(src, operand));
            if has_mode(mnemonic, mode) {
                sized(l, syms, 1 + operand_len(mode) as int, position)
            } else {
                Err(fail(CodeGenErrorKind::IllegalAddressingMode, position))
            }
        },
    }
}

/// Pass one over the first `n` nodes: layout, symbol table, and the size of
/// each node.
pub open spec fn pass1_upto(src: Seq<u8>, nodes: Seq<NodeModel>, n: int) -> Result<
    (Layout, Seq<Symbol>, Seq<int>),
    CodeGeneratorError,
>
    decreases n,
{
    if n <= 0 {
        Ok((initial_layout(), seq![], seq![]))
    } else {
        match pass1_upto(src, nodes, n - 1) {
            Ok((l, syms, sizes)) => match step1(src, l, syms, nodes[n - 1]) {
                Ok((l2, syms2, size)) => Ok((l2, syms2, sizes.push(size))),
                Err(x) => Err(x),
            },
            Err(x) => Err(x),
        }
    }
}

pub open spec fn pass1(src: Seq<u8>, nodes: Seq<NodeModel>) -> Result<
    (Layout, Seq<Symbol>, Seq<int>),
    CodeGeneratorError,
> {
    pass1_upto(src, nodes, nodes.len() as int)
}

// ---------------------------------------------------------------- pass two

pub open spec fn zeros(n: int) -> Seq<u8> {
    Seq::new(n as nat, |i: int| 0u8)
}

/// The little-endian encoding of a 16-bit value.
pub open spec fn le16(v: int) -> Seq<u8> {
    seq![(v % 256) as u8, (v / 256) as u8]
}

/// The bytes of the first `n` arguments of a data directive.
pub open spec fn data_bytes_upto(
    src: Seq<u8>,
    syms: Seq<Symbol>,
    pc: u32,
    args: Seq<ArgModel>,
    words: bool,
    position: Position,
    n: int,
) -> Result<Seq<u8>, CodeGeneratorError>
    decreases n,
{
    if n <= 0 {
        Ok(seq![])
    } else {
        match data_bytes_upto(src, syms, pc, args, words, position, n - 1) {
            Ok(b) => match args[n - 1] {
                ArgModel::Value(t) => match eval(src, syms, pc, t) {
                    Err(e) => Err(eval_fail(e, position)),
                    Ok(v) => if words && 0 <= v <= 0xFFFF {
                        Ok(b + le16(v))
                    } else if !words && 0 <= v <= 255 {
                        Ok(b.push(v as u8))
                    } else {
                        Err(fail(CodeGenErrorKind::ValueOutOfRange, position))
                    },
                },
                ArgModel::Text(sp) => Ok(
                    b + if sp.within(src) {
                        sp.text(src)
                    } else {
                        seq![]
                    },
                ),
            },
            Err(x) => Err(x),
        }
    }
}

pub open spec fn data_bytes(
    src: Seq<u8>,
    syms: Seq<Symbol>,
    pc: u32,
    args: Seq<ArgModel>,
    words: bool,
    position: Position,
) -> Result<Seq<u8>, CodeGeneratorError> {
    data_bytes_upto(src, syms, pc, args, words, position, args.len() as int)
}

/// The encoding of an instruction at address `pc`: the opcode, then the
/// operand. A branch stores its target less the address after the branch,
/// which must lie in `[-128, 127]`; other operands are stored as they are,
/// two bytes low first in the absolute and indirect forms.
pub open spec fn instr_bytes(
    src: Seq<u8>,
    syms: Seq<Symbol>,
    pc: u32,
    m: Mnemonic,
    syntax: OperandSyntax,
    operand: Seq<Term>,
    position: Position,
) -> Result<Seq<u8>, CodeGeneratorError> {
    let mode = final_mode(m, syntax, zp_ok(src, operand));
    match opcode_of(m, mode) {
        None => Err(fail(CodeGenErrorKind::IllegalAddressingMode, position)),
        Some(op) => if operand_len(mode) == 0 {
            Ok(seq![op])
        } else {
            match eval(src, syms, pc, operand) {
                Err(e) => Err(eval_fail(e, position)),
                Ok(v) => if mode == AddressingMode::Relative {
                    let d = v - (pc + 2);
                    if -128 <= d <= 127 {
                        Ok(seq![op, (if d < 0 { d + 256 } else { d }) as u8])
                    } else {
                        Err(fail(CodeGenErrorKind::BranchOutOfRange, position))
                    }
                } else if operand_len(mode) == 1 {
                    if 0 <= v <= 255 {
                        Ok(seq![op, v as u8])
                    } else {
                        Err(fail(CodeGenErrorKind::ValueOutOfRange, position))
                    }
                } else if 0 <= v <= 0xFFFF {
                    Ok(seq![op] + le16(v))
                } else {
                    Err(fail(CodeGenErrorKind::ValueOutOfRange, position))
                },
            }
        },
    }
}

pub open spec fn emitted(l: Layout, b: Seq<u8>, position: Position) -> Result<(Layout, Seq<u8>), CodeGeneratorError> {
    match advance(l, b.len() as int, position) {
        Ok(l2) => Ok((l2, b)),
        Err(x) => Err(x),
    }
}

/// Pass two on one node, with every symbol known: the layout after it and
/// its bytes.
pub open spec fn step2(src: Seq<u8>, syms: Seq<Symbol>, l: Layout, nd: NodeModel) -> Result<
    (Layout, Seq<u8>),
    CodeGeneratorError,
> {
    let position = node_position(nd);
    match nd {
        NodeModel::Label { .. } => Ok((l, seq![])),
        NodeModel::Constant { .. } => Ok((l, seq![])),
        NodeModel::Origin { value, .. } => match eval(src, syms, l.pc, value) {
            Err(e) => Err(eval_fail(e, position)),
            Ok(v) => match origin_gap(l, v, position) {
                Err(x) => Err(x),
                Ok((l2, gap)) => emitted(l2, zeros(gap), position),
            },
        },
        NodeModel::Reserve { count, .. } => match eval(src, syms, l.pc, count) {
            Err(e) => Err(eval_fail(e, position)),
            Ok(v) => if v < 0 {
                Err(fail(CodeGenErrorKind::ValueOutOfRange, position))
            } else {
                emitted(l, zeros(v), position)
            },
        },
        NodeModel::Data { words, args, .. } => match data_bytes(
            src,
            syms,
            l.pc,
            args,
            words,
            position,
        ) {
            Ok(b) => emitted(l, b, position),
            Err(x) => Err(x),
        },
        NodeModel::Instruction { mnemonic, syntax, operand, .. } => match instr_bytes(
            src,
            syms,
            l.pc,
            mnemonic,
            syntax,
            operand,
            position,
        ) {
            Ok(b) => emitted(l, b, position),
            Err(x) => Err(x),
        },
    }
}

/// Pass two over the first `n` nodes: layout, output bytes, and the line of
/// each node that emitted bytes, keyed by the offset of its first byte.
pub open spec fn pass2_upto(
    src: Seq<u8>,
    syms: Seq<Symbol>,
    sizes: Seq<int>,
    nodes: Seq<NodeModel>,
    n: int,
) -> Result<(Layout, Seq<u8>, Map<u16, usize>), CodeGeneratorError>
    decreases n,
{
    if n <= 0 {
        Ok((initial_layout(), seq![], Map::empty()))
    } else {
        match pass2_upto(src, syms, sizes, nodes, n - 1) {
            Ok((l, out, lines)) => match step2(src, syms, l, nodes[n - 1]) {
                Ok((l2, b)) => if b.len() != sizes[n - 1] {
                    Err(fail(CodeGenErrorKind::SizeMismatch, node_position(nodes[n - 1])))
                } else {
                    Ok(
                        (
                            l2,
                            out + b,
                            if b.len() > 0 {
                                lines.insert((l.pc - l2.origin) as u16, node_position(nodes[n - 1]).line)
                            } else {
                                lines
                            },
                        ),
                    )
                },
                Err(x) => Err(x),
            },
            Err(x) => Err(x),
        }
    }
}

pub open spec fn pass2(src: Seq<u8>, syms: Seq<Symbol>, sizes: Seq<int>, nodes: Seq<NodeModel>) -> Result<
    (Layout, Seq<u8>, Map<u16, usize>),
    CodeGeneratorError,
> {
    pass2_upto(src, syms, sizes, nodes, nodes.len() as int)
}

/// The address the output is loaded at.
pub open spec fn load_address(l: Layout) -> u16 {
    if l.started {
        l.origin as u16
    } else {
        l.pc as u16
    }
}

/// Both passes: the program image, the line of each statement by the offset
/// of its first byte, and the load address.
pub open spec fn generate_code(src: Seq<u8>, nodes: Seq<NodeModel>) -> Result<
    (Seq<u8>, Map<u16, usize>, u16),
    CodeGeneratorError,
> {
    match pass1(src, nodes) {
        Err(x) => Err(x),
        Ok((_, syms, sizes)) => match pass2(src, syms, sizes, nodes) {
            Err(x) => Err(x),
            Ok((l, out, lines)) => Ok((out, lines, load_address(l))),
        },
    }
}

fn mode_for(m: Mnemonic, syntax: OperandSyntax, zp: bool) -> (r: AddressingMode)
    ensures
        r == final_mode(m, syntax, zp),
{
    match syntax {
        OperandSyntax::NoOperand => if supports(m, AddressingMode::Implicit) {
            AddressingMode::Implicit
        } else {
            AddressingMode::Accumulator
        },
        OperandSyntax::Accumulator => AddressingMode::Accumulator,
        OperandSyntax::Immediate => AddressingMode::Immediate,
        OperandSyntax::Direct => if supports(m, AddressingMode::Relative) {
            AddressingMode::Relative
        } else if zp && supports(m, AddressingMode::ZeroPage) {
            AddressingMode::ZeroPage
        } else {
            AddressingMode::Absolute
        },
        OperandSyntax::DirectX => if zp && supports(m, AddressingMode::ZeroPageX) {
            AddressingMode::ZeroPageX
        } else {
            AddressingMode::AbsoluteX
        },
        OperandSyntax::DirectY => if zp && supports(m, AddressingMode::ZeroPageY) {
            AddressingMode::ZeroPageY
        } else {
            AddressingMode::AbsoluteY
        },
        OperandSyntax::Indirect => AddressingMode::Indirect,
        OperandSyntax::IndirectX => AddressingMode::IndirectX,
        OperandSyntax::IndirectY => AddressingMode::IndirectY,
    }
}

// ---------------------------------------------------------------- layout, executable

fn fail_with(kind: CodeGenErrorKind, position: Position) -> (r: CodeGeneratorError)
    ensures
        r == fail(kind, position),
{
    CodeGeneratorError { kind, position, symbol: None }
}

fn eval_failure(e: EvalError, position: Position) -> (r: CodeGeneratorError)
    ensures
        r == eval_fail(e, position),
{
    match e {
        EvalError::Unresolved(sp) => CodeGeneratorError {
            kind: CodeGenErrorKind::UndefinedSymbol,
            position,
            symbol: Some(sp),
        },
        EvalError::TooLarge => fail_with(CodeGenErrorKind::ValueOutOfRange, position),
    }
}

fn advance_by(l: Layout, size: u64, position: Position) -> (r: Result<Layout, CodeGeneratorError>)
    requires
        l.wf(),
    ensures
        r == advance(l, size as int, position),
        r is Ok ==> r->Ok_0.wf(),
{
    if size > 0x10000 - l.pc as u64 {
        Err(fail_with(CodeGenErrorKind::AddressOverflow, position))
    } else {
        Ok(
            Layout {
                pc: l.pc + size as u32,
                origin: if !l.started && size > 0 {
                    l.pc
                } else {
                    l.origin
                },
                started: l.started || size > 0,
            },
        )
    }
}

fn origin_gap_of(l: Layout, v: i64, position: Position) -> (r: Result<(Layout, u64), CodeGeneratorError>)
    requires
        l.wf(),
    ensures
        match r {
            Ok((l2, gap)) => origin_gap(l, v as int, position) == Ok::<
                (Layout, int),
                CodeGeneratorError,
            >((l2, gap as int)) && l2.wf() && (l2.started ==> l2 == l) && (!l2.started ==> gap
                == 0),
            Err(x) => origin_gap(l, v as int, position) == Err::<(Layout, int), CodeGeneratorError>(
                x,
            ),
        },
{
    if v < 0 || v > 0xFFFF {
        Err(fail_with(CodeGenErrorKind::ValueOutOfRange, position))
    } else if !l.started {
        Ok((Layout { pc: v as u32, ..l }, 0))
    } else if v < l.pc as i64 {
        Err(fail_with(CodeGenErrorKind::OriginBackwards, position))
    } else {
        Ok((l, (v - l.pc as i64) as u64))
    }
}

pub fn position_of(nd: &Node) -> (r: Position)
    ensures
        r == node_position(nd@),
{
    match nd {
        Node::Label { position, .. } => *position,
        Node::Constant { position, .. } => *position,
        Node::Origin { position, .. } => *position,
        Node::Reserve { position, .. } => *position,
        Node::Data { position, .. } => *position,
        Node::Instruction { position, .. } => *position,
    }
}

fn text_length(src: &[u8], sp: Span) -> (r: usize)
    ensures
        r == text_len(src@, sp),
{
    if sp.start <= sp.end && sp.end <= src.len() {
        sp.end - sp.start
    } else {
        0
    }
}

/// Any size beyond this overflows the address space from any start.
pub const SIZE_CAP: u64 = 0x10001;

pub open spec fn capped(x: int) -> int {
    if x < SIZE_CAP {
        x
    } else {
        SIZE_CAP as int
    }
}

fn data_size_capped(src: &[u8], args: &Vec<Arg>, words: bool) -> (r: u64)
    ensures
        r == capped(data_size(src@, args_view(args@), words)),
{
    let ghost av = args_view(args@);
    let mut acc: u64 = 0;
    let mut k: usize = 0;
    while k < args.len()
        invariant
            k <= args@.len(),
            av == args_view(args@),
            data_size_upto(src@, av, words, k as int) >= 0,
            acc == capped(data_size_upto(src@, av, words, k as int)),
        decreases args@.len() - k,
    {
        assert(av[k as int] == args@[k as int]@);
        let item: u64 = match &args[k] {
            Arg::Value(_) => if words {
                2
            } else {
                1
            },
            Arg::Text(sp) => {
                let n = text_length(src, *sp);
                if n as u64 >= SIZE_CAP {
                    SIZE_CAP
                } else {
                    n as u64
                }
            },
        };
        acc = if acc + item >= SIZE_CAP {
            SIZE_CAP
        } else {
            acc + item
        };
        k = k + 1;
    }
    acc
}

fn step1_exec(src: &[u8], l: Layout, syms: &mut Vec<Symbol>, nd: &Node) -> (r: Result<
    (Layout, u32),
    CodeGeneratorError,
>)
    requires
        l.wf(),
    ensures
        match step1(src@, l, old(syms)@, nd@) {
            Ok((l2, syms2, size)) => r == Ok::<(Layout, u32), CodeGeneratorError>((l2, size as u32))
                && final(syms)@ == syms2 && l2.wf() && 0 <= size <= 0x10000,
            Err(x) => r == Err::<(Layout, u32), CodeGeneratorError>(x),
        },
{
    match nd {
        Node::Label { name, position } => {
            if find_symbol(src, syms, *name).is_some() {
                Err(
                    CodeGeneratorError {
                        kind: CodeGenErrorKind::DuplicateSymbol,
                        position: *position,
                        symbol: Some(*name),
                    },
                )
            } else {
                syms.push(Symbol { name: *name, value: l.pc, defined_at: *position });
                Ok((l, 0))
            }
        },
        Node::Constant { name, value, position } => {
            if find_symbol(src, syms, *name).is_some() {
                return Err(
                    CodeGeneratorError {
                        kind: CodeGenErrorKind::DuplicateSymbol,
                        position: *position,
                        symbol: Some(*name),
                    },
                );
            }
            match evaluate(src, syms, l.pc, value) {
                Err(e) => Err(eval_failure(e, *position)),
                Ok(v) => if 0 <= v && v <= 0xFFFF {
                    syms.push(Symbol { name: *name, value: v as u32, defined_at: *position });
                    Ok((l, 0))
                } else {
                    Err(fail_with(CodeGenErrorKind::ValueOutOfRange, *position))
                },
            }
        },
        Node::Origin { value, position } => match evaluate(src, syms, l.pc, value) {
            Err(e) => Err(eval_failure(e, *position)),
            Ok(v) => match origin_gap_of(l, v, *position) {
                Err(x) => Err(x),
                Ok((l2, gap)) => match advance_by(l2, gap, *position) {
                    Ok(l3) => Ok((l3, gap as u32)),
                    Err(x) => Err(x),
                },
            },
        },
        Node::Reserve { count, position } => match evaluate(src, syms, l.pc, count) {
            Err(e) => Err(eval_failure(e, *position)),
            Ok(v) => if v < 0 {
                Err(fail_with(CodeGenErrorKind::ValueOutOfRange, *position))
            } else {
                match advance_by(l, v as u64, *position) {
                    Ok(l2) => Ok((l2, v as u32)),
                    Err(x) => Err(x),
                }
            },
        },
        Node::Data { words, args, position } => {
            let size = data_size_capped(src, args, *words);
            match advance_by(l, size, *position) {
                Ok(l2) => Ok((l2, size as u32)),
                Err(x) => Err(x),
            }
        },
        Node::Instruction { mnemonic, syntax, operand, position } => {
            let mode = mode_for(*mnemonic, *syntax, constant_zp(src, operand));
            if supports(*mnemonic, mode) {
                match advance_by(l, 1 + operand_length(mode) as u64, *position) {
                    Ok(l2) => Ok((l2, 1 + operand_length(mode) as u32)),
                    Err(x) => Err(x),
                }
            } else {
                Err(fail_with(CodeGenErrorKind::IllegalAddressingMode, *position))
            }
        },
    }
}

pub open spec fn sizes_view(v: Seq<u32>) -> Seq<int> {
    v.map_values(|x: u32| x as int)
}

proof fn lemma_pass1_err(src: Seq<u8>, nodes: Seq<NodeModel>, k: int, n: int)
    requires
        1 <= k <= n,
        pass1_upto(src, nodes, k) is Err,
    ensures
        pass1_upto(src, nodes, n) == pass1_upto(src, nodes, k),
    decreases n - k,
{
    if k < n {
        lemma_pass1_err(src, nodes, k, n - 1);
    }
}

/// Pass one: assigns each label its address and sizes every node.
pub fn run_pass1(src: &[u8], nodes: &Vec<Node>) -> (r: Result<(Vec<Symbol>, Vec<u32>), CodeGeneratorError>)
    ensures
        match pass1(src@, nodes_view(nodes@)) {
            Ok((_, syms, sizes)) => r is Ok && r->Ok_0.0@ == syms && sizes_view(r->Ok_0.1@) == sizes
                && r->Ok_0.1@.len() == nodes@.len(),
            Err(x) => r == Err::<(Vec<Symbol>, Vec<u32>), CodeGeneratorError>(x),
        },
{
    let ghost nv = nodes_view(nodes@);
    let mut syms: Vec<Symbol> = Vec::new();
    let mut sizes: Vec<u32> = Vec::new();
    let mut l = Layout { pc: 0, origin: 0, started: false };
    let mut k: usize = 0;
    assert(syms@ =~= seq![]);
    assert(sizes_view(sizes@) =~= seq![]);
    while k < nodes.len()
        invariant
            k <= nodes@.len(),
            nv == nodes_view(nodes@),
            l.wf(),
            sizes@.len() == k,
            pass1_upto(src@, nv, k as int) == Ok::<
                (Layout, Seq<Symbol>, Seq<int>),
                CodeGeneratorError,
            >((l, syms@, sizes_view(sizes@))),
        decreases nodes@.len() - k,
    {
        assert(nv[k as int] == nodes@[k as int]@);
        match step1_exec(src, l, &mut syms, &nodes[k]) {
            Ok((l2, size)) => {
                let ghost before = sizes@;
                sizes.push(size);
                assert(sizes_view(sizes@) =~= sizes_view(before).push(size as int));
                l = l2;
            },
            Err(x) => {
                proof {
                    lemma_pass1_err(src@, nv, k + 1, nodes@.len() as int);
                }
                return Err(x);
            },
        }
        k = k + 1;
    }
    Ok((syms, sizes))
}

fn push_zeros(out: &mut Vec<u8>, n: u64)
    requires
        n <= 0x10000,
    ensures
        final(out)@ == old(out)@ + zeros(n as int),
{
    let ghost start = out@;
    let mut k: u64 = 0;
    while k < n
        invariant
            k <= n,
            out@ == start + zeros(k as int),
        decreases n - k,
    {
        out.push(0);
        k = k + 1;
        assert(out@ =~= start + zeros(k as int));
    }
}

fn push_text(src: &[u8], sp: Span, out: &mut Vec<u8>)
    ensures
        final(out)@ == old(out)@ + if sp.within(src@) {
            sp.text(src@)
        } else {
            seq![]
        },
{
    let ghost start = out@;
    if !(sp.start <= sp.end && sp.end <= src.len()) {
        assert(out@ =~= start + seq![]);
        return;
    }
    let mut k: usize = sp.start;
    while k < sp.end
        invariant
            sp.start <= k <= sp.end <= src@.len(),
            out@ == start + src@.subrange(sp.start as int, k as int),
        decreases sp.end - k,
    {
        out.push(src[k]);
        k = k + 1;
        assert(out@ =~= start + src@.subrange(sp.start as int, k as int));
    }
}

fn push_le16(out: &mut Vec<u8>, v: i64)
    requires
        0 <= v <= 0xFFFF,
    ensures
        final(out)@ == old(out)@ + le16(v as int),
{
    let ghost start = out@;
    out.push((v % 256) as u8);
    out.push((v / 256) as u8);
    assert(out@ =~= start + le16(v as int));
}

proof fn lemma_data_err(
    src: Seq<u8>,
    syms: Seq<Symbol>,
    pc: u32,
    args: Seq<ArgModel>,
    words: bool,
    position: Position,
    k: int,
    n: int,
)
    requires
        1 <= k <= n,
        data_bytes_upto(src, syms, pc, args, words, position, k) is Err,
    ensures
        data_bytes_upto(src, syms, pc, args, words, position, n) == data_bytes_upto(
            src,
            syms,
            pc,
            args,
            words,
            position,
            k,
        ),
    decreases n - k,
{
    if k < n {
        lemma_data_err(src, syms, pc, args, words, position, k, n - 1);
    }
}

fn emit_data(
    src: &[u8],
    syms: &Vec<Symbol>,
    pc: u32,
    args: &Vec<Arg>,
    words: bool,
    position: Position,
    out: &mut Vec<u8>,
) -> (r: Result<(), CodeGeneratorError>)
    ensures
        match data_bytes(src@, syms@, pc, args_view(args@), words, position) {
            Ok(b) => r is Ok && final(out)@ == old(out)@ + b,
            Err(x) => r == Err::<(), CodeGeneratorError>(x),
        },
{
    let ghost av = args_view(args@);
    let ghost start = out@;
    let mut k: usize = 0;
    assert(start =~= start + seq![]);
    while k < args.len()
        invariant
            k <= args@.len(),
            av == args_view(args@),
            data_bytes_upto(src@, syms@, pc, av, words, position, k as int) is Ok,
            out@ == start + data_bytes_upto(src@, syms@, pc, av, words, position, k as int)->Ok_0,
        decreases args@.len() - k,
    {
        assert(av[k as int] == args@[k as int]@);
        let ghost prev = data_bytes_upto(src@, syms@, pc, av, words, position, k as int)->Ok_0;
        match &args[k] {
            Arg::Value(t) => match evaluate(src, syms, pc, t) {
                Err(e) => {
                    proof {
                        lemma_data_err(src@, syms@, pc, av, words, position, k + 1, args@.len() as int);
                    }
                    return Err(eval_failure(e, position));
                },
                Ok(v) => {
                    if words && 0 <= v && v <= 0xFFFF {
                        push_le16(out, v);
                        assert(out@ =~= start + (prev + le16(v as int)));
                    } else if !words && 0 <= v && v <= 255 {
                        out.push(v as u8);
                        assert(out@ =~= start + prev.push(v as u8));
                    } else {
                        proof {
                            lemma_data_err(src@, syms@, pc, av, words, position, k + 1, args@.len() as int);
                        }
                        return Err(fail_with(CodeGenErrorKind::ValueOutOfRange, position));
                    }
                },
            },
            Arg::Text(sp) => {
                push_text(src, *sp, out);
                assert(out@ =~= start + (prev + if sp.within(src@) {
                    sp.text(src@)
                } else {
                    seq![]
                }));
            },
        }
        k = k + 1;
    }
    Ok(())
}

fn emit_instruction(
    src: &[u8],
    syms: &Vec<Symbol>,
    pc: u32,
    m: Mnemonic,
    syntax: OperandSyntax,
    operand: &Vec<Term>,
    position: Position,
    out: &mut Vec<u8>,
) -> (r: Result<(), CodeGeneratorError>)
    ensures
        match instr_bytes(src@, syms@, pc, m, syntax, operand@, position) {
            Ok(b) => r is Ok && final(out)@ == old(out)@ + b,
            Err(x) => r == Err::<(), CodeGeneratorError>(x),
        },
{
    let ghost start = out@;
    let mode = mode_for(m, syntax, constant_zp(src, operand));
    let op = match resolve(m, mode) {
        Some(op) => op,
        None => {
            return Err(fail_with(CodeGenErrorKind::IllegalAddressingMode, position));
        },
    };
    let len = operand_length(mode);
    if len == 0 {
        out.push(op);
        assert(out@ =~= start + seq![op]);
        return Ok(());
    }
    let v = match evaluate(src, syms, pc, operand) {
        Ok(v) => v,
        Err(e) => {
            return Err(eval_failure(e, position));
        },
    };
    if mode == AddressingMode::Relative {
        let d = v - (pc as i64 + 2);
        if -128 <= d && d <= 127 {
            out.push(op);
            out.push(
                if d < 0 {
                    (d + 256) as u8
                } else {
                    d as u8
                },
            );
            assert(out@ =~= start + seq![op, (if d < 0 { d + 256 } else { d as int }) as u8]);
            Ok(())
        } else {
            Err(fail_with(CodeGenErrorKind::BranchOutOfRange, position))
        }
    } else if len == 1 {
        if 0 <= v && v <= 255 {
            out.push(op);
            out.push(v as u8);
            assert(out@ =~= start + seq![op, v as u8]);
            Ok(())
        } else {
            Err(fail_with(CodeGenErrorKind::ValueOutOfRange, position))
        }
    } else if 0 <= v && v <= 0xFFFF {
        out.push(op);
        push_le16(out, v);
        assert(out@ =~= start + (seq![op] + le16(v as int)));
        Ok(())
    } else {
        Err(fail_with(CodeGenErrorKind::ValueOutOfRange, position))
    }
}

fn step2_exec(src: &[u8], syms: &Vec<Symbol>, l: Layout, nd: &Node, out: &mut Vec<u8>) -> (r: Result<
    Layout,
    CodeGeneratorError,
>)
    requires
        l.wf(),
    ensures
        match step2(src@, syms@, l, nd@) {
            Ok((l2, b)) => r == Ok::<Layout, CodeGeneratorError>(l2) && final(out)@ == old(out)@ + b
                && l2.wf() && (b.len() > 0 ==> l2.origin <= l.pc),
            Err(x) => r == Err::<Layout, CodeGeneratorError>(x),
        },
{
    let ghost start = out@;
    match nd {
        Node::Label { .. } | Node::Constant { .. } => {
            assert(out@ =~= start + seq![]);
            Ok(l)
        },
        Node::Origin { value, position } => match evaluate(src, syms, l.pc, value) {
            Err(e) => Err(eval_failure(e, *position)),
            Ok(v) => match origin_gap_of(l, v, *position) {
                Err(x) => Err(x),
                Ok((l2, gap)) => match advance_by(l2, gap, *position) {
                    Ok(l3) => {
                        push_zeros(out, gap);
                        Ok(l3)
                    },
                    Err(x) => Err(x),
                },
            },
        },
        Node::Reserve { count, position } => match evaluate(src, syms, l.pc, count) {
            Err(e) => Err(eval_failure(e, *position)),
            Ok(v) => if v < 0 {
                Err(fail_with(CodeGenErrorKind::ValueOutOfRange, *position))
            } else {
                match advance_by(l, v as u64, *position) {
                    Ok(l2) => {
                        push_zeros(out, v as u64);
                        Ok(l2)
                    },
                    Err(x) => Err(x),
                }
            },
        },
        Node::Data { words, args, position } => {
            let before = out.len();
            match emit_data(src, syms, l.pc, args, *words, *position, out) {
                Ok(()) => advance_by(l, (out.len() - before) as u64, *position),
                Err(x) => Err(x),
            }
        },
        Node::Instruction { mnemonic, syntax, operand, position } => {
            let before = out.len();
            match emit_instruction(src, syms, l.pc, *mnemonic, *syntax, operand, *position, out) {
                Ok(()) => advance_by(l, (out.len() - before) as u64, *position),
                Err(x) => Err(x),
            }
        },
    }
}

proof fn lemma_pass2_err(
    src: Seq<u8>,
    syms: Seq<Symbol>,
    sizes: Seq<int>,
    nodes: Seq<NodeModel>,
    k: int,
    n: int,
)
    requires
        1 <= k <= n,
        pass2_upto(src, syms, sizes, nodes, k) is Err,
    ensures
        pass2_upto(src, syms, sizes, nodes, n) == pass2_upto(src, syms, sizes, nodes, k),
    decreases n - k,
{
    if k < n {
        lemma_pass2_err(src, syms, sizes, nodes, k, n - 1);
    }
}

/// Pass two: encodes every node with all symbols known, checks each size
/// against pass one, and records where each statement's bytes begin.
fn run_pass2(src: &[u8], syms: &Vec<Symbol>, sizes: &Vec<u32>, nodes: &Vec<Node>) -> (r: Result<
    (Layout, Vec<u8>, HashMap<u16, usize>),
    CodeGeneratorError,
>)
    requires
        sizes@.len() == nodes@.len(),
    ensures
        match pass2(src@, syms@, sizes_view(sizes@), nodes_view(nodes@)) {
            Ok((l, out, lines)) => r is Ok && r->Ok_0.0 == l && r->Ok_0.1@ == out && r->Ok_0.2@
                == lines,
            Err(x) => r == Err::<(Layout, Vec<u8>, HashMap<u16, usize>), CodeGeneratorError>(x),
        },
{
    let ghost nv = nodes_view(nodes@);
    let ghost sv = sizes_view(sizes@);
    let mut l = Layout { pc: 0, origin: 0, started: false };
    let mut out: Vec<u8> = Vec::new();
    let mut lines: HashMap<u16, usize> = HashMap::new();
    let mut k: usize = 0;
    assert(out@ =~= seq![]);
    while k < nodes.len()
        invariant
            k <= nodes@.len(),
            sizes@.len() == nodes@.len(),
            nv == nodes_view(nodes@),
            sv == sizes_view(sizes@),
            l.wf(),
            pass2_upto(src@, syms@, sv, nv, k as int) == Ok::<
                (Layout, Seq<u8>, Map<u16, usize>),
                CodeGeneratorError,
            >((l, out@, lines@)),
        decreases nodes@.len() - k,
    {
        assert(nv[k as int] == nodes@[k as int]@);
        let before = out.len();
        let position = position_of(&nodes[k]);
        match step2_exec(src, syms, l, &nodes[k], &mut out) {
            Ok(l2) => {
                let n = out.len() - before;
                if n as u64 != sizes[k] as u64 {
                    proof {
                        lemma_pass2_err(src@, syms@, sv, nv, k + 1, nodes@.len() as int);
                    }
                    return Err(fail_with(CodeGenErrorKind::SizeMismatch, position));
                }
                if n > 0 {
                    lines.insert((l.pc - l2.origin) as u16, position.line);
                }
                l = l2;
            },
            Err(x) => {
                proof {
                    lemma_pass2_err(src@, syms@, sv, nv, k + 1, nodes@.len() as int);
                }
                return Err(x);
            },
        }
        k = k + 1;
    }
    Ok((l, out, lines))
}

/// Runs both passes over the nodes: the program image, the source line of
/// each statement keyed by the offset of its first byte, and the load address.
pub fn generate(src: &[u8], nodes: &Vec<Node>) -> (r: Result<
    (Vec<u8>, HashMap<u16, usize>, u16),
    CodeGeneratorError,
>)
    ensures
        match generate_code(src@, nodes_view(nodes@)) {
            Ok((out, lines, origin)) => r is Ok && r->Ok_0.0@ == out && r->Ok_0.1@ == lines
                && r->Ok_0.2 == origin,
            Err(x) => r == Err::<(Vec<u8>, HashMap<u16, usize>, u16), CodeGeneratorError>(x),
        },
{
    let (syms, sizes) = match run_pass1(src, nodes) {
        Ok(p) => p,
        Err(x) => {
            return Err(x);
        },
    };
    match run_pass2(src, &syms, &sizes, nodes) {
        Ok((l, out, lines)) => {
            let origin = if l.started {
                l.origin as u16
            } else {
                l.pc as u16
            };
            Ok((out, lines, origin))
        },
        Err(x) => Err(x),
    }
}

} // verus!
