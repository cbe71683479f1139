//! From statements to validated nodes: directive names and arguments, and
//! operand forms against the opcode table.
use vstd::prelude::*;
use crate::opcode::{has_mode, supports, AddressingMode, Mnemonic};
use crate::parser::{
    args_view, stmts_view, Arg, ArgModel, OperandSyntax, Statement, StatementModel, Term,
};
use crate::source::{Position, Span};

verus! {

/// Kinds of structural failure found while building the tree.
#[derive(Clone, Copy, Debug, PartialEq, Eq, Structural)]
pub enum AstErrorKind {
    UnknownDirective,
    MalformedDirectiveArguments,
    InvalidOperandForMnemonic,
}

#[derive(Clone, Copy, Debug, PartialEq, Eq, Structural)]
pub struct AstGeneratorError {
    pub kind: AstErrorKind,
    pub position: Position,
}

/// A validated statement.
#[derive(Debug)]
pub enum Node {
    Label { name: Span, position: Position },
    /// `name = e`: defines `name` as the value of `e`.
    Constant { name: Span, value: Vec<Term>, position: Position },
    /// `.org e`: moves the program counter to `e`.
    Origin { value: Vec<Term>, position: Position },
    /// `.res e`: leaves `e` zero bytes.
    Reserve { count: Vec<Term>, position: Position },
    /// `.byte` (one byte per value) or `.word` (two, low byte first).
    Data { words: bool, args: Vec<Arg>, position: Position },
    Instruction {
        mnemonic: Mnemonic,
        syntax: OperandSyntax,
        operand: Vec<Term>,
        position: Position,
    },
}

pub enum NodeModel {
    Label { name: Span, position: Position },
    Constant { name: Span, value: Seq<Term>, position: Position },
    Origin { value: Seq<Term>, position: Position },
    Reserve { count: Seq<Term>, position: Position },
    Data { words: bool, args: Seq<ArgModel>, position: Position },
    Instruction {
        mnemonic: Mnemonic,
        syntax: OperandSyntax,
        operand: Seq<Term>,
        position: Position,
    },
}

impl View for Node {
    type V = NodeModel;

    open spec fn view(&self) -> NodeModel {
        match self {
            Node::Label { name, position } => NodeModel::Label { name: *name, position: *position },
            Node::Constant { name, value, position } => NodeModel::Constant {
                name: *name,
                value: value@,
                position: *position,
            },
            Node::Origin { value, position } => NodeModel::Origin {
                value: value@,
                position: *position,
            },
            Node::Reserve { count, position } => NodeModel::Reserve {
                count: count@,
                position: *position,
            },
            Node::Data { words, args, position } => NodeModel::Data {
                words: *words,
                args: args_view(args@),
                position: *position,
            },
            Node::Instruction { mnemonic, syntax, operand, position } => NodeModel::Instruction {
                mnemonic: *mnemonic,
                syntax: *syntax,
                operand: operand@,
                position: *position,
            },
        }
    }
}

pub open spec fn nodes_view(v: Seq<Node>) -> Seq<NodeModel> {
    v.map_values(|x: Node| x@)
}

/// The directives of the language.
#[derive(Clone, Copy, Debug, PartialEq, Eq, Structural)]
pub enum DirectiveKind {
    Org,
    Byte,
    Word,
    Res,
}

pub open spec fn lower(c: u8) -> u8 {
    if 65 <= c <= 90 {
        (c + 32) as u8
    } else {
        c
    }
}

fn to_lower(c: u8) -> (r: u8)
    ensures
        r == lower(c),
{
    if 65 <= c && c <= 90 {
        c + 32
    } else {
        c
    }
}

/// The directive a name denotes, ignoring case: `org`, `byte`, `word`, `res`.
pub open spec fn directive_kind(t: Seq<u8>) -> Option<DirectiveKind> {
    if t.len() == 3 && lower(t[0]) == 111 && lower(t[1]) == 114 && lower(t[2]) == 103 {
        Some(DirectiveKind::Org)
    } else if t.len() == 4 && lower(t[0]) == 98 && lower(t[1]) == 121 && lower(t[2]) == 116
        && lower(t[3]) == 101 {
        Some(DirectiveKind::Byte)
    } else if t.len() == 4 && lower(t[0]) == 119 && lower(t[1]) == 111 && lower(t[2]) == 114
        && lower(t[3]) == 100 {
        Some(DirectiveKind::Word)
    } else if t.len() == 3 && lower(t[0]) == 114 && lower(t[1]) == 101 && lower(t[2]) == 115 {
        Some(DirectiveKind::Res)
    } else {
        None
    }
}

pub fn directive_kind_of(t: &[u8]) -> (r: Option<DirectiveKind>)
    ensures
        r == directive_kind(t@),
{
    if t.len() == 3 && to_lower(t[0]) == 111 && to_lower(t[1]) == 114 && to_lower(t[2]) == 103 {
        Some(DirectiveKind::Org)
    } else if t.len() == 4 && to_lower(t[0]) == 98 && to_lower(t[1]) == 121 && to_lower(t[2])
        == 116 && to_lower(t[3]) == 101 {
        Some(DirectiveKind::Byte)
    } else if t.len() == 4 && to_lower(t[0]) == 119 && to_lower(t[1]) == 111 && to_lower(t[2])
        == 114 && to_lower(t[3]) == 100 {
        Some(DirectiveKind::Word)
    } else if t.len() == 3 && to_lower(t[0]) == 114 && to_lower(t[1]) == 101 && to_lower(t[2])
        == 115 {
        Some(DirectiveKind::Res)
    } else {
        None
    }
}

/// Whether the mnemonic has some addressing mode written in this syntax.
pub open spec fn syntax_fits(m: Mnemonic, syntax: OperandSyntax) -> bool {
    match syntax {
        OperandSyntax::NoOperand => has_mode(m, AddressingMode::Implicit) || has_mode(
            m,
            AddressingMode::Accumulator,
        ),
        OperandSyntax::Accumulator => has_mode(m, AddressingMode::Accumulator),
        OperandSyntax::Immediate => has_mode(m, AddressingMode::Immediate),
        OperandSyntax::Direct => has_mode(m, AddressingMode::ZeroPage) || has_mode(
            m,
            AddressingMode::Absolute,
        ) || has_mode(m, AddressingMode::Relative),
        OperandSyntax::DirectX => has_mode(m, AddressingMode::ZeroPageX) || has_mode(
            m,
            AddressingMode::AbsoluteX,
        ),
        OperandSyntax::DirectY => has_mode(m, AddressingMode::ZeroPageY) || has_mode(
            m,
            AddressingMode::AbsoluteY,
        ),
        OperandSyntax::Indirect => has_mode(m, AddressingMode::Indirect),
        OperandSyntax::IndirectX => has_mode(m, AddressingMode::IndirectX),
        OperandSyntax::IndirectY => has_mode(m, AddressingMode::IndirectY),
    }
}

pub fn syntax_fits_exec(m: Mnemonic, syntax: OperandSyntax) -> (r: bool)
    ensures
        r == syntax_fits(m, syntax),
{
    match syntax {
        OperandSyntax::NoOperand => supports(m, AddressingMode::Implicit) || supports(
            m,
            AddressingMode::Accumulator,
        ),
        OperandSyntax::Accumulator => supports(m, AddressingMode::Accumulator),
        OperandSyntax::Immediate => supports(m, AddressingMode::Immediate),
        OperandSyntax::Direct => supports(m, AddressingMode::ZeroPage) || supports(
            m,
            AddressingMode::Absolute,
        ) || supports(m, AddressingMode::Relative),
        OperandSyntax::DirectX => supports(m, AddressingMode::ZeroPageX) || supports(
            m,
            AddressingMode::AbsoluteX,
        ),
        OperandSyntax::DirectY => supports(m, AddressingMode::ZeroPageY) || supports(
            m,
            AddressingMode::AbsoluteY,
        ),
        OperandSyntax::Indirect => supports(m, AddressingMode::Indirect),
        OperandSyntax::IndirectX => supports(m, AddressingMode::IndirectX),
        OperandSyntax::IndirectY => supports(m, AddressingMode::IndirectY),
    }
}

pub open spec fn all_values(args: Seq<ArgModel>) -> bool {
    forall|k: int| 0 <= k < args.len() ==> #[trigger] args[k] is Value
}

/// The node a statement becomes, or why it is malformed.
pub open spec fn node_of(src: Seq<u8>, st: StatementModel) -> Result<NodeModel, AstGeneratorError> {
    match st {
        StatementModel::LabelDef { name, position } => Ok(NodeModel::Label { name, position }),
        StatementModel::Constant { name, value, position } => Ok(
            NodeModel::Constant { name, value, position },
        ),
        StatementModel::Directive { name, args, position } => match if name.within(src) {
            directive_kind(name.text(src))
        } else {
            None
        } {
            None => Err(AstGeneratorError { kind: AstErrorKind::UnknownDirective, position }),
            Some(DirectiveKind::Org) => if args.len() == 1 && args[0] is Value {
                Ok(NodeModel::Origin { value: args[0]->Value_0, position })
            } else {
                Err(AstGeneratorError { kind: AstErrorKind::MalformedDirectiveArguments, position })
            },
            Some(DirectiveKind::Res) => if args.len() == 1 && args[0] is Value {
                Ok(NodeModel::Reserve { count: args[0]->Value_0, position })
            } else {
                Err(AstGeneratorError { kind: AstErrorKind::MalformedDirectiveArguments, position })
            },
            Some(DirectiveKind::Byte) => if args.len() >= 1 {
                Ok(NodeModel::Data { words: false, args, position })
            } else {
                Err(AstGeneratorError { kind: AstErrorKind::MalformedDirectiveArguments, position })
            },
            Some(DirectiveKind::Word) => if args.len() >= 1 && all_values(args) {
                Ok(NodeModel::Data { words: true, args, position })
            } else {
                Err(AstGeneratorError { kind: AstErrorKind::MalformedDirectiveArguments, position })
            },
        },
        StatementModel::Instruction { mnemonic, syntax, operand, position } => if syntax_fits(
            mnemonic,
            syntax,
        ) {
            Ok(NodeModel::Instruction { mnemonic, syntax, operand, position })
        } else {
            Err(AstGeneratorError { kind: AstErrorKind::InvalidOperandForMnemonic, position })
        },
    }
}

/// The nodes of the first `n` statements, or the first error among them.
pub open spec fn nodes_upto(src: Seq<u8>, sts: Seq<StatementModel>, n: int) -> Result<
    Seq<NodeModel>,
    AstGeneratorError,
>
    decreases n,
{
    if n <= 0 {
        Ok(seq![])
    } else {
        match nodes_upto(src, sts, n - 1) {
            Ok(ns) => match node_of(src, sts[n - 1]) {
                Ok(nd) => Ok(ns.push(nd)),
                Err(x) => Err(x),
            },
            Err(x) => Err(x),
        }
    }
}

pub open spec fn generate_spec(src: Seq<u8>, sts: Seq<StatementModel>) -> Result<
    Seq<NodeModel>,
    AstGeneratorError,
> {
    nodes_upto(src, sts, sts.len() as int)
}

pub fn copy_terms(t: &Vec<Term>) -> (r: Vec<Term>)
    ensures
        r@ == t@,
{
    let mut r: Vec<Term> = Vec::new();
    let mut k: usize = 0;
    while k < t.len()
        invariant
            k <= t@.len(),
            r@ == t@.subrange(0, k as int),
        decreases t@.len() - k,
    {
        r.push(t[k]);
        k = k + 1;
        assert(r@ =~= t@.subrange(0, k as int));
    }
    assert(t@.subrange(0, k as int) =~= t@);
    r
}

fn copy_args(a: &Vec<Arg>) -> (r: Vec<Arg>)
    ensures
        args_view(r@) == args_view(a@),
{
    let mut r: Vec<Arg> = Vec::new();
    let mut k: usize = 0;
    while k < a.len()
        invariant
            k <= a@.len(),
            args_view(r@) == args_view(a@).subrange(0, k as int),
        decreases a@.len() - k,
    {
        let c = match &a[k] {
            Arg::Value(t) => Arg::Value(copy_terms(t)),
            Arg::Text(sp) => Arg::Text(*sp),
        };
        let ghost before = r@;
        r.push(c);
        assert(args_view(r@) =~= args_view(before).push(c@));
        k = k + 1;
        assert(args_view(r@) =~= args_view(a@).subrange(0, k as int));
    }
    assert(args_view(a@).subrange(0, k as int) =~= args_view(a@));
    r
}

fn all_values_exec(args: &Vec<Arg>) -> (r: bool)
    ensures
        r == all_values(args_view(args@)),
{
    let mut k: usize = 0;
    while k < args.len()
        invariant
            k <= args@.len(),
            forall|j: int| 0 <= j < k ==> #[trigger] args_view(args@)[j] is Value,
        decreases args@.len() - k,
    {
        match &args[k] {
            Arg::Value(_) => {},
            Arg::Text(_) => {
                assert(!(args_view(args@)[k as int] is Value));
                return false;
            },
        }
        k = k + 1;
    }
    true
}

fn build_node(src: &[u8], st: &Statement) -> (r: Result<Node, AstGeneratorError>)
    ensures
        match r {
            Ok(nd) => node_of(src@, st@) == Ok::<NodeModel, AstGeneratorError>(nd@),
            Err(x) => node_of(src@, st@) == Err::<NodeModel, AstGeneratorError>(x),
        },
{
    match st {
        Statement::LabelDef { name, position } => Ok(Node::Label { name: *name, position: *position }),
        Statement::Constant { name, value, position } => Ok(
            Node::Constant { name: *name, value: copy_terms(value), position: *position },
        ),
        Statement::Directive { name, args, position } => {
            if !(name.start <= name.end && name.end <= src.len()) {
                return Err(AstGeneratorError { kind: AstErrorKind::UnknownDirective, position: *position });
            }
            let malformed = AstGeneratorError {
                kind: AstErrorKind::MalformedDirectiveArguments,
                position: *position,
            };
            match directive_kind_of(&src[name.start..name.end]) {
                None => Err(AstGeneratorError { kind: AstErrorKind::UnknownDirective, position: *position }),
                Some(DirectiveKind::Org) => match single_value(args) {
                    Some(t) => Ok(Node::Origin { value: t, position: *position }),
                    None => Err(malformed),
                },
                Some(DirectiveKind::Res) => match single_value(args) {
                    Some(t) => Ok(Node::Reserve { count: t, position: *position }),
                    None => Err(malformed),
                },
                Some(DirectiveKind::Byte) => if args.len() >= 1 {
                    Ok(Node::Data { words: false, args: copy_args(args), position: *position })
                } else {
                    Err(malformed)
                },
                Some(DirectiveKind::Word) => if args.len() >= 1 && all_values_exec(args) {
                    Ok(Node::Data { words: true, args: copy_args(args), position: *position })
                } else {
                    Err(malformed)
                },
            }
        },
        Statement::Instruction { mnemonic, syntax, operand, position } => {
            if syntax_fits_exec(*mnemonic, *syntax) {
                Ok(
                    Node::Instruction {
                        mnemonic: *mnemonic,
                        syntax: *syntax,
                        operand: copy_terms(operand),
                        position: *position,
                    },
                )
            } else {
                Err(AstGeneratorError { kind: AstErrorKind::InvalidOperandForMnemonic, position: *position })
            }
        },
    }
}

fn single_value(args: &Vec<Arg>) -> (r: Option<Vec<Term>>)
    ensures
        match r {
            Some(t) => args_view(args@).len() == 1 && args_view(args@)[0] == ArgModel::Value(t@),
            None => !(args_view(args@).len() == 1 && args_view(args@)[0] is Value),
        },
{
    if args.len() == 1 {
        match &args[0] {
            Arg::Value(t) => Some(copy_terms(t)),
            Arg::Text(_) => None,
        }
    } else {
        None
    }
}

/// Validates each statement in order and builds its node; stops at the
/// first malformed one.
pub fn generate(src: &[u8], sts: &Vec<Statement>) -> (r: Result<Vec<Node>, AstGeneratorError>)
    ensures
        match r {
            Ok(v) => generate_spec(src@, stmts_view(sts@)) == Ok::<
                Seq<NodeModel>,
                AstGeneratorError,
            >(nodes_view(v@)),
            Err(x) => generate_spec(src@, stmts_view(sts@)) == Err::<
                Seq<NodeModel>,
                AstGeneratorError,
            >(x),
        },
{
    let ghost stv = stmts_view(sts@);
    let mut out: Vec<Node> = Vec::new();
    let mut k: usize = 0;
    assert(nodes_view(out@) =~= seq![]);
    while k < sts.len()
        invariant
            k <= sts@.len(),
            stv == stmts_view(sts@),
            nodes_upto(src@, stv, k as int) == Ok::<Seq<NodeModel>, AstGeneratorError>(
                nodes_view(out@),
            ),
        decreases sts@.len() - k,
    {
        assert(stv[k as int] == sts@[k as int]@);
        match build_node(src, &sts[k]) {
            Ok(nd) => {
                let ghost before = out@;
                out.push(nd);
                assert(nodes_view(out@) =~= nodes_view(before).push(nd@));
            },
            Err(x) => {
                proof {
                    lemma_nodes_upto_err(src@, stv, k as int + 1, sts@.len() as int);
                }
                return Err(x);
            },
        }
        k = k + 1;
    }
    Ok(out)
}

proof fn lemma_nodes_upto_err(src: Seq<u8>, sts: Seq<StatementModel>, k: int, n: int)
    requires
        1 <= k <= n,
        nodes_upto(src, sts, k) is Err,
    ensures
        nodes_upto(src, sts, n) == nodes_upto(src, sts, k),
    decreases n - k,
{
    if k < n {
        lemma_nodes_upto_err(src, sts, k, n - 1);
    }
}

} // verus!
