//! Facts about the assembler as a whole, proved from its definitions.
use vstd::prelude::*;
use crate::ast::NodeModel;
use crate::codegen::{
    data_bytes_upto, data_size_upto, eval_fail, generate_code, pass1, pass1_upto, pass2_upto, step1,
    step2, CodeGenErrorKind, Layout,
};
use crate::eval::{eval, eval_upto, lookup, same_text, EvalError, Symbol};
use crate::opcode::operand_len;
use crate::parser::{parse_source, ArgModel, StatementModel, Term};
use crate::codegen::final_mode;
use crate::eval::zp_ok;
use crate::assemble_spec;
use crate::source::{Position, Span};

verus! {

/// Whether `pre` is a prefix of `all`.
pub open spec fn is_prefix(pre: Seq<Symbol>, all: Seq<Symbol>) -> bool {
    pre.len() <= all.len() && all.subrange(0, pre.len() as int) == pre
}

proof fn lemma_lookup_extends(src: Seq<u8>, pre: Seq<Symbol>, all: Seq<Symbol>, name: Span)
    requires
        is_prefix(pre, all),
        lookup(src, pre, name) is Some,
    ensures
        lookup(src, all, name) == lookup(src, pre, name),
    decreases pre.len(),
{
    assert(all[0] == pre[0]);
    if !same_text(src, pre[0].name, name) {
        assert(all.drop_first().subrange(0, pre.drop_first().len() as int) =~= pre.drop_first());
        lemma_lookup_extends(src, pre.drop_first(), all.drop_first(), name);
    }
}

proof fn lemma_eval_extends(src: Seq<u8>, pre: Seq<Symbol>, all: Seq<Symbol>, pc: u32, t: Seq<Term>, n: int)
    requires
        is_prefix(pre, all),
        eval_upto(src, pre, pc, t, n) is Ok,
    ensures
        eval_upto(src, all, pc, t, n) == eval_upto(src, pre, pc, t, n),
    decreases n,
{
    if n > 0 {
        lemma_eval_extends(src, pre, all, pc, t, n - 1);
        if let crate::parser::Atom::Symbol(sp) = t[n - 1].atom {
            lemma_lookup_extends(src, pre, all, sp);
        }
    }
}

proof fn lemma_eval_fail_kind(e: EvalError, position: Position)
    ensures
        eval_fail(e, position).kind != CodeGenErrorKind::SizeMismatch,
{
}

proof fn lemma_data_bytes_len(
    src: Seq<u8>,
    syms: Seq<Symbol>,
    pc: u32,
    args: Seq<ArgModel>,
    words: bool,
    position: Position,
    n: int,
)
    ensures
        match data_bytes_upto(src, syms, pc, args, words, position, n) {
            Ok(b) => b.len() == data_size_upto(src, args, words, n),
            Err(x) => x.kind != CodeGenErrorKind::SizeMismatch,
        },
    decreases n,
{
    if n > 0 {
        lemma_data_bytes_len(src, syms, pc, args, words, position, n - 1);
        match args[n - 1] {
            ArgModel::Value(t) => match eval(src, syms, pc, t) {
                Err(e) => lemma_eval_fail_kind(e, position),
                Ok(_) => {},
            },
            ArgModel::Text(sp) => {},
        }
    }
}

proof fn lemma_pass1_no_mismatch(src: Seq<u8>, nodes: Seq<NodeModel>, n: int)
    ensures
        pass1_upto(src, nodes, n) is Err ==> pass1_upto(src, nodes, n)->Err_0.kind
            != CodeGenErrorKind::SizeMismatch,
    decreases n,
{
    if n > 0 {
        lemma_pass1_no_mismatch(src, nodes, n - 1);
        if let Ok((l, syms, sizes)) = pass1_upto(src, nodes, n - 1) {
            let nd = nodes[n - 1];
            match nd {
                NodeModel::Constant { value, position, .. } => if let Err(e) = eval(src, syms, l.pc, value) {
                    lemma_eval_fail_kind(e, position);
                },
                NodeModel::Origin { value, position } => if let Err(e) = eval(src, syms, l.pc, value) {
                    lemma_eval_fail_kind(e, position);
                },
                NodeModel::Reserve { count, position } => if let Err(e) = eval(src, syms, l.pc, count) {
                    lemma_eval_fail_kind(e, position);
                },
                _ => {},
            }
        }
    }
}

/// Pass one over `n` nodes succeeds wherever it succeeds over more, and what
/// it has built by then is a prefix of what it builds in the end.
proof fn lemma_pass1_prefix(src: Seq<u8>, nodes: Seq<NodeModel>, k: int, n: int)
    requires
        0 <= k <= n,
        pass1_upto(src, nodes, n) is Ok,
    ensures
        pass1_upto(src, nodes, k) is Ok,
        is_prefix(pass1_upto(src, nodes, k)->Ok_0.1, pass1_upto(src, nodes, n)->Ok_0.1),
        pass1_upto(src, nodes, n)->Ok_0.2.subrange(0, k) == pass1_upto(src, nodes, k)->Ok_0.2,
        pass1_upto(src, nodes, k)->Ok_0.2.len() == k,
    decreases n,
{
    if n == 0 {
        assert(pass1_upto(src, nodes, n)->Ok_0.2.subrange(0, 0) =~= seq![]);
        assert(pass1_upto(src, nodes, n)->Ok_0.1.subrange(0, 0) =~= seq![]);
    } else {
        lemma_pass1_prefix(src, nodes, n - 1, n - 1);
        let (l, s, z) = pass1_upto(src, nodes, n - 1)->Ok_0;
        let (l2, s2, z2) = pass1_upto(src, nodes, n)->Ok_0;
        assert(s2 == s || s2 == s.push(s2.last()));
        assert(s2.subrange(0, s.len() as int) =~= s);
        assert(z2.subrange(0, n - 1) =~= z);
        assert(z2.subrange(0, n) =~= z2);
        assert(s2.subrange(0, s2.len() as int) =~= s2);
        if k < n {
            lemma_pass1_prefix(src, nodes, k, n - 1);
            let sk = pass1_upto(src, nodes, k)->Ok_0.1;
            assert(s2.subrange(0, sk.len() as int) =~= s.subrange(0, sk.len() as int));
            assert(z2.subrange(0, k) =~= z.subrange(0, k));
        }
    }
}

/// One node, laid out in pass one with the symbols known so far and encoded
/// in pass two with a table that extends them, takes the same room.
proof fn lemma_step_agrees(src: Seq<u8>, l: Layout, s: Seq<Symbol>, all: Seq<Symbol>, nd: NodeModel)
    requires
        is_prefix(s, all),
        step1(src, l, s, nd) is Ok,
    ensures
        match step2(src, all, l, nd) {
            Ok((l2, b)) => l2 == step1(src, l, s, nd)->Ok_0.0 && b.len() == step1(
                src,
                l,
                s,
                nd,
            )->Ok_0.2,
            Err(x) => x.kind != CodeGenErrorKind::SizeMismatch,
        },
{
    match nd {
        NodeModel::Origin { value, position } => {
            lemma_eval_extends(src, s, all, l.pc, value, value.len() as int);
        },
        NodeModel::Reserve { count, position } => {
            lemma_eval_extends(src, s, all, l.pc, count, count.len() as int);
        },
        NodeModel::Data { words, args, position } => {
            lemma_data_bytes_len(src, all, l.pc, args, words, position, args.len() as int);
        },
        NodeModel::Instruction { mnemonic, syntax, operand, position } => {
            match eval(src, all, l.pc, operand) {
                Err(e) => lemma_eval_fail_kind(e, position),
                Ok(_) => {},
            }
        },
        NodeModel::Label { .. } | NodeModel::Constant { .. } => {},
    }
}

proof fn lemma_pass2_tracks_pass1(src: Seq<u8>, nodes: Seq<NodeModel>, n: int)
    requires
        0 <= n <= nodes.len(),
        pass1(src, nodes) is Ok,
    ensures
        match pass2_upto(src, pass1(src, nodes)->Ok_0.1, pass1(src, nodes)->Ok_0.2, nodes, n) {
            Ok((l, _, _)) => l == pass1_upto(src, nodes, n)->Ok_0.0,
            Err(x) => x.kind != CodeGenErrorKind::SizeMismatch,
        },
    decreases n,
{
    let all = pass1(src, nodes)->Ok_0.1;
    let sizes = pass1(src, nodes)->Ok_0.2;
    lemma_pass1_prefix(src, nodes, n, nodes.len() as int);
    lemma_pass1_prefix(src, nodes, nodes.len() as int, nodes.len() as int);
    if n > 0 {
        lemma_pass2_tracks_pass1(src, nodes, n - 1);
        lemma_pass1_prefix(src, nodes, n - 1, nodes.len() as int);
        lemma_pass1_prefix(src, nodes, n - 1, n);
        if let Ok((l, out, lines)) = pass2_upto(src, all, sizes, nodes, n - 1) {
            let (l1, s1, z1) = pass1_upto(src, nodes, n - 1)->Ok_0;
            assert(l == l1);
            lemma_step_agrees(src, l, s1, all, nodes[n - 1]);
            let z = pass1_upto(src, nodes, n)->Ok_0.2;
            assert(z[n - 1] == step1(src, l, s1, nodes[n - 1])->Ok_0.2);
            assert(sizes.subrange(0, n)[n - 1] == sizes[n - 1]);
        }
    }
}

/// Size stability: for every program, each node occupies in pass two the
/// room pass one gave it, so assembly never fails with `SizeMismatch`.
pub proof fn lemma_size_stability(src: Seq<u8>, nodes: Seq<NodeModel>)
    ensures
        generate_code(src, nodes) is Err ==> generate_code(src, nodes)->Err_0.kind
            != CodeGenErrorKind::SizeMismatch,
{
    lemma_pass1_no_mismatch(src, nodes, nodes.len() as int);
    if pass1(src, nodes) is Ok {
        lemma_pass2_tracks_pass1(src, nodes, nodes.len() as int);
    }
}

/// The room an instruction statement takes in the image.
pub open spec fn instruction_len(src: Seq<u8>, st: StatementModel) -> int {
    match st {
        StatementModel::Instruction { mnemonic, syntax, operand, .. } => 1 + operand_len(
            final_mode(mnemonic, syntax, zp_ok(src, operand)),
        ) as int,
        _ => 0,
    }
}

pub open spec fn line_of(st: StatementModel) -> usize {
    match st {
        StatementModel::LabelDef { position, .. } => position.line,
        StatementModel::Constant { position, .. } => position.line,
        StatementModel::Directive { position, .. } => position.line,
        StatementModel::Instruction { position, .. } => position.line,
    }
}

proof fn lemma_two_nodes(src: Seq<u8>, sts: Seq<StatementModel>)
    requires
        crate::ast::generate_spec(src, sts) is Ok,
        sts.len() == 2,
        sts[0] is Instruction,
        sts[1] is Instruction,
    ensures
        ({
            let nodes = crate::ast::generate_spec(src, sts)->Ok_0;
            &&& nodes.len() == 2
            &&& nodes[0] is Instruction
            &&& nodes[1] is Instruction
            &&& instruction_len(src, sts[0]) == node_len(src, nodes[0])
            &&& line_of(sts[0]) == crate::codegen::node_position(nodes[0]).line
            &&& line_of(sts[1]) == crate::codegen::node_position(nodes[1]).line
        }),
{
    let ns2 = crate::ast::nodes_upto(src, sts, 2);
    let ns1 = crate::ast::nodes_upto(src, sts, 1);
    assert(ns2 is Ok);
    assert(ns1 is Ok);
    assert(crate::ast::nodes_upto(src, sts, 0) == Ok::<
        Seq<NodeModel>,
        crate::ast::AstGeneratorError,
    >(seq![]));
    let n0 = crate::ast::node_of(src, sts[0]);
    let n1 = crate::ast::node_of(src, sts[1]);
    assert(n0 is Ok && n1 is Ok);
    assert(ns1->Ok_0 == seq![n0->Ok_0]);
    assert(ns2->Ok_0 == seq![n0->Ok_0, n1->Ok_0]);
}

pub open spec fn node_len(src: Seq<u8>, nd: NodeModel) -> int {
    match nd {
        NodeModel::Instruction { mnemonic, syntax, operand, .. } => 1 + operand_len(
            final_mode(mnemonic, syntax, zp_ok(src, operand)),
        ) as int,
        _ => 0,
    }
}

proof fn lemma_instruction_step(src: Seq<u8>, syms: Seq<Symbol>, l: Layout, nd: NodeModel)
    requires
        nd is Instruction,
        step2(src, syms, l, nd) is Ok,
    ensures
        ({
            let (l2, b) = step2(src, syms, l, nd)->Ok_0;
            &&& b.len() == node_len(src, nd)
            &&& 1 <= b.len() <= 3
            &&& l2.pc == l.pc + b.len()
            &&& l2.started
            &&& l2.origin == if l.started {
                l.origin
            } else {
                l.pc
            }
        }),
{
}

proof fn lemma_two_steps(src: Seq<u8>, syms: Seq<Symbol>, sizes: Seq<int>, nodes: Seq<NodeModel>)
    requires
        nodes.len() == 2,
        nodes[0] is Instruction,
        nodes[1] is Instruction,
        pass2_upto(src, syms, sizes, nodes, 2) is Ok,
    ensures
        ({
            let len1 = node_len(src, nodes[0]);
            let lines = pass2_upto(src, syms, sizes, nodes, 2)->Ok_0.2;
            &&& 1 <= len1 <= 3
            &&& lines == Map::<u16, usize>::empty().insert(
                0u16,
                crate::codegen::node_position(nodes[0]).line,
            ).insert(len1 as u16, crate::codegen::node_position(nodes[1]).line)
        }),
{
    let after_first = pass2_upto(src, syms, sizes, nodes, 1);
    assert(after_first is Ok);
    assert(pass2_upto(src, syms, sizes, nodes, 0) == Ok::<
        (Layout, Seq<u8>, Map<u16, usize>),
        crate::codegen::CodeGeneratorError,
    >((crate::codegen::initial_layout(), seq![], Map::empty())));
    lemma_instruction_step(src, syms, crate::codegen::initial_layout(), nodes[0]);
    let l1 = after_first->Ok_0.0;
    lemma_instruction_step(src, syms, l1, nodes[1]);
}

/// Debug map of a two-instruction program: the first instruction's line at
/// offset 0, the second's at the first one's length, and nothing else, so
/// nothing at the offsets in between.
pub proof fn lemma_two_instruction_map(src: Seq<u8>, file_id: usize)
    requires
        parse_source(src, file_id) is Ok,
        parse_source(src, file_id)->Ok_0.len() == 2,
        parse_source(src, file_id)->Ok_0[0] is Instruction,
        parse_source(src, file_id)->Ok_0[1] is Instruction,
        assemble_spec(src, file_id) is Ok,
    ensures
        ({
            let sts = parse_source(src, file_id)->Ok_0;
            let lines = assemble_spec(src, file_id)->Ok_0.1;
            let len1 = instruction_len(src, sts[0]);
            &&& 1 <= len1 <= 3
            &&& lines.dom() == set![0u16, len1 as u16]
            &&& lines[0u16] == line_of(sts[0])
            &&& lines[len1 as u16] == line_of(sts[1])
            &&& forall|k: u16| 0 < k < len1 ==> !lines.contains_key(k)
        }),
{
    let sts = parse_source(src, file_id)->Ok_0;
    lemma_two_nodes(src, sts);
    let nodes = crate::ast::generate_spec(src, sts)->Ok_0;
    let (l, syms, sizes) = pass1(src, nodes)->Ok_0;
    lemma_two_steps(src, syms, sizes, nodes);
    let lines = assemble_spec(src, file_id)->Ok_0.1;
    assert(lines.dom() =~= set![0u16, instruction_len(src, sts[0]) as u16]);
}

} // verus!
