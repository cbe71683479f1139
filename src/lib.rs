//! A two-pass assembler for the 6502: source text in, a byte image and a map
//! from output offsets to source lines out.
use vstd::prelude::*;

pub mod ast;
pub mod codegen;
pub mod eval;
pub mod lexer;
pub mod lines;
pub mod opcode;
pub mod parser;
pub mod source;
pub mod laws;

use ast::AstGeneratorError;
use codegen::{CodeGenErrorKind, CodeGeneratorError};
use lexer::ParseError;
use source::Position;
use std::collections::HashMap;
use vstd::string::StringSliceAdditionalSpecFns;

verus! {

broadcast use vstd::std_specs::hash::group_hash_axioms;

/// The stage of the pipeline that rejected the source.
#[derive(Clone, Copy, Debug, PartialEq, Eq, Structural)]
pub enum Stage {
    Parse,
    Ast,
    CodeGen,
}

/// Why a source text could not be assembled.
#[derive(Clone, Copy, Debug, PartialEq, Eq, Structural)]
pub enum AssemblyError {
    Parse(ParseError),
    Ast(AstGeneratorError),
    CodeGen(CodeGeneratorError),
}

impl AssemblyError {
    pub fn stage(&self) -> (r: Stage)
        ensures
            r == match self {
                AssemblyError::Parse(_) => Stage::Parse,
                AssemblyError::Ast(_) => Stage::Ast,
                AssemblyError::CodeGen(_) => Stage::CodeGen,
            },
    {
        match self {
            AssemblyError::Parse(_) => Stage::Parse,
            AssemblyError::Ast(_) => Stage::Ast,
            AssemblyError::CodeGen(_) => Stage::CodeGen,
        }
    }

    pub fn position(&self) -> (r: Position)
        ensures
            r == match self {
                AssemblyError::Parse(e) => e.position,
                AssemblyError::Ast(e) => e.position,
                AssemblyError::CodeGen(e) => e.position,
            },
    {
        match self {
            AssemblyError::Parse(e) => e.position,
            AssemblyError::Ast(e) => e.position,
            AssemblyError::CodeGen(e) => e.position,
        }
    }
}

/// An assembled program.
pub struct Assembled {
    /// The image: byte `k` belongs at address `origin + k`.
    pub bytes: Vec<u8>,
    /// The 1-based source line of each statement that emitted bytes, keyed
    /// by the offset of its first byte from `origin`.
    pub offset_to_line: HashMap<u16, usize>,
    /// The address of the first byte.
    pub origin: u16,
}

/// The whole pipeline on a buffer: parse, build and check the tree, lay out
/// and encode.
pub open spec fn assemble_spec(src: Seq<u8>, file_id: usize) -> Result<(Seq<u8>, Map<u16, usize>, u16), AssemblyError> {
    match parser::parse_source(src, file_id) {
        Err(x) => Err(AssemblyError::Parse(x)),
        Ok(sts) => match ast::generate_spec(src, sts) {
            Err(x) => Err(AssemblyError::Ast(x)),
            Ok(nodes) => match codegen::generate_code(src, nodes) {
                Err(x) => Err(AssemblyError::CodeGen(x)),
                Ok(r) => Ok(r),
            },
        },
    }
}

/// The internal consistency fault of the layout: a node's encoding and its
/// pass-one size differ.
pub open spec fn is_size_mismatch(e: AssemblyError) -> bool {
    e is CodeGen && e->CodeGen_0.kind == CodeGenErrorKind::SizeMismatch
}

/// Assembles a buffer of source bytes; positions in errors carry `file_id`.
pub fn assemble_bytes(src: &[u8], file_id: usize) -> (r: Result<Assembled, AssemblyError>)
    ensures
        match assemble_spec(src@, file_id) {
            Ok((bytes, lines, origin)) => r is Ok && r->Ok_0.bytes@ == bytes
                && r->Ok_0.offset_to_line@ == lines && r->Ok_0.origin == origin,
            Err(x) => r == Err::<Assembled, AssemblyError>(x),
        },
        r is Err ==> !is_size_mismatch(r->Err_0),
{
    let sts = match parser::parse(src, file_id) {
        Ok(v) => v,
        Err(x) => {
            return Err(AssemblyError::Parse(x));
        },
    };
    let nodes = match ast::generate(src, &sts) {
        Ok(v) => v,
        Err(x) => {
            return Err(AssemblyError::Ast(x));
        },
    };
    proof {
        laws::lemma_size_stability(src@, ast::nodes_view(nodes@));
    }
    match codegen::generate(src, &nodes) {
        Ok((bytes, offset_to_line, origin)) => Ok(Assembled { bytes, offset_to_line, origin }),
        Err(x) => Err(AssemblyError::CodeGen(x)),
    }
}

/// Assembles source text. The result depends on the text alone.
pub fn assemble(source: &str) -> (r: Result<Assembled, AssemblyError>)
    ensures
        match assemble_spec(source.spec_bytes(), 0) {
            Ok((bytes, lines, origin)) => r is Ok && r->Ok_0.bytes@ == bytes
                && r->Ok_0.offset_to_line@ == lines && r->Ok_0.origin == origin,
            Err(x) => r == Err::<Assembled, AssemblyError>(x),
        },
        r is Err ==> !is_size_mismatch(r->Err_0),
{
    assemble_bytes(source.as_bytes(), 0)
}

/// Assembles source text and keeps only the image.
pub fn assemble_string(code: &str) -> (r: Result<Vec<u8>, AssemblyError>)
    ensures
        match assemble_spec(code.spec_bytes(), 0) {
            Ok((bytes, _, _)) => r is Ok && r->Ok_0@ == bytes,
            Err(x) => r == Err::<Vec<u8>, AssemblyError>(x),
        },
{
    match assemble(code) {
        Ok(a) => Ok(a.bytes),
        Err(x) => Err(x),
    }
}

/// Assembling is a function of the source: two runs on the same text agree
/// on the image, the line map and the load address.
pub proof fn lemma_deterministic(a: Seq<u8>, b: Seq<u8>, file_id: usize)
    requires
        a == b,
    ensures
        assemble_spec(a, file_id) == assemble_spec(b, file_id),
{
}

} // verus!
