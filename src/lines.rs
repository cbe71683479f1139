//! Looking up the source line of a program address.
use vstd::prelude::*;
use std::collections::HashMap;

verus! {

broadcast use vstd::std_specs::hash::group_hash_axioms;

/// Where a program was loaded, and the source line of each statement by the
/// offset of its first byte from there.
pub struct SourceMap {
    pub start_address: u16,
    pub offset_to_line: HashMap<u16, usize>,
}

/// The line of the statement whose first byte sits at address `pc`.
pub open spec fn line_at(start: u16, lines: Map<u16, usize>, pc: u16) -> Option<usize> {
    if pc < start {
        None
    } else if lines.contains_key((pc - start) as u16) {
        Some(lines[(pc - start) as u16])
    } else {
        None
    }
}

impl SourceMap {
    pub fn new(start_address: u16, mapping: HashMap<u16, usize>) -> (r: SourceMap)
        ensures
            r.start_address == start_address,
            r.offset_to_line@ == mapping@,
    {
        SourceMap { start_address, offset_to_line: mapping }
    }

    /// Replaces the load address and the whole map.
    pub fn set_mapping(&mut self, start_address: u16, mapping: HashMap<u16, usize>)
        ensures
            final(self).start_address == start_address,
            final(self).offset_to_line@ == mapping@,
    {
        self.start_address = start_address;
        self.offset_to_line = mapping;
    }

    /// The source line of the statement that starts at `pc`; `None` below
    /// the load address and inside a statement's bytes.
    pub fn get_line_number(&self, pc: u16) -> (r: Option<usize>)
        ensures
            r == line_at(self.start_address, self.offset_to_line@, pc),
    {
        if pc < self.start_address {
            return None;
        }
        let offset = pc - self.start_address;
        match self.offset_to_line.get(&offset) {
            Some(line) => Some(*line),
            None => None,
        }
    }
}

} // verus!
