//! Source buffers, positions and spans.
use vstd::prelude::*;

verus! {

/// A place in a source buffer: 1-based line and column, and the byte offset.
#[derive(Clone, Copy, Debug, PartialEq, Eq, Structural)]
pub struct Position {
    pub file_id: usize,
    pub line: usize,
    pub column: usize,
    pub byte_offset: usize,
}

/// A half-open range `[start, end)` of byte offsets in a source buffer.
#[derive(Clone, Copy, Debug, PartialEq, Eq, Structural)]
pub struct Span {
    pub start: usize,
    pub end: usize,
}

impl Span {
    pub open spec fn text(self, src: Seq<u8>) -> Seq<u8> {
        src.subrange(self.start as int, self.end as int)
    }

    pub open spec fn within(self, src: Seq<u8>) -> bool {
        self.start <= self.end <= src.len()
    }
}

/// A registered source buffer.
pub struct SourceFile {
    pub id: usize,
    pub path: Option<String>,
    pub bytes: Vec<u8>,
}

#[derive(Clone, Copy, Debug, PartialEq, Eq, Structural)]
pub enum SourceError {
    /// No buffer has that id.
    UnknownFile,
    /// A buffer with that id is registered already; it is kept as it was.
    DuplicateFile,
}

/// The buffers of one assembly run, each under its own id.
pub struct SourceTable {
    files: Vec<SourceFile>,
}

/// The bytes of the last file in `files` registered under `id`.
pub open spec fn bytes_of(files: Seq<SourceFile>, id: usize) -> Option<Seq<u8>>
    decreases files.len(),
{
    if files.len() == 0 {
        None
    } else if files.last().id == id {
        Some(files.last().bytes@)
    } else {
        bytes_of(files.drop_last(), id)
    }
}

impl SourceTable {
    /// The bytes registered under each id.
    pub closed spec fn contents(&self) -> Map<usize, Seq<u8>> {
        Map::new(
            |id: usize| bytes_of(self.files@, id) is Some,
            |id: usize| bytes_of(self.files@, id)->Some_0,
        )
    }

    pub fn new() -> (r: SourceTable)
        ensures
            r.contents() == Map::<usize, Seq<u8>>::empty(),
    {
        let r = SourceTable { files: Vec::new() };
        assert(r.contents() =~= Map::<usize, Seq<u8>>::empty());
        r
    }

    /// Registers `bytes` under `id`, unless the id is taken.
    pub fn add(&mut self, id: usize, path: Option<String>, bytes: Vec<u8>) -> (r: Result<(), SourceError>)
        ensures
            old(self).contents().contains_key(id) ==> r == Err::<(), SourceError>(
                SourceError::DuplicateFile,
            ) && final(self).contents() == old(self).contents(),
            !old(self).contents().contains_key(id) ==> r is Ok && final(self).contents() == old(
                self,
            ).contents().insert(id, bytes@),
    {
        if self.find(id).is_some() {
            return Err(SourceError::DuplicateFile);
        }
        let ghost old_files = self.files@;
        let ghost b = bytes@;
        self.files.push(SourceFile { id, path, bytes });
        assert(self.files@.drop_last() == old_files);
        assert(self.contents() =~= old(self).contents().insert(id, b));
        Ok(())
    }

    fn find(&self, id: usize) -> (r: Option<usize>)
        ensures
            match r {
                Some(k) => k < self.files@.len() && self.files@[k as int].id == id && bytes_of(
                    self.files@,
                    id,
                ) == Some(self.files@[k as int].bytes@),
                None => bytes_of(self.files@, id) is None,
            },
    {
        let mut k: usize = self.files.len();
        assert(self.files@.subrange(0, k as int) =~= self.files@);
        while k > 0
            invariant
                k <= self.files@.len(),
                bytes_of(self.files@, id) == bytes_of(self.files@.subrange(0, k as int), id),
            decreases k,
        {
            let ghost pre = self.files@.subrange(0, k as int);
            assert(pre.drop_last() =~= self.files@.subrange(0, k - 1));
            if self.files[k - 1].id == id {
                return Some(k - 1);
            }
            k = k - 1;
        }
        None
    }

    /// The buffer registered under `id`.
    pub fn get(&self, id: usize) -> (r: Result<&SourceFile, SourceError>)
        ensures
            self.contents().contains_key(id) ==> r is Ok && r->Ok_0.id == id && r->Ok_0.bytes@
                == self.contents()[id],
            !self.contents().contains_key(id) ==> r == Err::<&SourceFile, SourceError>(
                SourceError::UnknownFile,
            ),
    {
        match self.find(id) {
            Some(k) => Ok(&self.files[k]),
            None => Err(SourceError::UnknownFile),
        }
    }
}

} // verus!
