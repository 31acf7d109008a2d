//! A source file held in memory, with the positions of its line breaks, and
//! the lookup of a byte position's line and column.
use vstd::prelude::*;
use crate::paths::{rel_path_from_base, stripped_prefix, PathError};

verus! {

/// Errors of a position lookup.
#[derive(Debug, Clone)]
pub enum SourceError {
    /// The position lies past the end of the file: the position, the file name.
    PositionOutOfBoundsError(usize, String),
    /// No line and column could be found for the position: the position, the
    /// file name. A position inside the file always has a line and column.
    LineColumnLookupError(usize, String),
}

/// The number of line breaks (`\n`) in `c`.
pub open spec fn newline_count(c: Seq<u8>) -> nat
    decreases c.len(),
{
    if c.len() == 0 {
        0
    } else {
        newline_count(c.drop_last()) + if c.last() == 10u8 {
            1nat
        } else {
            0nat
        }
    }
}

/// The index of the last line break in `c`, or -1 where there is none.
pub open spec fn last_newline(c: Seq<u8>) -> int
    decreases c.len(),
{
    if c.len() == 0 {
        -1
    } else if c.last() == 10u8 {
        c.len() - 1
    } else {
        last_newline(c.drop_last())
    }
}

/// The (line, column) of position `pos` in contents `c`, both counted from
/// one: one more than the line breaks before `pos`, and the distance from
/// the last line break before `pos` (from position -1 where there is none).
pub open spec fn line_column_at(c: Seq<u8>, pos: int) -> (int, int) {
    (1 + newline_count(c.take(pos)) as int, pos - last_newline(c.take(pos)))
}

/// A source file, including its name, contents, and source root.
#[derive(Debug, Clone)]
pub struct Source {
    /// The file's name
    pub filename: String,
    /// The root that the file's name is taken relative to
    pub sourceroot: String,
    /// The file's bytes
    pub contents: Vec<u8>,
}

proof fn lemma_newline_bounds(c: Seq<u8>)
    ensures
        newline_count(c) <= c.len(),
        -1 <= last_newline(c) < c.len(),
    decreases c.len(),
{
    if c.len() > 0 {
        lemma_newline_bounds(c.drop_last());
    }
}

impl Source {
    /// A source with the given name, root and contents.
    pub fn new(filename: String, sourceroot: String, contents: Vec<u8>) -> (r: Source)
        ensures
            r.filename == filename,
            r.sourceroot == sourceroot,
            r.contents@ == contents@,
    {
        Source { filename, sourceroot, contents }
    }

    /// The file name.
    pub fn filename(&self) -> (r: &String)
        ensures
            *r == self.filename,
    {
        &self.filename
    }

    /// The file name, as an owned string.
    pub fn filename_as_str(&self) -> (r: String)
        ensures
            r@ == self.filename@,
    {
        self.filename.clone()
    }

    /// The file name relative to the source root, where the root is a prefix
    /// of it. The two are compared as text, without consulting the file
    /// system: a caller that wants them compared as the file system resolves
    /// them canonicalizes both before building the source (the command-line
    /// tool does so when it loads a source).
    pub fn relative_filename(&self) -> (r: Result<String, PathError>)
        ensures
            match stripped_prefix(self.filename@, self.sourceroot@) {
                Some(rest) => r is Ok && r->Ok_0@ == rest,
                None => r is Err,
            },
    {
        rel_path_from_base(self.filename.as_str(), self.sourceroot.as_str())
    }

    /// The contents.
    pub fn contents(&self) -> (r: &[u8])
        ensures
            r@ == self.contents@,
    {
        self.contents.as_slice()
    }

    /// The source root.
    pub fn sourceroot(&self) -> (r: &String)
        ensures
            *r == self.sourceroot,
    {
        &self.sourceroot
    }

    /// The (line, column) at which byte position `pos` lies, both counted
    /// from one (see [`line_column_at`]). A position past the end is an error.
    pub fn get_line_column(&self, pos: usize) -> (r: Result<(usize, usize), SourceError>)
        ensures
            pos >= self.contents@.len() ==> (r matches Err(SourceError::PositionOutOfBoundsError(p, f))
                && p == pos && f@ == self.filename@),
            pos < self.contents@.len() ==> (r matches Ok(x) && x.0 == line_column_at(
                self.contents@,
                pos as int,
            ).0 && x.1 == line_column_at(self.contents@, pos as int).1),
    {
        if pos >= self.contents.len() {
            return Err(SourceError::PositionOutOfBoundsError(pos, self.filename_as_str()));
        }
        let mut count: usize = 0;
        let mut after_last: usize = 0;
        let mut i: usize = 0;
        while i < pos
            invariant
                i <= pos < self.contents@.len(),
                count == newline_count(self.contents@.take(i as int)),
                after_last == last_newline(self.contents@.take(i as int)) + 1,
                count <= i,
                after_last <= i,
            decreases pos - i,
        {
            proof {
                let t = self.contents@.take(i + 1);
                assert(t.drop_last() =~= self.contents@.take(i as int));
                assert(t.last() == self.contents@[i as int]);
            }
            if self.contents[i] == 10u8 {
                count = count + 1;
                after_last = i + 1;
            }
            i = i + 1;
        }
        Ok((count + 1, pos + 1 - after_last))
    }
}

} // verus!

verus! {

/// Lines and columns are both counted from one.
pub proof fn law_line_column_one_based(c: Seq<u8>, pos: int)
    requires
        0 <= pos <= c.len(),
    ensures
        line_column_at(c, pos).0 >= 1,
        line_column_at(c, pos).1 >= 1,
{
    lemma_newline_bounds(c.take(pos));
}

} // verus!
