//! Mutation operators and mutants.
use vstd::prelude::*;
use crate::text::{
    append_range, chars_of, get_indent, indent_of, join_lines, join_with, line_bounds, lines_of,
    string_of_range, trim_bounds, trimmed, views_of,
};

verus! {

/// Kinds of mutations.
#[derive(Clone, Copy, Debug, PartialEq, Eq, Structural, Hash)]
pub enum MutationType {
    ArithmeticOperatorReplacement,
    BitwiseOperatorReplacement,
    ElimDelegateCall,
    LiteralValueReplacement,
    LogicalOperatorReplacement,
    RelationalOperatorReplacement,
    ShiftOperatorReplacement,
    StatementDeletion,
    UnaryOperatorReplacement,
    ExpressionValueReplacement,
}

/// The descriptive name of an operator, as written into mutant comments
/// and reports.
pub open spec fn display_name(t: MutationType) -> Seq<char> {
    match t {
        MutationType::LiteralValueReplacement => "LiteralValueReplacement"@,
        MutationType::BitwiseOperatorReplacement => "ConditionalOperatorReplacement"@,
        MutationType::RelationalOperatorReplacement => "RelationalOperatorReplacement"@,
        MutationType::ArithmeticOperatorReplacement => "ArithmeticOperatorReplacement"@,
        MutationType::LogicalOperatorReplacement => "LogicalOperatorReplacement"@,
        MutationType::ShiftOperatorReplacement => "ShiftOperatorReplacement"@,
        MutationType::UnaryOperatorReplacement => "UnaryOperatorReplacement"@,
        MutationType::ExpressionValueReplacement => "ExpressionOperatorReplacement"@,
        MutationType::StatementDeletion => "StatementDeletion"@,
        MutationType::ElimDelegateCall => "ElimDelegateCall"@,
    }
}

/// The three-letter name of an operator.
pub open spec fn short_name_of(t: MutationType) -> Seq<char> {
    match t {
        MutationType::ArithmeticOperatorReplacement => "AOR"@,
        MutationType::BitwiseOperatorReplacement => "BOR"@,
        MutationType::ElimDelegateCall => "EDC"@,
        MutationType::ExpressionValueReplacement => "EVR"@,
        MutationType::LiteralValueReplacement => "LVR"@,
        MutationType::LogicalOperatorReplacement => "LOR"@,
        MutationType::RelationalOperatorReplacement => "ROR"@,
        MutationType::ShiftOperatorReplacement => "SOR"@,
        MutationType::StatementDeletion => "STD"@,
        MutationType::UnaryOperatorReplacement => "UOR"@,
    }
}

/// The command-line name of an operator (its variant name in kebab case).
pub open spec fn kebab_name(t: MutationType) -> Seq<char> {
    match t {
        MutationType::ArithmeticOperatorReplacement => "arithmetic-operator-replacement"@,
        MutationType::BitwiseOperatorReplacement => "bitwise-operator-replacement"@,
        MutationType::ElimDelegateCall => "elim-delegate-call"@,
        MutationType::LiteralValueReplacement => "literal-value-replacement"@,
        MutationType::LogicalOperatorReplacement => "logical-operator-replacement"@,
        MutationType::RelationalOperatorReplacement => "relational-operator-replacement"@,
        MutationType::ShiftOperatorReplacement => "shift-operator-replacement"@,
        MutationType::StatementDeletion => "statement-deletion"@,
        MutationType::UnaryOperatorReplacement => "unary-operator-replacement"@,
        MutationType::ExpressionValueReplacement => "expression-value-replacement"@,
    }
}

/// The operators applied when none are specified, in order.
pub open spec fn default_operators() -> Seq<MutationType> {
    seq![
        MutationType::ArithmeticOperatorReplacement,
        MutationType::BitwiseOperatorReplacement,
        MutationType::ExpressionValueReplacement,
        MutationType::ElimDelegateCall,
        MutationType::LiteralValueReplacement,
        MutationType::LogicalOperatorReplacement,
        MutationType::RelationalOperatorReplacement,
        MutationType::ShiftOperatorReplacement,
        MutationType::StatementDeletion,
        MutationType::UnaryOperatorReplacement,
    ]
}

/// The operators used as fallbacks when none are specified.
pub open spec fn default_fallback_operators() -> Seq<MutationType> {
    seq![MutationType::ExpressionValueReplacement]
}

/// ASCII lowercase of one character.
pub open spec fn ascii_lower(c: char) -> char {
    if 'A' <= c && c <= 'Z' {
        ((c as u32) + 32) as char
    } else {
        c
    }
}

/// Whether `a` and `b` are equal when ASCII letters are compared without case.
pub open spec fn eq_ignore_ascii_case(a: Seq<char>, b: Seq<char>) -> bool {
    &&& a.len() == b.len()
    &&& forall|i: int| 0 <= i < a.len() ==> ascii_lower(#[trigger] a[i]) == ascii_lower(b[i])
}

/// All operators, in declaration order.
pub open spec fn all_operators() -> Seq<MutationType> {
    seq![
        MutationType::ArithmeticOperatorReplacement,
        MutationType::BitwiseOperatorReplacement,
        MutationType::ElimDelegateCall,
        MutationType::LiteralValueReplacement,
        MutationType::LogicalOperatorReplacement,
        MutationType::RelationalOperatorReplacement,
        MutationType::ShiftOperatorReplacement,
        MutationType::StatementDeletion,
        MutationType::UnaryOperatorReplacement,
        MutationType::ExpressionValueReplacement,
    ]
}

/// Whether `s` names some operator, ignoring ASCII case.
pub open spec fn names_operator(s: Seq<char>) -> bool {
    exists|i: int| 0 <= i < 10 && eq_ignore_ascii_case(s, kebab_name(#[trigger] all_operators()[i]))
}

/// The first operator (in declaration order) whose command-line name is
/// `s`, ignoring ASCII case.
pub open spec fn operator_named(s: Seq<char>) -> Option<MutationType> {
    first_named_from(s, 0)
}

/// The first operator at or after position `i` of [`all_operators`] named `s`.
pub open spec fn first_named_from(s: Seq<char>, i: int) -> Option<MutationType>
    decreases 10 - i,
{
    if i < 0 || i >= 10 {
        None
    } else if eq_ignore_ascii_case(s, kebab_name(all_operators()[i])) {
        Some(all_operators()[i])
    } else {
        first_named_from(s, i + 1)
    }
}

/// Compares two character vectors ignoring ASCII case.
fn chars_eq_ignore_ascii_case(a: &Vec<char>, b: &Vec<char>) -> (r: bool)
    ensures
        r == eq_ignore_ascii_case(a@, b@),
{
    if a.len() != b.len() {
        return false;
    }
    let mut i: usize = 0;
    while i < a.len()
        invariant
            a@.len() == b@.len(),
            i <= a@.len(),
            forall|j: int| 0 <= j < i ==> ascii_lower(#[trigger] a@[j]) == ascii_lower(b@[j]),
        decreases a@.len() - i,
    {
        let x = a[i];
        let y = b[i];
        let lx = if 'A' <= x && x <= 'Z' {
            ((x as u32) + 32) as u8
        } else {
            0
        };
        let ly = if 'A' <= y && y <= 'Z' {
            ((y as u32) + 32) as u8
        } else {
            0
        };
        let same = if lx != 0 && ly != 0 {
            lx == ly
        } else if lx != 0 {
            (lx as u32) == (y as u32)
        } else if ly != 0 {
            (x as u32) == (ly as u32)
        } else {
            x == y
        };
        if !same {
            assert(ascii_lower(a@[i as int]) != ascii_lower(b@[i as int]));
            return false;
        }
        i = i + 1;
    }
    true
}

impl MutationType {
    /// The descriptive name of this operator.
    pub fn to_string(&self) -> (s: String)
        ensures
            s@ == display_name(*self),
    {
        let name = match self {
            MutationType::LiteralValueReplacement => "LiteralValueReplacement",
            MutationType::BitwiseOperatorReplacement => "ConditionalOperatorReplacement",
            MutationType::RelationalOperatorReplacement => "RelationalOperatorReplacement",
            MutationType::ArithmeticOperatorReplacement => "ArithmeticOperatorReplacement",
            MutationType::LogicalOperatorReplacement => "LogicalOperatorReplacement",
            MutationType::ShiftOperatorReplacement => "ShiftOperatorReplacement",
            MutationType::UnaryOperatorReplacement => "UnaryOperatorReplacement",
            MutationType::ExpressionValueReplacement => "ExpressionOperatorReplacement",
            MutationType::StatementDeletion => "StatementDeletion",
            MutationType::ElimDelegateCall => "ElimDelegateCall",
        };
        name.to_string()
    }

    /// The three-letter name of this operator.
    pub fn short_name(&self) -> (s: String)
        ensures
            s@ == short_name_of(*self),
    {
        let name = match self {
            MutationType::ArithmeticOperatorReplacement => "AOR",
            MutationType::BitwiseOperatorReplacement => "BOR",
            MutationType::ElimDelegateCall => "EDC",
            MutationType::ExpressionValueReplacement => "EVR",
            MutationType::LiteralValueReplacement => "LVR",
            MutationType::LogicalOperatorReplacement => "LOR",
            MutationType::RelationalOperatorReplacement => "ROR",
            MutationType::ShiftOperatorReplacement => "SOR",
            MutationType::StatementDeletion => "STD",
            MutationType::UnaryOperatorReplacement => "UOR",
        };
        name.to_string()
    }

    /// The command-line name of this operator.
    pub fn kebab_name(&self) -> (s: String)
        ensures
            s@ == kebab_name(*self),
    {
        let name = match self {
            MutationType::ArithmeticOperatorReplacement => "arithmetic-operator-replacement",
            MutationType::BitwiseOperatorReplacement => "bitwise-operator-replacement",
            MutationType::ElimDelegateCall => "elim-delegate-call",
            MutationType::LiteralValueReplacement => "literal-value-replacement",
            MutationType::LogicalOperatorReplacement => "logical-operator-replacement",
            MutationType::RelationalOperatorReplacement => "relational-operator-replacement",
            MutationType::ShiftOperatorReplacement => "shift-operator-replacement",
            MutationType::StatementDeletion => "statement-deletion",
            MutationType::UnaryOperatorReplacement => "unary-operator-replacement",
            MutationType::ExpressionValueReplacement => "expression-value-replacement",
        };
        name.to_string()
    }

    /// The operators used when none are specified.
    pub fn default_mutation_operators() -> (v: Vec<MutationType>)
        ensures
            v@ == default_operators(),
    {
        let v = vec![
            MutationType::ArithmeticOperatorReplacement,
            MutationType::BitwiseOperatorReplacement,
            MutationType::ExpressionValueReplacement,
            MutationType::ElimDelegateCall,
            MutationType::LiteralValueReplacement,
            MutationType::LogicalOperatorReplacement,
            MutationType::RelationalOperatorReplacement,
            MutationType::ShiftOperatorReplacement,
            MutationType::StatementDeletion,
            MutationType::UnaryOperatorReplacement,
        ];
        assert(v@ == default_operators());
        v
    }

    /// The operators used as fallbacks when none are specified.
    pub fn default_fallback_mutation_operators() -> (v: Vec<MutationType>)
        ensures
            v@ == default_fallback_operators(),
    {
        let v = vec![MutationType::ExpressionValueReplacement];
        assert(v@ == default_fallback_operators());
        v
    }

    /// The operator whose command-line name is `name`, ignoring ASCII case;
    /// `None` when no operator has that name.
    pub fn from_name(name: &str) -> (r: Option<MutationType>)
        ensures
            r == operator_named(name@),
    {
        let s = chars_of(name);
        let all = vec![
            MutationType::ArithmeticOperatorReplacement,
            MutationType::BitwiseOperatorReplacement,
            MutationType::ElimDelegateCall,
            MutationType::LiteralValueReplacement,
            MutationType::LogicalOperatorReplacement,
            MutationType::RelationalOperatorReplacement,
            MutationType::ShiftOperatorReplacement,
            MutationType::StatementDeletion,
            MutationType::UnaryOperatorReplacement,
            MutationType::ExpressionValueReplacement,
        ];
        assert(all@ == all_operators());
        let mut i: usize = 0;
        while i < all.len()
            invariant
                all@ == all_operators(),
                i <= 10,
                s@ == name@,
                operator_named(name@) == first_named_from(name@, i as int),
            decreases 10 - i,
        {
            let k = chars_of(&all[i].kebab_name());
            if chars_eq_ignore_ascii_case(&s, &k) {
                return Some(all[i]);
            }
            i = i + 1;
        }
        None
    }
}

/// Location of a piece of source text: a file number and a range of
/// character offsets `[start, end)`.
#[derive(Clone, Copy, Debug, PartialEq, Eq, Structural)]
pub struct Loc {
    pub file_no: usize,
    pub start: usize,
    pub end: usize,
}

impl Loc {
    /// This location with another start.
    pub fn with_start(&self, start: usize) -> (r: Loc)
        ensures
            r == (Loc { start, ..*self }),
    {
        Loc { file_no: self.file_no, start, end: self.end }
    }

    /// This location with another end.
    pub fn with_end(&self, end: usize) -> (r: Loc)
        ensures
            r == (Loc { end, ..*self }),
    {
        Loc { file_no: self.file_no, start: self.start, end }
    }
}

/// All location data of a mutant: the mutated range, its zero-based line and
/// column, the path of the file, and its path relative to its import root.
#[derive(Clone, Debug)]
pub struct MutantLoc {
    /// The location of the node that is mutated
    pub loc: Loc,
    /// The (starting) line number of the node being mutated
    pub line_no: usize,
    /// The column number of the node being mutated
    pub col_no: usize,
    /// The full path to the original source file
    pub path: String,
    /// The solidity path, relative to its import root, to the original source
    /// file; if a file path is specified absolutely then this is None
    pub sol_path: Option<String>,
}

/// A mutant: one replacement of a piece of the original source.
#[derive(Clone, Debug)]
pub struct Mutant {
    /// The location of the mutant (including file number, start, and end)
    pub mutant_loc: MutantLoc,
    /// The mutation operator that was applied to generate this mutant
    pub op: MutationType,
    /// Original file's source
    pub source: String,
    /// Original text to be replaced
    pub orig: String,
    /// The string replacement
    pub repl: String,
}

/// The comment line written above a mutated line.
pub open spec fn comment_line(
    indent: Seq<char>,
    op_name: Seq<char>,
    orig: Seq<char>,
    repl: Seq<char>,
    orig_line: Seq<char>,
) -> Seq<char> {
    indent + "/// "@ + op_name + "(`"@ + trimmed(orig) + "` |==> `"@ + repl + "`) of: `"@
        + trimmed(orig_line) + "`"@
}

/// The line before which the comment is placed: `line_no - 1`, or 0.
pub open spec fn comment_index(line_no: int) -> int {
    if line_no >= 1 {
        line_no - 1
    } else {
        0
    }
}

/// The source with `[start, end)` replaced by `repl`.
pub open spec fn spliced(contents: Seq<char>, start: int, end: int, repl: Seq<char>) -> Seq<char> {
    contents.take(start) + repl + contents.skip(end)
}

/// The full text of a mutant: the spliced source, with a comment line that
/// names the operator, the replaced text, the replacement and the original
/// line, inserted before line `line_no - 1`; a trailing newline is kept.
pub open spec fn rendered_mutant(
    contents: Seq<char>,
    start: int,
    end: int,
    repl: Seq<char>,
    line_no: int,
    op_name: Seq<char>,
) -> Seq<char> {
    let ls = lines_of(spliced(contents, start, end, repl));
    let k = comment_index(line_no);
    let comment = comment_line(
        indent_of(ls[k]),
        op_name,
        contents.subrange(start, end),
        repl,
        lines_of(contents)[line_no],
    );
    let body = ls.take(k).push(comment) + ls.skip(k);
    join_with(
        if contents.last() == '\n' {
            body.push(Seq::empty())
        } else {
            body
        },
        seq!['\n'],
    )
}

impl Mutant {
    /// Whether the mutant can be rendered: its range lies in the source, the
    /// source is not empty, and the lines that the rendering reads exist.
    pub open spec fn renders(&self) -> bool {
        let c = self.source@;
        let l = self.mutant_loc.loc;
        &&& l.start <= l.end <= c.len()
        &&& c.len() > 0
        &&& self.mutant_loc.line_no < lines_of(c).len()
        &&& comment_index(self.mutant_loc.line_no as int) < lines_of(
            spliced(c, l.start as int, l.end as int, self.repl@),
        ).len()
    }

    /// The mutated location.
    pub fn loc(&self) -> (r: &Loc)
        ensures
            *r == self.mutant_loc.loc,
    {
        &self.mutant_loc.loc
    }

    /// The path of the mutated file.
    pub fn path(&self) -> (r: &String)
        ensures
            *r == self.mutant_loc.path,
    {
        &self.mutant_loc.path
    }

    /// The path of the mutated file relative to its import root.
    pub fn sol_path(&self) -> (r: Option<&String>)
        ensures
            r matches Some(p) ==> self.mutant_loc.sol_path == Some(*p),
            r is None <==> self.mutant_loc.sol_path is None,
    {
        match &self.mutant_loc.sol_path {
            Some(p) => Some(p),
            None => None,
        }
    }

    /// The path under which the mutant is exported: the path relative to the
    /// import root, or the full path when there is none.
    pub fn vfs_path(&self) -> (r: String)
        ensures
            r@ == (match self.mutant_loc.sol_path {
                Some(p) => p@,
                None => self.mutant_loc.path@,
            }),
    {
        match &self.mutant_loc.sol_path {
            Some(p) => p.clone(),
            None => self.mutant_loc.path.clone(),
        }
    }

    /// The zero-based line and column of the mutated location.
    pub fn get_line_column(&self) -> (r: (usize, usize))
        ensures
            r == (self.mutant_loc.line_no, self.mutant_loc.col_no),
    {
        (self.mutant_loc.line_no, self.mutant_loc.col_no)
    }

    /// The original source of the mutated file.
    pub fn original_source(&self) -> (r: String)
        ensures
            r@ == self.source@,
    {
        self.source.clone()
    }

    /// `"<operator>: <orig> |==> <repl>"`.
    pub fn to_string(&self) -> (r: String)
        ensures
            r@ == display_name(self.op) + ": "@ + self.orig@ + " |==> "@ + self.repl@,
    {
        let mut r = self.op.to_string();
        r.append(": ");
        r.append(self.orig.as_str());
        r.append(" |==> ");
        r.append(self.repl.as_str());
        r
    }

    /// Tests [`Mutant::renders`].
    pub fn can_render(&self) -> (b: bool)
        ensures
            b == self.renders(),
    {
        let c = chars_of(self.source.as_str());
        let l = self.mutant_loc.loc;
        if !(l.start <= l.end && l.end <= c.len()) || c.len() == 0 {
            return false;
        }
        let ol = line_bounds(&c);
        if self.mutant_loc.line_no >= ol.len() {
            return false;
        }
        let m = self.spliced_chars(&c);
        let ml = line_bounds(&m);
        let k = if self.mutant_loc.line_no >= 1 {
            self.mutant_loc.line_no - 1
        } else {
            0
        };
        k < ml.len()
    }

    /// The source characters with the mutated range replaced.
    fn spliced_chars(&self, c: &Vec<char>) -> (m: Vec<char>)
        requires
            self.mutant_loc.loc.start <= self.mutant_loc.loc.end <= c@.len(),
        ensures
            m@ == spliced(
                c@,
                self.mutant_loc.loc.start as int,
                self.mutant_loc.loc.end as int,
                self.repl@,
            ),
    {
        let l = self.mutant_loc.loc;
        let r = chars_of(self.repl.as_str());
        let mut m: Vec<char> = Vec::new();
        let mut i: usize = 0;
        while i < l.start
            invariant
                i <= l.start <= l.end <= c@.len(),
                m@ == c@.take(i as int),
            decreases l.start - i,
        {
            m.push(c[i]);
            i = i + 1;
        }
        let mut j: usize = 0;
        while j < r.len()
            invariant
                j <= r@.len(),
                m@ == c@.take(l.start as int) + r@.take(j as int),
            decreases r@.len() - j,
        {
            m.push(r[j]);
            j = j + 1;
        }
        let mut i = l.end;
        while i < c.len()
            invariant
                l.end <= i <= c@.len(),
                m@ == c@.take(l.start as int) + r@ + c@.subrange(l.end as int, i as int),
            decreases c@.len() - i,
        {
            m.push(c[i]);
            i = i + 1;
        }
        assert(r@.take(r@.len() as int) == r@);
        assert(c@.subrange(l.end as int, c@.len() as int) == c@.skip(l.end as int));
        m
    }

    /// The full text of this mutant: the original source with the mutated
    /// range replaced, and a comment line that describes the mutation.
    pub fn mutant_source(&self) -> (r: String)
        requires
            self.renders(),
        ensures
            r@ == rendered_mutant(
                self.source@,
                self.mutant_loc.loc.start as int,
                self.mutant_loc.loc.end as int,
                self.repl@,
                self.mutant_loc.line_no as int,
                display_name(self.op),
            ),
    {
        let c = chars_of(self.source.as_str());
        let l = self.mutant_loc.loc;
        let line_no = self.mutant_loc.line_no;
        let m = self.spliced_chars(&c);
        let ml = line_bounds(&m);
        let ol = line_bounds(&c);
        let k = if line_no >= 1 {
            line_no - 1
        } else {
            0
        };
        let ghost ls = lines_of(m@);
        // the comment line
        let (ms, me) = ml[k];
        let mut_line = string_of_range(&m, ms, me);
        let mut comment = get_indent(mut_line.as_str());
        comment.append("/// ");
        comment.append(self.op.to_string().as_str());
        comment.append("(`");
        let (oa, ob) = trim_bounds(&c, l.start, l.end);
        append_range(&mut comment, &c, oa, ob);
        comment.append("` |==> `");
        comment.append(self.repl.as_str());
        comment.append("`) of: `");
        let (ls0, ls1) = ol[line_no];
        let (ta, tb) = trim_bounds(&c, ls0, ls1);
        append_range(&mut comment, &c, ta, tb);
        comment.append("`");
        // all lines
        let mut out: Vec<Vec<char>> = Vec::new();
        let mut i: usize = 0;
        while i < k
            invariant
                i <= k < ml@.len(),
                ml@.len() == ls.len(),
                ls == lines_of(m@),
                forall|j: int|
                    0 <= j < ml@.len() ==> {
                        &&& (#[trigger] ml@[j]).0 <= ml@[j].1 <= m@.len()
                        &&& m@.subrange(ml@[j].0 as int, ml@[j].1 as int) == ls[j]
                    },
                views_of(out@) == ls.take(i as int),
            decreases k - i,
        {
            let (a, b) = ml[i];
            let line = slice_chars(&m, a, b);
            let ghost prev = out@;
            out.push(line);
            proof {
                assert(views_of(out@) =~= views_of(prev).push(ls[i as int]));
                assert(ls.take(i + 1) =~= ls.take(i as int).push(ls[i as int]));
            }
            i = i + 1;
        }
        let ghost prev = out@;
        out.push(chars_of(comment.as_str()));
        let ghost head = views_of(out@);
        proof {
            assert(head =~= views_of(prev).push(comment@));
        }
        while i < ml.len()
            invariant
                k <= i <= ml@.len(),
                ml@.len() == ls.len(),
                ls == lines_of(m@),
                forall|j: int|
                    0 <= j < ml@.len() ==> {
                        &&& (#[trigger] ml@[j]).0 <= ml@[j].1 <= m@.len()
                        &&& m@.subrange(ml@[j].0 as int, ml@[j].1 as int) == ls[j]
                    },
                views_of(out@) == head + ls.subrange(k as int, i as int),
            decreases ml@.len() - i,
        {
            let (a, b) = ml[i];
            let line = slice_chars(&m, a, b);
            let ghost prev = out@;
            out.push(line);
            proof {
                assert(views_of(out@) =~= views_of(prev).push(ls[i as int]));
                assert(ls.subrange(k as int, i + 1) =~= ls.subrange(k as int, i as int).push(
                    ls[i as int],
                ));
            }
            i = i + 1;
        }
        assert(ls.subrange(k as int, ls.len() as int) == ls.skip(k as int));
        assert(views_of(out@) =~= head + ls.skip(k as int));
        if c[c.len() - 1] == '\n' {
            let ghost prev = out@;
            out.push(Vec::new());
            proof {
                assert(views_of(out@) =~= views_of(prev).push(Seq::<char>::empty()));
            }
        }
        join_lines(&out, '\n')
    }
}

/// The characters `v[from..to]` as a new vector.
pub fn slice_chars(v: &Vec<char>, from: usize, to: usize) -> (r: Vec<char>)
    requires
        from <= to <= v@.len(),
    ensures
        r@ == v@.subrange(from as int, to as int),
{
    let mut r: Vec<char> = Vec::new();
    let mut i = from;
    while i < to
        invariant
            from <= i <= to <= v@.len(),
            r@ == v@.subrange(from as int, i as int),
        decreases to - i,
    {
        r.push(v[i]);
        i = i + 1;
    }
    r
}

} // verus!

verus! {

/// Each operator's short name (the operator column of the mutant log) names
/// only that operator.
pub proof fn law_short_names_distinct(a: MutationType, b: MutationType)
    ensures
        short_name_of(a) == short_name_of(b) ==> a == b,
{
    reveal_strlit("AOR");
    reveal_strlit("BOR");
    reveal_strlit("EDC");
    reveal_strlit("EVR");
    reveal_strlit("LVR");
    reveal_strlit("LOR");
    reveal_strlit("ROR");
    reveal_strlit("SOR");
    reveal_strlit("STD");
    reveal_strlit("UOR");
    if short_name_of(a) == short_name_of(b) {
        assert(short_name_of(a)[0] == short_name_of(b)[0]);
        assert(short_name_of(a)[1] == short_name_of(b)[1]);
        assert(short_name_of(a)[2] == short_name_of(b)[2]);
    }
}

} // verus!

verus! {

proof fn lemma_names_differ(a: MutationType, b: MutationType)
    requires
        a != b,
    ensures
        !eq_ignore_ascii_case(kebab_name(a), kebab_name(b)),
{
    reveal_strlit("arithmetic-operator-replacement");
    reveal_strlit("bitwise-operator-replacement");
    reveal_strlit("elim-delegate-call");
    reveal_strlit("literal-value-replacement");
    reveal_strlit("logical-operator-replacement");
    reveal_strlit("relational-operator-replacement");
    reveal_strlit("shift-operator-replacement");
    reveal_strlit("statement-deletion");
    reveal_strlit("unary-operator-replacement");
    reveal_strlit("expression-value-replacement");
    let x = kebab_name(a);
    let y = kebab_name(b);
    if x.len() == y.len() {
        assert(ascii_lower(x[0]) != ascii_lower(y[0]));
    }
}

/// Every operator is recognized by its own name: [`MutationType::from_name`]
/// gives the operator back for it.
pub proof fn law_operator_names_recognized(t: MutationType)
    ensures
        operator_named(kebab_name(t)) == Some(t),
{
    let all = all_operators();
    let s = kebab_name(t);
    assert forall|i: int| 0 <= i < 10 && all[i] != t implies !eq_ignore_ascii_case(s, kebab_name(
        #[trigger] all[i],
    )) by {
        lemma_names_differ(t, all[i]);
    }
    assert(eq_ignore_ascii_case(s, s));
    reveal_with_fuel(first_named_from, 11);
}

} // verus!
