//! The parts of a resolved Solidity program that mutation reads: source
//! files, functions, statements and expressions, with their locations.
use vstd::prelude::*;
use crate::mutation::Loc;

verus! {

/// The type of an expression, as far as mutation operators tell types apart.
#[derive(Clone, Copy, Debug, PartialEq, Eq, Structural)]
pub enum SolType {
    /// A signed integer type.
    Int,
    /// An unsigned integer type.
    Uint,
    /// A rational number (from constant folding).
    Rational,
    /// An address.
    Address,
    /// A boolean.
    Bool,
    /// Any other type.
    Other,
}

/// The kind of an expression node.
#[derive(Clone, Debug)]
pub enum ExprKind {
    Add,
    Subtract,
    Multiply,
    Divide,
    Modulo,
    Power,
    BitwiseOr,
    BitwiseAnd,
    BitwiseXor,
    ShiftLeft,
    ShiftRight,
    Assign,
    More,
    Less,
    MoreEqual,
    LessEqual,
    Equal,
    NotEqual,
    Or,
    And,
    PreIncrement,
    PreDecrement,
    PostIncrement,
    PostDecrement,
    Not,
    BitwiseNot,
    Negate,
    ConditionalOperator,
    StringConcat,
    StringCompare,
    /// A boolean literal and its value.
    BoolLiteral(bool),
    /// A number literal: its type and its value as decimal text.
    NumberLiteral(SolType, String),
    /// A raw external call made with `delegatecall`.
    DelegateCall,
    /// Any other expression.
    Other,
}

/// An expression node: its kind and location, its type, and the locations
/// (and type) of the operands that mutation reads.
#[derive(Clone, Debug)]
pub struct Expr {
    pub kind: ExprKind,
    /// The location, or `None` when it is not a range of a file.
    pub loc: Option<Loc>,
    /// The type of the expression.
    pub ty: SolType,
    /// The first operand: the left side of a binary operator, the base of
    /// `**`, the condition of `?:`, the address of a raw call.
    pub first: Option<Loc>,
    /// The type of the first operand.
    pub first_ty: SolType,
    /// The second operand: the right side of a binary operator, the exponent
    /// of `**`, the true branch of `?:`.
    pub second: Option<Loc>,
}

/// The kind of a statement.
#[derive(Clone, Copy, Debug, PartialEq, Eq, Structural)]
pub enum StmtKind {
    Block,
    VariableDecl,
    If,
    While,
    For,
    DoWhile,
    Expression,
    Delete,
    Destructure,
    Continue,
    Break,
    Return,
    Revert,
    Emit,
    TryCatch,
    Underscore,
    Assembly,
}

/// A statement: its kind and location, the expression that mutation
/// visits in it (the initializer, condition, expression or returned value),
/// and the operands that fallback operators try.
#[derive(Clone, Debug)]
pub struct Stmt {
    pub kind: StmtKind,
    /// The location, or `None` when it is not a range of a file.
    pub loc: Option<Loc>,
    /// The nodes of the statement's expression in visiting order (the
    /// expression itself first); empty when the statement has none.
    pub expr: Vec<Expr>,
    /// For an expression statement: the right side of an assignment, or the
    /// arguments of a call, each tried by fallback operators.
    pub fallback_parts: Vec<Expr>,
}

/// Whether mutation visits the statements nested in a statement of kind `k`:
/// it does below all but placeholder (`_`) and assembly statements.
pub fn visits_nested(k: &StmtKind) -> (r: bool)
    ensures
        r == !(*k == StmtKind::Underscore || *k == StmtKind::Assembly),
{
    match k {
        StmtKind::Underscore | StmtKind::Assembly => false,
        _ => true,
    }
}

/// Whether a statement of kind `k` holds an expression that mutation visits:
/// a declaration (its initializer), `if`, `while`, `for` and `do` (the
/// condition), an expression statement, `delete` and a destructuring (the
/// operand), and `return` (the returned value).
pub open spec fn has_expression(k: StmtKind) -> bool {
    match k {
        StmtKind::VariableDecl | StmtKind::If | StmtKind::While | StmtKind::For
        | StmtKind::DoWhile | StmtKind::Expression | StmtKind::Delete
        | StmtKind::Destructure | StmtKind::Return => true,
        _ => false,
    }
}

/// How the parts of a statement follow from its kind: only a statement that
/// holds an expression has expression nodes; only an expression statement
/// whose expression is an assignment or a call has fallback parts; and the
/// one fallback part of an assigning statement is the assignment's right
/// side.
pub open spec fn stmt_shape_ok(s: Stmt) -> bool {
    &&& s.expr@.len() > 0 ==> has_expression(s.kind)
    &&& s.fallback_parts@.len() > 0 ==> {
        &&& s.kind == StmtKind::Expression
        &&& s.expr@.len() > 0
        &&& (s.expr@[0].kind is Assign || s.expr@[0].kind is Other)
    }
    &&& (s.kind == StmtKind::Expression && s.expr@.len() > 0 && s.expr@[0].kind is Assign)
        ==> {
        &&& s.fallback_parts@.len() == 1
        &&& s.fallback_parts@[0].loc == s.expr@[0].second
    }
}

/// Tests [`stmt_shape_ok`].
pub fn check_stmt_shape(s: &Stmt) -> (r: bool)
    ensures
        r == stmt_shape_ok(*s),
{
    let holds_expression = match s.kind {
        StmtKind::VariableDecl | StmtKind::If | StmtKind::While | StmtKind::For
        | StmtKind::DoWhile | StmtKind::Expression | StmtKind::Delete
        | StmtKind::Destructure | StmtKind::Return => true,
        _ => false,
    };
    if s.expr.len() > 0 && !holds_expression {
        return false;
    }
    let root_assign = s.expr.len() > 0 && match s.expr[0].kind {
        ExprKind::Assign => true,
        _ => false,
    };
    let root_other = s.expr.len() > 0 && match s.expr[0].kind {
        ExprKind::Other => true,
        _ => false,
    };
    let is_stmt = s.kind == StmtKind::Expression;
    if s.fallback_parts.len() > 0 && !(is_stmt && (root_assign || root_other)) {
        return false;
    }
    if is_stmt && root_assign {
        if s.fallback_parts.len() != 1 {
            return false;
        }
        match (s.fallback_parts[0].loc, s.expr[0].second) {
            (Some(a), Some(b)) => a == b,
            (None, None) => true,
            _ => false,
        }
    } else {
        true
    }
}

/// A source file: its path, its path relative to its import root, and its
/// text.
#[derive(Clone, Debug)]
pub struct SourceFile {
    pub path: String,
    pub sol_path: String,
    pub text: String,
}

/// A function: where it is, which contract holds it, and its statements in
/// visiting order (each statement before the statements nested in it).
#[derive(Clone, Debug)]
pub struct FunctionDef {
    pub name: String,
    /// The number of the file that holds the function.
    pub file_no: usize,
    /// The name of the contract that holds the function, if any.
    pub contract: Option<String>,
    pub is_accessor: bool,
    pub has_body: bool,
    pub body: Vec<Stmt>,
}

/// A resolved program: its files (indexed by file number) and functions.
#[derive(Clone, Debug)]
pub struct Namespace {
    pub files: Vec<SourceFile>,
    pub functions: Vec<FunctionDef>,
}

/// The text of an operator (`get_operator`): empty for kinds that are not
/// operators.
pub open spec fn op_symbol(k: ExprKind) -> Seq<char> {
    match k {
        ExprKind::Add => "+"@,
        ExprKind::Subtract => "-"@,
        ExprKind::Multiply => "*"@,
        ExprKind::Divide => "/"@,
        ExprKind::Modulo => "%"@,
        ExprKind::Power => "**"@,
        ExprKind::BitwiseOr => "|"@,
        ExprKind::BitwiseAnd => "&"@,
        ExprKind::BitwiseXor => "^"@,
        ExprKind::ShiftLeft => "<<"@,
        ExprKind::ShiftRight => ">>"@,
        ExprKind::PreIncrement => "++"@,
        ExprKind::PreDecrement => "--"@,
        ExprKind::PostIncrement => "++"@,
        ExprKind::PostDecrement => "--"@,
        ExprKind::More => ">"@,
        ExprKind::Less => "<"@,
        ExprKind::MoreEqual => ">="@,
        ExprKind::LessEqual => "<="@,
        ExprKind::Equal => "=="@,
        ExprKind::NotEqual => "!="@,
        ExprKind::Not => "!"@,
        ExprKind::BitwiseNot => "~"@,
        ExprKind::Negate => "-"@,
        ExprKind::ConditionalOperator => "?"@,
        ExprKind::Or => "||"@,
        ExprKind::And => "&&"@,
        _ => ""@,
    }
}

/// The text of an operator.
pub fn get_operator(k: &ExprKind) -> (r: &'static str)
    ensures
        r@ == op_symbol(*k),
{
    match k {
        ExprKind::Add => "+",
        ExprKind::Subtract => "-",
        ExprKind::Multiply => "*",
        ExprKind::Divide => "/",
        ExprKind::Modulo => "%",
        ExprKind::Power => "**",
        ExprKind::BitwiseOr => "|",
        ExprKind::BitwiseAnd => "&",
        ExprKind::BitwiseXor => "^",
        ExprKind::ShiftLeft => "<<",
        ExprKind::ShiftRight => ">>",
        ExprKind::PreIncrement => "++",
        ExprKind::PreDecrement => "--",
        ExprKind::PostIncrement => "++",
        ExprKind::PostDecrement => "--",
        ExprKind::More => ">",
        ExprKind::Less => "<",
        ExprKind::MoreEqual => ">=",
        ExprKind::LessEqual => "<=",
        ExprKind::Equal => "==",
        ExprKind::NotEqual => "!=",
        ExprKind::Not => "!",
        ExprKind::BitwiseNot => "~",
        ExprKind::Negate => "-",
        ExprKind::ConditionalOperator => "?",
        ExprKind::Or => "||",
        ExprKind::And => "&&",
        _ => "",
    }
}

/// Whether the operator of `k` sits between two operands, so that its
/// location is found in the text between them.
pub open spec fn is_infix(k: ExprKind) -> bool {
    match k {
        ExprKind::Add | ExprKind::Subtract | ExprKind::Multiply | ExprKind::Divide
        | ExprKind::Modulo | ExprKind::BitwiseOr | ExprKind::BitwiseAnd | ExprKind::BitwiseXor
        | ExprKind::ShiftLeft | ExprKind::ShiftRight | ExprKind::Assign | ExprKind::More
        | ExprKind::Less | ExprKind::MoreEqual | ExprKind::LessEqual | ExprKind::Equal
        | ExprKind::NotEqual | ExprKind::Or | ExprKind::And | ExprKind::Power
        | ExprKind::ConditionalOperator => true,
        _ => false,
    }
}

/// Whether the operator of `k` is at the start of the expression.
pub open spec fn is_prefix_op(k: ExprKind) -> bool {
    match k {
        ExprKind::PreIncrement | ExprKind::PreDecrement | ExprKind::Not | ExprKind::BitwiseNot
        | ExprKind::Negate => true,
        _ => false,
    }
}

/// Whether the operator of `k` is at the end of the expression.
pub open spec fn is_postfix_op(k: ExprKind) -> bool {
    match k {
        ExprKind::PostIncrement | ExprKind::PostDecrement => true,
        _ => false,
    }
}

/// Index of the first `c` in `s` at or after `i`, or `s.len()`.
pub open spec fn index_of_from(s: Seq<char>, c: char, i: int) -> int
    decreases s.len() - i,
{
    if i >= s.len() {
        s.len() as int
    } else if s[i] == c {
        i
    } else {
        index_of_from(s, c, i + 1)
    }
}

/// `index_of_from` stays within bounds and finds `c`.
pub proof fn lemma_index_of_from(s: Seq<char>, c: char, i: int)
    requires
        0 <= i <= s.len(),
    ensures
        i <= index_of_from(s, c, i) <= s.len(),
        index_of_from(s, c, i) < s.len() ==> s[index_of_from(s, c, i)] == c,
        forall|j: int| i <= j < index_of_from(s, c, i) ==> s[j] != c,
    decreases s.len() - i,
{
    if i < s.len() && s[i] != c {
        lemma_index_of_from(s, c, i + 1);
    }
}

/// Whether the location of the operator of `e` can be found in `source`
/// (the text of the file that holds `e`).
pub open spec fn op_loc_defined(e: Expr, source: Seq<char>) -> bool {
    if is_infix(e.kind) {
        &&& e.first is Some
        &&& e.second is Some
        &&& op_symbol(e.kind).len() > 0
        &&& e.first->0.end <= e.second->0.start <= source.len()
        &&& index_of_from(source, op_symbol(e.kind)[0], e.first->0.end as int)
            < e.second->0.start
        &&& e.second->0.start + op_symbol(e.kind).len() <= usize::MAX
    } else if is_prefix_op(e.kind) {
        &&& e.loc is Some
        &&& e.loc->0.start + op_symbol(e.kind).len() <= usize::MAX
    } else if is_postfix_op(e.kind) {
        &&& e.loc is Some
        &&& e.loc->0.end >= op_symbol(e.kind).len()
    } else {
        false
    }
}

/// The location of the operator of `e` (`get_op_loc`). Between two operands
/// it starts at the first occurrence of the operator's first character after
/// the first operand and is as long as the operator. For a unary operator it
/// spans the operator itself, at the start (prefix) or the end (postfix) of
/// the expression.
pub open spec fn op_loc(e: Expr, source: Seq<char>) -> Loc {
    if is_infix(e.kind) {
        let f = e.first->0;
        let start = index_of_from(source, op_symbol(e.kind)[0], f.end as int);
        Loc {
            file_no: f.file_no,
            start: start as usize,
            end: (start + op_symbol(e.kind).len()) as usize,
        }
    } else if is_prefix_op(e.kind) {
        let l = e.loc->0;
        Loc { end: (l.start + op_symbol(e.kind).len()) as usize, ..l }
    } else {
        let l = e.loc->0;
        Loc { start: (l.end - op_symbol(e.kind).len()) as usize, ..l }
    }
}

/// The location of the operator of `e` in `source`.
pub fn get_op_loc(e: &Expr, source: &Vec<char>) -> (r: Loc)
    requires
        op_loc_defined(*e, source@),
    ensures
        r == op_loc(*e, source@),
{
    match &e.kind {
        ExprKind::Add | ExprKind::Subtract | ExprKind::Multiply | ExprKind::Divide
        | ExprKind::Modulo | ExprKind::BitwiseOr | ExprKind::BitwiseAnd | ExprKind::BitwiseXor
        | ExprKind::ShiftLeft | ExprKind::ShiftRight | ExprKind::Assign | ExprKind::More
        | ExprKind::Less | ExprKind::MoreEqual | ExprKind::LessEqual | ExprKind::Equal
        | ExprKind::NotEqual | ExprKind::Or | ExprKind::And | ExprKind::Power
        | ExprKind::ConditionalOperator => {
            let f = e.first.unwrap();
            let s = e.second.unwrap();
            let op = crate::text::chars_of(get_operator(&e.kind));
            let first_char = op[0];
            let mut i = f.end;
            proof {
                lemma_index_of_from(source@, first_char, f.end as int);
            }
            while i < s.start && source[i] != first_char
                invariant
                    f.end <= i <= s.start <= source@.len(),
                    index_of_from(source@, first_char, f.end as int) == index_of_from(
                        source@,
                        first_char,
                        i as int,
                    ),
                decreases s.start - i,
            {
                i = i + 1;
            }
            proof {
                lemma_index_of_from(source@, first_char, i as int);
            }
            Loc { file_no: f.file_no, start: i, end: i + op.len() }
        },
        ExprKind::PreIncrement | ExprKind::PreDecrement | ExprKind::Not | ExprKind::BitwiseNot
        | ExprKind::Negate => {
            let l = e.loc.unwrap();
            let n = crate::text::chars_of(get_operator(&e.kind)).len();
            l.with_end(l.start + n)
        },
        _ => {
            let l = e.loc.unwrap();
            let n = crate::text::chars_of(get_operator(&e.kind)).len();
            l.with_start(l.end - n)
        },
    }
}

} // verus!

verus! {

/// The name of a kind of statement.
pub open spec fn statement_type_name(k: StmtKind) -> Seq<char> {
    match k {
        StmtKind::Block => "Block"@,
        StmtKind::VariableDecl => "VariableDecl"@,
        StmtKind::If => "If"@,
        StmtKind::While => "While"@,
        StmtKind::For => "For"@,
        StmtKind::DoWhile => "DoWhile"@,
        StmtKind::Expression => "Expression"@,
        StmtKind::Delete => "Delete"@,
        StmtKind::Destructure => "Destructure"@,
        StmtKind::Continue => "Continue"@,
        StmtKind::Break => "Break"@,
        StmtKind::Return => "Return"@,
        StmtKind::Revert => "Revert"@,
        StmtKind::Emit => "Emit"@,
        StmtKind::TryCatch => "TryCatch"@,
        StmtKind::Underscore => "Underscore"@,
        StmtKind::Assembly => "Assembly"@,
    }
}

/// A simple string representation of the type of a statement.
pub fn statement_type(k: &StmtKind) -> (r: &'static str)
    ensures
        r@ == statement_type_name(*k),
{
    match k {
        StmtKind::Block => "Block",
        StmtKind::VariableDecl => "VariableDecl",
        StmtKind::If => "If",
        StmtKind::While => "While",
        StmtKind::For => "For",
        StmtKind::DoWhile => "DoWhile",
        StmtKind::Expression => "Expression",
        StmtKind::Delete => "Delete",
        StmtKind::Destructure => "Destructure",
        StmtKind::Continue => "Continue",
        StmtKind::Break => "Break",
        StmtKind::Return => "Return",
        StmtKind::Revert => "Revert",
        StmtKind::Emit => "Emit",
        StmtKind::TryCatch => "TryCatch",
        StmtKind::Underscore => "Underscore",
        StmtKind::Assembly => "Assembly",
    }
}

} // verus!
