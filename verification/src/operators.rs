//! The mutation operators: for each kind of mutation, the replacements it
//! makes at an expression or a statement.
use vstd::prelude::*;
use crate::literal::{
    decimal_string, decimal_value, incremented_literal, is_decimal, literal_is_zero,
    negated_literal,
};
use crate::mutation::{Loc, Mutant, MutantLoc, MutationType};
use crate::solidity::{
    get_op_loc, get_operator, op_loc, op_loc_defined, op_symbol, Expr, ExprKind, SolType,
    SourceFile, Stmt, StmtKind,
};
use crate::text::{
    chars_of, line_of_offset, line_start_of_offset, offset_to_line_column, string_of_range,
    strs_equal,
};

verus! {

/// A planned replacement: where, the text replaced, and the replacement.
pub type Edit = (Loc, Seq<char>, Seq<char>);

/// Whether `m` is the mutant that `op` makes with `edit` in `file`.
pub open spec fn mutant_at(m: Mutant, file: SourceFile, op: MutationType, edit: Edit) -> bool {
    &&& m.op == op
    &&& m.mutant_loc.loc == edit.0
    &&& m.orig@ == edit.1
    &&& m.repl@ == edit.2
    &&& m.source@ == file.text@
    &&& m.mutant_loc.path@ == file.path@
    &&& m.mutant_loc.sol_path matches Some(p) && p@ == file.sol_path@
    &&& m.mutant_loc.line_no == line_of_offset(file.text@, edit.0.start as int)
    &&& m.mutant_loc.col_no == edit.0.start - line_start_of_offset(file.text@, edit.0.start as int)
}

/// Whether `ms` are the mutants that `op` makes with `edits`, in order.
pub open spec fn mutants_at(
    ms: Seq<Mutant>,
    file: SourceFile,
    op: MutationType,
    edits: Seq<Edit>,
) -> bool {
    &&& ms.len() == edits.len()
    &&& forall|i: int| 0 <= i < ms.len() ==> mutant_at(#[trigger] ms[i], file, op, edits[i])
}

/// The views of planned replacements held as strings.
pub open spec fn edit_views(v: Seq<(Loc, String, String)>) -> Seq<Edit> {
    Seq::new(v.len(), |i: int| (v[i].0, v[i].1@, v[i].2@))
}

/// The views of a vector of strings.
pub open spec fn string_views(v: Seq<String>) -> Seq<Seq<char>> {
    Seq::new(v.len(), |i: int| v[i]@)
}

/// `s` without the elements equal to `x`, in order.
pub open spec fn without(s: Seq<Seq<char>>, x: Seq<char>) -> Seq<Seq<char>>
    decreases s.len(),
{
    if s.len() == 0 {
        s
    } else {
        let w = without(s.drop_last(), x);
        if s.last() == x {
            w
        } else {
            w.push(s.last())
        }
    }
}

/// The strings of `v` that differ from `x`, in order.
fn strings_without(v: &Vec<String>, x: &str) -> (r: Vec<String>)
    ensures
        string_views(r@) == without(string_views(v@), x@),
{
    let ghost s = string_views(v@);
    let mut r: Vec<String> = Vec::new();
    let mut i: usize = 0;
    while i < v.len()
        invariant
            i <= v@.len(),
            s == string_views(v@),
            string_views(r@) == without(s.take(i as int), x@),
        decreases v@.len() - i,
    {
        proof {
            assert(s.take(i + 1).drop_last() == s.take(i as int));
        }
        if !strs_equal(v[i].as_str(), x) {
            let ghost prev = r@;
            r.push(v[i].clone());
            proof {
                assert(string_views(r@) =~= string_views(prev).push(s[i as int]));
            }
        }
        i = i + 1;
    }
    assert(s.take(v@.len() as int) == s);
    r
}

/// Strings from literals.
fn strings_of(v: &Vec<&str>) -> (r: Vec<String>)
    ensures
        string_views(r@) == Seq::new(v@.len(), |i: int| v@[i]@),
{
    let mut r: Vec<String> = Vec::new();
    let mut i: usize = 0;
    while i < v.len()
        invariant
            i <= v@.len(),
            string_views(r@) == Seq::new(i as nat, |j: int| v@[j]@),
        decreases v@.len() - i,
    {
        let ghost prev = r@;
        let t = v[i].to_string();
        assert(t@ == v@[i as int]@);
        r.push(t);
        proof {
            assert(string_views(r@) =~= string_views(prev).push(v@[i as int]@));
            assert(string_views(r@) =~= Seq::new((i + 1) as nat, |j: int| v@[j]@));
        }
        i = i + 1;
    }
    r
}

/// The mutant that `op` makes with one replacement in `file`.
pub fn make_mutant(
    file: &SourceFile,
    chars: &Vec<char>,
    loc: Loc,
    op: MutationType,
    orig: String,
    repl: String,
) -> (m: Mutant)
    requires
        chars@ == file.text@,
        loc.start <= chars@.len(),
    ensures
        mutant_at(m, *file, op, (loc, orig@, repl@)),
{
    let (line_no, col_no) = offset_to_line_column(chars, loc.start);
    Mutant {
        mutant_loc: MutantLoc {
            loc,
            line_no,
            col_no,
            path: file.path.clone(),
            sol_path: Some(file.sol_path.clone()),
        },
        op,
        source: file.text.clone(),
        orig,
        repl,
    }
}

/// The mutants that `op` makes with `edits` in `file`.
pub fn mutants_from_edits(
    file: &SourceFile,
    chars: &Vec<char>,
    op: MutationType,
    edits: Vec<(Loc, String, String)>,
) -> (ms: Vec<Mutant>)
    requires
        chars@ == file.text@,
        forall|i: int| 0 <= i < edits@.len() ==> (#[trigger] edits@[i]).0.start <= chars@.len(),
    ensures
        mutants_at(ms@, *file, op, edit_views(edits@)),
{
    let ghost ev = edit_views(edits@);
    let mut ms: Vec<Mutant> = Vec::new();
    let mut i: usize = 0;
    while i < edits.len()
        invariant
            i <= edits@.len(),
            chars@ == file.text@,
            ev == edit_views(edits@),
            forall|j: int| 0 <= j < edits@.len() ==> (#[trigger] edits@[j]).0.start <= chars@.len(),
            ms@.len() == i,
            forall|j: int| 0 <= j < i ==> mutant_at(#[trigger] ms@[j], *file, op, ev[j]),
        decreases edits@.len() - i,
    {
        let (loc, orig, repl) = (edits[i].0, edits[i].1.clone(), edits[i].2.clone());
        let m = make_mutant(file, chars, loc, op, orig, repl);
        ms.push(m);
        i = i + 1;
    }
    ms
}

/// The text at `loc` in `chars`.
pub open spec fn text_at(chars: Seq<char>, loc: Loc) -> Seq<char> {
    chars.subrange(loc.start as int, loc.end as int)
}

/// Whether `loc` is a range of `chars`.
pub open spec fn loc_in(loc: Loc, chars: Seq<char>) -> bool {
    loc.start <= loc.end <= chars.len()
}

/// Whether `k` is an arithmetic operator.
pub open spec fn is_arith(k: ExprKind) -> bool {
    match k {
        ExprKind::Divide
        | ExprKind::Modulo | ExprKind::Multiply | ExprKind::Subtract | ExprKind::Add
        | ExprKind::Power => true,
        _ => false,
    }
}

/// Whether `k` is a bitwise operator.
pub open spec fn is_bitwise(k: ExprKind) -> bool {
    match k {
        ExprKind::BitwiseOr | ExprKind::BitwiseAnd | ExprKind::BitwiseXor => true,
        _ => false,
    }
}

/// Whether `k` is a shift operator.
pub open spec fn is_shift(k: ExprKind) -> bool {
    match k {
        ExprKind::ShiftLeft | ExprKind::ShiftRight => true,
        _ => false,
    }
}

/// Whether `k` is a relational operator.
pub open spec fn is_relational(k: ExprKind) -> bool {
    match k {
        ExprKind::Less | ExprKind::LessEqual | ExprKind::More | ExprKind::MoreEqual
        | ExprKind::Equal | ExprKind::NotEqual => true,
        _ => false,
    }
}

/// Whether `k` is a unary operator that unary replacement changes.
pub open spec fn is_unary(k: ExprKind) -> bool {
    match k {
        ExprKind::BitwiseNot | ExprKind::Negate => true,
        _ => false,
    }
}

/// Whether `k` is `&&` or `||`.
pub open spec fn is_logical(k: ExprKind) -> bool {
    match k {
        ExprKind::And | ExprKind::Or => true,
        _ => false,
    }
}

/// Whether the operator of `e` lies in `chars`, in the file of `e`.
pub open spec fn op_loc_ok(e: Expr, chars: Seq<char>) -> bool {
    &&& op_loc_defined(e, chars)
    &&& op_loc(e, chars).file_no == e.loc->0.file_no
    &&& loc_in(op_loc(e, chars), chars)
}

/// The arithmetic operators that replace the operator of kind `k` in an
/// expression of type `ty`: all of `+ - * / ** %` but the operator itself,
/// and without `**` in a signed expression (other than `**` itself).
pub open spec fn arith_replacements(k: ExprKind, ty: SolType) -> Seq<Seq<char>> {
    let base = without(seq!["+"@, "-"@, "*"@, "/"@, "**"@, "%"@], op_symbol(k));
    if !(k is Power) && ty == SolType::Int {
        without(base, "**"@)
    } else {
        base
    }
}

/// The relational replacements for `e`: for `<`, `<=`, `!=` and `false`;
/// for `<=`, `<`, `==` and `true`; for `>`, `>=`, `!=` and `false`; for
/// `>=`, `>`, `==` and `true`; for `==` between ordered operands `<=`, `>=`
/// and `false`; for `!=` between ordered operands `<`, `>` and `true`; for
/// `==` and `!=` between other operands, `true` and `false`.
pub open spec fn rel_replacements(e: Expr) -> Seq<Seq<char>> {
    let ordered = e.first_ty == SolType::Int || e.first_ty == SolType::Uint || e.first_ty
        == SolType::Rational;
    match e.kind {
        ExprKind::Less => seq!["<="@, "!="@, "false"@],
        ExprKind::LessEqual => seq!["<"@, "=="@, "true"@],
        ExprKind::More => seq![">="@, "!="@, "false"@],
        ExprKind::MoreEqual => seq![">"@, "=="@, "true"@],
        ExprKind::Equal => if ordered {
            seq!["<="@, ">="@, "false"@]
        } else {
            seq!["true"@, "false"@]
        },
        ExprKind::NotEqual => if ordered {
            seq!["<"@, ">"@, "true"@]
        } else {
            seq!["true"@, "false"@]
        },
        _ => Seq::empty(),
    }
}

/// The literal replacements for `e`: a boolean literal becomes its negation;
/// a signed literal becomes `-1` and `1` when zero, else `0`, its negation
/// and its successor; an unsigned literal becomes `1` when zero, else `0`
/// and its successor; other literals and expressions are not replaced.
pub open spec fn literal_replacements(e: Expr) -> Seq<Seq<char>> {
    match e.kind {
        ExprKind::BoolLiteral(v) => seq![
            if v {
                "false"@
            } else {
                "true"@
            },
        ],
        ExprKind::NumberLiteral(ty, value) => match ty {
            SolType::Int => if decimal_value(value@) == 0 {
                seq!["-1"@, "1"@]
            } else {
                seq![
                    "0"@,
                    decimal_string(-decimal_value(value@)),
                    decimal_string(decimal_value(value@) + 1),
                ]
            },
            SolType::Uint => if decimal_value(value@) == 0 {
                seq!["1"@]
            } else {
                seq!["0"@, decimal_string(decimal_value(value@) + 1)]
            },
            _ => Seq::empty(),
        },
        _ => Seq::empty(),
    }
}

/// The values that expression value replacement puts in place of an
/// expression of type `ty`: `0` and `1` for an unsigned integer, `-1`, `0` and
/// `1` for a signed one, `true` and `false` for a boolean, none for any other
/// type.
pub open spec fn value_candidates(ty: SolType) -> Seq<Seq<char>> {
    match ty {
        SolType::Uint => seq!["0"@, "1"@],
        SolType::Int => seq!["-1"@, "0"@, "1"@],
        SolType::Bool => seq!["true"@, "false"@],
        _ => Seq::empty(),
    }
}

/// Index of the first occurrence of `pat` in `s[i..to]` (the whole of `pat`
/// inside that range), or `-1`.
pub open spec fn find_from(s: Seq<char>, pat: Seq<char>, i: int, to: int) -> int
    decreases to + 1 - i,
{
    if i + pat.len() > to || i < 0 || i > to {
        -1
    } else if s.subrange(i, i + pat.len()) == pat {
        i
    } else {
        find_from(s, pat, i + 1, to)
    }
}

/// Where `delegatecall` is named in a raw delegate call `e`: searched for
/// after the character that follows the address.
pub open spec fn delegate_call_start(e: Expr, chars: Seq<char>) -> int {
    find_from(chars, "delegatecall"@, e.first->0.end + 1, e.loc->0.end as int)
}

/// Whether operator `op` can be applied to `e` in `chars` (the text of the
/// file that holds `e`) without reading outside the text.
pub open spec fn expr_ready(op: MutationType, e: Expr, chars: Seq<char>) -> bool {
    &&& e.loc is Some
    &&& loc_in(e.loc->0, chars)
    &&& match op {
        MutationType::ArithmeticOperatorReplacement => is_arith(e.kind) ==> op_loc_ok(e, chars),
        MutationType::BitwiseOperatorReplacement => is_bitwise(e.kind) ==> op_loc_ok(e, chars),
        MutationType::ShiftOperatorReplacement => is_shift(e.kind) ==> op_loc_ok(e, chars),
        MutationType::RelationalOperatorReplacement => is_relational(e.kind) ==> op_loc_ok(
            e,
            chars,
        ),
        MutationType::UnaryOperatorReplacement => is_unary(e.kind) ==> op_loc_ok(e, chars),
        MutationType::LogicalOperatorReplacement => is_logical(e.kind) ==> {
            &&& e.first is Some
            &&& e.second is Some
            &&& loc_in(e.first->0, chars)
            &&& loc_in(e.second->0, chars)
        },
        MutationType::LiteralValueReplacement => match e.kind {
            ExprKind::NumberLiteral(_, value) => is_decimal(value@),
            _ => true,
        },
        MutationType::ElimDelegateCall => (e.kind is DelegateCall) ==> {
            &&& e.first is Some
            &&& e.first->0.end + 1 <= e.loc->0.end
            &&& delegate_call_start(e, chars) >= 0
        },
        _ => true,
    }
}

/// The replacements that `op` makes at expression `e` of the text `chars`.
pub open spec fn expr_edits(op: MutationType, e: Expr, chars: Seq<char>) -> Seq<Edit> {
    let loc = e.loc->0;
    match op {
        MutationType::ArithmeticOperatorReplacement => if is_arith(e.kind) {
            let reps = arith_replacements(e.kind, e.ty);
            Seq::new(reps.len(), |i: int| (op_loc(e, chars), op_symbol(e.kind), reps[i]))
        } else {
            Seq::empty()
        },
        MutationType::BitwiseOperatorReplacement => match e.kind {
            ExprKind::BitwiseOr => seq![(op_loc(e, chars), "|"@, "&"@)],
            ExprKind::BitwiseAnd => seq![(op_loc(e, chars), "&"@, "|"@)],
            ExprKind::BitwiseXor => seq![(op_loc(e, chars), "^"@, "&"@)],
            _ => Seq::empty(),
        },
        MutationType::ShiftOperatorReplacement => match e.kind {
            ExprKind::ShiftLeft => seq![(op_loc(e, chars), "<<"@, ">>"@)],
            ExprKind::ShiftRight => seq![(op_loc(e, chars), ">>"@, "<<"@)],
            _ => Seq::empty(),
        },
        MutationType::RelationalOperatorReplacement => {
            let reps = rel_replacements(e);
            let ol = op_loc(e, chars);
            Seq::new(
                reps.len(),
                |i: int|
                    if reps[i] == "true"@ || reps[i] == "false"@ {
                        (loc, text_at(chars, loc), reps[i])
                    } else {
                        (ol, text_at(chars, ol), reps[i])
                    },
            )
        },
        MutationType::LogicalOperatorReplacement => match e.kind {
            ExprKind::And => seq![
                (loc, text_at(chars, loc), text_at(chars, e.first->0)),
                (loc, text_at(chars, loc), text_at(chars, e.second->0)),
                (loc, text_at(chars, loc), "false"@),
            ],
            ExprKind::Or => seq![
                (loc, text_at(chars, loc), text_at(chars, e.first->0)),
                (loc, text_at(chars, loc), text_at(chars, e.second->0)),
                (loc, text_at(chars, loc), "true"@),
            ],
            _ => Seq::empty(),
        },
        MutationType::LiteralValueReplacement => {
            let reps = literal_replacements(e);
            Seq::new(reps.len(), |i: int| (loc, text_at(chars, loc), reps[i]))
        },
        MutationType::UnaryOperatorReplacement => if is_unary(e.kind) {
            let reps = without(seq!["-"@, "~"@], op_symbol(e.kind));
            Seq::new(
                reps.len(),
                |i: int| (op_loc(e, chars), op_symbol(e.kind), " "@ + reps[i] + " "@),
            )
        } else {
            Seq::empty()
        },
        MutationType::ExpressionValueReplacement => {
            let reps = without(value_candidates(e.ty), text_at(chars, loc));
            Seq::new(reps.len(), |i: int| (loc, text_at(chars, loc), reps[i]))
        },
        MutationType::ElimDelegateCall => if e.kind is DelegateCall {
            let s = delegate_call_start(e, chars);
            seq![
                (
                    Loc { file_no: loc.file_no, start: s as usize, end: (s + 12) as usize },
                    "delegatecall"@,
                    "call"@,
                ),
            ]
        } else {
            Seq::empty()
        },
        _ => Seq::empty(),
    }
}

/// Whether `k` is a statement that deletion may replace: an expression,
/// `delete`, `continue`, `break`, `revert`, `emit` or `return` statement.
pub open spec fn is_deletable(k: StmtKind) -> bool {
    match k {
        StmtKind::Expression | StmtKind::Delete | StmtKind::Continue | StmtKind::Break
        | StmtKind::Revert | StmtKind::Emit | StmtKind::Return => true,
        _ => false,
    }
}

/// Whether operator `op` can be applied to statement `s` in `chars`.
pub open spec fn stmt_ready(s: Stmt, chars: Seq<char>) -> bool {
    &&& s.loc is Some
    &&& loc_in(s.loc->0, chars)
}

/// The replacements that `op` makes at statement `s`: statement deletion
/// replaces a deletable statement with `assert(true)`.
pub open spec fn stmt_edits(op: MutationType, s: Stmt, chars: Seq<char>) -> Seq<Edit> {
    if op == MutationType::StatementDeletion && is_deletable(s.kind) {
        seq![(s.loc->0, text_at(chars, s.loc->0), "assert(true)"@)]
    } else {
        Seq::empty()
    }
}

/// The text `chars[loc]` as a string.
fn text_of(chars: &Vec<char>, loc: Loc) -> (r: String)
    requires
        loc_in(loc, chars@),
    ensures
        r@ == text_at(chars@, loc),
{
    string_of_range(chars, loc.start, loc.end)
}

/// Appends replacements at one location.
fn push_edits(
    out: &mut Vec<(Loc, String, String)>,
    loc: Loc,
    orig: &String,
    reps: &Vec<String>,
)
    ensures
        edit_views(final(out)@) == edit_views(old(out)@) + Seq::new(
            reps@.len(),
            |i: int| (loc, orig@, reps@[i]@),
        ),
{
    let mut i: usize = 0;
    while i < reps.len()
        invariant
            i <= reps@.len(),
            edit_views(out@) == edit_views(old(out)@) + Seq::new(
                i as nat,
                |j: int| (loc, orig@, reps@[j]@),
            ),
        decreases reps@.len() - i,
    {
        let ghost prev = out@;
        out.push((loc, orig.clone(), reps[i].clone()));
        proof {
            assert(edit_views(out@) =~= edit_views(prev).push((loc, orig@, reps@[i as int]@)));
            assert(Seq::new((i + 1) as nat, |j: int| (loc, orig@, reps@[j]@)) =~= Seq::new(
                i as nat,
                |j: int| (loc, orig@, reps@[j]@),
            ).push((loc, orig@, reps@[i as int]@)));
        }
        i = i + 1;
    }
}

/// Arithmetic operator replacement at `e`.
fn arith_edits(e: &Expr, chars: &Vec<char>) -> (r: Vec<(Loc, String, String)>)
    requires
        expr_ready(MutationType::ArithmeticOperatorReplacement, *e, chars@),
    ensures
        edit_views(r@) == expr_edits(MutationType::ArithmeticOperatorReplacement, *e, chars@),
{
    let mut out: Vec<(Loc, String, String)> = Vec::new();
    match &e.kind {
        ExprKind::Divide | ExprKind::Modulo | ExprKind::Multiply | ExprKind::Subtract
        | ExprKind::Add | ExprKind::Power => {
            let arith_op = get_operator(&e.kind);
            let all = strings_of(&vec!["+", "-", "*", "/", "**", "%"]);
            assert(string_views(all@) =~= seq!["+"@, "-"@, "*"@, "/"@, "**"@, "%"@]);
            let mut reps = strings_without(&all, arith_op);
            let is_power = match &e.kind {
                ExprKind::Power => true,
                _ => false,
            };
            if !is_power && e.ty == SolType::Int {
                reps = strings_without(&reps, "**");
            }
            let ar_loc = get_op_loc(e, chars);
            let orig = arith_op.to_string();
            push_edits(&mut out, ar_loc, &orig, &reps);
            assert(edit_views(out@) =~= expr_edits(
                MutationType::ArithmeticOperatorReplacement,
                *e,
                chars@,
            ));
        },
        _ => {
            assert(edit_views(out@) =~= Seq::<Edit>::empty());
        },
    }
    out
}

/// One replacement at one location.
fn single_edit(loc: Loc, orig: &str, repl: &str) -> (r: Vec<(Loc, String, String)>)
    ensures
        edit_views(r@) =~= seq![(loc, orig@, repl@)],
{
    let mut out: Vec<(Loc, String, String)> = Vec::new();
    out.push((loc, orig.to_string(), repl.to_string()));
    out
}

/// Bitwise operator replacement at `e`.
fn bitwise_edits(e: &Expr, chars: &Vec<char>) -> (r: Vec<(Loc, String, String)>)
    requires
        expr_ready(MutationType::BitwiseOperatorReplacement, *e, chars@),
    ensures
        edit_views(r@) == expr_edits(MutationType::BitwiseOperatorReplacement, *e, chars@),
{
    match &e.kind {
        ExprKind::BitwiseOr => single_edit(get_op_loc(e, chars), "|", "&"),
        ExprKind::BitwiseAnd => single_edit(get_op_loc(e, chars), "&", "|"),
        ExprKind::BitwiseXor => single_edit(get_op_loc(e, chars), "^", "&"),
        _ => {
            let out: Vec<(Loc, String, String)> = Vec::new();
            assert(edit_views(out@) =~= Seq::<Edit>::empty());
            out
        },
    }
}

/// Shift operator replacement at `e`.
fn shift_edits(e: &Expr, chars: &Vec<char>) -> (r: Vec<(Loc, String, String)>)
    requires
        expr_ready(MutationType::ShiftOperatorReplacement, *e, chars@),
    ensures
        edit_views(r@) == expr_edits(MutationType::ShiftOperatorReplacement, *e, chars@),
{
    match &e.kind {
        ExprKind::ShiftLeft => single_edit(get_op_loc(e, chars), "<<", ">>"),
        ExprKind::ShiftRight => single_edit(get_op_loc(e, chars), ">>", "<<"),
        _ => {
            let out: Vec<(Loc, String, String)> = Vec::new();
            assert(edit_views(out@) =~= Seq::<Edit>::empty());
            out
        },
    }
}

/// The relational replacements of `e` as strings.
fn rel_replacement_strings(e: &Expr) -> (r: Vec<String>)
    ensures
        string_views(r@) == rel_replacements(*e),
{
    let ordered = e.first_ty == SolType::Int || e.first_ty == SolType::Uint || e.first_ty
        == SolType::Rational;
    let lits: Vec<&str> = match &e.kind {
        ExprKind::Less => vec!["<=", "!=", "false"],
        ExprKind::LessEqual => vec!["<", "==", "true"],
        ExprKind::More => vec![">=", "!=", "false"],
        ExprKind::MoreEqual => vec![">", "==", "true"],
        ExprKind::Equal => if ordered {
            vec!["<=", ">=", "false"]
        } else {
            vec!["true", "false"]
        },
        ExprKind::NotEqual => if ordered {
            vec!["<", ">", "true"]
        } else {
            vec!["true", "false"]
        },
        _ => vec![],
    };
    let r = strings_of(&lits);
    assert(string_views(r@) =~= rel_replacements(*e));
    r
}

/// Relational operator replacement at `e`: `true` and `false` replace the
/// whole expression, the others replace the operator.
fn rel_edits(e: &Expr, chars: &Vec<char>) -> (r: Vec<(Loc, String, String)>)
    requires
        expr_ready(MutationType::RelationalOperatorReplacement, *e, chars@),
    ensures
        edit_views(r@) == expr_edits(MutationType::RelationalOperatorReplacement, *e, chars@),
{
    let mut out: Vec<(Loc, String, String)> = Vec::new();
    let reps = rel_replacement_strings(e);
    if reps.len() == 0 {
        assert(edit_views(out@) =~= expr_edits(
            MutationType::RelationalOperatorReplacement,
            *e,
            chars@,
        ));
        return out;
    }
    assert(is_relational(e.kind)) by {
        if !is_relational(e.kind) {
            assert(rel_replacements(*e).len() == 0);
        }
    }
    let loc = e.loc.unwrap();
    let expr_string = text_of(chars, loc);
    let rel_op_loc = get_op_loc(e, chars);
    let rel_op_string = text_of(chars, rel_op_loc);
    let ghost target = expr_edits(MutationType::RelationalOperatorReplacement, *e, chars@);
    let mut i: usize = 0;
    while i < reps.len()
        invariant
            i <= reps@.len(),
            string_views(reps@) == rel_replacements(*e),
            target == expr_edits(MutationType::RelationalOperatorReplacement, *e, chars@),
            target.len() == reps@.len(),
            loc == e.loc->0,
            expr_string@ == text_at(chars@, loc),
            rel_op_loc == op_loc(*e, chars@),
            rel_op_string@ == text_at(chars@, rel_op_loc),
            edit_views(out@) == target.take(i as int),
        decreases reps@.len() - i,
    {
        let r = &reps[i];
        let whole = strs_equal(r.as_str(), "true") || strs_equal(r.as_str(), "false");
        let ghost prev = out@;
        if whole {
            out.push((loc, expr_string.clone(), r.clone()));
        } else {
            out.push((rel_op_loc, rel_op_string.clone(), r.clone()));
        }
        proof {
            assert(rel_replacements(*e)[i as int] == reps@[i as int]@);
            assert(edit_views(out@) =~= edit_views(prev).push(target[i as int]));
            assert(target.take(i + 1) =~= target.take(i as int).push(target[i as int]));
        }
        i = i + 1;
    }
    assert(target.take(reps@.len() as int) == target);
    out
}

/// Logical operator replacement at `e`: `a && b` becomes `a`, `b` and
/// `false`; `a || b` becomes `a`, `b` and `true`.
fn logical_edits(e: &Expr, chars: &Vec<char>) -> (r: Vec<(Loc, String, String)>)
    requires
        expr_ready(MutationType::LogicalOperatorReplacement, *e, chars@),
    ensures
        edit_views(r@) == expr_edits(MutationType::LogicalOperatorReplacement, *e, chars@),
{
    let mut out: Vec<(Loc, String, String)> = Vec::new();
    let constant = match &e.kind {
        ExprKind::And => "false",
        ExprKind::Or => "true",
        _ => {
            assert(edit_views(out@) =~= Seq::<Edit>::empty());
            return out;
        },
    };
    let loc = e.loc.unwrap();
    let orig = text_of(chars, loc);
    out.push((loc, orig.clone(), text_of(chars, e.first.unwrap())));
    out.push((loc, orig.clone(), text_of(chars, e.second.unwrap())));
    out.push((loc, orig.clone(), constant.to_string()));
    assert(edit_views(out@) =~= expr_edits(MutationType::LogicalOperatorReplacement, *e, chars@));
    out
}

/// The literal replacements of `e` as strings.
fn literal_replacement_strings(e: &Expr) -> (r: Vec<String>)
    requires
        match e.kind {
            ExprKind::NumberLiteral(_, value) => is_decimal(value@),
            _ => true,
        },
    ensures
        string_views(r@) == literal_replacements(*e),
{
    let mut r: Vec<String> = Vec::new();
    match &e.kind {
        ExprKind::BoolLiteral(v) => {
            r.push(if *v {
                "false".to_string()
            } else {
                "true".to_string()
            });
        },
        ExprKind::NumberLiteral(ty, value) => match ty {
            SolType::Int => {
                if literal_is_zero(value.as_str()) {
                    r.push("-1".to_string());
                    r.push("1".to_string());
                } else {
                    r.push("0".to_string());
                    r.push(negated_literal(value.as_str()));
                    r.push(incremented_literal(value.as_str()));
                }
            },
            SolType::Uint => {
                if literal_is_zero(value.as_str()) {
                    r.push("1".to_string());
                } else {
                    r.push("0".to_string());
                    r.push(incremented_literal(value.as_str()));
                }
            },
            _ => {},
        },
        _ => {},
    }
    assert(string_views(r@) =~= literal_replacements(*e));
    r
}

/// Literal value replacement at `e`.
fn literal_edits(e: &Expr, chars: &Vec<char>) -> (r: Vec<(Loc, String, String)>)
    requires
        expr_ready(MutationType::LiteralValueReplacement, *e, chars@),
    ensures
        edit_views(r@) == expr_edits(MutationType::LiteralValueReplacement, *e, chars@),
{
    let loc = e.loc.unwrap();
    let orig = text_of(chars, loc);
    let reps = literal_replacement_strings(e);
    let mut out: Vec<(Loc, String, String)> = Vec::new();
    push_edits(&mut out, loc, &orig, &reps);
    assert(edit_views(out@) =~= expr_edits(MutationType::LiteralValueReplacement, *e, chars@));
    out
}

/// Expression value replacement at `e`: the whole expression becomes each
/// value of its type that differs from its text.
fn value_edits(e: &Expr, chars: &Vec<char>) -> (r: Vec<(Loc, String, String)>)
    requires
        expr_ready(MutationType::ExpressionValueReplacement, *e, chars@),
    ensures
        edit_views(r@) == expr_edits(MutationType::ExpressionValueReplacement, *e, chars@),
{
    let loc = e.loc.unwrap();
    let orig = text_of(chars, loc);
    let all = match e.ty {
        SolType::Uint => strings_of(&vec!["0", "1"]),
        SolType::Int => strings_of(&vec!["-1", "0", "1"]),
        SolType::Bool => strings_of(&vec!["true", "false"]),
        _ => Vec::new(),
    };
    assert(string_views(all@) =~= value_candidates(e.ty));
    let reps = strings_without(&all, orig.as_str());
    let mut out: Vec<(Loc, String, String)> = Vec::new();
    push_edits(&mut out, loc, &orig, &reps);
    assert(edit_views(out@) =~= expr_edits(MutationType::ExpressionValueReplacement, *e, chars@));
    out
}

/// Unary operator replacement at `e`: `-` and `~` replace each other.
fn unary_edits(e: &Expr, chars: &Vec<char>) -> (r: Vec<(Loc, String, String)>)
    requires
        expr_ready(MutationType::UnaryOperatorReplacement, *e, chars@),
    ensures
        edit_views(r@) == expr_edits(MutationType::UnaryOperatorReplacement, *e, chars@),
{
    let mut out: Vec<(Loc, String, String)> = Vec::new();
    match &e.kind {
        ExprKind::BitwiseNot | ExprKind::Negate => {
            let unary_op = get_operator(&e.kind);
            let all = strings_of(&vec!["-", "~"]);
            assert(string_views(all@) =~= seq!["-"@, "~"@]);
            let reps = strings_without(&all, unary_op);
            let un_loc = get_op_loc(e, chars);
            let ghost target = expr_edits(MutationType::UnaryOperatorReplacement, *e, chars@);
            let mut i: usize = 0;
            while i < reps.len()
                invariant
                    i <= reps@.len(),
                    target == expr_edits(MutationType::UnaryOperatorReplacement, *e, chars@),
                    string_views(reps@) == without(seq!["-"@, "~"@], op_symbol(e.kind)),
                    is_unary(e.kind),
                    un_loc == op_loc(*e, chars@),
                    unary_op@ == op_symbol(e.kind),
                    target.len() == reps@.len(),
                    edit_views(out@) == target.take(i as int),
                decreases reps@.len() - i,
            {
                let mut repl = " ".to_string();
                repl.append(reps[i].as_str());
                repl.append(" ");
                let ghost prev = out@;
                let orig = unary_op.to_string();
                out.push((un_loc, orig, repl));
                proof {
                    assert(edit_views(out@) =~= edit_views(prev).push(target[i as int]));
                    assert(target.take(i + 1) =~= target.take(i as int).push(target[i as int]));
                }
                i = i + 1;
            }
            assert(target.take(reps@.len() as int) == target);
        },
        _ => {
            assert(edit_views(out@) =~= Seq::<Edit>::empty());
        },
    }
    out
}

/// Index of the first occurrence of `pat` in `v[from..to]`, or `None`.
fn find_chars(v: &Vec<char>, pat: &Vec<char>, from: usize, to: usize) -> (r: Option<usize>)
    requires
        from <= to <= v@.len(),
    ensures
        match r {
            Some(i) => i == find_from(v@, pat@, from as int, to as int),
            None => find_from(v@, pat@, from as int, to as int) == -1,
        },
{
    let mut i = from;
    while pat.len() <= to - i
        invariant
            from <= i <= to <= v@.len(),
            find_from(v@, pat@, from as int, to as int) == find_from(
                v@,
                pat@,
                i as int,
                to as int,
            ),
        decreases to - i,
    {
        let mut j: usize = 0;
        let mut same = true;
        while j < pat.len()
            invariant
                i + pat@.len() <= to <= v@.len(),
                j <= pat@.len(),
                same == (forall|k: int| 0 <= k < j ==> v@[i + k] == pat@[k]),
            decreases pat@.len() - j,
        {
            if v[i + j] != pat[j] {
                same = false;
            }
            j = j + 1;
        }
        if same {
            assert(v@.subrange(i as int, i + pat@.len()) =~= pat@);
            return Some(i);
        }
        proof {
            let k0 = choose|k: int| 0 <= k < pat@.len() && v@[i + k] != pat@[k];
            assert(v@.subrange(i as int, i + pat@.len())[k0] != pat@[k0]);
        }
        i = i + 1;
    }
    None
}

/// Eliminating a delegate call at `e`: `delegatecall` becomes `call`.
fn delegate_edits(e: &Expr, chars: &Vec<char>) -> (r: Vec<(Loc, String, String)>)
    requires
        expr_ready(MutationType::ElimDelegateCall, *e, chars@),
    ensures
        edit_views(r@) == expr_edits(MutationType::ElimDelegateCall, *e, chars@),
{
    match &e.kind {
        ExprKind::DelegateCall => {
            let loc = e.loc.unwrap();
            let addr_loc = e.first.unwrap();
            let idx = addr_loc.end + 1;
            let pat = chars_of("delegatecall");
            let found = find_chars(chars, &pat, idx, loc.end);
            let start = found.unwrap();
            proof {
                assert(pat@.len() == 12) by {
                    reveal_strlit("delegatecall");
                }
                assert(start + 12 <= loc.end) by {
                    lemma_find_from_bounds(chars@, pat@, idx as int, loc.end as int);
                }
            }
            single_edit(Loc { file_no: loc.file_no, start, end: start + 12 }, "delegatecall", "call")
        },
        _ => {
            let out: Vec<(Loc, String, String)> = Vec::new();
            assert(edit_views(out@) =~= Seq::<Edit>::empty());
            out
        },
    }
}

/// A found occurrence lies in the searched range.
pub proof fn lemma_find_from_bounds(s: Seq<char>, pat: Seq<char>, i: int, to: int)
    ensures
        find_from(s, pat, i, to) >= 0 ==> i <= find_from(s, pat, i, to) && find_from(s, pat, i, to)
            + pat.len() <= to,
    decreases to + 1 - i,
{
    if i + pat.len() <= to && i >= 0 && i <= to && s.subrange(i, i + pat.len()) != pat {
        lemma_find_from_bounds(s, pat, i + 1, to);
    }
}

/// The replacements that `op` makes at `e`.
pub fn expr_edits_exec(op: MutationType, e: &Expr, chars: &Vec<char>) -> (r: Vec<
    (Loc, String, String),
>)
    requires
        expr_ready(op, *e, chars@),
    ensures
        edit_views(r@) == expr_edits(op, *e, chars@),
{
    match op {
        MutationType::ArithmeticOperatorReplacement => arith_edits(e, chars),
        MutationType::ShiftOperatorReplacement => shift_edits(e, chars),
        MutationType::BitwiseOperatorReplacement => bitwise_edits(e, chars),
        MutationType::RelationalOperatorReplacement => rel_edits(e, chars),
        MutationType::LogicalOperatorReplacement => logical_edits(e, chars),
        MutationType::LiteralValueReplacement => literal_edits(e, chars),
        MutationType::UnaryOperatorReplacement => unary_edits(e, chars),
        MutationType::ElimDelegateCall => delegate_edits(e, chars),
        MutationType::ExpressionValueReplacement => value_edits(e, chars),
        _ => {
            let out: Vec<(Loc, String, String)> = Vec::new();
            assert(edit_views(out@) =~= Seq::<Edit>::empty());
            out
        },
    }
}

} // verus!

verus! {

/// Statement deletion at `s`: a deletable statement becomes `assert(true)`.
pub fn stmt_edits_exec(op: MutationType, s: &Stmt, chars: &Vec<char>) -> (r: Vec<
    (Loc, String, String),
>)
    requires
        stmt_ready(*s, chars@),
    ensures
        edit_views(r@) == stmt_edits(op, *s, chars@),
{
    let deletable = match s.kind {
        StmtKind::Expression | StmtKind::Delete | StmtKind::Continue | StmtKind::Break
        | StmtKind::Revert | StmtKind::Emit | StmtKind::Return => true,
        _ => false,
    };
    if op == MutationType::StatementDeletion && deletable {
        let loc = s.loc.unwrap();
        let orig = text_of(chars, loc);
        let mut out: Vec<(Loc, String, String)> = Vec::new();
        out.push((loc, orig, "assert(true)".to_string()));
        assert(edit_views(out@) =~= stmt_edits(op, *s, chars@));
        out
    } else {
        let out: Vec<(Loc, String, String)> = Vec::new();
        assert(edit_views(out@) =~= stmt_edits(op, *s, chars@));
        out
    }
}

/// Planned edits stay inside the text they are made in.
pub proof fn lemma_edits_in_text(op: MutationType, e: Expr, chars: Seq<char>)
    requires
        expr_ready(op, e, chars),
    ensures
        forall|i: int|
            0 <= i < expr_edits(op, e, chars).len() ==> (#[trigger] expr_edits(op, e, chars)[i]).0.start
                <= chars.len() && expr_edits(op, e, chars)[i].0.file_no == e.loc->0.file_no,
{
    let ed = expr_edits(op, e, chars);
    if op == MutationType::ElimDelegateCall && e.kind is DelegateCall {
        lemma_find_from_bounds(chars, "delegatecall"@, e.first->0.end + 1, e.loc->0.end as int);
    }
    if op == MutationType::RelationalOperatorReplacement && !is_relational(e.kind) {
        assert(rel_replacements(e).len() == 0);
    }
}

} // verus!

verus! {

/// Whether the operator kind sits between two operands.
fn kind_is_infix(k: &ExprKind) -> (r: bool)
    ensures
        r == crate::solidity::is_infix(*k),
{
    match k {
        ExprKind::Add | ExprKind::Subtract | ExprKind::Multiply | ExprKind::Divide
        | ExprKind::Modulo | ExprKind::BitwiseOr | ExprKind::BitwiseAnd | ExprKind::BitwiseXor
        | ExprKind::ShiftLeft | ExprKind::ShiftRight | ExprKind::Assign | ExprKind::More
        | ExprKind::Less | ExprKind::MoreEqual | ExprKind::LessEqual | ExprKind::Equal
        | ExprKind::NotEqual | ExprKind::Or | ExprKind::And | ExprKind::Power
        | ExprKind::ConditionalOperator => true,
        _ => false,
    }
}

/// Tests [`op_loc_ok`].
pub fn check_op_loc(e: &Expr, chars: &Vec<char>) -> (r: bool)
    ensures
        r == (e.loc is Some && op_loc_ok(*e, chars@)),
{
    let loc = match e.loc {
        Some(l) => l,
        None => return false,
    };
    let n = chars.len();
    if kind_is_infix(&e.kind) {
        let (f, s) = match (e.first, e.second) {
            (Some(f), Some(s)) => (f, s),
            _ => return false,
        };
        let op = chars_of(get_operator(&e.kind));
        if op.len() == 0 || !(f.end <= s.start && s.start <= n) {
            return false;
        }
        if s.start > usize::MAX - op.len() {
            return false;
        }
        let c = op[0];
        let mut i = f.end;
        proof {
            crate::solidity::lemma_index_of_from(chars@, c, f.end as int);
        }
        while i < s.start && chars[i] != c
            invariant
                f.end <= i <= s.start <= chars@.len(),
                crate::solidity::index_of_from(chars@, c, f.end as int)
                    == crate::solidity::index_of_from(chars@, c, i as int),
            decreases s.start - i,
        {
            i = i + 1;
        }
        proof {
            crate::solidity::lemma_index_of_from(chars@, c, i as int);
        }
        if i >= s.start {
            return false;
        }
        f.file_no == loc.file_no && i + op.len() <= n
    } else {
        let pre = match e.kind {
            ExprKind::PreIncrement | ExprKind::PreDecrement | ExprKind::Not
            | ExprKind::BitwiseNot | ExprKind::Negate => true,
            _ => false,
        };
        let post = match e.kind {
            ExprKind::PostIncrement | ExprKind::PostDecrement => true,
            _ => false,
        };
        let len = chars_of(get_operator(&e.kind)).len();
        if pre {
            loc.start <= usize::MAX - len && loc.start <= loc.start + len && loc.start + len <= n
        } else if post {
            loc.end >= len && loc.end - len <= loc.end && loc.end <= n
        } else {
            false
        }
    }
}

/// Tests [`expr_ready`].
pub fn check_expr_ready(op: MutationType, e: &Expr, chars: &Vec<char>) -> (r: bool)
    ensures
        r == expr_ready(op, *e, chars@),
{
    let loc = match e.loc {
        Some(l) => l,
        None => return false,
    };
    if !(loc.start <= loc.end && loc.end <= chars.len()) {
        return false;
    }
    match op {
        MutationType::ArithmeticOperatorReplacement => match e.kind {
            ExprKind::Divide
            | ExprKind::Modulo | ExprKind::Multiply | ExprKind::Subtract | ExprKind::Add
            | ExprKind::Power => check_op_loc(e, chars),
            _ => true,
        },
        MutationType::BitwiseOperatorReplacement => match e.kind {
            ExprKind::BitwiseOr | ExprKind::BitwiseAnd | ExprKind::BitwiseXor => check_op_loc(
                e,
                chars,
            ),
            _ => true,
        },
        MutationType::ShiftOperatorReplacement => match e.kind {
            ExprKind::ShiftLeft | ExprKind::ShiftRight => check_op_loc(e, chars),
            _ => true,
        },
        MutationType::RelationalOperatorReplacement => match e.kind {
            ExprKind::Less | ExprKind::LessEqual | ExprKind::More | ExprKind::MoreEqual
            | ExprKind::Equal | ExprKind::NotEqual => check_op_loc(e, chars),
            _ => true,
        },
        MutationType::UnaryOperatorReplacement => match e.kind {
            ExprKind::BitwiseNot | ExprKind::Negate => check_op_loc(e, chars),
            _ => true,
        },
        MutationType::LogicalOperatorReplacement => match e.kind {
            ExprKind::And | ExprKind::Or => match (e.first, e.second) {
                (Some(f), Some(s)) => f.start <= f.end && f.end <= chars.len() && s.start
                    <= s.end && s.end <= chars.len(),
                _ => false,
            },
            _ => true,
        },
        MutationType::LiteralValueReplacement => match &e.kind {
            ExprKind::NumberLiteral(_, value) => crate::literal::check_decimal(value.as_str()),
            _ => true,
        },
        MutationType::ElimDelegateCall => match e.kind {
            ExprKind::DelegateCall => match e.first {
                Some(a) => {
                    if a.end >= loc.end {
                        return false;
                    }
                    let pat = chars_of("delegatecall");
                    find_chars(chars, &pat, a.end + 1, loc.end).is_some()
                },
                None => false,
            },
            _ => true,
        },
        _ => true,
    }
}

} // verus!

verus! {

proof fn lemma_without_excludes(s: Seq<Seq<char>>, x: Seq<char>)
    ensures
        !without(s, x).contains(x),
        forall|y: Seq<char>| without(s, x).contains(y) ==> s.contains(y),
    decreases s.len(),
{
    if s.len() > 0 {
        let w = without(s.drop_last(), x);
        lemma_without_excludes(s.drop_last(), x);
        assert forall|y: Seq<char>| without(s, x).contains(y) implies s.contains(y) by {
            if w.contains(y) {
                let k = choose|k: int| 0 <= k < w.len() && w[k] == y;
                assert(s.drop_last().contains(y));
                let j = choose|j: int| 0 <= j < s.drop_last().len() && s.drop_last()[j] == y;
                assert(s[j] == y);
            } else {
                assert(s[s.len() - 1] == y);
            }
        }
        if s.last() != x {
            assert forall|k: int| 0 <= k < without(s, x).len() implies without(s, x)[k] != x by {
                if k < w.len() {
                    assert(without(s, x)[k] == w[k]);
                }
            }
        }
    }
}

/// Arithmetic-operator replacement replaces an arithmetic operator with
/// another: no replacement is the operator itself, and each is one of
/// `+ - * / ** %`.
pub proof fn law_arith_replacement_changes_operator(k: ExprKind, ty: SolType)
    ensures
        !arith_replacements(k, ty).contains(op_symbol(k)),
        forall|r: Seq<char>|
            #[trigger] arith_replacements(k, ty).contains(r) ==> seq!["+"@, "-"@, "*"@, "/"@, "**"@, "%"@].contains(r),
{
    let all = seq!["+"@, "-"@, "*"@, "/"@, "**"@, "%"@];
    let base = without(all, op_symbol(k));
    lemma_without_excludes(all, op_symbol(k));
    lemma_without_excludes(base, "**"@);
}

/// Relational-operator replacement replaces a relational expression with
/// something else: no replacement is the operator itself.
pub proof fn law_rel_replacement_changes_operator(e: Expr)
    ensures
        !rel_replacements(e).contains(op_symbol(e.kind)),
{
    reveal_strlit("<");
    reveal_strlit("<=");
    reveal_strlit(">");
    reveal_strlit(">=");
    reveal_strlit("==");
    reveal_strlit("!=");
    reveal_strlit("true");
    reveal_strlit("false");
    let r = rel_replacements(e);
    if r.contains(op_symbol(e.kind)) {
        let j = choose|j: int| 0 <= j < r.len() && r[j] == op_symbol(e.kind);
        assert(r[j].len() == op_symbol(e.kind).len());
        assert(r[j][0] == op_symbol(e.kind)[0]);
    }
}

} // verus!

verus! {

/// Literal-value replacement replaces a number with another number: each
/// replacement of a numeric literal is decimal text of a different value.
pub proof fn law_literal_replacement_changes_value(e: Expr)
    ensures
        e.kind matches ExprKind::NumberLiteral(_, v) ==> forall|r: Seq<char>|
            #[trigger] literal_replacements(e).contains(r) ==> is_decimal(r) && decimal_value(r) != decimal_value(v@),
{
    reveal_strlit("-1");
    reveal_strlit("1");
    reveal_strlit("0");
    if let ExprKind::NumberLiteral(ty, v) = e.kind {
        let x = decimal_value(v@);
        crate::literal::law_decimal_round_trip(-x);
        crate::literal::law_decimal_round_trip(x + 1);
        let one = "1"@;
        let zero = "0"@;
        let minus_one = "-1"@;
        assert(decimal_value(one) == 1) by {
            assert(one.drop_last() =~= Seq::<char>::empty());
            assert(one[0] == '1');
            assert(('1' as u32) == 49);
            assert(('0' as u32) == 48);
            assert(crate::literal::digits_value(one) == crate::literal::digits_value(one.drop_last()) * 10
                + crate::literal::digit_value(one.last()));
        }
        assert(decimal_value(zero) == 0) by {
            assert(zero.drop_last() =~= Seq::<char>::empty());
            assert(zero[0] == '0');
            assert(crate::literal::digits_value(zero) == crate::literal::digits_value(zero.drop_last())
                * 10 + crate::literal::digit_value(zero.last()));
        }
        assert(decimal_value(minus_one) == -1) by {
            assert(minus_one.drop_first() =~= one);
        }
        assert(is_decimal(minus_one)) by {
            assert(minus_one.drop_first() =~= one);
        }
    }
}

} // verus!

verus! {

/// Where an operator between two operands is found: after the first operand
/// and before the second, at a character that starts the operator, and as
/// long as the operator.
proof fn lemma_infix_op_loc(e: Expr, chars: Seq<char>)
    requires
        crate::solidity::is_infix(e.kind),
        e.loc is Some,
        op_loc_ok(e, chars),
    ensures
        e.first->0.end <= op_loc(e, chars).start < e.second->0.start,
        op_loc(e, chars).end == op_loc(e, chars).start + op_symbol(e.kind).len(),
        chars[op_loc(e, chars).start as int] == op_symbol(e.kind)[0],
        op_loc(e, chars).file_no == e.loc->0.file_no,
        op_loc(e, chars).end <= chars.len(),
{
    crate::solidity::lemma_index_of_from(chars, op_symbol(e.kind)[0], e.first->0.end as int);
}

/// A found occurrence of a pattern is the pattern.
proof fn lemma_find_from_matches(s: Seq<char>, pat: Seq<char>, i: int, to: int)
    ensures
        find_from(s, pat, i, to) >= 0 ==> s.subrange(
            find_from(s, pat, i, to),
            find_from(s, pat, i, to) + pat.len(),
        ) == pat,
    decreases to + 1 - i,
{
    if i + pat.len() <= to && i >= 0 && i <= to && s.subrange(i, i + pat.len()) != pat {
        lemma_find_from_matches(s, pat, i + 1, to);
    }
}

/// Relational operator replacement: each replacement that puts `true` or
/// `false` in place of a comparison replaces the whole comparison, its
/// location and its text; each other replacement replaces the operator
/// alone, found between the two operands, starting with the operator's first
/// character and as long as the operator. No replacement keeps the operator.
pub proof fn law_relational_replacement_targets(e: Expr, chars: Seq<char>)
    requires
        is_relational(e.kind),
        expr_ready(MutationType::RelationalOperatorReplacement, e, chars),
    ensures
        expr_edits(MutationType::RelationalOperatorReplacement, e, chars).len() >= 2,
        forall|i: int|
            0 <= i < expr_edits(MutationType::RelationalOperatorReplacement, e, chars).len()
                ==> {
                let ed = #[trigger] expr_edits(
                    MutationType::RelationalOperatorReplacement,
                    e,
                    chars,
                )[i];
                &&& (ed.2 == "true"@ || ed.2 == "false"@) ==> {
                    &&& ed.0 == e.loc->0
                    &&& ed.1 == chars.subrange(e.loc->0.start as int, e.loc->0.end as int)
                }
                &&& !(ed.2 == "true"@ || ed.2 == "false"@) ==> {
                    &&& e.first->0.end <= ed.0.start < e.second->0.start
                    &&& ed.0.end == ed.0.start + op_symbol(e.kind).len()
                    &&& ed.0.file_no == e.loc->0.file_no
                    &&& chars[ed.0.start as int] == op_symbol(e.kind)[0]
                    &&& ed.1 == chars.subrange(ed.0.start as int, ed.0.end as int)
                    &&& ed.2 != op_symbol(e.kind)
                }
            },
        e.kind is Less ==> expr_edits(
            MutationType::RelationalOperatorReplacement,
            e,
            chars,
        )[2].2 == "false"@,
{
    reveal_strlit("<");
    reveal_strlit("<=");
    reveal_strlit(">");
    reveal_strlit(">=");
    reveal_strlit("==");
    reveal_strlit("!=");
    reveal_strlit("true");
    reveal_strlit("false");
    lemma_infix_op_loc(e, chars);
    let eds = expr_edits(MutationType::RelationalOperatorReplacement, e, chars);
    let reps = rel_replacements(e);
    assert(eds.len() == reps.len());
    assert forall|i: int| 0 <= i < eds.len() implies {
        let ed = #[trigger] eds[i];
        !(ed.2 == "true"@ || ed.2 == "false"@) ==> ed.2 != op_symbol(e.kind)
    } by {
        assert(eds[i].2 == reps[i]);
    }
}

/// Unary operator replacement: `-x` and `~x` each get one mutant, which
/// replaces the operator alone (the first character of the expression, so
/// that the operand is kept) with the other operator.
pub proof fn law_unary_replacement_target(e: Expr, chars: Seq<char>)
    requires
        is_unary(e.kind),
        expr_ready(MutationType::UnaryOperatorReplacement, e, chars),
    ensures
        expr_edits(MutationType::UnaryOperatorReplacement, e, chars).len() == 1,
        expr_edits(MutationType::UnaryOperatorReplacement, e, chars)[0].0 == (Loc {
            file_no: e.loc->0.file_no,
            start: e.loc->0.start,
            end: (e.loc->0.start + 1) as usize,
        }),
        e.loc->0.start + 1 <= chars.len(),
        e.kind is Negate ==> expr_edits(MutationType::UnaryOperatorReplacement, e, chars)[0].1
            == "-"@ && expr_edits(MutationType::UnaryOperatorReplacement, e, chars)[0].2
            == " ~ "@,
        e.kind is BitwiseNot ==> expr_edits(MutationType::UnaryOperatorReplacement, e, chars)[0].1
            == "~"@ && expr_edits(MutationType::UnaryOperatorReplacement, e, chars)[0].2
            == " - "@,
{
    reveal_strlit("-");
    reveal_strlit("~");
    reveal_strlit(" ");
    reveal_strlit(" ~ ");
    reveal_strlit(" - ");
    let all = seq!["-"@, "~"@];
    let reps = without(all, op_symbol(e.kind));
    assert(all.drop_last() =~= seq!["-"@]);
    assert(all.drop_last().drop_last() =~= Seq::<Seq<char>>::empty());
    assert(seq!["-"@].drop_last() =~= Seq::<Seq<char>>::empty());
    let x = op_symbol(e.kind);
    assert(without(Seq::<Seq<char>>::empty(), x) == Seq::<Seq<char>>::empty());
    assert(without(seq!["-"@], x) == if x == "-"@ {
        Seq::<Seq<char>>::empty()
    } else {
        seq!["-"@]
    }) by {
        assert(seq!["-"@].last() == "-"@);
        assert(Seq::<Seq<char>>::empty().push("-"@) =~= seq!["-"@]);
    }
    assert(all.last() == "~"@);
    assert(reps == if x == "~"@ {
        without(seq!["-"@], x)
    } else {
        without(seq!["-"@], x).push("~"@)
    });
    assert("-"@ != "~"@) by {
        assert("-"@[0] != "~"@[0]);
    }
    if e.kind is Negate {
        assert(reps =~= seq!["~"@]);
        assert(" "@ + reps[0] + " "@ =~= " ~ "@);
    } else {
        assert(reps =~= seq!["-"@]);
        assert(" "@ + reps[0] + " "@ =~= " - "@);
    }
}

/// Bitwise operator replacement: `a | b`, `a & b` and `a ^ b` each get one
/// mutant, which replaces the operator alone: a one-character range between
/// the two operands whose text is the operator; `|` and `^` become `&`, and
/// `&` becomes `|`.
pub proof fn law_bitwise_replacement_target(e: Expr, chars: Seq<char>)
    requires
        is_bitwise(e.kind),
        expr_ready(MutationType::BitwiseOperatorReplacement, e, chars),
    ensures
        expr_edits(MutationType::BitwiseOperatorReplacement, e, chars).len() == 1,
        ({
            let ed = expr_edits(MutationType::BitwiseOperatorReplacement, e, chars)[0];
            &&& e.first->0.end <= ed.0.start < e.second->0.start
            &&& ed.0.end == ed.0.start + 1
            &&& ed.0.file_no == e.loc->0.file_no
            &&& chars.subrange(ed.0.start as int, ed.0.end as int) == ed.1
            &&& ed.1 == op_symbol(e.kind)
            &&& ed.2 == if e.kind is BitwiseAnd {
                "|"@
            } else {
                "&"@
            }
        }),
{
    reveal_strlit("|");
    reveal_strlit("&");
    reveal_strlit("^");
    lemma_infix_op_loc(e, chars);
    let l = op_loc(e, chars);
    assert(chars.subrange(l.start as int, l.end as int) =~= op_symbol(e.kind));
}

/// Shift operator replacement: `a << b` and `a >> b` each get one mutant,
/// which replaces the operator alone: a two-character range between the two
/// operands that starts with the operator's character; `<<` and `>>` replace
/// each other.
pub proof fn law_shift_replacement_target(e: Expr, chars: Seq<char>)
    requires
        is_shift(e.kind),
        expr_ready(MutationType::ShiftOperatorReplacement, e, chars),
    ensures
        expr_edits(MutationType::ShiftOperatorReplacement, e, chars).len() == 1,
        ({
            let ed = expr_edits(MutationType::ShiftOperatorReplacement, e, chars)[0];
            &&& e.first->0.end <= ed.0.start < e.second->0.start
            &&& ed.0.end == ed.0.start + 2
            &&& ed.0.file_no == e.loc->0.file_no
            &&& chars[ed.0.start as int] == if e.kind is ShiftLeft {
                '<'
            } else {
                '>'
            }
            &&& ed.1 == op_symbol(e.kind)
            &&& ed.2 == if e.kind is ShiftLeft {
                ">>"@
            } else {
                "<<"@
            }
        }),
{
    reveal_strlit("<<");
    reveal_strlit(">>");
    lemma_infix_op_loc(e, chars);
}

/// Delegate-call elimination: a raw `delegatecall` gets one mutant, which
/// replaces the word `delegatecall` (found after the called address, inside
/// the expression) with `call`.
pub proof fn law_delegate_call_target(e: Expr, chars: Seq<char>)
    requires
        e.kind is DelegateCall,
        expr_ready(MutationType::ElimDelegateCall, e, chars),
    ensures
        expr_edits(MutationType::ElimDelegateCall, e, chars).len() == 1,
        ({
            let ed = expr_edits(MutationType::ElimDelegateCall, e, chars)[0];
            &&& e.first->0.end < ed.0.start
            &&& ed.0.end <= e.loc->0.end
            &&& ed.0.file_no == e.loc->0.file_no
            &&& chars.subrange(ed.0.start as int, ed.0.end as int) == "delegatecall"@
            &&& ed.1 == "delegatecall"@
            &&& ed.2 == "call"@
        }),
{
    reveal_strlit("delegatecall");
    let to = e.loc->0.end as int;
    let from = e.first->0.end + 1;
    lemma_find_from_bounds(chars, "delegatecall"@, from, to);
    lemma_find_from_matches(chars, "delegatecall"@, from, to);
}

/// Statement deletion: every expression, `delete`, `continue`, `break`,
/// `revert`, `emit` and `return` statement gets exactly one mutant, which
/// replaces the whole statement with `assert(true)`; no other statement, and
/// no other operator, replaces a statement.
pub proof fn law_statement_deletion_targets(op: MutationType, s: Stmt, chars: Seq<char>)
    requires
        stmt_ready(s, chars),
    ensures
        (op == MutationType::StatementDeletion && (s.kind == StmtKind::Expression || s.kind
            == StmtKind::Delete || s.kind == StmtKind::Continue || s.kind == StmtKind::Break
            || s.kind == StmtKind::Revert || s.kind == StmtKind::Emit || s.kind
            == StmtKind::Return)) ==> stmt_edits(op, s, chars) == seq![
            (
                s.loc->0,
                chars.subrange(s.loc->0.start as int, s.loc->0.end as int),
                "assert(true)"@,
            ),
        ],
        !(op == MutationType::StatementDeletion && (s.kind == StmtKind::Expression || s.kind
            == StmtKind::Delete || s.kind == StmtKind::Continue || s.kind == StmtKind::Break
            || s.kind == StmtKind::Revert || s.kind == StmtKind::Emit || s.kind
            == StmtKind::Return)) ==> stmt_edits(op, s, chars).len() == 0,
{
}

} // verus!
