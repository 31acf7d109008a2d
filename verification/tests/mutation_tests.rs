//! The mutation operators on small Solidity programs, parsed and resolved
//! by solang and turned into the library's model.
use gambit::mutation::{Loc, Mutant, MutationType};
use gambit::mutator::{Mutator, MutatorConf};
use gambit::solidity::{visits_nested, Expr, ExprKind, FunctionDef, Namespace, SolType, SourceFile, Stmt, StmtKind};
use gambit::test_util::wrap_solidity;
use solang::file_resolver::FileResolver;
use solang::sema::ast::{self, CallTy, Expression, RetrieveType, Statement, Type};
use solang::sema::Recurse;
use solang_parser::pt::{self, CodeLocation};
use std::collections::HashSet;
use std::path::Path;

/// For each file, the character index of each byte offset.
struct CharOffsets {
    tables: Vec<Vec<usize>>,
}

impl CharOffsets {
    fn new(texts: &[String]) -> Self {
        let tables = texts
            .iter()
            .map(|t| {
                let mut table = vec![0; t.len() + 1];
                let mut n = 0;
                for (b, c) in t.char_indices() {
                    for k in 0..c.len_utf8() {
                        table[b + k] = n;
                    }
                    n += 1;
                }
                table[t.len()] = n;
                table
            })
            .collect();
        CharOffsets { tables }
    }

    fn loc(&self, l: &pt::Loc) -> Option<Loc> {
        match l {
            pt::Loc::File(file_no, start, end) => {
                let table = self.tables.get(*file_no)?;
                Some(Loc {
                    file_no: *file_no,
                    start: *table.get(*start)?,
                    end: *table.get(*end)?,
                })
            }
            _ => None,
        }
    }
}

fn sol_type(ty: &Type) -> SolType {
    match ty {
        Type::Int(_) => SolType::Int,
        Type::Uint(_) => SolType::Uint,
        Type::Rational => SolType::Rational,
        Type::Address(_) => SolType::Address,
        Type::Bool => SolType::Bool,
        _ => SolType::Other,
    }
}

/// The kind of an expression, as the library tells kinds apart.
fn kind_of(e: &Expression) -> ExprKind {
    match e {
        Expression::Add { .. } => ExprKind::Add,
        Expression::Subtract { .. } => ExprKind::Subtract,
        Expression::Multiply { .. } => ExprKind::Multiply,
        Expression::Divide { .. } => ExprKind::Divide,
        Expression::Modulo { .. } => ExprKind::Modulo,
        Expression::Power { .. } => ExprKind::Power,
        Expression::BitwiseOr { .. } => ExprKind::BitwiseOr,
        Expression::BitwiseAnd { .. } => ExprKind::BitwiseAnd,
        Expression::BitwiseXor { .. } => ExprKind::BitwiseXor,
        Expression::ShiftLeft { .. } => ExprKind::ShiftLeft,
        Expression::ShiftRight { .. } => ExprKind::ShiftRight,
        Expression::Assign { .. } => ExprKind::Assign,
        Expression::More { .. } => ExprKind::More,
        Expression::Less { .. } => ExprKind::Less,
        Expression::MoreEqual { .. } => ExprKind::MoreEqual,
        Expression::LessEqual { .. } => ExprKind::LessEqual,
        Expression::Equal { .. } => ExprKind::Equal,
        Expression::NotEqual { .. } => ExprKind::NotEqual,
        Expression::Or { .. } => ExprKind::Or,
        Expression::And { .. } => ExprKind::And,
        Expression::PreIncrement { .. } => ExprKind::PreIncrement,
        Expression::PreDecrement { .. } => ExprKind::PreDecrement,
        Expression::PostIncrement { .. } => ExprKind::PostIncrement,
        Expression::PostDecrement { .. } => ExprKind::PostDecrement,
        Expression::Not { .. } => ExprKind::Not,
        Expression::BitwiseNot { .. } => ExprKind::BitwiseNot,
        Expression::Negate { .. } => ExprKind::Negate,
        Expression::ConditionalOperator { .. } => ExprKind::ConditionalOperator,
        Expression::StringCompare { .. } => ExprKind::StringCompare,
        Expression::BoolLiteral { value, .. } => ExprKind::BoolLiteral(*value),
        Expression::NumberLiteral { ty, value, .. } => {
            ExprKind::NumberLiteral(sol_type(ty), value.to_string())
        }
        Expression::ExternalFunctionCallRaw {
            ty: CallTy::Delegate,
            ..
        } => ExprKind::DelegateCall,
        _ => ExprKind::Other,
    }
}

/// The declared type of an expression node, where it has one.
fn node_type(e: &Expression) -> SolType {
    match e {
        Expression::Add { ty, .. }
        | Expression::Subtract { ty, .. }
        | Expression::Multiply { ty, .. }
        | Expression::Divide { ty, .. }
        | Expression::Modulo { ty, .. }
        | Expression::Power { ty, .. }
        | Expression::BitwiseOr { ty, .. }
        | Expression::BitwiseAnd { ty, .. }
        | Expression::BitwiseXor { ty, .. }
        | Expression::ShiftLeft { ty, .. }
        | Expression::ShiftRight { ty, .. }
        | Expression::Assign { ty, .. }
        | Expression::PreIncrement { ty, .. }
        | Expression::PreDecrement { ty, .. }
        | Expression::PostIncrement { ty, .. }
        | Expression::PostDecrement { ty, .. }
        | Expression::BitwiseNot { ty, .. }
        | Expression::Negate { ty, .. }
        | Expression::ConditionalOperator { ty, .. }
        | Expression::NumberLiteral { ty, .. } => sol_type(ty),
        _ => SolType::Other,
    }
}

/// The operands of a node that mutation reads: the first with its type, and
/// the second.
fn operands(e: &Expression) -> (Option<&Expression>, Option<&Expression>) {
    match e {
        Expression::Add { left, right, .. }
        | Expression::Subtract { left, right, .. }
        | Expression::Multiply { left, right, .. }
        | Expression::Divide { left, right, .. }
        | Expression::Modulo { left, right, .. }
        | Expression::BitwiseOr { left, right, .. }
        | Expression::BitwiseAnd { left, right, .. }
        | Expression::BitwiseXor { left, right, .. }
        | Expression::ShiftLeft { left, right, .. }
        | Expression::ShiftRight { left, right, .. }
        | Expression::Assign { left, right, .. }
        | Expression::More { left, right, .. }
        | Expression::Less { left, right, .. }
        | Expression::MoreEqual { left, right, .. }
        | Expression::LessEqual { left, right, .. }
        | Expression::Equal { left, right, .. }
        | Expression::NotEqual { left, right, .. }
        | Expression::Or { left, right, .. }
        | Expression::And { left, right, .. } => (Some(left), Some(right)),
        Expression::Power { base, exp, .. } => (Some(base), Some(exp)),
        Expression::ConditionalOperator {
            cond, true_option, ..
        } => (Some(cond), Some(true_option)),
        Expression::ExternalFunctionCallRaw { address, .. } => (Some(address), None),
        _ => (None, None),
    }
}

fn is_relational(e: &Expression) -> bool {
    matches!(
        e,
        Expression::More { .. }
            | Expression::Less { .. }
            | Expression::MoreEqual { .. }
            | Expression::LessEqual { .. }
            | Expression::Equal { .. }
            | Expression::NotEqual { .. }
    )
}

fn convert_expr(e: &Expression, offsets: &CharOffsets) -> Expr {
    let (first, second) = operands(e);
    let first_ty = match first {
        Some(f) if is_relational(e) => sol_type(&f.ty()),
        Some(f) => node_type(f),
        None => SolType::Other,
    };
    Expr {
        kind: kind_of(e),
        loc: offsets.loc(&e.loc()),
        ty: node_type(e),
        first: first.and_then(|f| offsets.loc(&f.loc())),
        first_ty,
        second: second.and_then(|s| offsets.loc(&s.loc())),
    }
}

/// The nodes of an expression in the order mutation visits them.
fn collect_node(e: &Expression, acc: &mut Vec<Expression>) -> bool {
    acc.push(e.clone());
    true
}

fn nodes_of(e: &Expression) -> Vec<Expression> {
    let mut acc = vec![];
    e.recurse(&mut acc, collect_node);
    acc
}

fn stmt_kind(s: &Statement) -> StmtKind {
    match s {
        Statement::Block { .. } => StmtKind::Block,
        Statement::VariableDecl(..) => StmtKind::VariableDecl,
        Statement::If(..) => StmtKind::If,
        Statement::While(..) => StmtKind::While,
        Statement::For { .. } => StmtKind::For,
        Statement::DoWhile(..) => StmtKind::DoWhile,
        Statement::Expression(..) => StmtKind::Expression,
        Statement::Delete(..) => StmtKind::Delete,
        Statement::Destructure(..) => StmtKind::Destructure,
        Statement::Continue(..) => StmtKind::Continue,
        Statement::Break(_) => StmtKind::Break,
        Statement::Return(_, _) => StmtKind::Return,
        Statement::Revert { .. } => StmtKind::Revert,
        Statement::Emit { .. } => StmtKind::Emit,
        Statement::TryCatch(_, _, _) => StmtKind::TryCatch,
        Statement::Underscore(_) => StmtKind::Underscore,
        Statement::Assembly(_, _) => StmtKind::Assembly,
    }
}

/// The expression mutation visits in a statement, if any.
fn stmt_expression(s: &Statement) -> Option<&Expression> {
    match s {
        Statement::VariableDecl(_, _, _, Some(e)) => Some(e.as_ref()),
        Statement::If(_, _, c, _, _) | Statement::While(_, _, c, _) | Statement::DoWhile(_, _, _, c) => {
            Some(c)
        }
        Statement::For { cond, .. } => cond.as_ref(),
        Statement::Expression(_, _, e) | Statement::Delete(_, _, e) | Statement::Destructure(_, _, e) => {
            Some(e)
        }
        Statement::Return(_, rv) => rv.as_ref(),
        _ => None,
    }
}

/// The parts of an expression statement that fallback operators try before
/// the expression itself.
fn fallback_parts(s: &Statement) -> Vec<&Expression> {
    match s {
        Statement::Expression(_, _, e) => match e {
            Expression::Assign { right, .. } => vec![right.as_ref()],
            Expression::Constructor { args, .. }
            | Expression::Builtin { args, .. }
            | Expression::InternalFunctionCall { args, .. }
            | Expression::ExternalFunctionCall { args, .. } => args.iter().collect(),
            _ => vec![],
        },
        _ => vec![],
    }
}

fn convert_stmt(s: &Statement, offsets: &CharOffsets) -> Stmt {
    let expr = match stmt_expression(s) {
        Some(e) => nodes_of(e).iter().map(|n| convert_expr(n, offsets)).collect(),
        None => vec![],
    };
    Stmt {
        kind: stmt_kind(s),
        loc: offsets.loc(&s.loc()),
        expr,
        fallback_parts: fallback_parts(s)
            .into_iter()
            .map(|e| convert_expr(e, offsets))
            .collect(),
    }
}

/// The statements of a body in the order mutation visits them: each before
/// the statements nested in it (none below placeholders and assembly).
fn collect_statement(s: &Statement, acc: &mut Vec<Statement>) -> bool {
    acc.push(s.clone());
    visits_nested(&stmt_kind(s))
}

fn statements_of(body: &[Statement]) -> Vec<Statement> {
    let mut acc = vec![];
    for s in body {
        s.recurse(&mut acc, collect_statement);
    }
    acc
}

/// The path of `path` relative to the import path it was found under, or
/// the path itself.
fn import_relative(path: &Path, import_no: Option<usize>, resolver: &FileResolver) -> String {
    if let Some(no) = import_no {
        if let Some((_, root)) = resolver.get_import_paths().get(no) {
            if let Ok(rel) = path.strip_prefix(root) {
                return rel.to_string_lossy().to_string();
            }
        }
    }
    path.to_string_lossy().to_string()
}

/// The library's model of a resolved program.
fn namespace(ns: &ast::Namespace, resolver: &FileResolver) -> Namespace {
    let texts: Vec<String> = ns
        .files
        .iter()
        .map(|f| {
            f.cache_no
                .and_then(|n| resolver.get_contents_of_file_no(n))
                .map(|c| c.to_string())
                .unwrap_or_default()
        })
        .collect();
    let offsets = CharOffsets::new(&texts);
    let files = ns
        .files
        .iter()
        .zip(texts.iter())
        .map(|(f, text)| SourceFile {
            path: f.path.to_string_lossy().to_string(),
            sol_path: import_relative(&f.path, f.import_no, resolver),
            text: text.clone(),
        })
        .collect();
    let functions = ns
        .functions
        .iter()
        .map(|f| FunctionDef {
            name: f.id.name.clone(),
            file_no: f.loc.try_file_no().unwrap_or(usize::MAX),
            contract: f.contract_no.map(|c| ns.contracts[c].id.name.clone()),
            is_accessor: f.is_accessor,
            has_body: f.has_body,
            body: statements_of(&f.body)
                .iter()
                .map(|s| convert_stmt(s, &offsets))
                .collect(),
        })
        .collect();
    Namespace { files, functions }
}

/// Mutates a program held in memory with `ops`.
fn apply_mutation_to_source(source: &str, ops: &Vec<MutationType>) -> Vec<Mutant> {
    let name = "Wrapper.sol";
    let mut resolver = FileResolver::default();
    resolver.set_file_contents(name, source.to_string());
    let ns = solang::parse_and_resolve(name.as_ref(), &mut resolver, solang::Target::EVM);
    if ns.diagnostics.any_errors() {
        return vec![];
    }
    let target = resolver
        .resolve_file(None, name.as_ref())
        .unwrap()
        .full_path
        .to_string_lossy()
        .to_string();
    let model = namespace(&ns, &resolver);
    let conf = MutatorConf {
        mutation_operators: ops.clone(),
        fallback_operators: vec![],
        funcs_to_mutate: None,
        contract: None,
    };
    let mut mutator = Mutator::new(conf);
    assert!(mutator.can_mutate(&model, &target));
    mutator.mutate_file(&model, &target);
    mutator.mutants().clone()
}

fn apply_mutation_to_statements(
    statements: &Vec<&str>,
    params: &Vec<&str>,
    returns: Option<&str>,
    ops: &Vec<MutationType>,
) -> Vec<Mutant> {
    apply_mutation_to_source(&wrap_solidity(statements, returns, params), ops)
}

fn assert_exact_mutants_for_statements(
    params: &Vec<&str>,
    statements: &Vec<&str>,
    ops: &Vec<MutationType>,
    expected: &Vec<&str>,
) {
    let mutants = apply_mutation_to_statements(statements, params, None, ops);
    let expected_set: HashSet<&str> = expected.iter().map(|s| s.trim()).collect();
    let actuals_set: HashSet<&str> = mutants.iter().map(|m| m.repl.as_str().trim()).collect();
    assert_eq!(expected.len(), mutants.len(), "{:?}", actuals_set);
    assert_eq!(actuals_set, expected_set);
}

fn assert_exact_mutants_for_source(source: &str, ops: &Vec<MutationType>, expected: &Vec<&str>) {
    let mutants = apply_mutation_to_source(source, ops);
    assert_eq!(expected.len(), mutants.len());
    let actuals: HashSet<&str> = mutants.iter().map(|m| m.repl.as_str()).collect();
    let expected: HashSet<&str> = expected.iter().map(|s| *s).collect();
    assert_eq!(actuals, expected);
}

#[test]
fn test_aor() {
    let ops = vec![MutationType::ArithmeticOperatorReplacement];
    assert_exact_mutants_for_statements(
        &vec!["uint256 a", "uint256 b"],
        &vec!["uint256 c = a + b;"],
        &ops,
        &vec!["-", "*", "/", "**", "%"],
    );
    assert_exact_mutants_for_statements(
        &vec!["int256 a", "int256 b"],
        &vec!["int256 c = a + b;"],
        &ops,
        &vec!["-", "*", "/", "%"],
    );

    assert_exact_mutants_for_statements(
        &vec!["uint256 a", "uint256 b"],
        &vec!["uint256 c = a - b;"],
        &ops,
        &vec!["+", "*", "/", "**", "%"],
    );

    assert_exact_mutants_for_statements(
        &vec!["uint256 a", "uint256 b"],
        &vec!["uint256 c = a * b;"],
        &ops,
        &vec!["+", "-", "/", "**", "%"],
    );
    assert_exact_mutants_for_statements(
        &vec!["uint256 a", "uint256 b"],
        &vec!["uint256 c = a ** b;"],
        &ops,
        &vec!["+", "-", "/", "*", "%"],
    );
    assert_exact_mutants_for_statements(
        &vec!["uint256 a", "uint256 b"],
        &vec!["uint256 c = a % b;"],
        &ops,
        &vec!["+", "-", "/", "*", "**"],
    );
}

#[test]
fn test_bor() {
    let ops = vec![MutationType::BitwiseOperatorReplacement];
    assert_exact_mutants_for_statements(
        &vec!["uint256 a", "uint256 b"],
        &vec!["uint256 c = a | b;"],
        &ops,
        &vec!["&"],
    );

    assert_exact_mutants_for_statements(
        &vec!["uint256 a", "uint256 b"],
        &vec!["uint256 c = a & b;"],
        &ops,
        &vec!["|"],
    );

    assert_exact_mutants_for_statements(
        &vec!["uint256 a", "uint256 b"],
        &vec!["uint256 c = a ^ b;"],
        &ops,
        &vec!["&"],
    );
}

#[test]
fn test_lvr() {
    let ops = vec![MutationType::LiteralValueReplacement];
    // Numbers
    assert_exact_mutants_for_statements(
        &vec!["uint256 a", "uint256 b"],
        &vec!["uint256 c = a * b + 11;"],
        &ops,
        &vec!["0", "12"],
    );
    assert_exact_mutants_for_statements(
        &vec!["uint256 a", "uint256 b"],
        &vec!["uint256 c = a * b + 0;"],
        &ops,
        &vec!["1"],
    );
    assert_exact_mutants_for_statements(
        &vec!["int256 a", "int256 b"],
        &vec!["int256 c = a * b + 11;"],
        &ops,
        &vec!["0", "-11", "12"],
    );
    assert_exact_mutants_for_statements(
        &vec!["int256 a", "int256 b"],
        &vec!["int256 c = a * b + 0;"],
        &ops,
        &vec!["1", "-1"],
    );

    // Booleans
    assert_exact_mutants_for_statements(&vec![], &vec!["bool b = true;"], &ops, &vec!["false"]);
    assert_exact_mutants_for_statements(&vec![], &vec!["bool b = false;"], &ops, &vec!["true"]);
}

#[test]
fn test_lor() {
    let ops = vec![MutationType::LogicalOperatorReplacement];

    assert_exact_mutants_for_statements(
        &vec!["bool a", "bool b"],
        &vec!["bool c = a || b;"],
        &ops,
        &vec!["a", "b", "true"],
    );

    assert_exact_mutants_for_statements(
        &vec!["bool a", "bool b"],
        &vec!["bool c = a && b;"],
        &ops,
        &vec!["a", "b", "false"],
    );
}

#[test]
fn test_ror() {
    assert_exact_mutants_for_statements(
        &vec!["uint256 a", "uint256 b"],
        &vec!["if (a < b) {}"],
        &vec![MutationType::RelationalOperatorReplacement],
        &vec!["<=", "false", "!="],
    );

    assert_exact_mutants_for_statements(
        &vec!["uint256 a", "uint256 b"],
        &vec!["if (a == b) {}"],
        &vec![MutationType::RelationalOperatorReplacement],
        &vec!["<=", "false", ">="],
    );

    assert_exact_mutants_for_statements(
        &vec!["uint256 a", "uint256 b"],
        &vec!["if (a > b) {}"],
        &vec![MutationType::RelationalOperatorReplacement],
        &vec!["!=", "false", ">="],
    );

    assert_exact_mutants_for_statements(
        &vec!["uint256 a", "uint256 b"],
        &vec!["if (a <= b) {}"],
        &vec![MutationType::RelationalOperatorReplacement],
        &vec!["<", "true", "=="],
    );

    assert_exact_mutants_for_statements(
        &vec!["uint256 a", "uint256 b"],
        &vec!["if (a != b) {}"],
        &vec![MutationType::RelationalOperatorReplacement],
        &vec!["<", "true", ">"],
    );

    assert_exact_mutants_for_statements(
        &vec!["uint256 a", "uint256 b"],
        &vec!["if (a >= b) {}"],
        &vec![MutationType::RelationalOperatorReplacement],
        &vec!["==", "true", ">"],
    );

    assert_exact_mutants_for_statements(
        &vec!["bool a", "bool b"],
        &vec!["if (a != b) {}"],
        &vec![MutationType::RelationalOperatorReplacement],
        &vec!["true", "false"],
    );

    assert_exact_mutants_for_statements(
        &vec!["bool a", "bool b"],
        &vec!["if (a == b) {}"],
        &vec![MutationType::RelationalOperatorReplacement],
        &vec!["true", "false"],
    );
}

#[test]
fn test_std() {
    let ops = vec![MutationType::StatementDeletion];
    assert_exact_mutants_for_statements(
        &vec!["uint256 a", "uint256 b"],
        &vec!["uint256 c = a + b;"],
        &ops,
        &vec![],
    );
    assert_exact_mutants_for_statements(
        &vec!["uint256 a", "uint256 b"],
        &vec!["uint256 c;", "c = a + b;"],
        &ops,
        &vec!["assert(true)"],
    );
    assert_exact_mutants_for_statements(
        &vec!["bool a"],
        &vec!["while (a) { continue; }"],
        &ops,
        &vec!["assert(true)"],
    );
    assert_exact_mutants_for_statements(
        &vec!["bool a"],
        &vec!["while (a) { break; }"],
        &ops,
        &vec!["assert(true)"],
    );
    assert_exact_mutants_for_statements(
        &vec!["bool a"],
        &vec!["revert();"],
        &ops,
        &vec!["assert(true)"],
    );
}

#[test]
fn test_sor() {
    let ops = vec![MutationType::ShiftOperatorReplacement];
    assert_exact_mutants_for_statements(
        &vec!["uint256 a", "uint256 b"],
        &vec!["uint256 c = a << b;"],
        &ops,
        &vec![">>"],
    );

    assert_exact_mutants_for_statements(
        &vec!["uint256 a", "uint256 b"],
        &vec!["uint256 c = a >> b;"],
        &ops,
        &vec!["<<"],
    );
}

#[test]
fn test_uor() {
    let ops = vec![MutationType::UnaryOperatorReplacement];
    assert_exact_mutants_for_statements(
        &vec!["int256 a"],
        &vec!["int256 b = -a;"],
        &ops,
        &vec!["~"],
    );
    assert_exact_mutants_for_statements(
        &vec!["int256 a"],
        &vec!["int256 b = ~a;"],
        &ops,
        &vec!["-"],
    );
}

#[test]
fn delegate_call_becomes_call() {
    let ops = vec![
        MutationType::ElimDelegateCall,
        MutationType::ArithmeticOperatorReplacement,
    ];
    let code = "\
// SPDX-License-Identifier: GPL-3.0-only
pragma solidity ^0.8.9;

contract A {
    bool public delegateSuccessful;
    bytes public myData;

    function setVars(address _contract, uint _num) public payable {
        (bool success, bytes memory data) = _contract.delegatecall(
            abi.encodeWithSignature(\"setVars(uint256)\", _num)
        );
        delegateSuccessful = success;
        myData = data;
    }
}
";
    assert_exact_mutants_for_source(code, &ops, &vec!["call"]);
}

