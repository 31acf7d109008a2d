use gambit::cli::{MutateParams, SummaryParams};
use gambit::filter::RandomDownSampleFilter;
use gambit::mutation::{Loc, Mutant, MutationType};
use gambit::mutant_writer::{invalid_log_record, MutantWriter, MutantWriterError};
use gambit::mutator::{Mutator, MutatorConf};
use gambit::params::{
    apply_pass_through, config_outdir, cli_outdir, deprecation_warnings,
    experimental_feature_warnings, finalize_cli_params, finalize_config_params,
    merge_import_maps, merge_import_paths, pass_through_outdir, ParamsError, ResolvedPaths,
};
use gambit::pipeline::{
    group_members, group_no_overwrite, outdir_action, outdir_groups, split_by_validity,
    validation_plan, OutdirAction, ValidationPlan,
};
use gambit::solidity::{statement_type, Expr, ExprKind, FunctionDef, Namespace, SolType, SourceFile, Stmt, StmtKind};
use gambit::summary::{get_mutant_summary, op_statistics, summarize, MutantSummaryEntry, SummaryReport};
use gambit::test_util::wrap_solidity;
use gambit::text::{diff_line_styles, DiffLineStyle};

fn params() -> MutateParams {
    MutateParams {
        json: None,
        filename: Some("A.sol".to_string()),
        num_mutants: None,
        random_seed: false,
        seed: 0,
        outdir: None,
        sourceroot: None,
        mutations: None,
        fallback_mutations: None,
        no_export: false,
        no_overwrite: false,
        solc: None,
        solc_optimize: false,
        functions: None,
        contract: None,
        import_paths: vec![],
        import_maps: vec![],
        solc_base_path: None,
        solc_include_paths: vec![],
        solc_allow_paths: None,
        solc_remappings: None,
        skip_validate: false,
        log_invalid: false,
        solc_raw_args: None,
    }
}

fn other(start: usize, end: usize) -> Expr {
    Expr {
        kind: ExprKind::Other,
        loc: Some(Loc { file_no: 0, start, end }),
        ty: SolType::Uint,
        first: None,
        first_ty: SolType::Other,
        second: None,
    }
}

/// `uint256 c = a + b;` in function `f` of contract `C`.
fn addition_program() -> Namespace {
    let text = "uint256 c = a + b;".to_string();
    let add = Expr {
        kind: ExprKind::Add,
        loc: Some(Loc { file_no: 0, start: 12, end: 17 }),
        ty: SolType::Uint,
        first: Some(Loc { file_no: 0, start: 12, end: 13 }),
        first_ty: SolType::Uint,
        second: Some(Loc { file_no: 0, start: 16, end: 17 }),
    };
    let stmt = Stmt {
        kind: StmtKind::VariableDecl,
        loc: Some(Loc { file_no: 0, start: 0, end: 18 }),
        expr: vec![add, other(12, 13), other(16, 17)],
        fallback_parts: vec![],
    };
    Namespace {
        files: vec![SourceFile {
            path: "/t/A.sol".to_string(),
            sol_path: "A.sol".to_string(),
            text,
        }],
        functions: vec![FunctionDef {
            name: "f".to_string(),
            file_no: 0,
            contract: Some("C".to_string()),
            is_accessor: false,
            has_body: true,
            body: vec![stmt],
        }],
    }
}

fn aor_mutants() -> Vec<Mutant> {
    let ns = addition_program();
    let conf = MutatorConf {
        mutation_operators: vec![MutationType::ArithmeticOperatorReplacement],
        fallback_operators: vec![],
        funcs_to_mutate: None,
        contract: None,
    };
    let mut m = Mutator::new(conf);
    let target = "/t/A.sol".to_string();
    assert!(m.can_mutate(&ns, &target));
    m.mutate_file(&ns, &target);
    m.mutants().clone()
}

#[test]
fn arithmetic_mutants() {
    let ms = aor_mutants();
    let repls: Vec<&str> = ms.iter().map(|m| m.repl.as_str()).collect();
    assert_eq!(repls, vec!["-", "*", "/", "**", "%"]);
    assert!(ms.iter().all(|m| m.orig == "+"));
    assert_eq!(ms[0].get_line_column(), (0, 14));
    assert_eq!(ms[0].vfs_path(), "A.sol");
    assert_eq!(
        ms[0].mutant_source(),
        "/// ArithmeticOperatorReplacement(`+` |==> `-`) of: `uint256 c = a + b;`\nuint256 c = a - b;"
    );
    assert_eq!(ms[0].to_string(), "ArithmeticOperatorReplacement: + |==> -");
}

#[test]
fn writing_mutants() {
    let ms = aor_mutants();
    let marked: Vec<(Mutant, bool)> = ms.iter().enumerate().map(|(i, m)| (m.clone(), i != 1)).collect();
    let w = MutantWriter::new("/out".to_string());
    assert!(marked.iter().all(|(m, _)| m.can_render()));
    let plan = w.write_mutants(&marked);
    assert_eq!(plan.mutants_dir, "/out/mutants");
    assert_eq!(plan.log_path, "/out/mutants.log");
    assert_eq!(plan.results_path, "/out/gambit_results.json");
    assert_eq!(plan.exports.len(), 4);
    assert_eq!(plan.exports[0].0, "/out/mutants/1/A.sol");
    assert_eq!(plan.exports[1].0, "/out/mutants/3/A.sol");
    assert_eq!(plan.log[0], vec!["1", "AOR", "A.sol", "1:15", "+", "-"]);
    assert_eq!(plan.log[4][0], "5");
    let r = &plan.results[2];
    assert_eq!(r.name, "mutants/3/A.sol");
    assert_eq!(r.id, "3");
    assert_eq!(r.description, "ArithmeticOperatorReplacement");
    assert_eq!((r.line, r.col), (1, 15));
    assert!(r.diff.starts_with("--- original\n+++ mutant\n"));
    assert!(r.diff.contains("+uint256 c = a / b;"));
    assert_eq!(invalid_log_record(2, &ms[1]), vec!["2", "AOR", "A.sol", "0:14", "+", "*"]);
    assert_eq!(
        MutantWriterError::InvalidMutantDirFormat("x".to_string()).message(),
        "Invalid Mutant Directory: Expected a numeric name but found x"
    );
}

#[test]
fn diff_styles() {
    let styles = diff_line_styles("--- a\n+++ b\n@@ -1 +1 @@\n-x\n+y\n z");
    let kinds: Vec<DiffLineStyle> = styles.iter().map(|s| s.1).collect();
    assert_eq!(
        kinds,
        vec![
            DiffLineStyle::Removed,
            DiffLineStyle::Added,
            DiffLineStyle::Location,
            DiffLineStyle::Removed,
            DiffLineStyle::Added,
            DiffLineStyle::Plain
        ]
    );
    assert_eq!(styles[5].0, " z");
    assert_eq!(statement_type(&StmtKind::TryCatch), "TryCatch");
}

fn entry(mid: &str, op: &str) -> Option<MutantSummaryEntry> {
    Some(MutantSummaryEntry {
        mid: mid.to_string(),
        mutant_export_location: format!("mutants/{}/A.sol", mid),
        diff: String::new(),
        op_long: String::new(),
        op_short: op.to_string(),
        orig: "+".to_string(),
        repl: "-".to_string(),
    })
}

#[test]
fn summaries() {
    let fields = vec![
        ("id".to_string(), Some("7".to_string())),
        ("diff".to_string(), Some("d".to_string())),
        ("name".to_string(), Some("mutants/7/A.sol".to_string())),
        ("description".to_string(), Some("StatementDeletion".to_string())),
        ("op".to_string(), Some("STD".to_string())),
        ("orig".to_string(), Some("x;".to_string())),
        ("repl".to_string(), Some("assert(true);".to_string())),
        ("line".to_string(), None),
    ];
    let e = get_mutant_summary(0, &Some(fields)).unwrap();
    assert_eq!(e.mid, "7");
    assert_eq!(e.mutant_export_location, "mutants/7/A.sol");
    assert_eq!(e.op_short, "STD");
    assert!(get_mutant_summary(1, &None).is_none());

    let entries = vec![entry("1", "AOR"), None, entry("2", "STD"), entry("3", "AOR")];
    let (stats, total) = op_statistics(&entries);
    assert_eq!(stats, vec![("AOR".to_string(), 2), ("STD".to_string(), 1)]);
    assert_eq!(total, 3);
    assert_eq!(stats.iter().map(|s| s.1).sum::<usize>(), total);

    let mut sp = SummaryParams {
        mids: Some(vec!["3".to_string(), "1".to_string()]),
        print_all_mids: false,
        short: false,
        mutation_directory: "gambit_out".to_string(),
    };
    match summarize(&sp, &entries) {
        SummaryReport::Entries(v) => {
            let mids: Vec<&str> = v.iter().map(|e| e.mid.as_str()).collect();
            assert_eq!(mids, vec!["1", "3"]);
        }
        _ => panic!("expected entries"),
    }
    sp.mids = None;
    sp.print_all_mids = true;
    match summarize(&sp, &entries) {
        SummaryReport::Entries(v) => assert_eq!(v.len(), 3),
        _ => panic!("expected entries"),
    }
    sp.print_all_mids = false;
    assert!(matches!(gambit::summary::run_summary(sp, &entries), SummaryReport::Statistics(_, 3)));
}

#[test]
fn grouping_by_outdir() {
    let mut a = params();
    a.outdir = Some("x".to_string());
    let b = params();
    let mut c = params();
    c.outdir = Some("x".to_string());
    c.no_overwrite = true;
    let ps = vec![a, b, c];
    let g = outdir_groups(&ps);
    assert_eq!(g.outdirs, vec!["x".to_string(), "gambit_out".to_string()]);
    assert_eq!(g.group_of, vec![0, 1, 0]);
    assert_eq!(group_members(&g.group_of, 0), vec![0, 2]);
    assert!(group_no_overwrite(&ps, &g.group_of, 0));
    assert!(!group_no_overwrite(&ps, &g.group_of, 1));
}

#[test]
fn validation_plans() {
    let mut p = params();
    assert_eq!(validation_plan(&p), ValidationPlan::ValidateAll);
    p.skip_validate = true;
    assert_eq!(validation_plan(&p), ValidationPlan::KeepAll);
    p.num_mutants = Some(3);
    p.seed = 9;
    assert_eq!(
        validation_plan(&p),
        ValidationPlan::Sample { seed: Some(9), validate: false, num_mutants: 3 }
    );
    p.random_seed = true;
    p.skip_validate = false;
    assert_eq!(
        validation_plan(&p),
        ValidationPlan::Sample { seed: None, validate: true, num_mutants: 3 }
    );
    assert_eq!(
        split_by_validity(&vec![true, false, false, true]),
        (vec![0, 3], vec![1, 2])
    );
}

#[test]
fn down_sampling() {
    let f = RandomDownSampleFilter::new(Some(0), false);
    let s = f.sample(10, 3).unwrap();
    assert_eq!(s.len(), 3);
    assert!(s.windows(2).all(|w| w[0] < w[1]));
    assert!(s.iter().all(|&i| i < 10));
    assert_eq!(f.sample(10, 3).unwrap(), s);
    assert_eq!(f.sample(4, 9).unwrap(), vec![0, 1, 2, 3]);
    let unseeded = RandomDownSampleFilter::new(None, false).sample(10, 4).unwrap();
    assert_eq!(unseeded.len(), 4);
    assert!(unseeded.iter().all(|&i| i < 10));

    let v = RandomDownSampleFilter::new(Some(5), true);
    let mut st = v.start(6, 2).unwrap();
    let mut judged = 0;
    while let Some(c) = st.next_candidate() {
        judged += 1;
        st.record(c % 2 == 0);
    }
    let (valid, invalid) = st.finish();
    assert!(valid.len() <= 2);
    assert!(valid.iter().all(|i| i % 2 == 0));
    assert!(invalid.iter().all(|i| i % 2 == 1));
    assert_eq!(valid.len() + invalid.len(), judged);
}

#[test]
fn warnings() {
    let mut p = params();
    p.sourceroot = Some(".".to_string());
    p.solc_include_paths = vec!["inc".to_string()];
    let w = deprecation_warnings(&p, true);
    assert_eq!(
        w,
        vec![
            (
                "--sourceroot".to_string(),
                "1.0.0".to_string(),
                "sourceroot is no longer used and will be ignored".to_string()
            ),
            (
                "--solc_include_path".to_string(),
                "1.0.0".to_string(),
                "Use import_path instead".to_string()
            ),
        ]
    );
    assert_eq!(deprecation_warnings(&p, false)[0].0, "sourceroot");
    p.fallback_mutations = Some(vec!["EVR".to_string()]);
    assert_eq!(
        experimental_feature_warnings(&p),
        vec![
            ("fallback_mutations".to_string(), "1.0.0".to_string()),
            (
                "MutationType:expression-value-replacement".to_string(),
                "1.0.0".to_string()
            ),
        ]
    );
    assert!(experimental_feature_warnings(&params()).is_empty());
}

#[test]
fn parameter_resolution() {
    let mut cli = params();
    cli.skip_validate = true;
    cli.solc = Some("solc8".to_string());
    let mut p = params();
    p.outdir = Some("o".to_string());
    apply_pass_through(&mut p, &cli, &pass_through_outdir("/cwd", &Some("out".to_string())));
    assert!(p.skip_validate);
    assert_eq!(p.solc, Some("solc8".to_string()));
    assert_eq!(p.outdir, Some("/cwd/out".to_string()));

    assert_eq!(config_outdir(&Some("o/../p".to_string()), "/cfg"), "/cfg/p");
    assert_eq!(config_outdir(&Some("/abs/./q".to_string()), "/cfg"), "/abs/q");
    assert_eq!(config_outdir(&None, "/cfg"), "gambit_out");
    assert_eq!(cli_outdir(&None), "gambit_out");

    assert_eq!(
        merge_import_paths(
            vec!["/a".to_string()],
            Some("/a".to_string()),
            &vec!["/b".to_string(), "/a".to_string(), "/b".to_string()]
        ),
        vec!["/a".to_string(), "/b".to_string()]
    );
    assert_eq!(
        merge_import_maps(&vec!["@x=y".to_string()], &Some(vec!["@z=w".to_string()])),
        vec!["@x=y".to_string(), "@z=w".to_string()]
    );

    let mut q = params();
    q.solc_base_path = Some("base".to_string());
    q.solc_remappings = Some(vec!["@r=s".to_string()]);
    let resolved = ResolvedPaths {
        filename: "/cfg/A.sol".to_string(),
        allow_paths: None,
        import_paths: vec![],
        base_path: None,
        include_paths: vec![],
    };
    let (r, defaulted) = finalize_config_params(q.clone(), "/cfg", resolved);
    assert!(defaulted);
    assert_eq!(r.import_paths, vec!["/cfg".to_string()]);
    assert_eq!(r.import_maps, vec!["@r=s".to_string()]);
    assert_eq!(r.filename, Some("/cfg/A.sol".to_string()));
    assert_eq!(r.solc_base_path, None);
    assert_eq!(r.solc_remappings, None);

    let resolved = ResolvedPaths {
        filename: "/cfg/A.sol".to_string(),
        allow_paths: None,
        import_paths: vec![],
        base_path: None,
        include_paths: vec![],
    };
    assert_eq!(
        finalize_cli_params(q, resolved, None).err(),
        Some(ParamsError::NoDefaultImportPath)
    );
}

#[test]
fn wrapped_solidity() {
    let s = wrap_solidity(&["uint256 c = a + b;", "return c;"], Some("uint256"), &["uint256 a", "uint256 b"]);
    assert_eq!(
        s,
        "// SPDX-License-Identifier: GPL-3.0-only\npragma solidity ^0.8.0;\n\ncontract Wrapper {\n    function wrapped(uint256 a, uint256 b) public returns (uint256) {\n        uint256 c = a + b;\n        return c;\n    }\n}\n    "
    );
    let t = wrap_solidity(&[], None, &[]);
    assert!(t.contains("function wrapped() public  {\n        \n    }"));
}

fn single_statement_mutants(text: &str, e: Expr, op: MutationType) -> Vec<Mutant> {
    statement_mutants_with_fallback(text, e, vec![op], vec![])
}

fn statement_mutants_with_fallback(
    text: &str,
    e: Expr,
    ops: Vec<MutationType>,
    fallback: Vec<MutationType>,
) -> Vec<Mutant> {
    let len = text.chars().count();
    let stmt = Stmt {
        kind: StmtKind::VariableDecl,
        loc: Some(Loc { file_no: 0, start: 0, end: len }),
        expr: vec![e],
        fallback_parts: vec![],
    };
    let ns = Namespace {
        files: vec![SourceFile {
            path: "/t/B.sol".to_string(),
            sol_path: "B.sol".to_string(),
            text: text.to_string(),
        }],
        functions: vec![FunctionDef {
            name: "f".to_string(),
            file_no: 0,
            contract: None,
            is_accessor: false,
            has_body: true,
            body: vec![stmt],
        }],
    };
    let conf = MutatorConf {
        mutation_operators: ops,
        fallback_operators: fallback,
        funcs_to_mutate: None,
        contract: None,
    };
    let mut m = Mutator::new(conf);
    let target = "/t/B.sol".to_string();
    assert!(m.can_mutate(&ns, &target));
    m.mutate_file(&ns, &target);
    m.mutants().clone()
}

#[test]
fn literal_value_mutants() {
    let lit = Expr {
        kind: ExprKind::NumberLiteral(SolType::Int, "-7".to_string()),
        loc: Some(Loc { file_no: 0, start: 11, end: 13 }),
        ty: SolType::Int,
        first: None,
        first_ty: SolType::Other,
        second: None,
    };
    let ms = single_statement_mutants("int256 c = -7;", lit, MutationType::LiteralValueReplacement);
    let repls: Vec<&str> = ms.iter().map(|m| m.repl.as_str()).collect();
    assert_eq!(repls, vec!["0", "7", "-6"]);
    assert!(ms.iter().all(|m| m.orig == "-7"));
}

#[test]
fn relational_mutants() {
    let lt = Expr {
        kind: ExprKind::Less,
        loc: Some(Loc { file_no: 0, start: 9, end: 14 }),
        ty: SolType::Other,
        first: Some(Loc { file_no: 0, start: 9, end: 10 }),
        first_ty: SolType::Uint,
        second: Some(Loc { file_no: 0, start: 13, end: 14 }),
    };
    let ms = single_statement_mutants("bool c = a < b;", lt, MutationType::RelationalOperatorReplacement);
    let repls: Vec<&str> = ms.iter().map(|m| m.repl.as_str()).collect();
    assert_eq!(repls, vec!["<=", "!=", "false"]);
    assert!(!repls.contains(&"<"));
}

#[test]
fn expression_value_mutants() {
    let add = Expr {
        kind: ExprKind::Add,
        loc: Some(Loc { file_no: 0, start: 12, end: 17 }),
        ty: SolType::Uint,
        first: Some(Loc { file_no: 0, start: 12, end: 13 }),
        first_ty: SolType::Uint,
        second: Some(Loc { file_no: 0, start: 16, end: 17 }),
    };
    let ms = single_statement_mutants("uint256 c = a + b;", add, MutationType::ExpressionValueReplacement);
    let repls: Vec<&str> = ms.iter().map(|m| m.repl.as_str()).collect();
    assert_eq!(repls, vec!["0", "1"]);
    assert!(ms.iter().all(|m| m.orig == "a + b"));
    assert_eq!(ms[0].mutant_loc.loc, Loc { file_no: 0, start: 12, end: 17 });
    let neg = Expr {
        kind: ExprKind::Negate,
        loc: Some(Loc { file_no: 0, start: 11, end: 13 }),
        ty: SolType::Int,
        first: None,
        first_ty: SolType::Other,
        second: None,
    };
    let ms = single_statement_mutants("int256 c = -x;", neg, MutationType::ExpressionValueReplacement);
    let repls: Vec<&str> = ms.iter().map(|m| m.repl.as_str()).collect();
    assert_eq!(repls, vec!["-1", "0", "1"]);
    let yes = Expr {
        kind: ExprKind::BoolLiteral(true),
        loc: Some(Loc { file_no: 0, start: 9, end: 13 }),
        ty: SolType::Bool,
        first: None,
        first_ty: SolType::Other,
        second: None,
    };
    let ms = single_statement_mutants("bool c = true;", yes, MutationType::ExpressionValueReplacement);
    let repls: Vec<&str> = ms.iter().map(|m| m.repl.as_str()).collect();
    assert_eq!(repls, vec!["false"]);
    let addr = Expr {
        kind: ExprKind::Other,
        loc: Some(Loc { file_no: 0, start: 12, end: 13 }),
        ty: SolType::Address,
        first: None,
        first_ty: SolType::Other,
        second: None,
    };
    let ms = single_statement_mutants("address c = a;", addr, MutationType::ExpressionValueReplacement);
    assert!(ms.is_empty());
}

fn eleven() -> Expr {
    Expr {
        kind: ExprKind::NumberLiteral(SolType::Uint, "11".to_string()),
        loc: Some(Loc { file_no: 0, start: 12, end: 14 }),
        ty: SolType::Uint,
        first: None,
        first_ty: SolType::Other,
        second: None,
    }
}

#[test]
fn fallback_operators_only_when_nothing_else() {
    let text = "uint256 c = 11;";
    let ms = statement_mutants_with_fallback(
        text,
        eleven(),
        vec![MutationType::ArithmeticOperatorReplacement],
        vec![MutationType::LiteralValueReplacement],
    );
    let repls: Vec<&str> = ms.iter().map(|m| m.repl.as_str()).collect();
    assert_eq!(repls, vec!["0", "12"]);
    assert!(ms.iter().all(|m| m.op == MutationType::LiteralValueReplacement));
    let ms = statement_mutants_with_fallback(
        text,
        eleven(),
        vec![MutationType::LiteralValueReplacement],
        vec![MutationType::LiteralValueReplacement],
    );
    assert_eq!(ms.len(), 2);
    let ms = statement_mutants_with_fallback(
        text,
        eleven(),
        vec![MutationType::ShiftOperatorReplacement],
        vec![MutationType::ExpressionValueReplacement],
    );
    let repls: Vec<&str> = ms.iter().map(|m| m.repl.as_str()).collect();
    assert_eq!(repls, vec!["0", "1"]);
    assert!(ms.iter().all(|m| m.orig == "11"));
    let ms = statement_mutants_with_fallback(
        text,
        eleven(),
        vec![MutationType::ShiftOperatorReplacement],
        vec![],
    );
    assert!(ms.is_empty());
}

#[test]
fn output_directory_actions() {
    assert_eq!(outdir_action(false, false), OutdirAction::Create);
    assert_eq!(outdir_action(true, false), OutdirAction::Create);
    assert_eq!(outdir_action(false, true), OutdirAction::RemoveThenCreate);
    assert_eq!(outdir_action(true, true), OutdirAction::Skip);
}
