use gambit::cli::{MutateParams, SummaryParams};
use gambit::compile::{CompileError, Solc};
use gambit::config::{build_mutator_setup, SetupFailure};
use gambit::literal::{decimal_text, incremented_literal, literal_is_zero, negated_literal};
use gambit::mutation::{Loc, MutationType};
use gambit::mutator::{Mutator, MutatorConf};
use gambit::paths::{normalize_path, rel_path_from_base, PathError};
use gambit::solidity::{FunctionDef, Namespace, SourceFile};
use gambit::source::{Source, SourceError};
use gambit::util::{normalize_mutation_operator_name, remapping_target, repair_remapping};

fn params() -> MutateParams {
    MutateParams {
        json: None,
        filename: Some("A.sol".to_string()),
        num_mutants: None,
        random_seed: false,
        seed: 0,
        outdir: None,
        sourceroot: None,
        mutations: None,
        fallback_mutations: None,
        no_export: false,
        no_overwrite: false,
        solc: None,
        solc_optimize: false,
        functions: None,
        contract: None,
        import_paths: vec![],
        import_maps: vec![],
        solc_base_path: None,
        solc_include_paths: vec![],
        solc_allow_paths: None,
        solc_remappings: None,
        skip_validate: false,
        log_invalid: false,
        solc_raw_args: None,
    }
}

#[test]
fn operator_names() {
    let all = [
        MutationType::ArithmeticOperatorReplacement,
        MutationType::BitwiseOperatorReplacement,
        MutationType::ElimDelegateCall,
        MutationType::ExpressionValueReplacement,
        MutationType::LiteralValueReplacement,
        MutationType::LogicalOperatorReplacement,
        MutationType::RelationalOperatorReplacement,
        MutationType::ShiftOperatorReplacement,
        MutationType::StatementDeletion,
        MutationType::UnaryOperatorReplacement,
    ];
    for (i, a) in all.iter().enumerate() {
        assert_eq!(MutationType::from_name(a.kebab_name().as_str()), Some(*a));
        for (j, b) in all.iter().enumerate() {
            if i != j {
                assert_ne!(a.short_name(), b.short_name());
            }
        }
    }
    assert_eq!(MutationType::ArithmeticOperatorReplacement.short_name(), "AOR");
    assert_eq!(
        MutationType::from_name("Statement-Deletion"),
        Some(MutationType::StatementDeletion)
    );
    assert_eq!(MutationType::from_name("std"), None);
    assert_eq!(MutationType::default_mutation_operators().len(), 10);
    assert_eq!(
        MutationType::default_fallback_mutation_operators(),
        vec![MutationType::ExpressionValueReplacement]
    );
}

#[test]
fn operator_name_normalization() {
    assert_eq!(
        normalize_mutation_operator_name(&"AOR".to_string()),
        "arithmetic-operator-replacement"
    );
    assert_eq!(
        normalize_mutation_operator_name(&"arithmetic-operator-replacement".to_string()),
        "arithmetic-operator-replacement"
    );
    assert_eq!(
        normalize_mutation_operator_name(&"ror".to_string()),
        "relational-operator-replacement"
    );
    assert_eq!(
        normalize_mutation_operator_name(&"Statement_Deletion".to_string()),
        "statement-deletion"
    );
    assert_eq!(normalize_mutation_operator_name(&"Foo_Bar".to_string()), "foo-bar");
    assert_eq!(
        normalize_mutation_operator_name(&"Elim_Delegate_Call".to_string()),
        "elim-delegate-call"
    );
    for n in ["EVR", "std", "Logical_Operator_Replacement", "x_Y"] {
        let once = normalize_mutation_operator_name(&n.to_string());
        assert_eq!(normalize_mutation_operator_name(&once), once);
        assert_eq!(
            normalize_mutation_operator_name(&n.to_lowercase().replace('_', "-")),
            once
        );
    }
}

#[test]
fn literals() {
    assert_eq!(negated_literal("5"), "-5");
    assert_eq!(negated_literal("-12"), "12");
    assert_eq!(incremented_literal("-1"), "0");
    assert_eq!(
        incremented_literal("115792089237316195423570985008687907853269984665640564039457584007913129639935"),
        "115792089237316195423570985008687907853269984665640564039457584007913129639936"
    );
    assert!(literal_is_zero("0"));
    assert!(!literal_is_zero("7"));
    assert_eq!(decimal_text(0), "0");
    assert_eq!(decimal_text(1234), "1234");
}

#[test]
fn solc_flags() {
    let mut solc = Solc::new("solc".to_string(), "out".to_string());
    assert_eq!(solc.output_directory(), "out");
    assert_eq!(solc.basepath(), None);
    solc.with_basepath("/base".to_string());
    solc.with_allow_paths(vec!["/a".to_string(), "/b".to_string()]);
    solc.with_include_path("/inc".to_string());
    solc.with_remappings(vec!["@x=/y".to_string()]);
    solc.with_optimize(true);
    assert_eq!(solc.basepath(), Some(&"/base".to_string()));
    let flags = solc.make_compilation_flags("A.sol", "dir", true);
    assert_eq!(
        flags,
        vec![
            "--ast-compact-json",
            "A.sol",
            "--output-dir",
            "dir",
            "--overwrite",
            "--stop-after",
            "parsing",
            "--base-path",
            "/base",
            "--allow-paths",
            "/a,/b",
            "--include-path",
            "/inc",
            "@x=/y",
            "--optimize",
        ]
    );
    let plain = Solc::new("solc".to_string(), "out".to_string());
    assert_eq!(
        plain.make_compilation_flags("A.sol", "d", false),
        vec!["--ast-compact-json", "A.sol", "--output-dir", "d", "--overwrite"]
    );
    assert_eq!(
        plain.compile((Some(1), vec![1u8], vec![2u8])),
        Ok((1, vec![1u8], vec![2u8]))
    );
    assert_eq!(
        plain.compile((None, vec![], vec![])),
        Err(CompileError::TerminatedBySignal)
    );
}

#[test]
fn solc_from_params() {
    let mut p = params();
    p.import_paths = vec!["/root".to_string(), "/lib".to_string()];
    p.import_maps = vec!["@a=b".to_string()];
    p.solc_allow_paths = Some(vec!["/allow".to_string()]);
    p.solc_optimize = true;
    let mut solc = Solc::new("solc".to_string(), "out".to_string());
    solc.with_vfs_roots_from_params(&p);
    assert_eq!(solc.basepath, Some("/root".to_string()));
    assert_eq!(solc.remappings, Some(vec!["@a=b".to_string()]));
    assert_eq!(solc.allow_paths, Some(vec!["/allow".to_string()]));
    assert!(solc.optimize);
}

#[test]
fn source_line_columns() {
    let s = Source::new(
        "A.sol".to_string(),
        "/root".to_string(),
        b"ab\ncd\n".to_vec(),
    );
    assert_eq!(s.filename(), "A.sol");
    assert_eq!(s.filename_as_str(), "A.sol");
    assert_eq!(s.sourceroot(), "/root");
    assert_eq!(s.contents(), b"ab\ncd\n");
    assert_eq!(s.get_line_column(0).unwrap(), (1, 1));
    assert_eq!(s.get_line_column(2).unwrap(), (1, 3));
    assert_eq!(s.get_line_column(3).unwrap(), (2, 1));
    assert_eq!(s.get_line_column(5).unwrap(), (2, 3));
    assert!(matches!(
        s.get_line_column(10),
        Err(SourceError::PositionOutOfBoundsError(10, _))
    ));
    let one_line = Source::new("B.sol".to_string(), "/".to_string(), b"abc".to_vec());
    assert_eq!(one_line.get_line_column(2).unwrap(), (1, 3));
}

#[test]
fn relative_paths() {
    assert_eq!(rel_path_from_base("/a/b/c", "/a"), Ok("b/c".to_string()));
    assert_eq!(rel_path_from_base("/a", "/a"), Ok("".to_string()));
    assert_eq!(rel_path_from_base("/x/y", "/"), Ok("x/y".to_string()));
    assert_eq!(rel_path_from_base("/ab", "/a"), Err(PathError::NotUnderBase));
    let s = Source::new("/r/src/A.sol".to_string(), "/r".to_string(), vec![]);
    assert_eq!(s.relative_filename(), Ok("src/A.sol".to_string()));
    assert_eq!(normalize_path("./a/../b//c/"), "b/c");
    assert_eq!(normalize_path("/x/../y"), "/y");
    assert_eq!(normalize_path("../a/./b"), "a/b");
    assert_eq!(normalize_path("/.."), "/");
    for p in ["./a/../b//c/", "/x/../y", "../a/./b", "a/b/../../..", "/"] {
        let once = normalize_path(p);
        assert_eq!(normalize_path(&once), once);
        assert!(!once.split('/').any(|c| c == "." || c == ".."));
    }
}

#[test]
fn remappings() {
    assert_eq!(remapping_target("@aave=node_modules/@aave", Some("/base")), "/base/node_modules/@aave");
    assert_eq!(remapping_target("@x=lib", None), "./lib");
    assert_eq!(repair_remapping("@x=lib", "/abs/lib"), "@x=/abs/lib");
}

#[test]
fn mutator_configuration() {
    let mut p = params();
    let conf = MutatorConf::try_from_params(&p).unwrap();
    assert_eq!(conf.mutation_operators, MutationType::default_mutation_operators());
    assert_eq!(conf.fallback_operators, vec![MutationType::ExpressionValueReplacement]);
    p.mutations = Some(vec!["AOR".to_string(), "bitwise_operator_replacement".to_string()]);
    p.functions = Some(vec!["f".to_string()]);
    p.contract = Some("C".to_string());
    let conf = MutatorConf::try_from_params(&p).unwrap();
    assert_eq!(
        conf.mutation_operators,
        vec![
            MutationType::ArithmeticOperatorReplacement,
            MutationType::BitwiseOperatorReplacement
        ]
    );
    assert_eq!(conf.funcs_to_mutate, Some(vec!["f".to_string()]));
    assert_eq!(conf.contract, Some("C".to_string()));
    p.fallback_mutations = Some(vec!["nope".to_string()]);
    assert_eq!(MutatorConf::try_from_params(&p).err(), Some("nope".to_string()));
}

#[test]
fn mutator_setup_checks() {
    let mut p = params();
    assert!(matches!(build_mutator_setup(&p), Err(SetupFailure::NoImportPaths)));
    p.mutations = Some(vec!["xyz".to_string()]);
    assert!(matches!(
        build_mutator_setup(&p),
        Err(SetupFailure::UnrecognizedOperator(n)) if n == "xyz"
    ));
    p.mutations = None;
    p.import_paths = vec!["/root".to_string()];
    p.import_maps = vec!["bad".to_string()];
    assert!(matches!(
        build_mutator_setup(&p),
        Err(SetupFailure::InvalidRemapping(m)) if m == "bad"
    ));
    p.import_maps = vec!["@a=lib".to_string()];
    p.solc_allow_paths = Some(vec!["/allow".to_string()]);
    p.outdir = Some("out".to_string());
    let s = build_mutator_setup(&p).ok().unwrap();
    assert_eq!(s.solc.solc, "solc");
    assert_eq!(s.solc.output_directory, "out");
    assert_eq!(s.solc.allow_paths, Some(vec!["/allow".to_string()]));
    assert_eq!(
        s.resolver_entries,
        vec![
            (None, "/root".to_string()),
            (Some("@a".to_string()), "lib".to_string()),
            (None, "/allow".to_string()),
        ]
    );
    let mut q = params();
    q.solc_base_path = Some("b".to_string());
    q.solc_remappings = Some(vec![]);
    let w = gambit::config::mutator_setup_warnings(&q);
    assert_eq!(w.len(), 2);
    assert_eq!(w[0].0, "Invalid MutateParams: solc_base_path");
    assert_eq!(w[1].1, "solc_remappings is ignored. Use import_maps instead");
}

#[test]
fn mutator_with_no_selected_function_makes_nothing() {
    let ns = Namespace {
        files: vec![SourceFile {
            path: "/t/A.sol".to_string(),
            sol_path: "A.sol".to_string(),
            text: "x".to_string(),
        }],
        functions: vec![FunctionDef {
            name: "g".to_string(),
            file_no: 0,
            contract: None,
            is_accessor: false,
            has_body: true,
            body: vec![],
        }],
    };
    let mut conf = MutatorConf::try_from_params(&params()).unwrap();
    conf.funcs_to_mutate = Some(vec!["f".to_string()]);
    let mut m = Mutator::new(conf);
    let target = "/t/A.sol".to_string();
    assert!(m.can_mutate(&ns, &target));
    m.mutate_file(&ns, &target);
    assert!(m.mutants().is_empty());
    let _ = Loc { file_no: 0, start: 0, end: 0 };
}
