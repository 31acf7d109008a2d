//! From a run's parameters to the configuration of a mutator: which
//! operators, how solc is set up, and where imported files are looked for.
use vstd::prelude::*;
use crate::cli::MutateParams;
use crate::compile::{opt_vec_view, opt_view, Solc};
use crate::mutation::{default_fallback_operators, default_operators, operator_named, MutationType};
use crate::mutator::MutatorConf;
use crate::paths::{default_gambit_output_directory, default_outdir_name};
use crate::util::{normalize_mutation_operator_name, normalized_op_name, remapping_parts, split_remapping};

verus! {

/// The operator a user's operator name stands for, if any.
pub open spec fn op_of_name(name: Seq<char>) -> Option<MutationType> {
    operator_named(normalized_op_name(name))
}

/// Whether every name in `names` stands for an operator.
pub open spec fn all_named(names: Seq<String>) -> bool {
    forall|i: int| 0 <= i < names.len() ==> (#[trigger] op_of_name(names[i]@)) is Some
}

/// Whether every given name stands for an operator (true where none is given).
pub open spec fn names_recognized(o: Option<Vec<String>>) -> bool {
    match o {
        Some(v) => all_named(v@),
        None => true,
    }
}

/// The operators that `names` stand for, in order.
pub open spec fn ops_of_names(names: Seq<String>) -> Seq<MutationType> {
    Seq::new(names.len(), |i: int| op_of_name(names[i]@).unwrap())
}

/// The operators a run uses: those named, or `default` where none are named.
pub open spec fn ops_or_default(o: Option<Vec<String>>, default: Seq<MutationType>) -> Seq<MutationType> {
    match o {
        Some(v) => ops_of_names(v@),
        None => default,
    }
}

/// The index of the first name in `names` that stands for no operator.
pub open spec fn first_unnamed(names: Seq<String>, i: int) -> Option<int>
    decreases names.len() - i,
{
    if i < 0 || i >= names.len() {
        None
    } else if op_of_name(names[i]@) is None {
        Some(i)
    } else {
        first_unnamed(names, i + 1)
    }
}

proof fn lemma_first_unnamed(names: Seq<String>, i: int)
    requires
        0 <= i <= names.len(),
        forall|j: int| 0 <= j < i ==> (#[trigger] op_of_name(names[j]@)) is Some,
    ensures
        first_unnamed(names, i) is None <==> all_named(names),
        match first_unnamed(names, i) {
            Some(k) => i <= k < names.len() && op_of_name(names[k]@) is None,
            None => true,
        },
    decreases names.len() - i,
{
    if i < names.len() {
        if op_of_name(names[i]@) is Some {
            lemma_first_unnamed(names, i + 1);
        }
    }
}

/// A copy of an optional list of strings.
pub fn copy_opt_strings(o: &Option<Vec<String>>) -> (r: Option<Vec<String>>)
    ensures
        opt_vec_view(r) == opt_vec_view(*o),
{
    match o {
        Some(v) => {
            let c = v.clone();
            assert(c@ =~= v@);
            Some(c)
        },
        None => None,
    }
}

/// The operators named in `names`, which all stand for operators.
fn ops_from_names(names: &Vec<String>) -> (r: Vec<MutationType>)
    requires
        all_named(names@),
    ensures
        r@ == ops_of_names(names@),
{
    let mut r: Vec<MutationType> = Vec::new();
    let mut i: usize = 0;
    while i < names.len()
        invariant
            i <= names@.len(),
            all_named(names@),
            r@ == ops_of_names(names@).take(i as int),
        decreases names@.len() - i,
    {
        let n = normalize_mutation_operator_name(&names[i]);
        let op = MutationType::from_name(n.as_str());
        assert(op_of_name(names@[i as int]@) is Some);
        r.push(op.unwrap());
        assert(ops_of_names(names@).take(i + 1) =~= ops_of_names(names@).take(i as int).push(
            ops_of_names(names@)[i as int],
        ));
        i = i + 1;
    }
    assert(ops_of_names(names@).take(names@.len() as int) =~= ops_of_names(names@));
    r
}

/// The first name in `names` that stands for no operator, if any.
pub fn first_unrecognized(names: &Vec<String>) -> (r: Option<usize>)
    ensures
        match r {
            Some(k) => first_unnamed(names@, 0) == Some(k as int),
            None => first_unnamed(names@, 0) is None,
        },
        r is None <==> all_named(names@),
{
    let mut i: usize = 0;
    while i < names.len()
        invariant
            i <= names@.len(),
            forall|j: int| 0 <= j < i ==> (#[trigger] op_of_name(names@[j]@)) is Some,
            first_unnamed(names@, 0) == first_unnamed(names@, i as int),
        decreases names@.len() - i,
    {
        let n = normalize_mutation_operator_name(&names[i]);
        if MutationType::from_name(n.as_str()).is_none() {
            proof {
                lemma_first_unnamed(names@, i as int);
            }
            return Some(i);
        }
        i = i + 1;
    }
    proof {
        lemma_first_unnamed(names@, i as int);
    }
    None
}

impl MutatorConf {
    /// The configuration of a run: the operators named in the parameters
    /// (the defaults where none are named), the functions and the contract to
    /// mutate.
    pub fn from_params(params: &MutateParams) -> (r: MutatorConf)
        requires
            names_recognized(params.mutations),
            names_recognized(params.fallback_mutations),
        ensures
            r.mutation_operators@ == ops_or_default(params.mutations, default_operators()),
            r.fallback_operators@ == ops_or_default(params.fallback_mutations, default_fallback_operators()),
            opt_vec_view(r.funcs_to_mutate) == opt_vec_view(params.functions),
            opt_view(r.contract) == opt_view(params.contract),
    {
        let mutation_operators = match &params.mutations {
            Some(ops) => ops_from_names(ops),
            None => MutationType::default_mutation_operators(),
        };
        let fallback_operators = match &params.fallback_mutations {
            Some(ops) => ops_from_names(ops),
            None => MutationType::default_fallback_mutation_operators(),
        };
        let contract = match &params.contract {
            Some(c) => Some(c.clone()),
            None => None,
        };
        MutatorConf {
            mutation_operators,
            fallback_operators,
            funcs_to_mutate: copy_opt_strings(&params.functions),
            contract,
        }
    }

    /// The configuration of a run, or the first operator name (among the
    /// operators, then the fallback operators) that stands for no operator.
    pub fn try_from_params(params: &MutateParams) -> (r: Result<MutatorConf, String>)
        ensures
            names_recognized(params.mutations) && names_recognized(params.fallback_mutations) ==> (r
                matches Ok(c) && c.mutation_operators@ == ops_or_default(params.mutations, default_operators())
                && c.fallback_operators@ == ops_or_default(params.fallback_mutations, default_fallback_operators())
                && opt_vec_view(c.funcs_to_mutate) == opt_vec_view(params.functions)
                && opt_view(c.contract) == opt_view(params.contract)),
            !names_recognized(params.mutations) ==> (r matches Err(name) && name@ == params.mutations.unwrap()@[
                first_unnamed(params.mutations.unwrap()@, 0).unwrap()]@),
            names_recognized(params.mutations) && !names_recognized(params.fallback_mutations) ==> (r
                matches Err(name) && name@ == params.fallback_mutations.unwrap()@[first_unnamed(
                params.fallback_mutations.unwrap()@,
                0,
            ).unwrap()]@),
    {
        if let Some(ops) = &params.mutations {
            if let Some(k) = first_unrecognized(ops) {
                proof {
                    lemma_first_unnamed(ops@, 0);
                }
                let name = ops[k].clone();
                return Err(name);
            }
        }
        if let Some(ops) = &params.fallback_mutations {
            if let Some(k) = first_unrecognized(ops) {
                proof {
                    lemma_first_unnamed(ops@, 0);
                }
                let name = ops[k].clone();
                return Err(name);
            }
        }
        Ok(MutatorConf::from_params(params))
    }
}

/// An entry of the import resolver's search list: a directory where imports
/// are looked up, with the import name it stands for in a remapping.
pub type ResolverEntry = (Option<String>, String);

/// What a mutator is built from: its configuration, the compiler set up for
/// it, and the import resolver's search list.
pub struct MutatorSetup {
    pub conf: MutatorConf,
    pub solc: Solc,
    /// Import paths, then remappings (name and target as written; the target
    /// is resolved against the import paths by the caller), then allowed
    /// paths.
    pub resolver_entries: Vec<ResolverEntry>,
}

/// Why no mutator can be built.
#[derive(Debug, Clone, Copy, PartialEq, Eq, Structural)]
pub enum SetupError {
    /// Tried to create a mutator without an import path
    NoImportPaths,
}

/// Whether every remapping has the form `name=path`.
pub open spec fn remaps_valid(maps: Seq<String>) -> bool {
    forall|i: int| 0 <= i < maps.len() ==> (#[trigger] remapping_parts(maps[i]@)) is Some
}

/// The view of a resolver entry.
pub open spec fn entry_view(e: ResolverEntry) -> (Option<Seq<char>>, Seq<char>) {
    (opt_view(e.0), e.1@)
}

/// Directories without an import name.
pub open spec fn plain_entries(v: Seq<String>) -> Seq<(Option<Seq<char>>, Seq<char>)> {
    Seq::new(v.len(), |i: int| (None::<Seq<char>>, v[i]@))
}

/// Remappings, split at their `=`.
pub open spec fn remap_entries(v: Seq<String>) -> Seq<(Option<Seq<char>>, Seq<char>)> {
    Seq::new(
        v.len(),
        |i: int| (Some(remapping_parts(v[i]@).unwrap().0), remapping_parts(v[i]@).unwrap().1),
    )
}

/// The import resolver's search list for a run.
pub open spec fn resolver_plan(p: MutateParams) -> Seq<(Option<Seq<char>>, Seq<char>)> {
    plain_entries(p.import_paths@) + remap_entries(p.import_maps@) + match p.solc_allow_paths {
        Some(a) => plain_entries(a@),
        None => Seq::empty(),
    }
}

/// The solc executable of a run: the one given, else `solc`.
pub open spec fn solc_name(p: MutateParams) -> Seq<char> {
    match p.solc {
        Some(s) => s@,
        None => "solc"@,
    }
}

/// The output directory of a run: the one given, else the default.
pub open spec fn outdir_name(p: MutateParams) -> Seq<char> {
    match p.outdir {
        Some(o) => o@,
        None => default_outdir_name(),
    }
}

/// The compiler set up for a run's mutator.
pub open spec fn setup_solc(s: Solc, p: MutateParams) -> bool {
    &&& s.solc@ == solc_name(p)
    &&& s.output_directory@ == outdir_name(p)
    &&& s.basepath is None
    &&& opt_vec_view(s.allow_paths) == opt_vec_view(p.solc_allow_paths)
    &&& s.include_path is None
    &&& s.remappings is None
    &&& s.optimize == p.solc_optimize
}

/// The warnings about ignored parameters given when a mutator is built:
/// headline and message.
pub open spec fn ignored_param_warnings(p: MutateParams) -> Seq<(Seq<char>, Seq<char>)> {
    (if p.solc_base_path is Some {
        seq![("Invalid MutateParams: solc_base_path"@, "solc_base_path is ignored. Use import_paths instead"@)]
    } else {
        Seq::empty()
    }) + (if p.solc_remappings is Some {
        seq![("Invalid MutateParams: solc_remappings"@, "solc_remappings is ignored. Use import_maps instead"@)]
    } else {
        Seq::empty()
    })
}

/// The views of pairs of strings.
pub open spec fn pair_views(v: Seq<(String, String)>) -> Seq<(Seq<char>, Seq<char>)> {
    Seq::new(v.len(), |i: int| (v[i].0@, v[i].1@))
}

/// Appends a pair of strings.
fn push_pair(v: &mut Vec<(String, String)>, a: String, b: String)
    ensures
        pair_views(final(v)@) == pair_views(old(v)@).push((a@, b@)),
{
    v.push((a, b));
    assert(pair_views(v@) =~= pair_views(old(v)@).push((a@, b@)));
}

/// The warnings about ignored parameters given when a mutator is built.
pub fn mutator_setup_warnings(params: &MutateParams) -> (r: Vec<(String, String)>)
    ensures
        pair_views(r@) == ignored_param_warnings(*params),
{
    let mut r: Vec<(String, String)> = Vec::new();
    if params.solc_base_path.is_some() {
        push_pair(
            &mut r,
            "Invalid MutateParams: solc_base_path".to_string(),
            "solc_base_path is ignored. Use import_paths instead".to_string(),
        );
    }
    if params.solc_remappings.is_some() {
        push_pair(
            &mut r,
            "Invalid MutateParams: solc_remappings".to_string(),
            "solc_remappings is ignored. Use import_maps instead".to_string(),
        );
    }
    assert(pair_views(r@) =~= ignored_param_warnings(*params));
    r
}

/// Appends an entry to the resolver's search list.
fn push_entry(v: &mut Vec<ResolverEntry>, e: ResolverEntry)
    ensures
        final(v)@.map_values(|x: ResolverEntry| entry_view(x)) == old(v)@.map_values(
            |x: ResolverEntry| entry_view(x),
        ).push(entry_view(e)),
{
    v.push(e);
    assert(v@.map_values(|x: ResolverEntry| entry_view(x)) =~= old(v)@.map_values(
        |x: ResolverEntry| entry_view(x),
    ).push(entry_view(e)));
}

/// Appends each directory of `dirs`, without an import name.
fn push_plain_entries(v: &mut Vec<ResolverEntry>, dirs: &Vec<String>)
    ensures
        final(v)@.map_values(|x: ResolverEntry| entry_view(x)) == old(v)@.map_values(
            |x: ResolverEntry| entry_view(x),
        ) + plain_entries(dirs@),
{
    let ghost start = v@.map_values(|x: ResolverEntry| entry_view(x));
    let mut i: usize = 0;
    while i < dirs.len()
        invariant
            i <= dirs@.len(),
            v@.map_values(|x: ResolverEntry| entry_view(x)) == start + plain_entries(dirs@).take(i as int),
        decreases dirs@.len() - i,
    {
        push_entry(v, (None, dirs[i].clone()));
        assert(plain_entries(dirs@).take(i + 1) =~= plain_entries(dirs@).take(i as int).push(
            plain_entries(dirs@)[i as int],
        ));
        i = i + 1;
    }
    assert(plain_entries(dirs@).take(dirs@.len() as int) =~= plain_entries(dirs@));
}

/// What a mutator for a run is built from: the configuration, the compiler
/// (the run's solc, or `solc`, writing to the run's output directory, or the
/// default one, with the run's optimize flag and allowed paths) and the
/// import resolver's search list. A run without import paths is refused.
pub fn mutator_setup(params: &MutateParams) -> (r: Result<MutatorSetup, SetupError>)
    requires
        names_recognized(params.mutations),
        names_recognized(params.fallback_mutations),
        params.import_paths@.len() > 0 ==> remaps_valid(params.import_maps@),
    ensures
        params.import_paths@.len() == 0 ==> r == Err::<MutatorSetup, SetupError>(SetupError::NoImportPaths),
        params.import_paths@.len() > 0 ==> (r matches Ok(s) && s.conf.mutation_operators@ == ops_or_default(
            params.mutations,
            default_operators(),
        ) && s.conf.fallback_operators@ == ops_or_default(
            params.fallback_mutations,
            default_fallback_operators(),
        ) && opt_vec_view(s.conf.funcs_to_mutate) == opt_vec_view(params.functions) && opt_view(
            s.conf.contract,
        ) == opt_view(params.contract) && setup_solc(s.solc, *params)
            && s.resolver_entries@.map_values(|x: ResolverEntry| entry_view(x)) == resolver_plan(*params)),
{
    let conf = MutatorConf::from_params(params);
    let solc_name = match &params.solc {
        Some(s) => s.clone(),
        None => "solc".to_string(),
    };
    let outdir = match &params.outdir {
        Some(o) => o.clone(),
        None => default_gambit_output_directory(),
    };
    let mut solc = Solc::new(solc_name, outdir);
    solc.with_optimize(params.solc_optimize);
    if let Some(allow_paths) = &params.solc_allow_paths {
        let a = allow_paths.clone();
        assert(a@ =~= allow_paths@);
        solc.with_allow_paths(a);
    }
    if params.import_paths.len() == 0 {
        return Err(SetupError::NoImportPaths);
    }
    let mut entries: Vec<ResolverEntry> = Vec::new();
    push_plain_entries(&mut entries, &params.import_paths);
    let ghost e1 = entries@.map_values(|x: ResolverEntry| entry_view(x));
    let mut i: usize = 0;
    while i < params.import_maps.len()
        invariant
            i <= params.import_maps@.len(),
            remaps_valid(params.import_maps@),
            entries@.map_values(|x: ResolverEntry| entry_view(x)) == e1 + remap_entries(
                params.import_maps@,
            ).take(i as int),
        decreases params.import_maps@.len() - i,
    {
        assert(remapping_parts(params.import_maps@[i as int]@) is Some);
        let (map, path) = split_remapping(params.import_maps[i].as_str()).unwrap();
        push_entry(&mut entries, (Some(map), path));
        assert(remap_entries(params.import_maps@).take(i + 1) =~= remap_entries(params.import_maps@).take(
            i as int,
        ).push(remap_entries(params.import_maps@)[i as int]));
        i = i + 1;
    }
    assert(remap_entries(params.import_maps@).take(params.import_maps@.len() as int) =~= remap_entries(
        params.import_maps@,
    ));
    let ghost e2 = entries@.map_values(|x: ResolverEntry| entry_view(x));
    if let Some(allow_paths) = &params.solc_allow_paths {
        push_plain_entries(&mut entries, allow_paths);
    }
    assert(entries@.map_values(|x: ResolverEntry| entry_view(x)) =~= resolver_plan(*params));
    Ok(MutatorSetup { conf, solc, resolver_entries: entries })
}

/// Why a run's parameters give no mutator.
#[derive(Debug, Clone)]
pub enum SetupFailure {
    /// An operator name that stands for no operator
    UnrecognizedOperator(String),
    /// Tried to create a mutator without an import path
    NoImportPaths,
    /// A remapping without exactly one `=`
    InvalidRemapping(String),
}

/// The position of the first remapping without exactly one `=`.
pub fn first_invalid_remap(maps: &Vec<String>) -> (r: Option<usize>)
    ensures
        match r {
            Some(k) => k < maps@.len() && remapping_parts(maps@[k as int]@) is None && forall|j: int|
                0 <= j < k ==> (#[trigger] remapping_parts(maps@[j]@)) is Some,
            None => remaps_valid(maps@),
        },
{
    let mut i: usize = 0;
    while i < maps.len()
        invariant
            i <= maps@.len(),
            forall|j: int| 0 <= j < i ==> (#[trigger] remapping_parts(maps@[j]@)) is Some,
        decreases maps@.len() - i,
    {
        if split_remapping(maps[i].as_str()).is_none() {
            return Some(i);
        }
        i = i + 1;
    }
    None
}

/// What a mutator for a run is built from (see [`mutator_setup`]), with the
/// parameters checked first: an unknown operator name (among the
/// operators, then the fallback operators), a run without import paths, and
/// then a remapping without exactly one `=` are refused, in that order.
pub fn build_mutator_setup(params: &MutateParams) -> (r: Result<MutatorSetup, SetupFailure>)
    ensures
        !names_recognized(params.mutations) || !names_recognized(params.fallback_mutations) ==> (r
            matches Err(SetupFailure::UnrecognizedOperator(_))),
        names_recognized(params.mutations) && names_recognized(params.fallback_mutations)
            && params.import_paths@.len() == 0 ==> (r matches Err(SetupFailure::NoImportPaths)),
        names_recognized(params.mutations) && names_recognized(params.fallback_mutations)
            && params.import_paths@.len() > 0 && !remaps_valid(params.import_maps@) ==> (r matches Err(
            SetupFailure::InvalidRemapping(m),
        ) && exists|k: int| 0 <= k < params.import_maps@.len() && params.import_maps@[k] == m),
        names_recognized(params.mutations) && names_recognized(params.fallback_mutations)
            && params.import_paths@.len() > 0 && remaps_valid(params.import_maps@) ==> (r matches Ok(s)
            && s.conf.mutation_operators@ == ops_or_default(params.mutations, default_operators())
            && s.conf.fallback_operators@ == ops_or_default(
            params.fallback_mutations,
            default_fallback_operators(),
        ) && opt_vec_view(s.conf.funcs_to_mutate) == opt_vec_view(params.functions) && opt_view(
            s.conf.contract,
        ) == opt_view(params.contract) && setup_solc(s.solc, *params)
            && s.resolver_entries@.map_values(|x: ResolverEntry| entry_view(x)) == resolver_plan(*params)),
{
    match MutatorConf::try_from_params(params) {
        Err(name) => {
            return Err(SetupFailure::UnrecognizedOperator(name));
        },
        Ok(_) => {},
    }
    if params.import_paths.len() == 0 {
        return Err(SetupFailure::NoImportPaths);
    }
    if let Some(k) = first_invalid_remap(&params.import_maps) {
        let m = params.import_maps[k].clone();
        assert(params.import_maps@[k as int] == m);
        return Err(SetupFailure::InvalidRemapping(m));
    }
    match mutator_setup(params) {
        Ok(s) => Ok(s),
        Err(_) => Err(SetupFailure::NoImportPaths),
    }
}

} // verus!
