//! The parameters of the `mutate` and `summary` commands, their defaults, and
//! the rules that turn what a user wrote (on the command line or in a
//! configuration file) into the parameters of a run.
use vstd::prelude::*;

verus! {

/// Parameters of one mutation run: one file to mutate, and how.
///
/// `mutate` takes either a `filename` or a `json` configuration file, not
/// both. A configuration file holds one or more of these records.
#[derive(Debug, Clone)]
pub struct MutateParams {
    /// Json file with config
    pub json: Option<String>,
    /// The name of the file to mutate.
    pub filename: Option<String>,
    /// If specified, randomly downsamples the number of mutants
    pub num_mutants: Option<usize>,
    /// Use a random seed instead of the specified seed
    pub random_seed: bool,
    /// The seed for randomized down sampling (0 unless given)
    pub seed: u64,
    /// Output directory to place results of mutation
    pub outdir: Option<String>,
    /// Deprecated: root of all source files
    pub sourceroot: Option<String>,
    /// The mutation operators, by name
    pub mutations: Option<Vec<String>>,
    /// The fallback mutation operators, by name
    pub fallback_mutations: Option<Vec<String>>,
    /// Skip mutant export
    pub no_export: bool,
    /// Do not overwrite an existing output directory
    pub no_overwrite: bool,
    /// Solidity binary name
    pub solc: Option<String>,
    /// Run solc with the `--optimize` flag
    pub solc_optimize: bool,
    /// Function names to mutate
    pub functions: Option<Vec<String>>,
    /// A contract to mutate
    pub contract: Option<String>,
    /// Directories to search for solidity files during import
    pub import_paths: Vec<String>,
    /// Import remappings, each of the form `map=path`
    pub import_maps: Vec<String>,
    /// Deprecated: base path argument to solc
    pub solc_base_path: Option<String>,
    /// Deprecated: include path arguments to solc
    pub solc_include_paths: Vec<String>,
    /// Allow-path argument to solc used during validation
    pub solc_allow_paths: Option<Vec<String>>,
    /// Deprecated: solidity remappings
    pub solc_remappings: Option<Vec<String>>,
    /// Do not validate mutants by invoking solc
    pub skip_validate: bool,
    /// Log invalid mutants found during validation
    pub log_invalid: bool,
    /// Raw arguments for solc
    pub solc_raw_args: Option<Vec<String>>,
}

/// A configuration file: a list of parameter records.
#[derive(Debug, Clone)]
pub struct GambitConfigFile {
    pub configurations: Vec<MutateParams>,
}

/// Parameters of the `summary` command.
#[derive(Debug, Clone)]
pub struct SummaryParams {
    /// Mutant ids to summarize
    pub mids: Option<Vec<String>>,
    /// Summarize every mutant
    pub print_all_mids: bool,
    /// Print a short version of each mutant
    pub short: bool,
    /// The results directory of a mutation run
    pub mutation_directory: String,
}

/// The commands of the tool.
#[derive(Debug, Clone)]
pub enum Command {
    Mutate(Box<MutateParams>),
    Summary(SummaryParams),
    /// Print the current version number
    Version,
}

/// Default of `no_export`.
pub fn default_no_export_mutants() -> (r: bool)
    ensures
        r == false,
{
    false
}

/// Default of `no_overwrite`.
pub fn default_no_overwrite() -> (r: bool)
    ensures
        r == false,
{
    false
}

/// Default of `random_seed`.
pub fn default_random_seed() -> (r: bool)
    ensures
        r == false,
{
    false
}

/// Default of `seed`.
pub fn default_seed() -> (r: u64)
    ensures
        r == 0,
{
    0
}

/// Default of `skip_validate`.
pub fn default_skip_validate() -> (r: bool)
    ensures
        r == false,
{
    false
}

/// Default of `log_invalid`.
pub fn default_log_invalid() -> (r: bool)
    ensures
        r == false,
{
    false
}

/// Default of `solc_optimize`.
pub fn default_solc_optimize() -> (r: bool)
    ensures
        r == false,
{
    false
}

/// Default of `solc` in a configuration file.
pub fn default_solc() -> (r: Option<String>)
    ensures
        r is None,
{
    None
}

/// Default of `sourceroot`.
pub fn default_source_root() -> (r: Option<String>)
    ensures
        r is None,
{
    None
}

/// Default of `num_mutants`.
pub fn default_num_mutants() -> (r: Option<usize>)
    ensures
        r is None,
{
    None
}

/// Default of `solc_include_paths`.
pub fn default_include_paths() -> (r: Vec<String>)
    ensures
        r@.len() == 0,
{
    Vec::new()
}

/// Default of `import_paths` and `import_maps`.
pub fn default_import_paths() -> (r: Vec<String>)
    ensures
        r@.len() == 0,
{
    Vec::new()
}

} // verus!
