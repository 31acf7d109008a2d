//! Running mutation over a resolved program: which functions are mutated,
//! and in which order statements and expressions are visited.
use vstd::prelude::*;
use crate::mutation::{Mutant, MutationType};
use crate::operators::{
    edit_views, expr_edits, expr_edits_exec, expr_ready, lemma_edits_in_text, mutant_at,
    mutants_from_edits, stmt_edits, stmt_edits_exec, stmt_ready, Edit,
};
use crate::solidity::{check_stmt_shape, stmt_shape_ok, Expr, FunctionDef, Namespace, SourceFile, Stmt};
use crate::text::chars_of;

verus! {

/// A planned mutation: the file it is made in, the operator, the edit.
pub type Planned = (usize, MutationType, Edit);

/// The configuration of a mutator.
#[derive(Clone, Debug)]
pub struct MutatorConf {
    /// Mutation operators to apply during mutation
    pub mutation_operators: Vec<MutationType>,
    /// Operators to use when an expression or statement didn't otherwise
    /// mutate. These act as a fallback to help ensure a given program point
    /// is mutated without creating too many mutants.
    pub fallback_operators: Vec<MutationType>,
    /// If this is `Some(fnames)` then only mutate functions with names in
    /// `fnames`. If this is `None` then mutate all function names
    pub funcs_to_mutate: Option<Vec<String>>,
    /// If this is `Some(c)` then only mutate functions of contract `c`.
    pub contract: Option<String>,
}

/// The mutator: its configuration and the mutants made so far, in order of
/// generation.
pub struct Mutator {
    /// Configuration for this mutator
    pub conf: MutatorConf,
    /// The mutants, in order of generation
    pub mutants: Vec<Mutant>,
}

/// Tags edits with the file and the operator that make them.
pub open spec fn tagged(file_no: usize, op: MutationType, edits: Seq<Edit>) -> Seq<Planned> {
    Seq::new(edits.len(), |i: int| (file_no, op, edits[i]))
}

/// Whether `ms` are the mutants of `plan`, in order.
pub open spec fn mutants_planned(ms: Seq<Mutant>, files: Seq<SourceFile>, plan: Seq<Planned>) -> bool {
    &&& ms.len() == plan.len()
    &&& forall|i: int|
        0 <= i < ms.len() ==> mutant_at(
            #[trigger] ms[i],
            files[plan[i].0 as int],
            plan[i].1,
            plan[i].2,
        )
}

/// The text of the file that holds `e`.
pub open spec fn text_of_expr(files: Seq<SourceFile>, e: Expr) -> Seq<char> {
    files[e.loc->0.file_no as int].text@
}

/// The mutations that the operators of `ops`, except those in `skip`, make
/// at expression node `e`, operator by operator; none when `e` is not in a
/// file.
pub open spec fn node_plan(
    ops: Seq<MutationType>,
    skip: Seq<MutationType>,
    files: Seq<SourceFile>,
    e: Expr,
) -> Seq<Planned>
    decreases ops.len(),
{
    if ops.len() == 0 || e.loc is None {
        Seq::empty()
    } else {
        let rest = node_plan(ops.drop_last(), skip, files, e);
        let op = ops.last();
        if skip.contains(op) {
            rest
        } else {
            rest + tagged(e.loc->0.file_no, op, expr_edits(op, e, text_of_expr(files, e)))
        }
    }
}

/// The mutations made at each of `nodes`, in order.
pub open spec fn nodes_plan(
    ops: Seq<MutationType>,
    skip: Seq<MutationType>,
    files: Seq<SourceFile>,
    nodes: Seq<Expr>,
) -> Seq<Planned>
    decreases nodes.len(),
{
    if nodes.len() == 0 {
        Seq::empty()
    } else {
        nodes_plan(ops, skip, files, nodes.drop_last()) + node_plan(ops, skip, files, nodes.last())
    }
}

/// The mutations that the operators of `ops` make at statement `s` itself;
/// none when `s` is not in a file.
pub open spec fn stmt_level_plan(ops: Seq<MutationType>, files: Seq<SourceFile>, s: Stmt) -> Seq<
    Planned,
>
    decreases ops.len(),
{
    if ops.len() == 0 || s.loc is None {
        Seq::empty()
    } else {
        stmt_level_plan(ops.drop_last(), files, s) + tagged(
            s.loc->0.file_no,
            ops.last(),
            stmt_edits(ops.last(), s, files[s.loc->0.file_no as int].text@),
        )
    }
}

/// The nodes that fallback operators try at `s`: its fallback parts, then
/// its expression.
pub open spec fn fallback_nodes(s: Stmt) -> Seq<Expr> {
    s.fallback_parts@.push(s.expr@[0])
}

/// The mutations made at statement `s`: first those at the statement
/// itself, then those at each node of its expression (operators that are
/// fallbacks are left out); when that gives none and the statement has an
/// expression, the fallback operators are tried at its fallback parts and
/// then at the expression.
pub open spec fn stmt_plan(
    ops: Seq<MutationType>,
    fallback: Seq<MutationType>,
    files: Seq<SourceFile>,
    s: Stmt,
) -> Seq<Planned> {
    let a = stmt_level_plan(ops, files, s);
    let b = nodes_plan(ops, fallback, files, s.expr@);
    let c = if s.expr@.len() > 0 && b.len() == 0 {
        nodes_plan(fallback, Seq::empty(), files, fallback_nodes(s))
    } else {
        Seq::empty()
    };
    a + b + c
}

/// The mutations made at each statement of `stmts`, in order.
pub open spec fn stmts_plan(
    ops: Seq<MutationType>,
    fallback: Seq<MutationType>,
    files: Seq<SourceFile>,
    stmts: Seq<Stmt>,
) -> Seq<Planned>
    decreases stmts.len(),
{
    if stmts.len() == 0 {
        Seq::empty()
    } else {
        stmts_plan(ops, fallback, files, stmts.drop_last()) + stmt_plan(
            ops,
            fallback,
            files,
            stmts.last(),
        )
    }
}

/// Whether the texts in `chars` are those of `files`.
pub open spec fn chars_match(chars: Seq<Vec<char>>, files: Seq<SourceFile>) -> bool {
    &&& chars.len() == files.len()
    &&& forall|i: int| 0 <= i < chars.len() ==> (#[trigger] chars[i])@ == files[i].text@
}

/// Whether the operators of `ops` not in `skip` can be applied to node `e`.
pub open spec fn node_ready(
    ops: Seq<MutationType>,
    skip: Seq<MutationType>,
    files: Seq<SourceFile>,
    e: Expr,
) -> bool {
    e.loc is Some ==> {
        &&& e.loc->0.file_no < files.len()
        &&& forall|i: int|
            0 <= i < ops.len() && !skip.contains(ops[i]) ==> expr_ready(
                #[trigger] ops[i],
                e,
                text_of_expr(files, e),
            )
    }
}

/// Whether mutation can visit statement `s` without reading outside the
/// program's texts.
pub open spec fn stmt_ok(
    ops: Seq<MutationType>,
    fallback: Seq<MutationType>,
    files: Seq<SourceFile>,
    s: Stmt,
) -> bool {
    &&& s.loc is Some ==> s.loc->0.file_no < files.len() && stmt_ready(
        s,
        files[s.loc->0.file_no as int].text@,
    )
    &&& forall|j: int| 0 <= j < s.expr@.len() ==> node_ready(ops, fallback, files, #[trigger] s.expr@[j])
    &&& forall|j: int|
        0 <= j < s.fallback_parts@.len() ==> node_ready(
            fallback,
            Seq::empty(),
            files,
            #[trigger] s.fallback_parts@[j],
        )
    &&& s.expr@.len() > 0 ==> node_ready(fallback, Seq::empty(), files, s.expr@[0])
    &&& stmt_shape_ok(s)
}

/// Concatenating mutants concatenates their plans.
pub proof fn lemma_planned_concat(
    a: Seq<Mutant>,
    b: Seq<Mutant>,
    files: Seq<SourceFile>,
    p: Seq<Planned>,
    q: Seq<Planned>,
)
    requires
        mutants_planned(a, files, p),
        mutants_planned(b, files, q),
    ensures
        mutants_planned(a + b, files, p + q),
{
    assert forall|i: int| 0 <= i < (a + b).len() implies mutant_at(
        #[trigger] (a + b)[i],
        files[(p + q)[i].0 as int],
        (p + q)[i].1,
        (p + q)[i].2,
    ) by {
        if i < a.len() {
            assert((a + b)[i] == a[i]);
            assert((p + q)[i] == p[i]);
        } else {
            assert((a + b)[i] == b[i - a.len()]);
            assert((p + q)[i] == q[i - a.len()]);
        }
    }
}

/// Whether `op` occurs in `v`.
fn contains_op(v: &Vec<MutationType>, op: MutationType) -> (r: bool)
    ensures
        r == v@.contains(op),
{
    let mut i: usize = 0;
    while i < v.len()
        invariant
            i <= v@.len(),
            forall|j: int| 0 <= j < i ==> v@[j] != op,
        decreases v@.len() - i,
    {
        if v[i] == op {
            assert(v@[i as int] == op);
            return true;
        }
        i = i + 1;
    }
    false
}

/// The mutants that the operators of `ops`, except those in `skip`, make at
/// node `e`.
pub fn node_mutants(
    ops: &Vec<MutationType>,
    skip: &Vec<MutationType>,
    files: &Vec<SourceFile>,
    chars: &Vec<Vec<char>>,
    e: &Expr,
) -> (r: Vec<Mutant>)
    requires
        chars_match(chars@, files@),
        node_ready(ops@, skip@, files@, *e),
    ensures
        mutants_planned(r@, files@, node_plan(ops@, skip@, files@, *e)),
{
    let mut r: Vec<Mutant> = Vec::new();
    if e.loc.is_none() {
        return r;
    }
    let loc = e.loc.unwrap();
    let file = &files[loc.file_no];
    let text = &chars[loc.file_no];
    let mut i: usize = 0;
    while i < ops.len()
        invariant
            i <= ops@.len(),
            chars_match(chars@, files@),
            node_ready(ops@, skip@, files@, *e),
            e.loc == Some(loc),
            loc.file_no < files@.len(),
            *file == files@[loc.file_no as int],
            text@ == file.text@,
            mutants_planned(r@, files@, node_plan(ops@.take(i as int), skip@, files@, *e)),
        decreases ops@.len() - i,
    {
        let op = ops[i];
        proof {
            assert(ops@.take(i + 1).drop_last() == ops@.take(i as int));
            assert(ops@.take(i + 1).last() == op);
        }
        if !contains_op(skip, op) {
            proof {
                assert(expr_ready(ops@[i as int], *e, text_of_expr(files@, *e)));
                lemma_edits_in_text(op, *e, text@);
            }
            let edits = expr_edits_exec(op, e, text);
            proof {
                assert forall|k: int| 0 <= k < edits@.len() implies (
                #[trigger] edits@[k]).0.start <= text@.len() by {
                    assert(edit_views(edits@)[k].0 == edits@[k].0);
                }
            }
            let mut ms = mutants_from_edits(file, text, op, edits);
            let ghost plan = tagged(loc.file_no, op, expr_edits(op, *e, text@));
            proof {
                assert(mutants_planned(ms@, files@, plan));
                lemma_planned_concat(
                    r@,
                    ms@,
                    files@,
                    node_plan(ops@.take(i as int), skip@, files@, *e),
                    plan,
                );
            }
            r.append(&mut ms);
        }
        i = i + 1;
    }
    assert(ops@.take(ops@.len() as int) == ops@);
    r
}

} // verus!

verus! {

/// The mutants made at each of `nodes`, in order.
pub fn nodes_mutants(
    ops: &Vec<MutationType>,
    skip: &Vec<MutationType>,
    files: &Vec<SourceFile>,
    chars: &Vec<Vec<char>>,
    nodes: &Vec<Expr>,
) -> (r: Vec<Mutant>)
    requires
        chars_match(chars@, files@),
        forall|j: int| 0 <= j < nodes@.len() ==> node_ready(ops@, skip@, files@, #[trigger] nodes@[j]),
    ensures
        mutants_planned(r@, files@, nodes_plan(ops@, skip@, files@, nodes@)),
{
    let mut r: Vec<Mutant> = Vec::new();
    let mut i: usize = 0;
    while i < nodes.len()
        invariant
            i <= nodes@.len(),
            chars_match(chars@, files@),
            forall|j: int| 0 <= j < nodes@.len() ==> node_ready(ops@, skip@, files@, #[trigger] nodes@[j]),
            mutants_planned(r@, files@, nodes_plan(ops@, skip@, files@, nodes@.take(i as int))),
        decreases nodes@.len() - i,
    {
        proof {
            assert(nodes@.take(i + 1).drop_last() == nodes@.take(i as int));
            assert(nodes@.take(i + 1).last() == nodes@[i as int]);
        }
        let mut ms = node_mutants(ops, skip, files, chars, &nodes[i]);
        proof {
            lemma_planned_concat(
                r@,
                ms@,
                files@,
                nodes_plan(ops@, skip@, files@, nodes@.take(i as int)),
                node_plan(ops@, skip@, files@, nodes@[i as int]),
            );
        }
        r.append(&mut ms);
        i = i + 1;
    }
    assert(nodes@.take(nodes@.len() as int) == nodes@);
    r
}

/// The mutants that the operators of `ops` make at statement `s` itself.
pub fn stmt_level_mutants(
    ops: &Vec<MutationType>,
    files: &Vec<SourceFile>,
    chars: &Vec<Vec<char>>,
    s: &Stmt,
) -> (r: Vec<Mutant>)
    requires
        chars_match(chars@, files@),
        s.loc is Some ==> s.loc->0.file_no < files@.len() && stmt_ready(
            *s,
            files@[s.loc->0.file_no as int].text@,
        ),
    ensures
        mutants_planned(r@, files@, stmt_level_plan(ops@, files@, *s)),
{
    let mut r: Vec<Mutant> = Vec::new();
    if s.loc.is_none() {
        return r;
    }
    let loc = s.loc.unwrap();
    let file = &files[loc.file_no];
    let text = &chars[loc.file_no];
    let mut i: usize = 0;
    while i < ops.len()
        invariant
            i <= ops@.len(),
            chars_match(chars@, files@),
            s.loc == Some(loc),
            loc.file_no < files@.len(),
            *file == files@[loc.file_no as int],
            text@ == file.text@,
            stmt_ready(*s, text@),
            mutants_planned(r@, files@, stmt_level_plan(ops@.take(i as int), files@, *s)),
        decreases ops@.len() - i,
    {
        let op = ops[i];
        proof {
            assert(ops@.take(i + 1).drop_last() == ops@.take(i as int));
            assert(ops@.take(i + 1).last() == op);
        }
        let edits = stmt_edits_exec(op, s, text);
        proof {
            assert forall|k: int| 0 <= k < edits@.len() implies (
            #[trigger] edits@[k]).0.start <= text@.len() by {
                assert(edit_views(edits@)[k].0 == edits@[k].0);
                assert(edit_views(edits@)[k] == stmt_edits(op, *s, text@)[k]);
                if op == MutationType::StatementDeletion && crate::operators::is_deletable(s.kind) {
                    assert(edit_views(edits@).len() == edits@.len());
                    assert(stmt_edits(op, *s, text@).len() == 1);
                    assert(k == 0);
                    assert(stmt_edits(op, *s, text@)[0].0 == s.loc->0);
                } else {
                    assert(stmt_edits(op, *s, text@).len() == 0);
                }
            }
        }
        let mut ms = mutants_from_edits(file, text, op, edits);
        let ghost plan = tagged(loc.file_no, op, stmt_edits(op, *s, text@));
        proof {
            lemma_planned_concat(
                r@,
                ms@,
                files@,
                stmt_level_plan(ops@.take(i as int), files@, *s),
                plan,
            );
        }
        r.append(&mut ms);
        i = i + 1;
    }
    assert(ops@.take(ops@.len() as int) == ops@);
    r
}

/// The mutants made at statement `s` (`mutate_statement`): at the statement
/// itself, at each node of its expression, and, when those nodes gave none,
/// by the fallback operators.
pub fn stmt_mutants(
    ops: &Vec<MutationType>,
    fallback: &Vec<MutationType>,
    files: &Vec<SourceFile>,
    chars: &Vec<Vec<char>>,
    s: &Stmt,
) -> (r: Vec<Mutant>)
    requires
        chars_match(chars@, files@),
        stmt_ok(ops@, fallback@, files@, *s),
    ensures
        mutants_planned(r@, files@, stmt_plan(ops@, fallback@, files@, *s)),
{
    let mut r = stmt_level_mutants(ops, files, chars, s);
    let mut b = nodes_mutants(ops, fallback, files, chars, &s.expr);
    let ghost pa = stmt_level_plan(ops@, files@, *s);
    let ghost pb = nodes_plan(ops@, fallback@, files@, s.expr@);
    proof {
        lemma_planned_concat(r@, b@, files@, pa, pb);
    }
    let none = b.len() == 0;
    r.append(&mut b);
    if s.expr.len() > 0 && none {
        let empty: Vec<MutationType> = Vec::new();
        assert(empty@ =~= Seq::<MutationType>::empty());
        let mut c = nodes_mutants(fallback, &empty, files, chars, &s.fallback_parts);
        let mut d = node_mutants(fallback, &empty, files, chars, &s.expr[0]);
        proof {
            let parts = s.fallback_parts@;
            let all = fallback_nodes(*s);
            assert(all.drop_last() == parts);
            assert(all.last() == s.expr@[0]);
            lemma_planned_concat(
                c@,
                d@,
                files@,
                nodes_plan(fallback@, empty@, files@, parts),
                node_plan(fallback@, empty@, files@, s.expr@[0]),
            );
            lemma_planned_concat(
                r@,
                c@ + d@,
                files@,
                pa + pb,
                nodes_plan(fallback@, Seq::empty(), files@, all),
            );
        }
        c.append(&mut d);
        r.append(&mut c);
    } else {
        proof {
            assert(pa + pb + Seq::<Planned>::empty() == pa + pb);
        }
    }
    r
}

/// The mutants made at each statement of `stmts`, in order.
pub fn stmts_mutants(
    ops: &Vec<MutationType>,
    fallback: &Vec<MutationType>,
    files: &Vec<SourceFile>,
    chars: &Vec<Vec<char>>,
    stmts: &Vec<Stmt>,
) -> (r: Vec<Mutant>)
    requires
        chars_match(chars@, files@),
        forall|j: int| 0 <= j < stmts@.len() ==> stmt_ok(ops@, fallback@, files@, #[trigger] stmts@[j]),
    ensures
        mutants_planned(r@, files@, stmts_plan(ops@, fallback@, files@, stmts@)),
{
    let mut r: Vec<Mutant> = Vec::new();
    let mut i: usize = 0;
    while i < stmts.len()
        invariant
            i <= stmts@.len(),
            chars_match(chars@, files@),
            forall|j: int| 0 <= j < stmts@.len() ==> stmt_ok(ops@, fallback@, files@, #[trigger] stmts@[j]),
            mutants_planned(r@, files@, stmts_plan(ops@, fallback@, files@, stmts@.take(i as int))),
        decreases stmts@.len() - i,
    {
        proof {
            assert(stmts@.take(i + 1).drop_last() == stmts@.take(i as int));
            assert(stmts@.take(i + 1).last() == stmts@[i as int]);
        }
        let mut ms = stmt_mutants(ops, fallback, files, chars, &stmts[i]);
        proof {
            lemma_planned_concat(
                r@,
                ms@,
                files@,
                stmts_plan(ops@, fallback@, files@, stmts@.take(i as int)),
                stmt_plan(ops@, fallback@, files@, stmts@[i as int]),
            );
        }
        r.append(&mut ms);
        i = i + 1;
    }
    assert(stmts@.take(stmts@.len() as int) == stmts@);
    r
}

/// The texts of the files, as characters.
pub fn file_chars(files: &Vec<SourceFile>) -> (r: Vec<Vec<char>>)
    ensures
        chars_match(r@, files@),
{
    let mut r: Vec<Vec<char>> = Vec::new();
    let mut i: usize = 0;
    while i < files.len()
        invariant
            i <= files@.len(),
            r@.len() == i,
            forall|j: int| 0 <= j < i ==> (#[trigger] r@[j])@ == files@[j].text@,
        decreases files@.len() - i,
    {
        r.push(chars_of(files[i].text.as_str()));
        i = i + 1;
    }
    r
}

/// The name of the contract that holds `f`, or the empty name.
pub open spec fn contract_name(f: FunctionDef) -> Seq<char> {
    match f.contract {
        Some(c) => c@,
        None => Seq::empty(),
    }
}

/// The views of a vector of strings.
pub open spec fn names_of(v: Seq<String>) -> Seq<Seq<char>> {
    Seq::new(v.len(), |i: int| v[i]@)
}

/// Whether mutation visits function `f` when mutating the file at `target`:
/// the function is in that file, is not an accessor, has a body, is among
/// the functions to mutate (if those are given) and is in the contract to
/// mutate (if one is given).
pub open spec fn is_selected(conf: MutatorConf, files: Seq<SourceFile>, target: Seq<char>, f: FunctionDef) -> bool {
    &&& f.file_no < files.len()
    &&& files[f.file_no as int].path@ == target
    &&& !f.is_accessor
    &&& f.has_body
    &&& (conf.funcs_to_mutate matches Some(fs) ==> names_of(fs@).contains(f.name@))
    &&& (conf.contract matches Some(c) ==> contract_name(f) == c@)
}

/// The mutations made in the functions of `fns` that are selected, in order.
pub open spec fn functions_plan(
    conf: MutatorConf,
    files: Seq<SourceFile>,
    target: Seq<char>,
    fns: Seq<FunctionDef>,
) -> Seq<Planned>
    decreases fns.len(),
{
    if fns.len() == 0 {
        Seq::empty()
    } else {
        let rest = functions_plan(conf, files, target, fns.drop_last());
        let f = fns.last();
        if is_selected(conf, files, target, f) {
            rest + stmts_plan(
                conf.mutation_operators@,
                conf.fallback_operators@,
                files,
                f.body@,
            )
        } else {
            rest
        }
    }
}

/// Whether mutation can visit all statements of the selected functions of
/// `ns` without reading outside its texts.
pub open spec fn namespace_ok(conf: MutatorConf, ns: Namespace, target: Seq<char>) -> bool {
    forall|i: int, j: int|
        0 <= i < ns.functions@.len() && is_selected(conf, ns.files@, target, ns.functions@[i])
            && 0 <= j < ns.functions@[i].body@.len() ==> stmt_ok(
            conf.mutation_operators@,
            conf.fallback_operators@,
            ns.files@,
            #[trigger] ns.functions@[i].body@[j],
        )
}

/// Whether `v` holds a string equal to `s`.
fn contains_name(v: &Vec<String>, s: &String) -> (r: bool)
    ensures
        r == names_of(v@).contains(s@),
{
    let mut i: usize = 0;
    while i < v.len()
        invariant
            i <= v@.len(),
            forall|j: int| 0 <= j < i ==> v@[j]@ != s@,
        decreases v@.len() - i,
    {
        if v[i] == *s {
            assert(names_of(v@)[i as int] == s@);
            return true;
        }
        i = i + 1;
    }
    proof {
        if names_of(v@).contains(s@) {
            let k = choose|k: int| 0 <= k < names_of(v@).len() && names_of(v@)[k] == s@;
            assert(v@[k]@ == s@);
        }
    }
    false
}

impl Mutator {
    /// Whether `f` is mutated when the file at `target` is mutated.
    pub fn selects(&self, files: &Vec<SourceFile>, target: &String, f: &FunctionDef) -> (r: bool)
        ensures
            r == is_selected(self.conf, files@, target@, *f),
    {
        if f.file_no >= files.len() {
            return false;
        }
        if files[f.file_no].path != *target {
            return false;
        }
        if f.is_accessor || !f.has_body {
            return false;
        }
        if let Some(fs) = &self.conf.funcs_to_mutate {
            if !contains_name(fs, &f.name) {
                return false;
            }
        }
        if let Some(c) = &self.conf.contract {
            let name = match &f.contract {
                Some(n) => n.clone(),
                None => String::new(),
            };
            if name != *c {
                return false;
            }
        }
        true
    }
}

} // verus!

verus! {

impl Mutator {
    /// A mutator with configuration `conf` and no mutants yet.
    pub fn new(conf: MutatorConf) -> (m: Mutator)
        ensures
            m.conf == conf,
            m.mutants@ == Seq::<Mutant>::empty(),
    {
        Mutator { conf, mutants: Vec::new() }
    }

    /// The mutation operators.
    pub fn mutation_operators(&self) -> (r: &Vec<MutationType>)
        ensures
            *r == self.conf.mutation_operators,
    {
        &self.conf.mutation_operators
    }

    /// The fallback operators.
    pub fn fallback_mutation_operators(&self) -> (r: &Vec<MutationType>)
        ensures
            *r == self.conf.fallback_operators,
    {
        &self.conf.fallback_operators
    }

    /// The mutants made so far, in order of generation.
    pub fn mutants(&self) -> (r: &Vec<Mutant>)
        ensures
            *r == self.mutants,
    {
        &self.mutants
    }

    /// Applies the mutation operators that are not fallbacks to node `e` and
    /// adds the mutants; returns how many were added.
    pub fn apply_operators_to_expression(
        &mut self,
        files: &Vec<SourceFile>,
        chars: &Vec<Vec<char>>,
        e: &Expr,
    ) -> (n: usize)
        requires
            chars_match(chars@, files@),
            node_ready(
                old(self).conf.mutation_operators@,
                old(self).conf.fallback_operators@,
                files@,
                *e,
            ),
        ensures
            final(self).conf == old(self).conf,
            final(self).mutants@.take(old(self).mutants@.len() as int) == old(self).mutants@,
            n == final(self).mutants@.len() - old(self).mutants@.len(),
            mutants_planned(
                final(self).mutants@.skip(old(self).mutants@.len() as int),
                files@,
                node_plan(
                    old(self).conf.mutation_operators@,
                    old(self).conf.fallback_operators@,
                    files@,
                    *e,
                ),
            ),
    {
        let mut ms = node_mutants(
            &self.conf.mutation_operators,
            &self.conf.fallback_operators,
            files,
            chars,
            e,
        );
        let n = ms.len();
        let ghost before = self.mutants@;
        let ghost added = ms@;
        self.mutants.append(&mut ms);
        assert(self.mutants@.take(before.len() as int) =~= before);
        assert(self.mutants@.skip(before.len() as int) =~= added);
        n
    }

    /// Applies the fallback operators to node `e` and adds the mutants;
    /// returns how many were added.
    pub fn apply_fallback_operators_to_expression(
        &mut self,
        files: &Vec<SourceFile>,
        chars: &Vec<Vec<char>>,
        e: &Expr,
    ) -> (n: usize)
        requires
            chars_match(chars@, files@),
            node_ready(old(self).conf.fallback_operators@, Seq::empty(), files@, *e),
        ensures
            final(self).conf == old(self).conf,
            final(self).mutants@.take(old(self).mutants@.len() as int) == old(self).mutants@,
            n == final(self).mutants@.len() - old(self).mutants@.len(),
            mutants_planned(
                final(self).mutants@.skip(old(self).mutants@.len() as int),
                files@,
                node_plan(old(self).conf.fallback_operators@, Seq::empty(), files@, *e),
            ),
    {
        let empty: Vec<MutationType> = Vec::new();
        assert(empty@ =~= Seq::<MutationType>::empty());
        let mut ms = node_mutants(&self.conf.fallback_operators, &empty, files, chars, e);
        let n = ms.len();
        let ghost before = self.mutants@;
        let ghost added = ms@;
        self.mutants.append(&mut ms);
        assert(self.mutants@.take(before.len() as int) =~= before);
        assert(self.mutants@.skip(before.len() as int) =~= added);
        n
    }

    /// Applies the mutation operators to statement `s` itself and adds the
    /// mutants; returns how many were added.
    pub fn apply_operators_to_statement(
        &mut self,
        files: &Vec<SourceFile>,
        chars: &Vec<Vec<char>>,
        s: &Stmt,
    ) -> (n: usize)
        requires
            chars_match(chars@, files@),
            s.loc is Some ==> s.loc->0.file_no < files@.len() && stmt_ready(
                *s,
                files@[s.loc->0.file_no as int].text@,
            ),
        ensures
            final(self).conf == old(self).conf,
            final(self).mutants@.take(old(self).mutants@.len() as int) == old(self).mutants@,
            n == final(self).mutants@.len() - old(self).mutants@.len(),
            mutants_planned(
                final(self).mutants@.skip(old(self).mutants@.len() as int),
                files@,
                stmt_level_plan(old(self).conf.mutation_operators@, files@, *s),
            ),
    {
        let mut ms = stmt_level_mutants(&self.conf.mutation_operators, files, chars, s);
        let n = ms.len();
        let ghost before = self.mutants@;
        let ghost added = ms@;
        self.mutants.append(&mut ms);
        assert(self.mutants@.take(before.len() as int) =~= before);
        assert(self.mutants@.skip(before.len() as int) =~= added);
        n
    }

    /// Mutates the selected functions of the program `ns` for the file at
    /// `target`, visiting their statements in order, and adds the mutants.
    pub fn mutate_file(&mut self, ns: &Namespace, target: &String)
        requires
            namespace_ok(old(self).conf, *ns, target@),
        ensures
            final(self).conf == old(self).conf,
            final(self).mutants@.take(old(self).mutants@.len() as int) == old(self).mutants@,
            mutants_planned(
                final(self).mutants@.skip(old(self).mutants@.len() as int),
                ns.files@,
                functions_plan(old(self).conf, ns.files@, target@, ns.functions@),
            ),
    {
        let chars = file_chars(&ns.files);
        let ghost before = self.mutants@;
        let ghost conf = self.conf;
        let mut i: usize = 0;
        while i < ns.functions.len()
            invariant
                i <= ns.functions@.len(),
                chars_match(chars@, ns.files@),
                self.conf == conf,
                namespace_ok(conf, *ns, target@),
                self.mutants@.take(before.len() as int) == before,
                self.mutants@.len() >= before.len(),
                mutants_planned(
                    self.mutants@.skip(before.len() as int),
                    ns.files@,
                    functions_plan(conf, ns.files@, target@, ns.functions@.take(i as int)),
                ),
            decreases ns.functions@.len() - i,
        {
            let f = &ns.functions[i];
            proof {
                assert(ns.functions@.take(i + 1).drop_last() == ns.functions@.take(i as int));
                assert(ns.functions@.take(i + 1).last() == *f);
            }
            if self.selects(&ns.files, target, f) {
                proof {
                    assert forall|j: int| 0 <= j < f.body@.len() implies stmt_ok(
                        conf.mutation_operators@,
                        conf.fallback_operators@,
                        ns.files@,
                        #[trigger] f.body@[j],
                    ) by {
                        assert(ns.functions@[i as int].body@[j] == f.body@[j]);
                    }
                }
                let mut ms = stmts_mutants(
                    &self.conf.mutation_operators,
                    &self.conf.fallback_operators,
                    &ns.files,
                    &chars,
                    &f.body,
                );
                let ghost prev = self.mutants@;
                let ghost added = ms@;
                proof {
                    lemma_planned_concat(
                        prev.skip(before.len() as int),
                        added,
                        ns.files@,
                        functions_plan(conf, ns.files@, target@, ns.functions@.take(i as int)),
                        stmts_plan(
                            conf.mutation_operators@,
                            conf.fallback_operators@,
                            ns.files@,
                            f.body@,
                        ),
                    );
                }
                self.mutants.append(&mut ms);
                assert(self.mutants@.take(before.len() as int) =~= before);
                assert(self.mutants@.skip(before.len() as int) =~= prev.skip(before.len() as int)
                    + added);
            }
            i = i + 1;
        }
        assert(ns.functions@.take(ns.functions@.len() as int) == ns.functions@);
    }
}

/// Mutates statement `s` (`mutate_statement`): adds its mutants and returns
/// whether the statements nested in it are to be visited, which is all but
/// for placeholder (`_`) and assembly statements.
pub fn mutate_statement(
    s: &Stmt,
    mutator: &mut Mutator,
    files: &Vec<SourceFile>,
    chars: &Vec<Vec<char>>,
) -> (descend: bool)
    requires
        chars_match(chars@, files@),
        stmt_ok(old(mutator).conf.mutation_operators@, old(mutator).conf.fallback_operators@, files@, *s),
    ensures
        final(mutator).conf == old(mutator).conf,
        final(mutator).mutants@.take(old(mutator).mutants@.len() as int) == old(mutator).mutants@,
        mutants_planned(
            final(mutator).mutants@.skip(old(mutator).mutants@.len() as int),
            files@,
            stmt_plan(
                old(mutator).conf.mutation_operators@,
                old(mutator).conf.fallback_operators@,
                files@,
                *s,
            ),
        ),
        descend == !(s.kind == crate::solidity::StmtKind::Underscore || s.kind
            == crate::solidity::StmtKind::Assembly),
{
    let mut ms = stmt_mutants(
        &mutator.conf.mutation_operators,
        &mutator.conf.fallback_operators,
        files,
        chars,
        s,
    );
    let ghost before = mutator.mutants@;
    let ghost added = ms@;
    mutator.mutants.append(&mut ms);
    assert(mutator.mutants@.take(before.len() as int) =~= before);
    assert(mutator.mutants@.skip(before.len() as int) =~= added);
    crate::solidity::visits_nested(&s.kind)
}

} // verus!

verus! {

/// Tests [`node_ready`].
pub fn check_node_ready(
    ops: &Vec<MutationType>,
    skip: &Vec<MutationType>,
    files: &Vec<SourceFile>,
    chars: &Vec<Vec<char>>,
    e: &Expr,
) -> (r: bool)
    requires
        chars_match(chars@, files@),
    ensures
        r == node_ready(ops@, skip@, files@, *e),
{
    let loc = match e.loc {
        Some(l) => l,
        None => return true,
    };
    if loc.file_no >= files.len() {
        return false;
    }
    let text = &chars[loc.file_no];
    let mut i: usize = 0;
    while i < ops.len()
        invariant
            i <= ops@.len(),
            e.loc == Some(loc),
            loc.file_no < files@.len(),
            chars_match(chars@, files@),
            text@ == files@[loc.file_no as int].text@,
            forall|j: int|
                0 <= j < i && !skip@.contains(ops@[j]) ==> crate::operators::expr_ready(
                    #[trigger] ops@[j],
                    *e,
                    text_of_expr(files@, *e),
                ),
        decreases ops@.len() - i,
    {
        if !contains_op(skip, ops[i]) && !crate::operators::check_expr_ready(ops[i], e, text) {
            return false;
        }
        i = i + 1;
    }
    true
}

/// Tests [`node_ready`] for each of `nodes`.
fn check_nodes_ready(
    ops: &Vec<MutationType>,
    skip: &Vec<MutationType>,
    files: &Vec<SourceFile>,
    chars: &Vec<Vec<char>>,
    nodes: &Vec<Expr>,
) -> (r: bool)
    requires
        chars_match(chars@, files@),
    ensures
        r == forall|j: int| 0 <= j < nodes@.len() ==> node_ready(ops@, skip@, files@, #[trigger] nodes@[j]),
{
    let mut i: usize = 0;
    while i < nodes.len()
        invariant
            i <= nodes@.len(),
            chars_match(chars@, files@),
            forall|j: int| 0 <= j < i ==> node_ready(ops@, skip@, files@, #[trigger] nodes@[j]),
        decreases nodes@.len() - i,
    {
        if !check_node_ready(ops, skip, files, chars, &nodes[i]) {
            return false;
        }
        i = i + 1;
    }
    true
}

/// Tests [`stmt_ok`].
pub fn check_stmt_ok(
    ops: &Vec<MutationType>,
    fallback: &Vec<MutationType>,
    files: &Vec<SourceFile>,
    chars: &Vec<Vec<char>>,
    s: &Stmt,
) -> (r: bool)
    requires
        chars_match(chars@, files@),
    ensures
        r == stmt_ok(ops@, fallback@, files@, *s),
{
    if let Some(l) = s.loc {
        if l.file_no >= files.len() {
            return false;
        }
        let n = chars[l.file_no].len();
        if !(l.start <= l.end && l.end <= n) {
            return false;
        }
    }
    if !check_nodes_ready(ops, fallback, files, chars, &s.expr) {
        return false;
    }
    let empty: Vec<MutationType> = Vec::new();
    assert(empty@ =~= Seq::<MutationType>::empty());
    if !check_nodes_ready(fallback, &empty, files, chars, &s.fallback_parts) {
        return false;
    }
    if s.expr.len() > 0 && !check_node_ready(fallback, &empty, files, chars, &s.expr[0]) {
        return false;
    }
    check_stmt_shape(s)
}

impl Mutator {
    /// Tests [`namespace_ok`] for this mutator's configuration.
    pub fn can_mutate(&self, ns: &Namespace, target: &String) -> (r: bool)
        ensures
            r == namespace_ok(self.conf, *ns, target@),
    {
        let chars = file_chars(&ns.files);
        let mut i: usize = 0;
        while i < ns.functions.len()
            invariant
                i <= ns.functions@.len(),
                chars_match(chars@, ns.files@),
                forall|a: int, b: int|
                    0 <= a < i && is_selected(self.conf, ns.files@, target@, ns.functions@[a])
                        && 0 <= b < ns.functions@[a].body@.len() ==> stmt_ok(
                        self.conf.mutation_operators@,
                        self.conf.fallback_operators@,
                        ns.files@,
                        #[trigger] ns.functions@[a].body@[b],
                    ),
            decreases ns.functions@.len() - i,
        {
            let f = &ns.functions[i];
            if self.selects(&ns.files, target, f) {
                let mut j: usize = 0;
                while j < f.body.len()
                    invariant
                        j <= f.body@.len(),
                        i < ns.functions@.len(),
                        *f == ns.functions@[i as int],
                        is_selected(self.conf, ns.files@, target@, *f),
                        chars_match(chars@, ns.files@),
                        forall|b: int|
                            0 <= b < j ==> stmt_ok(
                                self.conf.mutation_operators@,
                                self.conf.fallback_operators@,
                                ns.files@,
                                #[trigger] f.body@[b],
                            ),
                    decreases f.body@.len() - j,
                {
                    if !check_stmt_ok(
                        &self.conf.mutation_operators,
                        &self.conf.fallback_operators,
                        &ns.files,
                        &chars,
                        &f.body[j],
                    ) {
                        assert(!stmt_ok(
                            self.conf.mutation_operators@,
                            self.conf.fallback_operators@,
                            ns.files@,
                            ns.functions@[i as int].body@[j as int],
                        ));
                        return false;
                    }
                    j = j + 1;
                }
            }
            i = i + 1;
        }
        true
    }
}

} // verus!

verus! {

/// Function filters: where no function of `fns` is selected (none is in the
/// file, or named among the functions to mutate, or in the contract to
/// mutate), no mutation is planned.
pub proof fn law_unselected_functions_unmutated(
    conf: MutatorConf,
    files: Seq<SourceFile>,
    target: Seq<char>,
    fns: Seq<FunctionDef>,
)
    requires
        forall|i: int| 0 <= i < fns.len() ==> !is_selected(conf, files, target, #[trigger] fns[i]),
    ensures
        functions_plan(conf, files, target, fns) == Seq::<Planned>::empty(),
    decreases fns.len(),
{
    if fns.len() > 0 {
        assert forall|i: int| 0 <= i < fns.drop_last().len() implies !is_selected(
            conf,
            files,
            target,
            #[trigger] fns.drop_last()[i],
        ) by {
            assert(fns.drop_last()[i] == fns[i]);
        }
        law_unselected_functions_unmutated(conf, files, target, fns.drop_last());
        assert(!is_selected(conf, files, target, fns[fns.len() - 1]));
    }
}

} // verus!

verus! {

/// Whether every planned mutation uses an operator of `allowed`.
pub open spec fn ops_within(plan: Seq<Planned>, allowed: Seq<MutationType>) -> bool {
    forall|i: int| 0 <= i < plan.len() ==> allowed.contains(#[trigger] plan[i].1)
}

proof fn lemma_ops_within_concat(a: Seq<Planned>, b: Seq<Planned>, allowed: Seq<MutationType>)
    requires
        ops_within(a, allowed),
        ops_within(b, allowed),
    ensures
        ops_within(a + b, allowed),
{
    assert forall|i: int| 0 <= i < (a + b).len() implies allowed.contains(#[trigger] (a + b)[i].1) by {
        if i < a.len() {
            assert((a + b)[i] == a[i]);
        } else {
            assert((a + b)[i] == b[i - a.len()]);
        }
    }
}

proof fn lemma_ops_within_grow(plan: Seq<Planned>, small: Seq<MutationType>, big: Seq<MutationType>)
    requires
        ops_within(plan, small),
        forall|t: MutationType| small.contains(t) ==> big.contains(t),
    ensures
        ops_within(plan, big),
{
    assert forall|i: int| 0 <= i < plan.len() implies big.contains(#[trigger] plan[i].1) by {
        assert(small.contains(plan[i].1));
    }
}

proof fn lemma_node_plan_ops(ops: Seq<MutationType>, skip: Seq<MutationType>, files: Seq<SourceFile>, e: Expr)
    ensures
        ops_within(node_plan(ops, skip, files, e), ops),
    decreases ops.len(),
{
    if ops.len() > 0 && e.loc is Some {
        lemma_node_plan_ops(ops.drop_last(), skip, files, e);
        let rest = node_plan(ops.drop_last(), skip, files, e);
        lemma_ops_within_grow(rest, ops.drop_last(), ops);
        let op = ops.last();
        if !skip.contains(op) {
            let t = tagged(e.loc->0.file_no, op, expr_edits(op, e, text_of_expr(files, e)));
            assert(ops.contains(op)) by {
                assert(ops[ops.len() - 1] == op);
            }
            assert(ops_within(t, ops));
            lemma_ops_within_concat(rest, t, ops);
        }
    }
}

proof fn lemma_nodes_plan_ops(
    ops: Seq<MutationType>,
    skip: Seq<MutationType>,
    files: Seq<SourceFile>,
    nodes: Seq<Expr>,
)
    ensures
        ops_within(nodes_plan(ops, skip, files, nodes), ops),
    decreases nodes.len(),
{
    if nodes.len() > 0 {
        lemma_nodes_plan_ops(ops, skip, files, nodes.drop_last());
        lemma_node_plan_ops(ops, skip, files, nodes.last());
        lemma_ops_within_concat(
            nodes_plan(ops, skip, files, nodes.drop_last()),
            node_plan(ops, skip, files, nodes.last()),
            ops,
        );
    }
}

proof fn lemma_stmt_level_plan_ops(ops: Seq<MutationType>, files: Seq<SourceFile>, s: Stmt)
    ensures
        ops_within(stmt_level_plan(ops, files, s), ops),
    decreases ops.len(),
{
    if ops.len() > 0 && s.loc is Some {
        lemma_stmt_level_plan_ops(ops.drop_last(), files, s);
        let rest = stmt_level_plan(ops.drop_last(), files, s);
        lemma_ops_within_grow(rest, ops.drop_last(), ops);
        let op = ops.last();
        let t = tagged(s.loc->0.file_no, op, stmt_edits(op, s, files[s.loc->0.file_no as int].text@));
        assert(ops.contains(op)) by {
            assert(ops[ops.len() - 1] == op);
        }
        assert(ops_within(t, ops));
        lemma_ops_within_concat(rest, t, ops);
    }
}

proof fn lemma_stmts_plan_ops(
    ops: Seq<MutationType>,
    fallback: Seq<MutationType>,
    files: Seq<SourceFile>,
    stmts: Seq<Stmt>,
)
    ensures
        ops_within(stmts_plan(ops, fallback, files, stmts), ops + fallback),
    decreases stmts.len(),
{
    if stmts.len() > 0 {
        let all = ops + fallback;
        assert forall|t: MutationType| ops.contains(t) implies all.contains(t) by {
            let k = choose|k: int| 0 <= k < ops.len() && ops[k] == t;
            assert(all[k] == t);
        }
        assert forall|t: MutationType| fallback.contains(t) implies all.contains(t) by {
            let k = choose|k: int| 0 <= k < fallback.len() && fallback[k] == t;
            assert(all[ops.len() + k] == t);
        }
        lemma_stmts_plan_ops(ops, fallback, files, stmts.drop_last());
        let s = stmts.last();
        let a = stmt_level_plan(ops, files, s);
        let b = nodes_plan(ops, fallback, files, s.expr@);
        lemma_stmt_level_plan_ops(ops, files, s);
        lemma_nodes_plan_ops(ops, fallback, files, s.expr@);
        lemma_nodes_plan_ops(fallback, Seq::empty(), files, fallback_nodes(s));
        lemma_ops_within_grow(a, ops, all);
        lemma_ops_within_grow(b, ops, all);
        lemma_ops_within_grow(nodes_plan(fallback, Seq::empty(), files, fallback_nodes(s)), fallback, all);
        let c = if s.expr@.len() > 0 && b.len() == 0 {
            nodes_plan(fallback, Seq::empty(), files, fallback_nodes(s))
        } else {
            Seq::empty()
        };
        assert(ops_within(c, all));
        lemma_ops_within_concat(a, b, all);
        lemma_ops_within_concat(a + b, c, all);
        lemma_ops_within_concat(stmts_plan(ops, fallback, files, stmts.drop_last()), a + b + c, all);
    }
}

/// Only the operators a mutator is configured with make mutants: every
/// planned mutation in the selected functions uses one of its mutation
/// operators or one of its fallback operators.
pub proof fn law_only_configured_operators(
    conf: MutatorConf,
    files: Seq<SourceFile>,
    target: Seq<char>,
    fns: Seq<FunctionDef>,
)
    ensures
        ops_within(
            functions_plan(conf, files, target, fns),
            conf.mutation_operators@ + conf.fallback_operators@,
        ),
    decreases fns.len(),
{
    if fns.len() > 0 {
        law_only_configured_operators(conf, files, target, fns.drop_last());
        let f = fns.last();
        if is_selected(conf, files, target, f) {
            lemma_stmts_plan_ops(conf.mutation_operators@, conf.fallback_operators@, files, f.body@);
            lemma_ops_within_concat(
                functions_plan(conf, files, target, fns.drop_last()),
                stmts_plan(conf.mutation_operators@, conf.fallback_operators@, files, f.body@),
                conf.mutation_operators@ + conf.fallback_operators@,
            );
        }
    }
}

/// Fallback operators apply at a statement only when the other operators
/// make no mutant in its expression: where they make one, the statement's
/// mutations are those at the statement and at its expression's nodes.
pub proof fn law_fallback_only_when_unmutated(
    ops: Seq<MutationType>,
    fallback: Seq<MutationType>,
    files: Seq<SourceFile>,
    s: Stmt,
)
    requires
        nodes_plan(ops, fallback, files, s.expr@).len() > 0,
    ensures
        stmt_plan(ops, fallback, files, s) == stmt_level_plan(ops, files, s) + nodes_plan(
            ops,
            fallback,
            files,
            s.expr@,
        ),
{
    let a = stmt_level_plan(ops, files, s);
    let b = nodes_plan(ops, fallback, files, s.expr@);
    assert(a + b + Seq::<Planned>::empty() =~= a + b);
}

} // verus!

verus! {

/// The functions of `fns` that mutation visits, in order.
pub open spec fn selected_functions(
    conf: MutatorConf,
    files: Seq<SourceFile>,
    target: Seq<char>,
    fns: Seq<FunctionDef>,
) -> Seq<FunctionDef>
    decreases fns.len(),
{
    if fns.len() == 0 {
        Seq::empty()
    } else {
        let rest = selected_functions(conf, files, target, fns.drop_last());
        if is_selected(conf, files, target, fns.last()) {
            rest.push(fns.last())
        } else {
            rest
        }
    }
}

/// Function filters: the mutations of a file are those of its selected
/// functions alone (functions of the file, not accessors, with a body, named
/// among the functions to mutate and in the contract to mutate, where those
/// are given); the other functions add nothing.
pub proof fn law_only_selected_functions_mutated(
    conf: MutatorConf,
    files: Seq<SourceFile>,
    target: Seq<char>,
    fns: Seq<FunctionDef>,
)
    ensures
        functions_plan(conf, files, target, fns) == functions_plan(
            conf,
            files,
            target,
            selected_functions(conf, files, target, fns),
        ),
        forall|i: int|
            0 <= i < selected_functions(conf, files, target, fns).len() ==> is_selected(
                conf,
                files,
                target,
                #[trigger] selected_functions(conf, files, target, fns)[i],
            ),
    decreases fns.len(),
{
    if fns.len() > 0 {
        law_only_selected_functions_mutated(conf, files, target, fns.drop_last());
        let rest = selected_functions(conf, files, target, fns.drop_last());
        let f = fns.last();
        if is_selected(conf, files, target, f) {
            let s = rest.push(f);
            assert(s.drop_last() =~= rest);
            assert(s.last() == f);
        }
    }
}

} // verus!

verus! {

/// Function filters, across two runs: a function that the filters exclude
/// (one outside the file, an accessor, one without a body, one not named
/// among the functions to mutate, or one whose contract's name, empty for a
/// free function, is not the contract to mutate) adds no mutation wherever
/// it stands among the functions.
pub proof fn law_filtered_function_adds_nothing(
    conf: MutatorConf,
    files: Seq<SourceFile>,
    target: Seq<char>,
    a: Seq<FunctionDef>,
    g: FunctionDef,
    b: Seq<FunctionDef>,
)
    requires
        ({
            ||| g.file_no >= files.len()
            ||| files[g.file_no as int].path@ != target
            ||| g.is_accessor
            ||| !g.has_body
            ||| (conf.funcs_to_mutate matches Some(fs) && !names_of(fs@).contains(g.name@))
            ||| (conf.contract matches Some(c) && (match g.contract {
                Some(n) => n@,
                None => Seq::<char>::empty(),
            }) != c@)
        }),
    ensures
        functions_plan(conf, files, target, a + seq![g] + b) == functions_plan(
            conf,
            files,
            target,
            a + b,
        ),
    decreases b.len(),
{
    let x = a + seq![g] + b;
    let y = a + b;
    if b.len() == 0 {
        assert(x.drop_last() =~= a);
        assert(x.last() == g);
        assert(y =~= a);
    } else {
        law_filtered_function_adds_nothing(conf, files, target, a, g, b.drop_last());
        assert(x.drop_last() =~= a + seq![g] + b.drop_last());
        assert(y.drop_last() =~= a + b.drop_last());
        assert(x.last() == b.last());
        assert(y.last() == b.last());
    }
}

/// Function filters, across two runs: a function of the file that passes the
/// filters (not an accessor, with a body, named among the functions to
/// mutate and in the contract to mutate, where those are given) adds the
/// mutations of its statements after those of the functions before it.
pub proof fn law_selected_function_adds_its_statements(
    conf: MutatorConf,
    files: Seq<SourceFile>,
    target: Seq<char>,
    fns: Seq<FunctionDef>,
    g: FunctionDef,
)
    requires
        g.file_no < files.len(),
        files[g.file_no as int].path@ == target,
        !g.is_accessor,
        g.has_body,
        conf.funcs_to_mutate matches Some(fs) ==> names_of(fs@).contains(g.name@),
        conf.contract matches Some(c) ==> (match g.contract {
            Some(n) => n@,
            None => Seq::<char>::empty(),
        }) == c@,
    ensures
        functions_plan(conf, files, target, fns.push(g)) == functions_plan(
            conf,
            files,
            target,
            fns,
        ) + stmts_plan(conf.mutation_operators@, conf.fallback_operators@, files, g.body@),
{
    assert(fns.push(g).drop_last() =~= fns);
    assert(fns.push(g).last() == g);
}

} // verus!
