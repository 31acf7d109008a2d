//! Solidity test programs made from a few statements.
use vstd::prelude::*;
use crate::text::join_with;

verus! {

/// The views of a slice of string slices.
pub open spec fn str_views(v: Seq<&str>) -> Seq<Seq<char>> {
    Seq::new(v.len(), |i: int| v[i]@)
}

/// A contract `Wrapper` with a public function `wrapped` that takes
/// `params`, declares that it returns `returns` where given, and runs
/// `statements`.
pub open spec fn wrapped_solidity(stmts: Seq<Seq<char>>, returns: Option<Seq<char>>, params: Seq<Seq<char>>) -> Seq<
    char,
> {
    "// SPDX-License-Identifier: GPL-3.0-only\npragma solidity ^0.8.0;\n\ncontract Wrapper {\n    function wrapped("@
        + join_with(params, ", "@) + ") public "@ + match returns {
        Some(r) => "returns ("@ + r + ")"@,
        None => Seq::empty(),
    } + " {\n        "@ + join_with(stmts, "\n        "@) + "\n    }\n}\n    "@
}

/// Appends the items of `v` with `sep` between consecutive ones.
fn append_joined(out: &mut String, v: &[&str], sep: &str)
    ensures
        final(out)@ == old(out)@ + join_with(str_views(v@), sep@),
{
    let ghost w = str_views(v@);
    let ghost start = out@;
    let mut i: usize = 0;
    while i < v.len()
        invariant
            i <= v@.len(),
            w == str_views(v@),
            out@ == start + join_with(w.take(i as int), sep@),
        decreases v@.len() - i,
    {
        if i > 0 {
            out.append(sep);
        }
        out.append(v[i]);
        proof {
            let t = w.take(i + 1);
            assert(t.drop_last() =~= w.take(i as int));
            if i == 0 {
                assert(t =~= seq![w[0]]);
            }
        }
        i = i + 1;
    }
    assert(w.take(v@.len() as int) =~= w);
}

/// Wraps statements in a Solidity function `wrapped` of a contract
/// `Wrapper` (see [`wrapped_solidity`]).
pub fn wrap_solidity(statements: &[&str], returns: Option<&str>, params: &[&str]) -> (r: String)
    ensures
        r@ == wrapped_solidity(
            str_views(statements@),
            match returns {
                Some(x) => Some(x@),
                None => None,
            },
            str_views(params@),
        ),
{
    let mut s = "// SPDX-License-Identifier: GPL-3.0-only\npragma solidity ^0.8.0;\n\ncontract Wrapper {\n    function wrapped(".to_string();
    append_joined(&mut s, params, ", ");
    s.append(") public ");
    if let Some(r) = returns {
        s.append("returns (");
        s.append(r);
        s.append(")");
    }
    s.append(" {\n        ");
    append_joined(&mut s, statements, "\n        ");
    s.append("\n    }\n}\n    ");
    s
}

} // verus!
