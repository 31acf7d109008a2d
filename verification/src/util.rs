//! Helpers for names given by users: mutation operator names and import
//! remappings.
use vstd::prelude::*;
use crate::text::{chars_of, push_char, strs_equal, string_of_range};
use crate::mutation::{ascii_lower, kebab_name, operator_named, MutationType};
use crate::paths::{path_push, path_push_str};

verus! {

/// The lowercase of a string, as `str::to_lowercase` computes it.
pub uninterp spec fn lowercase_of(s: Seq<char>) -> Seq<char>;

/// Whether all characters of `s` are ASCII.
pub open spec fn all_ascii(s: Seq<char>) -> bool {
    forall|i: int| 0 <= i < s.len() ==> (#[trigger] s[i] as u32) < 128
}

/// The lowercase of a string (`str::to_lowercase`). The contract names the
/// result, and claims that on ASCII text it lowercases each letter.
#[verifier::external_body]
fn to_lowercase(s: &str) -> (r: String)
    ensures
        r@ == lowercase_of(s@),
        all_ascii(s@) ==> r@ == Seq::new(s@.len(), |i: int| ascii_lower(s@[i])),
{
    s.to_lowercase()
}

/// `s` with each `_` replaced by `-`.
pub open spec fn dashed(s: Seq<char>) -> Seq<char> {
    Seq::new(s.len(), |i: int| if s[i] == '_' { '-' } else { s[i] })
}

/// `s` with each ASCII capital letter replaced by its small letter.
pub open spec fn ascii_lowered(s: Seq<char>) -> Seq<char> {
    Seq::new(s.len(), |i: int| ascii_lower(s[i]))
}

/// The operator name that an already lowercased name stands for: `_`
/// replaced by `-`, and a short or full operator name mapped to the full
/// name of its operator. Names it does not know are returned as they are
/// then.
pub open spec fn op_name_of_lower(l: Seq<char>) -> Seq<char> {
    let t = dashed(l);
    if t == "aor"@ || t == "arithmetic-operator-replacement"@ {
        "arithmetic-operator-replacement"@
    } else if t == "bor"@ || t == "bitwise-operator-replacement"@ {
        "bitwise-operator-replacement"@
    } else if t == "evr"@ || t == "expression-value-replacement"@ {
        "expression-value-replacement"@
    } else if t == "lor"@ || t == "logical-operator-replacement"@ {
        "logical-operator-replacement"@
    } else if t == "lvr"@ || t == "literal-value-replacement"@ {
        "literal-value-replacement"@
    } else if t == "ror"@ || t == "relational-operator-replacement"@ {
        "relational-operator-replacement"@
    } else if t == "sor"@ || t == "shift-operator-replacement"@ {
        "shift-operator-replacement"@
    } else if t == "std"@ || t == "statement-deletion"@ {
        "statement-deletion"@
    } else if t == "uor"@ || t == "unary-operator-replacement"@ {
        "unary-operator-replacement"@
    } else {
        t
    }
}

/// The operator name that a user's operator name stands for: lowercased,
/// then as [`op_name_of_lower`] gives it.
pub open spec fn normalized_op_name(s: Seq<char>) -> Seq<char> {
    op_name_of_lower(lowercase_of(s))
}

/// Normalizes a user's operator name (see [`normalized_op_name`]); on ASCII
/// text, lowercasing lowers each capital letter.
pub fn normalize_mutation_operator_name(op_name: &String) -> (r: String)
    ensures
        r@ == normalized_op_name(op_name@),
        all_ascii(op_name@) ==> r@ == op_name_of_lower(ascii_lowered(op_name@)),
{
    let lower = to_lowercase(op_name.as_str());
    proof {
        if all_ascii(op_name@) {
            assert(lower@ =~= ascii_lowered(op_name@));
        }
    }
    let c = chars_of(lower.as_str());
    let mut t = String::new();
    let mut i: usize = 0;
    while i < c.len()
        invariant
            i <= c@.len(),
            t@ == dashed(c@).take(i as int),
        decreases c@.len() - i,
    {
        push_char(&mut t, if c[i] == '_' { '-' } else { c[i] });
        proof {
            assert(dashed(c@).take(i + 1) =~= dashed(c@).take(i as int).push(dashed(c@)[i as int]));
        }
        i = i + 1;
    }
    assert(dashed(c@).take(c@.len() as int) == dashed(c@));
    let s = t.as_str();
    let name = if strs_equal(s, "aor") || strs_equal(s, "arithmetic-operator-replacement") {
        "arithmetic-operator-replacement"
    } else if strs_equal(s, "bor") || strs_equal(s, "bitwise-operator-replacement") {
        "bitwise-operator-replacement"
    } else if strs_equal(s, "evr") || strs_equal(s, "expression-value-replacement") {
        "expression-value-replacement"
    } else if strs_equal(s, "lor") || strs_equal(s, "logical-operator-replacement") {
        "logical-operator-replacement"
    } else if strs_equal(s, "lvr") || strs_equal(s, "literal-value-replacement") {
        "literal-value-replacement"
    } else if strs_equal(s, "ror") || strs_equal(s, "relational-operator-replacement") {
        "relational-operator-replacement"
    } else if strs_equal(s, "sor") || strs_equal(s, "shift-operator-replacement") {
        "shift-operator-replacement"
    } else if strs_equal(s, "std") || strs_equal(s, "statement-deletion") {
        "statement-deletion"
    } else if strs_equal(s, "uor") || strs_equal(s, "unary-operator-replacement") {
        "unary-operator-replacement"
    } else {
        return t;
    };
    name.to_string()
}

/// The pieces of `s` between occurrences of `sep` (`str::split` on a
/// character), from position `i` on.
pub open spec fn split_from(s: Seq<char>, sep: char, i: int) -> Seq<Seq<char>>
    decreases s.len() - i,
{
    let k = crate::solidity::index_of_from(s, sep, i);
    if i < 0 || i > s.len() {
        Seq::empty()
    } else if k >= s.len() || k < i {
        seq![s.subrange(i, s.len() as int)]
    } else {
        seq![s.subrange(i, k)] + split_from(s, sep, k + 1)
    }
}

/// The pieces of `s` between occurrences of `sep`.
pub open spec fn split_on(s: Seq<char>, sep: char) -> Seq<Seq<char>> {
    split_from(s, sep, 0)
}

/// Splits `s` at each `sep`.
pub fn split_char(s: &str, sep: char) -> (r: Vec<String>)
    ensures
        r@.len() == split_on(s@, sep).len(),
        forall|i: int| 0 <= i < r@.len() ==> (#[trigger] r@[i])@ == split_on(s@, sep)[i],
{
    let c = chars_of(s);
    let ghost sv = c@;
    let mut r: Vec<String> = Vec::new();
    let ghost mut done: Seq<Seq<char>> = Seq::empty();
    let mut i: usize = 0;
    loop
        invariant
            sv == c@,
            sv == s@,
            i <= sv.len(),
            split_on(sv, sep) == done + split_from(sv, sep, i as int),
            r@.len() == done.len(),
            forall|j: int| 0 <= j < r@.len() ==> (#[trigger] r@[j])@ == done[j],
        decreases sv.len() - i,
    {
        let mut k = i;
        proof {
            crate::solidity::lemma_index_of_from(sv, sep, i as int);
        }
        while k < c.len() && c[k] != sep
            invariant
                sv == c@,
                i <= k <= sv.len(),
                crate::solidity::index_of_from(sv, sep, i as int)
                    == crate::solidity::index_of_from(sv, sep, k as int),
            decreases sv.len() - k,
        {
            k = k + 1;
        }
        proof {
            crate::solidity::lemma_index_of_from(sv, sep, k as int);
        }
        let piece = string_of_range(&c, i, k);
        r.push(piece);
        proof {
            done = done.push(sv.subrange(i as int, k as int));
        }
        if k >= c.len() {
            proof {
                assert(split_on(sv, sep) == done);
            }
            return r;
        }
        proof {
            assert(split_on(sv, sep) =~= done + split_from(sv, sep, k + 1));
        }
        i = k + 1;
    }
}

/// A remapping `NAME=PATH` split at its `=`: `Some((NAME, PATH))` when it
/// has exactly one `=`, else `None`.
pub open spec fn remapping_parts(s: Seq<char>) -> Option<(Seq<char>, Seq<char>)> {
    let parts = split_on(s, '=');
    if parts.len() == 2 {
        Some((parts[0], parts[1]))
    } else {
        None
    }
}

/// Splits a remapping `NAME=PATH` at its `=` (`None` unless it has exactly
/// one).
pub fn split_remapping(s: &str) -> (r: Option<(String, String)>)
    ensures
        match r {
            Some((a, b)) => remapping_parts(s@) == Some((a@, b@)),
            None => remapping_parts(s@) is None,
        },
{
    let mut parts = split_char(s, '=');
    if parts.len() != 2 {
        return None;
    }
    let b = parts.pop().unwrap();
    let a = parts.pop().unwrap();
    Some((a, b))
}

/// The directory a remapping's path is looked up in: the path joined to
/// `resolve_against` (`.` where none is given). The caller resolves it
/// against the file system.
pub fn remapping_target(remap_str: &str, resolve_against: Option<&str>) -> (r: String)
    requires
        remapping_parts(remap_str@) is Some,
    ensures
        r@ == path_push(
            match resolve_against {
                Some(a) => a@,
                None => "."@,
            },
            remapping_parts(remap_str@).unwrap().1,
        ),
{
    let (_, rhs) = split_remapping(remap_str).unwrap();
    let against = match resolve_against {
        Some(a) => a,
        None => ".",
    };
    path_push_str(against, rhs.as_str())
}

/// A remapping `NAME=PATH` written again with its path replaced by
/// `resolved`, the resolved form of its target (see [`remapping_target`]).
pub fn repair_remapping(remap_str: &str, resolved: &str) -> (r: String)
    requires
        remapping_parts(remap_str@) is Some,
    ensures
        r@ == remapping_parts(remap_str@).unwrap().0 + "="@ + resolved@,
{
    let (lhs, _) = split_remapping(remap_str).unwrap();
    let mut r = lhs;
    r.append("=");
    r.append(resolved);
    r
}

} // verus!

verus! {

proof fn lemma_ascii_lower_char(c: char)
    ensures
        !('A' <= ascii_lower(c) && ascii_lower(c) <= 'Z'),
        ascii_lower(c) != '_' <==> c != '_',
        (c as u32) < 128 ==> (ascii_lower(c) as u32) < 128,
{
    if 'A' <= c && c <= 'Z' {
        assert(((c as u32) + 32) as char as u32 == (c as u32) + 32);
    }
}

/// Whether `k` has no capital ASCII letter and no `_`.
pub open spec fn plain_name(k: Seq<char>) -> bool {
    forall|i: int| 0 <= i < k.len() ==> !('A' <= #[trigger] k[i] && k[i] <= 'Z') && k[i] != '_'
}

proof fn lemma_plain_fixed(k: Seq<char>)
    requires
        plain_name(k),
    ensures
        ascii_lowered(k) == k,
        dashed(k) == k,
{
    assert(ascii_lowered(k) =~= k);
    assert(dashed(k) =~= k);
}

proof fn lemma_lowered_dashed(s: Seq<char>)
    requires
        all_ascii(s),
    ensures
        plain_name(dashed(ascii_lowered(s))),
        all_ascii(dashed(ascii_lowered(s))),
{
    let k = dashed(ascii_lowered(s));
    assert forall|i: int| 0 <= i < k.len() implies !('A' <= #[trigger] k[i] && k[i] <= 'Z') && k[i] != '_'
        && (k[i] as u32) < 128 by {
        lemma_ascii_lower_char(s[i]);
    }
}

proof fn lemma_long_names_plain()
    ensures
        plain_name("arithmetic-operator-replacement"@) && all_ascii("arithmetic-operator-replacement"@),
        plain_name("bitwise-operator-replacement"@) && all_ascii("bitwise-operator-replacement"@),
        plain_name("expression-value-replacement"@) && all_ascii("expression-value-replacement"@),
        plain_name("logical-operator-replacement"@) && all_ascii("logical-operator-replacement"@),
        plain_name("literal-value-replacement"@) && all_ascii("literal-value-replacement"@),
        plain_name("relational-operator-replacement"@) && all_ascii("relational-operator-replacement"@),
        plain_name("shift-operator-replacement"@) && all_ascii("shift-operator-replacement"@),
        plain_name("statement-deletion"@) && all_ascii("statement-deletion"@),
        plain_name("unary-operator-replacement"@) && all_ascii("unary-operator-replacement"@),
        plain_name("elim-delegate-call"@) && all_ascii("elim-delegate-call"@),
{
    reveal_strlit("arithmetic-operator-replacement");
    reveal_strlit("bitwise-operator-replacement");
    reveal_strlit("expression-value-replacement");
    reveal_strlit("logical-operator-replacement");
    reveal_strlit("literal-value-replacement");
    reveal_strlit("relational-operator-replacement");
    reveal_strlit("shift-operator-replacement");
    reveal_strlit("statement-deletion");
    reveal_strlit("unary-operator-replacement");
    reveal_strlit("elim-delegate-call");
}

/// Operator names are read without regard to ASCII case or to `_` against
/// `-`: an ASCII name and its lowercase with `_` replaced by `-` stand for
/// the same operator name.
pub proof fn law_op_name_ignores_case_and_underscore(s: Seq<char>)
    requires
        all_ascii(s),
    ensures
        op_name_of_lower(ascii_lowered(dashed(ascii_lowered(s)))) == op_name_of_lower(ascii_lowered(s)),
{
    lemma_lowered_dashed(s);
    lemma_plain_fixed(dashed(ascii_lowered(s)));
}

/// Normalizing an ASCII operator name twice gives what normalizing once
/// gives.
pub proof fn law_op_name_idempotent(s: Seq<char>)
    requires
        all_ascii(s),
    ensures
        all_ascii(op_name_of_lower(ascii_lowered(s))),
        op_name_of_lower(ascii_lowered(op_name_of_lower(ascii_lowered(s)))) == op_name_of_lower(
            ascii_lowered(s),
        ),
{
    lemma_lowered_dashed(s);
    lemma_long_names_plain();
    let r = op_name_of_lower(ascii_lowered(s));
    let t = dashed(ascii_lowered(s));
    lemma_plain_fixed(t);
    if r == t {
        assert(plain_name(r));
    }
    assert(plain_name(r));
    lemma_plain_fixed(r);
    reveal_strlit("aor");
    reveal_strlit("bor");
    reveal_strlit("evr");
    reveal_strlit("lor");
    reveal_strlit("lvr");
    reveal_strlit("ror");
    reveal_strlit("sor");
    reveal_strlit("std");
    reveal_strlit("uor");
    reveal_strlit("arithmetic-operator-replacement");
    reveal_strlit("bitwise-operator-replacement");
    reveal_strlit("expression-value-replacement");
    reveal_strlit("logical-operator-replacement");
    reveal_strlit("literal-value-replacement");
    reveal_strlit("relational-operator-replacement");
    reveal_strlit("shift-operator-replacement");
    reveal_strlit("statement-deletion");
    reveal_strlit("unary-operator-replacement");
}

/// Each operator's own name (as the operator table writes it) normalizes to
/// itself, and so stands for that operator.
pub proof fn law_operator_name_kept(t: MutationType)
    ensures
        op_name_of_lower(ascii_lowered(kebab_name(t))) == kebab_name(t),
        operator_named(op_name_of_lower(ascii_lowered(kebab_name(t)))) == Some(t),
{
    lemma_long_names_plain();
    lemma_plain_fixed(kebab_name(t));
    reveal_strlit("aor");
    reveal_strlit("bor");
    reveal_strlit("evr");
    reveal_strlit("lor");
    reveal_strlit("lvr");
    reveal_strlit("ror");
    reveal_strlit("sor");
    reveal_strlit("std");
    reveal_strlit("uor");
    reveal_strlit("arithmetic-operator-replacement");
    reveal_strlit("bitwise-operator-replacement");
    reveal_strlit("expression-value-replacement");
    reveal_strlit("logical-operator-replacement");
    reveal_strlit("literal-value-replacement");
    reveal_strlit("relational-operator-replacement");
    reveal_strlit("shift-operator-replacement");
    reveal_strlit("statement-deletion");
    reveal_strlit("unary-operator-replacement");
    reveal_strlit("elim-delegate-call");
    crate::mutation::law_operator_names_recognized(t);
}

} // verus!
