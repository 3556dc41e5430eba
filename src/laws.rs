//! Properties of the resolver and of the import-tree rewrite.
use vstd::prelude::*;
use crate::path::join;
use crate::resolve::{prefix_matches, prefix_search, rerooted, resolve_call, resolve_generic};
use crate::path_tree::{idents, path_rewrites_to, PathTree};
use crate::use_tree::{chain, rewrites_to, UseTree};

verus! {

/// The length of the longest prefix of `segs`, of length at most `len`, that
/// is a key of `table`; `0` where there is none.
pub open spec fn longest_match(table: Map<Seq<char>, Seq<char>>, segs: Seq<Seq<char>>, len: int) -> int
    decreases len,
{
    if len < 1 {
        0
    } else if prefix_matches(table, segs, len) {
        len
    } else {
        longest_match(table, segs, len - 1)
    }
}

/// The prefix search over lengths `len` down to `1` lands on the longest
/// matching prefix of length at most `len`, and finds nothing when none matches.
pub proof fn lemma_prefix_search_longest(
    table: Map<Seq<char>, Seq<char>>,
    segs: Seq<Seq<char>>,
    len: int,
)
    requires
        0 <= len < segs.len(),
    ensures
        0 <= longest_match(table, segs, len) <= len,
        longest_match(table, segs, len) >= 1 ==> prefix_matches(
            table,
            segs,
            longest_match(table, segs, len),
        ),
        forall|k2: int|
            longest_match(table, segs, len) < k2 <= len ==> !prefix_matches(table, segs, k2),
        prefix_search(table, segs, len) == if longest_match(table, segs, len) >= 1 {
            Some(
                rerooted(
                    table[join(segs.subrange(0, longest_match(table, segs, len)))],
                    segs.subrange(longest_match(table, segs, len), segs.len() as int),
                ),
            )
        } else {
            None::<Seq<char>>
        },
    decreases len,
{
    if len >= 1 {
        lemma_prefix_search_longest(table, segs, len - 1);
    }
}

/// Where a proper prefix of a path matches and the full path does not,
/// generic resolution re-roots the path under the longest matching proper
/// prefix: no longer proper prefix matches.
pub proof fn lemma_longest_prefix_wins(
    table: Map<Seq<char>, Seq<char>>,
    fallback: Option<Map<Seq<char>, Seq<char>>>,
    segs: Seq<Seq<char>>,
    j: int,
)
    requires
        1 <= j < segs.len(),
        prefix_matches(table, segs, j),
        !table.contains_key(join(segs)),
    ensures
        exists|k: int|
            j <= k < segs.len() && prefix_matches(table, segs, k) && (forall|k2: int|
                k < k2 < segs.len() ==> !prefix_matches(table, segs, k2)) && resolve_generic(
                table,
                fallback,
                segs,
            ) == Some(
                rerooted(
                    table[join(segs.subrange(0, k))],
                    segs.subrange(k, segs.len() as int),
                ),
            ),
{
    lemma_prefix_search_longest(table, segs, segs.len() - 1);
    let k = longest_match(table, segs, segs.len() - 1);
    assert(k >= j);
    assert(prefix_matches(table, segs, k));
}

/// An exact entry for the full path decides generic resolution, whatever
/// other key is inserted after it.
pub proof fn lemma_exact_entry_wins(
    table: Map<Seq<char>, Seq<char>>,
    fallback: Option<Map<Seq<char>, Seq<char>>>,
    segs: Seq<Seq<char>>,
    later_key: Seq<char>,
    later_value: Seq<char>,
)
    requires
        table.contains_key(join(segs)),
        later_key != join(segs),
    ensures
        resolve_generic(table, fallback, segs) == Some(table[join(segs)]),
        resolve_generic(table.insert(later_key, later_value), fallback, segs) == Some(
            table[join(segs)],
        ),
{
}

/// A qualified entry for the full call path decides call resolution; the
/// simple table is not consulted.
pub proof fn lemma_qualified_call_wins(
    qualified: Map<Seq<char>, Seq<char>>,
    simple: Map<Seq<char>, Seq<char>>,
    other_simple: Map<Seq<char>, Seq<char>>,
    segs: Seq<Seq<char>>,
)
    requires
        qualified.contains_key(join(segs)),
    ensures
        resolve_call(qualified, simple, segs) == Some(qualified[join(segs)]),
        resolve_call(qualified, simple, segs) == resolve_call(qualified, other_simple, segs),
{
}

/// The crate-root fallback has no effect where the primary table holds the
/// full path or one of its proper prefixes; where it holds neither, the
/// fallback replaces the first segment alone and keeps the others, in order.
pub proof fn lemma_root_fallback_last(
    table: Map<Seq<char>, Seq<char>>,
    fallback: Map<Seq<char>, Seq<char>>,
    segs: Seq<Seq<char>>,
)
    requires
        segs.len() >= 1,
    ensures
        (table.contains_key(join(segs)) || exists|j: int|
            1 <= j < segs.len() && prefix_matches(table, segs, j)) ==> resolve_generic(
            table,
            Some(fallback),
            segs,
        ) == resolve_generic(table, None, segs) && resolve_generic(table, None, segs) is Some,
        (!table.contains_key(join(segs)) && (forall|j: int|
            1 <= j < segs.len() ==> !prefix_matches(table, segs, j)) && fallback.contains_key(
            segs[0],
        )) ==> resolve_generic(table, Some(fallback), segs) == Some(
            join(segs.update(0, fallback[segs[0]])),
        ),
{
    lemma_prefix_search_longest(table, segs, segs.len() - 1);
    if exists|j: int| 1 <= j < segs.len() && prefix_matches(table, segs, j) {
        let j = choose|j: int| 1 <= j < segs.len() && prefix_matches(table, segs, j);
        assert(longest_match(table, segs, segs.len() - 1) >= j);
    }
}

/// Rewriting a tree whose chain is open (it reaches a group or a replaced
/// node) gives a tree whose chain is open too.
pub proof fn lemma_open_chain_kept(
    table: Map<Seq<char>, Seq<char>>,
    prefix: Seq<Seq<char>>,
    t: UseTree,
    out: UseTree,
)
    requires
        chain(t) is None,
        rewrites_to(table, prefix, t, out),
    ensures
        chain(out) is None,
    decreases t,
{
    match t {
        UseTree::Path { ident, tree } => {
            if resolve_generic(table, None, prefix.push(ident@)) is None {
                lemma_open_chain_kept(table, prefix.push(ident@), *tree, *out->Path_tree);
            }
        },
        _ => {},
    }
}

/// A replaced node is left as it is by the rewrite.
pub proof fn lemma_replaced_node_kept(
    table: Map<Seq<char>, Seq<char>>,
    prefix: Seq<Seq<char>>,
    s: String,
    out: UseTree,
)
    requires
        rewrites_to(table, prefix, UseTree::Replaced(s), out),
    ensures
        out == UseTree::Replaced(s),
{
}

/// The rewrite visits each node once: rewriting its result again, with the
/// same rules, leaves that result as it is, also where a replacement text is
/// itself a key of the table.
pub proof fn lemma_rewrite_settles(
    table: Map<Seq<char>, Seq<char>>,
    prefix: Seq<Seq<char>>,
    t: UseTree,
    out: UseTree,
)
    requires
        rewrites_to(table, prefix, t, out),
    ensures
        rewrites_to(table, prefix, out, out),
    decreases t,
{
    match chain(t) {
        Some(c) => {},
        None => match t {
            UseTree::Path { ident, tree } => {
                if resolve_generic(table, None, prefix.push(ident@)) is None {
                    let sub = *out->Path_tree;
                    lemma_open_chain_kept(table, prefix.push(ident@), *tree, sub);
                    lemma_rewrite_settles(table, prefix.push(ident@), *tree, sub);
                }
            },
            UseTree::Group(items) => {
                let v = out->Group_0;
                assert forall|i: int| 0 <= i < v@.len() implies rewrites_to(
                    table,
                    prefix,
                    v@[i],
                    v@[i],
                ) by {
                    lemma_rewrite_settles(table, prefix, items@[i], v@[i]);
                }
            },
            _ => {},
        },
    }
}

/// A path that the rewrite replaced is not visited again: rewriting the
/// result of a path rewrite, with the same rules, leaves it as it is, also
/// where a replacement text would itself resolve.
pub proof fn lemma_path_rewrite_settles(
    table: Map<Seq<char>, Seq<char>>,
    roots: Map<Seq<char>, Seq<char>>,
    t: PathTree,
    out: PathTree,
)
    requires
        path_rewrites_to(table, roots, t, out),
    ensures
        path_rewrites_to(table, roots, out, out),
    decreases t,
{
    match t {
        PathTree::Path(segs) => {
            if segs@.len() > 0 && resolve_generic(table, Some(roots), idents(segs@)) is None {
                let osegs = out->Path_0;
                assert(idents(osegs@) =~= idents(segs@)) by {
                    assert forall|i: int| 0 <= i < segs@.len() implies idents(osegs@)[i] == idents(
                        segs@,
                    )[i] by {
                        assert(osegs@[i].ident == segs@[i].ident);
                    }
                }
                assert forall|i: int, j: int|
                    0 <= i < osegs@.len() && 0 <= j < osegs@[i].args@.len() implies path_rewrites_to(
                    table,
                    roots,
                    osegs@[i].args@[j],
                    osegs@[i].args@[j],
                ) by {
                    assert(osegs@[i].args@.len() == segs@[i].args@.len());
                    let sg = segs@[i];
                    assert(decreases_to!(t => segs));
                    assert(decreases_to!(segs => segs@));
                    assert(decreases_to!(segs@ => sg));
                    assert(decreases_to!(sg => sg.args));
                    assert(decreases_to!(sg.args => sg.args@));
                    assert(decreases_to!(sg.args@ => sg.args@[j]));
                    lemma_path_rewrite_settles(table, roots, sg.args@[j], osegs@[i].args@[j]);
                }
            }
        },
        PathTree::Replaced(_) => {},
    }
}

/// With empty tables nothing is rewritten: no path resolves, and the import
/// rewrite gives back the tree it was handed.
pub proof fn lemma_no_rules_no_change(
    prefix: Seq<Seq<char>>,
    segs: Seq<Seq<char>>,
    t: UseTree,
)
    requires
        segs.len() >= 1,
    ensures
        resolve_generic(Map::empty(), Some(Map::empty()), segs) is None,
        resolve_call(Map::empty(), Map::empty(), segs) is None,
        rewrites_to(Map::empty(), prefix, t, t),
    decreases t,
{
    lemma_prefix_search_longest(Map::empty(), segs, segs.len() - 1);
    match chain(t) {
        Some(c) => {
            lemma_prefix_search_longest(Map::empty(), prefix + c, (prefix + c).len() - 1);
        },
        None => match t {
            UseTree::Path { ident, tree } => {
                lemma_prefix_search_longest(Map::empty(), prefix.push(ident@), prefix.len() as int);
                lemma_no_rules_no_change(prefix.push(ident@), segs, *tree);
            },
            UseTree::Group(items) => {
                assert forall|i: int| 0 <= i < items@.len() implies rewrites_to(
                    Map::empty(),
                    prefix,
                    items@[i],
                    items@[i],
                ) by {
                    lemma_no_rules_no_change(prefix, segs, items@[i]);
                }
            },
            _ => {},
        },
    }
}

} // verus!
