//! Harvesting qualified rules from the top-level items of a companion file.
use vstd::prelude::*;
use vstd::string::*;
use crate::path::sep;
use crate::rules::RuleTable;

verus! {

/// A top-level item of a companion file, as far as harvesting reads it.
#[derive(Debug, Clone, PartialEq, Eq)]
pub enum TopItem {
    /// A function definition, with its name.
    Fn(String),
    /// A macro invocation: the invoked macro's path as text, and the text of the
    /// first token of its arguments, if it has any.
    Macro { name: String, first_token: Option<String> },
    /// Any other item.
    Other,
}

/// Why harvesting failed.
#[derive(Debug, Clone, PartialEq, Eq)]
pub enum HarvestError {
    /// A defining macro, named here, was invoked without any argument token.
    MissingFirstToken(String),
}

/// Whether `s` begins with `p`.
pub open spec fn starts_with(s: Seq<char>, p: Seq<char>) -> bool {
    p.len() <= s.len() && s.subrange(0, p.len() as int) == p
}

/// Whether a macro of this name defines a function-like name.
pub open spec fn is_definer(name: Seq<char>) -> bool {
    starts_with(name, "define_"@) || starts_with(name, "legacy_define_"@)
}

/// Whether the item is a defining macro invocation with no argument token.
pub open spec fn is_malformed(item: TopItem) -> bool {
    match item {
        TopItem::Macro { name, first_token } => is_definer(name@) && first_token is None,
        _ => false,
    }
}

/// The qualified name `prefix::name`.
pub open spec fn qualify(prefix: Seq<char>, name: Seq<char>) -> Seq<char> {
    prefix + sep() + name
}

/// The rules that one item yields under `prefix`.
pub open spec fn item_rules(item: TopItem, prefix: Seq<char>) -> Seq<(Seq<char>, Seq<char>)> {
    match item {
        TopItem::Fn(name) => seq![(name@, qualify(prefix, name@))],
        TopItem::Macro { name, first_token } => match first_token {
            Some(t) => if is_definer(name@) {
                seq![(t@, qualify(prefix, t@))]
            } else {
                Seq::empty()
            },
            None => Seq::empty(),
        },
        TopItem::Other => Seq::empty(),
    }
}

/// The rules that the items yield under `prefix`, in item order.
pub open spec fn harvest_rules(items: Seq<TopItem>, prefix: Seq<char>) -> Seq<(Seq<char>, Seq<char>)>
    decreases items.len(),
{
    if items.len() == 0 {
        Seq::empty()
    } else {
        harvest_rules(items.drop_last(), prefix) + item_rules(items.last(), prefix)
    }
}

/// A table after inserting the rules in order, later ones overwriting earlier.
pub open spec fn insert_all(
    m: Map<Seq<char>, Seq<char>>,
    rules: Seq<(Seq<char>, Seq<char>)>,
) -> Map<Seq<char>, Seq<char>>
    decreases rules.len(),
{
    if rules.len() == 0 {
        m
    } else {
        insert_all(m, rules.drop_last()).insert(rules.last().0, rules.last().1)
    }
}

/// Pairs of strings, as characters.
pub open spec fn pair_views(v: Seq<(String, String)>) -> Seq<(Seq<char>, Seq<char>)> {
    v.map_values(|p: (String, String)| (p.0@, p.1@))
}

/// Whether `s` begins with `p`.
pub fn has_prefix(s: &str, p: &str) -> (r: bool)
    ensures
        r == starts_with(s@, p@),
{
    let n = s.unicode_len();
    let m = p.unicode_len();
    if m > n {
        return false;
    }
    let mut i: usize = 0;
    while i < m
        invariant
            m <= n,
            n == s@.len(),
            m == p@.len(),
            i <= m,
            forall|k: int| 0 <= k < i ==> s@[k] == p@[k],
        decreases m - i,
    {
        if s.get_char(i) != p.get_char(i) {
            assert(s@.subrange(0, m as int)[i as int] != p@[i as int]);
            return false;
        }
        i = i + 1;
    }
    assert(s@.subrange(0, m as int) =~= p@);
    true
}

/// The qualified name `prefix::name`.
fn qualified_name(prefix: &str, name: &String) -> (r: String)
    ensures
        r@ == qualify(prefix@, name@),
{
    let mut r = String::new();
    r.append(prefix);
    r.append("::");
    proof {
        reveal_strlit("::");
    }
    r.append(name.as_str());
    r
}

/// Whether a macro of this name defines a function-like name.
pub fn is_definer_name(name: &String) -> (r: bool)
    ensures
        r == is_definer(name@),
{
    has_prefix(name.as_str(), "define_") || has_prefix(name.as_str(), "legacy_define_")
}

/// The rules that the top-level items of a companion file yield under `prefix`:
/// each function maps its name to `prefix::name`, and each invocation of a
/// macro whose name starts with `define_` or `legacy_define_` maps its first
/// argument token the same way. A defining invocation without argument tokens
/// is an error.
pub fn harvest(items: &Vec<TopItem>, prefix: &str) -> (r: Result<Vec<(String, String)>, HarvestError>)
    ensures
        r is Ok <==> forall|i: int| 0 <= i < items@.len() ==> !is_malformed(#[trigger] items@[i]),
        match r {
            Ok(v) => pair_views(v@) == harvest_rules(items@, prefix@),
            Err(HarvestError::MissingFirstToken(name)) => exists|i: int|
                0 <= i < items@.len() && is_malformed(#[trigger] items@[i]) && items@[i]->Macro_name
                    == name,
        },
{
    let mut out: Vec<(String, String)> = Vec::new();
    let mut i: usize = 0;
    while i < items.len()
        invariant
            i <= items@.len(),
            forall|k: int| 0 <= k < i ==> !is_malformed(#[trigger] items@[k]),
            pair_views(out@) == harvest_rules(items@.subrange(0, i as int), prefix@),
        decreases items@.len() - i,
    {
        let ghost before = out@;
        assert(items@.subrange(0, i + 1).drop_last() =~= items@.subrange(0, i as int));
        match &items[i] {
            TopItem::Fn(name) => {
                out.push((name.clone(), qualified_name(prefix, name)));
            },
            TopItem::Macro { name, first_token } => {
                if is_definer_name(name) {
                    match first_token {
                        Some(t) => {
                            out.push((t.clone(), qualified_name(prefix, t)));
                        },
                        None => {
                            return Err(HarvestError::MissingFirstToken(name.clone()));
                        },
                    }
                }
            },
            TopItem::Other => {},
        }
        assert(pair_views(out@) =~= pair_views(before) + item_rules(items@[i as int], prefix@));
        i = i + 1;
    }
    assert(items@.subrange(0, i as int) =~= items@);
    Ok(out)
}

/// Harvests the rules of a companion file's items under `function_prefix` and
/// inserts them, in order, into `function_table`. On an error the table is left
/// as it was.
pub fn add_file_function_mappings(
    items: &Vec<TopItem>,
    function_prefix: &str,
    function_table: &mut RuleTable,
) -> (r: Result<(), HarvestError>)
    ensures
        r is Ok <==> forall|i: int| 0 <= i < items@.len() ==> !is_malformed(#[trigger] items@[i]),
        r is Ok ==> final(function_table)@ == insert_all(
            old(function_table)@,
            harvest_rules(items@, function_prefix@),
        ),
        r is Err ==> final(function_table)@ == old(function_table)@,
{
    let rules = match harvest(items, function_prefix) {
        Ok(v) => v,
        Err(e) => {
            return Err(e);
        },
    };
    let ghost start = function_table@;
    let n = rules.len();
    let mut rest = rules;
    let mut k: usize = 0;
    let ghost all = rest@;
    while rest.len() > 0
        invariant
            k + rest@.len() == all.len() == n,
            rest@ == all.subrange(k as int, all.len() as int),
            function_table@ == insert_all(start, pair_views(all.subrange(0, k as int))),
        decreases rest@.len(),
    {
        let (key, value) = rest.remove(0);
        assert(pair_views(all.subrange(0, k + 1)).drop_last() =~= pair_views(all.subrange(0, k as int)));
        function_table.insert(key, value);
        k = k + 1;
    }
    assert(all.subrange(0, k as int) =~= all);
    Ok(())
}

} // verus!
