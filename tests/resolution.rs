use code_replacer::args::{insert_args, ReplacementArg};
use code_replacer::harvest::{add_file_function_mappings, harvest, has_prefix, HarvestError, TopItem};
use code_replacer::path::{concat_segments, join_segments};
use code_replacer::path_tree::{PathSegment, PathTree};
use code_replacer::replacer::CodeReplacer;
use code_replacer::rules::RuleTable;
use code_replacer::use_tree::UseTree;

fn segs(parts: &[&str]) -> Vec<String> {
    parts.iter().map(|p| p.to_string()).collect()
}

fn s(text: &str) -> String {
    text.to_string()
}

#[test]
fn join_segments_uses_separator() {
    let p = segs(&["a", "b", "c"]);
    assert_eq!(join_segments(&p, 0, 3), "a::b::c");
    assert_eq!(join_segments(&p, 1, 3), "b::c");
    assert_eq!(join_segments(&p, 0, 1), "a");
    assert_eq!(join_segments(&p, 2, 2), "");
}

#[test]
fn concat_segments_keeps_order() {
    let r = concat_segments(&segs(&["a"]), &segs(&["b", "c"]));
    assert_eq!(r, segs(&["a", "b", "c"]));
}

#[test]
fn rule_table_last_writer_wins() {
    let mut t = RuleTable::new();
    assert_eq!(t.get(&s("k")), None);
    t.insert(s("k"), s("first"));
    t.insert(s("other"), s("x"));
    t.insert(s("k"), s("second"));
    assert_eq!(t.get(&s("k")), Some(&s("second")));
    assert_eq!(t.get(&s("other")), Some(&s("x")));
    assert_eq!(t.get(&s("missing")), None);
}

#[test]
fn qualified_call_is_rewritten() {
    let mut r = CodeReplacer::new();
    r.qualified_replacements.insert(s("mod_a::old_fn"), s("mod_b::new_fn"));
    assert_eq!(r.get_replacement(&segs(&["mod_a", "old_fn"])), Some(s("mod_b::new_fn")));
    assert_eq!(r.get_replacement(&segs(&["mod_c", "old_fn"])), None);
}

#[test]
fn qualified_call_wins_over_simple() {
    let mut r = CodeReplacer::new();
    r.replacements.insert(s("old_fn"), s("simple::new_fn"));
    r.qualified_replacements.insert(s("mod_a::old_fn"), s("mod_b::new_fn"));
    assert_eq!(r.get_replacement(&segs(&["mod_a", "old_fn"])), Some(s("mod_b::new_fn")));
    assert_eq!(r.get_replacement(&segs(&["other", "old_fn"])), Some(s("simple::new_fn")));
    assert_eq!(r.get_replacement(&segs(&["old_fn"])), Some(s("simple::new_fn")));
}

#[test]
fn specific_prefix_reroots_subtree() {
    let mut r = CodeReplacer::new();
    r.specific_path_replacements.insert(s("crate_a::util"), s("crate_b::helpers"));
    assert_eq!(
        r.get_path_replacement(&segs(&["crate_a", "util", "format", "render"])),
        Some(s("crate_b::helpers::format::render"))
    );
    assert_eq!(r.get_path_replacement(&segs(&["crate_a", "other"])), None);
}

#[test]
fn crate_root_fallback_replaces_first_segment() {
    let mut r = CodeReplacer::new();
    r.crate_replacements.insert(s("crate_a"), s("crate_b"));
    assert_eq!(
        r.get_path_replacement(&segs(&["crate_a", "widgets", "Button"])),
        Some(s("crate_b::widgets::Button"))
    );
    assert_eq!(r.get_path_replacement(&segs(&["crate_a"])), Some(s("crate_b")));
    assert_eq!(r.get_path_replacement(&segs(&["crate_c", "widgets"])), None);
}

#[test]
fn longest_prefix_is_chosen() {
    let mut r = CodeReplacer::new();
    r.specific_path_replacements.insert(s("a::b"), s("long"));
    r.specific_path_replacements.insert(s("a"), s("short"));
    assert_eq!(r.get_path_replacement(&segs(&["a", "b", "c", "d"])), Some(s("long::c::d")));
    assert_eq!(r.get_path_replacement(&segs(&["a", "x"])), Some(s("short::x")));
}

#[test]
fn exact_entry_wins_over_later_prefix() {
    let mut r = CodeReplacer::new();
    r.specific_path_replacements.insert(s("a::b::c"), s("exact"));
    r.specific_path_replacements.insert(s("a::b"), s("prefix"));
    assert_eq!(r.get_path_replacement(&segs(&["a", "b", "c"])), Some(s("exact")));
}

#[test]
fn crate_root_not_used_when_primary_matches() {
    let mut r = CodeReplacer::new();
    r.crate_replacements.insert(s("a"), s("root"));
    r.specific_path_replacements.insert(s("a::b"), s("spec"));
    assert_eq!(r.get_path_replacement(&segs(&["a", "b", "c"])), Some(s("spec::c")));
    assert_eq!(r.get_path_replacement(&segs(&["a", "z", "c"])), Some(s("root::z::c")));
}

#[test]
fn empty_suffix_gives_replacement_alone() {
    let mut t = RuleTable::new();
    t.insert(s("a"), s("x"));
    let r = CodeReplacer::new();
    assert_eq!(r.get_generic_replacement(&segs(&["a", ""]), &t, None), Some(s("x")));
}

#[test]
fn import_resolution_has_no_crate_fallback() {
    let mut r = CodeReplacer::new();
    r.crate_replacements.insert(s("pkg"), s("other"));
    r.import_replacements.insert(s("pkg::d"), s("pkg2::d"));
    assert_eq!(r.get_import_replacement(&segs(&["pkg", "a"])), None);
    assert_eq!(r.get_import_replacement(&segs(&["pkg", "d", "x"])), Some(s("pkg2::d::x")));
}

fn sample_group() -> UseTree {
    UseTree::Path {
        ident: s("pkg"),
        tree: Box::new(UseTree::Group(vec![
            UseTree::Name(s("a")),
            UseTree::Rename { ident: s("b"), rename: s("c") },
            UseTree::Path { ident: s("d"), tree: Box::new(UseTree::Glob) },
        ])),
    }
}

#[test]
fn import_group_only_glob_member_rewritten() {
    let mut r = CodeReplacer::new();
    r.import_replacements.insert(s("pkg::d"), s("pkg2::d"));
    let mut t = sample_group();
    r.visit_use_tree_mut(&mut t);
    let expected = UseTree::Path {
        ident: s("pkg"),
        tree: Box::new(UseTree::Group(vec![
            UseTree::Name(s("a")),
            UseTree::Rename { ident: s("b"), rename: s("c") },
            UseTree::Replaced(s("pkg2::d::*")),
        ])),
    };
    assert_eq!(t, expected);
}

#[test]
fn import_chain_resolved_on_full_path() {
    let mut r = CodeReplacer::new();
    r.import_replacements.insert(s("a::b::c"), s("x::y"));
    let mut t = UseTree::Path {
        ident: s("a"),
        tree: Box::new(UseTree::Path { ident: s("b"), tree: Box::new(UseTree::Name(s("c"))) }),
    };
    r.visit_use_tree_mut(&mut t);
    assert_eq!(t, UseTree::Replaced(s("x::y")));
}

#[test]
fn import_rename_resolved_on_its_path() {
    let mut r = CodeReplacer::new();
    r.import_replacements.insert(s("m::f"), s("n::g as h"));
    let mut t = UseTree::Path {
        ident: s("m"),
        tree: Box::new(UseTree::Rename { ident: s("f"), rename: s("h") }),
    };
    r.visit_use_tree_mut(&mut t);
    assert_eq!(t, UseTree::Replaced(s("n::g as h")));
}

#[test]
fn import_segment_above_group_replaced_whole() {
    let mut r = CodeReplacer::new();
    r.import_replacements.insert(s("pkg"), s("pkg3"));
    let mut t = sample_group();
    r.visit_use_tree_mut(&mut t);
    assert_eq!(t, UseTree::Replaced(s("pkg3")));
}

#[test]
fn replaced_import_is_not_rewritten_again() {
    let mut r = CodeReplacer::new();
    r.import_replacements.insert(s("x"), s("y"));
    r.import_replacements.insert(s("y"), s("z"));
    let mut t = UseTree::Name(s("x"));
    r.visit_use_tree_mut(&mut t);
    assert_eq!(t, UseTree::Replaced(s("y")));
    r.visit_use_tree_mut(&mut t);
    assert_eq!(t, UseTree::Replaced(s("y")));
}

#[test]
fn import_rewrite_without_rules_is_identity() {
    let r = CodeReplacer::new();
    let mut t = sample_group();
    r.visit_use_tree_mut(&mut t);
    assert_eq!(t, sample_group());
}

#[test]
fn chain_segments_of_trees() {
    let t = UseTree::Path { ident: s("d"), tree: Box::new(UseTree::Glob) };
    assert_eq!(t.chain_segments(), Some(segs(&["d", "*"])));
    assert_eq!(sample_group().chain_segments(), None);
    assert_eq!(UseTree::Replaced(s("q")).chain_segments(), None);
}

#[test]
fn harvest_functions_and_defining_macros() {
    let items = vec![
        TopItem::Fn(s("foo")),
        TopItem::Macro { name: s("define_thing"), first_token: Some(s("bar")) },
        TopItem::Macro { name: s("println"), first_token: Some(s("skipped")) },
        TopItem::Other,
    ];
    let rules = harvest(&items, "core_ns").unwrap();
    assert_eq!(
        rules,
        vec![(s("foo"), s("core_ns::foo")), (s("bar"), s("core_ns::bar"))]
    );
}

#[test]
fn harvested_rules_rewrite_calls() {
    let items = vec![
        TopItem::Fn(s("foo")),
        TopItem::Macro { name: s("define_thing"), first_token: Some(s("bar")) },
    ];
    let mut r = CodeReplacer::new();
    assert_eq!(add_file_function_mappings(&items, "core_ns", &mut r.qualified_replacements), Ok(()));
    assert_eq!(r.qualified_replacements.get(&s("foo")), Some(&s("core_ns::foo")));
    assert_eq!(r.qualified_replacements.get(&s("bar")), Some(&s("core_ns::bar")));
    assert_eq!(r.get_replacement(&segs(&["foo"])), Some(s("core_ns::foo")));
}

#[test]
fn harvest_legacy_macro() {
    let items = vec![TopItem::Macro { name: s("legacy_define_op"), first_token: Some(s("op1")) }];
    assert_eq!(harvest(&items, "ns").unwrap(), vec![(s("op1"), s("ns::op1"))]);
}

#[test]
fn harvest_defining_macro_without_tokens_fails() {
    let items = vec![
        TopItem::Fn(s("foo")),
        TopItem::Macro { name: s("define_empty"), first_token: None },
    ];
    assert_eq!(harvest(&items, "ns"), Err(HarvestError::MissingFirstToken(s("define_empty"))));
    let mut t = RuleTable::new();
    let res = add_file_function_mappings(&items, "ns", &mut t);
    assert_eq!(res, Err(HarvestError::MissingFirstToken(s("define_empty"))));
    assert_eq!(t.get(&s("foo")), None);
}

#[test]
fn harvest_other_macro_without_tokens_is_skipped() {
    let items = vec![TopItem::Macro { name: s("other"), first_token: None }];
    assert_eq!(harvest(&items, "ns"), Ok(vec![]));
}

#[test]
fn has_prefix_cases() {
    assert!(has_prefix("define_x", "define_"));
    assert!(!has_prefix("defin", "define_"));
    assert!(!has_prefix("macro_rules", "define_"));
    assert!(has_prefix("", ""));
}

#[test]
fn replacement_arg_splits_at_first_eq() {
    let a = ReplacementArg::from_str("a::b=c::d=e").unwrap();
    assert_eq!(a.from_arg, "a::b");
    assert_eq!(a.to_arg, "c::d=e");
    let b = ReplacementArg::from_str("=x").unwrap();
    assert_eq!(b.from_arg, "");
    assert_eq!(b.to_arg, "x");
}

#[test]
fn replacement_arg_without_eq_fails() {
    assert_eq!(
        ReplacementArg::from_str("novalue"),
        Err(s("Invalid format: 'novalue'. Expected format: '<string1>=<string2>'"))
    );
}

#[test]
fn insert_args_later_overrides() {
    let mut t = RuleTable::new();
    t.insert(s("k"), s("config"));
    let args = vec![
        ReplacementArg::from_str("k=cli").unwrap(),
        ReplacementArg::from_str("j=1").unwrap(),
        ReplacementArg::from_str("j=2").unwrap(),
    ];
    insert_args(&mut t, &args);
    assert_eq!(t.get(&s("k")), Some(&s("cli")));
    assert_eq!(t.get(&s("j")), Some(&s("2")));
}

#[test]
fn later_directive_for_same_file_wins() {
    let mut r = CodeReplacer::new();
    r.add_directive(s("a.rs"), s("ns1"));
    r.add_directive(s("b.rs"), s("ns2"));
    r.add_directive(s("a.rs"), s("ns3"));
    assert_eq!(
        r.file_function_mappings,
        vec![(s("b.rs"), s("ns2")), (s("a.rs"), s("ns3"))]
    );
}

#[test]
fn no_rules_resolve_nothing() {
    let r = CodeReplacer::new();
    assert_eq!(r.get_replacement(&segs(&["a", "b"])), None);
    assert_eq!(r.get_path_replacement(&segs(&["a", "b"])), None);
    assert_eq!(r.get_import_replacement(&segs(&["a"])), None);
}

fn plain(name: &str) -> PathSegment {
    PathSegment { ident: s(name), args: vec![] }
}

#[test]
fn path_tree_replaced_on_hit_without_descent() {
    let mut r = CodeReplacer::new();
    r.specific_path_replacements.insert(s("crate_a::util"), s("crate_b::helpers"));
    r.crate_replacements.insert(s("inner"), s("never"));
    let t = PathTree::Path(vec![
        plain("crate_a"),
        plain("util"),
        PathSegment {
            ident: s("Wrap"),
            args: vec![PathTree::Path(vec![plain("inner"), plain("T")])],
        },
    ]);
    assert_eq!(r.rewrite_path_tree(t), PathTree::Replaced(s("crate_b::helpers::Wrap")));
}

#[test]
fn path_tree_miss_rewrites_generic_arguments() {
    let mut r = CodeReplacer::new();
    r.crate_replacements.insert(s("crate_a"), s("crate_b"));
    let t = PathTree::Path(vec![PathSegment {
        ident: s("Vec"),
        args: vec![
            PathTree::Path(vec![plain("crate_a"), plain("widgets"), plain("Button")]),
            PathTree::Path(vec![plain("u8")]),
        ],
    }]);
    let expected = PathTree::Path(vec![PathSegment {
        ident: s("Vec"),
        args: vec![
            PathTree::Replaced(s("crate_b::widgets::Button")),
            PathTree::Path(vec![plain("u8")]),
        ],
    }]);
    assert_eq!(r.rewrite_path_tree(t), expected);
}

#[test]
fn path_tree_replacement_not_rewritten_again() {
    let mut r = CodeReplacer::new();
    r.specific_path_replacements.insert(s("a::b"), s("c::d"));
    r.specific_path_replacements.insert(s("c::d"), s("e::f"));
    let once = r.rewrite_path_tree(PathTree::Path(vec![plain("a"), plain("b")]));
    assert_eq!(once, PathTree::Replaced(s("c::d")));
    assert_eq!(r.rewrite_path_tree(once), PathTree::Replaced(s("c::d")));
}
