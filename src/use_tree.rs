//! Import trees and how the rules rewrite them.
use vstd::prelude::*;
use crate::path::{concat_segments, seg_views};
use crate::resolve::resolve_generic;
use crate::replacer::CodeReplacer;

verus! {

/// The shape of an import declaration.
#[derive(Debug, PartialEq, Eq)]
pub enum UseTree {
    /// A segment followed by the rest of the tree: `a::<tree>`.
    Path { ident: String, tree: Box<UseTree> },
    /// A terminal name: `a`.
    Name(String),
    /// A terminal name imported under an alias: `a as b`.
    Rename { ident: String, rename: String },
    /// A glob: `*`.
    Glob,
    /// A braced group of trees: `{a, b::c}`.
    Group(Vec<UseTree>),
    /// A node that a rule replaced, holding the replacement text.
    Replaced(String),
}

/// The segment that stands for a glob in a path.
pub open spec fn glob_seg() -> Seq<char> {
    seq!['*']
}

/// The segments of a tree that is a plain chain down to a name, a rename or a
/// glob; `None` where the chain reaches a group or a replaced node.
pub open spec fn chain(t: UseTree) -> Option<Seq<Seq<char>>>
    decreases t,
{
    match t {
        UseTree::Path { ident, tree } => match chain(*tree) {
            Some(c) => Some(seq![ident@] + c),
            None => None,
        },
        UseTree::Name(ident) => Some(seq![ident@]),
        UseTree::Rename { ident, rename } => Some(seq![ident@]),
        UseTree::Glob => Some(seq![glob_seg()]),
        UseTree::Group(items) => None,
        UseTree::Replaced(s) => None,
    }
}

/// Whether `out` is `Replaced` with the text `r`.
pub open spec fn replaced_by(out: UseTree, r: Seq<char>) -> bool {
    out is Replaced && out->Replaced_0@ == r
}

/// What rewriting `t`, found under the segments `prefix`, gives with the import
/// table `table`.
///
/// A chain is resolved once, on its whole accumulated path, and is replaced or
/// left as it is. A segment above a group is resolved on the path up to and
/// including it: on a match the node is replaced and not descended into, else
/// the group below is rewritten with the longer prefix. Each member of a group
/// is rewritten on its own. A replaced node is left as it is.
pub open spec fn rewrites_to(
    table: Map<Seq<char>, Seq<char>>,
    prefix: Seq<Seq<char>>,
    t: UseTree,
    out: UseTree,
) -> bool
    decreases t,
{
    match chain(t) {
        Some(c) => match resolve_generic(table, None, prefix + c) {
            Some(r) => replaced_by(out, r),
            None => out == t,
        },
        None => match t {
            UseTree::Path { ident, tree } => match resolve_generic(
                table,
                None,
                prefix.push(ident@),
            ) {
                Some(r) => replaced_by(out, r),
                None => out is Path && out->Path_ident == ident && rewrites_to(
                    table,
                    prefix.push(ident@),
                    *tree,
                    *out->Path_tree,
                ),
            },
            UseTree::Group(items) => out is Group && out->Group_0@.len() == items@.len() && forall|
                i: int,
            |
                0 <= i < items@.len() ==> rewrites_to(table, prefix, items@[i], out->Group_0@[i]),
            _ => out == t,
        },
    }
}

} // verus!

verus! {

impl UseTree {
    /// The segments of this tree where it is a plain chain (see [`chain`]).
    pub fn chain_segments(&self) -> (r: Option<Vec<String>>)
        ensures
            match r {
                Some(v) => chain(*self) == Some(seg_views(v@)),
                None => chain(*self) is None,
            },
        decreases self,
    {
        match self {
            UseTree::Path { ident, tree } => match tree.chain_segments() {
                Some(mut v) => {
                    let ghost before = v@;
                    v.insert(0, ident.clone());
                    assert(seg_views(v@) =~= seq![ident@] + seg_views(before));
                    Some(v)
                },
                None => None,
            },
            UseTree::Name(ident) => {
                let v = vec![ident.clone()];
                assert(seg_views(v@) =~= seq![ident@]);
                Some(v)
            },
            UseTree::Rename { ident, rename } => {
                let v = vec![ident.clone()];
                assert(seg_views(v@) =~= seq![ident@]);
                Some(v)
            },
            UseTree::Glob => {
                let mut star = String::new();
                star.append("*");
                proof {
                    reveal_strlit("*");
                }
                assert(star@ =~= glob_seg());
                let v = vec![star];
                assert(seg_views(v@) =~= seq![glob_seg()]);
                Some(v)
            },
            UseTree::Group(_) => None,
            UseTree::Replaced(_) => None,
        }
    }
}

impl CodeReplacer {
    /// Rewrites the tree of an import declaration in place, from its root.
    pub fn visit_use_tree_mut(&self, node: &mut UseTree)
        ensures
            rewrites_to(self.import_replacements@, Seq::empty(), *old(node), *final(node)),
    {
        let mut t = UseTree::Glob;
        std::mem::swap(&mut t, node);
        let root: Vec<String> = Vec::new();
        assert(seg_views(root@) =~= Seq::<Seq<char>>::empty());
        *node = self.rewrite_use_tree(t, &root);
    }

    /// Rewrites the import tree `tree`, found under the segments `prefix`, with
    /// the import table.
    pub fn rewrite_use_tree(&self, tree: UseTree, prefix: &Vec<String>) -> (r: UseTree)
        ensures
            rewrites_to(self.import_replacements@, seg_views(prefix@), tree, r),
        decreases tree,
    {
        let ghost t0 = tree;
        match tree.chain_segments() {
            Some(c) => {
                let full = concat_segments(prefix, &c);
                proof {
                    assert(chain(tree) is Some);
                    assert(seg_views(full@).len() >= 1) by {
                        reveal_with_fuel(chain, 1);
                    }
                }
                match self.get_import_replacement(&full) {
                    Some(r) => UseTree::Replaced(r),
                    None => tree,
                }
            },
            None => match tree {
                UseTree::Path { ident, tree: sub } => {
                    let one = vec![ident.clone()];
                    let p = concat_segments(prefix, &one);
                    assert(seg_views(p@) =~= seg_views(prefix@).push(ident@));
                    match self.get_import_replacement(&p) {
                        Some(r) => UseTree::Replaced(r),
                        None => {
                            let out = self.rewrite_use_tree(*sub, &p);
                            UseTree::Path { ident, tree: Box::new(out) }
                        },
                    }
                },
                UseTree::Group(items) => {
                    let ghost orig = items@;
                    let n = items.len();
                    proof {
                        assert(decreases_to!(t0 => items));
                    }
                    let mut rest = items;
                    let mut outs: Vec<UseTree> = Vec::new();
                    let mut k: usize = 0;
                    while rest.len() > 0
                        invariant
                            k + rest@.len() == orig.len() == n,
                            t0 is Group && t0->Group_0@ == orig,
                            t0 == tree,
                            rest@ == orig.subrange(k as int, orig.len() as int),
                            outs@.len() == k,
                            forall|i: int|
                                0 <= i < k ==> rewrites_to(
                                    self.import_replacements@,
                                    seg_views(prefix@),
                                    orig[i],
                                    outs@[i],
                                ),
                        decreases rest@.len(),
                    {
                        let item = rest.remove(0);
                        assert(item == orig[k as int]);
                        proof {
                            let v = t0->Group_0;
                            assert(decreases_to!(t0 => v));
                            assert(decreases_to!(v => v@));
                            assert(decreases_to!(v@ => v@[k as int]));
                            assert(decreases_to!(t0 => item));
                        }
                        let out = self.rewrite_use_tree(item, prefix);
                        outs.push(out);
                        k = k + 1;
                    }
                    UseTree::Group(outs)
                },
                other => other,
            },
        }
    }
}

} // verus!
