//! Paths in type and expression position, with the paths nested in their
//! generic arguments, and how the rules rewrite them.
use vstd::prelude::*;
use crate::path::seg_views;
use crate::replacer::CodeReplacer;
use crate::resolve::resolve_generic;

verus! {

/// A path that may carry generic arguments on its segments.
#[derive(Debug, PartialEq, Eq)]
pub enum PathTree {
    /// The segments of the path, each with the paths among its generic arguments.
    Path(Vec<PathSegment>),
    /// A path that a rule replaced, holding the replacement text.
    Replaced(String),
}

/// One segment of a path and the paths among its generic arguments.
#[derive(Debug, PartialEq, Eq)]
pub struct PathSegment {
    pub ident: String,
    pub args: Vec<PathTree>,
}

/// The names of the segments.
pub open spec fn idents(segs: Seq<PathSegment>) -> Seq<Seq<char>> {
    segs.map_values(|s: PathSegment| s.ident@)
}

/// What rewriting the path `t` gives with the specific-path table `table` and
/// the crate-root table `roots`: a path that resolves is replaced and its
/// arguments are not visited; one that does not keeps its segments, and the
/// paths in its generic arguments are rewritten in turn.
pub open spec fn path_rewrites_to(
    table: Map<Seq<char>, Seq<char>>,
    roots: Map<Seq<char>, Seq<char>>,
    t: PathTree,
    out: PathTree,
) -> bool
    decreases t,
{
    match t {
        PathTree::Replaced(_) => out == t,
        PathTree::Path(segs) => if segs@.len() == 0 {
            out == t
        } else {
            match resolve_generic(table, Some(roots), idents(segs@)) {
                Some(r) => out is Replaced && out->Replaced_0@ == r,
                None => out is Path && out->Path_0@.len() == segs@.len() && forall|i: int|
                    0 <= i < segs@.len() ==> {
                        &&& (#[trigger] out->Path_0@[i]).ident == segs@[i].ident
                        &&& out->Path_0@[i].args@.len() == segs@[i].args@.len()
                        &&& forall|j: int|
                            0 <= j < segs@[i].args@.len() ==> path_rewrites_to(
                                table,
                                roots,
                                #[trigger] segs@[i].args@[j],
                                out->Path_0@[i].args@[j],
                            )
                    },
            }
        },
    }
}

} // verus!

verus! {

impl CodeReplacer {
    /// Rewrites a path in type or expression position with the specific-path
    /// table and the crate-root fallback (see [`path_rewrites_to`]).
    pub fn rewrite_path_tree(&self, t: PathTree) -> (r: PathTree)
        ensures
            path_rewrites_to(self.specific_path_replacements@, self.crate_replacements@, t, r),
        decreases t,
    {
        let ghost t0 = t;
        match t {
            PathTree::Replaced(s) => PathTree::Replaced(s),
            PathTree::Path(segs) => {
                if segs.len() == 0 {
                    return PathTree::Path(segs);
                }
                let mut names: Vec<String> = Vec::new();
                let mut i: usize = 0;
                while i < segs.len()
                    invariant
                        i <= segs@.len(),
                        names@.len() == i,
                        forall|k: int| 0 <= k < i ==> #[trigger] names@[k]@ == segs@[k].ident@,
                    decreases segs@.len() - i,
                {
                    names.push(segs[i].ident.clone());
                    i = i + 1;
                }
                assert(seg_views(names@) =~= idents(segs@));
                match self.get_path_replacement(&names) {
                    Some(r) => PathTree::Replaced(r),
                    None => {
                        let ghost orig = segs@;
                        let n = segs.len();
                        let mut rest = segs;
                        let mut outs: Vec<PathSegment> = Vec::new();
                        let mut k: usize = 0;
                        while rest.len() > 0
                            invariant
                                t0 == t,
                                t0 is Path && t0->Path_0@ == orig,
                                k + rest@.len() == orig.len() == n,
                                rest@ == orig.subrange(k as int, orig.len() as int),
                                outs@.len() == k,
                                forall|i: int|
                                    0 <= i < k ==> {
                                        &&& (#[trigger] outs@[i]).ident == orig[i].ident
                                        &&& outs@[i].args@.len() == orig[i].args@.len()
                                        &&& forall|j: int|
                                            0 <= j < orig[i].args@.len() ==> path_rewrites_to(
                                                self.specific_path_replacements@,
                                                self.crate_replacements@,
                                                #[trigger] orig[i].args@[j],
                                                outs@[i].args@[j],
                                            )
                                    },
                            decreases rest@.len(),
                        {
                            let seg = rest.remove(0);
                            assert(seg == orig[k as int]);
                            let PathSegment { ident, args } = seg;
                            let ghost aorig = args@;
                            let m = args.len();
                            let mut arest = args;
                            let mut aouts: Vec<PathTree> = Vec::new();
                            let mut a: usize = 0;
                            while arest.len() > 0
                                invariant
                                    t0 == t,
                                    t0 is Path && t0->Path_0@ == orig,
                                    k < orig.len(),
                                    aorig == orig[k as int].args@,
                                    a + arest@.len() == aorig.len() == m,
                                    arest@ == aorig.subrange(a as int, aorig.len() as int),
                                    aouts@.len() == a,
                                    forall|j: int|
                                        0 <= j < a ==> path_rewrites_to(
                                            self.specific_path_replacements@,
                                            self.crate_replacements@,
                                            aorig[j],
                                            #[trigger] aouts@[j],
                                        ),
                                decreases arest@.len(),
                            {
                                let arg = arest.remove(0);
                                assert(arg == aorig[a as int]);
                                proof {
                                    let v = t0->Path_0;
                                    let sg = v@[k as int];
                                    assert(decreases_to!(t0 => v));
                                    assert(decreases_to!(v => v@));
                                    assert(decreases_to!(v@ => sg));
                                    assert(decreases_to!(sg => sg.args));
                                    assert(decreases_to!(sg.args => sg.args@));
                                    assert(decreases_to!(sg.args@ => sg.args@[a as int]));
                                    assert(decreases_to!(t0 => arg));
                                }
                                let out = self.rewrite_path_tree(arg);
                                aouts.push(out);
                                a = a + 1;
                            }
                            outs.push(PathSegment { ident, args: aouts });
                            k = k + 1;
                        }
                        PathTree::Path(outs)
                    },
                }
            },
        }
    }
}

} // verus!
