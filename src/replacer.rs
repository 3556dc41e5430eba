//! The rule store and the executable resolver.
use vstd::prelude::*;
use crate::path::{join, join_segments, sep, seg_views};
use crate::resolve::{opt_view, prefix_matches, prefix_search, rerooted, resolve_call, resolve_generic};
use crate::rules::RuleTable;

verus! {

/// The five rule tables and the harvest directives.
pub struct CodeReplacer {
    /// Bare last segment of a call target to its replacement.
    pub replacements: RuleTable,
    /// Full call-target path to its replacement; wins over `replacements`.
    pub qualified_replacements: RuleTable,
    /// Import path (exact or prefix) to its replacement.
    pub import_replacements: RuleTable,
    /// Path (exact or prefix) to its replacement, for all other paths.
    pub specific_path_replacements: RuleTable,
    /// First segment of a path to its replacement; the last resort.
    pub crate_replacements: RuleTable,
    /// Harvest directives, (companion file, namespace prefix), in the order given.
    pub file_function_mappings: Vec<(String, String)>,
}

/// A directive list as pairs of character sequences.
pub open spec fn directive_views(v: Seq<(String, String)>) -> Seq<(Seq<char>, Seq<char>)> {
    v.map_values(|p: (String, String)| (p.0@, p.1@))
}

/// The directives of `list` that do not name `file`, in order.
pub open spec fn without_file(list: Seq<(Seq<char>, Seq<char>)>, file: Seq<char>) -> Seq<
    (Seq<char>, Seq<char>),
>
    decreases list.len(),
{
    if list.len() == 0 {
        Seq::empty()
    } else if list.last().0 == file {
        without_file(list.drop_last(), file)
    } else {
        without_file(list.drop_last(), file).push(list.last())
    }
}

impl CodeReplacer {
    /// Adds the harvest directive (`file`, `prefix`) after the others; an
    /// earlier directive for the same file is dropped, so the later one wins.
    pub fn add_directive(&mut self, file: String, prefix: String)
        ensures
            directive_views(final(self).file_function_mappings@) == without_file(
                directive_views(old(self).file_function_mappings@),
                file@,
            ).push((file@, prefix@)),
            final(self).replacements == old(self).replacements,
            final(self).qualified_replacements == old(self).qualified_replacements,
            final(self).import_replacements == old(self).import_replacements,
            final(self).specific_path_replacements == old(self).specific_path_replacements,
            final(self).crate_replacements == old(self).crate_replacements,
    {
        let ghost all = directive_views(self.file_function_mappings@);
        let mut kept: Vec<(String, String)> = Vec::new();
        let mut i: usize = 0;
        while i < self.file_function_mappings.len()
            invariant
                i <= self.file_function_mappings@.len(),
                all == directive_views(self.file_function_mappings@),
                directive_views(kept@) == without_file(all.subrange(0, i as int), file@),
            decreases self.file_function_mappings@.len() - i,
        {
            assert(all.subrange(0, i + 1).drop_last() =~= all.subrange(0, i as int));
            let ghost before = kept@;
            if self.file_function_mappings[i].0 != file {
                let f = self.file_function_mappings[i].0.clone();
                let p = self.file_function_mappings[i].1.clone();
                kept.push((f, p));
                assert(directive_views(kept@) =~= directive_views(before).push(all[i as int]));
            }
            i = i + 1;
        }
        assert(all.subrange(0, i as int) =~= all);
        let ghost before = kept@;
        kept.push((file, prefix));
        assert(directive_views(kept@) =~= directive_views(before).push((file@, prefix@)));
        self.file_function_mappings = kept;
    }

    /// A rule store with all tables empty and no directive.
    pub fn new() -> (r: CodeReplacer)
        ensures
            r.replacements@ == Map::<Seq<char>, Seq<char>>::empty(),
            r.qualified_replacements@ == Map::<Seq<char>, Seq<char>>::empty(),
            r.import_replacements@ == Map::<Seq<char>, Seq<char>>::empty(),
            r.specific_path_replacements@ == Map::<Seq<char>, Seq<char>>::empty(),
            r.crate_replacements@ == Map::<Seq<char>, Seq<char>>::empty(),
            r.file_function_mappings@.len() == 0,
    {
        CodeReplacer {
            replacements: RuleTable::new(),
            qualified_replacements: RuleTable::new(),
            import_replacements: RuleTable::new(),
            specific_path_replacements: RuleTable::new(),
            crate_replacements: RuleTable::new(),
            file_function_mappings: Vec::new(),
        }
    }

    /// The replacement of a call target: the full path in the qualified table,
    /// else its last segment in the simple table.
    pub fn get_replacement(&self, path: &Vec<String>) -> (r: Option<String>)
        ensures
            opt_view(r) == resolve_call(
                self.qualified_replacements@,
                self.replacements@,
                seg_views(path@),
            ),
    {
        let n = path.len();
        let full = join_segments(path, 0, n);
        assert(seg_views(path@).subrange(0, n as int) =~= seg_views(path@));
        match self.qualified_replacements.get(&full) {
            Some(r) => {
                return Some(r.clone());
            },
            None => {},
        }
        if n > 0 {
            match self.replacements.get(&path[n - 1]) {
                Some(r) => {
                    return Some(r.clone());
                },
                None => {},
            }
        }
        None
    }

    /// The replacement of a path under `table`: an exact entry, else the entry
    /// of the longest proper prefix with the rest of the path kept, else (when
    /// `maybe_root_replacements` is given) the first segment replaced alone.
    pub fn get_generic_replacement(
        &self,
        path: &Vec<String>,
        specific_path_replacements: &RuleTable,
        maybe_root_replacements: Option<&RuleTable>,
    ) -> (r: Option<String>)
        requires
            path@.len() >= 1,
        ensures
            opt_view(r) == resolve_generic(
                specific_path_replacements@,
                match maybe_root_replacements {
                    Some(t) => Some(t@),
                    None => None,
                },
                seg_views(path@),
            ),
    {
        let ghost segs = seg_views(path@);
        let n = path.len();
        let full = join_segments(path, 0, n);
        assert(segs.subrange(0, n as int) =~= segs);
        match specific_path_replacements.get(&full) {
            Some(r) => {
                return Some(r.clone());
            },
            None => {},
        }
        let mut len: usize = n - 1;
        while len >= 1
            invariant
                1 <= n == path@.len(),
                segs == seg_views(path@),
                !specific_path_replacements@.contains_key(join(segs)),
                len <= n - 1,
                prefix_search(specific_path_replacements@, segs, n - 1) == prefix_search(
                    specific_path_replacements@,
                    segs,
                    len as int,
                ),
            decreases len,
        {
            let partial = join_segments(path, 0, len);
            match specific_path_replacements.get(&partial) {
                Some(r) => {
                    let rest = join_segments(path, len, n);
                    assert(prefix_matches(specific_path_replacements@, segs, len as int));
                    assert(prefix_search(specific_path_replacements@, segs, len as int) == Some(
                        rerooted(r@, segs.subrange(len as int, n as int)),
                    ));
                    if rest.as_str().is_empty() {
                        return Some(r.clone());
                    } else {
                        let mut out = r.clone();
                        out.append("::");
                        proof {
                            reveal_strlit("::");
                        }
                        out.append(rest.as_str());
                        assert(out@ == r@ + sep() + rest@);
                        return Some(out);
                    }
                },
                None => {},
            }
            len = len - 1;
        }
        match maybe_root_replacements {
            Some(roots) => {
                match roots.get(&path[0]) {
                    Some(r) => {
                        let mut parts: Vec<String> = Vec::new();
                        parts.push(r.clone());
                        let mut i: usize = 1;
                        while i < n
                            invariant
                                1 <= i <= n == path@.len(),
                                parts@.len() == i,
                                parts@[0]@ == r@,
                                forall|j: int| 1 <= j < i ==> parts@[j]@ == path@[j]@,
                            decreases n - i,
                        {
                            parts.push(path[i].clone());
                            i = i + 1;
                        }
                        let out = join_segments(&parts, 0, n);
                        assert(seg_views(parts@) =~= segs.update(0, r@));
                        assert(seg_views(parts@).subrange(0, n as int) =~= seg_views(parts@));
                        assert(seg_views(path@).subrange(0, n as int) =~= segs);
                        return Some(out);
                    },
                    None => {},
                }
            },
            None => {},
        }
        None
    }

    /// The replacement of a path outside calls and imports: the specific-path
    /// table, with the crate-root table as fallback.
    pub fn get_path_replacement(&self, path: &Vec<String>) -> (r: Option<String>)
        requires
            path@.len() >= 1,
        ensures
            opt_view(r) == resolve_generic(
                self.specific_path_replacements@,
                Some(self.crate_replacements@),
                seg_views(path@),
            ),
    {
        self.get_generic_replacement(
            path,
            &self.specific_path_replacements,
            Some(&self.crate_replacements),
        )
    }

    /// The replacement of an import path: the import table, with no fallback.
    pub fn get_import_replacement(&self, path: &Vec<String>) -> (r: Option<String>)
        requires
            path@.len() >= 1,
        ensures
            opt_view(r) == resolve_generic(self.import_replacements@, None, seg_views(path@)),
    {
        self.get_generic_replacement(path, &self.import_replacements, None)
    }
}

} // verus!
