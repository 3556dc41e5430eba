//! The resolver: which replacement, if any, a path receives.
use vstd::prelude::*;
use crate::path::{join, sep};

verus! {

/// An optional string, as its characters.
pub open spec fn opt_view(r: Option<String>) -> Option<Seq<char>> {
    match r {
        Some(s) => Some(s@),
        None => None,
    }
}

/// The text that re-roots `rest` under `repl`: the replacement alone when the
/// remaining suffix is empty, else the replacement, the separator and the suffix.
pub open spec fn rerooted(repl: Seq<char>, rest: Seq<Seq<char>>) -> Seq<char> {
    if join(rest).len() == 0 {
        repl
    } else {
        repl + sep() + join(rest)
    }
}

/// Whether the first `len` segments of `segs`, joined, are a key of `table`.
pub open spec fn prefix_matches(table: Map<Seq<char>, Seq<char>>, segs: Seq<Seq<char>>, len: int) -> bool {
    table.contains_key(join(segs.subrange(0, len)))
}

/// The search over the prefixes of lengths `len`, `len - 1`, ..., `1`: the first
/// (that is, longest) one that is a key of `table` re-roots the rest of the path.
pub open spec fn prefix_search(
    table: Map<Seq<char>, Seq<char>>,
    segs: Seq<Seq<char>>,
    len: int,
) -> Option<Seq<char>>
    decreases len,
{
    if len < 1 || len > segs.len() {
        None
    } else if prefix_matches(table, segs, len) {
        Some(rerooted(table[join(segs.subrange(0, len))], segs.subrange(len, segs.len() as int)))
    } else {
        prefix_search(table, segs, len - 1)
    }
}

/// The crate-root fallback: the first segment alone is looked up, and only it
/// is replaced.
pub open spec fn root_fallback(
    fallback: Map<Seq<char>, Seq<char>>,
    segs: Seq<Seq<char>>,
) -> Option<Seq<char>> {
    if segs.len() > 0 && fallback.contains_key(segs[0]) {
        Some(join(segs.update(0, fallback[segs[0]])))
    } else {
        None
    }
}

/// Generic path resolution: an exact entry of `table`, else the longest proper
/// prefix in `table`, else the first segment in `fallback` (when there is one).
pub open spec fn resolve_generic(
    table: Map<Seq<char>, Seq<char>>,
    fallback: Option<Map<Seq<char>, Seq<char>>>,
    segs: Seq<Seq<char>>,
) -> Option<Seq<char>> {
    if table.contains_key(join(segs)) {
        Some(table[join(segs)])
    } else if prefix_search(table, segs, segs.len() - 1) is Some {
        prefix_search(table, segs, segs.len() - 1)
    } else {
        match fallback {
            Some(fb) => root_fallback(fb, segs),
            None => None,
        }
    }
}

/// Call-target resolution: the full path in `qualified`, else the last segment
/// in `simple`.
pub open spec fn resolve_call(
    qualified: Map<Seq<char>, Seq<char>>,
    simple: Map<Seq<char>, Seq<char>>,
    segs: Seq<Seq<char>>,
) -> Option<Seq<char>> {
    if qualified.contains_key(join(segs)) {
        Some(qualified[join(segs)])
    } else if segs.len() > 0 && simple.contains_key(segs.last()) {
        Some(simple[segs.last()])
    } else {
        None
    }
}

} // verus!
