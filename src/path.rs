//! The path model: a qualified name as a sequence of segments.
use vstd::prelude::*;
use vstd::string::*;

verus! {

/// The separator between two segments of a path, as characters.
pub open spec fn sep() -> Seq<char> {
    seq![':', ':']
}

/// The segments of a path, each as its characters.
pub open spec fn seg_views(v: Seq<String>) -> Seq<Seq<char>> {
    v.map_values(|s: String| s@)
}

/// The canonical string form of a sequence of segments: the segments in order,
/// with the separator between each two.
pub open spec fn join(segs: Seq<Seq<char>>) -> Seq<char>
    decreases segs.len(),
{
    if segs.len() == 0 {
        Seq::empty()
    } else if segs.len() == 1 {
        segs[0]
    } else {
        join(segs.drop_last()) + sep() + segs.last()
    }
}

/// Joins the segments `segs[lo..hi]` with the separator.
pub fn join_segments(segs: &Vec<String>, lo: usize, hi: usize) -> (r: String)
    requires
        lo <= hi <= segs@.len(),
    ensures
        r@ == join(seg_views(segs@).subrange(lo as int, hi as int)),
{
    let mut r = String::new();
    let mut i: usize = lo;
    while i < hi
        invariant
            lo <= i <= hi <= segs@.len(),
            r@ == join(seg_views(segs@).subrange(lo as int, i as int)),
        decreases hi - i,
    {
        let ghost before = seg_views(segs@).subrange(lo as int, i as int);
        let ghost after = seg_views(segs@).subrange(lo as int, i + 1);
        assert(after.drop_last() =~= before);
        if i > lo {
            r.append("::");
            proof {
                reveal_strlit("::");
            }
            assert(r@ == join(before) + sep());
        }
        r.append(segs[i].as_str());
        assert(after.last() == segs@[i as int]@);
        i = i + 1;
    }
    r
}

/// A new path made of the segments of `a` followed by those of `b`.
pub fn concat_segments(a: &Vec<String>, b: &Vec<String>) -> (r: Vec<String>)
    ensures
        seg_views(r@) == seg_views(a@) + seg_views(b@),
{
    let mut r: Vec<String> = Vec::new();
    let mut i: usize = 0;
    while i < a.len()
        invariant
            i <= a@.len(),
            r@.len() == i,
            forall|k: int| 0 <= k < i ==> #[trigger] r@[k]@ == a@[k]@,
        decreases a@.len() - i,
    {
        r.push(a[i].clone());
        i = i + 1;
    }
    let mut j: usize = 0;
    while j < b.len()
        invariant
            i == a@.len(),
            j <= b@.len(),
            r@.len() == i + j,
            forall|k: int| 0 <= k < i ==> #[trigger] r@[k]@ == a@[k]@,
            forall|k: int| 0 <= k < j ==> #[trigger] r@[i + k]@ == b@[k]@,
        decreases b@.len() - j,
    {
        r.push(b[j].clone());
        j = j + 1;
    }
    assert(seg_views(r@) =~= seg_views(a@) + seg_views(b@)) by {
        assert forall|k: int| 0 <= k < r@.len() implies seg_views(r@)[k] == (seg_views(a@) + seg_views(
            b@,
        ))[k] by {
            if k >= i {
                assert(r@[i + (k - i)]@ == b@[k - i]@);
            }
        }
    }
    r
}

} // verus!
