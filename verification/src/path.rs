//! Canonical path normalization.
//!
//! A path string identifies a location in the namespace. It is normalized
//! into the list of its non-empty segments: separators at either end are
//! stripped and runs of separators collapse, so `"/a//b/"` has the segments
//! `a` and `b`. The root path has no segments of its own.

use vstd::prelude::*;

verus! {

/// A normalized path: the views of its segments, in order.
pub type PathV = Seq<Seq<char>>;

/// The views of a list of segment strings.
pub open spec fn seg_views(segs: Seq<String>) -> PathV {
    segs.map_values(|s: String| s@)
}

/// A singleton segment list when `cur` is non-empty, else no segments.
pub open spec fn flush_segment(cur: Seq<char>) -> PathV {
    if cur.len() == 0 {
        Seq::empty()
    } else {
        seq![cur]
    }
}

/// The segments of `s`, accumulated left to right: `cur` holds the pending
/// characters of the segment currently being read.
pub open spec fn spec_split(s: Seq<char>, cur: Seq<char>) -> PathV
    decreases s.len(),
{
    if s.len() == 0 {
        flush_segment(cur)
    } else if s[0] == '/' {
        flush_segment(cur) + spec_split(s.skip(1), Seq::empty())
    } else {
        spec_split(s.skip(1), cur.push(s[0]))
    }
}

/// The normalized segments of a path string.
pub open spec fn spec_segments_of(s: Seq<char>) -> PathV {
    spec_split(s, Seq::empty())
}

/// Every segment that normalization produces is non-empty.
pub proof fn lemma_split_segments_nonempty(s: Seq<char>, cur: Seq<char>)
    ensures
        forall|i: int|
            0 <= i < spec_split(s, cur).len() ==> #[trigger] spec_split(s, cur)[i].len() > 0,
    decreases s.len(),
{
    if s.len() == 0 {
    } else if s[0] == '/' {
        lemma_split_segments_nonempty(s.skip(1), Seq::empty());
        let fl = flush_segment(cur);
        let rest = spec_split(s.skip(1), Seq::empty());
        assert(spec_split(s, cur) == fl + rest);
        assert forall|i: int| 0 <= i < (fl + rest).len() implies #[trigger] (fl + rest)[i].len()
            > 0 by {
            if i < fl.len() {
                assert((fl + rest)[i] == cur);
            } else {
                assert((fl + rest)[i] == rest[i - fl.len()]);
            }
        }
    } else {
        lemma_split_segments_nonempty(s.skip(1), cur.push(s[0]));
        assert(spec_split(s, cur) == spec_split(s.skip(1), cur.push(s[0])));
    }
}

/// Splits a path string into its non-empty segments.
pub fn parse_path(path: &str) -> (segs: Vec<String>)
    ensures
        seg_views(segs@) == spec_segments_of(path@),
        forall|i: int| 0 <= i < segs@.len() ==> #[trigger] segs@[i]@.len() > 0,
{
    let n: usize = path.unicode_len();
    let mut segs: Vec<String> = Vec::new();
    let mut start: usize = 0;
    let mut i: usize = 0;
    proof {
        assert(path@.skip(0) =~= path@);
        assert(path@.subrange(0, 0) =~= Seq::<char>::empty());
        assert(seg_views(segs@) + spec_split(path@, Seq::empty()) =~= spec_split(
            path@,
            Seq::empty(),
        ));
    }
    while i < n
        invariant
            start <= i <= n,
            n == path@.len(),
            spec_segments_of(path@) == seg_views(segs@) + spec_split(
                path@.skip(i as int),
                path@.subrange(start as int, i as int),
            ),
        decreases n - i,
    {
        let ghost pre = path@.skip(i as int);
        let ghost cur = path@.subrange(start as int, i as int);
        proof {
            assert(pre[0] == path@[i as int]);
            assert(pre.skip(1) =~= path@.skip(i as int + 1));
        }
        let c = path.get_char(i);
        if c == '/' {
            if start < i {
                let seg = path.substring_char(start, i);
                segs.push(seg.to_owned());
                proof {
                    assert(seg_views(segs@) =~= seg_views(segs@.drop_last()) + flush_segment(cur));
                }
            } else {
                proof {
                    assert(seg_views(segs@) + flush_segment(cur) =~= seg_views(segs@));
                }
            }
            start = i + 1;
            proof {
                assert(path@.subrange(start as int, start as int) =~= Seq::<char>::empty());
                assert((seg_views(segs@) + flush_segment(cur)) + spec_split(
                    path@.skip(i as int + 1),
                    Seq::empty(),
                ) =~= seg_views(segs@) + (flush_segment(cur) + spec_split(
                    path@.skip(i as int + 1),
                    Seq::empty(),
                )));
            }
        } else {
            proof {
                assert(path@.subrange(start as int, i as int + 1) =~= cur.push(path@[i as int]));
            }
        }
        i = i + 1;
    }
    proof {
        assert(path@.skip(n as int) =~= Seq::<char>::empty());
    }
    if start < n {
        let ghost cur = path@.subrange(start as int, n as int);
        let seg = path.substring_char(start, n);
        segs.push(seg.to_owned());
        proof {
            assert(seg_views(segs@) =~= seg_views(segs@.drop_last()) + flush_segment(cur));
        }
    } else {
        proof {
            assert(seg_views(segs@) + flush_segment(
                path@.subrange(start as int, n as int),
            ) =~= seg_views(segs@));
        }
    }
    proof {
        lemma_split_segments_nonempty(path@, Seq::empty());
        assert forall|i: int| 0 <= i < segs@.len() implies #[trigger] segs@[i]@.len() > 0 by {
            assert(seg_views(segs@)[i] == segs@[i]@);
            assert(spec_segments_of(path@)[i].len() > 0);
        }
    }
    segs
}

} // verus!
