use vstd::prelude::*;
use crate::frame::DirtyRect;
use crate::framebuffer::{FrameBuffer, region_in_bounds};

verus! {

broadcast use vstd::seq_lib::group_to_multiset_ensures;

/// Position and size of a screen rectangle.
#[derive(Debug, Clone, Copy, PartialEq, Eq, Structural)]
pub struct Bounds {
    pub x: u16,
    pub y: u16,
    pub width: u16,
    pub height: u16,
}

/// The bounds of a dirty rectangle.
pub open spec fn bounds_of(r: DirtyRect) -> Bounds {
    Bounds { x: r.x, y: r.y, width: r.width, height: r.height }
}

/// The rectangle lies inside the `fb` screen.
pub open spec fn bounds_in(b: Bounds, fb: FrameBuffer) -> bool {
    region_in_bounds(fb.width as int, fb.height as int, b.x as int, b.y as int, b.width as int, b.height as int)
}

/// Two rectangles overlap or share an edge: neither lies wholly left, right, above or
/// below the other with a gap between them.
pub open spec fn touch(a: Bounds, b: Bounds) -> bool {
    !(a.x + a.width < b.x || b.x + b.width < a.x || a.y + a.height < b.y || b.y + b.height < a.y)
}

pub open spec fn min_int(a: int, b: int) -> int {
    if a <= b { a } else { b }
}

pub open spec fn max_int(a: int, b: int) -> int {
    if a >= b { a } else { b }
}

/// The smallest rectangle that covers both.
pub open spec fn union(a: Bounds, b: Bounds) -> Bounds {
    let x = min_int(a.x as int, b.x as int);
    let y = min_int(a.y as int, b.y as int);
    Bounds {
        x: x as u16,
        y: y as u16,
        width: (max_int(a.x + a.width, b.x + b.width) - x) as u16,
        height: (max_int(a.y + a.height, b.y + b.height) - y) as u16,
    }
}

/// `a` comes no later than `b` when ordered by top edge, then left edge.
pub open spec fn position_le(a: Bounds, b: Bounds) -> bool {
    a.y < b.y || (a.y == b.y && a.x <= b.x)
}

pub open spec fn sorted_by_position(s: Seq<Bounds>) -> bool {
    forall|i: int, j: int| 0 <= i < j < s.len() ==> position_le(s[i], s[j])
}

/// The sweep over rectangles in order: each one is merged into the running rectangle
/// when the two touch, and otherwise closes it and starts the next.
pub open spec fn coalesced(s: Seq<Bounds>) -> Seq<Bounds>
    decreases s.len(),
{
    if s.len() == 0 {
        Seq::empty()
    } else if s.len() == 1 {
        s
    } else {
        let done = coalesced(s.drop_last());
        let cur = done.last();
        let next = s.last();
        if touch(cur, next) {
            done.drop_last().push(union(cur, next))
        } else {
            done.push(next)
        }
    }
}

/// `r` is the outcome of coalescing `rects` over `fb`: the sweep over the rectangles'
/// bounds in order of position, each result carrying `fb`'s pixels.
pub open spec fn coalesce_result(rects: Seq<DirtyRect>, fb: FrameBuffer, r: Seq<DirtyRect>) -> bool {
    &&& exists|s: Seq<Bounds>|
        {
            &&& s.to_multiset() == rects.map_values(|d: DirtyRect| bounds_of(d)).to_multiset()
            &&& sorted_by_position(s)
            &&& r.len() == coalesced(s).len()
            &&& forall|i: int| 0 <= i < r.len() ==> bounds_of(#[trigger] r[i]) == coalesced(s)[i]
        }
    &&& forall|i: int| 0 <= i < r.len() ==> (#[trigger] r[i]).shows(fb)
}

/// A sweep over a non-empty sequence is non-empty.
pub proof fn lemma_coalesced_nonempty(s: Seq<Bounds>)
    requires
        s.len() > 0,
    ensures
        coalesced(s).len() > 0,
    decreases s.len(),
{
    if s.len() > 1 {
        lemma_coalesced_nonempty(s.drop_last());
    }
}

/// The union of two rectangles inside a screen is inside it too.
pub proof fn lemma_union_in(a: Bounds, b: Bounds, fb: FrameBuffer)
    requires
        bounds_in(a, fb),
        bounds_in(b, fb),
    ensures
        bounds_in(union(a, b), fb),
{
}

/// Whether two rectangles overlap or share an edge.
pub fn can_merge_rects(a: &DirtyRect, b: &DirtyRect) -> (r: bool)
    ensures
        r == touch(bounds_of(*a), bounds_of(*b)),
{
    bounds_touch(Bounds { x: a.x, y: a.y, width: a.width, height: a.height },
        Bounds { x: b.x, y: b.y, width: b.width, height: b.height })
}

fn bounds_touch(a: Bounds, b: Bounds) -> (r: bool)
    ensures
        r == touch(a, b),
{
    let a_right = a.x as u32 + a.width as u32;
    let a_bottom = a.y as u32 + a.height as u32;
    let b_right = b.x as u32 + b.width as u32;
    let b_bottom = b.y as u32 + b.height as u32;
    !(a_right < b.x as u32 || b_right < a.x as u32 || a_bottom < b.y as u32 || b_bottom < a.y as u32)
}

fn bounds_union(a: Bounds, b: Bounds, Ghost(fb): Ghost<FrameBuffer>) -> (r: Bounds)
    requires
        bounds_in(a, fb),
        bounds_in(b, fb),
    ensures
        r == union(a, b),
{
    let min_x = if a.x <= b.x { a.x } else { b.x };
    let min_y = if a.y <= b.y { a.y } else { b.y };
    let a_right = a.x as u32 + a.width as u32;
    let b_right = b.x as u32 + b.width as u32;
    let a_bottom = a.y as u32 + a.height as u32;
    let b_bottom = b.y as u32 + b.height as u32;
    let max_x = if a_right >= b_right { a_right } else { b_right };
    let max_y = if a_bottom >= b_bottom { a_bottom } else { b_bottom };
    Bounds { x: min_x, y: min_y, width: (max_x - min_x as u32) as u16, height: (max_y - min_y as u32) as u16 }
}

/// One rectangle covering both, with the pixels that `fb` holds over the whole of it now.
pub fn merge_rects(a: DirtyRect, b: DirtyRect, fb: &FrameBuffer) -> (r: DirtyRect)
    requires
        fb.wf(),
        bounds_in(bounds_of(a), *fb),
        bounds_in(bounds_of(b), *fb),
    ensures
        bounds_of(r) == union(bounds_of(a), bounds_of(b)),
        r.shows(*fb),
{
    let u = bounds_union(
        Bounds { x: a.x, y: a.y, width: a.width, height: a.height },
        Bounds { x: b.x, y: b.y, width: b.width, height: b.height },
        Ghost(*fb),
    );
    proof {
        lemma_union_in(bounds_of(a), bounds_of(b), *fb);
    }
    DirtyRect::capture(fb, u.x, u.y, u.width, u.height)
}

fn position_before_or_at(a: Bounds, b: Bounds) -> (r: bool)
    ensures
        r == position_le(a, b),
{
    a.y < b.y || (a.y == b.y && a.x <= b.x)
}

/// The same rectangles ordered by top edge, then left edge; equal positions keep
/// their order.
pub fn sort_by_position(v: Vec<Bounds>) -> (r: Vec<Bounds>)
    ensures
        sorted_by_position(r@),
        r@.to_multiset() == v@.to_multiset(),
{
    let mut out: Vec<Bounds> = Vec::new();
    let mut i: usize = 0;
    while i < v.len()
        invariant
            i <= v@.len(),
            sorted_by_position(out@),
            out@.to_multiset() == v@.subrange(0, i as int).to_multiset(),
        decreases v@.len() - i,
    {
        let item = v[i];
        let mut j: usize = out.len();
        while j > 0
            invariant_except_break
                j <= out@.len(),
                forall|k: int| j <= k < out@.len() ==> !position_le(out@[k], item),
            ensures
                j <= out@.len(),
                forall|k: int| j <= k < out@.len() ==> !position_le(out@[k], item),
                j == 0 || position_le(out@[j - 1], item),
            decreases j,
        {
            if position_before_or_at(out[j - 1], item) {
                break;
            }
            j = j - 1;
        }
        proof {
            assert forall|k: int| 0 <= k < j implies position_le(out@[k], item) by {
                assert(position_le(out@[k], out@[j - 1]) || k == j - 1);
            }
        }
        let ghost before = out@;
        out.insert(j, item);
        proof {
            assert(out@ == before.insert(j as int, item));
            assert forall|a: int, b: int| 0 <= a < b < out@.len() implies position_le(out@[a], out@[b]) by {
                if b < j {
                } else if b == j {
                } else if a < j {
                    assert(position_le(before[a], item));
                    assert(!position_le(before[b - 1], item));
                } else if a == j {
                    assert(!position_le(before[b - 1], item));
                } else {
                }
            }
            assert(v@.subrange(0, i + 1) =~= v@.subrange(0, i as int).push(item));
        }
        i = i + 1;
    }
    assert(v@.subrange(0, v@.len() as int) =~= v@);
    out
}

/// Merges, among rectangles ordered by position, each run of rectangles that touch
/// into their union, and captures each result anew from `fb`.
pub fn coalesce_dirty_rects(rects: Vec<DirtyRect>, fb: &FrameBuffer) -> (r: Vec<DirtyRect>)
    requires
        fb.wf(),
        forall|i: int| 0 <= i < rects@.len() ==> bounds_in(bounds_of(#[trigger] rects@[i]), *fb),
    ensures
        coalesce_result(rects@, *fb, r@),
{
    let mut areas: Vec<Bounds> = Vec::new();
    let mut i: usize = 0;
    while i < rects.len()
        invariant
            i <= rects@.len(),
            areas@ == rects@.subrange(0, i as int).map_values(|d: DirtyRect| bounds_of(d)),
        decreases rects@.len() - i,
    {
        let d = &rects[i];
        areas.push(Bounds { x: d.x, y: d.y, width: d.width, height: d.height });
        i = i + 1;
        assert(areas@ =~= rects@.subrange(0, i as int).map_values(|d: DirtyRect| bounds_of(d)));
    }
    assert(rects@.subrange(0, rects@.len() as int) =~= rects@);
    let ghost all = areas@;
    assert forall|k: int| 0 <= k < all.len() implies bounds_in(#[trigger] all[k], *fb) by {
        assert(all[k] == bounds_of(rects@[k]));
    }
    let sorted = sort_by_position(areas);
    proof {
        assert forall|k: int| 0 <= k < sorted@.len() implies bounds_in(#[trigger] sorted@[k], *fb) by {
            let x = sorted@[k];
            assert(sorted@.contains(x));
            assert(sorted@.to_multiset().count(x) > 0);
            assert(all.to_multiset().count(x) > 0);
            assert(all.contains(x));
            let j = choose|j: int| 0 <= j < all.len() && all[j] == x;
            assert(bounds_in(all[j], *fb));
        }
    }
    let merged = sweep(&sorted, Ghost(*fb));
    let mut out: Vec<DirtyRect> = Vec::new();
    let mut k: usize = 0;
    while k < merged.len()
        invariant
            fb.wf(),
            k <= merged@.len(),
            forall|m: int| 0 <= m < merged@.len() ==> bounds_in(#[trigger] merged@[m], *fb),
            out@.len() == k,
            forall|m: int| 0 <= m < k ==> bounds_of(#[trigger] out@[m]) == merged@[m],
            forall|m: int| 0 <= m < k ==> (#[trigger] out@[m]).shows(*fb),
        decreases merged@.len() - k,
    {
        let b = merged[k];
        assert(bounds_in(merged@[k as int], *fb));
        out.push(DirtyRect::capture(fb, b.x, b.y, b.width, b.height));
        k = k + 1;
    }
    assert(forall|m: int| 0 <= m < out@.len() ==> bounds_of(#[trigger] out@[m]) == coalesced(sorted@)[m]);
    out
}

/// Runs the sweep of `coalesced` over rectangles that all lie inside `fb`.
fn sweep(s: &Vec<Bounds>, Ghost(fb): Ghost<FrameBuffer>) -> (r: Vec<Bounds>)
    requires
        forall|k: int| 0 <= k < s@.len() ==> bounds_in(#[trigger] s@[k], fb),
    ensures
        r@ == coalesced(s@),
        forall|k: int| 0 <= k < r@.len() ==> bounds_in(#[trigger] r@[k], fb),
{
    let mut out: Vec<Bounds> = Vec::new();
    if s.len() == 0 {
        return out;
    }
    let mut cur = s[0];
    assert(s@.subrange(0, 1) =~= seq![s@[0]]);
    let mut i: usize = 1;
    while i < s.len()
        invariant
            1 <= i <= s@.len(),
            forall|k: int| 0 <= k < s@.len() ==> bounds_in(#[trigger] s@[k], fb),
            out@.push(cur) == coalesced(s@.subrange(0, i as int)),
            bounds_in(cur, fb),
            forall|k: int| 0 <= k < out@.len() ==> bounds_in(#[trigger] out@[k], fb),
        decreases s@.len() - i,
    {
        let next = s[i];
        let ghost prefix = s@.subrange(0, i + 1);
        assert(prefix.drop_last() =~= s@.subrange(0, i as int));
        assert(prefix.last() == next);
        proof {
            lemma_coalesced_nonempty(s@.subrange(0, i as int));
        }
        assert(out@.push(cur).last() == cur);
        assert(out@.push(cur).drop_last() =~= out@);
        if bounds_touch(cur, next) {
            cur = bounds_union(cur, next, Ghost(fb));
            proof {
                lemma_union_in(out@.push(cur).last(), next, fb);
            }
        } else {
            out.push(cur);
            cur = next;
        }
        i = i + 1;
    }
    assert(s@.subrange(0, s@.len() as int) =~= s@);
    out.push(cur);
    out
}

/// Coalescing at least one rectangle yields at least one.
pub proof fn lemma_coalesce_result_nonempty(rects: Seq<DirtyRect>, fb: FrameBuffer, r: Seq<DirtyRect>)
    requires
        coalesce_result(rects, fb, r),
        rects.len() > 0,
    ensures
        r.len() > 0,
{
    let s = choose|s: Seq<Bounds>|
        {
            &&& s.to_multiset() == rects.map_values(|d: DirtyRect| bounds_of(d)).to_multiset()
            &&& sorted_by_position(s)
            &&& r.len() == coalesced(s).len()
            &&& forall|i: int| 0 <= i < r.len() ==> bounds_of(#[trigger] r[i]) == coalesced(s)[i]
        };
    assert(s.to_multiset().len() == rects.map_values(|d: DirtyRect| bounds_of(d)).to_multiset().len());
    assert(s.len() > 0);
    lemma_coalesced_nonempty(s);
}

/// The two orders that a sequence with the elements of a two-element sequence can have.
proof fn lemma_pair_orders(s: Seq<Bounds>, a: Bounds, b: Bounds)
    requires
        s.to_multiset() == seq![a, b].to_multiset(),
    ensures
        s == seq![a, b] || s == seq![b, a],
{
    let p = seq![a, b];
    assert(p.contains(a) && p.contains(b)) by {
        assert(p[0] == a && p[1] == b);
    }
    assert(s.len() == 2) by {
        assert(s.to_multiset().len() == p.to_multiset().len());
    }
    assert(s.contains(a) && s.contains(b)) by {
        assert(p.to_multiset().count(a) > 0);
        assert(p.to_multiset().count(b) > 0);
    }
    if a != b {
        if s[0] == a {
            assert(s[1] == b);
            assert(s =~= seq![a, b]);
        } else {
            assert(s[0] == b && s[1] == a);
            assert(s =~= seq![b, a]);
        }
    } else {
        assert(s[0] == a && s[1] == a) by {
            if s[0] != a || s[1] != a {
                assert(s.to_multiset().count(s[0]) > 0);
                let x = if s[0] != a { s[0] } else { s[1] };
                assert(s.contains(x));
                assert(s.to_multiset().count(x) > 0);
                assert(p.to_multiset().count(x) > 0);
                assert(p.contains(x));
            }
        }
        assert(s =~= seq![a, b]);
    }
}

/// Coalescing two rectangles on the screen that overlap or share an edge yields
/// exactly one rectangle: their union, from the smaller corner to the larger far
/// edges, carrying the buffer's pixels over the whole union.
pub proof fn lemma_touching_pair_merges(a: DirtyRect, b: DirtyRect, fb: FrameBuffer, r: Seq<DirtyRect>)
    requires
        touch(bounds_of(a), bounds_of(b)),
        bounds_in(bounds_of(a), fb),
        bounds_in(bounds_of(b), fb),
        coalesce_result(seq![a, b], fb, r),
    ensures
        r.len() == 1,
        bounds_of(r[0]) == union(bounds_of(a), bounds_of(b)),
        r[0].x == min_int(a.x as int, b.x as int),
        r[0].y == min_int(a.y as int, b.y as int),
        r[0].x + r[0].width == max_int(a.x + a.width, b.x + b.width),
        r[0].y + r[0].height == max_int(a.y + a.height, b.y + b.height),
        r[0].shows(fb),
{
    let ba = bounds_of(a);
    let bb = bounds_of(b);
    let s = choose|s: Seq<Bounds>|
        {
            &&& s.to_multiset() == seq![a, b].map_values(|d: DirtyRect| bounds_of(d)).to_multiset()
            &&& sorted_by_position(s)
            &&& r.len() == coalesced(s).len()
            &&& forall|i: int| 0 <= i < r.len() ==> bounds_of(#[trigger] r[i]) == coalesced(s)[i]
        };
    assert(seq![a, b].map_values(|d: DirtyRect| bounds_of(d)) =~= seq![ba, bb]);
    lemma_pair_orders(s, ba, bb);
    assert(s.drop_last() =~= seq![s[0]]);
    assert(coalesced(s.drop_last()) == seq![s[0]]);
    assert(union(ba, bb) == union(bb, ba));
    assert(coalesced(s) =~= seq![union(ba, bb)]);
}

/// Coalescing two rectangles that neither overlap nor share an edge leaves both,
/// the one nearer the top (then the left) first, each carrying the buffer's pixels.
pub proof fn lemma_apart_pair_kept(a: DirtyRect, b: DirtyRect, fb: FrameBuffer, r: Seq<DirtyRect>)
    requires
        !touch(bounds_of(a), bounds_of(b)),
        coalesce_result(seq![a, b], fb, r),
    ensures
        r.len() == 2,
        position_le(bounds_of(a), bounds_of(b)) ==> bounds_of(r[0]) == bounds_of(a) && bounds_of(r[1])
            == bounds_of(b),
        !position_le(bounds_of(a), bounds_of(b)) ==> bounds_of(r[0]) == bounds_of(b) && bounds_of(r[1])
            == bounds_of(a),
        r[0].shows(fb),
        r[1].shows(fb),
        a.shows(fb) && b.shows(fb) && position_le(bounds_of(a), bounds_of(b)) ==> r[0].data@ == a.data@
            && r[1].data@ == b.data@,
        a.shows(fb) && b.shows(fb) && !position_le(bounds_of(a), bounds_of(b)) ==> r[0].data@ == b.data@
            && r[1].data@ == a.data@,
{
    let ba = bounds_of(a);
    let bb = bounds_of(b);
    let s = choose|s: Seq<Bounds>|
        {
            &&& s.to_multiset() == seq![a, b].map_values(|d: DirtyRect| bounds_of(d)).to_multiset()
            &&& sorted_by_position(s)
            &&& r.len() == coalesced(s).len()
            &&& forall|i: int| 0 <= i < r.len() ==> bounds_of(#[trigger] r[i]) == coalesced(s)[i]
        };
    assert(seq![a, b].map_values(|d: DirtyRect| bounds_of(d)) =~= seq![ba, bb]);
    lemma_pair_orders(s, ba, bb);
    assert(s.drop_last() =~= seq![s[0]]);
    assert(coalesced(s.drop_last()) == seq![s[0]]);
    assert(coalesced(s) =~= seq![s[0], s[1]]);
    assert(position_le(s[0], s[1]));
    assert(bounds_of(r[0]) == s[0] && bounds_of(r[1]) == s[1]);
}

} // verus!
