//! Checks on the coordinates of land units.
use vstd::prelude::*;

verus! {

/// `v` clamped to the range of `i32`.
pub open spec fn clamp_i32(v: int) -> i32 {
    if v < i32::MIN {
        i32::MIN
    } else if v > i32::MAX {
        i32::MAX
    } else {
        v as i32
    }
}

/// `i32::saturating_sub`.
pub fn saturating_sub_i32(a: i32, b: i32) -> (r: i32)
    ensures
        r == clamp_i32(a - b),
{
    let d: i64 = a as i64 - b as i64;
    if d < i32::MIN as i64 {
        i32::MIN
    } else if d > i32::MAX as i64 {
        i32::MAX
    } else {
        d as i32
    }
}

/// `i32::saturating_add`.
pub fn saturating_add_i32(a: i32, b: i32) -> (r: i32)
    ensures
        r == clamp_i32(a + b),
{
    let d: i64 = a as i64 + b as i64;
    if d < i32::MIN as i64 {
        i32::MIN
    } else if d > i32::MAX as i64 {
        i32::MAX
    } else {
        d as i32
    }
}

/// The first coordinates (the x axis) of `coordinates`.
pub open spec fn x_axis(coordinates: Seq<(i32, i32)>) -> Seq<i32> {
    coordinates.map_values(|c: (i32, i32)| c.0)
}

/// The second coordinates (the y axis) of `coordinates`.
pub open spec fn y_axis(coordinates: Seq<(i32, i32)>) -> Seq<i32> {
    coordinates.map_values(|c: (i32, i32)| c.1)
}

/// The least value of a non-empty sequence.
pub open spec fn seq_min(s: Seq<i32>) -> i32
    decreases s.len(),
{
    if s.len() <= 1 {
        s[0]
    } else if s.last() < seq_min(s.drop_last()) {
        s.last()
    } else {
        seq_min(s.drop_last())
    }
}

/// The greatest value of a non-empty sequence.
pub open spec fn seq_max(s: Seq<i32>) -> i32
    decreases s.len(),
{
    if s.len() <= 1 {
        s[0]
    } else if s.last() > seq_max(s.drop_last()) {
        s.last()
    } else {
        seq_max(s.drop_last())
    }
}

/// Whether land units at `coordinates` lie near enough to a land block at
/// `block_coordinate`: the block may be at most 49 below the least and at
/// most 50 above the greatest coordinate on each axis (saturating).
pub open spec fn in_bound(block_coordinate: (i32, i32), coordinates: Seq<(i32, i32)>) -> bool {
    &&& clamp_i32(block_coordinate.0 - 49) <= seq_min(x_axis(coordinates))
    &&& block_coordinate.0 <= clamp_i32(seq_max(x_axis(coordinates)) + 50)
    &&& clamp_i32(block_coordinate.1 - 49) <= seq_min(y_axis(coordinates))
    &&& block_coordinate.1 <= clamp_i32(seq_max(y_axis(coordinates)) + 50)
}

/// The values of one axis of `coordinates`.
fn axis(coordinates: &Vec<(i32, i32)>, first: bool) -> (r: Vec<i32>)
    ensures
        r@ == (if first {
            x_axis(coordinates@)
        } else {
            y_axis(coordinates@)
        }),
{
    let mut r: Vec<i32> = Vec::new();
    let mut i: usize = 0;
    while i < coordinates.len()
        invariant
            i <= coordinates@.len(),
            r@ == (if first {
                x_axis(coordinates@.take(i as int))
            } else {
                y_axis(coordinates@.take(i as int))
            }),
        decreases coordinates@.len() - i,
    {
        let c = coordinates[i];
        if first {
            r.push(c.0);
        } else {
            r.push(c.1);
        }
        i = i + 1;
        assert(coordinates@.take(i as int) =~= coordinates@.take(i - 1).push(c));
        assert(r@ =~= (if first {
            x_axis(coordinates@.take(i as int))
        } else {
            y_axis(coordinates@.take(i as int))
        }));
    }
    assert(coordinates@.take(coordinates@.len() as int) =~= coordinates@);
    r
}

/// The least and the greatest value of a non-empty list.
fn min_max(v: &Vec<i32>) -> (r: (i32, i32))
    requires
        v@.len() > 0,
    ensures
        r.0 == seq_min(v@),
        r.1 == seq_max(v@),
{
    let mut lo = v[0];
    let mut hi = v[0];
    let mut i: usize = 1;
    while i < v.len()
        invariant
            1 <= i <= v@.len(),
            lo == seq_min(v@.take(i as int)),
            hi == seq_max(v@.take(i as int)),
        decreases v@.len() - i,
    {
        let x = v[i];
        proof {
            assert(v@.take(i + 1).drop_last() =~= v@.take(i as int));
        }
        if x < lo {
            lo = x;
        }
        if x > hi {
            hi = x;
        }
        i = i + 1;
    }
    assert(v@.take(v@.len() as int) =~= v@);
    (lo, hi)
}

/// Whether land units at `coordinates` lie near enough to a land block at
/// `block_coordinate` (see [`in_bound`]).
pub fn verify_land_unit_in_bound(block_coordinate: (i32, i32), land_unit_coordinates: &Vec<(i32, i32)>) -> (r:
    bool)
    requires
        land_unit_coordinates@.len() > 0,
    ensures
        r == in_bound(block_coordinate, land_unit_coordinates@),
{
    let vec_axis = axis(land_unit_coordinates, true);
    let vec_yaxis = axis(land_unit_coordinates, false);
    let (min_axis, max_axis) = min_max(&vec_axis);
    let (min_yaxis, max_yaxis) = min_max(&vec_yaxis);
    saturating_sub_i32(block_coordinate.0, 49) <= min_axis && block_coordinate.0 <= saturating_add_i32(
        max_axis,
        50,
    ) && saturating_sub_i32(block_coordinate.1, 49) <= min_yaxis && block_coordinate.1
        <= saturating_add_i32(max_yaxis, 50)
}

/// A sequence in strictly ascending order.
pub open spec fn strictly_ascending(s: Seq<i32>) -> bool {
    forall|i: int, j: int| 0 <= i < j < s.len() ==> s[i] < s[j]
}

/// The distinct values of `values`, in ascending order.
pub fn sorted_distinct(values: &Vec<i32>) -> (r: Vec<i32>)
    ensures
        strictly_ascending(r@),
        forall|v: i32| r@.contains(v) <==> values@.contains(v),
{
    let mut r: Vec<i32> = Vec::new();
    let mut i: usize = 0;
    while i < values.len()
        invariant
            i <= values@.len(),
            strictly_ascending(r@),
            forall|v: i32| r@.contains(v) <==> values@.take(i as int).contains(v),
        decreases values@.len() - i,
    {
        let v = values[i];
        let mut p: usize = 0;
        while p < r.len() && r[p] < v
            invariant
                p <= r@.len(),
                forall|j: int| 0 <= j < p ==> r@[j] < v,
            decreases r@.len() - p,
        {
            p = p + 1;
        }
        let ghost old_r = r@;
        if !(p < r.len() && r[p] == v) {
            r.insert(p, v);
            proof {
                assert forall|a: int, b: int| 0 <= a < b < r@.len() implies r@[a] < r@[b] by {
                    if b < p {
                        assert(r@[a] == old_r[a] && r@[b] == old_r[b]);
                    } else if b == p {
                        assert(r@[a] == old_r[a]);
                    } else if a == p {
                        assert(r@[b] == old_r[b - 1]);
                        assert(old_r[b - 1] >= v) by {
                            if b - 1 > p {
                                assert(old_r[p as int] < old_r[b - 1]);
                            }
                        }
                    } else if a < p {
                        assert(r@[a] == old_r[a] && r@[b] == old_r[b - 1]);
                    } else {
                        assert(r@[a] == old_r[a - 1] && r@[b] == old_r[b - 1]);
                    }
                }
            }
        }
        proof {
            let t = values@.take(i as int);
            let t2 = values@.take(i + 1);
            assert(t2 =~= t.push(v));
            assert forall|w: i32| r@.contains(w) <==> t2.contains(w) by {
                if r@.contains(w) {
                    let j = choose|j: int| 0 <= j < r@.len() && r@[j] == w;
                    if w != v {
                        if old_r.len() < r@.len() {
                            let j2 = if j < p { j } else { j - 1 };
                            assert(old_r[j2] == w);
                            assert(old_r.contains(w));
                        } else {
                            assert(old_r[j] == w);
                            assert(old_r.contains(w));
                        }
                        assert(t.contains(w));
                        let k = choose|k: int| 0 <= k < t.len() && t[k] == w;
                        assert(t2[k] == w);
                    } else {
                        assert(t2[t.len() as int] == v);
                    }
                }
                if t2.contains(w) {
                    let k = choose|k: int| 0 <= k < t2.len() && t2[k] == w;
                    if k < t.len() {
                        assert(t[k] == w);
                        assert(old_r.contains(w));
                        let j = choose|j: int| 0 <= j < old_r.len() && old_r[j] == w;
                        if old_r.len() < r@.len() {
                            let j2 = if j < p { j } else { j + 1 };
                            assert(r@[j2] == w);
                        } else {
                            assert(r@[j] == w);
                        }
                    } else {
                        assert(w == v);
                        if old_r.len() < r@.len() {
                            assert(r@[p as int] == v);
                        } else {
                            assert(r@[p as int] == v);
                        }
                    }
                }
            }
        }
        i = i + 1;
    }
    proof {
        assert(values@.take(values@.len() as int) =~= values@);
    }
    r
}

/// The values of `s` leave no gap: every value between two of them is one of
/// them too.
pub open spec fn contiguous(s: Seq<i32>) -> bool {
    forall|a: i32, b: i32, u: i32|
        #![trigger s.contains(a), s.contains(b), s.contains(u)]
        s.contains(a) && s.contains(b) && a <= u <= b ==> s.contains(u)
}

/// Each value of `s` but the last is followed by the next integer.
pub open spec fn consecutive(s: Seq<i32>) -> bool {
    forall|i: int| 0 <= i < s.len() - 1 ==> #[trigger] s[i + 1] == s[i] + 1
}

/// In a consecutive sequence each value is the first plus its position.
proof fn lemma_consecutive_offsets(s: Seq<i32>, k: int)
    requires
        consecutive(s),
        0 <= k < s.len(),
    ensures
        s[k] == s[0] + k,
    decreases k,
{
    if k > 0 {
        lemma_consecutive_offsets(s, k - 1);
        assert(s[(k - 1) + 1] == s[k - 1] + 1);
    }
}

/// A strictly ascending sequence is consecutive exactly when its values
/// leave no gap.
proof fn lemma_consecutive_iff_contiguous(s: Seq<i32>)
    requires
        strictly_ascending(s),
    ensures
        consecutive(s) <==> contiguous(s),
{
    if consecutive(s) {
        assert forall|a: i32, b: i32, u: i32| s.contains(a) && s.contains(b) && a <= u <= b implies s.contains(
            u,
        ) by {
            let i = choose|i: int| 0 <= i < s.len() && s[i] == a;
            let j = choose|j: int| 0 <= j < s.len() && s[j] == b;
            lemma_consecutive_offsets(s, i);
            lemma_consecutive_offsets(s, j);
            let k = i + (u - a);
            lemma_consecutive_offsets(s, k);
            assert(s[k] == u);
        }
    }
    if !consecutive(s) {
        let i = choose|i: int| 0 <= i < s.len() - 1 && !(#[trigger] s[i + 1] == s[i] + 1);
        assert(s[i] < s[i + 1]);
        let u = (s[i] + 1) as i32;
        assert(!s.contains(u)) by {
            if s.contains(u) {
                let k = choose|k: int| 0 <= k < s.len() && s[k] == u;
                if k <= i {
                    if k < i {
                        assert(s[k] < s[i]);
                    }
                } else if k > i + 1 {
                    assert(s[i + 1] < s[k]);
                }
            }
        }
        assert(s.contains(s[i]));
        assert(s.contains(s[i + 1]));
    }
}

/// Whether `values` are consecutive once sorted and deduplicated, that is,
/// whether they leave no gap.
fn axis_is_contiguous(values: &Vec<i32>) -> (r: bool)
    ensures
        r == contiguous(values@),
{
    let sorted = sorted_distinct(values);
    let n = sorted.len();
    let mut i: usize = 0;
    while i < n && n - i > 1
        invariant
            n == sorted@.len(),
            strictly_ascending(sorted@),
            forall|v: i32| sorted@.contains(v) <==> values@.contains(v),
            i <= n,
            forall|j: int| 0 <= j < i && j < sorted@.len() - 1 ==> #[trigger] sorted@[j + 1] == sorted@[j] + 1,
        decreases n - i,
    {
        let a = sorted[i];
        let b = sorted[i + 1];
        if b - 1 != a {
            proof {
                assert(!(sorted@[i + 1] == sorted@[i as int] + 1));
                lemma_consecutive_iff_contiguous(sorted@);
                assert(contiguous(sorted@) == contiguous(values@));
            }
            return false;
        }
        i = i + 1;
    }
    proof {
        assert(consecutive(sorted@));
        lemma_consecutive_iff_contiguous(sorted@);
        assert(contiguous(sorted@) == contiguous(values@));
    }
    true
}

/// Whether the coordinates of a new estate are next to each other on each
/// axis: the distinct values of each axis, sorted, go up one at a time.
pub fn verify_land_unit_for_estate(land_units: &Vec<(i32, i32)>) -> (r: bool)
    ensures
        r == (contiguous(x_axis(land_units@)) && contiguous(y_axis(land_units@))),
{
    let xs = axis(land_units, true);
    let ys = axis(land_units, false);
    let is_axis_valid = axis_is_contiguous(&xs);
    let is_yaxis_valid = axis_is_contiguous(&ys);
    is_axis_valid && is_yaxis_valid
}

} // verus!
