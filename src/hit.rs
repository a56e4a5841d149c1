use vstd::prelude::*;

verus! {

// Intersection times are handed over as integer keys: any encoding that keeps
// the order of the times and sends a zero time to 0 (so that the sign of a
// time is the sign of its key) gives the same answers as the times would.

/// `i` is the hit among `times`: the smallest time that is not negative, the
/// first such entry where several share it.
pub open spec fn is_hit(times: Seq<i64>, i: int) -> bool {
    &&& 0 <= i < times.len()
    &&& times[i] >= 0
    &&& forall|j: int| 0 <= j < times.len() && times[j] >= 0 ==> times[i] <= #[trigger] times[j]
    &&& forall|j: int| 0 <= j < i && times[j] >= 0 ==> times[i] < #[trigger] times[j]
}

/// Some time is not negative.
pub open spec fn has_hit(times: Seq<i64>) -> bool {
    exists|j: int| 0 <= j < times.len() && #[trigger] times[j] >= 0
}

/// The index of the hit among intersection times: the nearest intersection
/// that does not lie behind the ray's origin. `None` when every time is
/// negative.
pub fn hit(times: &Vec<i64>) -> (h: Option<usize>)
    ensures
        h is None <==> !has_hit(times@),
        h matches Some(i) ==> is_hit(times@, i as int),
{
    let mut h: Option<usize> = None;
    let mut min_t: i64 = 0;
    let mut k: usize = 0;
    while k < times.len()
        invariant
            0 <= k <= times@.len(),
            h is None <==> forall|j: int| 0 <= j < k ==> #[trigger] times@[j] < 0,
            h matches Some(i) ==> i < k && min_t == times@[i as int] && is_hit(
                times@.subrange(0, k as int),
                i as int,
            ),
        decreases times@.len() - k,
    {
        let t = times[k];
        if t >= 0 {
            if h.is_none() || min_t > t {
                min_t = t;
                h = Some(k);
            }
        }
        proof {
            let s = times@.subrange(0, k + 1);
            if let Some(i) = h {
                assert forall|j: int| 0 <= j < s.len() && s[j] >= 0 implies s[i as int] <= #[trigger] s[j] by {
                    if j < k {
                        assert(times@.subrange(0, k as int)[j] == s[j]);
                    }
                }
                assert forall|j: int| 0 <= j < i && s[j] >= 0 implies s[i as int] < #[trigger] s[j] by {
                    if j < k {
                        assert(times@.subrange(0, k as int)[j] == s[j]);
                    }
                }
            }
        }
        k = k + 1;
    }
    proof {
        assert(times@.subrange(0, times@.len() as int) =~= times@);
        if h is None {
            assert forall|j: int| 0 <= j < times@.len() implies !(#[trigger] times@[j] >= 0) by {}
        }
    }
    h
}

/// Whether something blocks the way to a light at `distance`: the hit among
/// `times` exists and lies before `distance`.
pub fn shadowed_by(times: &Vec<i64>, distance: i64) -> (blocked: bool)
    ensures
        blocked == exists|j: int| 0 <= j < times@.len() && 0 <= #[trigger] times@[j] < distance,
{
    match hit(times) {
        Some(i) => {
            let blocked = times[i] < distance;
            proof {
                if !blocked {
                    assert forall|j: int| 0 <= j < times@.len() implies !(0 <= #[trigger] times@[j]
                        < distance) by {}
                }
            }
            blocked
        },
        None => false,
    }
}

/// Entry `a` comes before entry `b` when its time is smaller, or the times
/// are equal and `a` came first.
pub open spec fn before(times: Seq<i64>, a: int, b: int) -> bool {
    times[a] < times[b] || (times[a] == times[b] && a < b)
}

/// The order of the entries of `times` by ascending time, entries with equal
/// times in the order they are given (a stable sort): `order[j]` is the index of
/// the `j`-th entry in that order.
pub fn order_by_time(times: &Vec<i64>) -> (order: Vec<usize>)
    ensures
        order@.len() == times@.len(),
        forall|j: int| 0 <= j < order@.len() ==> #[trigger] order@[j] < times@.len(),
        forall|j: int, k: int|
            0 <= j < k < order@.len() ==> before(times@, #[trigger] order@[j] as int, #[trigger] order@[k] as int),
{
    let mut order: Vec<usize> = Vec::new();
    let mut i: usize = 0;
    while i < times.len()
        invariant
            0 <= i <= times@.len(),
            order@.len() == i,
            forall|j: int| 0 <= j < order@.len() ==> #[trigger] order@[j] < i,
            forall|j: int, k: int|
                0 <= j < k < order@.len() ==> before(times@, #[trigger] order@[j] as int, #[trigger] order@[k] as int),
        decreases times@.len() - i,
    {
        let t = times[i];
        let mut p: usize = order.len();
        while p > 0 && times[order[p - 1]] > t
            invariant
                0 <= p <= order@.len(),
                order@.len() == i,
                i < times@.len(),
                t == times@[i as int],
                forall|j: int| 0 <= j < order@.len() ==> #[trigger] order@[j] < i,
                forall|q: int| p <= q < order@.len() ==> times@[#[trigger] order@[q] as int] > t,
            decreases p,
        {
            p = p - 1;
        }
        let ghost old_order = order@;
        order.insert(p, i);
        proof {
            assert forall|j: int, k: int| 0 <= j < k < order@.len() implies before(
                times@,
                #[trigger] order@[j] as int,
                #[trigger] order@[k] as int,
            ) by {
                if k < p {
                    assert(order@[j] == old_order[j] && order@[k] == old_order[k]);
                } else if k == p {
                    assert(order@[j] == old_order[j]);
                    assert(times@[old_order[p - 1] as int] <= t);
                    if j < p - 1 {
                        assert(before(times@, old_order[j] as int, old_order[p - 1] as int));
                    }
                } else if j == p {
                    assert(order@[k] == old_order[k - 1]);
                } else if j < p {
                    assert(order@[j] == old_order[j] && order@[k] == old_order[k - 1]);
                } else {
                    assert(order@[j] == old_order[j - 1] && order@[k] == old_order[k - 1]);
                }
            }
        }
        i = i + 1;
    }
    order
}

} // verus!
