use vstd::prelude::*;
use crate::error::FPPError;
use crate::state::{keys_equal, FloatingPoint, NullifierSet, WithdrawalRequest};

verus! {

/// Whether no two keys of the list are equal.
pub open spec fn keys_distinct(keys: Seq<[u8; 32]>) -> bool {
    forall|i: int, j: int| 0 <= i < j < keys.len() ==> keys[i]@ != keys[j]@
}

/// Whether `k` occurs in the list.
pub open spec fn listed(keys: Seq<[u8; 32]>, k: Seq<u8>) -> bool {
    exists|j: int| 0 <= j < keys.len() && keys[j]@ == k
}

/// Whether the store holds a point with commitment `c`.
pub open spec fn has_point(points: Seq<FloatingPoint>, c: Seq<u8>) -> bool {
    exists|i: int| 0 <= i < points.len() && points[i].commitment@ == c
}

/// Whether `k` occurs among the first `len` keys of the list.
pub open spec fn listed_before(keys: Seq<[u8; 32]>, len: int, k: Seq<u8>) -> bool {
    exists|j: int| 0 <= j < len && #[trigger] keys[j]@ == k
}

/// Whether some key of the list names a point of the store.
pub open spec fn any_present(points: Seq<FloatingPoint>, keys: Seq<[u8; 32]>) -> bool {
    exists|j: int| 0 <= j < keys.len() && has_point(points, #[trigger] keys[j]@)
}

/// Whether the registry records `n` as used.
pub open spec fn is_spent(reg: Seq<NullifierSet>, n: Seq<u8>) -> bool {
    exists|i: int| 0 <= i < reg.len() && reg[i].used && reg[i].nullifier@ == n
}

/// No two points of the store share a commitment.
pub open spec fn point_keys_unique(points: Seq<FloatingPoint>) -> bool {
    forall|i: int, j: int|
        0 <= i < points.len() && 0 <= j < points.len() && i != j
            ==> points[i].commitment@ != points[j].commitment@
}

/// Number of active points: each point carries one unit of mass, so this
/// is the mass of the active pool.
pub open spec fn active_count(points: Seq<FloatingPoint>) -> int
    decreases points.len(),
{
    if points.len() == 0 {
        0
    } else {
        active_count(points.drop_last()) + (if points.last().is_active { 1int } else { 0int })
    }
}

/// Mass kept out of the active pool by withdrawal requests.
pub open spec fn held_total(reqs: Seq<WithdrawalRequest>) -> int
    decreases reqs.len(),
{
    if reqs.len() == 0 {
        0
    } else {
        held_total(reqs.drop_last()) + reqs.last().held_mass()
    }
}

/// A fresh point minted for commitment `c` by `creator` at time `now`.
pub open spec fn minted(c: [u8; 32], creator: [u8; 32], now: i64) -> FloatingPoint {
    FloatingPoint {
        is_initialized: true,
        commitment: c,
        created_at: now,
        mass: 1,
        is_active: true,
        creator,
        locked_until: (now + crate::state::MATURITY_DELAY) as i64,
    }
}

/// The store with every point whose commitment is listed in `keys`
/// switched to `activate`, and every other point as it was.
pub open spec fn with_activity(points: Seq<FloatingPoint>, keys: Seq<[u8; 32]>, activate: bool) -> Seq<FloatingPoint> {
    Seq::new(
        points.len(),
        |i: int|
            if listed(keys, points[i].commitment@) {
                FloatingPoint { is_active: activate, ..points[i] }
            } else {
                points[i]
            },
    )
}

/// Replacing one point changes the active count by that point's change.
pub proof fn lemma_active_count_update(s: Seq<FloatingPoint>, i: int, v: FloatingPoint)
    requires
        0 <= i < s.len(),
    ensures
        active_count(s.update(i, v)) == active_count(s) - (if s[i].is_active { 1int } else { 0int })
            + (if v.is_active { 1int } else { 0int }),
    decreases s.len(),
{
    let t = s.update(i, v);
    if i == s.len() - 1 {
        assert(t.drop_last() =~= s.drop_last());
    } else {
        assert(t.drop_last() =~= s.drop_last().update(i, v));
        lemma_active_count_update(s.drop_last(), i, v);
    }
}

/// Appending a point adds one to the active count exactly when it is active.
pub proof fn lemma_active_count_push(s: Seq<FloatingPoint>, v: FloatingPoint)
    ensures
        active_count(s.push(v)) == active_count(s) + (if v.is_active { 1int } else { 0int }),
{
    assert(s.push(v).drop_last() =~= s);
}

/// Replacing one request changes the held mass by that request's change.
pub proof fn lemma_held_total_update(s: Seq<WithdrawalRequest>, i: int, v: WithdrawalRequest)
    requires
        0 <= i < s.len(),
    ensures
        held_total(s.update(i, v)) == held_total(s) - s[i].held_mass() + v.held_mass(),
    decreases s.len(),
{
    let t = s.update(i, v);
    if i == s.len() - 1 {
        assert(t.drop_last() =~= s.drop_last());
    } else {
        assert(t.drop_last() =~= s.drop_last().update(i, v));
        lemma_held_total_update(s.drop_last(), i, v);
    }
}

/// Every point of a pending withdrawal request is in the store and
/// inactive, and no point belongs to two pending requests.
pub open spec fn pending_parked(pts: Seq<FloatingPoint>, ws: Seq<WithdrawalRequest>) -> bool {
    &&& forall|r: int, j: int|
        0 <= r < ws.len() && !ws[r].is_terminal() && 0 <= j < ws[r].points@.len() ==> has_point(
            pts,
            #[trigger] ws[r].points@[j]@,
        )
    &&& forall|r: int, j: int, i: int|
        0 <= r < ws.len() && !ws[r].is_terminal() && 0 <= j < ws[r].points@.len() && 0 <= i < pts.len()
            && (#[trigger] pts[i]).commitment@ == (#[trigger] ws[r].points@[j])@ ==> !pts[i].is_active
    &&& forall|r1: int, r2: int, j1: int, j2: int|
        0 <= r1 < ws.len() && 0 <= r2 < ws.len() && r1 != r2 && !ws[r1].is_terminal()
            && !ws[r2].is_terminal() && 0 <= j1 < ws[r1].points@.len() && 0 <= j2 < ws[r2].points@.len()
            ==> (#[trigger] ws[r1].points@[j1])@ != (#[trigger] ws[r2].points@[j2])@
}

/// Keeping every stored commitment, only switching points off, and adding
/// points under new commitments keeps pending requests parked.
pub proof fn lemma_parked_grow(pts: Seq<FloatingPoint>, pts2: Seq<FloatingPoint>, ws: Seq<WithdrawalRequest>)
    requires
        pending_parked(pts, ws),
        pts2.len() >= pts.len(),
        forall|i: int|
            0 <= i < pts.len() ==> (#[trigger] pts2[i]).commitment == pts[i].commitment && (pts[i].is_active
                || !pts2[i].is_active),
        forall|i: int| pts.len() <= i < pts2.len() ==> !has_point(pts, (#[trigger] pts2[i]).commitment@),
    ensures
        pending_parked(pts2, ws),
{
    assert forall|r: int, j: int|
        0 <= r < ws.len() && !ws[r].is_terminal() && 0 <= j < ws[r].points@.len() implies has_point(
            pts2,
            #[trigger] ws[r].points@[j]@,
        ) by {
        let i = choose|i: int| 0 <= i < pts.len() && pts[i].commitment@ == ws[r].points@[j]@;
        assert(pts2[i].commitment == pts[i].commitment);
    }
    assert forall|r: int, j: int, i: int|
        0 <= r < ws.len() && !ws[r].is_terminal() && 0 <= j < ws[r].points@.len() && 0 <= i < pts2.len()
            && (#[trigger] pts2[i]).commitment@ == (#[trigger] ws[r].points@[j])@ implies !pts2[i].is_active by {
        if i < pts.len() {
            assert(pts2[i].commitment == pts[i].commitment);
            assert(!pts[i].is_active);
        } else {
            assert(has_point(pts, ws[r].points@[j]@));
        }
    }
}

/// Retiring request `r` (making it terminal) and, optionally, switching its
/// points back on keeps the other pending requests parked.
pub proof fn lemma_parked_retire(
    pts: Seq<FloatingPoint>,
    ws: Seq<WithdrawalRequest>,
    r: int,
    v: WithdrawalRequest,
    reactivate: bool,
)
    requires
        pending_parked(pts, ws),
        0 <= r < ws.len(),
        v.is_terminal(),
        reactivate ==> !ws[r].is_terminal(),
    ensures
        pending_parked(if reactivate { with_activity(pts, ws[r].points@, true) } else { pts }, ws.update(r, v)),
{
    let pts2 = if reactivate { with_activity(pts, ws[r].points@, true) } else { pts };
    let ws2 = ws.update(r, v);
    assert forall|q: int, j: int|
        0 <= q < ws2.len() && !ws2[q].is_terminal() && 0 <= j < ws2[q].points@.len() implies has_point(
            pts2,
            #[trigger] ws2[q].points@[j]@,
        ) by {
        assert(ws2[q] == ws[q]);
        let i = choose|i: int| 0 <= i < pts.len() && pts[i].commitment@ == ws[q].points@[j]@;
        assert(pts2[i].commitment == pts[i].commitment);
    }
    assert forall|q: int, j: int, i: int|
        0 <= q < ws2.len() && !ws2[q].is_terminal() && 0 <= j < ws2[q].points@.len() && 0 <= i < pts2.len()
            && (#[trigger] pts2[i]).commitment@ == (#[trigger] ws2[q].points@[j])@ implies !pts2[i].is_active by {
        assert(q != r);
        assert(ws2[q] == ws[q]);
        if reactivate {
            assert(pts2[i].commitment == pts[i].commitment);
            assert(!pts[i].is_active);
            if listed(ws[r].points@, pts[i].commitment@) {
                let m = choose|m: int| 0 <= m < ws[r].points@.len() && ws[r].points@[m]@ == pts[i].commitment@;
                assert(ws[q].points@[j]@ != ws[r].points@[m]@);
            }
        } else {
            assert(!pts[i].is_active);
        }
    }
    assert forall|r1: int, r2: int, j1: int, j2: int|
        0 <= r1 < ws2.len() && 0 <= r2 < ws2.len() && r1 != r2 && !ws2[r1].is_terminal()
            && !ws2[r2].is_terminal() && 0 <= j1 < ws2[r1].points@.len() && 0 <= j2 < ws2[r2].points@.len()
            implies (#[trigger] ws2[r1].points@[j1])@ != (#[trigger] ws2[r2].points@[j2])@ by {
        assert(ws2[r1] == ws[r1]);
        assert(ws2[r2] == ws[r2]);
    }
}

/// A new pending request over present, active points, which it switches
/// off, keeps pending requests parked.
pub proof fn lemma_parked_request(pts: Seq<FloatingPoint>, ws: Seq<WithdrawalRequest>, v: WithdrawalRequest)
    requires
        pending_parked(pts, ws),
        all_present(pts, v.points@),
        !any_inactive(pts, v.points@),
    ensures
        pending_parked(with_activity(pts, v.points@, false), ws.push(v)),
{
    let ids = v.points@;
    let pts2 = with_activity(pts, ids, false);
    let ws2 = ws.push(v);
    assert forall|q: int, j: int|
        0 <= q < ws2.len() && !ws2[q].is_terminal() && 0 <= j < ws2[q].points@.len() implies has_point(
            pts2,
            #[trigger] ws2[q].points@[j]@,
        ) by {
        if q < ws.len() {
            assert(ws2[q] == ws[q]);
        } else {
            assert(ws2[q] == v);
            assert(has_point(pts, ids[j]@));
        }
        let i = choose|i: int| 0 <= i < pts.len() && pts[i].commitment@ == ws2[q].points@[j]@;
        assert(pts2[i].commitment == pts[i].commitment);
    }
    assert forall|q: int, j: int, i: int|
        0 <= q < ws2.len() && !ws2[q].is_terminal() && 0 <= j < ws2[q].points@.len() && 0 <= i < pts2.len()
            && (#[trigger] pts2[i]).commitment@ == (#[trigger] ws2[q].points@[j])@ implies !pts2[i].is_active by {
        assert(pts2[i].commitment == pts[i].commitment);
        if q < ws.len() {
            assert(ws2[q] == ws[q]);
            assert(!pts[i].is_active);
        } else {
            assert(ws2[q] == v);
            assert(listed(ids, pts[i].commitment@));
        }
    }
    assert forall|r1: int, r2: int, j1: int, j2: int|
        0 <= r1 < ws2.len() && 0 <= r2 < ws2.len() && r1 != r2 && !ws2[r1].is_terminal()
            && !ws2[r2].is_terminal() && 0 <= j1 < ws2[r1].points@.len() && 0 <= j2 < ws2[r2].points@.len()
            implies (#[trigger] ws2[r1].points@[j1])@ != (#[trigger] ws2[r2].points@[j2])@ by {
        if r1 < ws.len() && r2 < ws.len() {
            assert(ws2[r1] == ws[r1]);
            assert(ws2[r2] == ws[r2]);
        } else if r1 < ws.len() {
            assert(ws2[r1] == ws[r1]);
            assert(ws2[r2] == v);
            if ws[r1].points@[j1]@ == ids[j2]@ {
                assert(has_point(pts, ws[r1].points@[j1]@));
                let i = choose|i: int| 0 <= i < pts.len() && pts[i].commitment@ == ws[r1].points@[j1]@;
                assert(!pts[i].is_active);
                assert(pts[i].commitment@ == ids[j2]@);
            }
        } else {
            assert(ws2[r2] == ws[r2]);
            assert(ws2[r1] == v);
            if ws[r2].points@[j2]@ == ids[j1]@ {
                assert(has_point(pts, ws[r2].points@[j2]@));
                let i = choose|i: int| 0 <= i < pts.len() && pts[i].commitment@ == ws[r2].points@[j2]@;
                assert(!pts[i].is_active);
                assert(pts[i].commitment@ == ids[j1]@);
            }
        }
    }
}

/// Whether no key of `a` equals a key of `b`.
pub fn keys_disjoint(a: &Vec<[u8; 32]>, b: &Vec<[u8; 32]>) -> (r: bool)
    ensures
        r == (forall|j1: int, j2: int| 0 <= j1 < a@.len() && 0 <= j2 < b@.len() ==> a@[j1]@ != b@[j2]@),
{
    let mut x: usize = 0;
    while x < a.len()
        invariant
            0 <= x <= a@.len(),
            forall|j1: int, j2: int| 0 <= j1 < x && 0 <= j2 < b@.len() ==> a@[j1]@ != b@[j2]@,
        decreases a@.len() - x,
    {
        let mut y: usize = 0;
        while y < b.len()
            invariant
                0 <= x < a@.len(),
                0 <= y <= b@.len(),
                forall|j1: int, j2: int| 0 <= j1 < x && 0 <= j2 < b@.len() ==> a@[j1]@ != b@[j2]@,
                forall|j2: int| 0 <= j2 < y ==> a@[x as int]@ != b@[j2]@,
            decreases b@.len() - y,
        {
            if keys_equal(&a[x], &b[y]) {
                return false;
            }
            y = y + 1;
        }
        x = x + 1;
    }
    true
}

/// Whether every pending request is parked (see `pending_parked`).
pub fn parked_ok(pts: &Vec<FloatingPoint>, ws: &Vec<WithdrawalRequest>) -> (r: bool)
    requires
        point_keys_unique(pts@),
    ensures
        r == pending_parked(pts@, ws@),
{
    let mut q: usize = 0;
    while q < ws.len()
        invariant
            0 <= q <= ws@.len(),
            point_keys_unique(pts@),
            forall|a: int| 0 <= a < q && !(#[trigger] ws@[a]).is_terminal() ==> !reactivation_error(pts@, ws@[a].points@),
        decreases ws@.len() - q,
    {
        if !ws[q].completed && !ws[q].cancelled {
            if locate_inactive(pts, &ws[q].points).is_none() {
                proof {
                    let k = ws@[q as int].points@;
                    if !all_present(pts@, k) {
                        let j = choose|j: int| 0 <= j < k.len() && !has_point(pts@, #[trigger] k[j]@);
                        assert(!has_point(pts@, ws@[q as int].points@[j]@));
                    } else {
                        let (i, j) = choose|i: int, j: int|
                            0 <= i < pts@.len() && 0 <= j < k.len() && #[trigger] pts@[i].commitment@
                                == #[trigger] k[j]@ && pts@[i].is_active;
                        assert(pts@[i].commitment@ == ws@[q as int].points@[j]@);
                    }
                }
                return false;
            }
        }
        q = q + 1;
    }
    let mut r1: usize = 0;
    while r1 < ws.len()
        invariant
            0 <= r1 <= ws@.len(),
            forall|a: int| 0 <= a < ws@.len() && !(#[trigger] ws@[a]).is_terminal() ==> !reactivation_error(pts@, ws@[a].points@),
            forall|a: int, b: int, j1: int, j2: int|
                0 <= a < r1 && a < b < ws@.len() && !ws@[a].is_terminal() && !ws@[b].is_terminal()
                    && 0 <= j1 < ws@[a].points@.len() && 0 <= j2 < ws@[b].points@.len()
                    ==> (#[trigger] ws@[a].points@[j1])@ != (#[trigger] ws@[b].points@[j2])@,
        decreases ws@.len() - r1,
    {
        let mut r2: usize = r1 + 1;
        while r2 < ws.len()
            invariant
                0 <= r1 < ws@.len(),
                r1 + 1 <= r2 <= ws@.len(),
                forall|a: int, b: int, j1: int, j2: int|
                    0 <= a < r1 && a < b < ws@.len() && !ws@[a].is_terminal() && !ws@[b].is_terminal()
                        && 0 <= j1 < ws@[a].points@.len() && 0 <= j2 < ws@[b].points@.len()
                        ==> (#[trigger] ws@[a].points@[j1])@ != (#[trigger] ws@[b].points@[j2])@,
                forall|b: int, j1: int, j2: int|
                    r1 < b < r2 && !ws@[r1 as int].is_terminal() && !ws@[b].is_terminal()
                        && 0 <= j1 < ws@[r1 as int].points@.len() && 0 <= j2 < ws@[b].points@.len()
                        ==> (#[trigger] ws@[r1 as int].points@[j1])@ != (#[trigger] ws@[b].points@[j2])@,
            decreases ws@.len() - r2,
        {
            let pending1 = !ws[r1].completed && !ws[r1].cancelled;
            let pending2 = !ws[r2].completed && !ws[r2].cancelled;
            if pending1 && pending2 && !keys_disjoint(&ws[r1].points, &ws[r2].points) {
                return false;
            }
            r2 = r2 + 1;
        }
        r1 = r1 + 1;
    }
    proof {
        let ws_ = ws@;
        let pts_ = pts@;
        assert forall|r: int, j: int|
            0 <= r < ws_.len() && !ws_[r].is_terminal() && 0 <= j < ws_[r].points@.len() implies has_point(
                pts_,
                #[trigger] ws_[r].points@[j]@,
            ) by {
            assert(!reactivation_error(pts_, ws_[r].points@));
        }
        assert forall|r: int, j: int, i: int|
            0 <= r < ws_.len() && !ws_[r].is_terminal() && 0 <= j < ws_[r].points@.len() && 0 <= i < pts_.len()
                && (#[trigger] pts_[i]).commitment@ == (#[trigger] ws_[r].points@[j])@ implies !pts_[i].is_active by {
            assert(!reactivation_error(pts_, ws_[r].points@));
            assert(!any_active(pts_, ws_[r].points@));
        }
        assert forall|r1: int, r2: int, j1: int, j2: int|
            0 <= r1 < ws_.len() && 0 <= r2 < ws_.len() && r1 != r2 && !ws_[r1].is_terminal()
                && !ws_[r2].is_terminal() && 0 <= j1 < ws_[r1].points@.len() && 0 <= j2 < ws_[r2].points@.len()
                implies (#[trigger] ws_[r1].points@[j1])@ != (#[trigger] ws_[r2].points@[j2])@ by {
            if r1 > r2 {
                assert(ws_[r2].points@[j2]@ != ws_[r1].points@[j1]@);
            }
        }
    }
    true
}

/// The active count is never negative.
pub proof fn lemma_active_count_nonneg(s: Seq<FloatingPoint>)
    ensures
        active_count(s) >= 0,
    decreases s.len(),
{
    if s.len() > 0 {
        lemma_active_count_nonneg(s.drop_last());
    }
}

/// The held mass is never negative.
pub proof fn lemma_held_total_nonneg(s: Seq<WithdrawalRequest>)
    ensures
        held_total(s) >= 0,
    decreases s.len(),
{
    if s.len() > 0 {
        lemma_held_total_nonneg(s.drop_last());
    }
}

/// The held mass of a prefix is at most that of the whole sequence.
pub proof fn lemma_held_total_prefix(s: Seq<WithdrawalRequest>, n: int)
    requires
        0 <= n <= s.len(),
    ensures
        held_total(s.take(n)) <= held_total(s),
    decreases s.len() - n,
{
    if n < s.len() {
        lemma_held_total_prefix(s, n + 1);
        assert(s.take(n + 1).drop_last() =~= s.take(n));
    }
    assert(s.take(s.len() as int) =~= s);
}

/// Appending a request adds its held mass.
pub proof fn lemma_held_total_push(s: Seq<WithdrawalRequest>, v: WithdrawalRequest)
    ensures
        held_total(s.push(v)) == held_total(s) + v.held_mass(),
{
    assert(s.push(v).drop_last() =~= s);
}

/// The index of the point with commitment `c`, if the store holds one.
pub fn find_point(points: &Vec<FloatingPoint>, c: &[u8; 32]) -> (r: Option<usize>)
    ensures
        r matches Some(i) ==> i < points@.len() && points@[i as int].commitment@ == c@,
        r is None <==> !has_point(points@, c@),
{
    let mut i: usize = 0;
    while i < points.len()
        invariant
            0 <= i <= points@.len(),
            forall|k: int| 0 <= k < i ==> points@[k].commitment@ != c@,
        decreases points@.len() - i,
    {
        if keys_equal(&points[i].commitment, c) {
            return Some(i);
        }
        i = i + 1;
    }
    None
}

/// Whether no two keys of the list are equal.
pub fn all_distinct(keys: &Vec<[u8; 32]>) -> (r: bool)
    ensures
        r == keys_distinct(keys@),
{
    let mut j: usize = 0;
    while j < keys.len()
        invariant
            0 <= j <= keys@.len(),
            forall|a: int, b: int| 0 <= a < b < keys@.len() && a < j ==> keys@[a]@ != keys@[b]@,
        decreases keys@.len() - j,
    {
        let mut k: usize = j + 1;
        while k < keys.len()
            invariant
                j < keys@.len(),
                j + 1 <= k <= keys@.len(),
                forall|a: int, b: int| 0 <= a < b < keys@.len() && a < j ==> keys@[a]@ != keys@[b]@,
                forall|b: int| j < b < k ==> keys@[j as int]@ != keys@[b]@,
            decreases keys@.len() - k,
        {
            if keys_equal(&keys[j], &keys[k]) {
                return false;
            }
            k = k + 1;
        }
        j = j + 1;
    }
    true
}

/// Whether some key of the list names a point of the store.
pub fn any_point_present(points: &Vec<FloatingPoint>, keys: &Vec<[u8; 32]>) -> (r: bool)
    ensures
        r == any_present(points@, keys@),
{
    let mut j: usize = 0;
    while j < keys.len()
        invariant
            0 <= j <= keys@.len(),
            forall|a: int| 0 <= a < j ==> !has_point(points@, #[trigger] keys@[a]@),
        decreases keys@.len() - j,
    {
        if find_point(points, &keys[j]).is_some() {
            return true;
        }
        j = j + 1;
    }
    false
}

/// Every key of the list names a point of the store.
pub open spec fn all_present(points: Seq<FloatingPoint>, keys: Seq<[u8; 32]>) -> bool {
    forall|j: int| 0 <= j < keys.len() ==> has_point(points, #[trigger] keys[j]@)
}

/// Some listed point is still under its maturity lock at `now`.
pub open spec fn any_locked(points: Seq<FloatingPoint>, keys: Seq<[u8; 32]>, now: i64) -> bool {
    exists|i: int, j: int|
        0 <= i < points.len() && 0 <= j < keys.len() && #[trigger] points[i].commitment@
            == #[trigger] keys[j]@ && now < points[i].locked_until
}

/// Some listed point has already been consumed.
pub open spec fn any_inactive(points: Seq<FloatingPoint>, keys: Seq<[u8; 32]>) -> bool {
    exists|i: int, j: int|
        0 <= i < points.len() && 0 <= j < keys.len() && #[trigger] points[i].commitment@
            == #[trigger] keys[j]@ && !points[i].is_active
}

/// The first failing check on the points a transfer or withdrawal wants to
/// consume: each must exist (once), be past its lock, and be active.
pub open spec fn spend_error(points: Seq<FloatingPoint>, keys: Seq<[u8; 32]>, now: i64) -> Option<
    FPPError,
> {
    if !keys_distinct(keys) || !all_present(points, keys) {
        Some(FPPError::InvalidCommitment)
    } else if any_locked(points, keys, now) {
        Some(FPPError::PointLocked)
    } else if any_inactive(points, keys) {
        Some(FPPError::PointNotActive)
    } else {
        None
    }
}

/// Some listed nullifier is already used, or listed twice.
pub open spec fn nullifier_error(reg: Seq<NullifierSet>, nulls: Seq<[u8; 32]>) -> bool {
    !keys_distinct(nulls) || exists|j: int| 0 <= j < nulls.len() && is_spent(reg, #[trigger] nulls[j]@)
}

/// Checks that the listed points may be consumed at `now` and returns the
/// store index of each.
pub fn check_spendable(points: &Vec<FloatingPoint>, keys: &Vec<[u8; 32]>, now: i64) -> (r: Result<
    Vec<usize>,
    FPPError,
>)
    requires
        point_keys_unique(points@),
    ensures
        r is Err <==> spend_error(points@, keys@, now) is Some,
        r matches Err(e) ==> Some(e) == spend_error(points@, keys@, now),
        r matches Ok(idxs) ==> {
            &&& idxs@.len() == keys@.len()
            &&& forall|j: int|
                0 <= j < keys@.len() ==> {
                    &&& (#[trigger] idxs@[j]) < points@.len()
                    &&& points@[idxs@[j] as int].commitment@ == keys@[j]@
                    &&& points@[idxs@[j] as int].is_active
                    &&& now >= points@[idxs@[j] as int].locked_until
                }
        },
{
    if !all_distinct(keys) {
        return Err(FPPError::InvalidCommitment);
    }
    let mut idxs: Vec<usize> = Vec::new();
    let mut j: usize = 0;
    while j < keys.len()
        invariant
            0 <= j <= keys@.len(),
            idxs@.len() == j,
            forall|a: int|
                0 <= a < j ==> (#[trigger] idxs@[a]) < points@.len() && points@[idxs@[a] as int].commitment@
                    == keys@[a]@,
        decreases keys@.len() - j,
    {
        match find_point(points, &keys[j]) {
            Some(i) => idxs.push(i),
            None => {
                return Err(FPPError::InvalidCommitment);
            },
        }
        j = j + 1;
    }
    assert(all_present(points@, keys@)) by {
        assert forall|a: int| 0 <= a < keys@.len() implies has_point(points@, #[trigger] keys@[a]@) by {
            assert(points@[idxs@[a] as int].commitment@ == keys@[a]@);
        }
    }
    let mut j: usize = 0;
    while j < keys.len()
        invariant
            0 <= j <= keys@.len(),
            idxs@.len() == keys@.len(),
            forall|a: int|
                0 <= a < keys@.len() ==> (#[trigger] idxs@[a]) < points@.len() && points@[idxs@[a] as int].commitment@
                    == keys@[a]@,
            forall|a: int| 0 <= a < j ==> now >= points@[(#[trigger] idxs@[a]) as int].locked_until,
            keys_distinct(keys@),
            all_present(points@, keys@),
        decreases keys@.len() - j,
    {
        if now < points[idxs[j]].locked_until {
            assert(points@[idxs@[j as int] as int].commitment@ == keys@[j as int]@);
            return Err(FPPError::PointLocked);
        }
        j = j + 1;
    }
    assert(!any_locked(points@, keys@, now)) by {
        assert forall|i: int, a: int|
            0 <= i < points@.len() && 0 <= a < keys@.len() && #[trigger] points@[i].commitment@
                == #[trigger] keys@[a]@ implies now >= points@[i].locked_until by {
            assert(points@[idxs@[a] as int].commitment@ == keys@[a]@);
        }
    }
    let mut j: usize = 0;
    while j < keys.len()
        invariant
            0 <= j <= keys@.len(),
            idxs@.len() == keys@.len(),
            forall|a: int|
                0 <= a < keys@.len() ==> (#[trigger] idxs@[a]) < points@.len() && points@[idxs@[a] as int].commitment@
                    == keys@[a]@,
            forall|a: int| 0 <= a < keys@.len() ==> now >= points@[(#[trigger] idxs@[a]) as int].locked_until,
            forall|a: int| 0 <= a < j ==> points@[(#[trigger] idxs@[a]) as int].is_active,
            keys_distinct(keys@),
            all_present(points@, keys@),
            !any_locked(points@, keys@, now),
        decreases keys@.len() - j,
    {
        if !points[idxs[j]].is_active {
            assert(points@[idxs@[j as int] as int].commitment@ == keys@[j as int]@);
            return Err(FPPError::PointNotActive);
        }
        j = j + 1;
    }
    assert(!any_inactive(points@, keys@)) by {
        assert forall|i: int, a: int|
            0 <= i < points@.len() && 0 <= a < keys@.len() && #[trigger] points@[i].commitment@
                == #[trigger] keys@[a]@ implies points@[i].is_active by {
            assert(points@[idxs@[a] as int].commitment@ == keys@[a]@);
        }
    }
    Ok(idxs)
}

/// Switches the listed points (found at `idxs`, all currently the other
/// way) to `activate`.
pub fn set_activity(points: &mut Vec<FloatingPoint>, keys: &Vec<[u8; 32]>, idxs: &Vec<usize>, activate: bool)
    requires
        point_keys_unique(old(points)@),
        keys_distinct(keys@),
        idxs@.len() == keys@.len(),
        forall|j: int|
            0 <= j < keys@.len() ==> {
                &&& (#[trigger] idxs@[j]) < old(points)@.len()
                &&& old(points)@[idxs@[j] as int].commitment@ == keys@[j]@
                &&& old(points)@[idxs@[j] as int].is_active == !activate
            },
    ensures
        final(points)@ == with_activity(old(points)@, keys@, activate),
        active_count(final(points)@) == active_count(old(points)@) + (if activate {
            keys@.len() as int
        } else {
            -keys@.len()
        }),
        point_keys_unique(final(points)@),
        forall|i: int| 0 <= i < final(points)@.len() ==> (#[trigger] final(points)@[i]).mass == old(points)@[i].mass,
{
    let ghost old_points = points@;
    let ghost step: int = if activate { 1 } else { -1 };
    let mut k: usize = 0;
    while k < idxs.len()
        invariant
            0 <= k <= idxs@.len(),
            idxs@.len() == keys@.len(),
            old_points == old(points)@,
            step == (if activate { 1int } else { -1int }),
            point_keys_unique(old_points),
            keys_distinct(keys@),
            forall|j: int|
                0 <= j < keys@.len() ==> {
                    &&& (#[trigger] idxs@[j]) < old_points.len()
                    &&& old_points[idxs@[j] as int].commitment@ == keys@[j]@
                    &&& old_points[idxs@[j] as int].is_active == !activate
                },
            points@.len() == old_points.len(),
            forall|i: int|
                0 <= i < old_points.len() ==> #[trigger] points@[i] == old_points[i] || points@[i]
                    == (FloatingPoint { is_active: activate, ..old_points[i] }),
            forall|j: int| 0 <= j < k ==> points@[(#[trigger] idxs@[j]) as int].is_active == activate,
            forall|j: int| k <= j < idxs@.len() ==> points@[(#[trigger] idxs@[j]) as int] == old_points[idxs@[j] as int],
            forall|i: int|
                0 <= i < old_points.len() && !listed(keys@, old_points[i].commitment@) ==> #[trigger] points@[i]
                    == old_points[i],
            active_count(points@) == active_count(old_points) + step * k,
        decreases idxs@.len() - k,
    {
        let i = idxs[k];
        proof {
            assert(listed(keys@, old_points[i as int].commitment@)) by {
                assert(keys@[k as int]@ == old_points[i as int].commitment@);
            }
            assert forall|j: int| k < j < idxs@.len() implies #[trigger] idxs@[j] != i by {
                assert(old_points[idxs@[j] as int].commitment@ == keys@[j]@);
                assert(keys@[k as int]@ != keys@[j]@);
            }
            lemma_active_count_update(points@, i as int, FloatingPoint { is_active: activate, ..points@[i as int] });
        }
        points[i].is_active = activate;
        proof {
            assert(step * (k + 1) == step * k + step) by (nonlinear_arith);
        }
        k = k + 1;
    }
    proof {
        assert(step * (keys@.len() as int) == (if activate { keys@.len() as int } else { -keys@.len() }))
            by (nonlinear_arith)
            requires step == (if activate { 1int } else { -1int });
        assert forall|i: int| 0 <= i < old_points.len() implies #[trigger] points@[i] == (if listed(keys@, old_points[i].commitment@) {
            FloatingPoint { is_active: activate, ..old_points[i] }
        } else {
            old_points[i]
        }) by {
            if listed(keys@, old_points[i].commitment@) {
                let j = choose|j: int| 0 <= j < keys@.len() && keys@[j]@ == old_points[i].commitment@;
                assert(old_points[idxs@[j] as int].commitment@ == keys@[j]@);
                assert(idxs@[j] as int == i);
            }
        }
        assert forall|a: int, b: int|
            0 <= a < points@.len() && 0 <= b < points@.len() && a != b implies points@[a].commitment@
                != points@[b].commitment@ by {
            assert(points@[a] == old_points[a] || points@[a] == (FloatingPoint { is_active: activate, ..old_points[a] }));
            assert(points@[b] == old_points[b] || points@[b] == (FloatingPoint { is_active: activate, ..old_points[b] }));
        }
        assert forall|i: int| 0 <= i < points@.len() implies (#[trigger] points@[i]).mass == old_points[i].mass by {
            assert(points@[i] == old_points[i] || points@[i] == (FloatingPoint { is_active: activate, ..old_points[i] }));
        }
        assert(points@ =~= with_activity(old_points, keys@, activate));
    }
}

/// Marks nullifier `key` as used at `now`, adding a record if the registry
/// holds none for it.
fn mark_one(reg: &mut Vec<NullifierSet>, key: &[u8; 32], now: i64)
    ensures
        forall|n: Seq<u8>| is_spent(final(reg)@, n) <==> (is_spent(old(reg)@, n) || n == key@),
        final(reg)@.len() >= old(reg)@.len(),
        forall|i: int|
            0 <= i < old(reg)@.len() ==> #[trigger] final(reg)@[i] == old(reg)@[i] || (final(reg)@[i]
                == stamped(old(reg)@[i], now) && old(reg)@[i].nullifier@ == key@),
        forall|i: int|
            old(reg)@.len() <= i < final(reg)@.len() ==> #[trigger] final(reg)@[i] == (NullifierSet {
                is_initialized: true,
                nullifier: *key,
                used: true,
                timestamp: now,
            }),
        exists|i: int|
            0 <= i < final(reg)@.len() && (#[trigger] final(reg)@[i]).nullifier@ == key@ && final(reg)@[i].used
                && final(reg)@[i].timestamp == now,
{
    let ghost cur = reg@;
    let mut found: Option<usize> = None;
    let mut i: usize = 0;
    while i < reg.len()
        invariant
            0 <= i <= reg@.len(),
            reg@ == cur,
            found matches Some(f) ==> f < reg@.len() && reg@[f as int].nullifier@ == key@,
        decreases reg@.len() - i,
    {
        if found.is_none() && keys_equal(&reg[i].nullifier, key) {
            found = Some(i);
        }
        i = i + 1;
    }
    match found {
        Some(f) => {
            reg[f].used = true;
            reg[f].timestamp = now;
            proof {
                assert forall|n: Seq<u8>| is_spent(reg@, n) <==> (is_spent(cur, n) || n == key@) by {
                    if is_spent(reg@, n) && n != key@ {
                        let w = choose|w: int| 0 <= w < reg@.len() && reg@[w].used && reg@[w].nullifier@ == n;
                        assert(cur[w] == reg@[w]);
                    }
                    if is_spent(cur, n) {
                        let w = choose|w: int| 0 <= w < cur.len() && cur[w].used && cur[w].nullifier@ == n;
                        if w != f as int {
                            assert(cur[w] == reg@[w]);
                        } else {
                            assert(reg@[w].used);
                        }
                    }
                    if n == key@ {
                        assert(reg@[f as int].used && reg@[f as int].nullifier@ == n);
                    }
                }
                assert(reg@[f as int] == stamped(cur[f as int], now));
                assert(reg@[f as int].nullifier@ == key@ && reg@[f as int].used && reg@[f as int].timestamp == now);
            }
        },
        None => {
            reg.push(NullifierSet { is_initialized: true, nullifier: *key, used: true, timestamp: now });
            proof {
                assert forall|n: Seq<u8>| is_spent(reg@, n) <==> (is_spent(cur, n) || n == key@) by {
                    if is_spent(reg@, n) && n != key@ {
                        let w = choose|w: int| 0 <= w < reg@.len() && reg@[w].used && reg@[w].nullifier@ == n;
                        assert(cur[w] == reg@[w]);
                    }
                    if is_spent(cur, n) {
                        let w = choose|w: int| 0 <= w < cur.len() && cur[w].used && cur[w].nullifier@ == n;
                        assert(cur[w] == reg@[w]);
                    }
                    if n == key@ {
                        assert(reg@[cur.len() as int].used && reg@[cur.len() as int].nullifier@ == n);
                    }
                }
                assert(reg@[cur.len() as int].nullifier@ == key@);
            }
        },
    }
}

/// The record as it is once marked used at `now`.
pub open spec fn stamped(r: NullifierSet, now: i64) -> NullifierSet {
    NullifierSet { used: true, timestamp: now, ..r }
}

/// Record by record, `new` is `old` after marking the first `len` keys used
/// at `now`: each old record stays in place, unchanged or, when its key is
/// among those keys, stamped; records added after them hold such keys,
/// used at `now`; and each of those keys has a record used at `now`.
pub open spec fn records_marked(
    old: Seq<NullifierSet>,
    new: Seq<NullifierSet>,
    keys: Seq<[u8; 32]>,
    len: int,
    now: i64,
) -> bool {
    &&& new.len() >= old.len()
    &&& forall|i: int|
        0 <= i < old.len() ==> #[trigger] new[i] == old[i] || (new[i] == stamped(old[i], now)
            && listed_before(keys, len, old[i].nullifier@))
    &&& forall|i: int|
        old.len() <= i < new.len() ==> {
            &&& (#[trigger] new[i]).is_initialized
            &&& new[i].used
            &&& new[i].timestamp == now
            &&& listed_before(keys, len, new[i].nullifier@)
        }
    &&& forall|j: int|
        #![trigger keys[j]]
        0 <= j < len ==> exists|i: int|
            0 <= i < new.len() && (#[trigger] new[i]).nullifier@ == keys[j]@ && new[i].used
                && new[i].timestamp == now
}

/// `new` is `old` with every listed nullifier marked used at `now`: the
/// spent set grows by exactly the listed keys, and the records change as
/// `records_marked` says, so records of unlisted keys stay as they were.
pub open spec fn nullifiers_marked(old: Seq<NullifierSet>, new: Seq<NullifierSet>, keys: Seq<[u8; 32]>, now: i64) -> bool {
    &&& marks_spent(old, new, keys)
    &&& records_marked(old, new, keys, keys.len() as int, now)
}

/// `new` records as used exactly what `old` did and the listed keys.
pub open spec fn marks_spent(old: Seq<NullifierSet>, new: Seq<NullifierSet>, keys: Seq<[u8; 32]>) -> bool {
    forall|n: Seq<u8>| is_spent(new, n) <==> (is_spent(old, n) || listed(keys, n))
}

/// `new` records as used exactly what `old` did and the first `len` keys.
pub open spec fn spent_after(old: Seq<NullifierSet>, new: Seq<NullifierSet>, keys: Seq<[u8; 32]>, len: int) -> bool {
    forall|n: Seq<u8>| is_spent(new, n) <==> (is_spent(old, n) || listed_before(keys, len, n))
}

/// Marks every listed nullifier as used at `now`, adding a record for any
/// that the registry does not hold yet.
pub fn mark_spent(reg: &mut Vec<NullifierSet>, nulls: &Vec<[u8; 32]>, now: i64)
    ensures
        nullifiers_marked(old(reg)@, final(reg)@, nulls@, now),
{
    proof {
        assert forall|n: Seq<u8>| listed(nulls@, n) <==> listed_before(nulls@, nulls@.len() as int, n) by {
            if listed(nulls@, n) {
                let j = choose|j: int| 0 <= j < nulls@.len() && nulls@[j]@ == n;
                assert(nulls@[j]@ == n);
            }
        }
    }
    let ghost old_reg = reg@;
    let mut k: usize = 0;
    while k < nulls.len()
        invariant
            0 <= k <= nulls@.len(),
            old_reg == old(reg)@,
            spent_after(old_reg, reg@, nulls@, k as int),
            records_marked(old_reg, reg@, nulls@, k as int, now),
        decreases nulls@.len() - k,
    {
        let ghost cur = reg@;
        let ghost k0 = k as int;
        let key = nulls[k];
        mark_one(reg, &key, now);
        k = k + 1;
        proof {
            assert forall|n: Seq<u8>| is_spent(reg@, n) <==> (is_spent(old_reg, n) || listed_before(nulls@, k as int, n)) by {
                if n == key@ {
                    assert(nulls@[k0]@ == n);
                }
                assert(is_spent(cur, n) <==> (is_spent(old_reg, n) || listed_before(nulls@, k0, n)));
                assert(is_spent(reg@, n) <==> (is_spent(cur, n) || n == key@));
                if listed_before(nulls@, k as int, n) && n != key@ {
                    let j = choose|j: int| 0 <= j < k as int && #[trigger] nulls@[j]@ == n;
                    assert(listed_before(nulls@, k0, n));
                }
            }
            assert forall|n: Seq<u8>| listed_before(nulls@, k0, n) implies listed_before(nulls@, k as int, n) by {
                let j = choose|j: int| 0 <= j < k0 && #[trigger] nulls@[j]@ == n;
                assert(nulls@[j]@ == n);
            }
            assert(listed_before(nulls@, k as int, key@)) by {
                assert(nulls@[k0]@ == key@);
            }
            assert forall|i: int| 0 <= i < old_reg.len() implies #[trigger] reg@[i] == old_reg[i] || (reg@[i]
                == stamped(old_reg[i], now) && listed_before(nulls@, k as int, old_reg[i].nullifier@)) by {
                assert(cur[i] == old_reg[i] || (cur[i] == stamped(old_reg[i], now) && listed_before(nulls@, k0, old_reg[i].nullifier@)));
                assert(reg@[i] == cur[i] || (reg@[i] == stamped(cur[i], now) && cur[i].nullifier@ == key@));
            }
            assert forall|i: int| old_reg.len() <= i < reg@.len() implies {
                &&& (#[trigger] reg@[i]).is_initialized
                &&& reg@[i].used
                &&& reg@[i].timestamp == now
                &&& listed_before(nulls@, k as int, reg@[i].nullifier@)
            } by {
                if i < cur.len() {
                    assert(cur[i].is_initialized && cur[i].used && cur[i].timestamp == now && listed_before(nulls@, k0, cur[i].nullifier@));
                    assert(reg@[i] == cur[i] || (reg@[i] == stamped(cur[i], now) && cur[i].nullifier@ == key@));
                } else {
                    assert(reg@[i].nullifier == key);
                }
            }
            assert forall|j: int| #![trigger nulls@[j]] 0 <= j < k as int implies exists|i: int|
                0 <= i < reg@.len() && (#[trigger] reg@[i]).nullifier@ == nulls@[j]@ && reg@[i].used
                    && reg@[i].timestamp == now by {
                if j < k0 {
                    let w = choose|w: int| 0 <= w < cur.len() && (#[trigger] cur[w]).nullifier@ == nulls@[j]@ && cur[w].used
                        && cur[w].timestamp == now;
                    assert(reg@[w] == cur[w] || (reg@[w] == stamped(cur[w], now) && cur[w].nullifier@ == key@));
                    assert(reg@[w].nullifier@ == nulls@[j]@ && reg@[w].used && reg@[w].timestamp == now);
                } else {
                    let w = choose|w: int| 0 <= w < reg@.len() && (#[trigger] reg@[w]).nullifier@ == key@ && reg@[w].used
                        && reg@[w].timestamp == now;
                    assert(reg@[w].nullifier@ == nulls@[j]@);
                }
            }
        }
    }
    proof {
        assert forall|n: Seq<u8>| is_spent(reg@, n) <==> (is_spent(old_reg, n) || listed(nulls@, n)) by {
            assert(listed(nulls@, n) <==> listed_before(nulls@, nulls@.len() as int, n));
        }
    }
}

/// Switching activity keeps every commitment, so the same keys name points.
pub proof fn lemma_with_activity_keys(points: Seq<FloatingPoint>, keys: Seq<[u8; 32]>, activate: bool, other: Seq<[u8; 32]>)
    ensures
        any_present(with_activity(points, keys, activate), other) == any_present(points, other),
        point_keys_unique(points) ==> point_keys_unique(with_activity(points, keys, activate)),
{
    let w = with_activity(points, keys, activate);
    assert forall|c: Seq<u8>| has_point(w, c) == has_point(points, c) by {
        if has_point(w, c) {
            let i = choose|i: int| 0 <= i < w.len() && w[i].commitment@ == c;
            assert(points[i].commitment@ == c);
        }
        if has_point(points, c) {
            let i = choose|i: int| 0 <= i < points.len() && points[i].commitment@ == c;
            assert(w[i].commitment@ == c);
        }
    }
    if any_present(w, other) {
        let j = choose|j: int| 0 <= j < other.len() && has_point(w, #[trigger] other[j]@);
        assert(has_point(points, other[j]@));
    }
    if any_present(points, other) {
        let j = choose|j: int| 0 <= j < other.len() && has_point(points, #[trigger] other[j]@);
        assert(has_point(w, other[j]@));
    }
    if point_keys_unique(points) {
        assert forall|a: int, b: int|
            0 <= a < w.len() && 0 <= b < w.len() && a != b implies w[a].commitment@ != w[b].commitment@ by {
            assert(w[a].commitment == points[a].commitment);
            assert(w[b].commitment == points[b].commitment);
        }
    }
}

/// Appends a fresh point for each key, minted by `creator` at `now`.
pub fn mint_points(points: &mut Vec<FloatingPoint>, keys: &Vec<[u8; 32]>, creator: [u8; 32], now: i64)
    requires
        point_keys_unique(old(points)@),
        forall|i: int| 0 <= i < old(points)@.len() ==> (#[trigger] old(points)@[i]).mass == 1,
        keys_distinct(keys@),
        !any_present(old(points)@, keys@),
        now + crate::state::MATURITY_DELAY <= i64::MAX,
    ensures
        final(points)@ == old(points)@ + keys@.map_values(|c: [u8; 32]| minted(c, creator, now)),
        point_keys_unique(final(points)@),
        forall|i: int| 0 <= i < final(points)@.len() ==> (#[trigger] final(points)@[i]).mass == 1,
        active_count(final(points)@) == active_count(old(points)@) + keys@.len(),
{
    let ghost old_points = points@;
    let mut k: usize = 0;
    while k < keys.len()
        invariant
            0 <= k <= keys@.len(),
            now + crate::state::MATURITY_DELAY <= i64::MAX,
            keys_distinct(keys@),
            !any_present(old_points, keys@),
            old_points == old(points)@,
            points@.len() == old_points.len() + k,
            forall|i: int| 0 <= i < old_points.len() ==> points@[i] == old_points[i],
            forall|i: int| old_points.len() <= i < points@.len() ==>
                points@[i] == minted(keys@[i - old_points.len()], creator, now),
            point_keys_unique(points@),
            forall|i: int| 0 <= i < points@.len() ==> (#[trigger] points@[i]).mass == 1,
            active_count(points@) == active_count(old_points) + k,
        decreases keys@.len() - k,
    {
        let c = keys[k];
        let point = FloatingPoint {
            is_initialized: true,
            commitment: c,
            created_at: now,
            mass: 1,
            is_active: true,
            creator,
            locked_until: now + crate::state::MATURITY_DELAY,
        };
        proof {
            lemma_active_count_push(points@, point);
            assert forall|i: int| 0 <= i < points@.len() implies points@[i].commitment@ != c@ by {
                if i < old_points.len() {
                    if points@[i].commitment@ == c@ {
                        assert(old_points[i].commitment@ == keys@[k as int]@);
                        assert(has_point(old_points, keys@[k as int]@));
                    }
                } else {
                    assert(points@[i].commitment == keys@[i - old_points.len()]);
                }
            }
        }
        points.push(point);
        k = k + 1;
    }
    assert(points@ =~= old_points + keys@.map_values(|c: [u8; 32]| minted(c, creator, now)));
}

/// Whether the registry records `n` as used.
pub fn is_used(reg: &Vec<NullifierSet>, n: &[u8; 32]) -> (r: bool)
    ensures
        r == is_spent(reg@, n@),
{
    let mut i: usize = 0;
    while i < reg.len()
        invariant
            0 <= i <= reg@.len(),
            forall|k: int| 0 <= k < i ==> !(reg@[k].used && reg@[k].nullifier@ == n@),
        decreases reg@.len() - i,
    {
        if reg[i].used && keys_equal(&reg[i].nullifier, n) {
            return true;
        }
        i = i + 1;
    }
    false
}

/// Whether a listed nullifier is already used or listed twice.
pub fn nullifiers_rejected(reg: &Vec<NullifierSet>, nulls: &Vec<[u8; 32]>) -> (r: bool)
    ensures
        r == nullifier_error(reg@, nulls@),
{
    if !all_distinct(nulls) {
        return true;
    }
    let mut j: usize = 0;
    while j < nulls.len()
        invariant
            0 <= j <= nulls@.len(),
            keys_distinct(nulls@),
            forall|a: int| 0 <= a < j ==> !is_spent(reg@, #[trigger] nulls@[a]@),
        decreases nulls@.len() - j,
    {
        if is_used(reg, &nulls[j]) {
            return true;
        }
        j = j + 1;
    }
    false
}

/// Some listed point is active.
pub open spec fn any_active(points: Seq<FloatingPoint>, keys: Seq<[u8; 32]>) -> bool {
    exists|i: int, j: int|
        0 <= i < points.len() && 0 <= j < keys.len() && #[trigger] points[i].commitment@
            == #[trigger] keys[j]@ && points[i].is_active
}

/// The listed points can be given back: each exists and is inactive.
pub open spec fn reactivation_error(points: Seq<FloatingPoint>, keys: Seq<[u8; 32]>) -> bool {
    !all_present(points, keys) || any_active(points, keys)
}

/// The store index of each listed point, when all exist and are inactive.
pub fn locate_inactive(points: &Vec<FloatingPoint>, keys: &Vec<[u8; 32]>) -> (r: Option<Vec<usize>>)
    requires
        point_keys_unique(points@),
    ensures
        r is None <==> reactivation_error(points@, keys@),
        r matches Some(idxs) ==> {
            &&& idxs@.len() == keys@.len()
            &&& forall|j: int|
                0 <= j < keys@.len() ==> {
                    &&& (#[trigger] idxs@[j]) < points@.len()
                    &&& points@[idxs@[j] as int].commitment@ == keys@[j]@
                    &&& !points@[idxs@[j] as int].is_active
                }
        },
{
    let mut idxs: Vec<usize> = Vec::new();
    let mut j: usize = 0;
    while j < keys.len()
        invariant
            0 <= j <= keys@.len(),
            idxs@.len() == j,
            forall|a: int|
                0 <= a < j ==> {
                    &&& (#[trigger] idxs@[a]) < points@.len()
                    &&& points@[idxs@[a] as int].commitment@ == keys@[a]@
                    &&& !points@[idxs@[a] as int].is_active
                },
        decreases keys@.len() - j,
    {
        match find_point(points, &keys[j]) {
            Some(i) => {
                if points[i].is_active {
                    assert(points@[i as int].commitment@ == keys@[j as int]@);
                    return None;
                }
                idxs.push(i);
            },
            None => {
                return None;
            },
        }
        j = j + 1;
    }
    assert(all_present(points@, keys@)) by {
        assert forall|a: int| 0 <= a < keys@.len() implies has_point(points@, #[trigger] keys@[a]@) by {
            assert(points@[idxs@[a] as int].commitment@ == keys@[a]@);
        }
    }
    assert(!any_active(points@, keys@)) by {
        assert forall|i: int, a: int|
            0 <= i < points@.len() && 0 <= a < keys@.len() && #[trigger] points@[i].commitment@
                == #[trigger] keys@[a]@ implies !points@[i].is_active by {
            assert(points@[idxs@[a] as int].commitment@ == keys@[a]@);
        }
    }
    Some(idxs)
}

/// A copy of the key list.
pub fn copy_keys(keys: &Vec<[u8; 32]>) -> (r: Vec<[u8; 32]>)
    ensures
        r@ == keys@,
{
    let mut out: Vec<[u8; 32]> = Vec::new();
    let mut j: usize = 0;
    while j < keys.len()
        invariant
            0 <= j <= keys@.len(),
            out@ == keys@.take(j as int),
        decreases keys@.len() - j,
    {
        out.push(keys[j]);
        j = j + 1;
        assert(out@ =~= keys@.take(j as int));
    }
    assert(keys@.take(keys@.len() as int) =~= keys@);
    out
}

} // verus!
