//! Per-track timing corrections: a global correction and anchors that
//! override it from a given playback time onwards.
use vstd::prelude::*;
use crate::text_map::TextMap;
use crate::types::{OffsetAnchor, OffsetRecord, TrackOffsetData};

verus! {

/// Whether the anchors are in strictly ascending order of time, so that no
/// two share a timestamp.
pub open spec fn anchors_ordered(anchors: Seq<OffsetAnchor>) -> bool {
    forall|i: int, j: int|
        0 <= i < j < anchors.len() ==> (#[trigger] anchors[i]).timestamp < (
        #[trigger] anchors[j]).timestamp
}

/// Whether the anchor at `i` applies at `timestamp`: it lies at or before it.
pub open spec fn applies(anchors: Seq<OffsetAnchor>, i: int, timestamp: u64) -> bool {
    0 <= i < anchors.len() && anchors[i].timestamp <= timestamp
}

/// Whether the anchor at `i` is the latest of those that apply at
/// `timestamp`.
pub open spec fn latest_applicable(anchors: Seq<OffsetAnchor>, i: int, timestamp: u64) -> bool {
    &&& applies(anchors, i, timestamp)
    &&& forall|j: int| #[trigger]
        applies(anchors, j, timestamp) ==> anchors[j].timestamp <= anchors[i].timestamp
}

/// The correction of a record at `timestamp`: that of the latest anchor at or
/// before it, or the global correction where no anchor applies.
pub open spec fn correction_of(anchors: Seq<OffsetAnchor>, global: i32, timestamp: u64) -> i32 {
    if exists|i: int| applies(anchors, i, timestamp) {
        anchors[choose|i: int| latest_applicable(anchors, i, timestamp)].offset
    } else {
        global
    }
}

/// The correction for a track at `timestamp`: 0 for a track without a record.
pub open spec fn correction_at(
    records: Map<Seq<char>, OffsetRecord>,
    track_id: Seq<char>,
    timestamp: u64,
) -> i32 {
    if records.contains_key(track_id) {
        correction_of(records[track_id].anchors, records[track_id].global_offset, timestamp)
    } else {
        0
    }
}

/// The record of a track, or the one a track starts with: no anchors and no
/// correction.
pub open spec fn record_or_new(
    records: Map<Seq<char>, OffsetRecord>,
    track_id: Seq<char>,
    now: i64,
) -> OffsetRecord {
    if records.contains_key(track_id) {
        records[track_id]
    } else {
        OffsetRecord {
            anchors: Seq::empty(),
            global_offset: 0,
            track_id: track_id,
            last_modified: now,
        }
    }
}

/// Whether `after` is `before` with `anchor` set: ordered, and holding
/// `anchor` and every anchor of `before` at another timestamp, and nothing
/// else.
pub open spec fn anchor_set(
    before: Seq<OffsetAnchor>,
    after: Seq<OffsetAnchor>,
    anchor: OffsetAnchor,
) -> bool {
    &&& anchors_ordered(after)
    &&& forall|x: OffsetAnchor| #[trigger]
        after.contains(x) <==> (x == anchor || (before.contains(x) && x.timestamp
            != anchor.timestamp))
}

/// Whether `after` is `before` without the anchor at `timestamp`: ordered,
/// and holding exactly the anchors of `before` at other timestamps.
pub open spec fn anchor_removed(
    before: Seq<OffsetAnchor>,
    after: Seq<OffsetAnchor>,
    timestamp: u64,
) -> bool {
    &&& anchors_ordered(after)
    &&& forall|x: OffsetAnchor| #[trigger]
        after.contains(x) <==> (before.contains(x) && x.timestamp != timestamp)
}

/// Whether some anchor lies at `timestamp`.
pub open spec fn has_anchor_at(anchors: Seq<OffsetAnchor>, timestamp: u64) -> bool {
    exists|i: int| 0 <= i < anchors.len() && (#[trigger] anchors[i]).timestamp == timestamp
}

/// Two ordered lists that hold the same anchors are one list.
pub proof fn lemma_ordered_anchors_equal(a: Seq<OffsetAnchor>, b: Seq<OffsetAnchor>)
    requires
        anchors_ordered(a),
        anchors_ordered(b),
        forall|x: OffsetAnchor| a.contains(x) <==> b.contains(x),
    ensures
        a == b,
    decreases a.len(),
{
    if a.len() == 0 {
        if b.len() > 0 {
            assert(b.contains(b[0]));
            assert(a.contains(b[0]));
        }
        assert(a =~= b);
    } else {
        let la = a.last();
        assert(a.contains(la));
        assert(b.contains(la));
        let j = choose|j: int| 0 <= j < b.len() && b[j] == la;
        let lb = b.last();
        assert(b.contains(lb));
        assert(a.contains(lb));
        let i = choose|i: int| 0 <= i < a.len() && a[i] == lb;
        if j < b.len() - 1 {
            assert(b[j].timestamp < b[b.len() - 1].timestamp);
            if i < a.len() - 1 {
                assert(a[i].timestamp < a[a.len() - 1].timestamp);
            }
        }
        assert(la == lb);
        let a0 = a.drop_last();
        let b0 = b.drop_last();
        assert forall|x: OffsetAnchor| a0.contains(x) <==> b0.contains(x) by {
            if a0.contains(x) {
                let k = choose|k: int| 0 <= k < a0.len() && a0[k] == x;
                assert(a[k] == x);
                assert(a[k].timestamp < a[a.len() - 1].timestamp);
                assert(a.contains(x));
                assert(b.contains(x));
                let m = choose|m: int| 0 <= m < b.len() && b[m] == x;
                assert(m < b.len() - 1);
                assert(b0[m] == x);
            }
            if b0.contains(x) {
                let k = choose|k: int| 0 <= k < b0.len() && b0[k] == x;
                assert(b[k] == x);
                assert(b[k].timestamp < b[b.len() - 1].timestamp);
                assert(b.contains(x));
                assert(a.contains(x));
                let m = choose|m: int| 0 <= m < a.len() && a[m] == x;
                assert(m < a.len() - 1);
                assert(a0[m] == x);
            }
        }
        assert(anchors_ordered(a0)) by {
            assert forall|p: int, q: int| 0 <= p < q < a0.len() implies (#[trigger] a0[p]).timestamp
                < (#[trigger] a0[q]).timestamp by {
                assert(a[p].timestamp < a[q].timestamp);
            }
        }
        assert(anchors_ordered(b0)) by {
            assert forall|p: int, q: int| 0 <= p < q < b0.len() implies (#[trigger] b0[p]).timestamp
                < (#[trigger] b0[q]).timestamp by {
                assert(b[p].timestamp < b[q].timestamp);
            }
        }
        lemma_ordered_anchors_equal(a0, b0);
        assert(a =~= a0.push(la));
        assert(b =~= b0.push(lb));
    }
}

/// Setting an anchor has one result: `anchor_set` holds of one list only.
pub proof fn lemma_anchor_set_unique(
    before: Seq<OffsetAnchor>,
    first: Seq<OffsetAnchor>,
    second: Seq<OffsetAnchor>,
    anchor: OffsetAnchor,
)
    requires
        anchor_set(before, first, anchor),
        anchor_set(before, second, anchor),
    ensures
        first == second,
{
    assert forall|x: OffsetAnchor| first.contains(x) <==> second.contains(x) by {}
    lemma_ordered_anchors_equal(first, second);
}

/// Removing an anchor has one result: `anchor_removed` holds of one list
/// only.
pub proof fn lemma_anchor_removed_unique(
    before: Seq<OffsetAnchor>,
    first: Seq<OffsetAnchor>,
    second: Seq<OffsetAnchor>,
    timestamp: u64,
)
    requires
        anchor_removed(before, first, timestamp),
        anchor_removed(before, second, timestamp),
    ensures
        first == second,
{
    assert forall|x: OffsetAnchor| first.contains(x) <==> second.contains(x) by {}
    lemma_ordered_anchors_equal(first, second);
}

/// Once an anchor is set, its correction applies from its timestamp up to
/// the next anchor: at every time from the anchor on before which no
/// other anchor lies later than it.
pub proof fn lemma_anchor_applies_once_set(
    before: Seq<OffsetAnchor>,
    after: Seq<OffsetAnchor>,
    anchor: OffsetAnchor,
    global: i32,
    timestamp: u64,
)
    requires
        anchor_set(before, after, anchor),
        anchor.timestamp <= timestamp,
        forall|i: int|
            0 <= i < before.len() && (#[trigger] before[i]).timestamp > anchor.timestamp
                ==> before[i].timestamp > timestamp,
    ensures
        correction_of(after, global, timestamp) == anchor.offset,
{
    assert(after.contains(anchor));
    let k = choose|k: int| 0 <= k < after.len() && after[k] == anchor;
    assert(applies(after, k, timestamp));
    assert forall|j: int| #[trigger] applies(after, j, timestamp) implies after[j].timestamp
        <= after[k].timestamp by {
        assert(after.contains(after[j]));
        if after[j] != anchor {
            assert(before.contains(after[j]));
            let w = choose|w: int| 0 <= w < before.len() && before[w] == after[j];
            assert(before[w].timestamp <= timestamp);
        }
    }
    assert(latest_applicable(after, k, timestamp));
    let c = choose|c: int| latest_applicable(after, c, timestamp);
    assert(applies(after, c, timestamp));
    assert(after[c].timestamp == after[k].timestamp);
    if c < k {
        assert(after[c].timestamp < after[k].timestamp);
    }
    if k < c {
        assert(after[k].timestamp < after[c].timestamp);
    }
}

/// The ordered anchors with `anchor` set: in place of the anchor at its
/// timestamp, or at its place in the order.
pub open spec fn anchors_with(anchors: Seq<OffsetAnchor>, anchor: OffsetAnchor) -> Seq<OffsetAnchor>
    decreases anchors.len(),
{
    if anchors.len() == 0 {
        seq![anchor]
    } else if anchors.last().timestamp < anchor.timestamp {
        anchors.push(anchor)
    } else if anchors.last().timestamp == anchor.timestamp {
        anchors.drop_last().push(anchor)
    } else {
        anchors_with(anchors.drop_last(), anchor).push(anchors.last())
    }
}

/// `anchors_with` sets the anchor as `anchor_set` says.
pub proof fn lemma_anchors_with(anchors: Seq<OffsetAnchor>, anchor: OffsetAnchor)
    requires
        anchors_ordered(anchors),
    ensures
        anchor_set(anchors, anchors_with(anchors, anchor), anchor),
    decreases anchors.len(),
{
    let r = anchors_with(anchors, anchor);
    if anchors.len() == 0 {
        assert forall|x: OffsetAnchor| #[trigger]
            r.contains(x) <==> (x == anchor || (anchors.contains(x) && x.timestamp
                != anchor.timestamp)) by {
            if x == anchor {
                assert(r[0] == x);
            }
        }
    } else {
        let n = anchors.len() as int;
        let last = anchors.last();
        let head = anchors.drop_last();
        assert(anchors_ordered(head)) by {
            assert forall|p: int, q: int| 0 <= p < q < head.len() implies (
            #[trigger] head[p]).timestamp < (#[trigger] head[q]).timestamp by {
                assert(anchors[p].timestamp < anchors[q].timestamp);
            }
        }
        assert forall|k: int| 0 <= k < head.len() implies (#[trigger] head[k]).timestamp
            < last.timestamp by {
            assert(anchors[k].timestamp < anchors[n - 1].timestamp);
        }
        if last.timestamp < anchor.timestamp || last.timestamp == anchor.timestamp {
            let kept = if last.timestamp < anchor.timestamp {
                anchors
            } else {
                head
            };
            assert(r == kept.push(anchor));
            assert forall|k: int| 0 <= k < kept.len() implies (#[trigger] kept[k]).timestamp
                < anchor.timestamp by {
                if k < head.len() {
                    assert(kept[k] == head[k]);
                } else {
                    assert(kept[k] == last);
                }
            }
            assert forall|p: int, q: int| 0 <= p < q < r.len() implies (#[trigger] r[p]).timestamp
                < (#[trigger] r[q]).timestamp by {
                assert(r[p] == kept[p]);
                if q < kept.len() {
                    assert(r[q] == kept[q]);
                    assert(anchors[p].timestamp < anchors[q].timestamp);
                }
            }
            assert forall|x: OffsetAnchor| #[trigger]
                r.contains(x) <==> (x == anchor || (anchors.contains(x) && x.timestamp
                    != anchor.timestamp)) by {
                if r.contains(x) {
                    let k = choose|k: int| 0 <= k < r.len() && r[k] == x;
                    if k < kept.len() {
                        assert(kept[k] == x);
                        assert(anchors[k] == x);
                    }
                }
                if x == anchor {
                    assert(r[kept.len() as int] == x);
                }
                if anchors.contains(x) && x.timestamp != anchor.timestamp {
                    let k = choose|k: int| 0 <= k < anchors.len() && anchors[k] == x;
                    assert(k < kept.len());
                    assert(r[k] == x);
                }
            }
        } else {
            lemma_anchors_with(head, anchor);
            let inner = anchors_with(head, anchor);
            assert(r == inner.push(last));
            assert forall|k: int| 0 <= k < inner.len() implies (#[trigger] inner[k]).timestamp
                < last.timestamp by {
                assert(inner.contains(inner[k]));
                if inner[k] != anchor {
                    assert(head.contains(inner[k]));
                    let w = choose|w: int| 0 <= w < head.len() && head[w] == inner[k];
                    assert(head[w].timestamp < last.timestamp);
                }
            }
            assert forall|p: int, q: int| 0 <= p < q < r.len() implies (#[trigger] r[p]).timestamp
                < (#[trigger] r[q]).timestamp by {
                assert(r[p] == inner[p]);
                if q < inner.len() {
                    assert(r[q] == inner[q]);
                }
            }
            assert forall|x: OffsetAnchor| #[trigger]
                r.contains(x) <==> (x == anchor || (anchors.contains(x) && x.timestamp
                    != anchor.timestamp)) by {
                if r.contains(x) {
                    let k = choose|k: int| 0 <= k < r.len() && r[k] == x;
                    if k < inner.len() {
                        assert(inner[k] == x);
                        assert(inner.contains(x));
                        if x != anchor {
                            assert(head.contains(x));
                            let w = choose|w: int| 0 <= w < head.len() && head[w] == x;
                            assert(anchors[w] == x);
                        }
                    } else {
                        assert(anchors[n - 1] == x);
                    }
                }
                if x == anchor {
                    assert(inner.contains(x));
                    let k = choose|k: int| 0 <= k < inner.len() && inner[k] == x;
                    assert(r[k] == x);
                }
                if anchors.contains(x) && x.timestamp != anchor.timestamp {
                    let k = choose|k: int| 0 <= k < anchors.len() && anchors[k] == x;
                    if k < n - 1 {
                        assert(head[k] == x);
                        assert(head.contains(x));
                        assert(inner.contains(x));
                        let w = choose|w: int| 0 <= w < inner.len() && inner[w] == x;
                        assert(r[w] == x);
                    } else {
                        assert(r[r.len() - 1] == x);
                    }
                }
            }
        }
    }
}

/// The anchors put in order: each set in turn, so that of two at one
/// timestamp the later stays.
pub open spec fn anchors_put_in_order(anchors: Seq<OffsetAnchor>) -> Seq<OffsetAnchor>
    decreases anchors.len(),
{
    if anchors.len() == 0 {
        Seq::empty()
    } else {
        anchors_with(anchors_put_in_order(anchors.drop_last()), anchors.last())
    }
}

/// Whether `x` is an anchor of the list that no later anchor of the list
/// replaces: none behind it lies at its timestamp.
pub open spec fn stays_in_order(anchors: Seq<OffsetAnchor>, x: OffsetAnchor) -> bool {
    exists|i: int| is_last_at_its_time(anchors, i, x)
}

/// Whether `x` is the anchor at `i` and no anchor behind `i` lies at its
/// timestamp.
pub open spec fn is_last_at_its_time(anchors: Seq<OffsetAnchor>, i: int, x: OffsetAnchor) -> bool {
    &&& 0 <= i < anchors.len()
    &&& anchors[i] == x
    &&& forall|j: int| i < j < anchors.len() ==> (#[trigger] anchors[j]).timestamp != x.timestamp
}

/// Anchors put in order are ordered and hold exactly the anchors that no
/// later one replaces; ordered anchors are left as they are.
pub proof fn lemma_anchors_put_in_order(anchors: Seq<OffsetAnchor>)
    ensures
        anchors_ordered(anchors_put_in_order(anchors)),
        forall|x: OffsetAnchor| #[trigger]
            anchors_put_in_order(anchors).contains(x) <==> stays_in_order(anchors, x),
        anchors_ordered(anchors) ==> anchors_put_in_order(anchors) == anchors,
    decreases anchors.len(),
{
    let r = anchors_put_in_order(anchors);
    if anchors.len() == 0 {
        assert forall|x: OffsetAnchor| #[trigger] r.contains(x) <==> stays_in_order(anchors, x) by {
            if stays_in_order(anchors, x) {
                let i = choose|i: int| is_last_at_its_time(anchors, i, x);
            }
        }
        assert(r =~= anchors);
    } else {
        let n = anchors.len() as int;
        let head = anchors.drop_last();
        let last = anchors.last();
        let p = anchors_put_in_order(head);
        lemma_anchors_put_in_order(head);
        lemma_anchors_with(p, last);
        assert forall|x: OffsetAnchor| #[trigger] r.contains(x) <==> stays_in_order(anchors, x) by {
            if r.contains(x) {
                if x == last {
                    assert(is_last_at_its_time(anchors, n - 1, x));
                } else {
                    assert(p.contains(x) && x.timestamp != last.timestamp);
                    assert(stays_in_order(head, x));
                    let i = choose|i: int| is_last_at_its_time(head, i, x);
                    assert forall|j: int| i < j < anchors.len() implies (
                    #[trigger] anchors[j]).timestamp != x.timestamp by {
                        if j < n - 1 {
                            assert(head[j] == anchors[j]);
                        }
                    }
                    assert(is_last_at_its_time(anchors, i, x));
                }
            }
            if stays_in_order(anchors, x) {
                let i = choose|i: int| is_last_at_its_time(anchors, i, x);
                if i < n - 1 {
                    assert forall|j: int| i < j < head.len() implies (
                    #[trigger] head[j]).timestamp != x.timestamp by {
                        assert(head[j] == anchors[j]);
                    }
                    assert(is_last_at_its_time(head, i, x));
                    assert(stays_in_order(head, x));
                    assert(p.contains(x));
                    assert(anchors[n - 1].timestamp != x.timestamp);
                }
            }
        }
        if anchors_ordered(anchors) {
            assert(anchors_ordered(head)) by {
                assert forall|a: int, b: int| 0 <= a < b < head.len() implies (
                #[trigger] head[a]).timestamp < (#[trigger] head[b]).timestamp by {
                    assert(anchors[a].timestamp < anchors[b].timestamp);
                }
            }
            assert(p == head);
            if head.len() > 0 {
                assert(head.last() == anchors[n - 2]);
                assert(anchors[n - 2].timestamp < anchors[n - 1].timestamp);
            }
            assert(r =~= anchors);
        }
    }
}

/// The correction among `anchors` at `timestamp`, or `global` where none
/// applies.
pub fn resolve_correction(anchors: &Vec<OffsetAnchor>, global: i32, timestamp: u64) -> (r: i32)
    requires
        anchors_ordered(anchors@),
    ensures
        r == correction_of(anchors@, global, timestamp),
{
    let mut best: Option<usize> = None;
    let mut i: usize = 0;
    while i < anchors.len()
        invariant
            i <= anchors.len(),
            anchors_ordered(anchors@),
            match best {
                Some(b) => b < i && applies(anchors@, b as int, timestamp) && forall|j: int|
                    0 <= j < i && #[trigger] applies(anchors@, j, timestamp)
                        ==> anchors@[j].timestamp <= anchors@[b as int].timestamp,
                None => forall|j: int| 0 <= j < i ==> !#[trigger] applies(anchors@, j, timestamp),
            },
        decreases anchors.len() - i,
    {
        if anchors[i].timestamp <= timestamp {
            let better = match best {
                Some(b) => anchors[i].timestamp > anchors[b].timestamp,
                None => true,
            };
            if better {
                best = Some(i);
            }
        }
        i += 1;
    }
    match best {
        Some(b) => {
            proof {
                assert(latest_applicable(anchors@, b as int, timestamp));
                let c = choose|c: int| latest_applicable(anchors@, c, timestamp);
                assert(applies(anchors@, c, timestamp));
                assert(applies(anchors@, b as int, timestamp));
                assert(anchors@[c].timestamp == anchors@[b as int].timestamp);
                if c < b {
                    assert(anchors@[c].timestamp < anchors@[b as int].timestamp);
                }
                if b < c {
                    assert(anchors@[b as int].timestamp < anchors@[c].timestamp);
                }
                assert(c == b);
            }
            anchors[b].offset
        },
        None => global,
    }
}

/// Whether the anchors are in strictly ascending order of time.
pub fn anchors_in_order(anchors: &Vec<OffsetAnchor>) -> (r: bool)
    ensures
        r == anchors_ordered(anchors@),
{
    let mut i: usize = 1;
    while i < anchors.len()
        invariant
            1 <= i,
            forall|a: int, b: int|
                0 <= a < b < i && b < anchors.len() ==> (#[trigger] anchors@[a]).timestamp < (
                #[trigger] anchors@[b]).timestamp,
        decreases anchors.len() - i,
    {
        if anchors[i - 1].timestamp >= anchors[i].timestamp {
            return false;
        }
        proof {
            assert forall|a: int, b: int| 0 <= a < b < i + 1 && b < anchors.len() implies (
            #[trigger] anchors@[a]).timestamp < (#[trigger] anchors@[b]).timestamp by {
                if b == i && a < i - 1 {
                    assert(anchors@[a].timestamp < anchors@[i - 1].timestamp);
                }
            }
        }
        i += 1;
    }
    true
}

/// The ordered anchors with `anchor` set: it replaces the anchor at its
/// timestamp, or takes its place in the order.
pub fn insert_anchor(anchors: &Vec<OffsetAnchor>, anchor: OffsetAnchor) -> (r: Vec<OffsetAnchor>)
    requires
        anchors_ordered(anchors@),
    ensures
        anchor_set(anchors@, r@, anchor),
        r@ == anchors_with(anchors@, anchor),
{
    let mut out: Vec<OffsetAnchor> = Vec::new();
    let mut i: usize = 0;
    while i < anchors.len() && anchors[i].timestamp < anchor.timestamp
        invariant
            i <= anchors.len(),
            anchors_ordered(anchors@),
            out@ == anchors@.subrange(0, i as int),
            forall|k: int| 0 <= k < i ==> (#[trigger] anchors@[k]).timestamp < anchor.timestamp,
        decreases anchors.len() - i,
    {
        out.push(anchors[i]);
        assert(out@ =~= anchors@.subrange(0, i + 1));
        i += 1;
    }
    let ghost low = i as int;
    out.push(anchor);
    if i < anchors.len() && anchors[i].timestamp == anchor.timestamp {
        i += 1;
    }
    let ghost high = i as int;
    assert(forall|k: int| high <= k < anchors.len() ==> (#[trigger] anchors@[k]).timestamp
        > anchor.timestamp) by {
        assert forall|k: int| high <= k < anchors.len() implies (#[trigger] anchors@[k]).timestamp
            > anchor.timestamp by {
            if low < anchors.len() {
                if k > low {
                    assert(anchors@[low].timestamp < anchors@[k].timestamp);
                }
            }
        }
    }
    while i < anchors.len()
        invariant
            high <= i <= anchors.len(),
            0 <= low <= high <= low + 1,
            anchors_ordered(anchors@),
            out@ == anchors@.subrange(0, low).push(anchor) + anchors@.subrange(high, i as int),
        decreases anchors.len() - i,
    {
        out.push(anchors[i]);
        assert(out@ =~= anchors@.subrange(0, low).push(anchor) + anchors@.subrange(
            high,
            i + 1,
        ));
        i += 1;
    }
    proof {
        let r = out@;
        assert(r.len() == low + 1 + (anchors.len() - high));
        assert forall|a: int, b: int| 0 <= a < b < r.len() implies (#[trigger] r[a]).timestamp < (
        #[trigger] r[b]).timestamp by {
            if a < low {
                assert(r[a] == anchors@[a]);
            } else if a > low {
                assert(r[a] == anchors@[a - low - 1 + high]);
            }
            if b < low {
                assert(r[b] == anchors@[b]);
            } else if b > low {
                assert(r[b] == anchors@[b - low - 1 + high]);
            }
        }
        assert forall|x: OffsetAnchor| #[trigger]
            r.contains(x) <==> (x == anchor || (anchors@.contains(x) && x.timestamp
                != anchor.timestamp)) by {
            if r.contains(x) {
                let k = choose|k: int| 0 <= k < r.len() && r[k] == x;
                if k < low {
                    assert(anchors@[k] == x);
                } else if k > low {
                    assert(anchors@[k - low - 1 + high] == x);
                }
            }
            if x == anchor {
                assert(r[low] == x);
            }
            if anchors@.contains(x) && x.timestamp != anchor.timestamp {
                let k = choose|k: int| 0 <= k < anchors@.len() && anchors@[k] == x;
                if k < low {
                    assert(r[k] == x);
                } else {
                    if k < high {
                        assert(k == low);
                        assert(anchors@[k].timestamp == anchor.timestamp);
                    }
                    assert(r[k - high + low + 1] == x);
                }
            }
        }
        lemma_anchors_with(anchors@, anchor);
        lemma_anchor_set_unique(anchors@, r, anchors_with(anchors@, anchor), anchor);
    }
    out
}

/// The anchors put in order, the later of two at one timestamp staying.
pub fn put_anchors_in_order(anchors: &Vec<OffsetAnchor>) -> (r: Vec<OffsetAnchor>)
    ensures
        r@ == anchors_put_in_order(anchors@),
        anchors_ordered(r@),
{
    proof {
        lemma_anchors_put_in_order(anchors@);
    }
    if anchors_in_order(anchors) {
        return crate::types::clone_anchors(anchors);
    }
    let mut out: Vec<OffsetAnchor> = Vec::new();
    let mut i: usize = 0;
    assert(anchors@.subrange(0, 0) =~= Seq::<OffsetAnchor>::empty());
    while i < anchors.len()
        invariant
            i <= anchors.len(),
            out@ == anchors_put_in_order(anchors@.subrange(0, i as int)),
            anchors_ordered(out@),
        decreases anchors.len() - i,
    {
        proof {
            let next = anchors@.subrange(0, i + 1);
            assert(next.drop_last() =~= anchors@.subrange(0, i as int));
            assert(next.last() == anchors@[i as int]);
            lemma_anchors_put_in_order(next);
        }
        out = insert_anchor(&out, anchors[i]);
        i += 1;
    }
    assert(anchors@.subrange(0, anchors.len() as int) =~= anchors@);
    out
}

/// The ordered anchors without the one at `timestamp`.
pub fn without_anchor(anchors: &Vec<OffsetAnchor>, timestamp: u64) -> (r: Vec<OffsetAnchor>)
    requires
        anchors_ordered(anchors@),
    ensures
        anchor_removed(anchors@, r@, timestamp),
        r@.len() < anchors@.len() <==> has_anchor_at(anchors@, timestamp),
        r@.len() <= anchors@.len(),
        !has_anchor_at(anchors@, timestamp) ==> r@ == anchors@,
{
    let mut out: Vec<OffsetAnchor> = Vec::new();
    let ghost mut origin: Seq<int> = Seq::empty();
    let mut i: usize = 0;
    while i < anchors.len()
        invariant
            i <= anchors.len(),
            anchors_ordered(anchors@),
            out@.len() == origin.len(),
            out@.len() <= i,
            forall|k: int| 0 <= k < origin.len() ==> 0 <= #[trigger] origin[k] < i && out@[k]
                == anchors@[origin[k]] && out@[k].timestamp != timestamp,
            forall|a: int, b: int| 0 <= a < b < origin.len() ==> origin[a] < origin[b],
            forall|k: int|
                0 <= k < i && (#[trigger] anchors@[k]).timestamp != timestamp ==> out@.contains(
                    anchors@[k],
                ),
            out@.len() < i <==> exists|k: int|
                0 <= k < i && (#[trigger] anchors@[k]).timestamp == timestamp,
            out@.len() == i ==> out@ == anchors@.subrange(0, i as int),
        decreases anchors.len() - i,
    {
        let ghost prev = out@;
        if anchors[i].timestamp != timestamp {
            out.push(anchors[i]);
            proof {
                let ghost prev_origin = origin;
                origin = origin.push(i as int);
                assert forall|k: int| 0 <= k < origin.len() implies 0 <= #[trigger] origin[k] < i
                    + 1 && out@[k] == anchors@[origin[k]] && out@[k].timestamp != timestamp by {
                    if k < prev.len() {
                        assert(origin[k] == prev_origin[k]);
                        assert(out@[k] == prev[k]);
                    }
                }
                assert forall|a: int, b: int| 0 <= a < b < origin.len() implies origin[a]
                    < origin[b] by {
                    assert(origin[a] == prev_origin[a]);
                    if b < prev.len() {
                        assert(origin[b] == prev_origin[b]);
                    }
                }
                assert forall|k: int|
                    0 <= k < i + 1 && (#[trigger] anchors@[k]).timestamp
                        != timestamp implies out@.contains(anchors@[k]) by {
                    if k < i {
                        let w = choose|w: int| 0 <= w < prev.len() && prev[w] == anchors@[k];
                        assert(out@[w] == anchors@[k]);
                    } else {
                        assert(out@[out@.len() - 1] == anchors@[k]);
                    }
                }
                if out@.len() == i + 1 {
                    assert(out@ =~= anchors@.subrange(0, i + 1));
                }
            }
        } else {
            assert(anchors@[i as int].timestamp == timestamp);
        }
        i += 1;
    }
    proof {
        let r = out@;
        assert forall|a: int, b: int| 0 <= a < b < r.len() implies (#[trigger] r[a]).timestamp < (
        #[trigger] r[b]).timestamp by {
            assert(origin[a] < origin[b]);
            assert(anchors@[origin[a]].timestamp < anchors@[origin[b]].timestamp);
        }
        assert forall|x: OffsetAnchor| #[trigger]
            r.contains(x) <==> (anchors@.contains(x) && x.timestamp != timestamp) by {
            if r.contains(x) {
                let k = choose|k: int| 0 <= k < r.len() && r[k] == x;
                assert(anchors@[origin[k]] == x);
            }
            if anchors@.contains(x) && x.timestamp != timestamp {
                let k = choose|k: int| 0 <= k < anchors@.len() && anchors@[k] == x;
                assert(r.contains(anchors@[k]));
            }
        }
        if r.len() == anchors@.len() {
            assert(r =~= anchors@);
        }
    }
    out
}

/// The persisted form of every track's corrections.
pub struct OffsetCache {
    pub tracks: TextMap<TrackOffsetData>,
    pub version: u32,
}

/// A record with its anchors put in order.
pub open spec fn record_in_order(record: OffsetRecord) -> OffsetRecord {
    OffsetRecord { anchors: anchors_put_in_order(record.anchors), ..record }
}

/// Whether a stored record under `key` is valid: it names its key and its
/// anchors are ordered.
pub open spec fn record_valid(key: Seq<char>, record: OffsetRecord) -> bool {
    record.track_id == key && anchors_ordered(record.anchors)
}

impl OffsetCache {
    /// Whether the cache is well formed: every record is valid under its key.
    pub open spec fn wf(&self) -> bool {
        &&& self.tracks.wf()
        &&& forall|k: Seq<char>| #[trigger]
            self.tracks@.contains_key(k) ==> record_valid(k, self.tracks@[k]@)
    }

    /// The records by track identity.
    pub open spec fn view(&self) -> Map<Seq<char>, OffsetRecord> {
        Map::new(|k: Seq<char>| self.tracks@.contains_key(k), |k: Seq<char>| self.tracks@[k]@)
    }

    /// A copy of the cache.
    fn duplicate(&self) -> (r: OffsetCache)
        requires
            self.wf(),
        ensures
            r.wf(),
            r@ == self@,
            r.version == self.version,
            r.tracks.keys() == self.tracks.keys(),
    {
        let mut tracks: TextMap<TrackOffsetData> = TextMap::new();
        let mut i: usize = 0;
        let ghost ks = self.tracks.keys();
        proof {
            self.tracks.lemma_view();
        }
        while i < self.tracks.len()
            invariant
                i <= ks.len(),
                ks == self.tracks.keys(),
                self.wf(),
                tracks.wf(),
                tracks.keys() == ks.subrange(0, i as int),
                forall|k: Seq<char>| #[trigger]
                    tracks@.contains_key(k) <==> exists|j: int| 0 <= j < i && #[trigger] ks[j] == k,
                forall|k: Seq<char>| #[trigger]
                    tracks@.contains_key(k) ==> tracks@[k]@ == self.tracks@[k]@,
            decreases ks.len() - i,
        {
            let key = self.tracks.key_at(i).clone();
            let value = self.tracks.value_at(i).clone();
            let ghost before = tracks;
            proof {
                self.tracks.lemma_view();
                if before@.contains_key(key@) {
                    let j = choose|j: int| 0 <= j < i && #[trigger] ks[j] == key@;
                    assert(ks[j] == ks[i as int]);
                }
            }
            tracks.insert(key, value);
            proof {
                assert(ks.subrange(0, i + 1) =~= ks.subrange(0, i as int).push(ks[i as int]));
                assert forall|k: Seq<char>| #[trigger]
                    tracks@.contains_key(k) <==> exists|j: int|
                        0 <= j < i + 1 && #[trigger] ks[j] == k by {
                    if before@.contains_key(k) {
                        let j = choose|j: int| 0 <= j < i && #[trigger] ks[j] == k;
                        assert(0 <= j < i + 1 && ks[j] == k);
                    }
                    if k == key@ {
                        assert(ks[i as int] == k);
                    }
                }
            }
            i += 1;
        }
        let r = OffsetCache { tracks, version: self.version };
        proof {
            self.tracks.lemma_view();
            assert(ks.subrange(0, ks.len() as int) =~= ks);
            assert forall|k: Seq<char>| r.tracks@.contains_key(k) <==> self.tracks@.contains_key(
                k,
            ) by {
                if r.tracks@.contains_key(k) {
                    let j = choose|j: int| 0 <= j < ks.len() && #[trigger] ks[j] == k;
                    assert(self.tracks@.contains_key(ks[j]));
                }
                if self.tracks@.contains_key(k) {
                    assert(ks.contains(k));
                    let j = choose|j: int| 0 <= j < ks.len() && ks[j] == k;
                    assert(ks[j] == k);
                }
            }
            assert(r@ =~= self@);
        }
        r
    }
}

/// The store of timing corrections, by track identity.
pub struct OffsetManager {
    cache: OffsetCache,
}

/// The records with the global correction of a track set.
pub open spec fn with_global_offset(
    records: Map<Seq<char>, OffsetRecord>,
    track_id: Seq<char>,
    offset: i32,
    now: i64,
) -> Map<Seq<char>, OffsetRecord> {
    records.insert(
        track_id,
        OffsetRecord {
            anchors: record_or_new(records, track_id, now).anchors,
            global_offset: offset,
            track_id: track_id,
            last_modified: now,
        },
    )
}

/// The global correction of a track, 0 without a record, plus `delta`.
pub open spec fn correction_sum(
    records: Map<Seq<char>, OffsetRecord>,
    track_id: Seq<char>,
    delta: i32,
) -> int {
    (if records.contains_key(track_id) {
        records[track_id].global_offset
    } else {
        0
    }) + delta
}

/// Whether `after` is `before` with an anchor of a track set at time `now`:
/// only that track's record differs, and in it only the anchors, as
/// `anchor_set` says, and the time of modification.
pub open spec fn anchor_set_in(
    before: Map<Seq<char>, OffsetRecord>,
    after: Map<Seq<char>, OffsetRecord>,
    track_id: Seq<char>,
    anchor: OffsetAnchor,
    now: i64,
) -> bool {
    &&& after.dom() == before.dom().insert(track_id)
    &&& forall|k: Seq<char>| before.contains_key(k) && k != track_id ==> #[trigger] after[k] == before[k]
    &&& after[track_id].track_id == track_id
    &&& after[track_id].global_offset == record_or_new(before, track_id, now).global_offset
    &&& after[track_id].last_modified == now
    &&& anchor_set(record_or_new(before, track_id, now).anchors, after[track_id].anchors, anchor)
}

/// The records with the anchor of a track at `timestamp` removed, where
/// there is one; unchanged where there is none.
pub open spec fn anchor_removed_in(
    before: Map<Seq<char>, OffsetRecord>,
    after: Map<Seq<char>, OffsetRecord>,
    track_id: Seq<char>,
    timestamp: u64,
    now: i64,
) -> bool {
    if before.contains_key(track_id) && has_anchor_at(before[track_id].anchors, timestamp) {
        &&& after.dom() == before.dom()
        &&& forall|k: Seq<char>| before.contains_key(k) && k != track_id ==> #[trigger] after[k] == before[k]
        &&& after[track_id].track_id == track_id
        &&& after[track_id].global_offset == before[track_id].global_offset
        &&& after[track_id].last_modified == now
        &&& anchor_removed(before[track_id].anchors, after[track_id].anchors, timestamp)
    } else {
        after == before
    }
}

impl OffsetManager {
    /// Whether the store is well formed.
    pub closed spec fn wf(&self) -> bool {
        self.cache.wf()
    }

    /// The records by track identity.
    pub closed spec fn view(&self) -> Map<Seq<char>, OffsetRecord> {
        self.cache@
    }

    /// The format version of the persisted form.
    pub closed spec fn version(&self) -> u32 {
        self.cache.version
    }

    /// Every record of a well-formed store is valid under its key.
    pub proof fn lemma_records_valid(&self)
        requires
            self.wf(),
        ensures
            forall|k: Seq<char>| #[trigger] self@.contains_key(k) ==> record_valid(k, self@[k]),
    {
    }

    /// An empty store.
    pub fn new() -> (r: Self)
        ensures
            r.wf(),
            r@ == Map::<Seq<char>, OffsetRecord>::empty(),
            r.version() == 1,
    {
        let r = OffsetManager { cache: OffsetCache { tracks: TextMap::new(), version: 1 } };
        assert(r@ =~= Map::<Seq<char>, OffsetRecord>::empty());
        r
    }

    /// Replaces the records by those read from the backing store, each
    /// under the track that it names and with its anchors put in order; of
    /// two for one track the later stays.
    pub fn load_cache(&mut self, records: Vec<TrackOffsetData>, version: u32)
        requires
            old(self).wf(),
        ensures
            final(self).wf(),
            final(self).version() == version,
            forall|k: Seq<char>| #[trigger]
                final(self)@.contains_key(k) <==> exists|i: int|
                    0 <= i < records.len() && (#[trigger] records@[i]).track_id@ == k,
            forall|i: int|
                0 <= i < records.len() && (forall|j: int|
                    i < j < records.len() ==> (#[trigger] records@[j]).track_id@
                        != records@[i].track_id@) ==> final(self)@[(
                #[trigger] records@[i]).track_id@] == record_in_order(records@[i]@),
    {
        self.cache.tracks.clear();
        self.cache.version = version;
        assert(self@ =~= Map::<Seq<char>, OffsetRecord>::empty());
        for record in iter: records
            invariant
                iter.seq() == records@,
                self.wf(),
                self.cache.version == version,
                forall|k: Seq<char>| #[trigger]
                    self@.contains_key(k) <==> exists|w: int|
                        0 <= w < iter.index() && (#[trigger] records@[w]).track_id@ == k,
                forall|w: int|
                    0 <= w < iter.index() && (forall|j: int|
                        w < j < iter.index() ==> (#[trigger] records@[j]).track_id@
                            != records@[w].track_id@) ==> self@[(
                    #[trigger] records@[w]).track_id@] == record_in_order(records@[w]@),
        {
            let ghost i = iter.index() as int;
            let ghost before = self@;
            let ordered = TrackOffsetData {
                anchors: put_anchors_in_order(&record.anchors),
                global_offset: record.global_offset,
                track_id: record.track_id,
                last_modified: record.last_modified,
            };
            assert(ordered@ == record_in_order(records@[i]@));
            self.put(ordered);
            proof {
                assert forall|k: Seq<char>| #[trigger]
                    self@.contains_key(k) <==> exists|w: int|
                        0 <= w < i + 1 && (#[trigger] records@[w]).track_id@ == k by {
                    if before.contains_key(k) {
                        let w = choose|w: int|
                            0 <= w < i && (#[trigger] records@[w]).track_id@ == k;
                        assert(0 <= w < i + 1 && records@[w].track_id@ == k);
                    }
                    if k == ordered@.track_id {
                        assert(records@[i].track_id@ == k);
                    }
                }
                assert forall|w: int|
                    0 <= w < i + 1 && (forall|j: int|
                        w < j < i + 1 ==> (#[trigger] records@[j]).track_id@
                            != records@[w].track_id@) implies self@[(
                #[trigger] records@[w]).track_id@] == record_in_order(records@[w]@) by {
                    if w < i {
                        assert(records@[i].track_id@ != records@[w].track_id@);
                        assert(forall|j: int|
                            w < j < i ==> (#[trigger] records@[j]).track_id@
                                != records@[w].track_id@);
                    }
                }
            }
        }
    }

    /// Starts from the records that the backing store held, if they could
    /// be read, with the version it gave, and says whether there were any
    /// to take in; without them the store stays as it is.
    pub fn initialize(&mut self, saved: Option<Vec<TrackOffsetData>>, version: u32) -> (r: bool)
        requires
            old(self).wf(),
        ensures
            final(self).wf(),
            r == saved is Some,
            !r ==> final(self)@ == old(self)@ && final(self).version() == old(self).version(),
            r ==> final(self).version() == version,
            r ==> forall|k: Seq<char>| #[trigger]
                final(self)@.contains_key(k) <==> exists|i: int|
                    0 <= i < saved->0.len() && (#[trigger] saved->0@[i]).track_id@ == k,
            r ==> forall|i: int|
                0 <= i < saved->0.len() && (forall|j: int|
                    i < j < saved->0.len() ==> (#[trigger] saved->0@[j]).track_id@
                        != saved->0@[i].track_id@) ==> final(self)@[(
                #[trigger] saved->0@[i]).track_id@] == record_in_order(saved->0@[i]@),
    {
        match saved {
            Some(records) => {
                self.load_cache(records, version);
                true
            },
            None => false,
        }
    }

    /// A copy of the records, to be written to the backing store.
    pub fn snapshot(&self) -> (r: OffsetCache)
        requires
            self.wf(),
        ensures
            r.wf(),
            r@ == self@,
            r.version == self.version(),
    {
        self.cache.duplicate()
    }

    /// The correction for a track at a playback time.
    pub fn get_offset_for_timestamp(&self, track_id: &str, timestamp: u64) -> (r: i32)
        requires
            self.wf(),
        ensures
            r == correction_at(self@, track_id@, timestamp),
    {
        match self.cache.tracks.get(track_id) {
            Some(record) => resolve_correction(&record.anchors, record.global_offset, timestamp),
            None => 0,
        }
    }

    /// The record of a track, or the one it starts with.
    fn record_or_default(&self, track_id: &str, now: i64) -> (r: TrackOffsetData)
        requires
            self.wf(),
        ensures
            r@ == record_or_new(self@, track_id@, now),
            record_valid(track_id@, r@),
    {
        match self.cache.tracks.get(track_id) {
            Some(record) => record.clone(),
            None => TrackOffsetData {
                anchors: Vec::new(),
                global_offset: 0,
                track_id: String::from_str(track_id),
                last_modified: now,
            },
        }
    }

    /// Stores a valid record under its track identity.
    fn put(&mut self, record: TrackOffsetData)
        requires
            old(self).wf(),
            anchors_ordered(record@.anchors),
        ensures
            final(self).wf(),
            final(self)@ == old(self)@.insert(record@.track_id, record@),
            final(self).version() == old(self).version(),
    {
        let ghost before = self.cache.tracks@;
        let key = record.track_id.clone();
        self.cache.tracks.insert(key, record);
        assert(self@ =~= old(self)@.insert(record@.track_id, record@));
    }

    /// Sets the global correction of a track, creating its record if need
    /// be. `now` becomes the record's time of modification.
    pub fn set_global_offset(&mut self, track_id: &str, offset: i32, now: i64)
        requires
            old(self).wf(),
        ensures
            final(self).wf(),
            final(self)@ == with_global_offset(old(self)@, track_id@, offset, now),
            final(self).version() == old(self).version(),
    {
        let mut record = self.record_or_default(track_id, now);
        record.global_offset = offset;
        record.last_modified = now;
        self.put(record);
    }

    /// Adds `delta` to the global correction of a track and returns the
    /// new correction.
    pub fn adjust_offset(&mut self, track_id: &str, offset_delta: i32, now: i64) -> (r: i32)
        requires
            old(self).wf(),
            i32::MIN <= correction_sum(old(self)@, track_id@, offset_delta) <= i32::MAX,
        ensures
            final(self).wf(),
            r == correction_sum(old(self)@, track_id@, offset_delta),
            final(self)@ == with_global_offset(old(self)@, track_id@, r, now),
            final(self).version() == old(self).version(),
    {
        let adjusted = self.get_global_offset(track_id) + offset_delta;
        self.set_global_offset(track_id, adjusted, now);
        adjusted
    }

    /// Sets the anchor of a track at `timestamp`, in place of any anchor
    /// that was there, keeping the anchors ordered.
    pub fn set_anchor_offset(&mut self, track_id: &str, timestamp: u64, offset: i32, now: i64)
        requires
            old(self).wf(),
        ensures
            final(self).wf(),
            anchor_set_in(
                old(self)@,
                final(self)@,
                track_id@,
                OffsetAnchor { timestamp, offset },
                now,
            ),
            final(self).version() == old(self).version(),
    {
        let mut record = self.record_or_default(track_id, now);
        record.anchors = insert_anchor(&record.anchors, OffsetAnchor { timestamp, offset });
        record.last_modified = now;
        self.put(record);
        assert(self@.dom() =~= old(self)@.dom().insert(track_id@));
    }

    /// Removes the anchor of a track at `timestamp` and says whether there
    /// was one. Only then does the store change and need writing back.
    pub fn remove_anchor(&mut self, track_id: &str, timestamp: u64, now: i64) -> (r: bool)
        requires
            old(self).wf(),
        ensures
            final(self).wf(),
            r == (old(self)@.contains_key(track_id@) && has_anchor_at(
                old(self)@[track_id@].anchors,
                timestamp,
            )),
            anchor_removed_in(old(self)@, final(self)@, track_id@, timestamp, now),
            final(self).version() == old(self).version(),
    {
        if !self.cache.tracks.contains_key(track_id) {
            return false;
        }
        let mut record = self.record_or_default(track_id, now);
        let kept = without_anchor(&record.anchors, timestamp);
        if kept.len() < record.anchors.len() {
            record.anchors = kept;
            record.last_modified = now;
            self.put(record);
            assert(self@.dom() =~= old(self)@.dom());
            true
        } else {
            false
        }
    }

    /// Drops the whole record of a track.
    pub fn reset_track_offsets(&mut self, track_id: &str)
        requires
            old(self).wf(),
        ensures
            final(self).wf(),
            final(self)@ == old(self)@.remove(track_id@),
            final(self).version() == old(self).version(),
    {
        self.cache.tracks.remove(track_id);
        assert(self@ =~= old(self)@.remove(track_id@));
    }

    /// The anchors of a track, in order; none for a track without a record.
    pub fn get_track_anchors(&self, track_id: &str) -> (r: Vec<OffsetAnchor>)
        requires
            self.wf(),
        ensures
            r@ == if self@.contains_key(track_id@) {
                self@[track_id@].anchors
            } else {
                Seq::<OffsetAnchor>::empty()
            },
    {
        match self.cache.tracks.get(track_id) {
            Some(record) => crate::types::clone_anchors(&record.anchors),
            None => Vec::new(),
        }
    }

    /// The global correction of a track; 0 for a track without a record.
    pub fn get_global_offset(&self, track_id: &str) -> (r: i32)
        requires
            self.wf(),
        ensures
            r == if self@.contains_key(track_id@) {
                self@[track_id@].global_offset
            } else {
                0
            },
    {
        match self.cache.tracks.get(track_id) {
            Some(record) => record.global_offset,
            None => 0,
        }
    }

    /// Drops every record.
    pub fn clear_all_offsets(&mut self)
        requires
            old(self).wf(),
        ensures
            final(self).wf(),
            final(self)@ == Map::<Seq<char>, OffsetRecord>::empty(),
            final(self).version() == old(self).version(),
    {
        self.cache.tracks.clear();
        assert(self@ =~= Map::<Seq<char>, OffsetRecord>::empty());
    }
}

} // verus!
