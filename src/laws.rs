//! Properties of reconciliation cycles, proved over the cycle model.
use crate::engine::{
    apply_write, classification_of, cycle, first_reply, key_of, lookup, plan_of, rest_replies,
    resume_ok, step, write_of, ActionView, CallView, Classification, CycleView, EventView,
    EntryError, StageView, StoreError, StoreMap,
};
use crate::feed::EntryView;
use crate::render::rendering;
use vstd::prelude::*;

verus! {

/// Every sink call answered, and successfully.
pub open spec fn all_answered(r: Seq<Option<int>>, calls: int) -> bool {
    &&& r.len() >= calls
    &&& forall|k: int| 0 <= k < r.len() ==> (#[trigger] r[k]) is Some
}

/// The entry needs no sink call against `s`.
pub open spec fn settled(s: StoreMap, target: int, e: EntryView, hint: Seq<char>) -> bool {
    match key_of(e) {
        Err(_) => true,
        Ok((g, _)) => !(plan_of(e, lookup(s, (target, g)), hint) matches Ok(Some(_))),
    }
}

/// A cycle over `a + b` is the cycle over `a` followed by the cycle over
/// `b` from where it left the store and the replies: calls are made in
/// feed order.
pub proof fn lemma_cycle_append(
    s: StoreMap,
    target: int,
    a: Seq<EntryView>,
    b: Seq<EntryView>,
    hint: Seq<char>,
    r: Seq<Option<int>>,
)
    ensures
        ({
            let (c1, s1, r1) = cycle(s, target, a, hint, r);
            let (c2, s2, r2) = cycle(s1, target, b, hint, r1);
            cycle(s, target, a + b, hint, r) == (c1 + c2, s2, r2)
        }),
    decreases a.len(),
{
    if a.len() == 0 {
        assert(a + b =~= b);
        let (c2, s2, r2) = cycle(s, target, b, hint, r);
        assert(Seq::<CallView>::empty() + c2 =~= c2);
    } else {
        let ab = a + b;
        assert(ab[0] == a[0]);
        assert(ab.drop_first() =~= a.drop_first() + b);
        let (c, s1) = step(s, target, a[0], hint, first_reply(r));
        match c {
            None => {
                lemma_cycle_append(s1, target, a.drop_first(), b, hint, r);
            },
            Some(call) => {
                lemma_cycle_append(s1, target, a.drop_first(), b, hint, rest_replies(r));
                let (c1, s1a, r1) = cycle(s1, target, a.drop_first(), hint, rest_replies(r));
                let (c2, s2, r2) = cycle(s1a, target, b, hint, r1);
                assert(seq![call] + (c1 + c2) =~= (seq![call] + c1) + c2);
            },
        }
    }
}

/// An entry whose rendering fails changes nothing: the entries before and
/// after it make the same calls and leave the same store as without it.
pub proof fn lemma_failed_entry_is_isolated(
    s: StoreMap,
    target: int,
    pre: Seq<EntryView>,
    e: EntryView,
    post: Seq<EntryView>,
    hint: Seq<char>,
    r: Seq<Option<int>>,
)
    requires
        rendering(e, hint) is Err,
    ensures
        cycle(s, target, pre + seq![e] + post, hint, r) == cycle(s, target, pre + post, hint, r),
{
    assert(pre + seq![e] + post =~= pre + (seq![e] + post));
    lemma_cycle_append(s, target, pre, seq![e] + post, hint, r);
    lemma_cycle_append(s, target, pre, post, hint, r);
    let (c1, s1, r1) = cycle(s, target, pre, hint, r);
    let ep = seq![e] + post;
    assert(ep[0] == e);
    assert(ep.drop_first() =~= post);
    assert(step(s1, target, e, hint, first_reply(r1)) == (None::<CallView>, s1));
}

/// One entry against the store: with no record, one create and one insert
/// of the new message with the entry's date; with an older record, one
/// edit of the recorded message and an update that keeps its id; with a
/// record as new or newer, no call and no write.
pub proof fn lemma_classification(
    s: StoreMap,
    target: int,
    e: EntryView,
    hint: Seq<char>,
    id: int,
)
    requires
        key_of(e) is Ok,
        rendering(e, hint) is Ok,
    ensures
        ({
            let (g, p) = key_of(e)->Ok_0;
            let n = rendering(e, hint)->Ok_0;
            let (calls, s2, _) = cycle(s, target, seq![e], hint, seq![Some(id)]);
            match lookup(s, (target, g)) {
                None => calls == seq![CallView::Create(n)] && s2 == s.insert((target, g), (id, p)),
                Some((m, q)) => if q < p {
                    calls == seq![CallView::Edit(m, n)] && s2 == s.insert((target, g), (m, p))
                } else {
                    calls == Seq::<CallView>::empty() && s2 == s
                },
            }
        }),
{
    let es = seq![e];
    assert(es[0] == e);
    assert(es.drop_first() =~= Seq::<EntryView>::empty());
    let r = seq![Some(id)];
    assert(first_reply(r) == Some(id));
    let (c, s1) = step(s, target, e, hint, Some(id));
    let empty = Seq::<EntryView>::empty();
    assert(cycle(s1, target, empty, hint, r) == (Seq::<CallView>::empty(), s1, r));
    assert(cycle(s1, target, empty, hint, rest_replies(r)) == (
        Seq::<CallView>::empty(),
        s1,
        rest_replies(r),
    ));
    if let Some(x) = c {
        assert(seq![x] + Seq::<CallView>::empty() =~= seq![x]);
    }
    let (g, p) = key_of(e)->Ok_0;
    let k = (target, g);
    if let Some((m, q)) = lookup(s, k) {
        if q < p {
            assert(s.contains_key(k));
            assert(s.insert(k, (s[k].0, p)) == s.insert(k, (m, p)));
        }
    }
}

/// Three unseen entries A, B, C with distinct guids are created in the order
/// A, B, C.
pub proof fn lemma_creates_in_feed_order(
    s: StoreMap,
    target: int,
    a: EntryView,
    b: EntryView,
    c: EntryView,
    hint: Seq<char>,
    ia: int,
    ib: int,
    ic: int,
)
    requires
        key_of(a) is Ok,
        key_of(b) is Ok,
        key_of(c) is Ok,
        rendering(a, hint) is Ok,
        rendering(b, hint) is Ok,
        rendering(c, hint) is Ok,
        key_of(a)->Ok_0.0 != key_of(b)->Ok_0.0,
        key_of(a)->Ok_0.0 != key_of(c)->Ok_0.0,
        key_of(b)->Ok_0.0 != key_of(c)->Ok_0.0,
        lookup(s, (target, key_of(a)->Ok_0.0)) is None,
        lookup(s, (target, key_of(b)->Ok_0.0)) is None,
        lookup(s, (target, key_of(c)->Ok_0.0)) is None,
    ensures
        cycle(s, target, seq![a, b, c], hint, seq![Some(ia), Some(ib), Some(ic)]).0 == seq![
            CallView::Create(rendering(a, hint)->Ok_0),
            CallView::Create(rendering(b, hint)->Ok_0),
            CallView::Create(rendering(c, hint)->Ok_0),
        ],
{
    let ga = key_of(a)->Ok_0.0;
    let gb = key_of(b)->Ok_0.0;
    let gc = key_of(c)->Ok_0.0;
    let r = seq![Some(ia), Some(ib), Some(ic)];
    let es = seq![a, b, c];
    lemma_classification(s, target, a, hint, ia);
    let s1 = s.insert((target, ga), (ia, key_of(a)->Ok_0.1));
    assert(lookup(s1, (target, gb)) is None);
    assert(lookup(s1, (target, gc)) is None);
    lemma_classification(s1, target, b, hint, ib);
    let s2 = s1.insert((target, gb), (ib, key_of(b)->Ok_0.1));
    assert(lookup(s2, (target, gc)) is None);
    lemma_classification(s2, target, c, hint, ic);
    // Unfold the three steps of the cycle.
    assert(es[0] == a && es.drop_first() =~= seq![b, c]);
    assert(seq![b, c][0] == b && seq![b, c].drop_first() =~= seq![c]);
    assert(seq![c][0] == c && seq![c].drop_first() =~= Seq::<EntryView>::empty());
    assert(first_reply(r) == Some(ia) && rest_replies(r) =~= seq![Some(ib), Some(ic)]);
    let r1 = seq![Some(ib), Some(ic)];
    assert(first_reply(r1) == Some(ib) && rest_replies(r1) =~= seq![Some(ic)]);
    let r2 = seq![Some(ic)];
    assert(first_reply(r2) == Some(ic));
    assert(step(s, target, a, hint, Some(ia)) == (
        Some(CallView::Create(rendering(a, hint)->Ok_0)),
        s1,
    ));
    assert(step(s1, target, b, hint, Some(ib)) == (
        Some(CallView::Create(rendering(b, hint)->Ok_0)),
        s2,
    ));
    let (_, s3) = step(s2, target, c, hint, Some(ic));
    assert(step(s2, target, c, hint, Some(ic)).0 == Some(CallView::Create(rendering(c, hint)->Ok_0)));
    assert(cycle(s3, target, Seq::<EntryView>::empty(), hint, rest_replies(r2)).0 =~= Seq::<CallView>::empty());
    assert(cycle(s2, target, seq![c], hint, r2).0 =~= seq![CallView::Create(rendering(c, hint)->Ok_0)]);
    assert(cycle(s1, target, seq![b, c], hint, r1).0 =~= seq![
        CallView::Create(rendering(b, hint)->Ok_0),
        CallView::Create(rendering(c, hint)->Ok_0),
    ]);
}

/// A cycle over settled entries makes no call and changes nothing.
proof fn lemma_settled_cycle_is_quiet(
    s: StoreMap,
    target: int,
    es: Seq<EntryView>,
    hint: Seq<char>,
    r: Seq<Option<int>>,
)
    requires
        forall|i: int| 0 <= i < es.len() ==> settled(s, target, #[trigger] es[i], hint),
    ensures
        cycle(s, target, es, hint, r) == (Seq::<CallView>::empty(), s, r),
    decreases es.len(),
{
    if es.len() > 0 {
        assert(settled(s, target, es[0], hint));
        assert(step(s, target, es[0], hint, first_reply(r)) == (None::<CallView>, s));
        let tail = es.drop_first();
        assert forall|i: int| 0 <= i < tail.len() implies settled(s, target, #[trigger] tail[i], hint) by {
            assert(tail[i] == es[i + 1]);
        }
        lemma_settled_cycle_is_quiet(s, target, tail, hint, r);
    }
}

/// `s2` keeps every record of `s`, with a date no earlier.
pub open spec fn grows(s: StoreMap, s2: StoreMap) -> bool {
    forall|k: (int, Seq<char>)|
        #[trigger] s.contains_key(k) ==> s2.contains_key(k) && s2[k].1 >= s[k].1
}

/// One step only adds records or moves their dates forward.
proof fn lemma_step_grows(
    s: StoreMap,
    target: int,
    e: EntryView,
    hint: Seq<char>,
    reply: Option<int>,
)
    ensures
        grows(s, step(s, target, e, hint, reply).1),
{
    if let Ok((g, p)) = key_of(e) {
        let k = (target, g);
        if let Ok(Some(c)) = plan_of(e, lookup(s, k), hint) {
            if let Some(id) = reply {
                let w = write_of(target, g, p, c, id);
                if let Ok(s2) = apply_write(s, w) {
                    if !w.insert {
                        assert(s.contains_key(k) && s[k].1 < p);
                    }
                    assert forall|k2: (int, Seq<char>)| #[trigger] s.contains_key(k2) implies s2.contains_key(k2)
                        && s2[k2].1 >= s[k2].1 by {
                        if k2 == k {
                            assert(!w.insert);
                        }
                    }
                }
            }
        }
    }
}

/// A cycle only adds records or moves their dates forward.
proof fn lemma_cycle_grows(
    s: StoreMap,
    target: int,
    es: Seq<EntryView>,
    hint: Seq<char>,
    r: Seq<Option<int>>,
)
    ensures
        grows(s, cycle(s, target, es, hint, r).1),
    decreases es.len(),
{
    if es.len() > 0 {
        let (c, s1) = step(s, target, es[0], hint, first_reply(r));
        lemma_step_grows(s, target, es[0], hint, first_reply(r));
        let r1 = match c {
            Some(_) => rest_replies(r),
            None => r,
        };
        lemma_cycle_grows(s1, target, es.drop_first(), hint, r1);
        let s2 = cycle(s1, target, es.drop_first(), hint, r1).1;
        assert(cycle(s, target, es, hint, r).1 == s2);
        assert forall|k: (int, Seq<char>)| #[trigger] s.contains_key(k) implies s2.contains_key(k)
            && s2[k].1 >= s[k].1 by {
            assert(s1.contains_key(k));
        }
    }
}

/// A settled entry stays settled while the store grows.
proof fn lemma_settled_kept(s: StoreMap, s2: StoreMap, target: int, e: EntryView, hint: Seq<char>)
    requires
        settled(s, target, e, hint),
        grows(s, s2),
    ensures
        settled(s2, target, e, hint),
{
    if let Ok((g, p)) = key_of(e) {
        let k = (target, g);
        if rendering(e, hint) is Ok {
            assert(s.contains_key(k));
            assert(s2.contains_key(k));
        }
    }
}

/// After a cycle whose calls all succeeded, every entry is settled in the
/// store it left.
proof fn lemma_cycle_settles(
    s: StoreMap,
    target: int,
    es: Seq<EntryView>,
    hint: Seq<char>,
    r: Seq<Option<int>>,
)
    requires
        all_answered(r, es.len() as int),
    ensures
        forall|i: int|
            0 <= i < es.len() ==> settled(cycle(s, target, es, hint, r).1, target, #[trigger] es[i], hint),
    decreases es.len(),
{
    if es.len() > 0 {
        let e = es[0];
        let (c, s1) = step(s, target, e, hint, first_reply(r));
        let r1 = match c {
            Some(_) => rest_replies(r),
            None => r,
        };
        let tail = es.drop_first();
        assert(first_reply(r) is Some) by {
            assert(r[0] is Some);
        }
        // The first entry is settled right after its own step.
        assert(settled(s1, target, e, hint)) by {
            if let Ok((g, p)) = key_of(e) {
                let k = (target, g);
                match plan_of(e, lookup(s, k), hint) {
                    Ok(Some(call)) => {
                        let id = first_reply(r)->Some_0;
                        let w = write_of(target, g, p, call, id);
                        assert(apply_write(s, w) is Ok);
                        assert(lookup(s1, k) == Some((w.message_id, p)) || lookup(s1, k) == Some((s[k].0, p)));
                        assert(classification_of(lookup(s1, k), p) == Classification::Current);
                    },
                    _ => {},
                }
            }
        }
        assert(all_answered(r1, tail.len() as int)) by {
            if c is Some {
                assert forall|k: int| 0 <= k < r1.len() implies (#[trigger] r1[k]) is Some by {
                    assert(r1[k] == r[k + 1]);
                }
            }
        }
        lemma_cycle_settles(s1, target, tail, hint, r1);
        let s_end = cycle(s1, target, tail, hint, r1).1;
        assert(cycle(s, target, es, hint, r).1 == s_end);
        lemma_cycle_grows(s1, target, tail, hint, r1);
        assert forall|i: int| 0 <= i < es.len() implies settled(s_end, target, #[trigger] es[i], hint) by {
            if i == 0 {
                lemma_settled_kept(s1, s_end, target, e, hint);
            } else {
                assert(es[i] == tail[i - 1]);
            }
        }
    }
}

/// Running a cycle a second time, over the same feed and the store that
/// the first run left, makes no sink call and changes nothing: where the
/// first run's calls all succeeded.
pub proof fn lemma_cycle_idempotent(
    s: StoreMap,
    target: int,
    es: Seq<EntryView>,
    hint: Seq<char>,
    r: Seq<Option<int>>,
    r2: Seq<Option<int>>,
)
    requires
        all_answered(r, es.len() as int),
    ensures
        ({
            let s1 = cycle(s, target, es, hint, r).1;
            cycle(s1, target, es, hint, r2) == (Seq::<CallView>::empty(), s1, r2)
        }),
{
    lemma_cycle_settles(s, target, es, hint, r);
    lemma_settled_cycle_is_quiet(cycle(s, target, es, hint, r).1, target, es, hint, r2);
}

/// The state machine follows the cycle model: once the store has answered
/// the lookup of an entry truthfully, the machine asks for a sink call
/// exactly where the model makes one, the same call, and after the sink's
/// reply `id` the write it asks for takes the store to where the model
/// leaves it.
pub proof fn lemma_machine_follows_step(
    v: CycleView,
    s: StoreMap,
    v2: CycleView,
    a2: ActionView,
    id: int,
    v3: CycleView,
    a3: ActionView,
)
    requires
        0 <= v.next < v.entries.len(),
        v.stage is Looking,
        key_of(v.entries[v.next]) == Ok::<(Seq<char>, int), EntryError>(
            (v.stage->Looking_0, v.stage->Looking_1),
        ),
        resume_ok(v, EventView::Found(lookup(s, (v.target, v.stage->Looking_0))), v2, a2),
    ensures
        ({
            let (c, s2) = step(s, v.target, v.entries[v.next], v.hint, Some(id));
            &&& (a2 is Call <==> c is Some)
            &&& (a2 is Call ==> a2->Call_0 == c->Some_0)
            &&& (a2 is Call && resume_ok(v2, EventView::Sent(Some(id)), v3, a3)) ==> (a3 is Write
                && apply_write(s, a3->Write_0) == Ok::<StoreMap, StoreError>(s2))
        }),
{
    let e = v.entries[v.next];
    let g = v.stage->Looking_0;
    let p = v.stage->Looking_1;
    let k = (v.target, g);
    match plan_of(e, lookup(s, k), v.hint) {
        Ok(None) => {
            let w = CycleView { next: v.next + 1, stage: StageView::Ready, ..v };
            if w.next < w.entries.len() {
                if key_of(w.entries[w.next]) is Ok {
                    assert(a2 is Lookup);
                }
            }
        },
        Ok(Some(c)) => {
            if resume_ok(v2, EventView::Sent(Some(id)), v3, a3) {
                let w = a3->Write_0;
                let x = write_of(v.target, g, p, c, id);
                assert(apply_write(s, x) is Ok);
                assert(apply_write(s, w) == apply_write(s, x));
            }
        },
        Err(_) => {},
    }
}

/// The guid of an entry whose key can be read.
pub open spec fn guid_of(e: EntryView) -> Option<Seq<char>> {
    match key_of(e) {
        Ok((g, _)) => Some(g),
        Err(_) => None,
    }
}

/// No two entries share a guid.
pub open spec fn distinct_guids(es: Seq<EntryView>) -> bool {
    forall|i: int, j: int|
        0 <= i < es.len() && 0 <= j < es.len() && i != j && (#[trigger] guid_of(es[i])) is Some
            ==> guid_of(es[i]) != #[trigger] guid_of(es[j])
}

/// The sink calls of the entries, each judged against the store `s0`, in
/// feed order.
pub open spec fn planned_calls(s0: StoreMap, target: int, es: Seq<EntryView>, hint: Seq<char>) -> Seq<
    CallView,
>
    decreases es.len(),
{
    if es.len() == 0 {
        Seq::empty()
    } else {
        let rest = planned_calls(s0, target, es.drop_first(), hint);
        match key_of(es[0]) {
            Ok((g, _)) => match plan_of(es[0], lookup(s0, (target, g)), hint) {
                Ok(Some(c)) => seq![c] + rest,
                _ => rest,
            },
            Err(_) => rest,
        }
    }
}

/// The record an entry leaves under its key, judged against `s0`: a new
/// record with the created message `id` where it was unseen, the recorded
/// message with the entry's date where it was stale, and the old state
/// where it was current or failed.
pub open spec fn committed(s0: StoreMap, target: int, e: EntryView, hint: Seq<char>, id: int) -> Option<
    (int, int),
> {
    match key_of(e) {
        Ok((g, p)) => match plan_of(e, lookup(s0, (target, g)), hint) {
            Ok(Some(CallView::Create(_))) => Some((id, p)),
            Ok(Some(CallView::Edit(m, _))) => Some((m, p)),
            _ => lookup(s0, (target, g)),
        },
        Err(_) => None,
    }
}

/// The entries' lookups agree in two stores.
pub open spec fn same_at_keys(s: StoreMap, s2: StoreMap, target: int, es: Seq<EntryView>) -> bool {
    forall|j: int|
        0 <= j < es.len() && (#[trigger] guid_of(es[j])) is Some ==> lookup(
            s,
            (target, guid_of(es[j])->Some_0),
        ) == lookup(s2, (target, guid_of(es[j])->Some_0))
}

proof fn lemma_planned_same(s: StoreMap, s2: StoreMap, target: int, es: Seq<EntryView>, hint: Seq<char>)
    requires
        same_at_keys(s, s2, target, es),
    ensures
        planned_calls(s, target, es, hint) == planned_calls(s2, target, es, hint),
    decreases es.len(),
{
    if es.len() > 0 {
        let tail = es.drop_first();
        assert(guid_of(es[0]) is Some ==> lookup(s, (target, guid_of(es[0])->Some_0)) == lookup(
            s2,
            (target, guid_of(es[0])->Some_0),
        ));
        assert forall|j: int| 0 <= j < tail.len() && (#[trigger] guid_of(tail[j])) is Some implies lookup(
            s,
            (target, guid_of(tail[j])->Some_0),
        ) == lookup(s2, (target, guid_of(tail[j])->Some_0)) by {
            assert(tail[j] == es[j + 1]);
        }
        lemma_planned_same(s, s2, target, tail, hint);
    }
}

/// A cycle writes only under the guids of its entries.
proof fn lemma_cycle_frame(
    s: StoreMap,
    target: int,
    es: Seq<EntryView>,
    hint: Seq<char>,
    r: Seq<Option<int>>,
    k: (int, Seq<char>),
)
    requires
        forall|i: int| 0 <= i < es.len() ==> (#[trigger] guid_of(es[i])) is Some ==> k != (
            target,
            guid_of(es[i])->Some_0,
        ),
    ensures
        lookup(cycle(s, target, es, hint, r).1, k) == lookup(s, k),
    decreases es.len(),
{
    if es.len() > 0 {
        let (c, s1) = step(s, target, es[0], hint, first_reply(r));
        assert(guid_of(es[0]) is Some ==> k != (target, guid_of(es[0])->Some_0));
        assert(lookup(s1, k) == lookup(s, k));
        let tail = es.drop_first();
        assert forall|i: int| 0 <= i < tail.len() implies (#[trigger] guid_of(tail[i])) is Some
            ==> k != (target, guid_of(tail[i])->Some_0) by {
            assert(tail[i] == es[i + 1]);
        }
        match c {
            None => lemma_cycle_frame(s1, target, tail, hint, r, k),
            Some(_) => lemma_cycle_frame(s1, target, tail, hint, rest_replies(r), k),
        }
    }
}

/// One step against `s0` leaves the entry's record as `committed` says and
/// no other record changed.
proof fn lemma_step_commits(s0: StoreMap, target: int, e: EntryView, hint: Seq<char>, id: int)
    requires
        guid_of(e) is Some,
    ensures
        ({
            let (c, s1) = step(s0, target, e, hint, Some(id));
            let g = guid_of(e)->Some_0;
            &&& lookup(s1, (target, g)) == committed(s0, target, e, hint, id)
            &&& forall|k: (int, Seq<char>)| k != (target, g) ==> lookup(s1, k) == lookup(s0, k)
            &&& (c is Some <==> plan_of(e, lookup(s0, (target, g)), hint) matches Ok(Some(_)))
        }),
{
    let g = guid_of(e)->Some_0;
    let k = (target, g);
    let p = key_of(e)->Ok_0.1;
    match plan_of(e, lookup(s0, k), hint) {
        Ok(Some(call)) => {
            let w = write_of(target, g, p, call, id);
            assert(apply_write(s0, w) is Ok);
        },
        _ => {},
    }
}

/// At most one call per entry.
proof fn lemma_planned_len(s0: StoreMap, target: int, es: Seq<EntryView>, hint: Seq<char>)
    ensures
        planned_calls(s0, target, es, hint).len() <= es.len(),
    decreases es.len(),
{
    if es.len() > 0 {
        lemma_planned_len(s0, target, es.drop_first(), hint);
    }
}

/// Counting the planned calls before position `i` splits off the first
/// entry's call.
proof fn lemma_planned_prefix(s0: StoreMap, target: int, es: Seq<EntryView>, hint: Seq<char>, i: int)
    requires
        1 <= i <= es.len(),
    ensures
        planned_calls(s0, target, es.take(i), hint).len() == planned_calls(
            s0,
            target,
            es.drop_first().take(i - 1),
            hint,
        ).len() + (if planned_calls(s0, target, seq![es[0]], hint).len() > 0 {
            1int
        } else {
            0int
        }),
{
    let pre = es.take(i);
    assert(pre[0] == es[0]);
    assert(pre.drop_first() =~= es.drop_first().take(i - 1));
    let one = seq![es[0]];
    assert(one[0] == es[0]);
    assert(one.drop_first() =~= Seq::<EntryView>::empty());
    assert(planned_calls(s0, target, Seq::<EntryView>::empty(), hint).len() == 0);
}

/// A whole cycle over a feed with distinct guids whose calls all succeed:
/// the sink calls are those each entry needs against the store before the
/// cycle, in feed order; each entry's record ends as its class prescribes
/// (inserted with the created message's id and the entry's date, updated
/// to the entry's date with its message id kept, or left alone where it is
/// current or fails to render), taking the sink's replies in call order; no
/// other record changes.
pub proof fn lemma_cycle_outcome(
    s0: StoreMap,
    target: int,
    es: Seq<EntryView>,
    hint: Seq<char>,
    r: Seq<Option<int>>,
)
    requires
        distinct_guids(es),
        all_answered(r, es.len() as int),
    ensures
        ({
            let (calls, s1, _) = cycle(s0, target, es, hint, r);
            &&& calls == planned_calls(s0, target, es, hint)
            &&& forall|i: int|
                0 <= i < es.len() && (#[trigger] guid_of(es[i])) is Some ==> lookup(
                    s1,
                    (target, guid_of(es[i])->Some_0),
                ) == committed(
                    s0,
                    target,
                    es[i],
                    hint,
                    r[planned_calls(s0, target, es.take(i), hint).len() as int]->Some_0,
                )
            &&& forall|k: (int, Seq<char>)|
                (forall|i: int| 0 <= i < es.len() ==> (#[trigger] guid_of(es[i])) is Some ==> k != (
                    target,
                    guid_of(es[i])->Some_0,
                )) ==> lookup(s1, k) == lookup(s0, k)
        }),
    decreases es.len(),
{
    let (calls, s_end, _) = cycle(s0, target, es, hint, r);
    assert forall|k: (int, Seq<char>)|
        (forall|i: int| 0 <= i < es.len() ==> (#[trigger] guid_of(es[i])) is Some ==> k != (
            target,
            guid_of(es[i])->Some_0,
        )) implies lookup(s_end, k) == lookup(s0, k) by {
        lemma_cycle_frame(s0, target, es, hint, r, k);
    }
    if es.len() > 0 {
        let e = es[0];
        let tail = es.drop_first();
        let (c, s1) = step(s0, target, e, hint, first_reply(r));
        let r1 = match c {
            Some(_) => rest_replies(r),
            None => r,
        };
        let shift: int = if c is Some { 1 } else { 0 };
        assert(r[0] is Some);
        assert(distinct_guids(tail)) by {
            assert forall|i: int, j: int|
                0 <= i < tail.len() && 0 <= j < tail.len() && i != j && (#[trigger] guid_of(tail[i])) is Some
                    implies guid_of(tail[i]) != #[trigger] guid_of(tail[j]) by {
                assert(tail[i] == es[i + 1] && tail[j] == es[j + 1]);
            }
        }
        assert(all_answered(r1, tail.len() as int)) by {
            if c is Some {
                assert forall|k: int| 0 <= k < r1.len() implies (#[trigger] r1[k]) is Some by {
                    assert(r1[k] == r[k + 1]);
                }
            }
        }
        if let Some(g) = guid_of(e) {
            lemma_step_commits(s0, target, e, hint, r[0]->Some_0);
        }
        assert(planned_calls(s0, target, seq![e], hint).len() > 0 <==> c is Some) by {
            let one = seq![e];
            assert(one[0] == e);
            assert(one.drop_first() =~= Seq::<EntryView>::empty());
            assert(planned_calls(s0, target, one.drop_first(), hint).len() == 0);
            if let Some(g) = guid_of(e) {
                lemma_step_commits(s0, target, e, hint, r[0]->Some_0);
            }
        }
        // The first step changes only the first entry's key.
        assert(same_at_keys(s0, s1, target, tail)) by {
            assert forall|j: int| 0 <= j < tail.len() && (#[trigger] guid_of(tail[j])) is Some implies lookup(
                s0,
                (target, guid_of(tail[j])->Some_0),
            ) == lookup(s1, (target, guid_of(tail[j])->Some_0)) by {
                assert(tail[j] == es[j + 1]);
                assert(guid_of(es[0]) != guid_of(es[j + 1]));
            }
        }
        lemma_planned_same(s0, s1, target, tail, hint);
        lemma_cycle_outcome(s1, target, tail, hint, r1);
        assert(cycle(s0, target, es, hint, r).1 == cycle(s1, target, tail, hint, r1).1);
        // The first entry's own record.
        if let Some(g) = guid_of(e) {
            let k = (target, g);
            assert forall|j: int| 0 <= j < tail.len() implies (#[trigger] guid_of(tail[j])) is Some ==> k != (
                target,
                guid_of(tail[j])->Some_0,
            ) by {
                assert(tail[j] == es[j + 1]);
                assert(guid_of(es[0]) != guid_of(es[j + 1]));
            }
            lemma_cycle_frame(s1, target, tail, hint, r1, k);
            assert(es.take(0) =~= Seq::<EntryView>::empty());
            lemma_step_commits(s0, target, e, hint, r[0]->Some_0);
        }
        // The others, by the induction.
        assert forall|i: int| 1 <= i < es.len() && (#[trigger] guid_of(es[i])) is Some implies lookup(
            s_end,
            (target, guid_of(es[i])->Some_0),
        ) == committed(
            s0,
            target,
            es[i],
            hint,
            r[planned_calls(s0, target, es.take(i), hint).len() as int]->Some_0,
        ) by {
            let j = i - 1;
            assert(tail[j] == es[i]);
            assert(es.take(i)[0] == e);
            assert(es.take(i).drop_first() =~= tail.take(j));
            let g = guid_of(es[i])->Some_0;
            assert(lookup(s0, (target, g)) == lookup(s1, (target, g)));
            assert(same_at_keys(s0, s1, target, tail.take(j))) by {
                assert forall|x: int| 0 <= x < tail.take(j).len() && (#[trigger] guid_of(tail.take(j)[x])) is Some implies lookup(
                    s0,
                    (target, guid_of(tail.take(j)[x])->Some_0),
                ) == lookup(s1, (target, guid_of(tail.take(j)[x])->Some_0)) by {
                    assert(tail.take(j)[x] == tail[x]);
                }
            }
            lemma_planned_same(s0, s1, target, tail.take(j), hint);
            let n = planned_calls(s1, target, tail.take(j), hint).len() as int;
            lemma_planned_prefix(s0, target, es, hint, i);
            assert(planned_calls(s0, target, es.take(i), hint).len() == n + shift);
            lemma_planned_len(s1, target, tail.take(j), hint);
            assert(0 <= n < r1.len());
            assert(r1[n] == r[n + shift]);
            assert(committed(s0, target, es[i], hint, r1[n]->Some_0) == committed(s1, target, tail[j], hint, r1[n]->Some_0));
        }
    }
}

} // verus!
