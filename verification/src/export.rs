//! The columnar-export plan: row selection and chunking.
//!
//! The export pipeline streams events, keeps those admitted by an optional
//! allow-list of event names, optionally rewrites timestamps through the
//! uniqueness transform, and batches the surviving rows into fixed-size
//! chunks. Chunk boundaries are governed by row count, never by byte size.
//! The columnar encoder itself is a collaborator: it receives the finished
//! chunks and a compression scheme and owns the on-disk encoding.

use vstd::prelude::*;
use crate::normalize::{
    lemma_norm_outputs_len, norm_outputs, norm_state, norm_step, TimestampNormalizer,
};

verus! {

/// One event row as the export path sees it: the event's name and its
/// (possibly normalized) timestamp.
pub struct Event {
    pub name: String,
    pub ts: u64,
}

/// The names of a row sequence, in order.
pub open spec fn event_names(s: Seq<Event>) -> Seq<Seq<char>> {
    s.map_values(|e: Event| e.name@)
}

/// The timestamps of a row sequence, in order.
pub open spec fn event_ts(s: Seq<Event>) -> Seq<u64> {
    s.map_values(|e: Event| e.ts)
}

/// Whether a name passes the allow-list; an absent list admits every event.
pub open spec fn name_admitted(name: Seq<char>, allow: Option<Seq<Seq<char>>>) -> bool {
    match allow {
        Option::None => true,
        Option::Some(names) => names.contains(name),
    }
}

/// The allow-list as a sequence of character sequences.
pub open spec fn allow_view(allow: Option<Vec<String>>) -> Option<Seq<Seq<char>>> {
    match allow {
        Option::None => Option::None,
        Option::Some(v) => Option::Some(v@.map_values(|s: String| s@)),
    }
}

/// The rows of `s` that pass the allow-list, in order.
pub open spec fn admitted_rows(s: Seq<Event>, allow: Option<Seq<Seq<char>>>) -> Seq<Event> {
    s.filter(|e: Event| name_admitted(e.name@, allow))
}

/// `s` cut into consecutive chunks of `n` rows; only the final chunk may be
/// shorter. An empty input yields no chunks.
pub open spec fn chunks_of<T>(s: Seq<T>, n: int) -> Seq<Seq<T>>
    recommends
        n >= 1,
    decreases s.len() via chunks_of_decreases::<T>
{
    if n < 1 {
        Seq::empty()
    } else if s.len() == 0 {
        Seq::empty()
    } else if s.len() <= n {
        seq![s]
    } else {
        seq![s.take(n)] + chunks_of(s.skip(n), n)
    }
}

#[via_fn]
proof fn chunks_of_decreases<T>(s: Seq<T>, n: int) {
}

/// Law: with chunk size `n`, a row sequence is cut into exactly
/// `ceil(len / n)` chunks.
pub proof fn lemma_chunks_count<T>(s: Seq<T>, n: int)
    requires
        n >= 1,
    ensures
        chunks_of(s, n).len() == (s.len() + n - 1) / n,
    decreases s.len(),
{
    if s.len() == 0 {
        vstd::arithmetic::div_mod::lemma_basic_div(n - 1, n);
    } else if s.len() <= n {
        vstd::arithmetic::div_mod::lemma_div_plus_one(s.len() - 1, n);
        vstd::arithmetic::div_mod::lemma_basic_div(s.len() - 1, n);
    } else {
        lemma_chunks_count(s.skip(n), n);
        assert(s.skip(n).len() == s.len() - n);
        vstd::arithmetic::div_mod::lemma_div_plus_one(s.len() - 1, n);
    }
}

/// Law, at the chunk-size boundary: exactly `n` rows make one chunk, `n - 1`
/// rows still make one chunk while any rows remain at all, and `n + 1` rows
/// spill into two.
pub proof fn lemma_chunk_size_boundary<T>(s: Seq<T>, n: int)
    requires
        n >= 1,
    ensures
        s.len() == n ==> chunks_of(s, n).len() == 1,
        s.len() == n - 1 && s.len() >= 1 ==> chunks_of(s, n).len() == 1,
        s.len() == n + 1 ==> chunks_of(s, n).len() == 2,
{
    lemma_chunks_count(s, n);
    vstd::arithmetic::div_mod::lemma_div_plus_one(n - 1, n);
    vstd::arithmetic::div_mod::lemma_basic_div(n - 1, n);
    if n >= 2 {
        vstd::arithmetic::div_mod::lemma_div_plus_one(n - 2, n);
        vstd::arithmetic::div_mod::lemma_basic_div(n - 2, n);
    }
    vstd::arithmetic::div_mod::lemma_div_plus_one(n, n);
    vstd::arithmetic::div_mod::lemma_div_by_self(n);
}

/// Law: chunking loses, duplicates and reorders nothing — the chunks
/// concatenate back to exactly the input rows.
pub proof fn lemma_chunks_flatten<T>(s: Seq<T>, n: int)
    requires
        n >= 1,
    ensures
        chunks_of(s, n).flatten() == s,
    decreases s.len(),
{
    broadcast use Seq::lemma_flatten_singleton;

    if s.len() == 0 {
        assert(chunks_of(s, n).flatten() =~= s);
    } else if s.len() <= n {
        assert(chunks_of(s, n).len() == 1);
    } else {
        lemma_chunks_flatten(s.skip(n), n);
        vstd::seq_lib::lemma_flatten_concat(seq![s.take(n)], chunks_of(s.skip(n), n));
        assert(seq![s.take(n)].len() == 1);
        assert(chunks_of(s, n).flatten() =~= s.take(n) + s.skip(n));
        assert(s.take(n) + s.skip(n) =~= s);
    }
}

/// Every chunk holds at least one row and at most `n`; every chunk before
/// the last holds exactly `n`.
pub proof fn lemma_chunks_shape<T>(s: Seq<T>, n: int)
    requires
        n >= 1,
    ensures
        forall|i: int|
            0 <= i < chunks_of(s, n).len() ==> 1 <= (#[trigger] chunks_of(s, n)[i]).len() <= n,
        forall|i: int|
            0 <= i < chunks_of(s, n).len() - 1 ==> (#[trigger] chunks_of(s, n)[i]).len() == n,
    decreases s.len(),
{
    if s.len() > n {
        lemma_chunks_shape(s.skip(n), n);
        let c = chunks_of(s, n);
        let rest = chunks_of(s.skip(n), n);
        assert forall|i: int| 0 <= i < c.len() implies 1 <= (#[trigger] c[i]).len() <= n by {
            if i >= 1 {
                assert(c[i] == rest[i - 1]);
            }
        }
        assert forall|i: int| 0 <= i < c.len() - 1 implies (#[trigger] c[i]).len() == n by {
            if i >= 1 {
                assert(c[i] == rest[i - 1]);
                if rest.len() == 0 {
                } else {
                    assert(rest[rest.len() - 1].len() >= 1);
                }
            }
        }
    }
}

/// Law: the set of event names that survives filtering with an explicit
/// allow-list is exactly the intersection of that allow-list and the names
/// present in the source rows.
pub proof fn lemma_admitted_names_intersection(events: Seq<Event>, allow: Seq<Seq<char>>)
    ensures
        event_names(admitted_rows(events, Option::Some(allow))).to_set() == event_names(
            events,
        ).to_set().intersect(allow.to_set()),
{
    broadcast use vstd::seq_lib::group_seq_lib_default;
    broadcast use Seq::lemma_filter_contains_rev;

    let filtered = admitted_rows(events, Option::Some(allow));
    let lhs = event_names(filtered).to_set();
    let rhs = event_names(events).to_set().intersect(allow.to_set());
    assert forall|nm: Seq<char>| lhs.contains(nm) implies rhs.contains(nm) by {
        let names = event_names(filtered);
        let k = choose|k: int| 0 <= k < names.len() && names[k] == nm;
        let e = filtered[k];
        assert(names.len() == filtered.len());
        assert(filtered[k] == e);
        assert(filtered.contains(e));
        assert(name_admitted(e.name@, Option::Some(allow)));
        assert(events.contains(e));
        let i = choose|i: int| 0 <= i < events.len() && events[i] == e;
        assert(event_names(events)[i] == nm);
        assert(event_names(events).contains(nm));
    }
    assert forall|nm: Seq<char>| rhs.contains(nm) implies lhs.contains(nm) by {
        let i = choose|i: int|
            0 <= i < event_names(events).len() && event_names(events)[i] == nm;
        let e = events[i];
        assert(name_admitted(e.name@, Option::Some(allow)));
        assert(filtered.contains(e));
        let k = choose|k: int| 0 <= k < filtered.len() && filtered[k] == e;
        assert(event_names(filtered)[k] == nm);
        assert(event_names(filtered).contains(nm));
    }
    assert(lhs =~= rhs);
}

/// Appending a row keeps the admitted prefix and appends the row exactly
/// when it passes the allow-list.
proof fn lemma_admitted_rows_push(s: Seq<Event>, e: Event, allow: Option<Seq<Seq<char>>>)
    ensures
        admitted_rows(s.push(e), allow) == if name_admitted(e.name@, allow) {
            admitted_rows(s, allow).push(e)
        } else {
            admitted_rows(s, allow)
        },
{
    broadcast use Seq::lemma_filter_push;

}

/// Whether `name` occurs in the allow-list.
fn name_in(list: &Vec<String>, name: &String) -> (r: bool)
    ensures
        r == list@.map_values(|s: String| s@).contains(name@),
{
    let ghost names = list@.map_values(|s: String| s@);
    let n = list.len();
    for i in 0..n
        invariant
            n == list@.len(),
            names == list@.map_values(|s: String| s@),
            forall|k: int| 0 <= k < i ==> names[k] != name@,
    {
        if list[i].eq(name) {
            assert(names[i as int] == name@);
            return true;
        }
    }
    false
}

/// Keep the rows that pass the allow-list and, when `unique` is set, rewrite
/// their timestamps through the uniqueness transform, in stream order.
pub fn select_rows(events: &Vec<Event>, allow: &Option<Vec<String>>, unique: bool) -> (r: Vec<
    Event,
>)
    requires
        unique ==> forall|i: int|
            0 <= i < events@.len() ==> #[trigger] events@[i].ts + 2 * events@.len()
                <= u64::MAX,
    ensures
        ({
            let kept = admitted_rows(events@, allow_view(*allow));
            &&& r@.len() == kept.len()
            &&& forall|i: int| 0 <= i < kept.len() ==> #[trigger] r@[i].name@ == kept[i].name@
            &&& unique ==> forall|i: int|
                0 <= i < kept.len() ==> #[trigger] r@[i].ts as int == norm_outputs(
                    0,
                    event_ts(kept),
                )[i]
            &&& !unique ==> forall|i: int| 0 <= i < kept.len() ==> #[trigger] r@[i].ts == kept[i].ts
        }),
{
    broadcast use vstd::seq_lib::group_seq_lib_default;

    let ghost av = allow_view(*allow);
    let mut r: Vec<Event> = Vec::new();
    let mut norm = TimestampNormalizer::new();
    let n = events.len();
    proof {
        if unique && n > 0 {
            assert(events@[0].ts + 2 * events@.len() <= u64::MAX);
        }
    }
    for j in 0..n
        invariant
            n == events@.len(),
            unique ==> forall|i: int|
                0 <= i < events@.len() ==> #[trigger] events@[i].ts + 2 * events@.len()
                    <= u64::MAX,
            av == allow_view(*allow),
            r@.len() == admitted_rows(events@.take(j as int), av).len(),
            forall|k: int|
                0 <= k < r@.len() ==> #[trigger] r@[k].name@ == admitted_rows(
                    events@.take(j as int),
                    av,
                )[k].name@,
            unique ==> forall|k: int|
                0 <= k < r@.len() ==> #[trigger] r@[k].ts as int == norm_outputs(
                    0,
                    event_ts(admitted_rows(events@.take(j as int), av)),
                )[k],
            !unique ==> forall|k: int|
                0 <= k < r@.len() ==> #[trigger] r@[k].ts == admitted_rows(
                    events@.take(j as int),
                    av,
                )[k].ts,
            unique ==> norm.prev as int == norm_state(
                0,
                event_ts(admitted_rows(events@.take(j as int), av)),
            ),
            unique ==> norm.prev as int <= u64::MAX - 2 * (n - j),
            !unique ==> norm.prev == 0,
    {
        let ghost kept0 = admitted_rows(events@.take(j as int), av);
        let admitted = match allow {
            Option::None => true,
            Option::Some(list) => name_in(list, &events[j].name),
        };
        proof {
            assert(admitted == name_admitted(events@[j as int].name@, av));
            assert(events@.take(j as int + 1) =~= events@.take(j as int).push(events@[j as int]));
            lemma_admitted_rows_push(events@.take(j as int), events@[j as int], av);
        }
        let ghost kept1 = admitted_rows(events@.take(j as int + 1), av);
        proof {
            if admitted {
                assert(kept1 == kept0.push(events@[j as int]));
                assert(event_ts(kept1) =~= event_ts(kept0).push(events@[j as int].ts));
                assert(event_ts(kept1).drop_last() =~= event_ts(kept0));
                lemma_norm_outputs_len(0, event_ts(kept0));
                lemma_norm_outputs_len(0, event_ts(kept1));
                assert(norm_outputs(0, event_ts(kept1)) == norm_outputs(0, event_ts(kept0)).push(
                    norm_step(norm_state(0, event_ts(kept0)), events@[j as int].ts as int),
                ));
            } else {
                assert(kept1 == kept0);
            }
        }
        if admitted {
            let ts = norm.apply(events[j].ts, unique);
            let row = Event { name: events[j].name.clone(), ts };
            r.push(row);
        }
    }
    proof {
        assert(events@.take(n as int) =~= events@);
    }
    r
}

/// The whole export plan: keep the rows admitted by the allow-list, rewrite
/// their timestamps through the uniqueness transform when requested, and
/// batch the result into row-count chunks ready for the columnar encoder.
pub fn export_plan(
    events: &Vec<Event>,
    allow: &Option<Vec<String>>,
    unique: bool,
    chunk_size: usize,
) -> (r: Vec<Vec<Event>>)
    requires
        chunk_size >= 1,
        unique ==> forall|i: int|
            0 <= i < events@.len() ==> #[trigger] events@[i].ts + 2 * events@.len()
                <= u64::MAX,
    ensures
        ({
            let kept = admitted_rows(events@, allow_view(*allow));
            let flat = r@.map_values(|c: Vec<Event>| c@).flatten();
            &&& r@.len() == (kept.len() + chunk_size - 1) / (chunk_size as int)
            &&& flat.len() == kept.len()
            &&& forall|i: int| 0 <= i < kept.len() ==> (#[trigger] flat[i]).name@ == kept[i].name@
            &&& unique ==> forall|i: int|
                0 <= i < kept.len() ==> (#[trigger] flat[i]).ts as int == norm_outputs(
                    0,
                    event_ts(kept),
                )[i]
            &&& !unique ==> forall|i: int|
                0 <= i < kept.len() ==> (#[trigger] flat[i]).ts == kept[i].ts
        }),
{
    let rows = select_rows(events, allow, unique);
    let ghost sel = rows@;
    let r = chunk_rows(rows, chunk_size);
    proof {
        lemma_chunks_count(sel, chunk_size as int);
        lemma_chunks_flatten(sel, chunk_size as int);
        assert(r@.map_values(|c: Vec<Event>| c@).flatten() == sel);
    }
    r
}

/// Batch `rows` into chunks of `chunk_size` rows, preserving order; only the
/// last chunk may fall short.
pub fn chunk_rows(rows: Vec<Event>, chunk_size: usize) -> (r: Vec<Vec<Event>>)
    requires
        chunk_size >= 1,
    ensures
        r@.map_values(|c: Vec<Event>| c@) == chunks_of(rows@, chunk_size as int),
{
    let ghost all = rows@;
    let mut rows = rows;
    let mut r: Vec<Vec<Event>> = Vec::new();
    while rows.len() > 0
        invariant
            chunk_size >= 1,
            r@.map_values(|c: Vec<Event>| c@) + chunks_of(rows@, chunk_size as int) =~= chunks_of(
                all,
                chunk_size as int,
            ),
        decreases rows@.len(),
    {
        let ghost before = rows@;
        let take_n = if rows.len() < chunk_size {
            rows.len()
        } else {
            chunk_size
        };
        let mut chunk: Vec<Event> = Vec::new();
        for k in 0..take_n
            invariant
                take_n <= before.len(),
                chunk@ =~= before.take(k as int),
                rows@ =~= before.skip(k as int),
        {
            proof {
                assert(before.take(k as int + 1) =~= before.take(k as int).push(before[k as int]));
                assert(before.skip(k as int).remove(0) =~= before.skip(k as int + 1));
                assert(before.skip(k as int)[0] == before[k as int]);
            }
            let head = rows.remove(0);
            chunk.push(head);
        }
        proof {
            if before.len() <= chunk_size {
                assert(before.take(take_n as int) =~= before);
                assert(chunks_of(before, chunk_size as int) =~= seq![before]);
            } else {
                assert(chunks_of(before, chunk_size as int) == seq![
                    before.take(chunk_size as int),
                ] + chunks_of(before.skip(chunk_size as int), chunk_size as int));
            }
            assert((r@ + seq![chunk]).map_values(|c: Vec<Event>| c@) =~= r@.map_values(
                |c: Vec<Event>| c@,
            ) + seq![chunk@]);
        }
        r.push(chunk);
    }
    proof {
        assert(chunks_of(rows@, chunk_size as int) =~= Seq::<Seq<Event>>::empty());
        assert(r@.map_values(|c: Vec<Event>| c@) =~= chunks_of(all, chunk_size as int));
    }
    r
}

} // verus!
