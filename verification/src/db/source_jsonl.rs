//! Batches of facts from session logs, and how they meet the facts that are stored.
use crate::db::{
    seen_or_stored, seen_or_stored_value, SourceJsonlRecord, SourceJsonlRecordView,
};
use crate::num::{larger, max_i64, min_i64, smaller};
use crate::text::{first_some, same};
use vstd::prelude::*;

verus! {

/// What a batch changed.
#[derive(Clone, Copy, Debug, PartialEq, Eq, Structural)]
pub struct SourceJsonlBatchReport {
    pub inserted_events: usize,
    pub duplicate_events: usize,
    pub inserted_quota_samples: usize,
}

impl Default for SourceJsonlBatchReport {
    fn default() -> (r: Self)
        ensures
            r.inserted_events == 0,
            r.duplicate_events == 0,
            r.inserted_quota_samples == 0,
    {
        SourceJsonlBatchReport { inserted_events: 0, duplicate_events: 0, inserted_quota_samples: 0 }
    }
}

/// A batch in which no key occurs twice.
#[derive(Debug)]
pub struct NormalizedBatch {
    pub records: Vec<SourceJsonlRecord>,
    pub input_records: usize,
    pub merged_duplicates: usize,
}

/// When a fact was last seen, as far as that is recorded, else when it was observed.
pub open spec fn confirmed_at(record: SourceJsonlRecordView) -> i64 {
    match record.last_seen_at_ms {
        Some(at) => at,
        None => record.observed_at_ms,
    }
}

/// A fact after it was seen again. Its key, kind and session stay; of the rest, what is seen now
/// replaces what was known. As a quota it keeps its first observation and its last confirmation.
pub open spec fn seen_again(
    known: SourceJsonlRecordView,
    seen: SourceJsonlRecordView,
    as_quota: bool,
) -> SourceJsonlRecordView {
    SourceJsonlRecordView {
        source_key: known.source_key,
        kind: known.kind,
        session_id: known.session_id,
        observed_at_ms: if as_quota {
            smaller(known.observed_at_ms as int, seen.observed_at_ms as int) as i64
        } else {
            known.observed_at_ms
        },
        last_seen_at_ms: if as_quota {
            Some(larger(confirmed_at(known) as int, confirmed_at(seen) as int) as i64)
        } else {
            first_some(seen.last_seen_at_ms, known.last_seen_at_ms)
        },
        parent_session_id: first_some(seen.parent_session_id, known.parent_session_id),
        root_session_id: first_some(seen.root_session_id, known.root_session_id),
        turn_id: first_some(seen.turn_id, known.turn_id),
        relation: first_some(seen.relation, known.relation),
        title: first_some(seen.title, known.title),
        started_at_ms: first_some(seen.started_at_ms, known.started_at_ms),
        ended_at_ms: first_some(seen.ended_at_ms, known.ended_at_ms),
        model: first_some(seen.model, known.model),
        service_tier: first_some(seen.service_tier, known.service_tier),
        reasoning_effort: first_some(seen.reasoning_effort, known.reasoning_effort),
        provider: first_some(seen.provider, known.provider),
        plan_type: first_some(seen.plan_type, known.plan_type),
        input_tokens: first_some(seen.input_tokens, known.input_tokens),
        cache_read_tokens: first_some(seen.cache_read_tokens, known.cache_read_tokens),
        cache_write_tokens: first_some(seen.cache_write_tokens, known.cache_write_tokens),
        output_tokens: first_some(seen.output_tokens, known.output_tokens),
        reasoning_tokens: first_some(seen.reasoning_tokens, known.reasoning_tokens),
        total_tokens: first_some(seen.total_tokens, known.total_tokens),
        limit_id: first_some(seen.limit_id, known.limit_id),
        window_kind: first_some(seen.window_kind, known.window_kind),
        used_percent: first_some(seen.used_percent, known.used_percent),
        window_minutes: first_some(seen.window_minutes, known.window_minutes),
        resets_at_ms: first_some(seen.resets_at_ms, known.resets_at_ms),
        quality: first_some(seen.quality, known.quality),
    }
}

/// Two facts of a batch with one key, as one.
pub open spec fn merged(
    target: SourceJsonlRecordView,
    incoming: SourceJsonlRecordView,
) -> SourceJsonlRecordView {
    seen_again(target, incoming, target.kind == "quota"@ && incoming.kind == "quota"@)
}

/// A stored fact after a fact with its key was stored.
pub open spec fn upserted(
    stored: SourceJsonlRecordView,
    incoming: SourceJsonlRecordView,
) -> SourceJsonlRecordView {
    seen_again(stored, incoming, stored.kind == "quota"@)
}

/// The place of the first fact with the key.
pub open spec fn place_of_key(records: Seq<SourceJsonlRecordView>, key: Seq<char>) -> Option<int>
    decreases records.len(),
{
    if records.len() == 0 {
        None
    } else {
        match place_of_key(records.drop_last(), key) {
            Some(i) => Some(i),
            None => if records.last().source_key == key {
                Some(records.len() - 1)
            } else {
                None
            },
        }
    }
}

/// A batch with one more fact.
pub open spec fn batched(
    batch: Seq<SourceJsonlRecordView>,
    record: SourceJsonlRecordView,
) -> Seq<SourceJsonlRecordView> {
    match place_of_key(batch, record.source_key) {
        Some(i) => batch.update(i, merged(batch[i], record)),
        None => batch.push(record),
    }
}

/// Facts with one key as one, in the order in which the keys first occur.
pub open spec fn normalized(records: Seq<SourceJsonlRecordView>) -> Seq<SourceJsonlRecordView>
    decreases records.len(),
{
    if records.len() == 0 {
        Seq::empty()
    } else {
        batched(normalized(records.drop_last()), records.last())
    }
}

/// Whether no key occurs twice.
pub open spec fn distinct_keys(records: Seq<SourceJsonlRecordView>) -> bool {
    forall|i: int, j: int|
        0 <= i < j < records.len() ==> (#[trigger] records[i]).source_key != (
        #[trigger] records[j]).source_key
}

proof fn lemma_place_of_key(records: Seq<SourceJsonlRecordView>, key: Seq<char>)
    ensures
        match place_of_key(records, key) {
            Some(i) => 0 <= i < records.len() && records[i].source_key == key,
            None => forall|i: int|
                0 <= i < records.len() ==> (#[trigger] records[i]).source_key != key,
        },
    decreases records.len(),
{
    if records.len() > 0 {
        lemma_place_of_key(records.drop_last(), key);
        assert forall|i: int|
            0 <= i < records.len() - 1 implies (#[trigger] records[i]).source_key
                == records.drop_last()[i].source_key by {}
    }
}

proof fn lemma_place_found(records: Seq<SourceJsonlRecordView>, key: Seq<char>, at: int)
    requires
        0 <= at < records.len(),
        records[at].source_key == key,
        forall|i: int| 0 <= i < at ==> (#[trigger] records[i]).source_key != key,
    ensures
        place_of_key(records, key) == Some(at),
    decreases records.len(),
{
    let shorter = records.drop_last();
    if at < shorter.len() {
        assert forall|i: int| 0 <= i < at implies (#[trigger] shorter[i]).source_key != key by {
            assert(shorter[i] == records[i]);
        }
        lemma_place_found(shorter, key, at);
    } else {
        lemma_place_of_key(shorter, key);
        if place_of_key(shorter, key) is Some {
            let i = place_of_key(shorter, key)->0;
            assert(shorter[i] == records[i]);
        }
    }
}

/// In a normalized batch no key occurs twice, and it has the keys of the batch and no others.
pub proof fn lemma_normalized_keys(records: Seq<SourceJsonlRecordView>)
    ensures
        distinct_keys(normalized(records)),
        normalized(records).len() <= records.len(),
        forall|key: Seq<char>|
            place_of_key(normalized(records), key) is Some <==> place_of_key(records, key) is Some,
    decreases records.len(),
{
    if records.len() > 0 {
        let (shorter, last) = (records.drop_last(), records.last());
        lemma_normalized_keys(shorter);
        let before = normalized(shorter);
        let after = normalized(records);
        lemma_place_of_key(before, last.source_key);
        assert forall|key: Seq<char>|
            place_of_key(after, key) is Some <==> place_of_key(records, key) is Some by {
            lemma_place_of_key(before, key);
            lemma_place_of_key(after, key);
            lemma_place_of_key(records, key);
            match place_of_key(before, last.source_key) {
                Some(i) => {
                    assert(after[i].source_key == before[i].source_key);
                    if place_of_key(before, key) is Some {
                        let j = place_of_key(before, key)->0;
                        assert(after[j].source_key == before[j].source_key);
                    }
                    if place_of_key(after, key) is Some {
                        let j = place_of_key(after, key)->0;
                        assert(after[j].source_key == before[j].source_key);
                    }
                },
                None => {
                    assert(after == before.push(last));
                    assert(after.drop_last() =~= before);
                    assert(after.last() == last);
                },
            }
            assert(place_of_key(before, key) is Some <==> place_of_key(shorter, key) is Some);
            assert(place_of_key(records, key) is Some <==> place_of_key(shorter, key) is Some
                || last.source_key == key);
        }
    }
}

/// The facts that are stored, by their keys, after one more was stored.
pub open spec fn stored_one(
    store: Map<Seq<char>, SourceJsonlRecordView>,
    record: SourceJsonlRecordView,
) -> Map<Seq<char>, SourceJsonlRecordView> {
    store.insert(
        record.source_key,
        if store.dom().contains(record.source_key) {
            upserted(store[record.source_key], record)
        } else {
            record
        },
    )
}

/// The facts that are stored after those of `records` were stored, one after the other.
pub open spec fn stored_all(
    store: Map<Seq<char>, SourceJsonlRecordView>,
    records: Seq<SourceJsonlRecordView>,
) -> Map<Seq<char>, SourceJsonlRecordView>
    decreases records.len(),
{
    if records.len() == 0 {
        store
    } else {
        stored_one(stored_all(store, records.drop_last()), records.last())
    }
}

/// Whether a fact is one of a quota.
pub open spec fn is_quota(record: SourceJsonlRecordView) -> bool {
    record.kind == "quota"@
}

/// Whether facts of a batch with one key are merged in the way in which the store would take them
/// up: as quotas where the fact that is held first, in the store or else in the batch, is one, and
/// otherwise not as quotas.
pub open spec fn merges_as_stored(
    store: Map<Seq<char>, SourceJsonlRecordView>,
    records: Seq<SourceJsonlRecordView>,
) -> bool {
    forall|i: int, j: int|
        0 <= i < j < records.len() && place_of_key(
            records,
            (#[trigger] records[j]).source_key,
        ) == Some(i) ==> (is_quota(#[trigger] records[i]) && is_quota(records[j])) == is_quota(
            if store.dom().contains(records[j].source_key) {
                store[records[j].source_key]
            } else {
                records[i]
            },
        )
}

/// Merging two facts first and storing the one that results is storing them in turn, where they
/// are merged in the way in which they are taken up.
pub proof fn lemma_merge_before_store(
    stored: SourceJsonlRecordView,
    first: SourceJsonlRecordView,
    second: SourceJsonlRecordView,
)
    ensures
        (is_quota(first) && is_quota(second)) == is_quota(stored) ==> upserted(
            stored,
            merged(first, second),
        ) == upserted(upserted(stored, first), second),
        (is_quota(first) ==> is_quota(second)) ==> merged(first, second) == upserted(first, second),
{
}

/// What a batch without repeated keys leaves under each key.
proof fn lemma_stored_distinct(
    store: Map<Seq<char>, SourceJsonlRecordView>,
    records: Seq<SourceJsonlRecordView>,
    key: Seq<char>,
)
    requires
        distinct_keys(records),
    ensures
        match place_of_key(records, key) {
            Some(i) => {
                &&& stored_all(store, records).dom().contains(key)
                &&& stored_all(store, records)[key] == (if store.dom().contains(key) {
                    upserted(store[key], records[i])
                } else {
                    records[i]
                })
            },
            None => {
                &&& stored_all(store, records).dom().contains(key) == store.dom().contains(key)
                &&& stored_all(store, records)[key] == store[key]
            },
        },
    decreases records.len(),
{
    if records.len() > 0 {
        let shorter = records.drop_last();
        assert forall|i: int, j: int| 0 <= i < j < shorter.len() implies (
        #[trigger] shorter[i]).source_key != (#[trigger] shorter[j]).source_key by {
            assert(shorter[i] == records[i] && shorter[j] == records[j]);
        }
        lemma_stored_distinct(store, shorter, key);
        lemma_place_of_key(shorter, key);
        if records.last().source_key == key {
            if place_of_key(shorter, key) is Some {
                let i = place_of_key(shorter, key)->0;
                assert(records[i].source_key == records[records.len() - 1].source_key);
            }
        }
    }
}

/// A batch that is merged first and then stored leaves the store as it is when its facts are
/// stored one after the other. Facts with one key may be of different kinds, as long as a quota is
/// not merged with a fact of another kind in a way in which the store would not take it up.
pub proof fn lemma_batch_matches_sequence(
    store: Map<Seq<char>, SourceJsonlRecordView>,
    records: Seq<SourceJsonlRecordView>,
)
    requires
        merges_as_stored(store, records),
    ensures
        stored_all(store, normalized(records)) == stored_all(store, records),
    decreases records.len(),
{
    if records.len() > 0 {
        let (shorter, last) = (records.drop_last(), records.last());
        assert(merges_as_stored(store, shorter)) by {
            assert forall|i: int, j: int|
                0 <= i < j < shorter.len() && place_of_key(
                    shorter,
                    (#[trigger] shorter[j]).source_key,
                ) == Some(i) implies (is_quota(#[trigger] shorter[i]) && is_quota(shorter[j]))
                == is_quota(
                if store.dom().contains(shorter[j].source_key) {
                    store[shorter[j].source_key]
                } else {
                    shorter[i]
                },
            ) by {
                assert(shorter[i] == records[i] && shorter[j] == records[j]);
                assert(place_of_key(records, records[j].source_key) == Some(i));
            }
        }
        lemma_batch_matches_sequence(store, shorter);
        lemma_normalized_keys(shorter);
        lemma_normalized_keys(records);
        lemma_normalized_kinds(shorter);
        let before = normalized(shorter);
        let after = normalized(records);
        let k = last.source_key;
        lemma_place_of_key(before, k);
        match place_of_key(before, k) {
            None => {
                assert(after.drop_last() =~= before);
            },
            Some(n) => {
                let result = stored_all(store, records);
                let m = place_of_key(shorter, before[n].source_key)->0;
                lemma_place_of_key(shorter, k);
                assert(records[records.len() - 1] == last);
                assert(records[m] == shorter[m]);
                assert(before[n].kind == records[m].kind);
                assert(place_of_key(records, records[records.len() - 1].source_key) == Some(m));
                assert((is_quota(before[n]) && is_quota(last)) == is_quota(
                    if store.dom().contains(k) {
                        store[k]
                    } else {
                        before[n]
                    },
                ));
                let stored = stored_all(store, after);
                assert forall|key: Seq<char>|
                    (#[trigger] stored.dom().contains(key)) == result.dom().contains(key)
                        && stored[key] == result[key] by {
                    lemma_stored_distinct(store, after, key);
                    lemma_stored_distinct(store, before, key);
                    lemma_stored_distinct(store, before, k);
                    lemma_place_of_key(before, key);
                    lemma_place_of_key(after, key);
                    if key == k {
                        assert forall|i: int| 0 <= i < n implies (
                        #[trigger] after[i]).source_key != key by {
                            assert(after[i] == before[i]);
                            assert(before[i].source_key != before[n].source_key);
                        }
                        lemma_place_found(after, key, n);
                        if store.dom().contains(k) {
                            lemma_merge_before_store(store[k], before[n], last);
                        } else {
                            lemma_merge_before_store(before[n], before[n], last);
                        }
                    } else {
                        if place_of_key(before, key) is Some {
                            let i = place_of_key(before, key)->0;
                            assert(after[i] == before[i]);
                            assert forall|j: int| 0 <= j < i implies (
                            #[trigger] after[j]).source_key != key by {
                                assert(after[j].source_key == before[j].source_key);
                                assert(before[j].source_key != before[i].source_key);
                            }
                            lemma_place_found(after, key, i);
                        } else if place_of_key(after, key) is Some {
                            let i = place_of_key(after, key)->0;
                            assert(after[i].source_key == before[i].source_key);
                        }
                    }
                }
                assert(stored.dom() =~= result.dom());
                assert(stored =~= result);
            },
        }
    }
}

/// A fact of a normalized batch has the kind of the first fact of the batch with its key.
proof fn lemma_normalized_kinds(records: Seq<SourceJsonlRecordView>)
    ensures
        forall|n: int|
            0 <= n < normalized(records).len() ==> {
                let record = #[trigger] normalized(records)[n];
                let place = place_of_key(records, record.source_key);
                place is Some && 0 <= place->0 < records.len() && records[place->0].kind
                    == record.kind
            },
    decreases records.len(),
{
    if records.len() > 0 {
        let (shorter, last) = (records.drop_last(), records.last());
        lemma_normalized_kinds(shorter);
        lemma_normalized_keys(shorter);
        let (before, after) = (normalized(shorter), normalized(records));
        lemma_place_of_key(before, last.source_key);
        assert forall|n: int| 0 <= n < after.len() implies {
            let record = #[trigger] after[n];
            let place = place_of_key(records, record.source_key);
            place is Some && 0 <= place->0 < records.len() && records[place->0].kind == record.kind
        } by {
            if n < before.len() {
                assert(after[n].source_key == before[n].source_key && after[n].kind
                    == before[n].kind);
                let m = place_of_key(shorter, before[n].source_key)->0;
                assert(records[m] == shorter[m]);
            } else {
                assert(place_of_key(before, last.source_key) is None);
                assert(place_of_key(shorter, last.source_key) is None);
                assert(after[n] == last);
            }
        }
    }
}

fn confirmation(record: &SourceJsonlRecord) -> (r: i64)
    ensures
        r == confirmed_at(record.deep_view()),
{
    match record.last_seen_at_ms {
        Some(at) => at,
        None => record.observed_at_ms,
    }
}

fn see_again(known: &SourceJsonlRecord, seen: &SourceJsonlRecord, as_quota: bool) -> (r:
    SourceJsonlRecord)
    ensures
        r.deep_view() == seen_again(known.deep_view(), seen.deep_view(), as_quota),
{
    SourceJsonlRecord {
        source_key: known.source_key.clone(),
        kind: known.kind.clone(),
        session_id: crate::text::copy_option(&known.session_id),
        observed_at_ms: if as_quota {
            min_i64(known.observed_at_ms, seen.observed_at_ms)
        } else {
            known.observed_at_ms
        },
        last_seen_at_ms: if as_quota {
            Some(max_i64(confirmation(known), confirmation(seen)))
        } else {
            seen_or_stored_value(seen.last_seen_at_ms, known.last_seen_at_ms)
        },
        parent_session_id: seen_or_stored(&seen.parent_session_id, &known.parent_session_id),
        root_session_id: seen_or_stored(&seen.root_session_id, &known.root_session_id),
        turn_id: seen_or_stored(&seen.turn_id, &known.turn_id),
        relation: seen_or_stored(&seen.relation, &known.relation),
        title: seen_or_stored(&seen.title, &known.title),
        started_at_ms: seen_or_stored_value(seen.started_at_ms, known.started_at_ms),
        ended_at_ms: seen_or_stored_value(seen.ended_at_ms, known.ended_at_ms),
        model: seen_or_stored(&seen.model, &known.model),
        service_tier: seen_or_stored(&seen.service_tier, &known.service_tier),
        reasoning_effort: seen_or_stored(&seen.reasoning_effort, &known.reasoning_effort),
        provider: seen_or_stored(&seen.provider, &known.provider),
        plan_type: seen_or_stored(&seen.plan_type, &known.plan_type),
        input_tokens: seen_or_stored_value(seen.input_tokens, known.input_tokens),
        cache_read_tokens: seen_or_stored_value(seen.cache_read_tokens, known.cache_read_tokens),
        cache_write_tokens: seen_or_stored_value(seen.cache_write_tokens, known.cache_write_tokens),
        output_tokens: seen_or_stored_value(seen.output_tokens, known.output_tokens),
        reasoning_tokens: seen_or_stored_value(seen.reasoning_tokens, known.reasoning_tokens),
        total_tokens: seen_or_stored_value(seen.total_tokens, known.total_tokens),
        limit_id: seen_or_stored(&seen.limit_id, &known.limit_id),
        window_kind: seen_or_stored(&seen.window_kind, &known.window_kind),
        used_percent: seen_or_stored_value(seen.used_percent, known.used_percent),
        window_minutes: seen_or_stored_value(seen.window_minutes, known.window_minutes),
        resets_at_ms: seen_or_stored_value(seen.resets_at_ms, known.resets_at_ms),
        quality: seen_or_stored(&seen.quality, &known.quality),
    }
}

/// Merges a fact of a batch into an earlier one with its key.
pub fn merge_record(target: &mut SourceJsonlRecord, incoming: &SourceJsonlRecord)
    ensures
        final(target).deep_view() == merged(old(target).deep_view(), incoming.deep_view()),
{
    let as_quota = same(target.kind.as_str(), "quota") && same(incoming.kind.as_str(), "quota");
    *target = see_again(target, incoming, as_quota);
}

/// A stored fact after a fact with its key was stored.
pub fn upsert_record(stored: &SourceJsonlRecord, incoming: &SourceJsonlRecord) -> (r:
    SourceJsonlRecord)
    ensures
        r.deep_view() == upserted(stored.deep_view(), incoming.deep_view()),
{
    see_again(stored, incoming, same(stored.kind.as_str(), "quota"))
}

fn find_key(records: &Vec<SourceJsonlRecord>, key: &str) -> (r: Option<usize>)
    ensures
        match r {
            Some(i) => i < records@.len() && place_of_key(records.deep_view(), key@) == Some(
                i as int,
            ),
            None => place_of_key(records.deep_view(), key@) is None,
        },
{
    let ghost all = records.deep_view();
    let mut i: usize = 0;
    while i < records.len()
        invariant
            i <= records@.len(),
            all == records.deep_view(),
            place_of_key(all.take(i as int), key@) is None,
        decreases records@.len() - i,
    {
        assert(all.take(i + 1).drop_last() =~= all.take(i as int));
        if same(records[i].source_key.as_str(), key) {
            proof {
                lemma_place_of_key(all.take(i as int), key@);
                assert forall|k: int| 0 <= k < i implies (#[trigger] all[k]).source_key != key@ by {
                    assert(all.take(i as int)[k] == all[k]);
                }
                lemma_place_found(all, key@, i as int);
            }
            return Some(i);
        }
        i = i + 1;
    }
    assert(all.take(i as int) =~= all);
    None
}

/// Makes one fact of those of a batch that have one key.
pub fn normalize_records(records: Vec<SourceJsonlRecord>) -> (r: NormalizedBatch)
    ensures
        r.records.deep_view() == normalized(records.deep_view()),
        r.input_records == records@.len(),
        r.merged_duplicates + r.records@.len() == r.input_records,
{
    let input_records = records.len();
    let ghost all = records.deep_view();
    let mut kept: Vec<SourceJsonlRecord> = Vec::new();
    let mut merged_duplicates: usize = 0;
    let mut i: usize = 0;
    assert(kept.deep_view() =~= normalized(all.take(0)));
    while i < records.len()
        invariant
            i <= records@.len(),
            all == records.deep_view(),
            kept.deep_view() == normalized(all.take(i as int)),
            merged_duplicates + kept@.len() == i,
        decreases records@.len() - i,
    {
        let record = &records[i];
        let ghost before = kept.deep_view();
        proof {
            assert(all.take(i + 1).drop_last() =~= all.take(i as int));
            assert(all.take(i + 1).last() == record.deep_view());
        }
        match find_key(&kept, record.source_key.as_str()) {
            Some(n) => {
                let mut held = kept.remove(n);
                merge_record(&mut held, record);
                kept.insert(n, held);
                merged_duplicates = merged_duplicates + 1;
                assert(kept.deep_view() =~= batched(before, record.deep_view()));
            },
            None => {
                kept.push(record.copy());
                assert(kept.deep_view() =~= batched(before, record.deep_view()));
            },
        }
        i = i + 1;
    }
    assert(all.take(i as int) =~= all);
    NormalizedBatch { records: kept, input_records, merged_duplicates }
}

/// Whether a key is among `keys`.
fn among(keys: &Vec<String>, key: &str) -> (r: bool)
    ensures
        r == keys.deep_view().contains(key@),
{
    let mut i: usize = 0;
    while i < keys.len()
        invariant
            i <= keys@.len(),
            forall|k: int| 0 <= k < i ==> keys.deep_view()[k] != key@,
        decreases keys@.len() - i,
    {
        assert(keys.deep_view()[i as int] == keys@[i as int]@);
        if same(keys[i].as_str(), key) {
            return true;
        }
        i = i + 1;
    }
    false
}

/// How many facts of a batch are new, where `existing` are the keys that are stored.
pub open spec fn new_facts(
    records: Seq<SourceJsonlRecordView>,
    existing: Seq<Seq<char>>,
    quotas_only: bool,
) -> nat
    decreases records.len(),
{
    if records.len() == 0 {
        0
    } else {
        let record = records.last();
        let counts = !existing.contains(record.source_key) && (quotas_only ==> record.kind
            == "quota"@);
        new_facts(records.drop_last(), existing, quotas_only) + if counts {
            1nat
        } else {
            0nat
        }
    }
}

/// The keys of facts that are not among the stored ones.
pub open spec fn new_keys(
    records: Seq<SourceJsonlRecordView>,
    existing: Seq<Seq<char>>,
) -> Set<Seq<char>>
    decreases records.len(),
{
    if records.len() == 0 {
        Set::empty()
    } else if existing.contains(records.last().source_key) {
        new_keys(records.drop_last(), existing)
    } else {
        new_keys(records.drop_last(), existing).insert(records.last().source_key)
    }
}

proof fn lemma_new_keys(records: Seq<SourceJsonlRecordView>, existing: Seq<Seq<char>>)
    ensures
        new_keys(records, existing).finite(),
        forall|key: Seq<char>| #[trigger]
            new_keys(records, existing).contains(key) <==> place_of_key(records, key) is Some
                && !existing.contains(key),
        distinct_keys(records) ==> new_keys(records, existing).len() == new_facts(
            records,
            existing,
            false,
        ),
    decreases records.len(),
{
    if records.len() > 0 {
        let shorter = records.drop_last();
        let key = records.last().source_key;
        lemma_new_keys(shorter, existing);
        if distinct_keys(records) {
            assert(distinct_keys(shorter)) by {
                assert forall|i: int, j: int| 0 <= i < j < shorter.len() implies (
                #[trigger] shorter[i]).source_key != (#[trigger] shorter[j]).source_key by {
                    assert(shorter[i] == records[i] && shorter[j] == records[j]);
                }
            }
            lemma_place_of_key(shorter, key);
            if place_of_key(shorter, key) is Some {
                let i = place_of_key(shorter, key)->0;
                assert(records[i] == shorter[i]);
                assert(records[i].source_key != records[records.len() - 1].source_key);
            }
            assert(!new_keys(shorter, existing).contains(key));
        }
    }
}

/// A batch adds as many facts as it has different keys that are not stored yet.
pub proof fn lemma_each_new_key_counts_once(
    records: Seq<SourceJsonlRecordView>,
    existing: Seq<Seq<char>>,
)
    ensures
        new_facts(normalized(records), existing, false) == new_keys(records, existing).len(),
        new_facts(normalized(records), existing, false) <= records.len(),
{
    let batch = normalized(records);
    lemma_normalized_keys(records);
    lemma_new_keys(records, existing);
    lemma_new_keys(batch, existing);
    assert(new_keys(batch, existing) =~= new_keys(records, existing)) by {
        assert forall|key: Seq<char>| new_keys(batch, existing).contains(key)
            == #[trigger] new_keys(records, existing).contains(key) by {
            assert(place_of_key(batch, key) is Some <==> place_of_key(records, key) is Some);
        }
    }
    lemma_new_facts_are_few(batch, existing);
}

proof fn lemma_new_facts_are_few(records: Seq<SourceJsonlRecordView>, existing: Seq<Seq<char>>)
    ensures
        new_facts(records, existing, false) <= records.len(),
    decreases records.len(),
{
    if records.len() > 0 {
        lemma_new_facts_are_few(records.drop_last(), existing);
    }
}

/// What storing a normalized batch changes, where `existing` are the keys that are stored.
pub fn batch_report(batch: &NormalizedBatch, existing: &Vec<String>) -> (r:
    SourceJsonlBatchReport)
    requires
        batch.records@.len() <= batch.input_records,
    ensures
        r.inserted_events == new_facts(batch.records.deep_view(), existing.deep_view(), false),
        r.duplicate_events == batch.input_records - r.inserted_events,
        r.inserted_quota_samples == new_facts(
            batch.records.deep_view(),
            existing.deep_view(),
            true,
        ),
{
    let ghost all = batch.records.deep_view();
    let ghost keys = existing.deep_view();
    let mut inserted: usize = 0;
    let mut quotas: usize = 0;
    let mut i: usize = 0;
    while i < batch.records.len()
        invariant
            i <= batch.records@.len(),
            all == batch.records.deep_view(),
            keys == existing.deep_view(),
            inserted == new_facts(all.take(i as int), keys, false),
            quotas == new_facts(all.take(i as int), keys, true),
            inserted <= i,
            quotas <= i,
        decreases batch.records@.len() - i,
    {
        let record = &batch.records[i];
        proof {
            assert(all.take(i + 1).drop_last() =~= all.take(i as int));
            assert(all.take(i + 1).last() == record.deep_view());
        }
        if !among(existing, record.source_key.as_str()) {
            inserted = inserted + 1;
            if same(record.kind.as_str(), "quota") {
                quotas = quotas + 1;
            }
        }
        i = i + 1;
    }
    assert(all.take(i as int) =~= all);
    SourceJsonlBatchReport {
        inserted_events: inserted,
        duplicate_events: batch.input_records - inserted,
        inserted_quota_samples: quotas,
    }
}

/// Whether a stored quota was last seen before it was first observed.
pub open spec fn is_inverted_quota(record: SourceJsonlRecordView) -> bool {
    record.kind == "quota"@ && record.last_seen_at_ms is Some && record.last_seen_at_ms->0
        < record.observed_at_ms
}

/// Whether any stored quota was last seen before it was first observed.
pub fn has_inverted_jsonl_quota_times(records: &Vec<SourceJsonlRecord>) -> (r: bool)
    ensures
        r <==> exists|i: int|
            0 <= i < records@.len() && is_inverted_quota(
                (#[trigger] records.deep_view()[i]),
            ),
{
    let mut i: usize = 0;
    while i < records.len()
        invariant
            i <= records@.len(),
            forall|k: int|
                0 <= k < i ==> !is_inverted_quota(#[trigger] records.deep_view()[k]),
        decreases records@.len() - i,
    {
        let record = &records[i];
        assert(records.deep_view()[i as int] == record.deep_view());
        if same(record.kind.as_str(), "quota") {
            if let Some(at) = record.last_seen_at_ms {
                if at < record.observed_at_ms {
                    return true;
                }
            }
        }
        i = i + 1;
    }
    false
}

/// A quota whose times were inverted is mended when its observation is stored again.
pub proof fn lemma_upsert_mends_quota_times(
    stored: SourceJsonlRecordView,
    incoming: SourceJsonlRecordView,
)
    requires
        stored.kind == "quota"@,
        confirmed_at(incoming) >= incoming.observed_at_ms,
    ensures
        !is_inverted_quota(upserted(stored, incoming)),
{
}

} // verus!
