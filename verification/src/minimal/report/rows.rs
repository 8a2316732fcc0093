//! The rows that a report is made of.
use crate::json::{Float, Json, JsonView};
use crate::ordered::{with_texts, TextSet};
use crate::text::{pieces, split, trim, trimmed};
use vstd::prelude::*;

verus! {

/// The tokens and the amounts of a row, as far as they are known.
#[derive(Clone, Copy, Debug, PartialEq, Eq, Structural)]
pub struct RowMetric {
    pub input: Option<i64>,
    pub cached: Option<i64>,
    pub cache_write: Option<i64>,
    pub output: Option<i64>,
    pub reasoning: Option<i64>,
    pub total: Option<i64>,
    pub credit: Option<Float>,
    pub api_usd: Option<Float>,
}

/// A day.
#[derive(Debug)]
pub struct RollupDayRow {
    pub date: String,
    pub account_key: Option<String>,
    pub plan_type: Option<String>,
    pub metric: RowMetric,
    pub local_percent: Option<Float>,
    pub account_tokens: Option<i64>,
    pub unobserved_tokens: Option<i64>,
    pub coverage_ratio: Option<Float>,
    pub account_token_freshness: Option<String>,
    pub official_start: Option<Float>,
    pub official_end: Option<Float>,
    pub official_delta: Option<Float>,
    pub reset_count: i64,
    pub quality: TextSet,
}

/// A `RollupDayRow` with its texts as sequences of characters.
#[verifier::ext_equal]
pub struct RollupDayRowView {
    pub date: Seq<char>,
    pub account_key: Option<Seq<char>>,
    pub plan_type: Option<Seq<char>>,
    pub metric: RowMetric,
    pub local_percent: Option<Float>,
    pub account_tokens: Option<i64>,
    pub unobserved_tokens: Option<i64>,
    pub coverage_ratio: Option<Float>,
    pub account_token_freshness: Option<Seq<char>>,
    pub official_start: Option<Float>,
    pub official_end: Option<Float>,
    pub official_delta: Option<Float>,
    pub reset_count: i64,
    pub quality: Seq<Seq<char>>,
}

impl DeepView for RollupDayRow {
    type V = RollupDayRowView;

    open spec fn deep_view(&self) -> RollupDayRowView {
        RollupDayRowView {
            date: self.date@,
            account_key: self.account_key.deep_view(),
            plan_type: self.plan_type.deep_view(),
            metric: self.metric,
            local_percent: self.local_percent,
            account_tokens: self.account_tokens,
            unobserved_tokens: self.unobserved_tokens,
            coverage_ratio: self.coverage_ratio,
            account_token_freshness: self.account_token_freshness.deep_view(),
            official_start: self.official_start,
            official_end: self.official_end,
            official_delta: self.official_delta,
            reset_count: self.reset_count,
            quality: self.quality.deep_view(),
        }
    }
}

/// A minute.
#[derive(Debug)]
pub struct RollupMinuteRow {
    pub minute_start_ms: i64,
    pub local_date: String,
    pub account_key: Option<String>,
    pub plan_type: Option<String>,
    pub window_id: Option<String>,
    pub window_start_ms: Option<i64>,
    pub resets_at_ms: Option<i64>,
    pub reset_marker: bool,
    pub metric: RowMetric,
    pub official_percent: Option<Float>,
    pub official_source: Option<String>,
    pub quality: TextSet,
}

/// A `RollupMinuteRow` with its texts as sequences of characters.
#[verifier::ext_equal]
pub struct RollupMinuteRowView {
    pub minute_start_ms: i64,
    pub local_date: Seq<char>,
    pub account_key: Option<Seq<char>>,
    pub plan_type: Option<Seq<char>>,
    pub window_id: Option<Seq<char>>,
    pub window_start_ms: Option<i64>,
    pub resets_at_ms: Option<i64>,
    pub reset_marker: bool,
    pub metric: RowMetric,
    pub official_percent: Option<Float>,
    pub official_source: Option<Seq<char>>,
    pub quality: Seq<Seq<char>>,
}

impl DeepView for RollupMinuteRow {
    type V = RollupMinuteRowView;

    open spec fn deep_view(&self) -> RollupMinuteRowView {
        RollupMinuteRowView {
            minute_start_ms: self.minute_start_ms,
            local_date: self.local_date@,
            account_key: self.account_key.deep_view(),
            plan_type: self.plan_type.deep_view(),
            window_id: self.window_id.deep_view(),
            window_start_ms: self.window_start_ms,
            resets_at_ms: self.resets_at_ms,
            reset_marker: self.reset_marker,
            metric: self.metric,
            official_percent: self.official_percent,
            official_source: self.official_source.deep_view(),
            quality: self.quality.deep_view(),
        }
    }
}

/// A turn of a session. Its models are told by a list.
#[derive(Debug)]
pub struct RollupSessionRow {
    pub local_date: String,
    pub root_session_id: Option<String>,
    pub session_id: Option<String>,
    pub turn_id: Option<String>,
    pub title: Option<String>,
    pub relation: Option<String>,
    pub started_at_ms: Option<i64>,
    pub ended_at_ms: Option<i64>,
    pub window_id: Option<String>,
    pub primary_model: Option<String>,
    pub fast_state: Option<String>,
    pub model_breakdown: Option<Json>,
    pub metric: RowMetric,
    pub official_start: Option<Float>,
    pub official_end: Option<Float>,
    pub quality: TextSet,
}

/// A `RollupSessionRow` with its texts as sequences of characters.
#[verifier::ext_equal]
pub struct RollupSessionRowView {
    pub local_date: Seq<char>,
    pub root_session_id: Option<Seq<char>>,
    pub session_id: Option<Seq<char>>,
    pub turn_id: Option<Seq<char>>,
    pub title: Option<Seq<char>>,
    pub relation: Option<Seq<char>>,
    pub started_at_ms: Option<i64>,
    pub ended_at_ms: Option<i64>,
    pub window_id: Option<Seq<char>>,
    pub primary_model: Option<Seq<char>>,
    pub fast_state: Option<Seq<char>>,
    pub model_breakdown: Option<JsonView>,
    pub metric: RowMetric,
    pub official_start: Option<Float>,
    pub official_end: Option<Float>,
    pub quality: Seq<Seq<char>>,
}

impl DeepView for RollupSessionRow {
    type V = RollupSessionRowView;

    open spec fn deep_view(&self) -> RollupSessionRowView {
        RollupSessionRowView {
            local_date: self.local_date@,
            root_session_id: self.root_session_id.deep_view(),
            session_id: self.session_id.deep_view(),
            turn_id: self.turn_id.deep_view(),
            title: self.title.deep_view(),
            relation: self.relation.deep_view(),
            started_at_ms: self.started_at_ms,
            ended_at_ms: self.ended_at_ms,
            window_id: self.window_id.deep_view(),
            primary_model: self.primary_model.deep_view(),
            fast_state: self.fast_state.deep_view(),
            model_breakdown: self.model_breakdown.deep_view(),
            metric: self.metric,
            official_start: self.official_start,
            official_end: self.official_end,
            quality: self.quality.deep_view(),
        }
    }
}

/// A weekly credit, and for whom and when it holds.
#[derive(Debug)]
pub struct RollupCapacity {
    pub profile_code: String,
    pub account_key: Option<String>,
    pub plan_type: Option<String>,
    pub weekly_credit: Float,
    pub effective_from_ms: i64,
    pub effective_to_ms: Option<i64>,
}

/// A `RollupCapacity` with its texts as sequences of characters.
#[verifier::ext_equal]
pub struct RollupCapacityView {
    pub profile_code: Seq<char>,
    pub account_key: Option<Seq<char>>,
    pub plan_type: Option<Seq<char>>,
    pub weekly_credit: Float,
    pub effective_from_ms: i64,
    pub effective_to_ms: Option<i64>,
}

impl DeepView for RollupCapacity {
    type V = RollupCapacityView;

    open spec fn deep_view(&self) -> RollupCapacityView {
        RollupCapacityView {
            profile_code: self.profile_code@,
            account_key: self.account_key.deep_view(),
            plan_type: self.plan_type.deep_view(),
            weekly_credit: self.weekly_credit,
            effective_from_ms: self.effective_from_ms,
            effective_to_ms: self.effective_to_ms,
        }
    }
}

/// An account.
#[derive(Debug)]
pub struct RollupAccount {
    pub account_key: Option<String>,
    pub account_label: Option<String>,
    pub auth_kind: Option<String>,
    pub provider: Option<String>,
    pub plan_type: Option<String>,
    pub observed_at_ms: Option<i64>,
    pub freshness: Option<String>,
}

/// A `RollupAccount` with its texts as sequences of characters.
#[verifier::ext_equal]
pub struct RollupAccountView {
    pub account_key: Option<Seq<char>>,
    pub account_label: Option<Seq<char>>,
    pub auth_kind: Option<Seq<char>>,
    pub provider: Option<Seq<char>>,
    pub plan_type: Option<Seq<char>>,
    pub observed_at_ms: Option<i64>,
    pub freshness: Option<Seq<char>>,
}

impl DeepView for RollupAccount {
    type V = RollupAccountView;

    open spec fn deep_view(&self) -> RollupAccountView {
        RollupAccountView {
            account_key: self.account_key.deep_view(),
            account_label: self.account_label.deep_view(),
            auth_kind: self.auth_kind.deep_view(),
            provider: self.provider.deep_view(),
            plan_type: self.plan_type.deep_view(),
            observed_at_ms: self.observed_at_ms,
            freshness: self.freshness.deep_view(),
        }
    }
}

/// A `RollupAccount` of which nothing is known.
pub open spec fn empty_rollup_account() -> RollupAccountView {
    RollupAccountView {
        account_key: None,
        account_label: None,
        auth_kind: None,
        provider: None,
        plan_type: None,
        observed_at_ms: None,
        freshness: None,
    }
}

impl Default for RollupAccount {
    fn default() -> (r: Self)
        ensures
            r.deep_view() == empty_rollup_account(),
    {
        let r = RollupAccount {
            account_key: None,
            account_label: None,
            auth_kind: None,
            provider: None,
            plan_type: None,
            observed_at_ms: None,
            freshness: None,
        };
        assert(r.deep_view() =~= empty_rollup_account());
        r
    }
}

/// The texts of a list that hold anything, without white space at their ends.
pub open spec fn named_flags(parts: Seq<Seq<char>>) -> Seq<Seq<char>>
    decreases parts.len(),
{
    if parts.len() == 0 {
        Seq::empty()
    } else {
        let before = named_flags(parts.drop_last());
        let flag = trimmed(parts.last());
        if flag.len() > 0 {
            before.push(flag)
        } else {
            before
        }
    }
}

/// The flags that a text lists with commas between them.
pub open spec fn flags_of(value: Option<Seq<char>>) -> Seq<Seq<char>> {
    match value {
        Some(text) => with_texts(Seq::empty(), named_flags(pieces(text, ','))),
        None => Seq::empty(),
    }
}

/// The flags that a text lists with commas between them.
pub fn quality_set(value: Option<&str>) -> (r: TextSet)
    ensures
        r.deep_view() == flags_of(value.deep_view()),
{
    let mut flags = TextSet::new();
    if let Some(text) = value {
        let parts = split(text, ',');
        let ghost all = parts.deep_view();
        let mut i: usize = 0;
        while i < parts.len()
            invariant
                i <= parts@.len(),
                all == parts.deep_view(),
                flags.deep_view() == with_texts(Seq::empty(), named_flags(all.take(i as int))),
            decreases parts@.len() - i,
        {
            assert(all.take(i + 1).drop_last() =~= all.take(i as int));
            assert(all.take(i + 1).last() == parts@[i as int]@);
            let flag = trim(parts[i].as_str());
            let ghost before = named_flags(all.take(i as int));
            if !flag.as_str().is_empty() {
                assert(flag@.len() > 0);
                assert(before.push(flag@).drop_last() =~= before);
                flags.insert(flag.as_str());
            } else {
                assert(flag@.len() == 0);
            }
            i = i + 1;
        }
        assert(all.take(i as int) =~= all);
    }
    flags
}

} // verus!
