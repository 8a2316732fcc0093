//! Sessions and models, as a report shows them.
use crate::json::{text_member, Float, Json, JsonView};
use crate::minimal::report::rows::{RollupSessionRow, RollupSessionRowView, RowMetric};
use crate::minimal::report::sums::{filled, no_sum, sum_with, RollupMetric, RollupMetricView};
use crate::num::{clamp_i64, saturating_add};
use crate::ordered::{lookup, put, with_text, with_texts, OrderedMap, TextSet};
use crate::pipelines::result::materialize::clock::{earlier_of, later_of, max_option, min_option};
use crate::pipelines::result::materialize::load::or_zero;
use crate::text::{copy_option, first_of, first_some, holds, same, text_or};
use vstd::prelude::*;
use vstd::string::*;

verus! {

/// A session, with all that goes back to it.
#[derive(Debug)]
pub struct RollupSessionView {
    pub session_id: String,
    pub root_session_id: Option<String>,
    pub title: Option<String>,
    pub relation: Option<String>,
    pub first_at_ms: Option<i64>,
    pub last_at_ms: Option<i64>,
    pub metric: RollupMetric,
    pub models: TextSet,
    pub fast_states: TextSet,
    pub official_start: Option<Float>,
    pub official_end: Option<Float>,
    pub quality: TextSet,
}

/// A `RollupSessionView` with its texts as sequences of characters.
#[verifier::ext_equal]
pub struct RollupSessionViewView {
    pub session_id: Seq<char>,
    pub root_session_id: Option<Seq<char>>,
    pub title: Option<Seq<char>>,
    pub relation: Option<Seq<char>>,
    pub first_at_ms: Option<i64>,
    pub last_at_ms: Option<i64>,
    pub metric: RollupMetricView,
    pub models: Seq<Seq<char>>,
    pub fast_states: Seq<Seq<char>>,
    pub official_start: Option<Float>,
    pub official_end: Option<Float>,
    pub quality: Seq<Seq<char>>,
}

impl DeepView for RollupSessionView {
    type V = RollupSessionViewView;

    open spec fn deep_view(&self) -> RollupSessionViewView {
        RollupSessionViewView {
            session_id: self.session_id@,
            root_session_id: self.root_session_id.deep_view(),
            title: self.title.deep_view(),
            relation: self.relation.deep_view(),
            first_at_ms: self.first_at_ms,
            last_at_ms: self.last_at_ms,
            metric: self.metric.deep_view(),
            models: self.models.deep_view(),
            fast_states: self.fast_states.deep_view(),
            official_start: self.official_start,
            official_end: self.official_end,
            quality: self.quality.deep_view(),
        }
    }
}

/// A model at a tier.
#[derive(Debug)]
pub struct RollupModelView {
    pub model: String,
    pub tier: Option<String>,
    pub requests: i64,
    pub metric: RollupMetric,
    pub tiers: TextSet,
}

/// A `RollupModelView` with its texts as sequences of characters.
#[verifier::ext_equal]
pub struct RollupModelViewView {
    pub model: Seq<char>,
    pub tier: Option<Seq<char>>,
    pub requests: i64,
    pub metric: RollupMetricView,
    pub tiers: Seq<Seq<char>>,
}

impl DeepView for RollupModelView {
    type V = RollupModelViewView;

    open spec fn deep_view(&self) -> RollupModelViewView {
        RollupModelViewView {
            model: self.model@,
            tier: self.tier.deep_view(),
            requests: self.requests,
            metric: self.metric.deep_view(),
            tiers: self.tiers.deep_view(),
        }
    }
}

/// What a turn used of a model at a tier.
#[derive(Debug)]
pub struct ModelPart {
    pub model: String,
    pub tier: String,
    pub metric: RowMetric,
}

/// A `ModelPart` with its texts as sequences of characters.
#[verifier::ext_equal]
pub struct ModelPartView {
    pub model: Seq<char>,
    pub tier: Seq<char>,
    pub metric: RowMetric,
}

impl DeepView for ModelPart {
    type V = ModelPartView;

    open spec fn deep_view(&self) -> ModelPartView {
        ModelPartView {
            model: self.model@,
            tier: self.tier@,
            metric: self.metric,
        }
    }
}

/// What an item of a list of models tells, where it names a model.
pub open spec fn part_of(item: JsonView) -> Option<ModelPartView> {
    match text_member(item, "model"@) {
        Some(model) => Some(
            ModelPartView {
                model,
                tier: text_or(text_member(item, "tier"@), "unknown"@),
                metric: RowMetric {
                    input: None,
                    cached: None,
                    cache_write: None,
                    output: None,
                    reasoning: None,
                    total: match item.get("tokens"@) {
                        Some(found) => found.as_exact(),
                        None => None,
                    },
                    credit: match item.get("credit"@) {
                        Some(found) => found.as_float(),
                        None => None,
                    },
                    api_usd: match item.get("api_usd"@) {
                        Some(found) => found.as_float(),
                        None => None,
                    },
                },
            },
        ),
        None => None,
    }
}

/// The parts of items.
pub open spec fn parts_of_items(items: Seq<JsonView>) -> Seq<ModelPartView>
    decreases items.len(),
{
    if items.len() == 0 {
        Seq::empty()
    } else {
        let before = parts_of_items(items.drop_last());
        match part_of(items.last()) {
            Some(part) => before.push(part),
            None => before,
        }
    }
}

/// The parts of a list of models.
pub open spec fn parts_of(value: Option<JsonView>) -> Seq<ModelPartView> {
    match value {
        Some(JsonView::Array(items)) => parts_of_items(items),
        _ => Seq::empty(),
    }
}

fn read_part(item: &Json) -> (r: Option<ModelPart>)
    ensures
        r.deep_view() == part_of(item@),
{
    match item.text_member("model") {
        Some(model) => Some(
            ModelPart {
                model,
                tier: match item.text_member("tier") {
                    Some(tier) => tier,
                    None => "unknown".to_owned(),
                },
                metric: RowMetric {
                    input: None,
                    cached: None,
                    cache_write: None,
                    output: None,
                    reasoning: None,
                    total: match item.get("tokens") {
                        Some(found) => found.as_exact(),
                        None => None,
                    },
                    credit: match item.get("credit") {
                        Some(found) => found.as_float(),
                        None => None,
                    },
                    api_usd: match item.get("api_usd") {
                        Some(found) => found.as_float(),
                        None => None,
                    },
                },
            },
        ),
        None => None,
    }
}

/// The parts of a list of models.
pub fn parse_model_breakdown(value: &Option<Json>) -> (r: Vec<ModelPart>)
    ensures
        r.deep_view() == parts_of(value.deep_view()),
{
    let mut parts: Vec<ModelPart> = Vec::new();
    assert(parts.deep_view() =~= Seq::empty());
    if let Some(Json::Array(items)) = value {
        let ghost all = items.deep_view();
        assert(value.deep_view()->0->Array_0 =~= all);
        let mut i: usize = 0;
        while i < items.len()
            invariant
                i <= items@.len(),
                all == items.deep_view(),
                parts.deep_view() == parts_of_items(all.take(i as int)),
            decreases items@.len() - i,
        {
            assert(all.take(i + 1).drop_last() =~= all.take(i as int));
            assert(all.take(i + 1).last() == items@[i as int]@);
            if let Some(part) = read_part(&items[i]) {
                let ghost before = parts.deep_view();
                let ghost told = part.deep_view();
                parts.push(part);
                assert(parts.deep_view() =~= before.push(told));
            }
            i = i + 1;
        }
        assert(all.take(i as int) =~= all);
    }
    parts
}

/// The names of the models of parts.
pub open spec fn names_of(parts: Seq<ModelPartView>) -> Seq<Seq<char>> {
    parts.map_values(|part: ModelPartView| part.model)
}

/// The session that a row goes back to.
pub open spec fn shown_id(row: RollupSessionRowView) -> Seq<char> {
    text_or(
        first_some(first_some(row.root_session_id, row.session_id), row.turn_id),
        "unknown-session"@,
    )
}

/// The relation of a session with one of its rows: a main one stays main.
pub open spec fn relation_with(
    relation: Option<Seq<char>>,
    told: Option<Seq<char>>,
) -> Option<Seq<char>> {
    if relation == Some("main"@) || told == Some("main"@) {
        Some("main"@)
    } else {
        first_some(relation, told)
    }
}

/// A session of which no row was read yet.
pub open spec fn new_view(session_id: Seq<char>) -> RollupSessionViewView {
    RollupSessionViewView {
        session_id,
        root_session_id: None,
        title: None,
        relation: None,
        first_at_ms: None,
        last_at_ms: None,
        metric: no_sum(),
        models: Seq::empty(),
        fast_states: Seq::empty(),
        official_start: None,
        official_end: None,
        quality: Seq::empty(),
    }
}

/// A set with a text, where there is one.
pub open spec fn with_told(texts: Seq<Seq<char>>, text: Option<Seq<char>>) -> Seq<Seq<char>> {
    match text {
        Some(text) => with_text(texts, text),
        None => texts,
    }
}

/// A session with one of its rows.
pub open spec fn view_with(
    view: RollupSessionViewView,
    row: RollupSessionRowView,
) -> RollupSessionViewView {
    RollupSessionViewView {
        session_id: view.session_id,
        root_session_id: first_some(view.root_session_id, row.root_session_id),
        title: first_some(view.title, row.title),
        relation: relation_with(view.relation, row.relation),
        first_at_ms: earlier_of(view.first_at_ms, row.started_at_ms),
        last_at_ms: later_of(view.last_at_ms, first_some(row.ended_at_ms, row.started_at_ms)),
        metric: sum_with(view.metric, filled(row.metric)),
        models: with_texts(
            with_told(view.models, row.primary_model),
            names_of(parts_of(row.model_breakdown)),
        ),
        fast_states: with_told(view.fast_states, row.fast_state),
        official_start: first_some(view.official_start, row.official_start),
        official_end: first_some(row.official_end, view.official_end),
        quality: with_texts(view.quality, row.quality),
    }
}

/// Sessions by their names.
pub open spec fn session_views(rows: Seq<RollupSessionRowView>) -> Seq<
    (Seq<char>, RollupSessionViewView),
>
    decreases rows.len(),
{
    if rows.len() == 0 {
        Seq::empty()
    } else {
        let before = session_views(rows.drop_last());
        let id = shown_id(rows.last());
        let view = match lookup::<String, RollupSessionViewView>(before, id) {
            Some(view) => view,
            None => new_view(id),
        };
        put::<String, RollupSessionViewView>(before, id, view_with(view, rows.last()))
    }
}

/// Whether a session was fast, where that is known.
pub open spec fn is_fast(states: Seq<Seq<char>>) -> Option<bool> {
    if states.len() == 1 {
        if states[0] == "fast"@ {
            Some(true)
        } else if states[0] == "standard"@ {
            Some(false)
        } else {
            None
        }
    } else {
        None
    }
}

impl RollupSessionView {
    /// Whether the session was fast, where that is known.
    pub fn fast(&self) -> (r: Option<bool>)
        ensures
            r == is_fast(self.fast_states.deep_view()),
    {
        if self.fast_states.items.len() == 1 {
            assert(self.fast_states.deep_view()[0] == self.fast_states.items@[0]@);
            if same(self.fast_states.items[0].as_str(), "fast") {
                Some(true)
            } else if same(self.fast_states.items[0].as_str(), "standard") {
                Some(false)
            } else {
                None
            }
        } else {
            None
        }
    }

    fn start(session_id: String) -> (r: Self)
        ensures
            r.deep_view() == new_view(session_id@),
    {
        RollupSessionView {
            session_id,
            root_session_id: None,
            title: None,
            relation: None,
            first_at_ms: None,
            last_at_ms: None,
            metric: RollupMetric::default(),
            models: TextSet::new(),
            fast_states: TextSet::new(),
            official_start: None,
            official_end: None,
            quality: TextSet::new(),
        }
    }

    fn read(&mut self, row: &RollupSessionRow)
        ensures
            final(self).deep_view() == view_with(old(self).deep_view(), row.deep_view()),
    {
        self.root_session_id = first_of(&self.root_session_id, &row.root_session_id);
        self.title = first_of(&self.title, &row.title);
        self.relation = if holds(&self.relation, "main") || holds(&row.relation, "main") {
            Some("main".to_owned())
        } else {
            first_of(&self.relation, &row.relation)
        };
        self.first_at_ms = min_option(self.first_at_ms, row.started_at_ms);
        let last = match row.ended_at_ms {
            Some(ended) => Some(ended),
            None => row.started_at_ms,
        };
        self.last_at_ms = max_option(self.last_at_ms, last);
        self.metric.add(&row.metric.fill());
        if let Some(model) = &row.primary_model {
            self.models.insert(model.as_str());
        }
        if let Some(state) = &row.fast_state {
            self.fast_states.insert(state.as_str());
        }
        if self.official_start.is_none() {
            self.official_start = row.official_start;
        }
        if row.official_end.is_some() {
            self.official_end = row.official_end;
        }
        self.quality.extend(&row.quality.items);
        self.models.extend(&model_breakdown_names(&row.model_breakdown));
    }
}

/// The names of the models of a list.
pub fn model_breakdown_names(value: &Option<Json>) -> (r: Vec<String>)
    ensures
        r.deep_view() == names_of(parts_of(value.deep_view())),
{
    let parts = parse_model_breakdown(value);
    let ghost all = parts.deep_view();
    let ghost wanted = names_of(all);
    let mut names: Vec<String> = Vec::new();
    assert(names.deep_view() =~= wanted.take(0));
    let mut i: usize = 0;
    while i < parts.len()
        invariant
            i <= parts@.len(),
            all == parts.deep_view(),
            wanted == names_of(all),
            names.deep_view() == wanted.take(i as int),
        decreases parts@.len() - i,
    {
        let ghost before = names.deep_view();
        assert(all[i as int] == parts@[i as int].deep_view());
        names.push(parts[i].model.clone());
        assert(names.deep_view() =~= before.push(wanted[i as int]));
        assert(wanted.take(i + 1) =~= wanted.take(i as int).push(wanted[i as int]));
        i = i + 1;
    }
    assert(wanted.take(i as int) =~= wanted);
    names
}

/// Sessions by their names.
pub fn rollup_session_views(rows: &Vec<&RollupSessionRow>) -> (r: OrderedMap<
    String,
    RollupSessionView,
>)
    ensures
        r.deep_view() == session_views(rows.deep_view()),
{
    let ghost all = rows.deep_view();
    let mut views: OrderedMap<String, RollupSessionView> = OrderedMap::new();
    let mut i: usize = 0;
    while i < rows.len()
        invariant
            i <= rows@.len(),
            all == rows.deep_view(),
            views.deep_view() == session_views(all.take(i as int)),
        decreases rows@.len() - i,
    {
        let row = rows[i];
        assert(all.take(i + 1).drop_last() =~= all.take(i as int));
        assert(all.take(i + 1).last() == row.deep_view());
        let named = first_of(&row.root_session_id, &row.session_id);
        let id = match first_of(&named, &row.turn_id) {
            Some(id) => id,
            None => "unknown-session".to_owned(),
        };
        let view = views.entry(id.clone(), RollupSessionView::start(id));
        view.read(row);
        i = i + 1;
    }
    assert(all.take(i as int) =~= all);
    views
}

/// A model of which nothing was read yet.
pub open spec fn new_model(model: Seq<char>, tier: Option<Seq<char>>) -> RollupModelViewView {
    RollupModelViewView { model, tier, requests: 0, metric: no_sum(), tiers: Seq::empty() }
}

/// A model at a tier with one more request.
pub open spec fn model_with(
    view: RollupModelViewView,
    tier: Option<Seq<char>>,
    metric: RowMetric,
) -> RollupModelViewView {
    RollupModelViewView {
        requests: clamp_i64(view.requests + 1),
        metric: sum_with(view.metric, metric),
        tiers: with_told(view.tiers, tier),
        ..view
    }
}

/// Models with what a turn used of one.
pub open spec fn models_with_part(
    models: Seq<((Seq<char>, Seq<char>), RollupModelViewView)>,
    part: ModelPartView,
) -> Seq<((Seq<char>, Seq<char>), RollupModelViewView)> {
    let key = (part.model, part.tier);
    let view = match lookup::<(String, String), RollupModelViewView>(models, key) {
        Some(view) => view,
        None => new_model(part.model, Some(part.tier)),
    };
    put::<(String, String), RollupModelViewView>(
        models,
        key,
        model_with(
            view,
            Some(part.tier),
            RowMetric { total: Some(or_zero(part.metric.total)), ..part.metric },
        ),
    )
}

/// Models with what a turn used of several.
pub open spec fn models_with_parts(
    models: Seq<((Seq<char>, Seq<char>), RollupModelViewView)>,
    parts: Seq<ModelPartView>,
) -> Seq<((Seq<char>, Seq<char>), RollupModelViewView)>
    decreases parts.len(),
{
    if parts.len() == 0 {
        models
    } else {
        models_with_part(models_with_parts(models, parts.drop_last()), parts.last())
    }
}

/// Models with a turn, which tells its models by a list, or only one.
pub open spec fn models_with_row(
    models: Seq<((Seq<char>, Seq<char>), RollupModelViewView)>,
    row: RollupSessionRowView,
) -> Seq<((Seq<char>, Seq<char>), RollupModelViewView)> {
    let parts = parts_of(row.model_breakdown);
    if parts.len() > 0 {
        models_with_parts(models, parts)
    } else {
        match row.primary_model {
            Some(model) => {
                let key = (model, "unknown"@);
                let view = match lookup::<(String, String), RollupModelViewView>(models, key) {
                    Some(view) => view,
                    None => new_model(model, None),
                };
                put::<(String, String), RollupModelViewView>(
                    models,
                    key,
                    model_with(view, None, filled(row.metric)),
                )
            },
            None => models,
        }
    }
}

/// Models by their names and tiers.
pub open spec fn model_views(rows: Seq<RollupSessionRowView>) -> Seq<
    ((Seq<char>, Seq<char>), RollupModelViewView),
>
    decreases rows.len(),
{
    if rows.len() == 0 {
        Seq::empty()
    } else {
        models_with_row(model_views(rows.drop_last()), rows.last())
    }
}

/// The tier of a model: the one that it was told with, else the only one that it was seen at.
pub open spec fn shown_tier(view: RollupModelViewView) -> Option<Seq<char>> {
    match view.tier {
        Some(tier) => Some(tier),
        None => if view.tiers.len() == 1 {
            Some(view.tiers[0])
        } else {
            None
        },
    }
}

impl RollupModelView {
    fn start(model: String, tier: Option<String>) -> (r: Self)
        ensures
            r.deep_view() == new_model(model@, tier.deep_view()),
    {
        RollupModelView {
            model,
            tier,
            requests: 0,
            metric: RollupMetric::default(),
            tiers: TextSet::new(),
        }
    }

    fn read(&mut self, tier: Option<&String>, metric: &RowMetric)
        ensures
            final(self).deep_view() == model_with(
                old(self).deep_view(),
                tier.deep_view(),
                *metric,
            ),
    {
        self.requests = saturating_add(self.requests, 1);
        if let Some(tier) = tier {
            self.tiers.insert(tier.as_str());
        }
        self.metric.add(metric);
    }

    /// The tier of the model.
    pub fn shown_tier(&self) -> (r: Option<String>)
        ensures
            r.deep_view() == shown_tier(self.deep_view()),
    {
        if self.tier.is_some() {
            copy_option(&self.tier)
        } else if self.tiers.items.len() == 1 {
            assert(self.tiers.deep_view()[0] == self.tiers.items@[0]@);
            Some(self.tiers.items[0].clone())
        } else {
            None
        }
    }
}

fn add_parts(models: &mut OrderedMap<(String, String), RollupModelView>, parts: &Vec<ModelPart>)
    ensures
        final(models).deep_view() == models_with_parts(
            old(models).deep_view(),
            parts.deep_view(),
        ),
{
    let ghost before = models.deep_view();
    let ghost all = parts.deep_view();
    let mut i: usize = 0;
    while i < parts.len()
        invariant
            i <= parts@.len(),
            all == parts.deep_view(),
            models.deep_view() == models_with_parts(before, all.take(i as int)),
        decreases parts@.len() - i,
    {
        let part = &parts[i];
        assert(all.take(i + 1).drop_last() =~= all.take(i as int));
        assert(all.take(i + 1).last() == part.deep_view());
        let total = match part.metric.total {
            Some(total) => total,
            None => 0,
        };
        let metric = RowMetric { total: Some(total), ..part.metric };
        let key = (part.model.clone(), part.tier.clone());
        assert(key.deep_view() == (part.model@, part.tier@));
        let view = models.entry(
            key,
            RollupModelView::start(part.model.clone(), Some(part.tier.clone())),
        );
        view.read(Some(&part.tier), &metric);
        i = i + 1;
    }
    assert(all.take(i as int) =~= all);
}

/// Models by their names and tiers.
pub fn rollup_model_views(rows: &Vec<&RollupSessionRow>) -> (r: OrderedMap<
    (String, String),
    RollupModelView,
>)
    ensures
        r.deep_view() == model_views(rows.deep_view()),
{
    let ghost all = rows.deep_view();
    let mut models: OrderedMap<(String, String), RollupModelView> = OrderedMap::new();
    let mut i: usize = 0;
    while i < rows.len()
        invariant
            i <= rows@.len(),
            all == rows.deep_view(),
            models.deep_view() == model_views(all.take(i as int)),
        decreases rows@.len() - i,
    {
        let row = rows[i];
        assert(all.take(i + 1).drop_last() =~= all.take(i as int));
        assert(all.take(i + 1).last() == row.deep_view());
        let parts = parse_model_breakdown(&row.model_breakdown);
        if parts.len() > 0 {
            add_parts(&mut models, &parts);
        } else if let Some(model) = &row.primary_model {
            let key = (model.clone(), "unknown".to_owned());
            assert(key.deep_view() == (model@, "unknown"@));
            let view = models.entry(key, RollupModelView::start(model.clone(), None));
            view.read(None, &row.metric.fill());
        }
        i = i + 1;
    }
    assert(all.take(i as int) =~= all);
    models
}

} // verus!
