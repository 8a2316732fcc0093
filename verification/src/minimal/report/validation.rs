//! How local figures stand to those that ccusage gives.
use crate::json::Float;
use crate::minimal::report::rows::{
    RollupDayRow, RollupDayRowView, RollupSessionRow, RollupSessionRowView,
};
use crate::ordered::{
    all_values, lemma_lookup_value, lemma_put_values, lookup, put, OrderedMap,
};
use crate::pipelines::result::materialize::load::or_zero;
use crate::text::{copy_option, holds, same};
use vstd::prelude::*;
use vstd::string::*;

verus! {

/// A row that ccusage gave.
#[derive(Debug)]
pub struct RollupCcusageRow {
    pub run_at_ms: i64,
    pub scope: String,
    pub scope_key: String,
    pub pricing: String,
    pub speed: String,
    pub total_tokens: Option<i64>,
    pub input_tokens: Option<i64>,
    pub cache_read_tokens: Option<i64>,
    pub cache_write_tokens: Option<i64>,
    pub output_tokens: Option<i64>,
    pub reasoning_tokens: Option<i64>,
    pub amount: Option<Float>,
    pub version: Option<String>,
    pub status: String,
}

/// A `RollupCcusageRow` with its texts as sequences of characters.
#[verifier::ext_equal]
pub struct RollupCcusageRowView {
    pub run_at_ms: i64,
    pub scope: Seq<char>,
    pub scope_key: Seq<char>,
    pub pricing: Seq<char>,
    pub speed: Seq<char>,
    pub total_tokens: Option<i64>,
    pub input_tokens: Option<i64>,
    pub cache_read_tokens: Option<i64>,
    pub cache_write_tokens: Option<i64>,
    pub output_tokens: Option<i64>,
    pub reasoning_tokens: Option<i64>,
    pub amount: Option<Float>,
    pub version: Option<Seq<char>>,
    pub status: Seq<char>,
}

impl DeepView for RollupCcusageRow {
    type V = RollupCcusageRowView;

    open spec fn deep_view(&self) -> RollupCcusageRowView {
        RollupCcusageRowView {
            run_at_ms: self.run_at_ms,
            scope: self.scope@,
            scope_key: self.scope_key@,
            pricing: self.pricing@,
            speed: self.speed@,
            total_tokens: self.total_tokens,
            input_tokens: self.input_tokens,
            cache_read_tokens: self.cache_read_tokens,
            cache_write_tokens: self.cache_write_tokens,
            output_tokens: self.output_tokens,
            reasoning_tokens: self.reasoning_tokens,
            amount: self.amount,
            version: self.version.deep_view(),
            status: self.status@,
        }
    }
}

/// A local figure beside that of ccusage.
#[derive(Clone, Copy, Debug, PartialEq, Eq, Structural)]
pub enum Figures {
    Tokens { local: i64, ccusage: Option<i64> },
    Dollars { local_usd: Option<Float>, ccusage_usd: Float },
}

/// A figure of a day or of a session beside that of ccusage.
#[derive(Debug)]
pub struct RollupComparison {
    pub date: String,
    pub session_id: Option<String>,
    pub metric: String,
    pub figures: Figures,
    pub pricing: String,
    pub speed: String,
}

/// A `RollupComparison` with its texts as sequences of characters.
#[verifier::ext_equal]
pub struct RollupComparisonView {
    pub date: Seq<char>,
    pub session_id: Option<Seq<char>>,
    pub metric: Seq<char>,
    pub figures: Figures,
    pub pricing: Seq<char>,
    pub speed: Seq<char>,
}

impl DeepView for RollupComparison {
    type V = RollupComparisonView;

    open spec fn deep_view(&self) -> RollupComparisonView {
        RollupComparisonView {
            date: self.date@,
            session_id: self.session_id.deep_view(),
            metric: self.metric@,
            figures: self.figures,
            pricing: self.pricing@,
            speed: self.speed@,
        }
    }
}

/// The latest run of ccusage over a scope, at a price and a speed. Its amounts stand one after the
/// other.
#[derive(Debug)]
pub struct LatestRun {
    pub scope: String,
    pub pricing: String,
    pub speed: String,
    pub status: String,
    pub version: Option<String>,
    pub rows: usize,
    pub total_tokens: i128,
    pub amounts: Vec<Float>,
}

/// A `LatestRun` with its texts as sequences of characters.
#[verifier::ext_equal]
pub struct LatestRunView {
    pub scope: Seq<char>,
    pub pricing: Seq<char>,
    pub speed: Seq<char>,
    pub status: Seq<char>,
    pub version: Option<Seq<char>>,
    pub rows: usize,
    pub total_tokens: i128,
    pub amounts: Seq<Float>,
}

impl DeepView for LatestRun {
    type V = LatestRunView;

    open spec fn deep_view(&self) -> LatestRunView {
        LatestRunView {
            scope: self.scope@,
            pricing: self.pricing@,
            speed: self.speed@,
            status: self.status@,
            version: self.version.deep_view(),
            rows: self.rows,
            total_tokens: self.total_tokens,
            amounts: self.amounts@,
        }
    }
}

/// The latest runs, and what they are compared with.
#[derive(Debug)]
pub struct RollupValidation {
    pub latest: Vec<LatestRun>,
    pub comparisons: Vec<RollupComparison>,
}

/// A `RollupValidation` with its texts as sequences of characters.
#[verifier::ext_equal]
pub struct RollupValidationView {
    pub latest: Seq<LatestRunView>,
    pub comparisons: Seq<RollupComparisonView>,
}

impl DeepView for RollupValidation {
    type V = RollupValidationView;

    open spec fn deep_view(&self) -> RollupValidationView {
        RollupValidationView {
            latest: self.latest.deep_view(),
            comparisons: self.comparisons.deep_view(),
        }
    }
}

/// What a run is of: a scope, a price and a speed.
pub open spec fn run_key(row: RollupCcusageRowView) -> ((Seq<char>, Seq<char>), Seq<char>) {
    ((row.scope, row.pricing), row.speed)
}

fn key_of(row: &RollupCcusageRow) -> (r: ((String, String), String))
    ensures
        r.deep_view() == run_key(row.deep_view()),
{
    let r = ((row.scope.clone(), row.pricing.clone()), row.speed.clone());
    assert(r.0.deep_view() == (row.scope@, row.pricing@));
    r
}

/// When the latest run of each kind was.
pub open spec fn latest_runs(rows: Seq<RollupCcusageRowView>) -> Seq<
    (((Seq<char>, Seq<char>), Seq<char>), i64),
>
    decreases rows.len(),
{
    if rows.len() == 0 {
        Seq::empty()
    } else {
        let before = latest_runs(rows.drop_last());
        let key = run_key(rows.last());
        let run_at = match lookup::<((String, String), String), i64>(before, key) {
            Some(at) => if at > rows.last().run_at_ms {
                at
            } else {
                rows.last().run_at_ms
            },
            None => rows.last().run_at_ms,
        };
        put::<((String, String), String), i64>(before, key, run_at)
    }
}

/// Whether a row is of the latest run of its kind.
pub open spec fn is_latest(
    runs: Seq<(((Seq<char>, Seq<char>), Seq<char>), i64)>,
    row: RollupCcusageRowView,
) -> bool {
    lookup::<((String, String), String), i64>(runs, run_key(row)) == Some(row.run_at_ms)
}

/// The places of the rows of the latest runs, by what the runs are of.
pub open spec fn grouped_runs(
    rows: Seq<RollupCcusageRowView>,
    runs: Seq<(((Seq<char>, Seq<char>), Seq<char>), i64)>,
) -> Seq<(((Seq<char>, Seq<char>), Seq<char>), Seq<usize>)>
    decreases rows.len(),
{
    if rows.len() == 0 {
        Seq::empty()
    } else {
        let before = grouped_runs(rows.drop_last(), runs);
        if is_latest(runs, rows.last()) {
            let key = run_key(rows.last());
            let group = match lookup::<((String, String), String), Seq<usize>>(before, key) {
                Some(group) => group,
                None => Seq::empty(),
            };
            put::<((String, String), String), Seq<usize>>(
                before,
                key,
                group.push((rows.len() - 1) as usize),
            )
        } else {
            before
        }
    }
}

fn find_latest_runs(rows: &Vec<RollupCcusageRow>) -> (r: OrderedMap<
    ((String, String), String),
    i64,
>)
    ensures
        r.deep_view() == latest_runs(rows.deep_view()),
{
    let ghost all = rows.deep_view();
    let mut runs: OrderedMap<((String, String), String), i64> = OrderedMap::new();
    let mut i: usize = 0;
    while i < rows.len()
        invariant
            i <= rows@.len(),
            all == rows.deep_view(),
            runs.deep_view() == latest_runs(all.take(i as int)),
        decreases rows@.len() - i,
    {
        let row = &rows[i];
        assert(all.take(i + 1).drop_last() =~= all.take(i as int));
        assert(all.take(i + 1).last() == row.deep_view());
        let run_at = runs.entry(key_of(row), row.run_at_ms);
        if *run_at < row.run_at_ms {
            *run_at = row.run_at_ms;
        }
        i = i + 1;
    }
    assert(all.take(i as int) =~= all);
    runs
}

fn group_latest(
    rows: &Vec<RollupCcusageRow>,
    runs: &OrderedMap<((String, String), String), i64>,
) -> (r: OrderedMap<((String, String), String), Vec<usize>>)
    ensures
        r.deep_view() == grouped_runs(rows.deep_view(), runs.deep_view()),
{
    let ghost all = rows.deep_view();
    let mut groups: OrderedMap<((String, String), String), Vec<usize>> = OrderedMap::new();
    let mut i: usize = 0;
    while i < rows.len()
        invariant
            i <= rows@.len(),
            all == rows.deep_view(),
            groups.deep_view() == grouped_runs(all.take(i as int), runs.deep_view()),
        decreases rows@.len() - i,
    {
        let row = &rows[i];
        assert(all.take(i + 1).drop_last() =~= all.take(i as int));
        assert(all.take(i + 1).last() == row.deep_view());
        assert(all.take(i + 1).len() == i + 1);
        let key = key_of(row);
        let latest = match runs.get(&key) {
            Some(at) => *at == row.run_at_ms,
            None => false,
        };
        if latest {
            let empty: Vec<usize> = Vec::new();
            assert(empty.deep_view() =~= Seq::<usize>::empty());
            let group = groups.entry(key, empty);
            let ghost before = group.deep_view();
            group.push(i);
            assert(group.deep_view() =~= before.push(i));
        }
        i = i + 1;
    }
    assert(all.take(i as int) =~= all);
    groups
}

/// Whether the row at a place came out well.
pub open spec fn is_ok(rows: Seq<RollupCcusageRowView>, place: usize) -> bool {
    rows[place as int].status == "ok"@
}

/// How a run came out: well, in part, or not at all.
pub open spec fn run_status(rows: Seq<RollupCcusageRowView>, group: Seq<usize>) -> Seq<char> {
    if forall|i: int| 0 <= i < group.len() ==> is_ok(rows, #[trigger] group[i]) {
        "ok"@
    } else if exists|i: int| 0 <= i < group.len() && is_ok(rows, #[trigger] group[i]) {
        "partial"@
    } else {
        "failed"@
    }
}

/// The tokens of a run.
pub open spec fn run_tokens(rows: Seq<RollupCcusageRowView>, group: Seq<usize>) -> int
    decreases group.len(),
{
    if group.len() == 0 {
        0
    } else {
        run_tokens(rows, group.drop_last()) + or_zero(rows[group.last() as int].total_tokens)
    }
}

/// The amounts of a run.
pub open spec fn run_amounts(rows: Seq<RollupCcusageRowView>, group: Seq<usize>) -> Seq<Float>
    decreases group.len(),
{
    if group.len() == 0 {
        Seq::empty()
    } else {
        let before = run_amounts(rows, group.drop_last());
        match rows[group.last() as int].amount {
            Some(amount) => before.push(amount),
            None => before,
        }
    }
}

/// The first version that a run tells.
pub open spec fn run_version(rows: Seq<RollupCcusageRowView>, group: Seq<usize>) -> Option<
    Seq<char>,
>
    decreases group.len(),
{
    if group.len() == 0 {
        None
    } else {
        match run_version(rows, group.drop_last()) {
            Some(version) => Some(version),
            None => rows[group.last() as int].version,
        }
    }
}

/// What is told of a run.
pub open spec fn latest_run(
    rows: Seq<RollupCcusageRowView>,
    key: ((Seq<char>, Seq<char>), Seq<char>),
    group: Seq<usize>,
) -> LatestRunView {
    LatestRunView {
        scope: (key.0).0,
        pricing: (key.0).1,
        speed: key.1,
        status: run_status(rows, group),
        version: run_version(rows, group),
        rows: group.len() as usize,
        total_tokens: run_tokens(rows, group) as i128,
        amounts: run_amounts(rows, group),
    }
}

/// Whether all places of groups are places of rows.
pub open spec fn places_within(group: Seq<usize>, len: nat) -> bool {
    forall|i: int| 0 <= i < group.len() ==> (#[trigger] group[i]) < len
}

fn summarize_run(
    rows: &Vec<RollupCcusageRow>,
    key: ((String, String), String),
    group: &Vec<usize>,
) -> (r: LatestRun)
    requires
        places_within(group@, rows@.len()),
    ensures
        r.deep_view() == latest_run(rows.deep_view(), key.deep_view(), group@),
{
    let ghost all = rows.deep_view();
    let ghost places = group@;
    let ghost told = key.deep_view();
    let mut every = true;
    let mut any = false;
    let mut total: i128 = 0;
    let mut amounts: Vec<Float> = Vec::new();
    let mut version: Option<String> = None;
    let mut i: usize = 0;
    while i < group.len()
        invariant
            i <= group@.len(),
            places == group@,
            all == rows.deep_view(),
            places_within(group@, rows@.len()),
            every == (forall|k: int| 0 <= k < i ==> is_ok(all, #[trigger] places[k])),
            any == (exists|k: int| 0 <= k < i && is_ok(all, #[trigger] places[k])),
            total == run_tokens(all, places.take(i as int)),
            -(i as int) * 0x8000_0000_0000_0000 <= total <= i as int * 0x7fff_ffff_ffff_ffff,
            amounts@ == run_amounts(all, places.take(i as int)),
            version.deep_view() == run_version(all, places.take(i as int)),
        decreases group@.len() - i,
    {
        assert(places.take(i + 1).drop_last() =~= places.take(i as int));
        assert(places.take(i + 1).last() == places[i as int]);
        assert(places[i as int] < rows@.len());
        let row = &rows[group[i]];
        assert(all[places[i as int] as int] == row.deep_view());
        if same(row.status.as_str(), "ok") {
            assert(is_ok(all, places[i as int]));
            any = true;
        } else {
            assert(!is_ok(all, places[i as int]));
            every = false;
        }
        if let Some(tokens) = row.total_tokens {
            total = total + tokens as i128;
        }
        if let Some(amount) = row.amount {
            amounts.push(amount);
        }
        if version.is_none() {
            version = copy_option(&row.version);
        }
        i = i + 1;
    }
    assert(places.take(i as int) =~= places);
    let status = if every {
        "ok"
    } else if any {
        "partial"
    } else {
        "failed"
    };
    let ((scope, pricing), speed) = key;
    let r = LatestRun {
        scope,
        pricing,
        speed,
        status: status.to_owned(),
        version,
        rows: group.len(),
        total_tokens: total,
        amounts,
    };
    assert(r.deep_view() =~= latest_run(all, told, places));
    r
}

/// A figure of a row beside the local one.
pub open spec fn comparison(
    row: RollupCcusageRowView,
    date: Seq<char>,
    session_id: Option<Seq<char>>,
    metric: Seq<char>,
    figures: Figures,
) -> RollupComparisonView {
    RollupComparisonView {
        date,
        session_id,
        metric,
        figures,
        pricing: row.pricing,
        speed: row.speed,
    }
}

fn compare_figures(
    row: &RollupCcusageRow,
    date: &str,
    session_id: Option<String>,
    metric: &str,
    figures: Figures,
) -> (r: RollupComparison)
    ensures
        r.deep_view() == comparison(
            row.deep_view(),
            date@,
            session_id.deep_view(),
            metric@,
            figures,
        ),
{
    RollupComparison {
        date: date.to_owned(),
        session_id,
        metric: metric.to_owned(),
        figures,
        pricing: row.pricing.clone(),
        speed: row.speed.clone(),
    }
}

/// Comparisons with one of tokens, where the row tells them.
pub open spec fn with_tokens(
    comparisons: Seq<RollupComparisonView>,
    row: RollupCcusageRowView,
    date: Seq<char>,
    metric: Seq<char>,
    local: i64,
    ccusage: Option<i64>,
) -> Seq<RollupComparisonView> {
    if ccusage is Some {
        comparisons.push(
            comparison(row, date, None, metric, Figures::Tokens { local, ccusage }),
        )
    } else {
        comparisons
    }
}

fn comparison_if_present(
    comparisons: &mut Vec<RollupComparison>,
    row: &RollupCcusageRow,
    date: &str,
    metric: &str,
    local: Option<i64>,
    ccusage: Option<i64>,
)
    ensures
        final(comparisons).deep_view() == with_tokens(
            old(comparisons).deep_view(),
            row.deep_view(),
            date@,
            metric@,
            or_zero(local),
            ccusage,
        ),
{
    let local = match local {
        Some(tokens) => tokens,
        None => 0,
    };
    if ccusage.is_some() {
        let ghost before = comparisons.deep_view();
        let made = compare_figures(row, date, None, metric, Figures::Tokens { local, ccusage });
        let ghost told = made.deep_view();
        comparisons.push(made);
        assert(comparisons.deep_view() =~= before.push(told));
    }
}

/// The comparisons of a row with the day that it is of.
pub open spec fn day_comparisons(
    comparisons: Seq<RollupComparisonView>,
    row: RollupCcusageRowView,
    day: RollupDayRowView,
) -> Seq<RollupComparisonView> {
    let local = day.metric;
    let total = comparisons.push(
        comparison(
            row,
            day.date,
            None,
            "total_tokens"@,
            Figures::Tokens { local: or_zero(local.total), ccusage: row.total_tokens },
        ),
    );
    let input = with_tokens(
        total,
        row,
        day.date,
        "input_tokens"@,
        or_zero(local.input),
        row.input_tokens,
    );
    let cached = with_tokens(
        input,
        row,
        day.date,
        "cache_read_tokens"@,
        or_zero(local.cached),
        row.cache_read_tokens,
    );
    let written = with_tokens(
        cached,
        row,
        day.date,
        "cache_write_tokens"@,
        or_zero(local.cache_write),
        row.cache_write_tokens,
    );
    let output = with_tokens(
        written,
        row,
        day.date,
        "output_tokens"@,
        or_zero(local.output),
        row.output_tokens,
    );
    let reasoning = with_tokens(
        output,
        row,
        day.date,
        "reasoning_tokens"@,
        or_zero(local.reasoning),
        row.reasoning_tokens,
    );
    match row.amount {
        Some(amount) => reasoning.push(
            comparison(
                row,
                day.date,
                None,
                "api_usd"@,
                Figures::Dollars { local_usd: local.api_usd, ccusage_usd: amount },
            ),
        ),
        None => reasoning,
    }
}

fn compare_day(comparisons: &mut Vec<RollupComparison>, row: &RollupCcusageRow, day: &RollupDayRow)
    ensures
        final(comparisons).deep_view() == day_comparisons(
            old(comparisons).deep_view(),
            row.deep_view(),
            day.deep_view(),
        ),
{
    let ghost before = comparisons.deep_view();
    let date = day.date.as_str();
    let local = match day.metric.total {
        Some(tokens) => tokens,
        None => 0,
    };
    let figures = Figures::Tokens { local, ccusage: row.total_tokens };
    let made = compare_figures(row, date, None, "total_tokens", figures);
    let ghost told = made.deep_view();
    comparisons.push(made);
    assert(comparisons.deep_view() =~= before.push(told));
    comparison_if_present(
        comparisons,
        row,
        date,
        "input_tokens",
        day.metric.input,
        row.input_tokens,
    );
    comparison_if_present(
        comparisons,
        row,
        date,
        "cache_read_tokens",
        day.metric.cached,
        row.cache_read_tokens,
    );
    comparison_if_present(
        comparisons,
        row,
        date,
        "cache_write_tokens",
        day.metric.cache_write,
        row.cache_write_tokens,
    );
    comparison_if_present(
        comparisons,
        row,
        date,
        "output_tokens",
        day.metric.output,
        row.output_tokens,
    );
    comparison_if_present(
        comparisons,
        row,
        date,
        "reasoning_tokens",
        day.metric.reasoning,
        row.reasoning_tokens,
    );
    if let Some(amount) = row.amount {
        let ghost before = comparisons.deep_view();
        let figures = Figures::Dollars { local_usd: day.metric.api_usd, ccusage_usd: amount };
        let made = compare_figures(row, date, None, "api_usd", figures);
        let ghost told = made.deep_view();
        comparisons.push(made);
        assert(comparisons.deep_view() =~= before.push(told));
    }
}

/// The first day of a date.
pub open spec fn day_of(days: Seq<RollupDayRowView>, date: Seq<char>) -> Option<RollupDayRowView>
    decreases days.len(),
{
    if days.len() == 0 {
        None
    } else if days[0].date == date {
        Some(days[0])
    } else {
        day_of(days.skip(1), date)
    }
}

/// The first turn of a session, or of one that goes back to it.
pub open spec fn turn_of(
    sessions: Seq<RollupSessionRowView>,
    id: Seq<char>,
) -> Option<RollupSessionRowView>
    decreases sessions.len(),
{
    if sessions.len() == 0 {
        None
    } else if sessions[0].root_session_id == Some(id) || sessions[0].session_id == Some(id) {
        Some(sessions[0])
    } else {
        turn_of(sessions.skip(1), id)
    }
}

fn find_day<'a>(days: &'a Vec<RollupDayRow>, date: &str) -> (r: Option<&'a RollupDayRow>)
    ensures
        r.deep_view() == day_of(days.deep_view(), date@),
{
    let ghost all = days.deep_view();
    let mut i: usize = 0;
    assert(all.skip(0) =~= all);
    while i < days.len()
        invariant
            i <= days@.len(),
            all == days.deep_view(),
            day_of(all, date@) == day_of(all.skip(i as int), date@),
        decreases days@.len() - i,
    {
        assert(all.skip(i as int)[0] == days@[i as int].deep_view());
        if same(days[i].date.as_str(), date) {
            return Some(&days[i]);
        }
        assert(all.skip(i as int).skip(1) =~= all.skip(i + 1));
        i = i + 1;
    }
    None
}

fn find_turn<'a>(sessions: &'a Vec<RollupSessionRow>, id: &str) -> (r: Option<
    &'a RollupSessionRow,
>)
    ensures
        r.deep_view() == turn_of(sessions.deep_view(), id@),
{
    let ghost all = sessions.deep_view();
    let mut i: usize = 0;
    assert(all.skip(0) =~= all);
    while i < sessions.len()
        invariant
            i <= sessions@.len(),
            all == sessions.deep_view(),
            turn_of(all, id@) == turn_of(all.skip(i as int), id@),
        decreases sessions@.len() - i,
    {
        assert(all.skip(i as int)[0] == sessions@[i as int].deep_view());
        if holds(&sessions[i].root_session_id, id) || holds(&sessions[i].session_id, id) {
            return Some(&sessions[i]);
        }
        assert(all.skip(i as int).skip(1) =~= all.skip(i + 1));
        i = i + 1;
    }
    None
}

/// Comparisons with those of a row, with the day or the session that it is of.
pub open spec fn with_row(
    comparisons: Seq<RollupComparisonView>,
    row: RollupCcusageRowView,
    days: Seq<RollupDayRowView>,
    sessions: Seq<RollupSessionRowView>,
) -> Seq<RollupComparisonView> {
    if row.scope == "daily"@ {
        match day_of(days, row.scope_key) {
            Some(day) => day_comparisons(comparisons, row, day),
            None => comparisons,
        }
    } else if row.scope == "session"@ {
        match turn_of(sessions, row.scope_key) {
            Some(turn) => comparisons.push(
                comparison(
                    row,
                    turn.local_date,
                    Some(row.scope_key),
                    "total_tokens"@,
                    Figures::Tokens {
                        local: or_zero(turn.metric.total),
                        ccusage: row.total_tokens,
                    },
                ),
            ),
            None => comparisons,
        }
    } else {
        comparisons
    }
}

/// Comparisons with those of the rows at places.
pub open spec fn with_rows(
    comparisons: Seq<RollupComparisonView>,
    rows: Seq<RollupCcusageRowView>,
    group: Seq<usize>,
    days: Seq<RollupDayRowView>,
    sessions: Seq<RollupSessionRowView>,
) -> Seq<RollupComparisonView>
    decreases group.len(),
{
    if group.len() == 0 {
        comparisons
    } else {
        with_row(
            with_rows(comparisons, rows, group.drop_last(), days, sessions),
            rows[group.last() as int],
            days,
            sessions,
        )
    }
}

fn compare_row(
    comparisons: &mut Vec<RollupComparison>,
    row: &RollupCcusageRow,
    days: &Vec<RollupDayRow>,
    sessions: &Vec<RollupSessionRow>,
)
    ensures
        final(comparisons).deep_view() == with_row(
            old(comparisons).deep_view(),
            row.deep_view(),
            days.deep_view(),
            sessions.deep_view(),
        ),
{
    if same(row.scope.as_str(), "daily") {
        if let Some(day) = find_day(days, row.scope_key.as_str()) {
            compare_day(comparisons, row, day);
        }
    } else if same(row.scope.as_str(), "session") {
        if let Some(turn) = find_turn(sessions, row.scope_key.as_str()) {
            let ghost before = comparisons.deep_view();
            let local = match turn.metric.total {
                Some(tokens) => tokens,
                None => 0,
            };
            let made = compare_figures(
                row,
                turn.local_date.as_str(),
                Some(row.scope_key.clone()),
                "total_tokens",
                Figures::Tokens { local, ccusage: row.total_tokens },
            );
            let ghost told = made.deep_view();
            comparisons.push(made);
            assert(comparisons.deep_view() =~= before.push(told));
        }
    }
}

fn compare_rows(
    comparisons: &mut Vec<RollupComparison>,
    rows: &Vec<RollupCcusageRow>,
    group: &Vec<usize>,
    days: &Vec<RollupDayRow>,
    sessions: &Vec<RollupSessionRow>,
)
    requires
        places_within(group@, rows@.len()),
    ensures
        final(comparisons).deep_view() == with_rows(
            old(comparisons).deep_view(),
            rows.deep_view(),
            group@,
            days.deep_view(),
            sessions.deep_view(),
        ),
{
    let ghost before = comparisons.deep_view();
    let ghost places = group@;
    let mut i: usize = 0;
    assert(places.take(0) =~= Seq::empty());
    while i < group.len()
        invariant
            i <= group@.len(),
            places == group@,
            places_within(group@, rows@.len()),
            comparisons.deep_view() == with_rows(
                before,
                rows.deep_view(),
                places.take(i as int),
                days.deep_view(),
                sessions.deep_view(),
            ),
        decreases group@.len() - i,
    {
        assert(places.take(i + 1).drop_last() =~= places.take(i as int));
        assert(places.take(i + 1).last() == places[i as int]);
        assert(places[i as int] < rows@.len());
        compare_row(comparisons, &rows[group[i]], days, sessions);
        i = i + 1;
    }
    assert(places.take(i as int) =~= places);
}

/// The runs of groups of rows.
pub open spec fn runs_of_groups(
    rows: Seq<RollupCcusageRowView>,
    groups: Seq<(((Seq<char>, Seq<char>), Seq<char>), Seq<usize>)>,
) -> Seq<LatestRunView> {
    groups.map_values(
        |entry: (((Seq<char>, Seq<char>), Seq<char>), Seq<usize>)|
            latest_run(rows, entry.0, entry.1),
    )
}

/// The comparisons of groups of rows: only runs that came out well are compared.
pub open spec fn comparisons_of_groups(
    rows: Seq<RollupCcusageRowView>,
    groups: Seq<(((Seq<char>, Seq<char>), Seq<char>), Seq<usize>)>,
    days: Seq<RollupDayRowView>,
    sessions: Seq<RollupSessionRowView>,
) -> Seq<RollupComparisonView>
    decreases groups.len(),
{
    if groups.len() == 0 {
        Seq::empty()
    } else {
        let before = comparisons_of_groups(rows, groups.drop_last(), days, sessions);
        let group = groups.last().1;
        if run_status(rows, group) == "ok"@ {
            with_rows(before, rows, group, days, sessions)
        } else {
            before
        }
    }
}

/// The latest runs of each kind, and how those that came out well stand to days and sessions.
pub open spec fn validation(
    rows: Seq<RollupCcusageRowView>,
    days: Seq<RollupDayRowView>,
    sessions: Seq<RollupSessionRowView>,
) -> RollupValidationView {
    let groups = grouped_runs(rows, latest_runs(rows));
    RollupValidationView {
        latest: runs_of_groups(rows, groups),
        comparisons: comparisons_of_groups(rows, groups, days, sessions),
    }
}

/// Whether the places of all groups are places of rows.
pub open spec fn groups_within(
    groups: Seq<(((Seq<char>, Seq<char>), Seq<char>), Seq<usize>)>,
    len: nat,
) -> bool {
    all_values::<((String, String), String), Seq<usize>>(
        groups,
        |group: Seq<usize>| places_within(group, len),
    )
}

proof fn lemma_groups_within(
    rows: Seq<RollupCcusageRowView>,
    runs: Seq<(((Seq<char>, Seq<char>), Seq<char>), i64)>,
    len: nat,
)
    requires
        rows.len() <= len <= usize::MAX,
    ensures
        groups_within(grouped_runs(rows, runs), len),
    decreases rows.len(),
{
    if rows.len() > 0 {
        lemma_groups_within(rows.drop_last(), runs, len);
        let before = grouped_runs(rows.drop_last(), runs);
        let p = |group: Seq<usize>| places_within(group, len);
        if is_latest(runs, rows.last()) {
            let key = run_key(rows.last());
            lemma_lookup_value::<((String, String), String), Seq<usize>>(before, key, p);
            let group = match lookup::<((String, String), String), Seq<usize>>(before, key) {
                Some(group) => group,
                None => Seq::empty(),
            };
            let longer = group.push((rows.len() - 1) as usize);
            assert(places_within(longer, len));
            lemma_put_values::<((String, String), String), Seq<usize>>(before, key, longer, p);
        }
    }
}

/// The latest runs of each kind, and how those that came out well stand to days and sessions.
pub fn rollup_validation(
    rows: &Vec<RollupCcusageRow>,
    days: &Vec<RollupDayRow>,
    sessions: &Vec<RollupSessionRow>,
) -> (r: RollupValidation)
    ensures
        r.deep_view() == validation(rows.deep_view(), days.deep_view(), sessions.deep_view()),
{
    let ghost told = rows.deep_view();
    let count: usize = rows.len();
    let runs = find_latest_runs(rows);
    let groups = group_latest(rows, &runs).entries;
    let ghost all = groups.deep_view();
    proof {
        lemma_groups_within(told, latest_runs(told), count as nat);
    }
    let ghost wanted = runs_of_groups(told, all);
    let mut latest: Vec<LatestRun> = Vec::new();
    let mut comparisons: Vec<RollupComparison> = Vec::new();
    assert(latest.deep_view() =~= wanted.take(0));
    assert(comparisons.deep_view() =~= Seq::empty());
    for entry in it: groups
        invariant
            told == rows.deep_view(),
            groups_within(all, rows@.len()),
            it.seq().len() == all.len(),
            forall|k: int| 0 <= k < all.len() ==> (#[trigger] it.seq()[k]).deep_view() == all[k],
            wanted == runs_of_groups(told, all),
            latest.deep_view() == wanted.take(it.index()),
            comparisons.deep_view() == comparisons_of_groups(
                told,
                all.take(it.index()),
                days.deep_view(),
                sessions.deep_view(),
            ),
    {
        let ghost i = it.index();
        assert(all[i] == entry.deep_view());
        let (key, group) = entry;
        assert(group.deep_view() =~= group@);
        assert(places_within(all[i].1, rows@.len()));
        let run = summarize_run(rows, key, &group);
        let ok = same(run.status.as_str(), "ok");
        let ghost before = latest.deep_view();
        assert(run.deep_view() =~= wanted[i]);
        latest.push(run);
        assert(latest.deep_view() =~= before.push(wanted[i]));
        assert(wanted.take(i + 1) =~= wanted.take(i).push(wanted[i]));
        assert(all.take(i + 1).drop_last() =~= all.take(i));
        assert(all.take(i + 1).last() == all[i]);
        if ok {
            compare_rows(&mut comparisons, rows, &group, days, sessions);
        }
    }
    assert(wanted.take(all.len() as int) =~= wanted);
    assert(all.take(all.len() as int) =~= all);
    RollupValidation { latest, comparisons }
}

/// Where no row came out well, nothing is compared.
pub proof fn lemma_failed_runs_are_not_compared(
    rows: Seq<RollupCcusageRowView>,
    days: Seq<RollupDayRowView>,
    sessions: Seq<RollupSessionRowView>,
)
    requires
        forall|i: int| 0 <= i < rows.len() ==> (#[trigger] rows[i]).status != "ok"@,
        rows.len() <= usize::MAX,
    ensures
        validation(rows, days, sessions).comparisons == Seq::<RollupComparisonView>::empty(),
{
    let groups = grouped_runs(rows, latest_runs(rows));
    lemma_groups_within(rows, latest_runs(rows), rows.len());
    lemma_groups_hold(rows, latest_runs(rows));
    lemma_failed_groups(rows, groups, days, sessions);
}

proof fn lemma_groups_hold(
    rows: Seq<RollupCcusageRowView>,
    runs: Seq<(((Seq<char>, Seq<char>), Seq<char>), i64)>,
)
    ensures
        all_values::<((String, String), String), Seq<usize>>(
            grouped_runs(rows, runs),
            |group: Seq<usize>| group.len() > 0,
        ),
    decreases rows.len(),
{
    if rows.len() > 0 {
        lemma_groups_hold(rows.drop_last(), runs);
        let before = grouped_runs(rows.drop_last(), runs);
        let p = |group: Seq<usize>| group.len() > 0;
        if is_latest(runs, rows.last()) {
            let key = run_key(rows.last());
            let group = match lookup::<((String, String), String), Seq<usize>>(before, key) {
                Some(group) => group,
                None => Seq::empty(),
            };
            lemma_put_values::<((String, String), String), Seq<usize>>(
                before,
                key,
                group.push((rows.len() - 1) as usize),
                p,
            );
        }
    }
}

proof fn lemma_failed_groups(
    rows: Seq<RollupCcusageRowView>,
    groups: Seq<(((Seq<char>, Seq<char>), Seq<char>), Seq<usize>)>,
    days: Seq<RollupDayRowView>,
    sessions: Seq<RollupSessionRowView>,
)
    requires
        forall|i: int| 0 <= i < rows.len() ==> (#[trigger] rows[i]).status != "ok"@,
        groups_within(groups, rows.len()),
        all_values::<((String, String), String), Seq<usize>>(
            groups,
            |group: Seq<usize>| group.len() > 0,
        ),
    ensures
        comparisons_of_groups(rows, groups, days, sessions) == Seq::<RollupComparisonView>::empty(),
    decreases groups.len(),
{
    if groups.len() > 0 {
        let shorter = groups.drop_last();
        assert forall|i: int| 0 <= i < shorter.len() implies #[trigger] shorter[i] == groups[i] by {}
        lemma_failed_groups(rows, shorter, days, sessions);
        let group = groups.last().1;
        assert(groups[groups.len() - 1].1 == group);
        assert(places_within(group, rows.len()));
        assert(group.len() > 0);
        assert(!is_ok(rows, group[0]));
        assert(run_status(rows, group) != "ok"@) by {
            reveal_strlit("ok");
            reveal_strlit("partial");
            reveal_strlit("failed");
            assert("ok"@.len() == 2);
            assert("partial"@.len() == 7);
            assert("failed"@.len() == 6);
        }
    }
}

} // verus!
