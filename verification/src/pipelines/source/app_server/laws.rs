//! What the facts of the account say of the messages of the app server.
use crate::db::SourceAppServerRecordView;
use crate::json::{either_member, lemma_find_by_three, lemma_find_by_two, JsonView};
use crate::pipelines::source::app_server::{
    account_read, ingested, instant_of, label_of, stable_key_of, IngestContextView,
};
use crate::pipelines::source::ccusage::laws::integer_of;
use crate::pipelines::source::jsonl::laws::{known, text_of};
use vstd::prelude::*;
use vstd::string::*;

verus! {

/// Whether a message is an answer to a call of a method, and no error.
pub open spec fn answers(message: JsonView, method: Seq<char>, result: JsonView) -> bool {
    &&& message.get("error"@) is None
    &&& message.get("method"@) == Some(JsonView::Text(method))
    &&& message.get("params"@) is None
    &&& message.get("result"@) == Some(result)
}

/// When the facts of a result were observed: when it says, else when it was received.
pub open spec fn observed_in(result: JsonView, received: i64) -> i64 {
    let found = if result.get("observed_at"@) is Some {
        result.get("observed_at"@)
    } else {
        either_member(result, "observedAt"@, "timestamp"@)
    };
    match found {
        Some(value) => match instant_of(value) {
            Some(at) => at,
            None => received,
        },
        None => received,
    }
}

/// Whether a record is of an account, as it was seen at an instant.
pub open spec fn is_of_account(
    record: SourceAppServerRecordView,
    kind: Seq<char>,
    context: IngestContextView,
    at: i64,
) -> bool {
    &&& record.kind == kind
    &&& record.first_seen_at_ms == at
    &&& record.last_seen_at_ms == at
    &&& record.account_key == context.account_key
    &&& record.account_label == context.account_label
    &&& record.auth_kind == context.auth_kind
    &&& record.provider == context.provider
    &&& record.status == "ok"@
    &&& record.freshness == Some("settled"@)
}

proof fn lemma_answer(message: JsonView, method: Seq<char>, result: JsonView, received: i64)
    requires
        answers(message, method, result),
    ensures
        message.find(seq!["params"@, "result"@]) == Some(result),
        result.find(seq!["observed_at"@, "observedAt"@, "timestamp"@]) == (if result.get(
            "observed_at"@,
        ) is Some {
            result.get("observed_at"@)
        } else {
            either_member(result, "observedAt"@, "timestamp"@)
        }),
        result.find(seq!["rateLimits"@, "rate_limits"@]) == either_member(
            result,
            "rateLimits"@,
            "rate_limits"@,
        ),
{
    lemma_find_by_two(message, "params"@, "result"@);
    lemma_find_by_three(result, "observed_at"@, "observedAt"@, "timestamp"@);
    lemma_find_by_two(result, "rateLimits"@, "rate_limits"@);
}

proof fn lemma_methods_differ()
    ensures
        "account/read"@ != "account/rateLimits/read"@,
        "account/read"@ != "account/usage/read"@,
        "account/usage/read"@ != "account/rateLimits/read"@,
{
    reveal_strlit("account/read");
    reveal_strlit("account/rateLimits/read");
    reveal_strlit("account/usage/read");
    assert("account/read"@.len() == 12);
    assert("account/usage/read"@.len() == 18);
    assert("account/rateLimits/read"@.len() == 23);
}

/// What an account says of itself: its plan, its provider and its kind are those of the members that
/// name them, and its key comes from its address, else its identity; the label comes from the key.
pub proof fn lemma_account_is_read_by_name(account: JsonView)
    ensures
        ({
            let context = account_read(account);
            let name = known(
                text_of(account.get("email"@)),
                text_of(either_member(account, "id"@, "accountId"@)),
            );
            &&& context.plan_type == text_of(either_member(account, "planType"@, "plan_type"@))
            &&& context.provider == text_of(either_member(account, "provider"@, "providerName"@))
            &&& context.auth_kind == text_of(
                if account.get("type"@) is Some {
                    account.get("type"@)
                } else {
                    either_member(account, "authType"@, "auth_kind"@)
                },
            )
            &&& name is None ==> context.account_key is None && context.account_label is None
            &&& name is Some ==> context.account_key == Some(stable_key_of(name->0))
                && context.account_label == Some(label_of(stable_key_of(name->0)))
        }),
{
    reveal_with_fuel(JsonView::find, 2);
    assert(seq!["email"@].skip(1) =~= Seq::<Seq<char>>::empty());
    lemma_find_by_two(account, "id"@, "accountId"@);
    lemma_find_by_two(account, "planType"@, "plan_type"@);
    lemma_find_by_two(account, "provider"@, "providerName"@);
    lemma_find_by_three(account, "type"@, "authType"@, "auth_kind"@);
}

/// The answer to a call that reads the account states the account that it tells, when it was
/// observed; the messages that follow are of this account.
pub proof fn lemma_account_answer_states_its_account(
    message: JsonView,
    result: JsonView,
    account: JsonView,
    received: i64,
    context: IngestContextView,
)
    requires
        answers(message, "account/read"@, result),
        result.get("account"@) == Some(account),
        either_member(result, "rateLimits"@, "rate_limits"@) is None,
    ensures
        ({
            let (records, after) = ingested(message, received, context);
            &&& after == account_read(account)
            &&& records.len() > 0
            &&& is_of_account(records[0], "account"@, after, observed_in(result, received))
            &&& records[0].plan_type == after.plan_type
            &&& records[0].used_percent is None && records[0].lifetime_tokens is None
        }),
{
    lemma_answer(message, "account/read"@, result, received);
    lemma_methods_differ();
}

/// Whether a record is of a window of a limit: its percentage, its minutes and its reset are those
/// that the window tells.
pub open spec fn is_of_window(
    record: SourceAppServerRecordView,
    limit: JsonView,
    window: JsonView,
    kind: Seq<char>,
    context: IngestContextView,
    at: i64,
) -> bool {
    let reset = if window.get("resetsAt"@) is Some {
        window.get("resetsAt"@)
    } else {
        either_member(window, "resets_at"@, "resets_at_ms"@)
    };
    let percent = either_member(window, "usedPercent"@, "used_percent"@);
    let minutes = if either_member(window, "windowMinutes"@, "window_minutes"@) is Some {
        either_member(window, "windowMinutes"@, "window_minutes"@)
    } else {
        either_member(window, "windowDurationMins"@, "window_duration_mins"@)
    };
    &&& is_of_account(record, "quota"@, context, at)
    &&& record.window_kind == Some(kind)
    &&& record.used_percent == (match percent {
        Some(JsonView::Number(number)) => Some(number.float),
        _ => None,
    })
    &&& record.window_minutes == integer_of(minutes)
    &&& record.resets_at_ms == (match reset {
        Some(value) => instant_of(value),
        None => None,
    })
    &&& record.plan_type == known(
        text_of(either_member(limit, "planType"@, "plan_type"@)),
        context.plan_type,
    )
}

/// The answer to a call that reads the limits, where these are of one limit, states its main window
/// with what the window tells, under the name of the limit.
pub proof fn lemma_limits_answer_states_its_windows(
    message: JsonView,
    result: JsonView,
    limit: JsonView,
    id: Seq<char>,
    window: JsonView,
    received: i64,
    context: IngestContextView,
)
    requires
        answers(message, "account/rateLimits/read"@, result),
        result.get("account"@) is None,
        either_member(result, "rateLimitsByLimitId"@, "rate_limits_by_limit_id"@) is None,
        either_member(result, "rateLimits"@, "rate_limits"@) == Some(limit),
        limit.get("limitId"@) == Some(JsonView::Text(id)),
        limit.get("primary"@) == Some(window),
        limit.get("secondary"@) is None,
        either_member(window, "usedPercent"@, "used_percent"@) is Some,
        either_member(window, "usedPercent"@, "used_percent"@)->0 is Number,
    ensures
        ({
            let (records, after) = ingested(message, received, context);
            &&& after == context
            &&& records.len() > 0
            &&& is_of_window(
                records[0],
                limit,
                window,
                "primary"@,
                context,
                observed_in(result, received),
            )
            &&& records[0].limit_id == Some(id)
        }),
{
    lemma_answer(message, "account/rateLimits/read"@, result, received);
    lemma_methods_differ();
    lemma_find_by_two(result, "rateLimitsByLimitId"@, "rate_limits_by_limit_id"@);
    lemma_find_by_three(limit, "limitId"@, "limit_id"@, "id"@);
    lemma_find_by_two(limit, "planType"@, "plan_type"@);
    lemma_find_by_two(window, "usedPercent"@, "used_percent"@);
    lemma_find_by_three(window, "resetsAt"@, "resets_at"@, "resets_at_ms"@);
    lemma_minutes(window);
}

proof fn lemma_minutes(window: JsonView)
    ensures
        window.find(
            seq![
                "windowMinutes"@,
                "window_minutes"@,
                "windowDurationMins"@,
                "window_duration_mins"@,
            ],
        ) == (if either_member(window, "windowMinutes"@, "window_minutes"@) is Some {
            either_member(window, "windowMinutes"@, "window_minutes"@)
        } else {
            either_member(window, "windowDurationMins"@, "window_duration_mins"@)
        }),
{
    let keys = seq![
        "windowMinutes"@,
        "window_minutes"@,
        "windowDurationMins"@,
        "window_duration_mins"@,
    ];
    assert(keys.skip(1) =~= seq![
        "window_minutes"@,
        "windowDurationMins"@,
        "window_duration_mins"@,
    ]);
    lemma_find_by_three(
        window,
        "window_minutes"@,
        "windowDurationMins"@,
        "window_duration_mins"@,
    );
    reveal_with_fuel(JsonView::find, 2);
}

/// The answer to a call that reads the usage states the tokens that the account counts over its
/// life.
pub proof fn lemma_usage_answer_states_its_tokens(
    message: JsonView,
    result: JsonView,
    received: i64,
    context: IngestContextView,
)
    requires
        answers(message, "account/usage/read"@, result),
        result.get("account"@) is None,
        either_member(result, "rateLimits"@, "rate_limits"@) is None,
    ensures
        ({
            let (records, after) = ingested(message, received, context);
            &&& after == context
            &&& records.len() == 1
            &&& is_of_account(records[0], "usage"@, context, observed_in(result, received))
            &&& records[0].plan_type == context.plan_type
            &&& records[0].lifetime_tokens == integer_of(
                either_member(result, "lifetimeTokens"@, "lifetime_tokens"@),
            )
            &&& records[0].daily_tokens_json is Some
        }),
{
    lemma_answer(message, "account/usage/read"@, result, received);
    lemma_methods_differ();
    lemma_find_by_two(result, "lifetimeTokens"@, "lifetime_tokens"@);
}

} // verus!
