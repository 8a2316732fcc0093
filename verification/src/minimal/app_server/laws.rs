//! What the facts of the account say of the messages of the app server.
use crate::db::SourceAppServerRecordView;
use crate::json::{either_member, lemma_find_by_three, lemma_find_by_two, JsonView};
use crate::minimal::app_server::ingested;
use crate::pipelines::source::app_server::laws::observed_in;
use crate::pipelines::source::app_server::{instant_of, stable_key_of};
use crate::pipelines::source::ccusage::laws::integer_of;
use crate::pipelines::source::jsonl::laws::{known, text_of};
use vstd::prelude::*;
use vstd::string::*;

verus! {

/// Whether a message is an answer to a call of a method.
pub open spec fn answers(message: JsonView, method: Seq<char>, result: JsonView) -> bool {
    &&& message.get("method"@) == Some(JsonView::Text(method))
    &&& message.get("params"@) is None
    &&& message.get("result"@) == Some(result)
}

/// Whether a record is of a kind and was seen at an instant.
pub open spec fn is_seen_at(record: SourceAppServerRecordView, kind: Seq<char>, at: i64) -> bool {
    &&& record.kind == kind
    &&& record.first_seen_at_ms == at
    &&& record.last_seen_at_ms == at
    &&& record.status == "ok"@
}

proof fn lemma_answer(message: JsonView, method: Seq<char>, result: JsonView)
    requires
        answers(message, method, result),
    ensures
        message.find(seq!["params"@, "result"@]) == Some(result),
        result.find(seq!["observed_at"@, "observedAt"@, "timestamp"@]) == (if result.get(
            "observed_at"@,
        ) is Some {
            result.get("observed_at"@)
        } else {
            either_member(result, "observedAt"@, "timestamp"@)
        }),
        result.find(seq!["rateLimits"@, "rate_limits"@]) == either_member(
            result,
            "rateLimits"@,
            "rate_limits"@,
        ),
        "account/read"@ != "account/rateLimits/read"@,
        "account/read"@ != "account/usage/read"@,
        "account/usage/read"@ != "account/rateLimits/read"@,
{
    lemma_find_by_two(message, "params"@, "result"@);
    lemma_find_by_three(result, "observed_at"@, "observedAt"@, "timestamp"@);
    lemma_find_by_two(result, "rateLimits"@, "rate_limits"@);
    reveal_strlit("account/read");
    reveal_strlit("account/rateLimits/read");
    reveal_strlit("account/usage/read");
    assert("account/read"@.len() == 12);
    assert("account/usage/read"@.len() == 18);
    assert("account/rateLimits/read"@.len() == 23);
}

/// The answer to a call that reads the account states the account: its plan, its provider and its
/// kind are those of the members that name them, and its key comes from its address, else its plan.
pub proof fn lemma_account_answer_states_its_account(
    message: JsonView,
    result: JsonView,
    account: JsonView,
    received: i64,
)
    requires
        answers(message, "account/read"@, result),
        result.get("account"@) == Some(account),
    ensures
        ({
            let records = ingested(message, received);
            let plan = text_of(either_member(account, "planType"@, "plan_type"@));
            let name = known(text_of(account.get("email"@)), plan);
            &&& records.len() > 0
            &&& is_seen_at(records[0], "account"@, observed_in(result, received))
            &&& records[0].plan_type == plan
            &&& records[0].provider == text_of(
                either_member(account, "provider"@, "providerName"@),
            )
            &&& records[0].auth_kind == text_of(
                if account.get("type"@) is Some {
                    account.get("type"@)
                } else {
                    either_member(account, "authType"@, "auth_kind"@)
                },
            )
            &&& name is Some ==> records[0].account_key == Some(stable_key_of(name->0))
            &&& name is None ==> records[0].account_key is None
        }),
{
    lemma_answer(message, "account/read"@, result);
    lemma_find_by_two(account, "planType"@, "plan_type"@);
    lemma_find_by_two(account, "provider"@, "providerName"@);
    lemma_find_by_three(account, "type"@, "authType"@, "auth_kind"@);
}

/// The answer to a call that reads the limits states each main window with what it tells: here that
/// of a list of one limit.
pub proof fn lemma_limits_answer_states_its_window(
    message: JsonView,
    result: JsonView,
    limit: JsonView,
    id: Seq<char>,
    window: JsonView,
    received: i64,
)
    requires
        answers(message, "account/rateLimits/read"@, result),
        result.get("account"@) is None,
        either_member(result, "rateLimits"@, "rate_limits"@) == Some(
            JsonView::Array(seq![limit]),
        ),
        limit.get("limitId"@) == Some(JsonView::Text(id)),
        limit.get("primary"@) == Some(window),
        either_member(window, "usedPercent"@, "used_percent"@) is Some,
        either_member(window, "usedPercent"@, "used_percent"@)->0 is Number,
    ensures
        ({
            let records = ingested(message, received);
            &&& records.len() > 0
            &&& is_seen_at(records[0], "quota"@, observed_in(result, received))
            &&& records[0].limit_id == Some(id)
            &&& records[0].window_kind == Some("primary"@)
            &&& records[0].used_percent == Some(
                (either_member(window, "usedPercent"@, "used_percent"@)->0->Number_0).float,
            )
            &&& records[0].window_minutes == integer_of(
                either_member(window, "windowMinutes"@, "window_minutes"@),
            )
            &&& records[0].resets_at_ms == (match either_member(
                window,
                "resetsAt"@,
                "resets_at"@,
            ) {
                Some(value) => instant_of(value),
                None => None,
            })
            &&& records[0].plan_type == text_of(either_member(limit, "planType"@, "plan_type"@))
        }),
{
    lemma_answer(message, "account/rateLimits/read"@, result);
    lemma_find_by_three(limit, "limitId"@, "limit_id"@, "id"@);
    lemma_find_by_two(limit, "planType"@, "plan_type"@);
    lemma_find_by_two(window, "usedPercent"@, "used_percent"@);
    lemma_find_by_two(window, "windowMinutes"@, "window_minutes"@);
    lemma_find_by_two(window, "resetsAt"@, "resets_at"@);
    let items = seq![limit];
    assert(items.drop_last() =~= Seq::<JsonView>::empty());
    assert(items.last() == limit);
    reveal_with_fuel(crate::minimal::app_server::listed_limits, 2);
}

/// The answer to a call that reads the usage states the tokens that the account counts over its
/// life.
pub proof fn lemma_usage_answer_states_its_tokens(
    message: JsonView,
    result: JsonView,
    received: i64,
)
    requires
        answers(message, "account/usage/read"@, result),
        result.get("account"@) is None,
        either_member(result, "rateLimits"@, "rate_limits"@) is None,
    ensures
        ({
            let records = ingested(message, received);
            &&& records.len() == 1
            &&& is_seen_at(records[0], "usage"@, observed_in(result, received))
            &&& records[0].lifetime_tokens == integer_of(
                either_member(result, "lifetimeTokens"@, "lifetime_tokens"@),
            )
            &&& records[0].daily_tokens_json is Some
        }),
{
    lemma_answer(message, "account/usage/read"@, result);
    lemma_find_by_two(result, "lifetimeTokens"@, "lifetime_tokens"@);
}

} // verus!
