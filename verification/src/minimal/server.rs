//! What the small report's service decides of requests.
use crate::json::{Float, INFINITY_RANK};
use crate::text::same;
use vstd::prelude::*;
use vstd::string::*;

verus! {

/// The date that a report is asked for.
#[derive(Debug)]
pub struct ReportQuery {
    pub date: Option<String>,
}

/// A `ReportQuery` with its texts as sequences of characters.
#[verifier::ext_equal]
pub struct ReportQueryView {
    pub date: Option<Seq<char>>,
}

impl DeepView for ReportQuery {
    type V = ReportQueryView;

    open spec fn deep_view(&self) -> ReportQueryView {
        ReportQueryView {
            date: self.date.deep_view(),
        }
    }
}

/// A weekly credit that someone enters for a plan.
#[derive(Debug)]
pub struct CapacityInput {
    pub plan_code: String,
    pub credit: Option<Float>,
    pub effective_from_ms: Option<i64>,
    pub status: Option<String>,
    pub note: Option<String>,
}

/// A `CapacityInput` with its texts as sequences of characters.
#[verifier::ext_equal]
pub struct CapacityInputView {
    pub plan_code: Seq<char>,
    pub credit: Option<Float>,
    pub effective_from_ms: Option<i64>,
    pub status: Option<Seq<char>>,
    pub note: Option<Seq<char>>,
}

impl DeepView for CapacityInput {
    type V = CapacityInputView;

    open spec fn deep_view(&self) -> CapacityInputView {
        CapacityInputView {
            plan_code: self.plan_code@,
            credit: self.credit,
            effective_from_ms: self.effective_from_ms,
            status: self.status.deep_view(),
            note: self.note.deep_view(),
        }
    }
}

/// A weekly credit, for the account and the plan that are known when it is entered.
#[derive(Debug)]
pub struct CapacityRow {
    pub profile_code: String,
    pub account_key: Option<String>,
    pub plan_type: Option<String>,
    pub weekly_credit: Float,
    pub effective_from_ms: i64,
    pub confirmed_at_ms: i64,
}

/// A `CapacityRow` with its texts as sequences of characters.
#[verifier::ext_equal]
pub struct CapacityRowView {
    pub profile_code: Seq<char>,
    pub account_key: Option<Seq<char>>,
    pub plan_type: Option<Seq<char>>,
    pub weekly_credit: Float,
    pub effective_from_ms: i64,
    pub confirmed_at_ms: i64,
}

impl DeepView for CapacityRow {
    type V = CapacityRowView;

    open spec fn deep_view(&self) -> CapacityRowView {
        CapacityRowView {
            profile_code: self.profile_code@,
            account_key: self.account_key.deep_view(),
            plan_type: self.plan_type.deep_view(),
            weekly_credit: self.weekly_credit,
            effective_from_ms: self.effective_from_ms,
            confirmed_at_ms: self.confirmed_at_ms,
        }
    }
}

/// Why a request is not answered.
#[derive(Debug)]
pub enum ServerError {
    InvalidRequest(String),
}

/// Whether a number is finite and not below zero.
pub open spec fn is_amount(credit: Float) -> bool {
    0 <= credit.rank < INFINITY_RANK
}

/// Why a weekly credit is refused, where it is.
pub open spec fn refusal(input: CapacityInputView) -> Option<Seq<char>> {
    if input.plan_code != "usd20"@ && input.plan_code != "usd100"@ && input.plan_code != "usd200"@ {
        Some("plan_code must be usd20, usd100 or usd200"@)
    } else if input.credit is Some && !is_amount(input.credit->0) {
        Some("credit must be a finite non-negative number"@)
    } else if input.credit is None {
        Some("confirmed capacity requires a Credit value"@)
    } else if input.status is Some && input.status->0 != "confirmed"@ {
        Some("the minimal capacity table only stores confirmed values"@)
    } else {
        None
    }
}

fn find_refusal(input: &CapacityInput) -> (r: Option<&'static str>)
    ensures
        r.deep_view() == refusal(input.deep_view()),
{
    let code = input.plan_code.as_str();
    if !same(code, "usd20") && !same(code, "usd100") && !same(code, "usd200") {
        return Some("plan_code must be usd20, usd100 or usd200");
    }
    match input.credit {
        Some(credit) => if credit.rank < 0 || credit.rank >= INFINITY_RANK {
            return Some("credit must be a finite non-negative number");
        },
        None => {
            return Some("confirmed capacity requires a Credit value");
        },
    }
    if let Some(status) = &input.status {
        if !same(status.as_str(), "confirmed") {
            return Some("the minimal capacity table only stores confirmed values");
        }
    }
    None
}

/// The row of a weekly credit that is entered at an instant, or why it is refused. It holds from
/// the instant that it names, or else from when it is entered.
pub fn save_capacity(
    input: CapacityInput,
    account_key: Option<String>,
    plan_type: Option<String>,
    now_ms: i64,
) -> (r: Result<CapacityRow, ServerError>)
    ensures
        match refusal(input.deep_view()) {
            Some(text) => r matches Err(ServerError::InvalidRequest(told)) && told@ == text,
            None => r matches Ok(row) && row.deep_view() == (CapacityRowView {
                profile_code: input.plan_code@,
                account_key: account_key.deep_view(),
                plan_type: plan_type.deep_view(),
                weekly_credit: input.credit->0,
                effective_from_ms: match input.effective_from_ms {
                    Some(at) => at,
                    None => now_ms,
                },
                confirmed_at_ms: now_ms,
            }),
        },
{
    if let Some(text) = find_refusal(&input) {
        return Err(ServerError::InvalidRequest(text.to_owned()));
    }
    let effective_from_ms = match input.effective_from_ms {
        Some(at) => at,
        None => now_ms,
    };
    match input.credit {
        Some(weekly_credit) => Ok(
            CapacityRow {
                profile_code: input.plan_code,
                account_key,
                plan_type,
                weekly_credit,
                effective_from_ms,
                confirmed_at_ms: now_ms,
            },
        ),
        None => Err(
            ServerError::InvalidRequest("confirmed capacity requires a Credit value".to_owned()),
        ),
    }
}

} // verus!
