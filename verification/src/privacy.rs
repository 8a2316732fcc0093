//! JSON values without their private members.
use crate::json::{views, Json, JsonView};
use crate::text::{ascii_lower, same, to_ascii_lowercase};
use vstd::prelude::*;
use vstd::string::*;

verus! {

/// Whether a key is one of the private ones, whatever the case of its letters.
pub open spec fn is_private(key: Seq<char>, private: Seq<Seq<char>>) -> bool {
    private.contains(ascii_lower(key))
}

/// A value without its private members, at any depth.
pub open spec fn sanitized(value: JsonView, private: Seq<Seq<char>>) -> JsonView
    decreases value, 0nat,
{
    match value {
        JsonView::Array(items) => JsonView::Array(sanitized_items(items, private)),
        JsonView::Object(members) => JsonView::Object(
            sanitized_members(members, members.len(), private),
        ),
        other => other,
    }
}

/// The items of an array, each without its private members.
pub open spec fn sanitized_items(items: Seq<JsonView>, private: Seq<Seq<char>>) -> Seq<JsonView>
    decreases items, 0nat,
{
    Seq::new(
        items.len(),
        |i: int|
            if 0 <= i < items.len() {
                sanitized(items[i], private)
            } else {
                JsonView::Null
            },
    )
}

/// The first `n` members of an object, without the private ones.
pub open spec fn sanitized_members(
    members: Seq<(Seq<char>, JsonView)>,
    n: nat,
    private: Seq<Seq<char>>,
) -> Seq<(Seq<char>, JsonView)>
    decreases members, n,
{
    if n == 0 || n > members.len() {
        Seq::empty()
    } else {
        let before = sanitized_members(members, (n - 1) as nat, private);
        if is_private(members[n - 1].0, private) {
            before
        } else {
            before.push((members[n - 1].0, sanitized(members[n - 1].1, private)))
        }
    }
}

/// Whether a value has no private members, at any depth.
pub open spec fn is_clean(value: JsonView, private: Seq<Seq<char>>) -> bool
    decreases value,
{
    match value {
        JsonView::Array(items) => forall|i: int|
            0 <= i < items.len() ==> is_clean(#[trigger] items[i], private),
        JsonView::Object(members) => forall|i: int|
            0 <= i < members.len() ==> !is_private((#[trigger] members[i]).0, private) && is_clean(
                members[i].1,
                private,
            ),
        _ => true,
    }
}

/// No private member is left, at any depth.
pub proof fn lemma_nothing_private_is_left(value: JsonView, private: Seq<Seq<char>>)
    ensures
        is_clean(sanitized(value, private), private),
    decreases value, 0nat,
{
    match value {
        JsonView::Array(items) => {
            let kept = sanitized_items(items, private);
            assert forall|i: int| 0 <= i < kept.len() implies is_clean(
                #[trigger] kept[i],
                private,
            ) by {
                lemma_nothing_private_is_left(items[i], private);
                assert(kept[i] == sanitized(items[i], private));
            }
            assert(sanitized(value, private) == JsonView::Array(kept));
        },
        JsonView::Object(members) => {
            lemma_members_are_clean(members, members.len(), private);
            assert(sanitized(value, private) == JsonView::Object(
                sanitized_members(members, members.len(), private),
            ));
        },
        _ => {},
    }
}

proof fn lemma_members_are_clean(
    members: Seq<(Seq<char>, JsonView)>,
    n: nat,
    private: Seq<Seq<char>>,
)
    requires
        n <= members.len(),
    ensures
        forall|i: int|
            0 <= i < sanitized_members(members, n, private).len() ==> !is_private(
                (#[trigger] sanitized_members(members, n, private)[i]).0,
                private,
            ) && is_clean(sanitized_members(members, n, private)[i].1, private),
    decreases members, n,
{
    if n > 0 {
        lemma_members_are_clean(members, (n - 1) as nat, private);
        lemma_nothing_private_is_left(members[n - 1].1, private);
        let before = sanitized_members(members, (n - 1) as nat, private);
        let after = sanitized_members(members, n, private);
        assert forall|i: int| 0 <= i < after.len() implies !is_private(
            (#[trigger] after[i]).0,
            private,
        ) && is_clean(after[i].1, private) by {
            if i < before.len() {
                assert(after[i] == before[i]);
            } else {
                assert(after[i] == (members[n - 1].0, sanitized(members[n - 1].1, private)));
            }
        }
    }
}

/// A value without private members stays as it is.
pub proof fn lemma_clean_stays(value: JsonView, private: Seq<Seq<char>>)
    requires
        is_clean(value, private),
    ensures
        sanitized(value, private) == value,
    decreases value, 0nat,
{
    match value {
        JsonView::Array(items) => {
            let kept = sanitized_items(items, private);
            assert forall|i: int| 0 <= i < items.len() implies kept[i] == #[trigger] items[i] by {
                lemma_clean_stays(items[i], private);
            }
            assert(kept =~= items);
        },
        JsonView::Object(members) => {
            lemma_clean_members_stay(members, members.len(), private);
            assert(members.take(members.len() as int) =~= members);
        },
        _ => {},
    }
}

proof fn lemma_clean_members_stay(
    members: Seq<(Seq<char>, JsonView)>,
    n: nat,
    private: Seq<Seq<char>>,
)
    requires
        n <= members.len(),
        forall|i: int|
            0 <= i < members.len() ==> !is_private((#[trigger] members[i]).0, private) && is_clean(
                members[i].1,
                private,
            ),
    ensures
        sanitized_members(members, n, private) == members.take(n as int),
    decreases members, n,
{
    if n > 0 {
        lemma_clean_members_stay(members, (n - 1) as nat, private);
        assert(!is_private(members[n - 1].0, private));
        lemma_clean_stays(members[n - 1].1, private);
        assert(sanitized_members(members, n, private) =~= members.take(n as int));
    } else {
        assert(sanitized_members(members, n, private) =~= members.take(0));
    }
}

/// What was once rid of its private members stays as it is.
pub proof fn lemma_sanitizing_is_idempotent(value: JsonView, private: Seq<Seq<char>>)
    ensures
        sanitized(sanitized(value, private), private) == sanitized(value, private),
{
    lemma_nothing_private_is_left(value, private);
    lemma_clean_stays(sanitized(value, private), private);
}

/// Whether a key is one of the private ones.
pub fn names_private(key: &str, private: &[&str]) -> (r: bool)
    ensures
        r == is_private(key@, views(private@)),
{
    let lowered = to_ascii_lowercase(key);
    let ghost names = views(private@);
    let mut i: usize = 0;
    while i < private.len()
        invariant
            i <= private@.len(),
            names == views(private@),
            lowered@ == ascii_lower(key@),
            forall|k: int| 0 <= k < i ==> #[trigger] names[k] != lowered@,
        decreases private@.len() - i,
    {
        if same(private[i], lowered.as_str()) {
            assert(names[i as int] == lowered@);
            return true;
        }
        i = i + 1;
    }
    false
}

/// A copy of a value without its private members.
pub fn without_private(value: &Json, private: &[&str]) -> (r: Json)
    ensures
        r@ == sanitized(value@, views(private@)),
    decreases value,
{
    let ghost names = views(private@);
    match value {
        Json::Array(items) => {
            let mut kept: Vec<Json> = Vec::new();
            let mut i: usize = 0;
            while i < items.len()
                invariant
                    i <= items@.len(),
                    *value == Json::Array(*items),
                    names == views(private@),
                    kept@.len() == i,
                    forall|k: int|
                        0 <= k < i ==> (#[trigger] kept@[k])@ == sanitized(items@[k]@, names),
                decreases items@.len() - i,
            {
                assert(decreases_to!(*value => value->Array_0@[i as int]));
                kept.push(without_private(&items[i], private));
                i = i + 1;
            }
            let r = Json::Array(kept);
            assert(r@->Array_0 =~= sanitized_items(value@->Array_0, names));
            r
        },
        Json::Object(members) => {
            let mut kept: Vec<(String, Json)> = Vec::new();
            let ghost all = value@->Object_0;
            let mut i: usize = 0;
            assert(Json::Object(kept)@->Object_0 =~= sanitized_members(all, 0, names));
            while i < members.len()
                invariant
                    i <= members@.len(),
                    *value == Json::Object(*members),
                    all == value@->Object_0,
                    all.len() == members@.len(),
                    names == views(private@),
                    Json::Object(kept)@->Object_0 == sanitized_members(all, i as nat, names),
                decreases members@.len() - i,
            {
                assert(decreases_to!(*value => value->Object_0@[i as int].1));
                assert(all[i as int] == (members@[i as int].0@, members@[i as int].1@));
                let ghost before = Json::Object(kept)@->Object_0;
                if !names_private(members[i].0.as_str(), private) {
                    let item = without_private(&members[i].1, private);
                    let ghost entry = (members@[i as int].0@, item@);
                    kept.push((members[i].0.clone(), item));
                    assert(Json::Object(kept)@->Object_0 =~= before.push(entry));
                }
                i = i + 1;
            }
            Json::Object(kept)
        },
        _ => value.copy(),
    }
}

} // verus!
