//! The sessions that forks go back to.
use crate::db::{SourceJsonlRecord, SourceJsonlRecordView};
use crate::ordered::{lemma_place, lookup, place, put, Key, OrderedMap};
use crate::text::{copy_option, same};
use vstd::prelude::*;
use vstd::string::*;

verus! {

/// What is known of a session.
#[derive(Debug)]
pub struct SessionMeta {
    pub parent_session_id: Option<String>,
    pub title: Option<String>,
}

/// A `SessionMeta` with its texts as sequences of characters.
#[verifier::ext_equal]
pub struct SessionMetaView {
    pub parent_session_id: Option<Seq<char>>,
    pub title: Option<Seq<char>>,
}

impl DeepView for SessionMeta {
    type V = SessionMetaView;

    open spec fn deep_view(&self) -> SessionMetaView {
        SessionMetaView {
            parent_session_id: self.parent_session_id.deep_view(),
            title: self.title.deep_view(),
        }
    }
}

/// What rows of sessions tell of them: of each the last one that names it.
pub open spec fn sessions_of(rows: Seq<SourceJsonlRecordView>) -> Seq<(Seq<char>, SessionMetaView)>
    decreases rows.len(),
{
    if rows.len() == 0 {
        Seq::empty()
    } else {
        let before = sessions_of(rows.drop_last());
        match rows.last().session_id {
            Some(session_id) => put::<String, SessionMetaView>(
                before,
                session_id,
                SessionMetaView {
                    parent_session_id: rows.last().root_session_id,
                    title: rows.last().title,
                },
            ),
            None => before,
        }
    }
}

/// What rows of sessions tell of them: of each the last one that names it.
pub fn load_sessions(rows: &Vec<SourceJsonlRecord>) -> (r: OrderedMap<String, SessionMeta>)
    ensures
        r.deep_view() == sessions_of(rows.deep_view()),
{
    let ghost all = rows.deep_view();
    let mut sessions: OrderedMap<String, SessionMeta> = OrderedMap::new();
    let mut i: usize = 0;
    while i < rows.len()
        invariant
            i <= rows@.len(),
            all == rows.deep_view(),
            sessions.deep_view() == sessions_of(all.take(i as int)),
        decreases rows@.len() - i,
    {
        assert(all.take(i + 1).drop_last() =~= all.take(i as int));
        assert(all.take(i + 1).last() == rows@[i as int].deep_view());
        if let Some(session_id) = &rows[i].session_id {
            let meta = SessionMeta {
                parent_session_id: copy_option(&rows[i].root_session_id),
                title: copy_option(&rows[i].title),
            };
            sessions.put(session_id.clone(), meta);
        }
        i = i + 1;
    }
    assert(all.take(i as int) =~= all);
    sessions
}

/// The session that a session comes from.
pub open spec fn parent_of(
    sessions: Seq<(Seq<char>, SessionMetaView)>,
    session: Seq<char>,
) -> Option<Seq<char>> {
    match lookup::<String, SessionMetaView>(sessions, session) {
        Some(meta) => meta.parent_session_id,
        None => None,
    }
}

/// The session `n` steps above `session`, where the way goes so far.
pub open spec fn above(
    sessions: Seq<(Seq<char>, SessionMetaView)>,
    session: Seq<char>,
    n: nat,
) -> Option<Seq<char>>
    decreases n,
{
    if n == 0 {
        Some(session)
    } else {
        match above(sessions, session, (n - 1) as nat) {
            Some(current) => parent_of(sessions, current),
            None => None,
        }
    }
}

/// Whether the way up from `session` ends after `n` steps: at a session that comes from none, or at
/// one that it passed before.
pub open spec fn ends_after(
    sessions: Seq<(Seq<char>, SessionMetaView)>,
    session: Seq<char>,
    n: nat,
) -> bool {
    above(sessions, session, n) is Some && (parent_of(
        sessions,
        above(sessions, session, n)->0,
    ) is None || exists|i: nat|
        i < n && #[trigger] above(sessions, session, i) == above(sessions, session, n))
}

/// Whether the way up from `session` ends for the first time after `n` steps.
pub open spec fn first_ends_after(
    sessions: Seq<(Seq<char>, SessionMetaView)>,
    session: Seq<char>,
    n: nat,
) -> bool {
    ends_after(sessions, session, n) && forall|m: nat|
        m < n ==> !#[trigger] ends_after(sessions, session, m)
}

/// Where the way up from `session` ends.
pub open spec fn root_above(
    sessions: Seq<(Seq<char>, SessionMetaView)>,
    session: Seq<char>,
) -> Seq<char> {
    above(sessions, session, choose|n: nat| first_ends_after(sessions, session, n))->0
}

/// The way up from a session ends at one place only.
pub proof fn lemma_one_end(
    sessions: Seq<(Seq<char>, SessionMetaView)>,
    session: Seq<char>,
    m: nat,
    n: nat,
)
    requires
        first_ends_after(sessions, session, m),
        first_ends_after(sessions, session, n),
    ensures
        m == n,
{
}

/// Distinct sessions that all come from others are no more than there are sessions.
proof fn lemma_passed_are_known(
    sessions: Seq<(Seq<char>, SessionMetaView)>,
    passed: Seq<Seq<char>>,
)
    requires
        passed.no_duplicates(),
        forall|i: int|
            0 <= i < passed.len() ==> parent_of(sessions, #[trigger] passed[i]) is Some,
    ensures
        passed.len() <= sessions.len(),
{
    let known = Seq::new(sessions.len(), |i: int| sessions[i].0);
    assert forall|x: Seq<char>| passed.to_set().contains(x) implies known.to_set().contains(x) by {
        let i = passed.index_of(x);
        assert(parent_of(sessions, passed[i]) is Some);
        let k = place::<String, SessionMetaView>(sessions, x);
        lemma_place::<String, SessionMetaView>(sessions, x);
        <String as Key>::is_total(x, sessions[k].0);
        assert(known[k] == x);
    }
    passed.unique_seq_to_set();
    known.lemma_cardinality_of_set();
    vstd::seq_lib::seq_to_set_is_finite(passed);
    vstd::seq_lib::seq_to_set_is_finite(known);
    vstd::set_lib::lemma_len_subset(passed.to_set(), known.to_set());
}

fn was_passed(passed: &Vec<String>, current: &str) -> (r: bool)
    ensures
        r == (exists|i: int| 0 <= i < passed@.len() && (#[trigger] passed@[i])@ == current@),
{
    let mut i: usize = 0;
    while i < passed.len()
        invariant
            i <= passed@.len(),
            forall|k: int| 0 <= k < i ==> (#[trigger] passed@[k])@ != current@,
        decreases passed@.len() - i,
    {
        if same(passed[i].as_str(), current) {
            return true;
        }
        i = i + 1;
    }
    false
}

/// Where the way up from a session ends: at a session that comes from none, or at the first one
/// that it passes again.
pub fn resolve_root(session_id: &str, sessions: &OrderedMap<String, SessionMeta>) -> (r: String)
    ensures
        r@ == root_above(sessions.deep_view(), session_id@),
        exists|n: nat|
            #[trigger] first_ends_after(sessions.deep_view(), session_id@, n) && above(
                sessions.deep_view(),
                session_id@,
                n,
            ) == Some(r@),
{
    let ghost all = sessions.deep_view();
    let mut current = session_id.to_owned();
    let mut passed: Vec<String> = Vec::new();
    loop
        invariant
            all == sessions.deep_view(),
            above(all, session_id@, passed@.len()) == Some(current@),
            forall|i: int|
                0 <= i < passed@.len() ==> above(all, session_id@, i as nat) == Some(
                    (#[trigger] passed.deep_view()[i]),
                ),
            forall|i: int|
                0 <= i < passed@.len() ==> parent_of(all, #[trigger] passed.deep_view()[i])
                    is Some,
            passed.deep_view().no_duplicates(),
            passed@.len() <= all.len(),
        decreases all.len() + 1 - passed@.len(),
    {
        let ghost n = passed@.len();
        let ghost seen = passed.deep_view();
        proof {
            assert forall|m: nat| m < n implies !#[trigger] ends_after(all, session_id@, m) by {
                assert(above(all, session_id@, m) == Some(seen[m as int]));
                assert(parent_of(all, seen[m as int]) is Some);
                if exists|i: nat|
                    i < m && #[trigger] above(all, session_id@, i) == above(all, session_id@, m) {
                    let i = choose|i: nat|
                        i < m && #[trigger] above(all, session_id@, i) == above(
                            all,
                            session_id@,
                            m,
                        );
                    assert(above(all, session_id@, i) == Some(seen[i as int]));
                    assert(seen[i as int] != seen[m as int]);
                }
            }
        }
        if was_passed(&passed, current.as_str()) {
            proof {
                let i = choose|i: int| 0 <= i < passed@.len() && (#[trigger] passed@[i])@ == current@;
                assert(seen[i] == current@);
                assert(above(all, session_id@, i as nat) == above(all, session_id@, n));
                assert(ends_after(all, session_id@, n));
                assert(first_ends_after(all, session_id@, n));
                lemma_one_end(
                    all,
                    session_id@,
                    n,
                    choose|n: nat| first_ends_after(all, session_id@, n),
                );
            }
            return current;
        }
        let parent = match sessions.get(&current) {
            Some(meta) => copy_option(&meta.parent_session_id),
            None => None,
        };
        match parent {
            Some(parent) => {
                let ghost last = current@;
                proof {
                    assert forall|i: int| 0 <= i < seen.len() implies seen[i] != last by {
                        assert(seen[i] == passed@[i]@);
                    }
                }
                passed.push(current);
                current = parent;
                proof {
                    let after = passed.deep_view();
                    assert(after =~= seen.push(last));
                    lemma_passed_are_known(all, after);
                }
            },
            None => {
                proof {
                    assert(ends_after(all, session_id@, n));
                    assert(first_ends_after(all, session_id@, n));
                    lemma_one_end(
                        all,
                        session_id@,
                        n,
                        choose|n: nat| first_ends_after(all, session_id@, n),
                    );
                }
                return current;
            },
        }
    }
}

} // verus!
