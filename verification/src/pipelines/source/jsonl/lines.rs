//! The lines of a log, as bytes.
use vstd::prelude::*;
use vstd::string::*;
use vstd::utf8::encode_utf8;

verus! {

const NEW_LINE: u8 = 10;

const CARRIAGE_RETURN: u8 = 13;

const QUOTE: u8 = 34;

/// A line without the characters that end it.
pub open spec fn bare_line(line: Seq<u8>) -> Seq<u8> {
    let cut = if line.len() > 0 && line.last() == 10 {
        line.drop_last()
    } else {
        line
    };
    if cut.len() > 0 && cut.last() == 13 {
        cut.drop_last()
    } else {
        cut
    }
}

/// What stands before the name of a type in a line.
pub open spec fn type_prefix() -> Seq<u8> {
    encode_utf8("\"type\":\""@)
}

/// Whether `part` stands in `line` at `at`.
pub open spec fn stands_at(line: Seq<u8>, part: Seq<u8>, at: int) -> bool {
    at + part.len() <= line.len() && line.subrange(at, at + part.len()) == part
}

/// Whether a line names the type `value`.
pub open spec fn names_type(line: Seq<u8>, value: Seq<u8>) -> bool {
    exists|at: int|
        0 <= at && #[trigger] stands_at(line, type_prefix() + value + seq![34u8], at)
}

/// Where the next quotation mark stands from `from` on.
pub open spec fn next_quote(line: Seq<u8>, from: int) -> Option<int>
    decreases line.len() - from,
{
    if from < 0 || from >= line.len() {
        None
    } else if line[from] == 34 {
        Some(from)
    } else {
        next_quote(line, from + 1)
    }
}

/// A quotation mark that is found stands in the line.
pub proof fn lemma_next_quote(line: Seq<u8>, from: int)
    requires
        0 <= from,
    ensures
        next_quote(line, from) is Some ==> from <= next_quote(line, from)->0 < line.len(),
    decreases line.len() - from,
{
    if from < line.len() && line[from] != 34 {
        lemma_next_quote(line, from + 1);
    }
}

/// The names of the types that a line names from `from` on, up to one that does not end.
pub open spec fn types_from(line: Seq<u8>, from: int) -> Seq<Seq<u8>>
    decreases line.len() - from,
{
    if from < 0 || from + type_prefix().len() >= line.len() {
        Seq::empty()
    } else if stands_at(line, type_prefix(), from) {
        let start = from + type_prefix().len();
        proof {
            lemma_next_quote(line, start);
        }
        match next_quote(line, start) {
            Some(end) => seq![line.subrange(start, end)] + types_from(line, end + 1),
            None => Seq::empty(),
        }
    } else {
        types_from(line, from + 1)
    }
}

/// Whether a type is one that a line may have on its own.
pub open spec fn is_outer_type(name: Seq<u8>) -> bool {
    name == encode_utf8("session_meta"@) || name == encode_utf8("turn_context"@)
}

/// Whether a type is one that an event may have.
pub open spec fn is_event_type(name: Seq<u8>) -> bool {
    name == encode_utf8("token_count"@) || name == encode_utf8("task_started"@) || name
        == encode_utf8("task_complete"@) || name == encode_utf8("task_aborted"@) || name
        == encode_utf8("turn_aborted"@) || name == encode_utf8("thread_settings_applied"@)
}

/// Whether a line may state a fact: it names a type of its own, or an event and its type.
pub open spec fn may_state_a_fact(line: Seq<u8>) -> bool {
    let names = types_from(line, 0);
    ||| exists|i: int| 0 <= i < names.len() && is_outer_type(#[trigger] names[i])
    ||| {
        &&& exists|i: int| 0 <= i < names.len() && #[trigger] names[i] == encode_utf8("event_msg"@)
        &&& exists|i: int| 0 <= i < names.len() && is_event_type(#[trigger] names[i])
    }
}

/// Whether a line is to be read.
pub open spec fn is_relevant(line: Seq<u8>) -> bool {
    line.len() > 0 && may_state_a_fact(line)
}

/// How many bytes the complete lines of `bytes` take: all up to the last end of a line.
pub open spec fn complete_length(bytes: Seq<u8>) -> nat
    decreases bytes.len(),
{
    if bytes.len() == 0 || bytes.last() == 10 {
        bytes.len()
    } else {
        complete_length(bytes.drop_last())
    }
}

/// The lines of `bytes`, each with the character that ends it; what follows the last end of a line
/// is the last line where `tail` asks for it.
pub open spec fn lines_in(bytes: Seq<u8>, tail: bool) -> Seq<Seq<u8>>
    decreases bytes.len(),
{
    match line_end(bytes, 0) {
        Some(end) => {
            proof {
                lemma_line_end(bytes, 0);
            }
            seq![bytes.take(end + 1)] + lines_in(bytes.skip(end + 1), tail)
        },
        None => if tail && bytes.len() > 0 {
            seq![bytes]
        } else {
            Seq::empty()
        },
    }
}

/// Where the first line ends from `from` on.
pub open spec fn line_end(bytes: Seq<u8>, from: int) -> Option<int>
    decreases bytes.len() - from,
{
    if from < 0 || from >= bytes.len() {
        None
    } else if bytes[from] == 10 {
        Some(from)
    } else {
        line_end(bytes, from + 1)
    }
}

/// Where a line ends stands the character that ends it, and none before.
pub proof fn lemma_line_end(bytes: Seq<u8>, from: int)
    requires
        0 <= from,
    ensures
        match line_end(bytes, from) {
            Some(end) => from <= end < bytes.len() && bytes[end] == 10 && forall|i: int|
                from <= i < end ==> #[trigger] bytes[i] != 10,
            None => forall|i: int| from <= i < bytes.len() ==> #[trigger] bytes[i] != 10,
        },
    decreases bytes.len() - from,
{
    if from < bytes.len() && bytes[from] != 10 {
        lemma_line_end(bytes, from + 1);
    }
}

proof fn lemma_line_end_is(bytes: Seq<u8>, from: int, end: int)
    requires
        0 <= from <= end < bytes.len(),
        bytes[end] == 10,
        forall|i: int| from <= i < end ==> #[trigger] bytes[i] != 10,
    ensures
        line_end(bytes, from) == Some(end),
    decreases end - from,
{
    if from < end {
        lemma_line_end_is(bytes, from + 1, end);
    }
}

proof fn lemma_no_line_end(bytes: Seq<u8>, from: int)
    requires
        0 <= from,
        forall|i: int| from <= i < bytes.len() ==> #[trigger] bytes[i] != 10,
    ensures
        line_end(bytes, from) is None,
    decreases bytes.len() - from,
{
    if from < bytes.len() {
        lemma_no_line_end(bytes, from + 1);
    }
}

/// A log that is read in two parts, the first of which ends with a line, has the lines of both.
pub proof fn lemma_lines_in_parts(first: Seq<u8>, second: Seq<u8>, tail: bool)
    requires
        first.len() > 0 ==> first.last() == 10,
    ensures
        lines_in(first + second, tail) == lines_in(first, tail) + lines_in(second, tail),
    decreases first.len(),
{
    let whole = first + second;
    if first.len() == 0 {
        assert(whole =~= second);
        assert(lines_in(first, tail) =~= Seq::empty()) by {
            lemma_no_line_end(first, 0);
        }
        assert(lines_in(first, tail) + lines_in(second, tail) =~= lines_in(second, tail));
    } else {
        lemma_line_end(first, 0);
        assert(first[first.len() - 1] == 10);
        let end = line_end(first, 0)->0;
        assert forall|i: int| 0 <= i < end implies #[trigger] whole[i] != 10 by {
            assert(whole[i] == first[i]);
        }
        lemma_line_end_is(whole, 0, end);
        let rest = first.skip(end + 1);
        assert(whole.take(end + 1) =~= first.take(end + 1));
        assert(whole.skip(end + 1) =~= rest + second);
        if rest.len() > 0 {
            assert(rest.last() == first.last());
        }
        lemma_lines_in_parts(rest, second, tail);
        assert(lines_in(whole, tail) =~= lines_in(first, tail) + lines_in(second, tail));
    }
}

/// What follows the complete lines holds no end of a line: a line that is not complete yet is left.
pub proof fn lemma_rest_is_one_line(bytes: Seq<u8>)
    ensures
        complete_length(bytes) <= bytes.len(),
        complete_length(bytes) > 0 ==> bytes[complete_length(bytes) - 1] == 10,
        forall|i: int| complete_length(bytes) <= i < bytes.len() ==> #[trigger] bytes[i] != 10,
    decreases bytes.len(),
{
    if bytes.len() > 0 && bytes.last() != 10 {
        lemma_rest_is_one_line(bytes.drop_last());
        let shorter = bytes.drop_last();
        assert forall|i: int| complete_length(bytes) <= i < bytes.len() implies #[trigger] bytes[i]
            != 10 by {
            if i < shorter.len() {
                assert(shorter[i] == bytes[i]);
            }
        }
        if complete_length(bytes) > 0 {
            assert(shorter[complete_length(bytes) - 1] == bytes[complete_length(bytes) - 1]);
        }
    }
}

/// The lines that are not complete yet add nothing: the complete lines are those of the complete
/// bytes.
pub proof fn lemma_complete_lines(bytes: Seq<u8>)
    ensures
        lines_in(bytes, false) == lines_in(bytes.take(complete_length(bytes) as int), false),
{
    lemma_rest_is_one_line(bytes);
    let n = complete_length(bytes) as int;
    let (first, rest) = (bytes.take(n), bytes.skip(n));
    assert(bytes =~= first + rest);
    if n > 0 {
        assert(first.last() == bytes[n - 1]);
    }
    lemma_lines_in_parts(first, rest, false);
    assert forall|i: int| 0 <= i < rest.len() implies #[trigger] rest[i] != 10 by {
        assert(rest[i] == bytes[n + i]);
    }
    lemma_no_line_end(rest, 0);
    assert(lines_in(rest, false) =~= Seq::empty());
    assert(lines_in(first, false) + lines_in(rest, false) =~= lines_in(first, false));
}

/// Cuts the characters that end a line.
pub fn trim_line_end(line: &mut Vec<u8>)
    ensures
        final(line)@ == bare_line(old(line)@),
{
    let len: usize = line.len();
    if len > 0 && line[len - 1] == NEW_LINE {
        line.pop();
    }
    let len: usize = line.len();
    if len > 0 && line[len - 1] == CARRIAGE_RETURN {
        line.pop();
    }
}

fn part_stands_at(line: &[u8], part: &[u8], at: usize) -> (r: bool)
    requires
        at <= line@.len(),
    ensures
        r == stands_at(line@, part@, at as int),
{
    let len: usize = line.len();
    if part.len() > len - at {
        return false;
    }
    let mut i: usize = 0;
    while i < part.len()
        invariant
            i <= part@.len(),
            len == line@.len(),
            at + part@.len() <= len,
            forall|k: int| 0 <= k < i ==> line@[at + k] == #[trigger] part@[k],
        decreases part@.len() - i,
    {
        if line[at + i] != part[i] {
            assert(line@.subrange(at as int, at + part@.len())[i as int] != part@[i as int]);
            return false;
        }
        i = i + 1;
    }
    assert(line@.subrange(at as int, at + part@.len()) =~= part@);
    true
}

fn same_bytes(a: &[u8], b: &[u8]) -> (r: bool)
    ensures
        r == (a@ == b@),
{
    if a.len() != b.len() {
        return false;
    }
    let r = part_stands_at(a, b, 0);
    assert(a@.subrange(0, b@.len() as int) =~= a@);
    r
}

/// Whether a line names the type `value`.
pub fn has_json_type(line: &[u8], value: &str) -> (r: bool)
    ensures
        r == names_type(line@, encode_utf8(value@)),
{
    let prefix = "\"type\":\"".as_bytes();
    let name = value.as_bytes();
    let ghost wanted = type_prefix() + name@ + seq![34u8];
    let len: usize = line.len();
    let mut at: usize = 0;
    while at < len
        invariant
            len == line@.len(),
            at <= len,
            prefix@ == type_prefix(),
            name@ == encode_utf8(value@),
            wanted == type_prefix() + name@ + seq![34u8],
            forall|k: int| 0 <= k < at ==> !#[trigger] stands_at(line@, wanted, k),
        decreases len - at,
    {
        if part_stands_at(line, prefix, at) {
            let start: usize = at + prefix.len();
            if part_stands_at(line, name, start) {
                let end: usize = start + name.len();
                if end < len && line[end] == QUOTE {
                    assert(line@.subrange(at as int, at + wanted.len()) =~= wanted) by {
                        assert(line@.subrange(at as int, start as int) =~= prefix@);
                        assert(line@.subrange(start as int, end as int) =~= name@);
                        assert forall|k: int| 0 <= k < wanted.len() implies #[trigger] line@[at + k]
                            == wanted[k] by {
                            if k < prefix@.len() {
                                assert(line@.subrange(at as int, start as int)[k] == prefix@[k]);
                            } else if k < prefix@.len() + name@.len() {
                                assert(line@.subrange(start as int, end as int)[k - prefix@.len()]
                                    == name@[k - prefix@.len()]);
                            }
                        }
                    }
                    assert(stands_at(line@, wanted, at as int));
                    return true;
                }
            }
        }
        assert(!stands_at(line@, wanted, at as int)) by {
            if stands_at(line@, wanted, at as int) {
                let p = prefix@.len() as int;
                let n = name@.len() as int;
                let whole = line@.subrange(at as int, at + wanted.len());
                let first = line@.subrange(at as int, at + p);
                assert(first =~= prefix@) by {
                    assert forall|k: int| 0 <= k < p implies #[trigger] first[k] == prefix@[k] by {
                        assert(whole[k] == wanted[k]);
                    }
                }
                let second = line@.subrange(at + p, at + p + n);
                assert(second =~= name@) by {
                    assert forall|k: int| 0 <= k < n implies #[trigger] second[k] == name@[k] by {
                        assert(whole[p + k] == wanted[p + k]);
                    }
                }
                assert(line@[at + p + n] == 34) by {
                    assert(whole[p + n] == wanted[p + n]);
                }
            }
        }
        at = at + 1;
    }
    assert(!names_type(line@, name@)) by {
        if names_type(line@, name@) {
            let k = choose|k: int| 0 <= k && #[trigger] stands_at(line@, wanted, k);
            assert(k + wanted.len() <= line@.len());
        }
    }
    false
}

fn find_quote(line: &[u8], from: usize) -> (r: Option<usize>)
    requires
        from <= line@.len(),
    ensures
        match r {
            Some(n) => from <= n < line@.len() && next_quote(line@, from as int) == Some(n as int),
            None => next_quote(line@, from as int) is None,
        },
{
    let mut i: usize = from;
    while i < line.len()
        invariant
            from <= i <= line@.len(),
            next_quote(line@, from as int) == next_quote(line@, i as int),
        decreases line@.len() - i,
    {
        if line[i] == QUOTE {
            return Some(i);
        }
        i = i + 1;
    }
    None
}

fn outer_type(line: &[u8], from: usize, to: usize) -> (r: bool)
    requires
        from <= to <= line@.len(),
    ensures
        r == is_outer_type(line@.subrange(from as int, to as int)),
{
    let name = vstd::slice::slice_subrange(line, from, to);
    same_bytes(name, "session_meta".as_bytes()) || same_bytes(name, "turn_context".as_bytes())
}

fn event_type(line: &[u8], from: usize, to: usize) -> (r: bool)
    requires
        from <= to <= line@.len(),
    ensures
        r == is_event_type(line@.subrange(from as int, to as int)),
{
    let name = vstd::slice::slice_subrange(line, from, to);
    same_bytes(name, "token_count".as_bytes()) || same_bytes(name, "task_started".as_bytes())
        || same_bytes(name, "task_complete".as_bytes()) || same_bytes(
        name,
        "task_aborted".as_bytes(),
    ) || same_bytes(name, "turn_aborted".as_bytes()) || same_bytes(
        name,
        "thread_settings_applied".as_bytes(),
    )
}

/// Whether a line may state a fact.
pub fn likely_relevant(line: &[u8]) -> (r: bool)
    ensures
        r == may_state_a_fact(line@),
{
    let prefix = "\"type\":\"".as_bytes();
    let len: usize = line.len();
    let ghost names = types_from(line@, 0);
    let ghost mut seen: Seq<Seq<u8>> = Seq::empty();
    let mut event_msg = false;
    let mut nested_event = false;
    let mut index: usize = 0;
    assert(seen + types_from(line@, 0) =~= names);
    while index < len && prefix.len() < len - index
        invariant
            len == line@.len(),
            index <= len,
            prefix@ == type_prefix(),
            names == types_from(line@, 0),
            names == seen + types_from(line@, index as int),
            event_msg == exists|i: int|
                0 <= i < seen.len() && #[trigger] seen[i] == encode_utf8("event_msg"@),
            nested_event == exists|i: int|
                0 <= i < seen.len() && is_event_type(#[trigger] seen[i]),
            forall|i: int| 0 <= i < seen.len() ==> !is_outer_type(#[trigger] seen[i]),
        decreases len - index,
    {
        if !part_stands_at(line, prefix, index) {
            index = index + 1;
            continue ;
        }
        let start: usize = index + prefix.len();
        match find_quote(line, start) {
            Some(end) => {
                let ghost name = line@.subrange(start as int, end as int);
                let ghost before = seen;
                assert(names =~= seen.push(name) + types_from(line@, end + 1));
                if outer_type(line, start, end) {
                    assert(names[seen.len() as int] == name);
                    return true;
                }
                let is_message = same_bytes(
                    vstd::slice::slice_subrange(line, start, end),
                    "event_msg".as_bytes(),
                );
                let is_event = event_type(line, start, end);
                proof {
                    seen = seen.push(name);
                    assert(seen[before.len() as int] == name);
                    assert forall|i: int| 0 <= i < before.len() implies seen[i] == #[trigger] before[i] by {}
                    if event_msg {
                        let i = choose|i: int|
                            0 <= i < before.len() && #[trigger] before[i] == encode_utf8(
                                "event_msg"@,
                            );
                        assert(seen[i] == before[i]);
                    }
                    if nested_event {
                        let i = choose|i: int|
                            0 <= i < before.len() && is_event_type(#[trigger] before[i]);
                        assert(seen[i] == before[i]);
                    }
                }
                event_msg = event_msg || is_message;
                nested_event = nested_event || is_event;
                index = end + 1;
            },
            None => {
                assert(types_from(line@, index as int) =~= Seq::empty());
                assert(names =~= seen);
                return event_msg && nested_event;
            },
        }
    }
    assert(types_from(line@, index as int) =~= Seq::empty());
    assert(names =~= seen);
    event_msg && nested_event
}

/// The complete lines of a part of a log that are to be read, without the characters that end them;
/// how many complete lines there are, and how many bytes they take.
pub struct LineScan {
    pub relevant: Vec<Vec<u8>>,
    pub complete_lines: usize,
    pub complete_bytes: usize,
}

/// Those lines that are to be read, without the characters that end them.
pub open spec fn relevant_lines(lines: Seq<Seq<u8>>) -> Seq<Seq<u8>>
    decreases lines.len(),
{
    if lines.len() == 0 {
        Seq::empty()
    } else {
        let before = relevant_lines(lines.drop_last());
        let line = bare_line(lines.last());
        if is_relevant(line) {
            before.push(line)
        } else {
            before
        }
    }
}

pub(crate) fn take_bytes(bytes: &Vec<u8>, from: usize, to: usize) -> (r: Vec<u8>)
    requires
        from <= to <= bytes@.len(),
    ensures
        r@ == bytes@.subrange(from as int, to as int),
{
    let mut r: Vec<u8> = Vec::new();
    let mut i: usize = from;
    while i < to
        invariant
            from <= i <= to <= bytes@.len(),
            r@ == bytes@.subrange(from as int, i as int),
        decreases to - i,
    {
        r.push(bytes[i]);
        i = i + 1;
        assert(r@ =~= bytes@.subrange(from as int, i as int));
    }
    r
}

pub(crate) fn find_line_end(bytes: &Vec<u8>, from: usize) -> (r: Option<usize>)
    requires
        from <= bytes@.len(),
    ensures
        match r {
            Some(n) => from <= n < bytes@.len() && line_end(bytes@.skip(from as int), 0) == Some(
                n - from,
            ),
            None => line_end(bytes@.skip(from as int), 0) is None,
        },
{
    let ghost rest = bytes@.skip(from as int);
    let mut i: usize = from;
    while i < bytes.len()
        invariant
            from <= i <= bytes@.len(),
            rest == bytes@.skip(from as int),
            forall|k: int| 0 <= k < i - from ==> #[trigger] rest[k] != 10,
        decreases bytes@.len() - i,
    {
        assert(rest[i - from] == bytes@[i as int]);
        if bytes[i] == NEW_LINE {
            proof {
                lemma_line_end_is(rest, 0, i - from);
            }
            return Some(i);
        }
        i = i + 1;
    }
    proof {
        lemma_no_line_end(rest, 0);
    }
    None
}

/// Reads the complete lines of a part of a log; where `tail` asks for it, what follows them is a
/// line too.
pub fn scan_lines(bytes: &Vec<u8>, tail: bool) -> (r: LineScan)
    ensures
        r.relevant.deep_view() == relevant_lines(lines_in(bytes@, tail)),
        r.complete_lines == lines_in(bytes@, tail).len(),
        r.complete_bytes == complete_length(bytes@),
{
    let len: usize = bytes.len();
    let ghost all = lines_in(bytes@, tail);
    let ghost mut done: Seq<Seq<u8>> = Seq::empty();
    let mut relevant: Vec<Vec<u8>> = Vec::new();
    let mut complete_lines: usize = 0;
    let mut at: usize = 0;
    assert(relevant.deep_view() =~= relevant_lines(done));
    assert(bytes@.skip(0) =~= bytes@);
    assert(all =~= done + lines_in(bytes@.skip(0), tail));
    loop
        invariant
            at <= len,
            len == bytes@.len(),
            all == lines_in(bytes@, tail),
            all == done + lines_in(bytes@.skip(at as int), tail),
            done.len() == complete_lines,
            complete_lines <= at,
            relevant.deep_view() == relevant_lines(done),
            at > 0 ==> bytes@[at - 1] == 10,
        decreases bytes@.len() - at,
    {
        let ghost rest = bytes@.skip(at as int);
        proof {
            lemma_line_end(rest, 0);
        }
        match find_line_end(bytes, at) {
            Some(end) => {
                let mut line = take_bytes(bytes, at, end + 1);
                let ghost whole = line@;
                proof {
                    assert(rest.take(end - at + 1) =~= whole);
                    assert(rest.skip(end - at + 1) =~= bytes@.skip(end + 1));
                    assert(all =~= done.push(whole) + lines_in(bytes@.skip(end + 1), tail));
                    assert(done.push(whole).drop_last() =~= done);
                    assert(bytes@[end as int] == rest[end - at]);
                }
                trim_line_end(&mut line);
                let ghost before = relevant.deep_view();
                if line.len() > 0 && likely_relevant(line.as_slice()) {
                    let ghost held = line@;
                    assert(line.deep_view() =~= held);
                    relevant.push(line);
                    assert(relevant.deep_view() =~= before.push(held));
                }
                proof {
                    done = done.push(whole);
                }
                complete_lines = complete_lines + 1;
                at = end + 1;
            },
            None => {
                proof {
                    assert forall|i: int| at <= i < bytes@.len() implies #[trigger] bytes@[i]
                        != 10 by {
                        assert(rest[i - at] == bytes@[i]);
                    }
                    lemma_complete_length_is(bytes@, at as int);
                }
                if tail && at < len {
                    let mut line = take_bytes(bytes, at, len);
                    let ghost whole = line@;
                    proof {
                        assert(whole =~= rest);
                        assert(all =~= done.push(whole));
                        assert(done.push(whole).drop_last() =~= done);
                    }
                    trim_line_end(&mut line);
                    let ghost before = relevant.deep_view();
                    if line.len() > 0 && likely_relevant(line.as_slice()) {
                        let ghost held = line@;
                        assert(line.deep_view() =~= held);
                        relevant.push(line);
                        assert(relevant.deep_view() =~= before.push(held));
                    }
                    return LineScan {
                        relevant,
                        complete_lines: complete_lines + 1,
                        complete_bytes: at,
                    };
                }
                assert(all =~= done);
                return LineScan { relevant, complete_lines, complete_bytes: at };
            },
        }
    }
}

pub proof fn lemma_complete_length_is(bytes: Seq<u8>, n: int)
    requires
        0 <= n <= bytes.len(),
        n > 0 ==> bytes[n - 1] == 10,
        forall|i: int| n <= i < bytes.len() ==> #[trigger] bytes[i] != 10,
    ensures
        complete_length(bytes) == n,
    decreases bytes.len(),
{
    if n < bytes.len() {
        assert(bytes[bytes.len() - 1] != 10);
        let shorter = bytes.drop_last();
        assert forall|i: int| n <= i < shorter.len() implies #[trigger] shorter[i] != 10 by {
            assert(shorter[i] == bytes[i]);
        }
        lemma_complete_length_is(shorter, n);
    }
}

} // verus!
