//! Strings as sequences of characters.
use vstd::prelude::*;
use vstd::string::*;

verus! {

/// `String::push` appends one character.
pub assume_specification[ String::push ](s: &mut String, c: char)
    ensures
        final(s)@ == old(s)@.push(c),
;

/// The lower-case form of an ASCII letter; every other character as it is.
pub open spec fn lower(c: char) -> char {
    if 'A' <= c && c <= 'Z' {
        ((c as u8) + 32) as u8 as char
    } else {
        c
    }
}

/// A text with every ASCII letter in lower case.
pub open spec fn ascii_lower(s: Seq<char>) -> Seq<char> {
    s.map_values(|c: char| lower(c))
}

/// Whether two texts hold the same characters.
pub fn same(a: &str, b: &str) -> (r: bool)
    ensures
        r == (a@ == b@),
{
    a.to_owned() == b.to_owned()
}

/// The characters of a text, in order.
pub fn characters(s: &str) -> (v: Vec<char>)
    ensures
        v@ == s@,
{
    let mut v: Vec<char> = Vec::new();
    for c in it: s.chars()
        invariant
            v@ == s@.take(it.index()),
            it.seq() == s@,
    {
        v.push(c);
        assert(v@ =~= s@.take(it.index() + 1));
    }
    assert(s@.take(s@.len() as int) =~= s@);
    v
}

/// The text made of the characters `v[from..to]`.
pub fn from_characters(v: &Vec<char>, from: usize, to: usize) -> (s: String)
    requires
        from <= to <= v@.len(),
    ensures
        s@ == v@.subrange(from as int, to as int),
{
    let mut s = String::new();
    let mut i: usize = from;
    while i < to
        invariant
            from <= i <= to <= v@.len(),
            s@ == v@.subrange(from as int, i as int),
        decreases to - i,
    {
        s.push(v[i]);
        i = i + 1;
        assert(s@ =~= v@.subrange(from as int, i as int));
    }
    s
}

/// The lower-case form of one character.
pub fn lower_char(c: char) -> (r: char)
    ensures
        r == lower(c),
{
    if 'A' <= c && c <= 'Z' {
        ((c as u8) + 32) as char
    } else {
        c
    }
}

/// A copy of the text with every ASCII letter in lower case.
pub fn to_ascii_lowercase(s: &str) -> (r: String)
    ensures
        r@ == ascii_lower(s@),
{
    let v = characters(s);
    let mut r = String::new();
    let mut i: usize = 0;
    while i < v.len()
        invariant
            i <= v@.len(),
            v@ == s@,
            r@ == ascii_lower(s@.take(i as int)),
        decreases v@.len() - i,
    {
        r.push(lower_char(v[i]));
        i = i + 1;
        assert(r@ =~= ascii_lower(s@.take(i as int)));
    }
    assert(s@.take(i as int) =~= s@);
    r
}

/// Whether a character has the Unicode property `White_Space`.
pub open spec fn white_space(c: char) -> bool {
    let n = c as int;
    9 <= n <= 13 || n == 0x20 || n == 0x85 || n == 0xa0 || n == 0x1680 || 0x2000 <= n <= 0x200a
        || n == 0x2028 || n == 0x2029 || n == 0x202f || n == 0x205f || n == 0x3000
}

fn is_white_space(c: char) -> (r: bool)
    ensures
        r == white_space(c),
{
    let n: u32 = c as u32;
    (9 <= n && n <= 13) || n == 0x20 || n == 0x85 || n == 0xa0 || n == 0x1680 || (0x2000 <= n && n
        <= 0x200a) || n == 0x2028 || n == 0x2029 || n == 0x202f || n == 0x205f || n == 0x3000
}

/// `s` without the white space at its start.
pub open spec fn trimmed_start(s: Seq<char>) -> Seq<char>
    decreases s.len(),
{
    if s.len() > 0 && white_space(s[0]) {
        trimmed_start(s.skip(1))
    } else {
        s
    }
}

/// `s` without the white space at its end.
pub open spec fn trimmed_end(s: Seq<char>) -> Seq<char>
    decreases s.len(),
{
    if s.len() > 0 && white_space(s.last()) {
        trimmed_end(s.drop_last())
    } else {
        s
    }
}

/// `s` without the white space at its two ends.
pub open spec fn trimmed(s: Seq<char>) -> Seq<char> {
    trimmed_end(trimmed_start(s))
}

/// A copy of the text without the white space at its two ends.
pub fn trim(s: &str) -> (r: String)
    ensures
        r@ == trimmed(s@),
{
    let v = characters(s);
    let mut from: usize = 0;
    assert(v@.skip(0) =~= v@);
    while from < v.len() && is_white_space(v[from])
        invariant
            from <= v@.len(),
            v@ == s@,
            trimmed_start(v@.skip(from as int)) == trimmed_start(s@),
        decreases v@.len() - from,
    {
        assert(v@.skip(from as int).skip(1) =~= v@.skip(from + 1));
        from = from + 1;
    }
    let mut to: usize = v.len();
    assert(v@.subrange(from as int, to as int) =~= v@.skip(from as int));
    while from < to && is_white_space(v[to - 1])
        invariant
            from <= to <= v@.len(),
            trimmed_end(v@.subrange(from as int, to as int)) == trimmed_end(v@.skip(from as int)),
        decreases to,
    {
        assert(v@.subrange(from as int, to as int).drop_last() =~= v@.subrange(
            from as int,
            to - 1,
        ));
        to = to - 1;
    }
    from_characters(&v, from, to)
}

/// Whether `s` starts with `prefix`.
pub open spec fn begins_with(s: Seq<char>, prefix: Seq<char>) -> bool {
    prefix.len() <= s.len() && s.take(prefix.len() as int) == prefix
}

/// Whether the text `s` starts with `prefix`.
pub fn starts_with(s: &str, prefix: &str) -> (r: bool)
    ensures
        r == begins_with(s@, prefix@),
{
    let v = characters(s);
    let p = characters(prefix);
    if p.len() > v.len() {
        return false;
    }
    let mut i: usize = 0;
    while i < p.len()
        invariant
            i <= p@.len() <= v@.len(),
            v@ == s@,
            p@ == prefix@,
            v@.take(i as int) == p@.take(i as int),
        decreases p@.len() - i,
    {
        if v[i] != p[i] {
            assert(s@.take(p@.len() as int)[i as int] != p@[i as int]);
            return false;
        }
        i = i + 1;
        assert(v@.take(i as int) =~= p@.take(i as int));
    }
    assert(p@.take(i as int) =~= p@);
    true
}

/// The order of texts by their characters, as words stand in a dictionary.
pub open spec fn text_less(a: Seq<char>, b: Seq<char>) -> bool
    decreases a.len(),
{
    if b.len() == 0 {
        false
    } else if a.len() == 0 {
        true
    } else if a[0] != b[0] {
        a[0] < b[0]
    } else {
        text_less(a.skip(1), b.skip(1))
    }
}

/// Whether the text `a` stands before the text `b`.
pub fn less(a: &str, b: &str) -> (r: bool)
    ensures
        r == text_less(a@, b@),
{
    let v = characters(a);
    let w = characters(b);
    let mut i: usize = 0;
    assert(v@.skip(0) =~= v@ && w@.skip(0) =~= w@);
    while i < v.len() && i < w.len()
        invariant
            i <= v@.len(),
            i <= w@.len(),
            v@ == a@,
            w@ == b@,
            text_less(a@, b@) == text_less(v@.skip(i as int), w@.skip(i as int)),
        decreases v@.len() - i,
    {
        if v[i] != w[i] {
            return v[i] < w[i];
        }
        assert(v@.skip(i as int).skip(1) =~= v@.skip(i + 1));
        assert(w@.skip(i as int).skip(1) =~= w@.skip(i + 1));
        i = i + 1;
    }
    i < w.len()
}

/// The order of texts is irreflexive.
pub proof fn lemma_less_irreflexive(a: Seq<char>)
    ensures
        !text_less(a, a),
    decreases a.len(),
{
    if a.len() > 0 {
        lemma_less_irreflexive(a.skip(1));
    }
}

/// The order of texts is transitive.
pub proof fn lemma_less_transitive(a: Seq<char>, b: Seq<char>, c: Seq<char>)
    requires
        text_less(a, b),
        text_less(b, c),
    ensures
        text_less(a, c),
    decreases a.len(),
{
    if a.len() > 0 && b.len() > 0 && c.len() > 0 && a[0] == b[0] && b[0] == c[0] {
        lemma_less_transitive(a.skip(1), b.skip(1), c.skip(1));
    }
}

/// Of two different texts one stands before the other.
pub proof fn lemma_less_total(a: Seq<char>, b: Seq<char>)
    ensures
        text_less(a, b) || text_less(b, a) || a == b,
    decreases a.len(),
{
    if a.len() > 0 && b.len() > 0 && a[0] == b[0] {
        lemma_less_total(a.skip(1), b.skip(1));
        if a.skip(1) == b.skip(1) {
            assert(a =~= seq![a[0]] + a.skip(1));
            assert(b =~= seq![b[0]] + b.skip(1));
        }
    } else if a.len() == 0 && b.len() == 0 {
        assert(a =~= b);
    }
}

/// The decimal digits of a natural number.
pub open spec fn natural_text(n: nat) -> Seq<char>
    decreases n,
{
    if n < 10 {
        seq![(48 + n) as char]
    } else {
        natural_text(n / 10).push((48 + n % 10) as char)
    }
}

/// An integer in decimal digits, with a minus sign where it is negative.
pub open spec fn integer_text(n: int) -> Seq<char> {
    if n < 0 {
        seq!['-'] + natural_text((-n) as nat)
    } else {
        natural_text(n as nat)
    }
}

fn push_natural(s: &mut String, n: u64)
    ensures
        final(s)@ == old(s)@ + natural_text(n as nat),
    decreases n,
{
    if n >= 10 {
        push_natural(s, n / 10);
    }
    s.push((48 + (n % 10) as u8) as char);
    assert(s@ =~= old(s)@ + natural_text(n as nat));
}

/// Writes a natural number in decimal digits.
pub fn natural(n: usize) -> (s: String)
    ensures
        s@ == natural_text(n as nat),
{
    let mut s = String::new();
    push_natural(&mut s, n as u64);
    assert(s@ =~= natural_text(n as nat));
    s
}

/// Writes an integer in decimal digits.
pub fn decimal(n: i64) -> (s: String)
    ensures
        s@ == integer_text(n as int),
{
    let mut s = String::new();
    if n < 0 {
        s.push('-');
        let magnitude: u64 = (-(n as i128)) as u64;
        push_natural(&mut s, magnitude);
    } else {
        push_natural(&mut s, n as u64);
    }
    assert(s@ =~= integer_text(n as int));
    s
}

/// A copy of an optional text.
pub fn copy_option(o: &Option<String>) -> (r: Option<String>)
    ensures
        r == *o,
{
    match o {
        Some(s) => Some(s.clone()),
        None => None,
    }
}

/// The optional text, borrowed.
pub fn borrowed(o: &Option<String>) -> (r: Option<&str>)
    ensures
        r.deep_view() == o.deep_view(),
{
    match o {
        Some(text) => Some(text.as_str()),
        None => None,
    }
}

/// The first of two optional texts that is there.
pub fn first_of(a: &Option<String>, b: &Option<String>) -> (r: Option<String>)
    ensures
        r.deep_view() == first_some(a.deep_view(), b.deep_view()),
{
    match a {
        Some(text) => Some(text.clone()),
        None => copy_option(b),
    }
}

/// The text that an optional text holds, else `fallback`.
pub open spec fn text_or(o: Option<Seq<char>>, fallback: Seq<char>) -> Seq<char> {
    match o {
        Some(s) => s,
        None => fallback,
    }
}

/// The first of two optional values that is there.
pub open spec fn first_some<T>(a: Option<T>, b: Option<T>) -> Option<T> {
    match a {
        Some(x) => Some(x),
        None => b,
    }
}

/// Whether an optional text holds `b`.
pub fn holds(o: &Option<String>, b: &str) -> (r: bool)
    ensures
        r == (o.deep_view() == Some(b@)),
{
    match o {
        Some(s) => same(s.as_str(), b),
        None => false,
    }
}

/// Whether two optional texts are the same.
pub fn same_option(a: &Option<String>, b: &Option<String>) -> (r: bool)
    ensures
        r == (a.deep_view() == b.deep_view()),
{
    match (a, b) {
        (Some(x), Some(y)) => same(x.as_str(), y.as_str()),
        (None, None) => true,
        _ => false,
    }
}

/// The texts of `parts`, one after the other, with `separator` between two of them.
pub open spec fn joined(parts: Seq<Seq<char>>, separator: Seq<char>) -> Seq<char>
    decreases parts.len(),
{
    if parts.len() == 0 {
        Seq::empty()
    } else if parts.len() == 1 {
        parts[0]
    } else {
        joined(parts.drop_last(), separator) + separator + parts.last()
    }
}

/// Joins texts with a separator between them.
pub fn join(parts: &Vec<String>, separator: &str) -> (s: String)
    ensures
        s@ == joined(parts.deep_view(), separator@),
{
    let mut s = String::new();
    let mut i: usize = 0;
    while i < parts.len()
        invariant
            i <= parts@.len(),
            s@ == joined(parts.deep_view().take(i as int), separator@),
        decreases parts@.len() - i,
    {
        if i > 0 {
            s.append(separator);
        }
        s.append(parts[i].as_str());
        proof {
            let next = parts.deep_view().take(i + 1);
            assert(next.drop_last() =~= parts.deep_view().take(i as int));
            if i == 0 {
                assert(next[0] =~= s@);
            }
        }
        i = i + 1;
    }
    assert(parts.deep_view().take(i as int) =~= parts.deep_view());
    s
}

/// What stands before and after the first `c` of a text that holds one.
pub open spec fn cut(s: Seq<char>, c: char) -> Option<(Seq<char>, Seq<char>)>
    decreases s.len(),
{
    if s.len() == 0 {
        None
    } else if s[0] == c {
        Some((Seq::empty(), s.skip(1)))
    } else {
        match cut(s.skip(1), c) {
            Some((before, after)) => Some((seq![s[0]] + before, after)),
            None => None,
        }
    }
}

/// The pieces between the `c` of a text; one more than it holds `c`.
pub open spec fn pieces(s: Seq<char>, c: char) -> Seq<Seq<char>>
    decreases s.len(),
{
    match cut(s, c) {
        Some((before, after)) => {
            proof {
                lemma_cut(s, c);
            }
            seq![before] + pieces(after, c)
        },
        None => seq![s],
    }
}

/// What a cut leaves is the text without the character that was cut.
pub proof fn lemma_cut(s: Seq<char>, c: char)
    ensures
        match cut(s, c) {
            Some((before, after)) => s == before.push(c) + after && !before.contains(c),
            None => !s.contains(c),
        },
        cut(s, c) is Some ==> (cut(s, c)->0).1.len() < s.len(),
    decreases s.len(),
{
    if s.len() > 0 && s[0] != c {
        lemma_cut(s.skip(1), c);
        match cut(s.skip(1), c) {
            Some((before, after)) => {
                assert(s =~= seq![s[0]] + s.skip(1));
                assert(seq![s[0]] + (before.push(c) + after) =~= (seq![s[0]] + before).push(c)
                    + after);
                assert forall|i: int| 0 <= i < (seq![s[0]] + before).len() implies (seq![s[0]]
                    + before)[i] != c by {
                    if i > 0 {
                        assert((seq![s[0]] + before)[i] == before[i - 1]);
                    }
                }
            },
            None => {
                assert forall|i: int| 0 <= i < s.len() implies s[i] != c by {
                    if i > 0 {
                        assert(s.skip(1)[i - 1] == s[i]);
                    }
                }
            },
        }
    } else if s.len() > 0 {
        assert(s =~= Seq::<char>::empty().push(c) + s.skip(1));
    }
}

proof fn lemma_cut_at(s: Seq<char>, c: char, n: int)
    requires
        0 <= n < s.len(),
        s[n] == c,
        forall|k: int| 0 <= k < n ==> s[k] != c,
    ensures
        cut(s, c) == Some((s.take(n), s.skip(n + 1))),
    decreases n,
{
    if n == 0 {
        assert(s.take(0) =~= Seq::empty());
    } else {
        lemma_cut_at(s.skip(1), c, n - 1);
        assert(seq![s[0]] + s.skip(1).take(n - 1) =~= s.take(n));
        assert(s.skip(1).skip(n) =~= s.skip(n + 1));
    }
}

/// The place of the first `c` of `v` at or after `from`.
fn find_from(v: &Vec<char>, from: usize, c: char) -> (r: Option<usize>)
    requires
        from <= v@.len(),
    ensures
        match r {
            Some(n) => from <= n < v@.len() && cut(v@.skip(from as int), c) == Some(
                (v@.subrange(from as int, n as int), v@.skip(n + 1)),
            ),
            None => cut(v@.skip(from as int), c) is None,
        },
{
    let mut i: usize = from;
    while i < v.len()
        invariant
            from <= i <= v@.len(),
            forall|k: int| from <= k < i ==> v@[k] != c,
        decreases v@.len() - i,
    {
        if v[i] == c {
            proof {
                let rest = v@.skip(from as int);
                lemma_cut_at(rest, c, i - from);
                assert(rest.take(i - from) =~= v@.subrange(from as int, i as int));
                assert(rest.skip(i - from + 1) =~= v@.skip(i + 1));
            }
            return Some(i);
        }
        i = i + 1;
    }
    proof {
        lemma_cut(v@.skip(from as int), c);
        if cut(v@.skip(from as int), c) is Some {
            let (before, after) = cut(v@.skip(from as int), c)->0;
            assert(v@.skip(from as int)[before.len() as int] == c);
        }
    }
    None
}

/// The pieces between the `c` of the text.
pub fn split(s: &str, c: char) -> (r: Vec<String>)
    ensures
        r.deep_view() == pieces(s@, c),
        r@.len() > 0,
{
    let v = characters(s);
    let len: usize = v.len();
    let mut r: Vec<String> = Vec::new();
    let mut from: usize = 0;
    assert(v@.skip(0) =~= v@);
    assert(r.deep_view() + pieces(v@.skip(0), c) =~= pieces(s@, c));
    loop
        invariant
            from <= v@.len(),
            len == v@.len(),
            v@ == s@,
            r.deep_view() + pieces(v@.skip(from as int), c) == pieces(s@, c),
        decreases v@.len() - from,
    {
        let ghost before = r.deep_view();
        let ghost rest = v@.skip(from as int);
        proof {
            lemma_cut(rest, c);
        }
        match find_from(&v, from, c) {
            Some(n) => {
                r.push(from_characters(&v, from, n));
                from = n + 1;
                assert(r.deep_view() =~= before.push((cut(rest, c)->0).0));
                assert(r.deep_view() + pieces(v@.skip(from as int), c) =~= before + pieces(rest, c));
            },
            None => {
                r.push(from_characters(&v, from, len));
                assert(v@.subrange(from as int, v@.len() as int) =~= rest);
                assert(r.deep_view() =~= before + pieces(rest, c));
                return r;
            },
        }
    }
}

/// What stands before and after the first `c` of the text.
pub fn split_once(s: &str, c: char) -> (r: Option<(String, String)>)
    ensures
        r.deep_view() == cut(s@, c),
{
    let v = characters(s);
    let len: usize = v.len();
    assert(v@.skip(0) =~= v@);
    match find_from(&v, 0, c) {
        Some(n) => {
            let r = Some((from_characters(&v, 0, n), from_characters(&v, n + 1, len)));
            assert(v@.subrange(n + 1, v@.len() as int) =~= v@.skip(n + 1));
            r
        },
        None => None,
    }
}

/// The number that decimal digits write.
pub open spec fn digits_value(s: Seq<char>) -> Option<nat>
    decreases s.len(),
{
    if s.len() == 0 {
        Some(0)
    } else if '0' <= s.last() && s.last() <= '9' {
        match digits_value(s.drop_last()) {
            Some(n) => Some((n * 10 + (s.last() as int - 48)) as nat),
            None => None,
        }
    } else {
        None
    }
}

/// A text that holds anything but digits writes no number.
pub proof fn lemma_bad_digit(s: Seq<char>, at: int)
    requires
        0 <= at < s.len(),
        !('0' <= s[at] && s[at] <= '9'),
    ensures
        digits_value(s) is None,
    decreases s.len(),
{
    if at < s.len() - 1 {
        lemma_bad_digit(s.drop_last(), at);
    }
}

/// The integer that a text writes: digits, with or without a sign before them, where `i64` holds
/// it.
pub open spec fn integer_of(s: Seq<char>) -> Option<i64> {
    let signed = s.len() > 0 && (s[0] == '-' || s[0] == '+');
    let digits = if signed {
        s.skip(1)
    } else {
        s
    };
    if digits.len() == 0 {
        None
    } else {
        match digits_value(digits) {
            Some(n) => {
                let value = if s[0] == '-' {
                    -(n as int)
                } else {
                    n as int
                };
                if i64::MIN <= value <= i64::MAX {
                    Some(value as i64)
                } else {
                    None
                }
            },
            None => None,
        }
    }
}

/// The integer that a text writes.
pub fn parse_integer(s: &str) -> (r: Option<i64>)
    ensures
        r == integer_of(s@),
{
    let v = characters(s);
    let len: usize = v.len();
    let mut from: usize = 0;
    if len > 0 && (v[0] == '-' || v[0] == '+') {
        from = 1;
    }
    if from == len {
        assert(s@.len() <= 1);
        return None;
    }
    let negative = v[0] == '-';
    let ghost digits = s@.skip(from as int);
    assert(from == 0 ==> digits =~= s@);
    let mut value: i128 = 0;
    let mut large = false;
    let mut i: usize = from;
    while i < len
        invariant
            from <= i <= len,
            from <= 1,
            len == v@.len(),
            v@ == s@,
            digits == s@.skip(from as int),
            from == 0 ==> digits == s@,
            from == 1 <==> s@.len() > 0 && (s@[0] == '-' || s@[0] == '+'),
            0 <= value <= 9_223_372_036_854_775_808,
            digits_value(digits.take(i - from)) is Some,
            !large ==> digits_value(digits.take(i - from))->0 == value,
            large ==> digits_value(digits.take(i - from))->0 > 9_223_372_036_854_775_808,
        decreases len - i,
    {
        let c = v[i];
        let ghost before = digits.take(i - from);
        let ghost after = digits.take(i - from + 1);
        proof {
            assert(digits[i - from] == c);
            assert(after.drop_last() =~= before);
            assert(after.last() == c);
        }
        if !('0' <= c && c <= '9') {
            proof {
                lemma_bad_digit(digits, i - from);
            }
            return None;
        }
        if !large {
            let next: i128 = value * 10 + (c as u32 - 48) as i128;
            if next > 9_223_372_036_854_775_808 {
                large = true;
            } else {
                value = next;
            }
        }
        i = i + 1;
    }
    assert(digits.take(i - from) =~= digits);
    if large {
        return None;
    }
    if negative {
        Some((-value) as i64)
    } else if value <= 9_223_372_036_854_775_807 {
        Some(value as i64)
    } else {
        None
    }
}

/// Adds bytes to others.
pub(crate) fn add_bytes(bytes: &mut Vec<u8>, more: &[u8])
    ensures
        final(bytes)@ == old(bytes)@ + more@,
{
    let ghost before = bytes@;
    let mut i: usize = 0;
    assert(before + more@.take(0) =~= before);
    while i < more.len()
        invariant
            i <= more@.len(),
            bytes@ == before + more@.take(i as int),
        decreases more@.len() - i,
    {
        assert(more@.take(i + 1) =~= more@.take(i as int).push(more@[i as int]));
        bytes.push(more[i]);
        i = i + 1;
    }
    assert(more@.take(i as int) =~= more@);
}

} // verus!
