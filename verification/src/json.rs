//! JSON values, as far as collected events are read.
use crate::digest::hex_digit;
use crate::text::{decimal, integer_text, join, joined, same};
use vstd::prelude::*;
use vstd::string::*;

verus! {

/// The place of infinity in the order of floating-point numbers.
pub const INFINITY_RANK: i64 = 9_218_868_437_227_405_312;

/// A floating-point number by its place in the order of floating-point numbers, where zero has the
/// place 0, together with the place of the number that is five greater.
#[derive(Clone, Copy, Debug, PartialEq, Eq, Structural)]
pub struct Float {
    pub rank: i64,
    pub raised: i64,
}

impl DeepView for Float {
    type V = Float;

    open spec fn deep_view(&self) -> Float {
        *self
    }
}

/// A JSON number: as an integer where it is one of `i64`; its value cut to an integer of `i64`; its
/// value among floating-point numbers and the text of that; and the text of the number itself.
#[derive(Debug)]
pub struct Number {
    pub integer: Option<i64>,
    pub truncated: i64,
    pub float: Float,
    pub float_text: String,
    pub text: String,
}

/// A number with its texts as sequences of characters.
pub struct NumberView {
    pub integer: Option<i64>,
    pub truncated: i64,
    pub float: Float,
    pub float_text: Seq<char>,
    pub text: Seq<char>,
}

/// A JSON value. The members of an object stand in the order in which they are written.
#[derive(Debug)]
pub enum Json {
    Null,
    Bool(bool),
    Number(Number),
    Text(String),
    Array(Vec<Json>),
    Object(Vec<(String, Json)>),
}

/// A JSON value with its texts as sequences of characters.
#[verifier::ext_equal]
pub enum JsonView {
    Null,
    Bool(bool),
    Number(NumberView),
    Text(Seq<char>),
    Array(Seq<JsonView>),
    Object(Seq<(Seq<char>, JsonView)>),
}

impl DeepView for Number {
    type V = NumberView;

    open spec fn deep_view(&self) -> NumberView {
        NumberView {
            integer: self.integer,
            truncated: self.truncated,
            float: self.float,
            float_text: self.float_text@,
            text: self.text@,
        }
    }
}

impl Json {
    pub open spec fn view(self) -> JsonView
        decreases self,
    {
        match self {
            Json::Null => JsonView::Null,
            Json::Bool(b) => JsonView::Bool(b),
            Json::Number(n) => JsonView::Number(n.deep_view()),
            Json::Text(s) => JsonView::Text(s@),
            Json::Array(v) => JsonView::Array(
                Seq::new(
                    v@.len(),
                    |i: int|
                        if 0 <= i < v@.len() {
                            v@[i].view()
                        } else {
                            JsonView::Null
                        },
                ),
            ),
            Json::Object(v) => JsonView::Object(
                Seq::new(
                    v@.len(),
                    |i: int|
                        if 0 <= i < v@.len() {
                            (v@[i].0@, v@[i].1.view())
                        } else {
                            (Seq::empty(), JsonView::Null)
                        },
                ),
            ),
        }
    }
}

impl DeepView for Json {
    type V = JsonView;

    open spec fn deep_view(&self) -> JsonView {
        self.view()
    }
}

/// The value of the member `key` among `members`.
pub open spec fn member(members: Seq<(Seq<char>, JsonView)>, key: Seq<char>) -> Option<JsonView>
    decreases members.len(),
{
    if members.len() == 0 {
        None
    } else if members[0].0 == key {
        Some(members[0].1)
    } else {
        member(members.skip(1), key)
    }
}

impl JsonView {
    /// The member `key` of an object.
    pub open spec fn get(self, key: Seq<char>) -> Option<JsonView> {
        match self {
            JsonView::Object(members) => member(members, key),
            _ => None,
        }
    }

    /// The first of the members `keys` that an object has.
    pub open spec fn find(self, keys: Seq<Seq<char>>) -> Option<JsonView>
        decreases keys.len(),
    {
        if keys.len() == 0 {
            None
        } else {
            match self.get(keys[0]) {
                Some(value) => Some(value),
                None => self.find(keys.skip(1)),
            }
        }
    }

    /// The text that the value is.
    pub open spec fn as_text(self) -> Option<Seq<char>> {
        match self {
            JsonView::Text(s) => Some(s),
            _ => None,
        }
    }

    /// The integer that the value is, where it is one of `i64`.
    pub open spec fn as_exact(self) -> Option<i64> {
        match self {
            JsonView::Number(n) => n.integer,
            _ => None,
        }
    }

    /// The number that the value is, cut to an integer where it is none of `i64`.
    pub open spec fn as_integer(self) -> Option<i64> {
        match self {
            JsonView::Number(n) => match n.integer {
                Some(i) => Some(i),
                None => Some(n.truncated),
            },
            _ => None,
        }
    }

    /// The floating-point number that the value is.
    pub open spec fn as_float(self) -> Option<Float> {
        match self {
            JsonView::Number(n) => Some(n.float),
            _ => None,
        }
    }

    /// The text of the floating-point number that the value is.
    pub open spec fn as_float_text(self) -> Option<Seq<char>> {
        match self {
            JsonView::Number(n) => Some(n.float_text),
            _ => None,
        }
    }
}

/// The text that the member `key` of an object is.
pub open spec fn text_member(value: JsonView, key: Seq<char>) -> Option<Seq<char>> {
    match value.get(key) {
        Some(v) => v.as_text(),
        None => None,
    }
}

/// The text that the first of the members `keys` of an object is.
pub open spec fn text_of_first(value: JsonView, keys: Seq<Seq<char>>) -> Option<Seq<char>> {
    match value.find(keys) {
        Some(v) => v.as_text(),
        None => None,
    }
}

/// The integer that the first of the members `keys` of an object is.
pub open spec fn integer_of_first(value: JsonView, keys: Seq<Seq<char>>) -> Option<i64> {
    match value.find(keys) {
        Some(v) => v.as_integer(),
        None => None,
    }
}

/// The member `first` of an object, or else the member `second`.
pub open spec fn either_member(
    value: JsonView,
    first: Seq<char>,
    second: Seq<char>,
) -> Option<JsonView> {
    if value.get(first) is Some {
        value.get(first)
    } else {
        value.get(second)
    }
}

/// The number that a member is, cut to an integer; nothing is zero.
pub open spec fn whole_number(found: Option<JsonView>) -> int {
    match found {
        Some(JsonView::Number(n)) => if n.integer is Some {
            n.integer->0 as int
        } else {
            n.truncated as int
        },
        _ => 0,
    }
}

/// Of two keys the first that an object has is found.
pub proof fn lemma_find_by_two(value: JsonView, first: Seq<char>, second: Seq<char>)
    ensures
        value.find(seq![first, second]) == either_member(value, first, second),
{
    let keys = seq![first, second];
    assert(keys.skip(1) =~= seq![second]);
    assert(seq![second].skip(1) =~= Seq::<Seq<char>>::empty());
    reveal_with_fuel(JsonView::find, 3);
}

/// Of three keys the first that an object has is found.
pub proof fn lemma_find_by_three(
    value: JsonView,
    first: Seq<char>,
    second: Seq<char>,
    third: Seq<char>,
)
    ensures
        value.find(seq![first, second, third]) == if value.get(first) is Some {
            value.get(first)
        } else {
            either_member(value, second, third)
        },
{
    let keys = seq![first, second, third];
    assert(keys.skip(1) =~= seq![second, third]);
    lemma_find_by_two(value, second, third);
    reveal_with_fuel(JsonView::find, 2);
}

/// The text of the first of several members that is a text.
pub open spec fn first_text(value: JsonView, keys: Seq<Seq<char>>) -> Option<Seq<char>>
    decreases keys.len(),
{
    if keys.len() == 0 {
        None
    } else {
        match text_member(value, keys[0]) {
            Some(text) => Some(text),
            None => first_text(value, keys.skip(1)),
        }
    }
}

/// A member that is an object.
pub open spec fn object_member(value: JsonView, key: Seq<char>) -> Option<JsonView> {
    match value.get(key) {
        Some(found) => if found is Object {
            Some(found)
        } else {
            None
        },
        None => None,
    }
}

/// A member that is a truth value.
pub open spec fn flag_member(value: JsonView, key: Seq<char>) -> Option<bool> {
    match value.get(key) {
        Some(JsonView::Bool(flag)) => Some(flag),
        _ => None,
    }
}

/// The views of texts.
pub open spec fn views(keys: Seq<&str>) -> Seq<Seq<char>> {
    Seq::new(keys.len(), |i: int| keys[i]@)
}

impl Json {
    /// The member `key` of an object.
    pub fn get(&self, key: &str) -> (r: Option<&Json>)
        ensures
            r.deep_view() == self@.get(key@),
    {
        match self {
            Json::Object(members) => {
                let ghost all = self@->Object_0;
                let mut i: usize = 0;
                assert(all.skip(0) =~= all);
                while i < members.len()
                    invariant
                        i <= members@.len(),
                        *self == Json::Object(*members),
                        all == self@->Object_0,
                        member(all, key@) == member(all.skip(i as int), key@),
                    decreases members@.len() - i,
                {
                    assert(all.skip(i as int)[0] == (members@[i as int].0@, members@[i as int].1@));
                    if same(members[i].0.as_str(), key) {
                        return Some(&members[i].1);
                    }
                    assert(all.skip(i as int).skip(1) =~= all.skip(i + 1));
                    i = i + 1;
                }
                None
            },
            _ => None,
        }
    }

    /// The first of the members `keys` that an object has.
    pub fn find(&self, keys: &[&str]) -> (r: Option<&Json>)
        ensures
            r.deep_view() == self@.find(views(keys@)),
    {
        let mut i: usize = 0;
        assert(views(keys@).skip(0) =~= views(keys@));
        while i < keys.len()
            invariant
                i <= keys@.len(),
                self@.find(views(keys@)) == self@.find(views(keys@).skip(i as int)),
            decreases keys@.len() - i,
        {
            let found = self.get(keys[i]);
            if found.is_some() {
                return found;
            }
            assert(views(keys@).skip(i as int).skip(1) =~= views(keys@).skip(i + 1));
            i = i + 1;
        }
        None
    }

    /// A copy of the text that the value is.
    pub fn as_text(&self) -> (r: Option<String>)
        ensures
            r.deep_view() == self@.as_text(),
    {
        match self {
            Json::Text(s) => Some(s.clone()),
            _ => None,
        }
    }

    /// The integer that the value is, where it is one of `i64`.
    pub fn as_exact(&self) -> (r: Option<i64>)
        ensures
            r == self@.as_exact(),
    {
        match self {
            Json::Number(n) => n.integer,
            _ => None,
        }
    }

    /// The number that the value is, cut to an integer where it is none of `i64`.
    pub fn as_integer(&self) -> (r: Option<i64>)
        ensures
            r == self@.as_integer(),
    {
        match self {
            Json::Number(n) => match n.integer {
                Some(i) => Some(i),
                None => Some(n.truncated),
            },
            _ => None,
        }
    }

    /// The floating-point number that the value is.
    pub fn as_float(&self) -> (r: Option<Float>)
        ensures
            r == self@.as_float(),
    {
        match self {
            Json::Number(n) => Some(n.float),
            _ => None,
        }
    }

    /// The text of the floating-point number that the value is.
    pub fn as_float_text(&self) -> (r: Option<String>)
        ensures
            r.deep_view() == self@.as_float_text(),
    {
        match self {
            Json::Number(n) => Some(n.float_text.clone()),
            _ => None,
        }
    }

    /// The text that the member `key` of an object is.
    pub fn text_member(&self, key: &str) -> (r: Option<String>)
        ensures
            r.deep_view() == text_member(self@, key@),
    {
        match self.get(key) {
            Some(v) => v.as_text(),
            None => None,
        }
    }

    /// The text that the first of the members `keys` of an object is.
    pub fn text_of_first(&self, keys: &[&str]) -> (r: Option<String>)
        ensures
            r.deep_view() == text_of_first(self@, views(keys@)),
    {
        match self.find(keys) {
            Some(v) => v.as_text(),
            None => None,
        }
    }

    /// The integer that the first of the members `keys` of an object is.
    pub fn integer_of_first(&self, keys: &[&str]) -> (r: Option<i64>)
        ensures
            r == integer_of_first(self@, views(keys@)),
    {
        match self.find(keys) {
            Some(v) => v.as_integer(),
            None => None,
        }
    }

    /// The text of the first of several members that is a text.
    pub fn first_text(&self, keys: &[&str]) -> (r: Option<String>)
        ensures
            r.deep_view() == first_text(self@, views(keys@)),
    {
        let ghost all = views(keys@);
        let mut i: usize = 0;
        assert(all.skip(0) =~= all);
        while i < keys.len()
            invariant
                i <= keys@.len(),
                all == views(keys@),
                first_text(self@, all) == first_text(self@, all.skip(i as int)),
            decreases keys@.len() - i,
        {
            let found = self.text_member(keys[i]);
            assert(all.skip(i as int)[0] == keys@[i as int]@);
            assert(all.skip(i as int).skip(1) =~= all.skip(i + 1));
            if found.is_some() {
                return found;
            }
            i = i + 1;
        }
        None
    }

    /// A member that is an object.
    pub fn object_member(&self, key: &str) -> (r: Option<&Json>)
        ensures
            r.deep_view() == object_member(self@, key@),
            r is Some ==> *r->0 is Object,
    {
        match self.get(key) {
            Some(found) => match found {
                Json::Object(_) => Some(found),
                _ => None,
            },
            None => None,
        }
    }

    /// A member that is a truth value.
    pub fn flag_member(&self, key: &str) -> (r: Option<bool>)
        ensures
            r == flag_member(self@, key@),
    {
        match self.get(key) {
            Some(Json::Bool(flag)) => Some(*flag),
            _ => None,
        }
    }

    /// A copy of the value.
    pub fn copy(&self) -> (r: Json)
        ensures
            r@ == self@,
        decreases self,
    {
        match self {
            Json::Null => Json::Null,
            Json::Bool(b) => Json::Bool(*b),
            Json::Number(n) => Json::Number(
                Number {
                    integer: n.integer,
                    truncated: n.truncated,
                    float: n.float,
                    float_text: n.float_text.clone(),
                    text: n.text.clone(),
                },
            ),
            Json::Text(s) => Json::Text(s.clone()),
            Json::Array(items) => {
                let mut copied: Vec<Json> = Vec::new();
                let mut i: usize = 0;
                while i < items.len()
                    invariant
                        i <= items@.len(),
                        *self == Json::Array(*items),
                        copied@.len() == i,
                        forall|k: int| 0 <= k < i ==> (#[trigger] copied@[k])@ == items@[k]@,
                    decreases items@.len() - i,
                {
                    assert(decreases_to!(*self => self->Array_0@[i as int]));
                    copied.push(items[i].copy());
                    i = i + 1;
                }
                let r = Json::Array(copied);
                assert(r@->Array_0 =~= self@->Array_0);
                r
            },
            Json::Object(members) => {
                let mut copied: Vec<(String, Json)> = Vec::new();
                let mut i: usize = 0;
                while i < members.len()
                    invariant
                        i <= members@.len(),
                        *self == Json::Object(*members),
                        copied@.len() == i,
                        forall|k: int|
                            0 <= k < i ==> (#[trigger] copied@[k]).0@ == members@[k].0@
                                && copied@[k].1@ == members@[k].1@,
                    decreases members@.len() - i,
                {
                    assert(decreases_to!(*self => self->Object_0@[i as int].1));
                    copied.push((members[i].0.clone(), members[i].1.copy()));
                    i = i + 1;
                }
                let r = Json::Object(copied);
                assert(r@->Object_0 =~= self@->Object_0);
                r
            },
        }
    }
}

/// A character inside a JSON string: quotes, backslashes and control characters are escaped.
pub open spec fn escaped(c: char) -> Seq<char> {
    let n = c as int;
    if c == '"' || c == '\\' {
        seq!['\\', c]
    } else if n == 8 {
        seq!['\\', 'b']
    } else if n == 9 {
        seq!['\\', 't']
    } else if n == 10 {
        seq!['\\', 'n']
    } else if n == 12 {
        seq!['\\', 'f']
    } else if n == 13 {
        seq!['\\', 'r']
    } else if n < 32 {
        seq!['\\', 'u', '0', '0', hex_digit(n / 16), hex_digit(n % 16)]
    } else {
        seq![c]
    }
}

/// The characters of a text inside a JSON string.
pub open spec fn escaped_text(s: Seq<char>) -> Seq<char>
    decreases s.len(),
{
    if s.len() == 0 {
        Seq::empty()
    } else {
        escaped_text(s.drop_last()) + escaped(s.last())
    }
}

/// A text as a JSON string, in quotes.
pub open spec fn json_quoted(s: Seq<char>) -> Seq<char> {
    seq!['"'] + escaped_text(s) + seq!['"']
}

/// `serde_json::Value::to_string` of a string writes it in quotes; it escapes quotes, backslashes
/// and the characters below the space, by a letter where there is one, else by `\u` and four
/// lower-case hexadecimal digits, and leaves all others as they are.
#[verifier::external_body]
pub(crate) fn quoted(s: &str) -> (r: String)
    ensures
        r@ == json_quoted(s@),
{
    serde_json::Value::String(s.to_owned()).to_string()
}

/// A JSON value in writing, without white space between its parts.
pub open spec fn json_text(value: JsonView) -> Seq<char>
    decreases value,
{
    match value {
        JsonView::Null => "null"@,
        JsonView::Bool(b) => if b {
            "true"@
        } else {
            "false"@
        },
        JsonView::Number(n) => n.text,
        JsonView::Text(s) => json_quoted(s),
        JsonView::Array(items) => "["@ + joined(item_texts(items), ","@) + "]"@,
        JsonView::Object(members) => "{"@ + joined(member_texts(members), ","@) + "}"@,
    }
}

/// The items of an array in writing.
pub open spec fn item_texts(items: Seq<JsonView>) -> Seq<Seq<char>>
    decreases items,
{
    Seq::new(
        items.len(),
        |i: int|
            if 0 <= i < items.len() {
                json_text(items[i])
            } else {
                Seq::empty()
            },
    )
}

/// The members of an object in writing, each as its quoted key, a colon and its value.
pub open spec fn member_texts(members: Seq<(Seq<char>, JsonView)>) -> Seq<Seq<char>>
    decreases members,
{
    Seq::new(
        members.len(),
        |i: int|
            if 0 <= i < members.len() {
                json_quoted(members[i].0) + ":"@ + json_text(members[i].1)
            } else {
                Seq::empty()
            },
    )
}

impl Json {
    /// Writes the value.
    pub fn to_text(&self) -> (r: String)
        ensures
            r@ == json_text(self@),
        decreases self,
    {
        match self {
            Json::Null => "null".to_owned(),
            Json::Bool(b) => if *b {
                "true".to_owned()
            } else {
                "false".to_owned()
            },
            Json::Number(n) => n.text.clone(),
            Json::Text(s) => quoted(s.as_str()),
            Json::Array(items) => {
                let mut parts: Vec<String> = Vec::new();
                let mut i: usize = 0;
                while i < items.len()
                    invariant
                        i <= items@.len(),
                        *self == Json::Array(*items),
                        parts@.len() == i,
                        forall|k: int|
                            0 <= k < i ==> (#[trigger] parts@[k])@ == json_text(items@[k]@),
                    decreases items@.len() - i,
                {
                    assert(decreases_to!(*self => self->Array_0@[i as int]));
                    parts.push(items[i].to_text());
                    i = i + 1;
                }
                let mut r = "[".to_owned();
                r.append(crate::text::join(&parts, ",").as_str());
                r.append("]");
                assert(parts.deep_view() =~= item_texts(self@->Array_0));
                assert(r@ =~= json_text(self@));
                r
            },
            Json::Object(members) => {
                let mut parts: Vec<String> = Vec::new();
                let mut i: usize = 0;
                while i < members.len()
                    invariant
                        i <= members@.len(),
                        *self == Json::Object(*members),
                        parts@.len() == i,
                        forall|k: int|
                            0 <= k < i ==> (#[trigger] parts@[k])@ == json_quoted(members@[k].0@)
                                + ":"@ + json_text(members@[k].1@),
                    decreases members@.len() - i,
                {
                    assert(decreases_to!(*self => self->Object_0@[i as int].1));
                    let mut part = quoted(members[i].0.as_str());
                    part.append(":");
                    part.append(members[i].1.to_text().as_str());
                    parts.push(part);
                    i = i + 1;
                }
                let mut r = "{".to_owned();
                r.append(crate::text::join(&parts, ",").as_str());
                r.append("}");
                assert(parts.deep_view() =~= member_texts(self@->Object_0));
                assert(r@ =~= json_text(self@));
                r
            },
        }
    }
}

/// A percentage: its place among floating-point numbers, and its text.
#[derive(Debug)]
pub struct Percentage {
    pub value: Float,
    pub text: String,
}

/// A `Percentage` with its texts as sequences of characters.
#[verifier::ext_equal]
pub struct PercentageView {
    pub value: Float,
    pub text: Seq<char>,
}

impl DeepView for Percentage {
    type V = PercentageView;

    open spec fn deep_view(&self) -> PercentageView {
        PercentageView {
            value: self.value,
            text: self.text@,
        }
    }
}

impl Percentage {
    /// A copy of the record.
    pub fn copy(&self) -> (r: Self)
        ensures
            r.deep_view() == self.deep_view(),
    {
        Percentage {
            value: self.value,
            text: self.text.clone(),
        }
    }
}

/// A member of an object in writing.
pub open spec fn field(key: Seq<char>, value: Seq<char>) -> Seq<char> {
    json_quoted(key) + ":"@ + value
}

/// An object in writing.
pub open spec fn object_text(fields: Seq<Seq<char>>) -> Seq<char> {
    "{"@ + joined(fields, ","@) + "}"@
}

/// A text in writing, `null` where there is none.
pub open spec fn text_or_null(value: Option<Seq<char>>) -> Seq<char> {
    match value {
        Some(text) => json_quoted(text),
        None => "null"@,
    }
}

/// An integer in writing, `null` where there is none.
pub open spec fn integer_or_null(value: Option<i64>) -> Seq<char> {
    match value {
        Some(n) => integer_text(n as int),
        None => "null"@,
    }
}

/// A truth value in writing, `null` where there is none.
pub open spec fn flag_or_null(value: Option<bool>) -> Seq<char> {
    match value {
        Some(true) => "true"@,
        Some(false) => "false"@,
        None => "null"@,
    }
}

/// Adds a member to those of an object.
pub fn add_field(fields: &mut Vec<String>, key: &str, value: String)
    ensures
        final(fields).deep_view() == old(fields).deep_view().push(field(key@, value@)),
{
    let ghost before = fields.deep_view();
    let mut text = quoted(key);
    text.append(":");
    text.append(value.as_str());
    let ghost written = text@;
    assert(written == field(key@, value@));
    fields.push(text);
    assert(fields.deep_view() =~= before.push(written));
}

/// Writes an object.
pub fn write_object(fields: &Vec<String>) -> (r: String)
    ensures
        r@ == object_text(fields.deep_view()),
{
    let mut text = "{".to_owned();
    text.append(join(fields, ",").as_str());
    text.append("}");
    text
}

/// Writes a text, `null` where there is none.
pub fn write_text(value: &Option<String>) -> (r: String)
    ensures
        r@ == text_or_null(value.deep_view()),
{
    match value {
        Some(text) => quoted(text.as_str()),
        None => "null".to_owned(),
    }
}

/// Writes an integer, `null` where there is none.
pub fn write_integer(value: Option<i64>) -> (r: String)
    ensures
        r@ == integer_or_null(value),
{
    match value {
        Some(n) => decimal(n),
        None => "null".to_owned(),
    }
}

/// Writes a truth value, `null` where there is none.
pub fn write_flag(value: Option<bool>) -> (r: String)
    ensures
        r@ == flag_or_null(value),
{
    match value {
        Some(true) => "true".to_owned(),
        Some(false) => "false".to_owned(),
        None => "null".to_owned(),
    }
}

/// The percentage of a member that is a number.
pub open spec fn percentage_in(value: JsonView, key: Seq<char>) -> Option<PercentageView> {
    match value.get(key) {
        Some(JsonView::Number(n)) => Some(PercentageView { value: n.float, text: n.float_text }),
        _ => None,
    }
}

/// A percentage in writing, `null` where there is none.
pub open spec fn percentage_or_null(value: Option<PercentageView>) -> Seq<char> {
    match value {
        Some(percentage) => percentage.text,
        None => "null"@,
    }
}

} // verus!
