//! JSON values as plain data.
use crate::text;
use serde_json::Value;
use vstd::prelude::*;
use vstd::string::*;

verus! {

/// A JSON number: a whole number of 64 bits, or the text of any other.
#[derive(Debug, PartialEq, Eq)]
pub enum JsonNumber {
    Unsigned(u64),
    Negative(i64),
    Other(String),
}

/// A JSON value. An object lists its members; a name stands for its first member.
#[derive(Debug, PartialEq, Eq)]
pub enum Json {
    Null,
    Bool(bool),
    Number(JsonNumber),
    Text(String),
    Array(Vec<Json>),
    Object(Vec<(String, Json)>),
}

/// What a JSON number says.
pub enum JsonNumberView {
    Unsigned(u64),
    Negative(i64),
    Other(Seq<char>),
}

/// What a JSON value says.
pub enum JsonView {
    Null,
    Bool(bool),
    Number(JsonNumberView),
    Text(Seq<char>),
    Array(Seq<JsonView>),
    Object(Seq<(Seq<char>, JsonView)>),
}

impl JsonNumberView {
    /// Whether this is the text of a zero with a fraction, of either sign.
    pub open spec fn fractional_zero(self) -> bool {
        self == JsonNumberView::Other("0.0"@) || self == JsonNumberView::Other("-0.0"@)
    }

    /// Whether two numbers are equal. A number that is not whole has one text, but for zero.
    pub open spec fn agrees(self, other: JsonNumberView) -> bool {
        self == other || self.fractional_zero() && other.fractional_zero()
    }
}

/// Whether two JSON values are equal.
pub open spec fn values_agree(a: JsonView, b: JsonView) -> bool
    decreases a,
{
    match (a, b) {
        (JsonView::Number(m), JsonView::Number(n)) => m.agrees(n),
        (JsonView::Array(x), JsonView::Array(y)) => x.len() == y.len() && forall|i: int|
            0 <= i < x.len() ==> values_agree(#[trigger] x[i], y[i]),
        (JsonView::Object(x), JsonView::Object(y)) => x.len() == y.len() && forall|i: int|
            0 <= i < x.len() ==> (#[trigger] x[i]).0 == y[i].0 && values_agree(x[i].1, y[i].1),
        _ => a == b,
    }
}

impl DeepView for JsonNumber {
    type V = JsonNumberView;

    open spec fn deep_view(&self) -> JsonNumberView {
        match self {
            JsonNumber::Unsigned(n) => JsonNumberView::Unsigned(*n),
            JsonNumber::Negative(n) => JsonNumberView::Negative(*n),
            JsonNumber::Other(s) => JsonNumberView::Other(s@),
        }
    }
}

impl Json {
    /// What the value says.
    pub open spec fn said(&self) -> JsonView
        decreases self,
    {
        match self {
            Json::Null => JsonView::Null,
            Json::Bool(b) => JsonView::Bool(*b),
            Json::Number(n) => JsonView::Number(n.deep_view()),
            Json::Text(s) => JsonView::Text(s@),
            Json::Array(items) => JsonView::Array(
                Seq::new(
                    items@.len(),
                    |i: int|
                        if 0 <= i < items@.len() {
                            items@[i].said()
                        } else {
                            JsonView::Null
                        },
                ),
            ),
            Json::Object(members) => JsonView::Object(
                Seq::new(
                    members@.len(),
                    |i: int|
                        if 0 <= i < members@.len() {
                            (members@[i].0@, members@[i].1.said())
                        } else {
                            (Seq::empty(), JsonView::Null)
                        },
                ),
            ),
        }
    }
}

impl DeepView for Json {
    type V = JsonView;

    open spec fn deep_view(&self) -> JsonView {
        self.said()
    }
}

/// The first member of this name among the members from `from` on.
pub open spec fn member_from(
    members: Seq<(Seq<char>, JsonView)>,
    name: Seq<char>,
    from: int,
) -> Option<JsonView>
    decreases members.len() - from,
{
    if from < 0 || from >= members.len() {
        None
    } else if members[from].0 == name {
        Some(members[from].1)
    } else {
        member_from(members, name, from + 1)
    }
}

/// A member whose name no member before it has is the member of its name.
pub proof fn lemma_member_at(
    members: Seq<(Seq<char>, JsonView)>,
    name: Seq<char>,
    from: int,
    at: int,
)
    requires
        0 <= from <= at < members.len(),
        members[at].0 == name,
        forall|j: int| from <= j < at ==> (#[trigger] members[j]).0 != name,
    ensures
        member_from(members, name, from) == Some(members[at].1),
    decreases at - from,
{
    if from < at {
        lemma_member_at(members, name, from + 1, at);
    }
}

/// Whether no name stands twice among the members.
pub open spec fn distinct_names(members: Seq<(Seq<char>, JsonView)>) -> bool {
    forall|i: int, j: int|
        0 <= i < j < members.len() ==> (#[trigger] members[i]).0 != (#[trigger] members[j]).0
}

/// Whether `b` is `a` with the members of its objects in some order, no name twice.
pub open spec fn reordered(a: JsonView, b: JsonView) -> bool
    decreases a,
{
    match (a, b) {
        (JsonView::Array(x), JsonView::Array(y)) => x.len() == y.len() && forall|i: int|
            0 <= i < x.len() ==> reordered(#[trigger] x[i], y[i]),
        (JsonView::Object(x), JsonView::Object(y)) => x.len() == y.len() && distinct_names(y)
            && forall|i: int|
            0 <= i < x.len() ==> exists|j: int|
                0 <= j < y.len() && (#[trigger] y[j]).0 == (#[trigger] x[i]).0 && reordered(
                    x[i].1,
                    y[j].1,
                ),
        _ => a == b,
    }
}

proof fn lemma_member_stands(members: Seq<(Seq<char>, JsonView)>, name: Seq<char>, from: int) -> (at:
    int)
    requires
        0 <= from,
        member_from(members, name, from) is Some,
    ensures
        from <= at < members.len(),
        members[at].0 == name,
        member_from(members, name, from) == Some(members[at].1),
    decreases members.len() - from,
{
    if members[from].0 == name {
        from
    } else {
        lemma_member_stands(members, name, from + 1)
    }
}

/// A member is found in whatever order the members stand.
pub proof fn lemma_reordered_member(a: JsonView, b: JsonView, name: Seq<char>)
    requires
        reordered(a, b),
        a.member(name) is Some,
    ensures
        b.size() == a.size(),
        b.member(name) matches Some(value) && reordered(a.member(name)->0, value),
{
    if let (JsonView::Object(x), JsonView::Object(y)) = (a, b) {
        let i = lemma_member_stands(x, name, 0);
        let j = choose|j: int|
            0 <= j < y.len() && (#[trigger] y[j]).0 == x[i].0 && reordered(x[i].1, y[j].1);
        lemma_member_at(y, name, 0, j);
    }
}

impl JsonView {
    /// The member of this name, if the value is an object that has one.
    pub open spec fn member(self, name: Seq<char>) -> Option<JsonView> {
        match self {
            JsonView::Object(members) => member_from(members, name, 0),
            _ => None,
        }
    }

    /// How many members the value has, if it is an object.
    pub open spec fn size(self) -> Option<nat> {
        match self {
            JsonView::Object(members) => Some(members.len()),
            _ => None,
        }
    }

    /// The text, if the value is one.
    pub open spec fn text(self) -> Option<Seq<char>> {
        match self {
            JsonView::Text(s) => Some(s),
            _ => None,
        }
    }

    /// The truth value, if the value is one.
    pub open spec fn truth(self) -> Option<bool> {
        match self {
            JsonView::Bool(b) => Some(b),
            _ => None,
        }
    }

    /// The number, if the value is a whole number from zero on.
    pub open spec fn unsigned(self) -> Option<u64> {
        match self {
            JsonView::Number(JsonNumberView::Unsigned(n)) => Some(n),
            _ => None,
        }
    }

    /// The items, if the value is an array.
    pub open spec fn items(self) -> Option<Seq<JsonView>> {
        match self {
            JsonView::Array(items) => Some(items),
            _ => None,
        }
    }

    /// The text of the member of this name, if there is one and it is a text.
    pub open spec fn member_text(self, name: Seq<char>) -> Option<Seq<char>> {
        match self.member(name) {
            Some(value) => value.text(),
            None => None,
        }
    }

    /// The number of the member of this name, if there is one and it is a whole number from zero on.
    pub open spec fn member_number(self, name: Seq<char>) -> Option<u64> {
        match self.member(name) {
            Some(value) => value.unsigned(),
            None => None,
        }
    }
}

impl Json {
    /// The member of this name, if the value is an object that has one.
    pub fn get(&self, name: &str) -> (r: Option<&Json>)
        ensures
            r is Some <==> self.deep_view().member(name@) is Some,
            r matches Some(value) ==> self.deep_view().member(name@) == Some(value.deep_view()),
    {
        if let Json::Object(members) = self {
            let ghost all = match self.deep_view() {
                JsonView::Object(all) => all,
                _ => Seq::empty(),
            };
            let mut i: usize = 0;
            while i < members.len()
                invariant
                    i <= members@.len() == all.len(),
                    forall|j: int| 0 <= j < all.len() ==> #[trigger] all[j] == (members@[j].0@, members@[j].1.said()),
                    member_from(all, name@, 0) == member_from(all, name@, i as int),
                    self matches Json::Object(own) && own == members,
                    self.deep_view() == JsonView::Object(all),
                decreases members@.len() - i,
            {
                assert(all[i as int] == (members@[i as int].0@, members@[i as int].1.said()));
                if text::str_eq(members[i].0.as_str(), name) {
                    return Some(&members[i].1);
                }
                i += 1;
            }
        }
        None
    }

    /// Whether the value is an object of this many members.
    pub fn has_size(&self, count: usize) -> (r: bool)
        ensures
            r == (self.deep_view().size() == Some(count as nat)),
    {
        match self {
            Json::Object(members) => members.len() == count,
            _ => false,
        }
    }

    /// The text, if the value is one.
    pub fn as_str(&self) -> (r: Option<&str>)
        ensures
            r is Some <==> self.deep_view().text() is Some,
            r matches Some(s) ==> self.deep_view().text() == Some(s@),
    {
        match self {
            Json::Text(s) => Some(s.as_str()),
            _ => None,
        }
    }

    /// The truth value, if the value is one.
    pub fn as_bool(&self) -> (r: Option<bool>)
        ensures
            r == self.deep_view().truth(),
    {
        match self {
            Json::Bool(b) => Some(*b),
            _ => None,
        }
    }

    /// The number, if the value is a whole number from zero on.
    pub fn as_u64(&self) -> (r: Option<u64>)
        ensures
            r == self.deep_view().unsigned(),
    {
        match self {
            Json::Number(JsonNumber::Unsigned(n)) => Some(*n),
            _ => None,
        }
    }

    /// The items, if the value is an array.
    pub fn as_array(&self) -> (r: Option<&Vec<Json>>)
        ensures
            r is Some <==> self.deep_view().items() is Some,
            r matches Some(items) ==> self.deep_view().items() == Some(items.deep_view()),
    {
        match self {
            Json::Array(items) => {
                assert(self.deep_view().items()->0 =~= items.deep_view());
                Some(items)
            },
            _ => None,
        }
    }

    /// The text of the member of this name, if there is one and it is a text.
    pub fn get_str(&self, name: &str) -> (r: Option<&str>)
        ensures
            r is Some <==> self.deep_view().member_text(name@) is Some,
            r matches Some(s) ==> self.deep_view().member_text(name@) == Some(s@),
    {
        match self.get(name) {
            Some(value) => value.as_str(),
            None => None,
        }
    }

    /// The number of the member of this name, if there is one and it is a whole number from zero on.
    pub fn get_u64(&self, name: &str) -> (r: Option<u64>)
        ensures
            r == self.deep_view().member_number(name@),
    {
        match self.get(name) {
            Some(value) => value.as_u64(),
            None => None,
        }
    }

    /// A JSON text.
    pub fn of_text(s: &str) -> (r: Json)
        ensures
            r.deep_view() == JsonView::Text(s@),
    {
        Json::Text(s.to_owned())
    }

    /// A JSON array.
    pub fn of_items(items: Vec<Json>) -> (r: Json)
        ensures
            r.deep_view() == JsonView::Array(items.deep_view()),
    {
        let r = Json::Array(items);
        assert(r.deep_view().items()->0 =~= items.deep_view());
        r
    }

    /// A JSON object.
    pub fn of_members(members: Vec<(String, Json)>) -> (r: Json)
        ensures
            r.deep_view() == JsonView::Object(members_view(members@)),
    {
        let r = Json::Object(members);
        assert(match r.deep_view() {
            JsonView::Object(all) => all =~= members_view(members@),
            _ => false,
        });
        r
    }
}

/// The object of these members.
pub open spec fn object(members: Seq<(Seq<char>, JsonView)>) -> JsonView {
    JsonView::Object(members)
}

/// The JSON text `s`.
pub open spec fn said_text(s: Seq<char>) -> JsonView {
    JsonView::Text(s)
}

/// The JSON whole number `n`.
pub open spec fn said_number(n: u64) -> JsonView {
    JsonView::Number(JsonNumberView::Unsigned(n))
}

/// The members of an object, one by one.
pub struct ObjectBuilder {
    pub members: Vec<(String, Json)>,
}

impl ObjectBuilder {
    /// What the members say so far.
    pub open spec fn said(&self) -> Seq<(Seq<char>, JsonView)> {
        members_view(self.members@)
    }

    /// No members.
    pub fn new() -> (r: Self)
        ensures
            r.said() == Seq::<(Seq<char>, JsonView)>::empty(),
    {
        let r = ObjectBuilder { members: Vec::new() };
        assert(r.said() =~= Seq::empty());
        r
    }

    /// With one more member.
    pub fn with(self, name: &str, value: Json) -> (r: Self)
        ensures
            r.said() == self.said().push((name@, value.deep_view())),
    {
        let mut members = self.members;
        push_member(&mut members, name, value);
        ObjectBuilder { members }
    }

    /// With one more member that is a text.
    pub fn text(self, name: &str, value: &str) -> (r: Self)
        ensures
            r.said() == self.said().push((name@, said_text(value@))),
    {
        self.with(name, Json::of_text(value))
    }

    /// With one more member that is a number.
    pub fn number(self, name: &str, value: u64) -> (r: Self)
        ensures
            r.said() == self.said().push((name@, said_number(value))),
    {
        self.with(name, Json::Number(JsonNumber::Unsigned(value)))
    }

    /// The object.
    pub fn build(self) -> (r: Json)
        ensures
            r.deep_view() == object(self.said()),
    {
        Json::of_members(self.members)
    }
}

/// What the members of an object say.
pub open spec fn members_view(members: Seq<(String, Json)>) -> Seq<(Seq<char>, JsonView)> {
    Seq::new(members.len(), |i: int| (members[i].0@, members[i].1.deep_view()))
}

/// Adds a member to the members of an object.
pub fn push_member(members: &mut Vec<(String, Json)>, name: &str, value: Json)
    ensures
        members_view(final(members)@) == members_view(old(members)@).push(
            (name@, value.deep_view()),
        ),
{
    let ghost before = members_view(members@);
    members.push((name.to_owned(), value));
    assert(members_view(members@) =~= before.push((name@, value.deep_view())));
}

impl Clone for JsonNumber {
    fn clone(&self) -> (r: Self)
        ensures
            r.deep_view() == self.deep_view(),
    {
        match self {
            JsonNumber::Unsigned(n) => JsonNumber::Unsigned(*n),
            JsonNumber::Negative(n) => JsonNumber::Negative(*n),
            JsonNumber::Other(s) => JsonNumber::Other(s.clone()),
        }
    }
}

impl Clone for Json {
    fn clone(&self) -> (r: Self)
        ensures
            r.deep_view() == self.deep_view(),
        decreases self,
    {
        match self {
            Json::Null => Json::Null,
            Json::Bool(b) => Json::Bool(*b),
            Json::Number(n) => Json::Number(n.clone()),
            Json::Text(s) => Json::Text(s.clone()),
            Json::Array(items) => {
                let mut out: Vec<Json> = Vec::new();
                let mut i: usize = 0;
                while i < items.len()
                    invariant
                        i <= items@.len(),
                        out@.len() == i,
                        forall|j: int|
                            0 <= j < i ==> (#[trigger] out@[j]).deep_view()
                                == items@[j].deep_view(),
                        self matches Json::Array(own) && own == items,
                    decreases items@.len() - i,
                {
                    assert(decreases_to!(self => items@));
                    assert(decreases_to!(items@ => items@[i as int]));
                    out.push(items[i].clone());
                    i += 1;
                }
                let r = Json::Array(out);
                assert(r.said().items()->0 =~= self.said().items()->0);
                r
            },
            Json::Object(members) => {
                let mut out: Vec<(String, Json)> = Vec::new();
                let mut i: usize = 0;
                while i < members.len()
                    invariant
                        i <= members@.len(),
                        out@.len() == i,
                        forall|j: int|
                            0 <= j < i ==> (#[trigger] out@[j]).0@ == members@[j].0@
                                && out@[j].1.deep_view() == members@[j].1.deep_view(),
                        self matches Json::Object(own) && own == members,
                    decreases members@.len() - i,
                {
                    assert(decreases_to!(self => members@));
                    assert(decreases_to!(members@ => members@[i as int]));
                    let value = members[i].1.clone();
                    out.push((members[i].0.clone(), value));
                    i += 1;
                }
                let r = Json::Object(out);
                assert(match (r.said(), self.said()) {
                    (JsonView::Object(a), JsonView::Object(b)) => a =~= b,
                    _ => false,
                });
                r
            },
        }
    }
}

impl JsonNumber {
    /// Whether this is the text of a zero with a fraction, of either sign.
    fn is_fractional_zero(&self) -> (r: bool)
        ensures
            r == self.deep_view().fractional_zero(),
    {
        match self {
            JsonNumber::Other(s) => text::str_eq(s.as_str(), "0.0") || text::str_eq(
                s.as_str(),
                "-0.0",
            ),
            _ => false,
        }
    }

    /// Whether two numbers are equal.
    pub fn same(&self, other: &JsonNumber) -> (r: bool)
        ensures
            r == self.deep_view().agrees(other.deep_view()),
    {
        if self.is_fractional_zero() && other.is_fractional_zero() {
            return true;
        }
        match (self, other) {
            (JsonNumber::Unsigned(a), JsonNumber::Unsigned(b)) => *a == *b,
            (JsonNumber::Negative(a), JsonNumber::Negative(b)) => *a == *b,
            (JsonNumber::Other(a), JsonNumber::Other(b)) => text::str_eq(a.as_str(), b.as_str()),
            _ => false,
        }
    }
}

impl Json {
    /// Whether two values are equal.
    pub fn same(&self, other: &Json) -> (r: bool)
        ensures
            r == values_agree(self.deep_view(), other.deep_view()),
        decreases self,
    {
        match (self, other) {
            (Json::Null, Json::Null) => true,
            (Json::Bool(a), Json::Bool(b)) => *a == *b,
            (Json::Number(a), Json::Number(b)) => a.same(b),
            (Json::Text(a), Json::Text(b)) => text::str_eq(a.as_str(), b.as_str()),
            (Json::Array(a), Json::Array(b)) => {
                let ghost left = self.said().items()->0;
                let ghost right = other.said().items()->0;
                if a.len() != b.len() {
                    assert(left.len() != right.len());
                    return false;
                }
                let mut i: usize = 0;
                while i < a.len()
                    invariant
                        i <= a@.len() == b@.len(),
                        left.len() == right.len() == a@.len(),
                        forall|j: int| 0 <= j < a@.len() ==> #[trigger] left[j] == a@[j].said(),
                        forall|j: int| 0 <= j < b@.len() ==> #[trigger] right[j] == b@[j].said(),
                        forall|j: int|
                            0 <= j < i ==> values_agree(#[trigger] left[j], right[j]),
                        self matches Json::Array(own) && own == a,
                        self.said() == JsonView::Array(left),
                        other.said() == JsonView::Array(right),
                    decreases a@.len() - i,
                {
                    assert(decreases_to!(self => a@));
                    assert(decreases_to!(a@ => a@[i as int]));
                    assert(left[i as int] == a@[i as int].said());
                    assert(right[i as int] == b@[i as int].said());
                    if !a[i].same(&b[i]) {
                        return false;
                    }
                    i += 1;
                }
                true
            },
            (Json::Object(a), Json::Object(b)) => {
                let ghost left = match self.said() {
                    JsonView::Object(all) => all,
                    _ => Seq::empty(),
                };
                let ghost right = match other.said() {
                    JsonView::Object(all) => all,
                    _ => Seq::empty(),
                };
                if a.len() != b.len() {
                    assert(left.len() != right.len());
                    return false;
                }
                let mut i: usize = 0;
                while i < a.len()
                    invariant
                        i <= a@.len() == b@.len(),
                        left.len() == right.len() == a@.len(),
                        forall|j: int|
                            0 <= j < a@.len() ==> #[trigger] left[j] == (a@[j].0@, a@[j].1.said()),
                        forall|j: int|
                            0 <= j < b@.len() ==> #[trigger] right[j] == (b@[j].0@, b@[j].1.said()),
                        forall|j: int|
                            0 <= j < i ==> (#[trigger] left[j]).0 == right[j].0 && values_agree(
                                left[j].1,
                                right[j].1,
                            ),
                        self matches Json::Object(own) && own == a,
                        self.said() == JsonView::Object(left),
                        other.said() == JsonView::Object(right),
                    decreases a@.len() - i,
                {
                    assert(decreases_to!(self => a@));
                    assert(decreases_to!(a@ => a@[i as int]));
                    assert(left[i as int] == (a@[i as int].0@, a@[i as int].1.said()));
                    assert(right[i as int] == (b@[i as int].0@, b@[i as int].1.said()));
                    if !text::str_eq(a[i].0.as_str(), b[i].0.as_str()) || !a[i].1.same(&b[i].1) {
                        return false;
                    }
                    i += 1;
                }
                true
            },
            _ => false,
        }
    }
}

/// A JSON value as `serde_json` holds it.
#[verifier::external_type_specification]
#[verifier::external_body]
pub struct ExValue(serde_json::Value);

/// The error of `serde_json`.
#[verifier::external_type_specification]
#[verifier::external_body]
pub struct ExJsonError(serde_json::Error);

/// What a JSON value of `serde_json` holds.
pub uninterp spec fn value_said(value: serde_json::Value) -> JsonView;

/// What a JSON text says, if it is one.
pub uninterp spec fn parsed_json(s: Seq<char>) -> Option<JsonView>;

/// What JSON bytes say, if they are a JSON text.
pub uninterp spec fn parsed_json_bytes(bytes: Seq<u8>) -> Option<JsonView>;

/// What `serde_json` holds of a JSON value: an object keeps one member of each name.
pub uninterp spec fn held_json(value: JsonView) -> JsonView;

/// The compact text of a JSON value.
pub uninterp spec fn json_text(value: JsonView) -> Seq<char>;

/// `serde_json::from_str` into a `serde_json::Value`.
#[verifier::external_body]
fn parse_value(s: &str) -> (r: Result<serde_json::Value, serde_json::Error>)
    ensures
        r is Ok <==> parsed_json(s@) is Some,
        r matches Ok(value) ==> Some(value_said(value)) == parsed_json(s@),
{
    serde_json::from_str(s)
}

/// `serde_json::from_slice` into a `serde_json::Value`.
#[verifier::external_body]
fn parse_value_bytes(bytes: &[u8]) -> (r: Result<serde_json::Value, serde_json::Error>)
    ensures
        r is Ok <==> parsed_json_bytes(bytes@) is Some,
        r matches Ok(value) ==> Some(value_said(value)) == parsed_json_bytes(bytes@),
{
    serde_json::from_slice(bytes)
}

/// The parts of a `serde_json::Value`: its variant and what that holds. A number is told apart by
/// `as_u64` and `as_i64`, and otherwise kept as its text.
#[verifier::external_body]
fn json_of_value(value: Value) -> (r: Json)
    ensures
        r.deep_view() == value_said(value),
{
    match value {
        Value::Null => Json::Null,
        Value::Bool(b) => Json::Bool(b),
        Value::Number(n) => match (n.as_u64(), n.as_i64()) {
            (Some(n), _) => Json::Number(JsonNumber::Unsigned(n)),
            (None, Some(n)) => Json::Number(JsonNumber::Negative(n)),
            (None, None) => Json::Number(JsonNumber::Other(n.to_string())),
        },
        Value::String(s) => Json::Text(s),
        Value::Array(items) => Json::Array(items.into_iter().map(json_of_value).collect()),
        Value::Object(members) => Json::Object(
            members.into_iter().map(|(name, value)| (name, json_of_value(value))).collect(),
        ),
    }
}

/// A `serde_json::Value` made of a JSON value, variant by variant; the text of a number is read
/// with `serde_json::from_str`, and the members of an object are collected into a
/// `serde_json::Map`.
#[verifier::external_body]
fn value_of_json(json: &Json) -> (r: Value)
    ensures
        value_said(r) == held_json(json.deep_view()),
{
    match json {
        Json::Null => Value::Null,
        Json::Bool(b) => Value::Bool(*b),
        Json::Number(JsonNumber::Unsigned(n)) => Value::from(*n),
        Json::Number(JsonNumber::Negative(n)) => Value::from(*n),
        Json::Number(JsonNumber::Other(s)) => serde_json::from_str(s).unwrap_or_default(),
        Json::Text(s) => Value::String(s.clone()),
        Json::Array(items) => Value::Array(items.iter().map(value_of_json).collect()),
        Json::Object(members) => Value::Object(
            members.iter().map(|member| (member.0.clone(), value_of_json(&member.1))).collect(),
        ),
    }
}

/// The text of a `serde_json::Value`, which its `Display` writes without white space.
#[verifier::external_body]
fn text_of_value(value: &serde_json::Value) -> (r: String)
    ensures
        r@ == json_text(value_said(*value)),
{
    value.to_string()
}

/// Reads a JSON text.
pub fn parse_json(s: &str) -> (r: Result<Json, serde_json::Error>)
    ensures
        r is Ok <==> parsed_json(s@) is Some,
        r matches Ok(json) ==> parsed_json(s@) == Some(json.deep_view()),
{
    match parse_value(s) {
        Ok(value) => Ok(json_of_value(value)),
        Err(error) => Err(error),
    }
}

/// Reads JSON bytes.
pub fn parse_json_bytes(bytes: &[u8]) -> (r: Result<Json, serde_json::Error>)
    ensures
        r is Ok <==> parsed_json_bytes(bytes@) is Some,
        r matches Ok(json) ==> parsed_json_bytes(bytes@) == Some(json.deep_view()),
{
    match parse_value_bytes(bytes) {
        Ok(value) => Ok(json_of_value(value)),
        Err(error) => Err(error),
    }
}

/// The compact text of a JSON value.
pub fn json_to_text(json: &Json) -> (r: String)
    ensures
        r@ == json_text(held_json(json.deep_view())),
{
    text_of_value(&value_of_json(json))
}

} // verus!
