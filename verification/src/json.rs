//! JSON values: the library's own model of them, its lookups, and the bridge to `serde_json`,
//! which reads and writes their text.
use crate::text::{chars_of, decimal_text, same_text};
use vstd::prelude::*;

verus! {

/// A JSON value.
///
/// A number is kept as the unsigned integer that it is, where it is one; any other number is
/// carried along as `serde_json` holds it.
#[derive(Debug, PartialEq)]
pub enum Json {
    Null,
    Bool(bool),
    Unsigned(u64),
    OtherNumber(serde_json::Number),
    Text(String),
    Array(Vec<Json>),
    Object(Members),
}

/// The members of a JSON object. Of several members with one name the last one counts.
#[derive(Debug, PartialEq)]
pub struct Members {
    pub entries: Vec<(String, Json)>,
}

/// What a JSON value is, with texts as sequences of characters and objects as maps.
pub enum JsonView {
    Null,
    Bool(bool),
    Unsigned(u64),
    OtherNumber(serde_json::Number),
    Text(Seq<char>),
    Array(Seq<JsonView>),
    Object(Map<Seq<char>, JsonView>),
}

/// `serde_json::Number`, a JSON number of any kind. It is only carried along.
#[verifier::external_type_specification]
#[verifier::external_body]
pub struct ExNumber(serde_json::Number);

/// The unsigned integer that a `serde_json::Number` is, where it is one.
pub uninterp spec fn number_u64(number: serde_json::Number) -> Option<u64>;

/// `serde_json::Number::as_u64` gives the number as an unsigned integer, where it is one.
pub assume_specification[ serde_json::Number::as_u64 ](number: &serde_json::Number) -> (r: Option<
    u64,
>)
    ensures
        r == number_u64(*number),
;

/// The JSON value that a `serde_json::Number` is.
pub open spec fn number_json(number: serde_json::Number) -> JsonView {
    match number_u64(number) {
        Some(n) => JsonView::Unsigned(n),
        None => JsonView::OtherNumber(number),
    }
}

/// The map that a list of named values describes, in which of several values with one name the
/// last one counts.
pub open spec fn entries_map<V>(entries: Seq<(Seq<char>, V)>) -> Map<Seq<char>, V>
    decreases entries.len(),
{
    if entries.len() == 0 {
        Map::empty()
    } else {
        entries_map(entries.drop_last()).insert(entries.last().0, entries.last().1)
    }
}

/// The value that a `Json` stands for.
pub open spec fn json_view(json: Json) -> JsonView
    decreases json,
{
    match json {
        Json::Null => JsonView::Null,
        Json::Bool(b) => JsonView::Bool(b),
        Json::Unsigned(n) => JsonView::Unsigned(n),
        Json::OtherNumber(n) => number_json(n),
        Json::Text(s) => JsonView::Text(s@),
        Json::Array(items) => JsonView::Array(item_views(items)),
        Json::Object(members) => JsonView::Object(entries_map(member_views(members))),
    }
}

/// The values of a list of items.
pub open spec fn item_views(items: Vec<Json>) -> Seq<JsonView>
    decreases items,
{
    Seq::new(
        items@.len(),
        |i: int|
            if 0 <= i < items@.len() {
                json_view(items@[i])
            } else {
                JsonView::Null
            },
    )
}

/// The names and values of a list of members, in order.
pub open spec fn member_views(members: Members) -> Seq<(Seq<char>, JsonView)>
    decreases members,
{
    Seq::new(
        members.entries@.len(),
        |i: int|
            if 0 <= i < members.entries@.len() {
                (members.entries@[i].0@, json_view(members.entries@[i].1))
            } else {
                (Seq::empty(), JsonView::Null)
            },
    )
}

impl View for Json {
    type V = JsonView;

    open spec fn view(&self) -> JsonView {
        json_view(*self)
    }
}

impl View for Members {
    type V = Map<Seq<char>, JsonView>;

    open spec fn view(&self) -> Map<Seq<char>, JsonView> {
        entries_map(member_views(*self))
    }
}

/// The value of an array is the sequence of its items' values.
pub proof fn lemma_array_view(items: Vec<Json>)
    ensures
        Json::Array(items)@ == JsonView::Array(items@.map_values(|item: Json| item@)),
{
    assert(items@.map_values(|item: Json| item@) =~= item_views(items));
}

/// The last entry of a name is the one that the map holds.
pub proof fn lemma_last_entry<V>(entries: Seq<(Seq<char>, V)>, i: int)
    requires
        0 <= i < entries.len(),
        forall|j: int| i < j < entries.len() ==> entries[j].0 != entries[i].0,
    ensures
        entries_map(entries).contains_key(entries[i].0),
        entries_map(entries)[entries[i].0] == entries[i].1,
    decreases entries.len(),
{
    if i < entries.len() - 1 {
        lemma_last_entry(entries.drop_last(), i);
    }
}

/// The map has finitely many names.
pub proof fn lemma_entries_map_finite<V>(entries: Seq<(Seq<char>, V)>)
    ensures
        entries_map(entries).dom().finite(),
    decreases entries.len(),
{
    if entries.len() > 0 {
        lemma_entries_map_finite(entries.drop_last());
    }
}

/// A name without an entry is not in the map.
pub proof fn lemma_no_entry<V>(entries: Seq<(Seq<char>, V)>, key: Seq<char>)
    requires
        forall|j: int| 0 <= j < entries.len() ==> entries[j].0 != key,
    ensures
        !entries_map(entries).contains_key(key),
    decreases entries.len(),
{
    if entries.len() > 0 {
        lemma_no_entry(entries.drop_last(), key);
    }
}

/// To give the last entry of a name another value is to insert that value into the map.
pub proof fn lemma_replace_entry<V>(entries: Seq<(Seq<char>, V)>, i: int, value: V)
    requires
        0 <= i < entries.len(),
        forall|j: int| i < j < entries.len() ==> entries[j].0 != entries[i].0,
    ensures
        entries_map(entries.update(i, (entries[i].0, value))) == entries_map(entries).insert(
            entries[i].0,
            value,
        ),
    decreases entries.len(),
{
    let updated = entries.update(i, (entries[i].0, value));
    if i == entries.len() - 1 {
        assert(updated.drop_last() =~= entries.drop_last());
        assert(entries_map(updated) =~= entries_map(entries).insert(entries[i].0, value));
    } else {
        lemma_replace_entry(entries.drop_last(), i, value);
        assert(updated.drop_last() =~= entries.drop_last().update(i, (entries[i].0, value)));
        assert(entries_map(updated) =~= entries_map(entries).insert(entries[i].0, value));
    }
}

/// To append an entry is to insert it into the map.
pub proof fn lemma_push_entry<V>(entries: Seq<(Seq<char>, V)>, key: Seq<char>, value: V)
    ensures
        entries_map(entries.push((key, value))) == entries_map(entries).insert(key, value),
{
    assert(entries.push((key, value)).drop_last() =~= entries);
}

/// No name has two entries.
pub open spec fn distinct_names<V>(entries: Seq<(String, V)>) -> bool {
    forall|i: int, j: int|
        0 <= i < j < entries.len() ==> (#[trigger] entries[i]).0@ != (#[trigger] entries[j]).0@
}

impl Members {
    /// No members.
    pub fn new() -> (r: Self)
        ensures
            r@ == Map::<Seq<char>, JsonView>::empty(),
            distinct_names(r.entries@),
    {
        Members { entries: Vec::new() }
    }

    /// Gives the member `key` a value, in place of the one it had, if it had one.
    pub fn set(&mut self, key: &str, value: Json)
        ensures
            final(self)@ == old(self)@.insert(key@, value@),
            distinct_names(old(self).entries@) ==> distinct_names(final(self).entries@),
    {
        let ghost before = member_views(*self);
        let mut n: usize = self.entries.len();
        while n > 0 && !same_text(self.entries[n - 1].0.as_str(), key)
            invariant
                *self == *old(self),
                n <= self.entries@.len(),
                forall|j: int| n <= j < self.entries@.len() ==> self.entries@[j].0@ != key@,
            decreases n,
        {
            n = n - 1;
        }
        if n > 0 {
            self.entries.set(n - 1, (key.to_string(), value));
            proof {
                assert(member_views(*self) =~= before.update(n - 1, (before[n - 1].0, value@)));
                lemma_replace_entry(before, n - 1, value@);
            }
        } else {
            self.entries.push((key.to_string(), value));
            proof {
                assert(member_views(*self) =~= before.push((key@, value@)));
                lemma_push_entry(before, key@, value@);
            }
        }
    }

    /// Gives members the values that they have in another list.
    pub fn extend(&mut self, other: Members)
        ensures
            final(self)@ == old(self)@.union_prefer_right(other@),
            distinct_names(old(self).entries@) ==> distinct_names(final(self).entries@),
    {
        let ghost before = self@;
        let ghost views = member_views(other);
        let entries = other.entries;
        assert(views.take(0) =~= Seq::empty());
        assert(self@ =~= before.union_prefer_right(entries_map(views.take(0))));
        for entry in it: entries
            invariant
                it.seq() == entries@,
                entries == other.entries,
                views == member_views(other),
                self@ == before.union_prefer_right(entries_map(views.take(it.index() as int))),
                distinct_names(old(self).entries@) ==> distinct_names(self.entries@),
        {
            let ghost i = it.index() as int;
            self.set(entry.0.as_str(), entry.1);
            proof {
                let done = views.take(i);
                assert(entry == entries@[i]);
                assert(views.take(i + 1) =~= done.push((entry.0@, entry.1@)));
                lemma_push_entry(done, entry.0@, entry.1@);
                assert(self@ =~= before.union_prefer_right(entries_map(views.take(i + 1))));
            }
        }
        assert(views.take(views.len() as int) =~= views);
    }

    /// The same members, each once.
    fn unique(self) -> (r: Self)
        ensures
            r@ == self@,
            distinct_names(r.entries@),
    {
        let mut members = Members::new();
        members.extend(self);
        assert(members@ =~= self@);
        members
    }

    /// These members and one more, or one given another value.
    pub fn with(self, key: &str, value: Json) -> (r: Self)
        ensures
            r@ == self@.insert(key@, value@),
    {
        let mut members = self;
        members.set(key, value);
        members
    }

    /// These members and one more whose value is a text.
    pub fn with_text(self, key: &str, value: &str) -> (r: Self)
        ensures
            r@ == self@.insert(key@, JsonView::Text(value@)),
    {
        self.with(key, Json::Text(value.to_string()))
    }

    /// The value of the member `key`.
    pub fn get(&self, key: &str) -> (r: Option<&Json>)
        ensures
            match r {
                Some(value) => self@.contains_key(key@) && value@ == self@[key@],
                None => !self@.contains_key(key@),
            },
    {
        let ghost views = member_views(*self);
        let mut n: usize = self.entries.len();
        while n > 0 && !same_text(self.entries[n - 1].0.as_str(), key)
            invariant
                n <= self.entries@.len(),
                views == member_views(*self),
                forall|j: int| n <= j < self.entries@.len() ==> self.entries@[j].0@ != key@,
            decreases n,
        {
            n = n - 1;
        }
        if n > 0 {
            proof {
                let last = n - 1;
                assert(views[last].0 == key@);
                assert forall|j: int| last < j < views.len() implies #[trigger] views[j].0
                    != key@ by {
                    assert(self.entries@[j].0@ != key@);
                }
                lemma_last_entry(views, last);
            }
            Some(&self.entries[n - 1].1)
        } else {
            proof {
                lemma_no_entry(views, key@);
            }
            None
        }
    }
}

/// The number that a run of decimal digits denotes.
pub open spec fn digits_value(token: Seq<char>) -> nat
    decreases token.len(),
{
    if token.len() == 0 {
        0
    } else {
        digits_value(token.drop_last()) * 10 + (token.last() as nat - 48) as nat
    }
}

/// The array index that a path's token denotes: a decimal number without leading zeros.
pub open spec fn array_index(token: Seq<char>) -> Option<nat> {
    if token.len() > 0 && (forall|i: int|
        0 <= i < token.len() ==> '0' <= #[trigger] token[i] <= '9') && (token[0] != '0'
        || token.len() == 1) {
        Some(digits_value(token))
    } else {
        None
    }
}

impl JsonView {
    /// The member `key` of an object.
    pub open spec fn member(self, key: Seq<char>) -> Option<JsonView> {
        match self {
            JsonView::Object(members) => if members.contains_key(key) {
                Some(members[key])
            } else {
                None
            },
            _ => None,
        }
    }

    /// The value that a path's token leads to: a member of an object, or an item of an array.
    pub open spec fn step(self, token: Seq<char>) -> Option<JsonView> {
        match self {
            JsonView::Array(items) => match array_index(token) {
                Some(i) => if i < items.len() {
                    Some(items[i as int])
                } else {
                    None
                },
                None => None,
            },
            _ => self.member(token),
        }
    }

    /// The value that a path leads to: a JSON pointer, given by its tokens.
    pub open spec fn at(self, path: Seq<Seq<char>>) -> Option<JsonView>
        decreases path.len(),
    {
        if path.len() == 0 {
            Some(self)
        } else {
            match self.step(path[0]) {
                Some(next) => next.at(path.skip(1)),
                None => None,
            }
        }
    }

    /// The text that this value is.
    pub open spec fn text(self) -> Option<Seq<char>> {
        match self {
            JsonView::Text(s) => Some(s),
            _ => None,
        }
    }

    /// The unsigned integer that this value is.
    pub open spec fn unsigned(self) -> Option<u64> {
        match self {
            JsonView::Unsigned(n) => Some(n),
            _ => None,
        }
    }

    /// The text that the member `key` is.
    pub open spec fn member_text(self, key: Seq<char>) -> Option<Seq<char>> {
        match self.member(key) {
            Some(value) => value.text(),
            None => None,
        }
    }

    /// The text that a path leads to.
    pub open spec fn text_at(self, path: Seq<Seq<char>>) -> Option<Seq<char>> {
        match self.at(path) {
            Some(value) => value.text(),
            None => None,
        }
    }

    /// The unsigned integer that a path leads to.
    pub open spec fn unsigned_at(self, path: Seq<Seq<char>>) -> Option<u64> {
        match self.at(path) {
            Some(value) => value.unsigned(),
            None => None,
        }
    }
}

/// The array index that a token denotes, where it fits in a `usize`.
fn parse_index(token: &str) -> (r: Option<usize>)
    ensures
        match r {
            Some(i) => array_index(token@) == Some(i as nat),
            None => array_index(token@) matches Some(i) ==> i > usize::MAX,
        },
{
    let chars = chars_of(token);
    if chars.len() == 0 || (chars[0] == '0' && chars.len() != 1) {
        return None;
    }
    let mut value: usize = 0;
    let mut i: usize = 0;
    assert(token@.take(0) =~= Seq::empty());
    while i < chars.len()
        invariant
            chars@ == token@,
            i <= chars@.len(),
            value == digits_value(token@.take(i as int)),
            forall|k: int| 0 <= k < i ==> '0' <= #[trigger] token@[k] <= '9',
        decreases chars@.len() - i,
    {
        let c: char = chars[i];
        if !('0' <= c && c <= '9') {
            assert(!('0' <= token@[i as int] <= '9'));
            return None;
        }
        let d: usize = (c as u32 - 48) as usize;
        assert(token@.take(i + 1).drop_last() =~= token@.take(i as int));
        if value > (usize::MAX - d) / 10 {
            proof {
                lemma_digits_value_grows(token@, i + 1);
            }
            return None;
        }
        value = value * 10 + d;
        i = i + 1;
    }
    assert(token@.take(i as int) =~= token@);
    Some(value)
}

/// More digits denote no smaller number.
proof fn lemma_digits_value_grows(token: Seq<char>, n: int)
    requires
        0 <= n <= token.len(),
    ensures
        digits_value(token.take(n)) <= digits_value(token),
    decreases token.len() - n,
{
    if n < token.len() {
        assert(token.take(n + 1).drop_last() =~= token.take(n));
        lemma_digits_value_grows(token, n + 1);
    } else {
        assert(token.take(n) =~= token);
    }
}

/// The texts of a path's tokens.
pub open spec fn tokens(path: Seq<&str>) -> Seq<Seq<char>> {
    path.map_values(|token: &str| token@)
}

impl Json {
    /// A text value.
    pub fn text(s: &str) -> (r: Self)
        ensures
            r@ == JsonView::Text(s@),
    {
        Json::Text(s.to_string())
    }

    /// The member `key`, where this is an object that has it.
    pub fn get(&self, key: &str) -> (r: Option<&Json>)
        ensures
            match r {
                Some(value) => self@.member(key@) == Some(value@),
                None => self@.member(key@) is None,
            },
    {
        match self {
            Json::Object(members) => members.get(key),
            _ => None,
        }
    }

    /// The value that one token of a path leads to.
    fn step(&self, token: &str) -> (r: Option<&Json>)
        ensures
            match r {
                Some(value) => self@.step(token@) == Some(value@),
                None => self@.step(token@) is None,
            },
    {
        match self {
            Json::Array(items) => {
                let count: usize = items.len();
                proof {
                    lemma_array_view(*items);
                }
                match parse_index(token) {
                    Some(i) => {
                        if i < count {
                            assert(self@.step(token@) == Some(items@[i as int]@));
                            Some(&items[i])
                        } else {
                            None
                        }
                    },
                    None => None,
                }
            },
            _ => self.get(token),
        }
    }

    /// The value that a path leads to: a JSON pointer, given by its tokens.
    pub fn pointer(&self, path: &[&str]) -> (r: Option<&Json>)
        ensures
            match r {
                Some(value) => self@.at(tokens(path@)) == Some(value@),
                None => self@.at(tokens(path@)) is None,
            },
    {
        let ghost all = tokens(path@);
        let mut node: &Json = self;
        assert(all.skip(0) =~= all);
        for i in 0..path.len()
            invariant
                all == tokens(path@),
                self@.at(all) == node@.at(all.skip(i as int)),
        {
            assert(all.skip(i as int).skip(1) =~= all.skip(i + 1));
            assert(all.skip(i as int)[0] == path@[i as int]@);
            match node.step(path[i]) {
                Some(next) => {
                    node = next;
                },
                None => {
                    return None;
                },
            }
        }
        Some(node)
    }

    /// The text that this value is.
    pub fn as_str(&self) -> (r: Option<&str>)
        ensures
            match r {
                Some(s) => self@.text() == Some(s@),
                None => self@.text() is None,
            },
    {
        match self {
            Json::Text(s) => Some(s.as_str()),
            _ => None,
        }
    }

    /// The unsigned integer that this value is.
    pub fn as_u64(&self) -> (r: Option<u64>)
        ensures
            r == self@.unsigned(),
    {
        match self {
            Json::Unsigned(n) => Some(*n),
            Json::OtherNumber(n) => n.as_u64(),
            _ => None,
        }
    }

    /// The text that the member `key` is.
    pub fn get_str(&self, key: &str) -> (r: Option<&str>)
        ensures
            match r {
                Some(s) => self@.member_text(key@) == Some(s@),
                None => self@.member_text(key@) is None,
            },
    {
        match self.get(key) {
            Some(value) => value.as_str(),
            None => None,
        }
    }

    /// The text that a path leads to.
    pub fn str_at(&self, path: &[&str]) -> (r: Option<&str>)
        ensures
            match r {
                Some(s) => self@.text_at(tokens(path@)) == Some(s@),
                None => self@.text_at(tokens(path@)) is None,
            },
    {
        match self.pointer(path) {
            Some(value) => value.as_str(),
            None => None,
        }
    }

    /// The unsigned integer that a path leads to.
    pub fn u64_at(&self, path: &[&str]) -> (r: Option<u64>)
        ensures
            r == self@.unsigned_at(tokens(path@)),
    {
        match self.pointer(path) {
            Some(value) => value.as_u64(),
            None => None,
        }
    }
}

/// `serde_json::Value`, a JSON value as `serde_json` reads and writes it.
#[verifier::external_type_specification]
#[verifier::external_body]
pub struct ExValue(serde_json::Value);

/// The JSON value that a `serde_json::Value` holds.
pub uninterp spec fn value_json(value: serde_json::Value) -> JsonView;

/// Makes the `serde_json::Number` that is the given unsigned integer.
#[verifier::external_body]
fn number_from(n: u64) -> (r: serde_json::Number)
    ensures
        number_u64(r) == Some(n),
{
    serde_json::Number::from(n)
}

/// One level of a `serde_json::Value`.
enum Node {
    Null,
    Bool(bool),
    Number(serde_json::Number),
    Text(String),
    Array(Vec<serde_json::Value>),
    Object(Vec<(String, serde_json::Value)>),
}

/// The JSON value of one level and the `serde_json` values below it.
spec fn node_json(node: Node) -> JsonView {
    match node {
        Node::Null => JsonView::Null,
        Node::Bool(b) => JsonView::Bool(b),
        Node::Number(n) => number_json(n),
        Node::Text(s) => JsonView::Text(s@),
        Node::Array(items) => JsonView::Array(
            items@.map_values(|item: serde_json::Value| value_json(item)),
        ),
        Node::Object(entries) => JsonView::Object(
            entries_map(
                entries@.map_values(
                    |entry: (String, serde_json::Value)| (entry.0@, value_json(entry.1)),
                ),
            ),
        ),
    }
}

/// Takes a `serde_json::Value` apart, one level deep: its variants, and the members of its
/// `serde_json::Map`, which holds each name once.
#[verifier::external_body]
fn open_value(value: serde_json::Value) -> (r: Node)
    ensures
        value_json(value) == node_json(r),
        r matches Node::Object(entries) ==> distinct_names(entries@),
{
    match value {
        serde_json::Value::Null => Node::Null,
        serde_json::Value::Bool(b) => Node::Bool(b),
        serde_json::Value::Number(n) => Node::Number(n),
        serde_json::Value::String(s) => Node::Text(s),
        serde_json::Value::Array(items) => Node::Array(items),
        serde_json::Value::Object(members) => Node::Object(members.into_iter().collect()),
    }
}

/// Makes a `serde_json::Value` of one level: its variants, and a `serde_json::Map` collected
/// from the members, each of which has a name of its own.
#[verifier::external_body]
fn close_value(node: Node) -> (r: serde_json::Value)
    requires
        node matches Node::Object(entries) ==> distinct_names(entries@),
    ensures
        value_json(r) == node_json(node),
{
    match node {
        Node::Null => serde_json::Value::Null,
        Node::Bool(b) => serde_json::Value::Bool(b),
        Node::Number(n) => serde_json::Value::Number(n),
        Node::Text(s) => serde_json::Value::String(s),
        Node::Array(items) => serde_json::Value::Array(items),
        Node::Object(members) => serde_json::Value::Object(members.into_iter().collect()),
    }
}

/// The JSON value that a `serde_json::Value` holds.
fn from_value(value: serde_json::Value) -> (r: Json)
    ensures
        r@ == value_json(value),
    decreases value_json(value),
{
    match open_value(value) {
        Node::Null => Json::Null,
        Node::Bool(b) => Json::Bool(b),
        Node::Number(n) => match n.as_u64() {
            Some(u) => Json::Unsigned(u),
            None => Json::OtherNumber(n),
        },
        Node::Text(s) => Json::Text(s),
        Node::Array(items) => {
            let ghost views = items@.map_values(|item: serde_json::Value| value_json(item));
            let mut r: Vec<Json> = Vec::new();
            for item in it: items
                invariant
                    value_json(value) == JsonView::Array(views),
                    views == it.seq().map_values(|item: serde_json::Value| value_json(item)),
                    r@.len() == it.index(),
                    forall|i: int| 0 <= i < r@.len() ==> #[trigger] r@[i]@ == views[i],
            {
                proof {
                    let i = it.index() as int;
                    assert(views[i] == value_json(item));
                    assert(decreases_to!(value_json(value) => value_json(value)->Array_0));
                    assert(decreases_to!(views => views[i]));
                }
                r.push(from_value(item));
            }
            assert(item_views(r) =~= views) by {
                assert forall|i: int| 0 <= i < r@.len() implies item_views(r)[i] == views[i] by {
                    assert(r@[i]@ == views[i]);
                }
            }
            Json::Array(r)
        },
        Node::Object(entries) => {
            let ghost named = entries@.map_values(
                |entry: (String, serde_json::Value)| (entry.0@, value_json(entry.1)),
            );
            let mut r: Vec<(String, Json)> = Vec::new();
            for entry in it: entries
                invariant
                    value_json(value) == JsonView::Object(entries_map(named)),
                    named == it.seq().map_values(
                        |entry: (String, serde_json::Value)| (entry.0@, value_json(entry.1)),
                    ),
                    forall|i: int, j: int|
                        0 <= i < j < named.len() ==> #[trigger] named[i].0 != #[trigger] named[j].0,
                    r@.len() == it.index(),
                    forall|i: int| 0 <= i < r@.len() ==> #[trigger] r@[i].0@ == named[i].0,
                    forall|i: int| 0 <= i < r@.len() ==> #[trigger] r@[i].1@ == named[i].1,
            {
                proof {
                    let i = it.index() as int;
                    let members = entries_map(named);
                    assert(named[i] == (entry.0@, value_json(entry.1)));
                    lemma_last_entry(named, i);
                    lemma_entries_map_finite(named);
                    assert(decreases_to!(value_json(value) => value_json(value)->Object_0));
                    assert(decreases_to!(members => members[entry.0@]));
                }
                r.push((entry.0, from_value(entry.1)));
            }
            let members = Members { entries: r };
            assert(member_views(members) =~= named) by {
                assert forall|i: int| 0 <= i < members.entries@.len() implies member_views(
                    members,
                )[i] == named[i] by {
                    assert(members.entries@[i].0@ == named[i].0);
                    assert(members.entries@[i].1@ == named[i].1);
                }
            }
            Json::Object(members)
        },
    }
}

/// The `serde_json::Value` that holds a JSON value.
fn to_value(json: Json) -> (r: serde_json::Value)
    ensures
        value_json(r) == json@,
    decreases json@,
{
    match json {
        Json::Null => close_value(Node::Null),
        Json::Bool(b) => close_value(Node::Bool(b)),
        Json::Unsigned(n) => close_value(Node::Number(number_from(n))),
        Json::OtherNumber(n) => close_value(Node::Number(n)),
        Json::Text(s) => close_value(Node::Text(s)),
        Json::Array(items) => {
            let ghost views = item_views(items);
            let mut r: Vec<serde_json::Value> = Vec::new();
            for item in it: items
                invariant
                    json@ == JsonView::Array(views),
                    it.seq() == items@,
                    views == item_views(items),
                    r@.len() == it.index(),
                    forall|i: int| 0 <= i < r@.len() ==> value_json(#[trigger] r@[i]) == views[i],
            {
                proof {
                    let i = it.index() as int;
                    assert(views[i] == item@);
                    assert(decreases_to!(json@ => json@->Array_0));
                    assert(decreases_to!(views => views[i]));
                }
                r.push(to_value(item));
            }
            assert(r@.map_values(|item: serde_json::Value| value_json(item)) =~= views);
            close_value(Node::Array(r))
        },
        Json::Object(members) => {
            let unique = members.unique();
            let ghost named = member_views(unique);
            let entries = unique.entries;
            let mut r: Vec<(String, serde_json::Value)> = Vec::new();
            for entry in it: entries
                invariant
                    json@ == JsonView::Object(entries_map(named)),
                    entries == unique.entries,
                    it.seq() == entries@,
                    named == member_views(unique),
                    distinct_names(entries@),
                    r@.len() == it.index(),
                    forall|i: int| 0 <= i < r@.len() ==> #[trigger] r@[i].0@ == named[i].0,
                    forall|i: int|
                        0 <= i < r@.len() ==> value_json(#[trigger] r@[i].1) == named[i].1,
            {
                proof {
                    let i = it.index() as int;
                    let all = entries_map(named);
                    assert(entry == entries@[i]);
                    assert forall|j: int| i < j < named.len() implies #[trigger] named[j].0
                        != named[i].0 by {
                        assert(entries@[i].0@ != entries@[j].0@);
                    }
                    lemma_last_entry(named, i);
                    lemma_entries_map_finite(named);
                    assert(decreases_to!(json@ => json@->Object_0));
                    assert(decreases_to!(all => all[entry.0@]));
                }
                r.push((entry.0, to_value(entry.1)));
            }
            proof {
                assert(r@.map_values(
                    |entry: (String, serde_json::Value)| (entry.0@, value_json(entry.1)),
                ) =~= named);
                assert forall|i: int, j: int| 0 <= i < j < r@.len() implies (
                #[trigger] r@[i]).0@ != (#[trigger] r@[j]).0@ by {
                    assert(r@[i].0@ == named[i].0 && r@[j].0@ == named[j].0);
                    assert(entries@[i].0@ != entries@[j].0@);
                }
            }
            close_value(Node::Object(r))
        },
    }
}

/// What `serde_json::from_slice` makes of a document: the value that it reads, or the text of
/// the error that it reports.
pub uninterp spec fn parsed_json(document: Seq<u8>) -> Result<JsonView, Seq<char>>;

/// Calls `serde_json::from_slice`, which reads a JSON document. The outcome is determined by the
/// document alone; the grammar is left unsaid.
#[verifier::external_body]
fn read_value(document: &[u8]) -> (r: Result<serde_json::Value, String>)
    ensures
        match r {
            Ok(value) => parsed_json(document@) == Ok::<JsonView, Seq<char>>(value_json(value)),
            Err(message) => parsed_json(document@) == Err::<JsonView, Seq<char>>(message@),
        },
{
    match serde_json::from_slice::<serde_json::Value>(document) {
        Ok(value) => Ok(value),
        Err(error) => Err(error.to_string()),
    }
}

/// The document that `serde_json::to_vec` makes of a JSON value.
pub uninterp spec fn json_document(json: JsonView) -> Seq<u8>;

/// Calls `serde_json::to_vec`, which writes a JSON document. No `serde_json::Value` fails to be
/// written, and the document is determined by the value alone; the layout is left unsaid.
#[verifier::external_body]
fn write_value(value: &serde_json::Value) -> (r: Result<Vec<u8>, String>)
    ensures
        r is Ok,
        r->Ok_0@ == json_document(value_json(*value)),
{
    match serde_json::to_vec(value) {
        Ok(document) => Ok(document),
        Err(error) => Err(error.to_string()),
    }
}

/// The text that a JSON value is displayed as by `serde_json`.
pub uninterp spec fn json_text(json: JsonView) -> Seq<char>;

/// The text of a truth value.
pub open spec fn bool_text(b: bool) -> Seq<char> {
    if b {
        "true"@
    } else {
        "false"@
    }
}

/// Displays a `serde_json::Value`, by `to_string`. The text is determined by the value alone: the
/// word `null`, `true` or `false`, an unsigned integer's decimal digits, and for other values what
/// is left unsaid.
#[verifier::external_body]
fn display_value(value: &serde_json::Value) -> (r: String)
    ensures
        r@ == json_text(value_json(*value)),
        value_json(*value) is Null ==> r@ == "null"@,
        value_json(*value) is Bool ==> r@ == bool_text(value_json(*value)->Bool_0),
        value_json(*value) is Unsigned ==> r@ == decimal_text(
            value_json(*value)->Unsigned_0 as nat,
        ),
{
    value.to_string()
}

/// The text of a JSON value: that of null, a truth value or an unsigned integer, and for any other
/// value what `serde_json` displays it as.
pub open spec fn displayed(json: JsonView) -> Seq<char> {
    match json {
        JsonView::Null => "null"@,
        JsonView::Bool(b) => bool_text(b),
        JsonView::Unsigned(n) => decimal_text(n as nat),
        other => json_text(other),
    }
}

impl Json {
    /// Reads a JSON document; where that fails, the error says why.
    pub fn from_slice(document: &[u8]) -> (r: Result<Json, String>)
        ensures
            match r {
                Ok(json) => parsed_json(document@) == Ok::<JsonView, Seq<char>>(json@),
                Err(message) => parsed_json(document@) == Err::<JsonView, Seq<char>>(message@),
            },
    {
        match read_value(document) {
            Ok(value) => Ok(from_value(value)),
            Err(message) => Err(message),
        }
    }

    /// Writes the value as a JSON document, which does not fail.
    pub fn to_vec(self) -> (r: Result<Vec<u8>, String>)
        ensures
            r matches Ok(document) && document@ == json_document(self@),
    {
        let value = to_value(self);
        write_value(&value)
    }

    /// The value as JSON text.
    pub fn display(self) -> (r: String)
        ensures
            r@ == displayed(self@),
    {
        let value = to_value(self);
        display_value(&value)
    }
}

} // verus!
