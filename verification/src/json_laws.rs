//! What JSON values are, and what is found in them.
use crate::config::text_members;
use crate::json::{
    array_index, digits_value, displayed, entries_map, json_text, lemma_array_view,
    lemma_last_entry, lemma_no_entry, member_views, number_u64, tokens, Json, JsonView, Members,
};
use crate::text::{decimal_text, digit};
use crate::text_laws::law_decimal_text_denotes_its_number;
use vstd::prelude::*;

verus! {

/// A value is what it is made of: nothing of it is left out or changed.
pub proof fn law_values_are_what_they_hold(
    b: bool,
    n: u64,
    number: serde_json::Number,
    text: String,
    items: Vec<Json>,
    members: Members,
)
    ensures
        Json::Null@ == JsonView::Null,
        Json::Bool(b)@ == JsonView::Bool(b),
        Json::Unsigned(n)@ == JsonView::Unsigned(n),
        number_u64(number) is None ==> Json::OtherNumber(number)@ == JsonView::OtherNumber(number),
        number_u64(number) matches Some(u) ==> Json::OtherNumber(number)@ == JsonView::Unsigned(u),
        Json::Text(text)@ == JsonView::Text(text@),
        Json::Array(items)@ == JsonView::Array(items@.map_values(|item: Json| item@)),
        Json::Object(members)@ == JsonView::Object(members@),
{
    lemma_array_view(items);
}

/// The members of an object are those that have an entry, and of several with one name the last one
/// counts.
pub proof fn law_last_entry_of_a_name_counts(members: Members, key: Seq<char>)
    ensures
        members@.contains_key(key) <==> exists|i: int|
            0 <= i < members.entries@.len() && (#[trigger] members.entries@[i]).0@ == key,
        forall|i: int|
            0 <= i < members.entries@.len() && (#[trigger] members.entries@[i]).0@ == key && (
            forall|j: int|
                i < j < members.entries@.len() ==> (#[trigger] members.entries@[j]).0@ != key)
                ==> members@[key] == members.entries@[i].1@,
{
    let views = member_views(members);
    let entries = members.entries@;
    assert forall|i: int|
        0 <= i < entries.len() && (#[trigger] entries[i]).0@ == key && (forall|j: int|
            i < j < entries.len() ==> (#[trigger] entries[j]).0@ != key) implies members@[key]
        == entries[i].1@ && members@.contains_key(key) by {
        assert(views[i].0 == key);
        assert forall|j: int| i < j < views.len() implies #[trigger] views[j].0 != views[i].0 by {
            assert(entries[j].0@ != key);
        }
        lemma_last_entry(views, i);
    }
    if exists|i: int| 0 <= i < entries.len() && (#[trigger] entries[i]).0@ == key {
        let i = choose|i: int| 0 <= i < entries.len() && (#[trigger] entries[i]).0@ == key;
        assert(views[i].0 == key);
        lemma_entry_is_listed(views, i);
    } else {
        assert forall|j: int| 0 <= j < views.len() implies views[j].0 != key by {
            assert(entries[j].0@ != key);
        }
        lemma_no_entry(views, key);
    }
}

/// The name of every entry is in the map.
proof fn lemma_entry_is_listed<V>(entries: Seq<(Seq<char>, V)>, i: int)
    requires
        0 <= i < entries.len(),
    ensures
        entries_map(entries).contains_key(entries[i].0),
    decreases entries.len(),
{
    if i < entries.len() - 1 {
        lemma_entry_is_listed(entries.drop_last(), i);
    }
}

/// A text of digits without leading zeros is that of the number that it denotes.
proof fn lemma_digits_are_decimal_text(token: Seq<char>)
    requires
        token.len() > 0,
        forall|i: int| 0 <= i < token.len() ==> '0' <= #[trigger] token[i] <= '9',
        token[0] != '0' || token.len() == 1,
    ensures
        decimal_text(digits_value(token)) == token,
    decreases token.len(),
{
    reveal_with_fuel(digits_value, 2);
    let d = (token.last() as nat - 48) as nat;
    assert('0' <= token[token.len() - 1] <= '9');
    assert(d < 10);
    assert(digit(d) == token.last());
    let front = token.drop_last();
    if token.len() == 1 {
        assert(front =~= Seq::empty());
        assert(digits_value(token) == d);
        assert(decimal_text(d) =~= token);
    } else {
        assert forall|i: int| 0 <= i < front.len() implies '0' <= #[trigger] front[i] <= '9' by {
            assert(token[i] == front[i]);
        }
        lemma_digits_are_decimal_text(front);
        let v = digits_value(front);
        if v == 0 {
            assert(decimal_text(0)[0] == '0');
            assert(false);
        }
        assert(digits_value(token) == 10 * v + d);
        assert((10 * v + d) / 10 == v);
        assert((10 * v + d) % 10 == d);
        assert(decimal_text(10 * v + d) =~= front.push(digit(d)));
        assert(front.push(token.last()) =~= token);
    }
}

/// A token denotes an array index exactly where it is that number's text.
pub proof fn law_index_tokens_are_numbers(token: Seq<char>, n: nat)
    ensures
        array_index(token) == Some(n) <==> token == decimal_text(n),
{
    law_decimal_text_denotes_its_number(n);
    if array_index(token) == Some(n) {
        lemma_digits_are_decimal_text(token);
    }
}

/// A path leads through its tokens one after the other, however many there are.
pub proof fn law_paths_are_walked_token_by_token(
    value: JsonView,
    first: Seq<Seq<char>>,
    second: Seq<Seq<char>>,
)
    ensures
        value.at(Seq::empty()) == Some(value),
        value.at(first + second) == match value.at(first) {
            Some(inner) => inner.at(second),
            None => None,
        },
    decreases first.len(),
{
    if first.len() == 0 {
        assert(first + second =~= second);
    } else {
        assert((first + second).skip(1) =~= first.skip(1) + second);
        assert((first + second)[0] == first[0]);
        match value.step(first[0]) {
            Some(next) => {
                law_paths_are_walked_token_by_token(next, first.skip(1), second);
            },
            None => {},
        }
    }
}

/// One token leads to the member of that name of an object, to the item at that index of an array,
/// and nowhere else.
pub proof fn law_tokens_lead_to_members_and_items(value: JsonView, token: Seq<char>)
    ensures
        value.at(seq![token]) == match value {
            JsonView::Object(members) => if members.contains_key(token) {
                Some(members[token])
            } else {
                None
            },
            JsonView::Array(items) => if exists|n: nat|
                n < items.len() && token == #[trigger] decimal_text(n) {
                let n = choose|n: nat| n < items.len() && token == #[trigger] decimal_text(n);
                Some(items[n as int])
            } else {
                None
            },
            _ => None,
        },
        value.member(token) == match value {
            JsonView::Object(members) => if members.contains_key(token) {
                Some(members[token])
            } else {
                None
            },
            _ => None,
        },
{
    reveal_with_fuel(JsonView::at, 2);
    assert(seq![token].skip(1) =~= Seq::empty());
    match value {
        JsonView::Array(items) => {
            if exists|n: nat| n < items.len() && token == #[trigger] decimal_text(n) {
                let n = choose|n: nat| n < items.len() && token == #[trigger] decimal_text(n);
                law_index_tokens_are_numbers(token, n);
            }
            match array_index(token) {
                Some(n) => {
                    law_index_tokens_are_numbers(token, n);
                },
                None => {},
            }
        },
        _ => {},
    }
}

/// A value is read as a text or as an unsigned integer exactly where it is one, and as a whole.
pub proof fn law_values_are_read_as_what_they_are(
    value: JsonView,
    key: Seq<char>,
    path: Seq<Seq<char>>,
)
    ensures
        value.text() == match value {
            JsonView::Text(text) => Some(text),
            _ => None,
        },
        value.unsigned() == match value {
            JsonView::Unsigned(n) => Some(n),
            _ => None,
        },
        value.member_text(key) == match value.member(key) {
            Some(JsonView::Text(text)) => Some(text),
            _ => None,
        },
        value.text_at(path) == match value.at(path) {
            Some(JsonView::Text(text)) => Some(text),
            _ => None,
        },
        value.unsigned_at(path) == match value.at(path) {
            Some(JsonView::Unsigned(n)) => Some(n),
            _ => None,
        },
{
}

/// What values are displayed as.
pub proof fn law_displayed_values(value: JsonView)
    ensures
        displayed(value) == match value {
            JsonView::Null => "null"@,
            JsonView::Bool(true) => "true"@,
            JsonView::Bool(false) => "false"@,
            JsonView::Unsigned(n) => decimal_text(n as nat),
            other => json_text(other),
        },
{
}

/// A table of texts becomes an object with the same names, each with its text.
pub proof fn law_tables_become_objects_of_texts(table: Map<Seq<char>, Seq<char>>, key: Seq<char>)
    ensures
        text_members(table).contains_key(key) <==> table.contains_key(key),
        table.contains_key(key) ==> text_members(table)[key] == JsonView::Text(table[key]),
{
}

/// The tokens of a path are its texts, each as it is.
pub proof fn law_tokens_are_their_texts(path: Seq<&str>, i: int)
    requires
        0 <= i < path.len(),
    ensures
        tokens(path).len() == path.len(),
        tokens(path)[i] == path[i]@,
{
}

} // verus!
