//! A JSON value as the renderer reads it, and its mathematical view.
//!
//! Numbers are held by the texts and integer that the renderer needs of them,
//! so that no floating-point value is held here.
use vstd::prelude::*;

use crate::text::{decimal_int, i64_to_decimal, str_eq};

verus! {

/// A JSON number, held by what the renderer reads of it.
#[derive(Debug)]
pub struct JsonNumber {
    /// The number as a JSON text (how the number prints as a JSON value).
    pub text: String,
    /// The number's value as a double, printed as Rust prints an `f64`.
    pub display: String,
    /// Whether that double has no fractional part.
    pub whole: bool,
    /// That double truncated toward zero and saturated to the `i64` range.
    pub truncated: i64,
}

/// The view of a JSON number.
pub struct NumberView {
    pub text: Seq<char>,
    pub display: Seq<char>,
    pub whole: bool,
    pub truncated: int,
}

impl View for JsonNumber {
    type V = NumberView;

    open spec fn view(&self) -> NumberView {
        NumberView {
            text: self.text@,
            display: self.display@,
            whole: self.whole,
            truncated: self.truncated as int,
        }
    }
}

/// Largest magnitude up to which every integer is exactly a double.
pub const EXACT_INTEGER_LIMIT: i64 = 9007199254740992;

/// The number text used for CSS lengths: a whole number as an integer,
/// any other number as the double prints.
pub open spec fn css_number(n: NumberView) -> Seq<char> {
    if n.whole {
        decimal_int(n.truncated)
    } else {
        n.display
    }
}

impl JsonNumber {
    /// The JSON number of an integer that a double holds exactly.
    pub fn integer(i: i64) -> (n: JsonNumber)
        requires
            -EXACT_INTEGER_LIMIT <= i <= EXACT_INTEGER_LIMIT,
        ensures
            n@ == (NumberView {
                text: decimal_int(i as int),
                display: decimal_int(i as int),
                whole: true,
                truncated: i as int,
            }),
    {
        JsonNumber {
            text: i64_to_decimal(i),
            display: i64_to_decimal(i),
            whole: true,
            truncated: i,
        }
    }

    /// A copy of this number.
    pub fn duplicate(&self) -> (n: JsonNumber)
        ensures
            n@ == self@,
    {
        JsonNumber {
            text: self.text.clone(),
            display: self.display.clone(),
            whole: self.whole,
            truncated: self.truncated,
        }
    }

    /// The number text used for CSS lengths.
    pub fn css_text(&self) -> (s: String)
        ensures
            s@ == css_number(self@),
    {
        if self.whole {
            i64_to_decimal(self.truncated)
        } else {
            self.display.clone()
        }
    }
}

/// A JSON value. An object holds its members in order.
#[derive(Debug)]
pub enum Json {
    Null,
    Bool(bool),
    Number(JsonNumber),
    Str(String),
    Array(Vec<Json>),
    Object(Vec<(String, Json)>),
}

/// The view of a JSON value.
pub enum JsonView {
    Null,
    Bool(bool),
    Number(NumberView),
    Str(Seq<char>),
    Array(Seq<JsonView>),
    Object(Seq<(Seq<char>, JsonView)>),
}

pub open spec fn json_view(j: Json) -> JsonView
    decreases j,
{
    match j {
        Json::Null => JsonView::Null,
        Json::Bool(b) => JsonView::Bool(b),
        Json::Number(n) => JsonView::Number(n@),
        Json::Str(s) => JsonView::Str(s@),
        Json::Array(items) => JsonView::Array(items_view(items@)),
        Json::Object(entries) => JsonView::Object(entries_view(entries@)),
    }
}

pub open spec fn items_view(s: Seq<Json>) -> Seq<JsonView>
    decreases s,
{
    if s.len() == 0 {
        Seq::empty()
    } else {
        items_view(s.subrange(0, s.len() - 1)).push(json_view(s[s.len() - 1]))
    }
}

pub open spec fn entries_view(s: Seq<(String, Json)>) -> Seq<(Seq<char>, JsonView)>
    decreases s,
{
    if s.len() == 0 {
        Seq::empty()
    } else {
        entries_view(s.subrange(0, s.len() - 1)).push(
            (s[s.len() - 1].0@, json_view(s[s.len() - 1].1)),
        )
    }
}

impl View for Json {
    type V = JsonView;

    open spec fn view(&self) -> JsonView {
        json_view(*self)
    }
}

pub proof fn lemma_items_view(s: Seq<Json>)
    ensures
        items_view(s).len() == s.len(),
        forall|i: int| 0 <= i < s.len() ==> #[trigger] items_view(s)[i] == json_view(s[i]),
    decreases s.len(),
{
    if s.len() > 0 {
        let p = s.subrange(0, s.len() - 1);
        lemma_items_view(p);
        assert forall|i: int| 0 <= i < s.len() implies #[trigger] items_view(s)[i] == json_view(
            s[i],
        ) by {
            if i < s.len() - 1 {
                assert(p[i] == s[i]);
            }
        }
    }
}

pub proof fn lemma_entries_view(s: Seq<(String, Json)>)
    ensures
        entries_view(s).len() == s.len(),
        forall|i: int|
            0 <= i < s.len() ==> #[trigger] entries_view(s)[i] == (s[i].0@, json_view(s[i].1)),
    decreases s.len(),
{
    if s.len() > 0 {
        let p = s.subrange(0, s.len() - 1);
        lemma_entries_view(p);
        assert forall|i: int| 0 <= i < s.len() implies #[trigger] entries_view(s)[i] == (
            s[i].0@,
            json_view(s[i].1),
        ) by {
            if i < s.len() - 1 {
                assert(p[i] == s[i]);
            }
        }
    }
}

/// The value of the first member named `key`; in an object whose keys are
/// distinct, the one member of that name.
pub open spec fn member(entries: Seq<(Seq<char>, JsonView)>, key: Seq<char>) -> Option<JsonView>
    decreases entries.len(),
{
    if entries.len() == 0 {
        None
    } else if entries[0].0 == key {
        Some(entries[0].1)
    } else {
        member(entries.drop_first(), key)
    }
}

impl JsonView {
    /// The member `key` of an object; nothing for any other value.
    pub open spec fn get(self, key: Seq<char>) -> Option<JsonView> {
        match self {
            JsonView::Object(entries) => member(entries, key),
            _ => None,
        }
    }

    /// The text of a string value; nothing for any other value.
    pub open spec fn as_str(self) -> Option<Seq<char>> {
        match self {
            JsonView::Str(s) => Some(s),
            _ => None,
        }
    }

    /// The truth value of a boolean; nothing for any other value.
    pub open spec fn as_bool(self) -> Option<bool> {
        match self {
            JsonView::Bool(b) => Some(b),
            _ => None,
        }
    }

    /// The number of a number value; nothing for any other value.
    pub open spec fn as_number(self) -> Option<NumberView> {
        match self {
            JsonView::Number(n) => Some(n),
            _ => None,
        }
    }

    /// The items of an array; nothing for any other value.
    pub open spec fn as_array(self) -> Option<Seq<JsonView>> {
        match self {
            JsonView::Array(a) => Some(a),
            _ => None,
        }
    }

    /// The members of an object, in order; nothing for any other value.
    pub open spec fn as_object(self) -> Option<Seq<(Seq<char>, JsonView)>> {
        match self {
            JsonView::Object(e) => Some(e),
            _ => None,
        }
    }

    /// The string member `key` of an object.
    pub open spec fn str_field(self, key: Seq<char>) -> Option<Seq<char>> {
        match self.get(key) {
            Some(v) => v.as_str(),
            None => None,
        }
    }

    /// The number member `key` of an object.
    pub open spec fn number_field(self, key: Seq<char>) -> Option<NumberView> {
        match self.get(key) {
            Some(v) => v.as_number(),
            None => None,
        }
    }
}

/// A member found by `member` is the value of one of the members.
pub proof fn lemma_member_in(entries: Seq<(Seq<char>, JsonView)>, key: Seq<char>)
    ensures
        member(entries, key) matches Some(x) ==> exists|i: int|
            0 <= i < entries.len() && #[trigger] entries[i].1 == x,
    decreases entries.len(),
{
    if entries.len() > 0 && entries[0].0 != key {
        lemma_member_in(entries.drop_first(), key);
        if let Some(x) = member(entries, key) {
            let i = choose|i: int| 0 <= i < entries.drop_first().len() && #[trigger] entries.drop_first()[i].1 == x;
            assert(entries[i + 1].1 == x);
        }
    } else if entries.len() > 0 {
        assert(entries[0].1 == member(entries, key).unwrap());
    }
}

/// The member `key` of an object lies below the object.
pub proof fn lemma_get_decreases(v: JsonView, key: Seq<char>)
    ensures
        v.get(key) matches Some(x) ==> decreases_to!(v => x),
{
    if let JsonView::Object(entries) = v {
        lemma_member_in(entries, key);
        if let Some(x) = member(entries, key) {
            let i = choose|i: int| 0 <= i < entries.len() && #[trigger] entries[i].1 == x;
            assert(decreases_to!(v => v->Object_0));
            assert(decreases_to!(v->Object_0 => v->Object_0[i]));
            assert(decreases_to!(v->Object_0[i] => v->Object_0[i].1));
        }
    }
}

proof fn lemma_member_from(entries: Seq<(Seq<char>, JsonView)>, key: Seq<char>, i: int)
    requires
        0 <= i <= entries.len(),
        forall|k: int| 0 <= k < i ==> #[trigger] entries[k].0 != key,
    ensures
        member(entries, key) == member(entries.subrange(i, entries.len() as int), key),
    decreases i,
{
    if i > 0 {
        lemma_member_from(entries, key, i - 1);
        let t = entries.subrange(i - 1, entries.len() as int);
        assert(t[0] == entries[i - 1]);
        assert(t.drop_first() =~= entries.subrange(i, entries.len() as int));
    } else {
        assert(entries.subrange(0, entries.len() as int) =~= entries);
    }
}

/// A member lookup finds the first member of that name: members before it
/// with other names are passed over, and members after it do not matter.
pub proof fn law_member_first(
    before: Seq<(Seq<char>, JsonView)>,
    after: Seq<(Seq<char>, JsonView)>,
    key: Seq<char>,
    v: JsonView,
)
    requires
        forall|k: int| 0 <= k < before.len() ==> #[trigger] before[k].0 != key,
    ensures
        member(before + seq![(key, v)] + after, key) == Some(v),
        member(before, key) is None,
        JsonView::Object(before + seq![(key, v)] + after).get(key) == Some(v),
{
    let all = before + seq![(key, v)] + after;
    assert forall|k: int| 0 <= k < before.len() implies #[trigger] all[k].0 != key by {
        assert(all[k] == before[k]);
    }
    lemma_member_from(all, key, before.len() as int);
    let t = all.subrange(before.len() as int, all.len() as int);
    assert(t[0] == (key, v));
    lemma_member_from(before, key, before.len() as int);
    assert(before.subrange(before.len() as int, before.len() as int) =~= Seq::<(Seq<char>, JsonView)>::empty());
}

impl Json {
    /// The first member named `key` of an object; nothing for any other value.
    pub fn get(&self, key: &str) -> (r: Option<&Json>)
        ensures
            match r {
                Some(v) => self@.get(key@) == Some(v@) && decreases_to!(*self => *v),
                None => self@.get(key@) is None,
            },
    {
        match self {
            Json::Object(entries) => {
                let ghost ev = entries_view(entries@);
                proof {
                    lemma_entries_view(entries@);
                    assert(self@ == JsonView::Object(ev));
                    assert(decreases_to!(*self => self->Object_0));
                    assert(decreases_to!(self->Object_0 => self->Object_0@));
                    assert forall|k: int| 0 <= k < entries.len() implies decreases_to!(*self => #[trigger] entries@[k].1) by {
                        assert(decreases_to!(self->Object_0@ => self->Object_0@[k]));
                        assert(decreases_to!(self->Object_0@[k] => self->Object_0@[k].1));
                    }
                }
                let mut i: usize = 0;
                while i < entries.len()
                    invariant
                        self@ == JsonView::Object(ev),
                        ev == entries_view(entries@),
                        ev.len() == entries.len(),
                        forall|k: int|
                            0 <= k < entries.len() ==> #[trigger] ev[k] == (
                                entries@[k].0@,
                                json_view(entries@[k].1),
                            ),
                        i <= entries.len(),
                        forall|k: int| 0 <= k < entries.len() ==> decreases_to!(*self => #[trigger] entries@[k].1),
                        forall|k: int| 0 <= k < i ==> #[trigger] ev[k].0 != key@,
                    decreases entries.len() - i,
                {
                    if str_eq(entries[i].0.as_str(), key) {
                        proof {
                            lemma_member_from(ev, key@, i as int);
                            let t = ev.subrange(i as int, ev.len() as int);
                            assert(t[0] == ev[i as int]);
                        }
                        return Some(&entries[i].1);
                    }
                    i = i + 1;
                }
                proof {
                    lemma_member_from(ev, key@, i as int);
                }
                None
            },
            _ => None,
        }
    }

    /// The text of a string value.
    pub fn as_str(&self) -> (r: Option<&str>)
        ensures
            match r {
                Some(s) => self@.as_str() == Some(s@),
                None => self@.as_str() is None,
            },
    {
        match self {
            Json::Str(s) => Some(s.as_str()),
            _ => None,
        }
    }

    /// The truth value of a boolean.
    pub fn as_bool(&self) -> (r: Option<bool>)
        ensures
            r == self@.as_bool(),
    {
        match self {
            Json::Bool(b) => Some(*b),
            _ => None,
        }
    }

    /// The number of a number value.
    pub fn as_number(&self) -> (r: Option<&JsonNumber>)
        ensures
            match r {
                Some(n) => self@.as_number() == Some(n@),
                None => self@.as_number() is None,
            },
    {
        match self {
            Json::Number(n) => Some(n),
            _ => None,
        }
    }

    /// The items of an array.
    pub fn as_array(&self) -> (r: Option<&Vec<Json>>)
        ensures
            match r {
                Some(a) => self@.as_array() == Some(items_view(a@)),
                None => self@.as_array() is None,
            },
    {
        match self {
            Json::Array(a) => Some(a),
            _ => None,
        }
    }

    /// The members of an object.
    pub fn as_object(&self) -> (r: Option<&Vec<(String, Json)>>)
        ensures
            match r {
                Some(e) => self@.as_object() == Some(entries_view(e@)),
                None => self@.as_object() is None,
            },
    {
        match self {
            Json::Object(e) => Some(e),
            _ => None,
        }
    }

    /// Whether the value is null.
    pub fn is_null(&self) -> (r: bool)
        ensures
            r == (self@ is Null),
    {
        match self {
            Json::Null => true,
            _ => false,
        }
    }

    /// The string member `key` of an object.
    pub fn str_field(&self, key: &str) -> (r: Option<&str>)
        ensures
            match r {
                Some(s) => self@.str_field(key@) == Some(s@),
                None => self@.str_field(key@) is None,
            },
    {
        match self.get(key) {
            Some(v) => v.as_str(),
            None => None,
        }
    }

    /// The number member `key` of an object.
    pub fn number_field(&self, key: &str) -> (r: Option<&JsonNumber>)
        ensures
            match r {
                Some(n) => self@.number_field(key@) == Some(n@),
                None => self@.number_field(key@) is None,
            },
    {
        match self.get(key) {
            Some(v) => v.as_number(),
            None => None,
        }
    }

    /// A copy of this value.
    pub fn duplicate(&self) -> (r: Json)
        ensures
            r@ == self@,
        decreases self,
    {
        match self {
            Json::Null => Json::Null,
            Json::Bool(b) => Json::Bool(*b),
            Json::Number(n) => Json::Number(n.duplicate()),
            Json::Str(s) => Json::Str(s.clone()),
            Json::Array(items) => {
                proof {
                    assert(decreases_to!(*self => self->Array_0));
                    assert(decreases_to!(self->Array_0 => self->Array_0@));
                    assert forall|k: int| 0 <= k < items.len() implies decreases_to!(*self => #[trigger] items@[k]) by {
                        assert(decreases_to!(self->Array_0@ => self->Array_0@[k]));
                    }
                }
                let mut out: Vec<Json> = Vec::new();
                let mut i: usize = 0;
                while i < items.len()
                    invariant
                        i <= items.len(),
                        out.len() == i,
                        forall|k: int| 0 <= k < items.len() ==> decreases_to!(*self => #[trigger] items@[k]),
                        forall|k: int| 0 <= k < i ==> #[trigger] json_view(out@[k]) == json_view(
                            items@[k],
                        ),
                    decreases items.len() - i,
                {
                    let c = items[i].duplicate();
                    out.push(c);
                    i = i + 1;
                }
                proof {
                    lemma_items_view(out@);
                    lemma_items_view(items@);
                    assert(items_view(out@) =~= items_view(items@));
                }
                Json::Array(out)
            },
            Json::Object(entries) => {
                proof {
                    assert(decreases_to!(*self => self->Object_0));
                    assert(decreases_to!(self->Object_0 => self->Object_0@));
                    assert forall|k: int| 0 <= k < entries.len() implies decreases_to!(*self => #[trigger] entries@[k].1) by {
                        assert(decreases_to!(self->Object_0@ => self->Object_0@[k]));
                        assert(decreases_to!(self->Object_0@[k] => self->Object_0@[k].1));
                    }
                }
                let mut out: Vec<(String, Json)> = Vec::new();
                let mut i: usize = 0;
                while i < entries.len()
                    invariant
                        i <= entries.len(),
                        out.len() == i,
                        forall|k: int| 0 <= k < entries.len() ==> decreases_to!(*self => #[trigger] entries@[k].1),
                        forall|k: int|
                            0 <= k < i ==> #[trigger] out@[k].0@ == entries@[k].0@ && json_view(
                                out@[k].1,
                            ) == json_view(entries@[k].1),
                    decreases entries.len() - i,
                {
                    let c = entries[i].1.duplicate();
                    out.push((entries[i].0.clone(), c));
                    i = i + 1;
                }
                proof {
                    lemma_entries_view(out@);
                    lemma_entries_view(entries@);
                    assert(entries_view(out@) =~= entries_view(entries@));
                }
                Json::Object(out)
            },
        }
    }
}

} // verus!
