//! JSON values as the protocol reads and writes them.

use crate::rank;
use crate::text;
use vstd::prelude::*;

verus! {

/// A JSON value. Numbers are kept where they are integers; of any other number only the fact
/// that it is one is kept.
#[derive(Debug)]
pub enum Json {
    Null,
    Bool(bool),
    Number(u64),
    Negative(i64),
    Real,
    Text(String),
    Array(Vec<Json>),
    Object(Vec<(String, Json)>),
}

/// What a JSON value stands for. The members of an object are in the order of writing.
pub enum JsonView {
    Null,
    Bool(bool),
    Number(u64),
    Negative(i64),
    Real,
    Text(Seq<char>),
    Array(Seq<JsonView>),
    Object(Seq<(Seq<char>, JsonView)>),
}

impl Json {
    /// What the value stands for.
    pub open spec fn model(self) -> JsonView
        decreases self,
    {
        match self {
            Json::Null => JsonView::Null,
            Json::Bool(b) => JsonView::Bool(b),
            Json::Number(n) => JsonView::Number(n),
            Json::Negative(n) => JsonView::Negative(n),
            Json::Real => JsonView::Real,
            Json::Text(s) => JsonView::Text(s@),
            Json::Array(items) => JsonView::Array(
                Seq::new(
                    items@.len(),
                    |i: int|
                        if 0 <= i < items@.len() {
                            items@[i].model()
                        } else {
                            JsonView::Null
                        },
                ),
            ),
            Json::Object(members) => JsonView::Object(
                Seq::new(
                    members@.len(),
                    |i: int|
                        if 0 <= i < members@.len() {
                            (members@[i].0@, members@[i].1.model())
                        } else {
                            (Seq::empty(), JsonView::Null)
                        },
                ),
            ),
        }
    }
}

impl View for Json {
    type V = JsonView;

    open spec fn view(&self) -> JsonView {
        self.model()
    }
}

/// The first value under `key` among `members`.
pub open spec fn member(members: Seq<(Seq<char>, JsonView)>, key: Seq<char>) -> Option<JsonView>
    decreases members.len(),
{
    if members.len() == 0 {
        None
    } else if members[0].0 == key {
        Some(members[0].1)
    } else {
        member(members.skip(1), key)
    }
}

impl JsonView {
    /// The object without members.
    pub open spec fn object() -> JsonView {
        JsonView::Object(Seq::empty())
    }

    /// The object with one more member at its end.
    pub open spec fn with(self, key: Seq<char>, value: JsonView) -> JsonView {
        match self {
            JsonView::Object(members) => JsonView::Object(members.push((key, value))),
            _ => self,
        }
    }

    /// The value under `key`, if this is an object that has one.
    pub open spec fn get(self, key: Seq<char>) -> Option<JsonView> {
        match self {
            JsonView::Object(members) => member(members, key),
            _ => None,
        }
    }

    /// The text, if this is one.
    pub open spec fn as_text(self) -> Option<Seq<char>> {
        match self {
            JsonView::Text(s) => Some(s),
            _ => None,
        }
    }

    /// The truth value, if this is one.
    pub open spec fn as_bool(self) -> Option<bool> {
        match self {
            JsonView::Bool(b) => Some(b),
            _ => None,
        }
    }

    /// The number, if this is an integer from zero up.
    pub open spec fn as_number(self) -> Option<u64> {
        match self {
            JsonView::Number(n) => Some(n),
            _ => None,
        }
    }

    /// The items, if this is an array.
    pub open spec fn as_items(self) -> Option<Seq<JsonView>> {
        match self {
            JsonView::Array(items) => Some(items),
            _ => None,
        }
    }

    /// The items, or none.
    pub open spec fn items_or_none(self) -> Seq<JsonView> {
        match self.as_items() {
            Some(items) => items,
            None => Seq::empty(),
        }
    }

    /// The text under `key`.
    pub open spec fn text_at(self, key: Seq<char>) -> Option<Seq<char>> {
        match self.get(key) {
            Some(v) => v.as_text(),
            None => None,
        }
    }

    /// The number under `key`.
    pub open spec fn number_at(self, key: Seq<char>) -> Option<u64> {
        match self.get(key) {
            Some(v) => v.as_number(),
            None => None,
        }
    }

    /// Whether `true` stands under `key`.
    pub open spec fn flag_at(self, key: Seq<char>) -> bool {
        match self.get(key) {
            Some(v) => v.as_bool() == Some(true),
            None => false,
        }
    }
}

/// The signed number `n`.
pub open spec fn signed(n: i64) -> JsonView {
    if n >= 0 {
        JsonView::Number(n as u64)
    } else {
        JsonView::Negative(n)
    }
}

/// The text `s`, or null.
pub open spec fn text_or_null(s: Option<Seq<char>>) -> JsonView {
    match s {
        Some(s) => JsonView::Text(s),
        None => JsonView::Null,
    }
}

impl Json {
    /// The object without members.
    pub fn object() -> (r: Json)
        ensures
            r@ == JsonView::object(),
    {
        let r = Json::Object(Vec::new());
        assert(r@->Object_0 =~= Seq::empty());
        r
    }

    /// The object with one more member at its end.
    pub fn with(self, key: &str, value: Json) -> (r: Json)
        ensures
            r@ == self@.with(key@, value@),
    {
        match self {
            Json::Object(members) => {
                let mut all = members;
                all.push((key.to_string(), value));
                let r = Json::Object(all);
                assert(r@->Object_0 =~= self@->Object_0.push((key@, value@)));
                r
            },
            other => other,
        }
    }

    /// A text.
    pub fn text(s: &str) -> (r: Json)
        ensures
            r@ == JsonView::Text(s@),
    {
        Json::Text(s.to_string())
    }

    /// A text, or null.
    pub fn text_or_null(s: Option<&str>) -> (r: Json)
        ensures
            r@ == text_or_null(
                match s {
                    Some(s) => Some(s@),
                    None => None,
                },
            ),
    {
        match s {
            Some(s) => Json::text(s),
            None => Json::Null,
        }
    }

    /// A signed number.
    pub fn signed(n: i64) -> (r: Json)
        ensures
            r@ == signed(n),
    {
        if n >= 0 {
            Json::Number(n as u64)
        } else {
            Json::Negative(n)
        }
    }

    /// An array.
    pub fn array(items: Vec<Json>) -> (r: Json)
        ensures
            r@ == JsonView::Array(rank::views(items@)),
    {
        let r = Json::Array(items);
        assert(r@->Array_0 =~= rank::views(items@));
        r
    }

    /// The value under `key`, if this is an object that has one.
    pub fn get(&self, key: &str) -> (r: Option<&Json>)
        ensures
            match r {
                Some(v) => self@.get(key@) == Some(v@),
                None => self@.get(key@) is None,
            },
    {
        match self {
            Json::Object(members) => {
                let ghost all = self@->Object_0;
                let mut i: usize = 0;
                assert(all.skip(0) =~= all);
                while i < members.len()
                    invariant
                        i <= members@.len(),
                        all.len() == members@.len(),
                        forall|j: int|
                            0 <= j < all.len() ==> #[trigger] all[j] == (
                                members@[j].0@,
                                members@[j].1@,
                            ),
                        member(all, key@) == member(all.skip(i as int), key@),
                        self@ == JsonView::Object(all),
                    decreases members@.len() - i,
                {
                    if text::same_text(members[i].0.as_str(), key) {
                        return Some(&members[i].1);
                    }
                    assert(all.skip(i as int).skip(1) =~= all.skip(i + 1));
                    i += 1;
                }
                None
            },
            _ => None,
        }
    }

    /// The value under `key`, taken out of the object.
    pub fn take(self, key: &str) -> (r: Option<Json>)
        ensures
            match r {
                Some(v) => self@.get(key@) == Some(v@),
                None => self@.get(key@) is None,
            },
    {
        let ghost whole = self@;
        match self {
            Json::Object(members) => {
                let mut rest = members;
                let ghost all = whole->Object_0;
                let mut i: usize = 0;
                assert(all.skip(0) =~= all);
                while i < rest.len()
                    invariant
                        i <= rest@.len(),
                        all.len() == rest@.len(),
                        forall|j: int|
                            0 <= j < all.len() ==> #[trigger] all[j] == (rest@[j].0@, rest@[j].1@),
                        member(all, key@) == member(all.skip(i as int), key@),
                        whole == JsonView::Object(all),
                        whole == self@,
                    decreases rest@.len() - i,
                {
                    if text::same_text(rest[i].0.as_str(), key) {
                        let (_, value) = rest.swap_remove(i);
                        return Some(value);
                    }
                    assert(all.skip(i as int).skip(1) =~= all.skip(i + 1));
                    i += 1;
                }
                None
            },
            _ => None,
        }
    }

    /// The text, if this is one.
    pub fn as_str(&self) -> (r: Option<&str>)
        ensures
            match r {
                Some(s) => self@.as_text() == Some(s@),
                None => self@.as_text() is None,
            },
    {
        match self {
            Json::Text(s) => Some(s.as_str()),
            _ => None,
        }
    }

    /// The truth value, if this is one.
    pub fn as_bool(&self) -> (r: Option<bool>)
        ensures
            r == self@.as_bool(),
    {
        match self {
            Json::Bool(b) => Some(*b),
            _ => None,
        }
    }

    /// The number, if this is an integer from zero up.
    pub fn as_u64(&self) -> (r: Option<u64>)
        ensures
            r == self@.as_number(),
    {
        match self {
            Json::Number(n) => Some(*n),
            _ => None,
        }
    }

    /// The items, if this is an array.
    pub fn as_array(&self) -> (r: Option<&Vec<Json>>)
        ensures
            match r {
                Some(items) => self@.as_items() == Some(rank::views(items@)),
                None => self@.as_items() is None,
            },
    {
        match self {
            Json::Array(items) => {
                assert(self@->Array_0 =~= rank::views(items@));
                Some(items)
            },
            _ => None,
        }
    }

    /// The text under `key`.
    pub fn text_at(&self, key: &str) -> (r: Option<&str>)
        ensures
            match r {
                Some(s) => self@.text_at(key@) == Some(s@),
                None => self@.text_at(key@) is None,
            },
    {
        match self.get(key) {
            Some(v) => v.as_str(),
            None => None,
        }
    }

    /// The number under `key`.
    pub fn number_at(&self, key: &str) -> (r: Option<u64>)
        ensures
            r == self@.number_at(key@),
    {
        match self.get(key) {
            Some(v) => v.as_u64(),
            None => None,
        }
    }

    /// Whether `true` stands under `key`.
    pub fn flag_at(&self, key: &str) -> (r: bool)
        ensures
            r == self@.flag_at(key@),
    {
        match self.get(key) {
            Some(v) => match v.as_bool() {
                Some(b) => b,
                None => false,
            },
            None => false,
        }
    }
}

} // verus!
