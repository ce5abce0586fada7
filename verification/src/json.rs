//! JSON values: a model of what a document holds, lookups, and builders.
use crate::lists::{first_where, first_where_is_first};
use crate::text::{same, views};
use vstd::prelude::*;

verus! {

/// A JSON number. A number with a fraction or an exponent is kept as its text.
#[derive(Debug)]
pub enum Number {
    Unsigned(u64),
    Negative(i64),
    Float(String),
}

/// A JSON value. The members of an object are kept in a list; a lookup takes
/// the first member of a name.
#[derive(Debug)]
pub enum Json {
    Null,
    Bool(bool),
    Number(Number),
    Text(String),
    Array(Vec<Json>),
    Object(Vec<(String, Json)>),
}

/// The contents of a [`Number`].
pub enum NumberView {
    Unsigned(u64),
    Negative(i64),
    Float(Seq<char>),
}

/// The contents of a [`Json`] value.
pub enum JsonView {
    Null,
    Bool(bool),
    Number(NumberView),
    Text(Seq<char>),
    Array(Seq<JsonView>),
    Object(Seq<(Seq<char>, JsonView)>),
}

impl View for Number {
    type V = NumberView;

    open spec fn view(&self) -> NumberView {
        match self {
            Number::Unsigned(n) => NumberView::Unsigned(*n),
            Number::Negative(n) => NumberView::Negative(*n),
            Number::Float(t) => NumberView::Float(t@),
        }
    }
}

/// The contents of a value.
pub open spec fn json_view(value: Json) -> JsonView
    decreases value,
{
    match value {
        Json::Null => JsonView::Null,
        Json::Bool(b) => JsonView::Bool(b),
        Json::Number(n) => JsonView::Number(n@),
        Json::Text(t) => JsonView::Text(t@),
        Json::Array(items) => JsonView::Array(
            Seq::new(
                items@.len(),
                |i: int|
                    if 0 <= i < items@.len() {
                        json_view(items@[i])
                    } else {
                        JsonView::Null
                    },
            ),
        ),
        Json::Object(members) => JsonView::Object(
            Seq::new(
                members@.len(),
                |i: int|
                    if 0 <= i < members@.len() {
                        (members@[i].0@, json_view(members@[i].1))
                    } else {
                        (Seq::empty(), JsonView::Null)
                    },
            ),
        ),
    }
}

impl View for Json {
    type V = JsonView;

    open spec fn view(&self) -> JsonView {
        json_view(*self)
    }
}

/// The contents of a list of values.
pub open spec fn items_view(items: Seq<Json>) -> Seq<JsonView> {
    items.map_values(|item: Json| item@)
}

/// The contents of a list of members.
pub open spec fn members_view(members: Seq<(String, Json)>) -> Seq<(Seq<char>, JsonView)> {
    members.map_values(|m: (String, Json)| (m.0@, m.1@))
}

/// What an array holds is what its items hold.
pub broadcast proof fn array_view(items: Vec<Json>)
    ensures
        #[trigger] Json::Array(items)@ == JsonView::Array(items_view(items@)),
{
    assert(Json::Array(items)@->Array_0 =~= items_view(items@));
}

/// What an object holds is what its members hold.
pub broadcast proof fn object_view(members: Vec<(String, Json)>)
    ensures
        #[trigger] Json::Object(members)@ == JsonView::Object(members_view(members@)),
{
    assert(Json::Object(members)@->Object_0 =~= members_view(members@));
}

/// Adding an item adds what it holds.
pub broadcast proof fn items_push(items: Seq<Json>, item: Json)
    ensures
        #[trigger] items_view(items.push(item)) == items_view(items).push(item@),
{
    assert(items_view(items.push(item)) =~= items_view(items).push(item@));
}

/// Adding a member adds its name and what it holds.
pub broadcast proof fn members_push(members: Seq<(String, Json)>, m: (String, Json))
    ensures
        #[trigger] members_view(members.push(m)) == members_view(members).push((m.0@, m.1@)),
{
    assert(members_view(members.push(m)) =~= members_view(members).push((m.0@, m.1@)));
}

/// What the views of lists are made of.
pub broadcast group group_json_views {
    array_view,
    object_view,
    items_push,
    members_push,
}

/// The value of the first member named `key`.
pub open spec fn member(members: Seq<(Seq<char>, JsonView)>, key: Seq<char>) -> Option<JsonView>
    decreases members.len(),
{
    if members.len() == 0 {
        None
    } else if members[0].0 == key {
        Some(members[0].1)
    } else {
        member(members.drop_first(), key)
    }
}

impl JsonView {
    /// The value of the first member named `key`, where this is an object.
    pub open spec fn get(self, key: Seq<char>) -> Option<JsonView> {
        match self {
            JsonView::Object(members) => member(members, key),
            _ => None,
        }
    }

    /// The item at `i`, where this is an array that has one.
    pub open spec fn item(self, i: int) -> Option<JsonView> {
        match self {
            JsonView::Array(items) => if 0 <= i < items.len() {
                Some(items[i])
            } else {
                None
            },
            _ => None,
        }
    }

    /// The characters, where this is a string.
    pub open spec fn text(self) -> Option<Seq<char>> {
        match self {
            JsonView::Text(t) => Some(t),
            _ => None,
        }
    }

    /// The number, where this is a whole number that is not negative.
    pub open spec fn unsigned(self) -> Option<u64> {
        match self {
            JsonView::Number(NumberView::Unsigned(n)) => Some(n),
            _ => None,
        }
    }

    /// The number, where this is a whole number that an `i64` holds.
    pub open spec fn signed(self) -> Option<i64> {
        match self {
            JsonView::Number(NumberView::Unsigned(n)) => if n <= i64::MAX {
                Some(n as i64)
            } else {
                None
            },
            JsonView::Number(NumberView::Negative(n)) => Some(n),
            _ => None,
        }
    }

    /// The truth value, where this is one.
    pub open spec fn truth(self) -> Option<bool> {
        match self {
            JsonView::Bool(b) => Some(b),
            _ => None,
        }
    }

    /// The items, where this is an array.
    pub open spec fn items(self) -> Option<Seq<JsonView>> {
        match self {
            JsonView::Array(items) => Some(items),
            _ => None,
        }
    }
}

/// The first member of a name is the one that is found.
pub proof fn member_at(members: Seq<(Seq<char>, JsonView)>, i: int)
    requires
        0 <= i < members.len(),
        forall|j: int| 0 <= j < i ==> (#[trigger] members[j]).0 != members[i].0,
    ensures
        member(members, members[i].0) == Some(members[i].1),
    decreases i,
{
    if i > 0 {
        let rest = members.drop_first();
        assert(members[0].0 != members[i].0);
        assert forall|j: int| 0 <= j < i - 1 implies (#[trigger] rest[j]).0 != rest[i - 1].0 by {
            assert(rest[j] == members[j + 1]);
        }
        member_at(rest, i - 1);
    }
}

/// A name that no member has is not found.
pub proof fn member_missing(members: Seq<(Seq<char>, JsonView)>, key: Seq<char>)
    requires
        forall|j: int| 0 <= j < members.len() ==> (#[trigger] members[j]).0 != key,
    ensures
        member(members, key) is None,
    decreases members.len(),
{
    if members.len() > 0 {
        assert(members[0].0 != key);
        let rest = members.drop_first();
        assert forall|j: int| 0 <= j < rest.len() implies (#[trigger] rest[j]).0 != key by {
            assert(rest[j] == members[j + 1]);
        }
        member_missing(rest, key);
    }
}

/// A member is found in the first of two lists that has it.
pub proof fn member_of_both(
    a: Seq<(Seq<char>, JsonView)>,
    b: Seq<(Seq<char>, JsonView)>,
    key: Seq<char>,
)
    ensures
        member(a + b, key) == if member(a, key) is Some {
            member(a, key)
        } else {
            member(b, key)
        },
    decreases a.len(),
{
    if a.len() == 0 {
        assert(a + b =~= b);
    } else {
        assert((a + b).drop_first() =~= a.drop_first() + b);
        member_of_both(a.drop_first(), b, key);
    }
}

/// Whether a member has a name.
pub open spec fn named(key: Seq<char>) -> spec_fn((Seq<char>, JsonView)) -> bool {
    |m: (Seq<char>, JsonView)| m.0 == key
}

/// The members with the value of the first one named `key` changed.
pub open spec fn members_updated(
    members: Seq<(Seq<char>, JsonView)>,
    key: Seq<char>,
    f: spec_fn(JsonView) -> JsonView,
) -> Seq<(Seq<char>, JsonView)> {
    match first_where(members, named(key), 0) {
        Some(i) => members.update(i, (members[i].0, f(members[i].1))),
        None => members,
    }
}

impl JsonView {
    /// The value with the first member named `key` changed, where this is an
    /// object that has one.
    pub open spec fn updated(
        self,
        key: Seq<char>,
        f: spec_fn(JsonView) -> JsonView,
    ) -> JsonView {
        match self {
            JsonView::Object(members) => JsonView::Object(members_updated(members, key, f)),
            _ => self,
        }
    }

    /// The value with every item changed, where this is an array.
    pub open spec fn each(self, f: spec_fn(JsonView) -> JsonView) -> JsonView {
        match self {
            JsonView::Array(items) => JsonView::Array(items.map_values(f)),
            _ => self,
        }
    }
}

/// Changing a member twice by a change that is made once for all is changing it
/// once.
pub proof fn updated_is_idempotent(
    value: JsonView,
    key: Seq<char>,
    f: spec_fn(JsonView) -> JsonView,
)
    requires
        forall|v: JsonView| #[trigger] f(f(v)) == f(v),
    ensures
        value.updated(key, f).updated(key, f) == value.updated(key, f),
{
    if let JsonView::Object(members) = value {
        let p = named(key);
        let once = members_updated(members, key, f);
        first_where_is_first(members, p, 0);
        first_where_is_first(once, p, 0);
        match first_where(members, p, 0) {
            Some(i) => {
                assert(p(once[i]));
                match first_where(once, p, 0) {
                    Some(j) => {
                        if j < i {
                            assert(!p(members[j]));
                            assert(once[j] == members[j]);
                        } else if i < j {
                            assert(!p(once[i]));
                        }
                        assert(j == i);
                        assert(members_updated(once, key, f) =~= once);
                    },
                    None => {
                        assert(!p(once[i]));
                    },
                }
            },
            None => {},
        }
    }
}

/// Changing every item twice by a change that is made once for all is changing
/// it once.
pub proof fn each_is_idempotent(value: JsonView, f: spec_fn(JsonView) -> JsonView)
    requires
        forall|v: JsonView| #[trigger] f(f(v)) == f(v),
    ensures
        value.each(f).each(f) == value.each(f),
{
    if let JsonView::Array(items) = value {
        assert(items.map_values(f).map_values(f) =~= items.map_values(f));
    }
}

/// Changes the first member named `key`, where the value is an object that has
/// one.
pub(crate) fn update_member<F: Fn(Json) -> Json>(
    value: Json,
    key: &str,
    change: F,
    Ghost(f): Ghost<spec_fn(JsonView) -> JsonView>,
) -> (r: Json)
    requires
        forall|x: Json| call_requires(change, (x,)),
        forall|x: Json, y: Json| #[trigger] call_ensures(change, (x,), y) ==> y@ == f(x@),
    ensures
        r@ == value@.updated(key@, f),
{
    broadcast use group_json_views;

    match value {
        Json::Object(given) => {
            let mut members = given;
            let ghost all = members_view(members@);
            let ghost p = named(key@);
            let mut i: usize = 0;
            while i < members.len()
                invariant
                    i <= members@.len(),
                    all == members_view(members@),
                    p == named(key@),
                    first_where(all, p, 0) == first_where(
                        all,
                        p,
                        i as int,
                    ),
                    value@ == JsonView::Object(all),
                    forall|x: Json| call_requires(change, (x,)),
                    forall|x: Json, y: Json| #[trigger]
                        call_ensures(change, (x,), y) ==> y@ == f(x@),
                decreases members@.len() - i,
            {
                if same(members[i].0.as_str(), key) {
                    assert(p(all[i as int]));
                    let (name, old_value) = members.remove(i);
                    let new_value = change(old_value);
                    members.insert(i, (name, new_value));
                    assert(first_where(all, p, 0) == Some(i as int));
                    assert(members_view(members@) =~= members_updated(all, key@, f));
                    proof {
                        object_view(members);
                    }
                    return Json::Object(members);
                }
                i += 1;
            }
            Json::Object(members)
        },
        other => other,
    }
}

/// Changes every item, where the value is an array.
pub(crate) fn update_items<F: Fn(Json) -> Json>(
    value: Json,
    change: F,
    Ghost(f): Ghost<spec_fn(JsonView) -> JsonView>,
) -> (r: Json)
    requires
        forall|x: Json| call_requires(change, (x,)),
        forall|x: Json, y: Json| #[trigger] call_ensures(change, (x,), y) ==> y@ == f(x@),
    ensures
        r@ == value@.each(f),
{
    broadcast use group_json_views;

    match value {
        Json::Array(given) => {
            let ghost all = items_view(given@);
            let mut items = given;
            let mut out: Vec<Json> = Vec::new();
            let ghost mut done: int = 0;
            assert(all.skip(0) =~= all);
            assert(items_view(out@) =~= all.take(0).map_values(f));
            while items.len() > 0
                invariant
                    0 <= done <= all.len(),
                    items_view(items@) == all.skip(done),
                    items_view(out@) == all.take(done).map_values(f),
                    forall|x: Json| call_requires(change, (x,)),
                    forall|x: Json, y: Json| #[trigger]
                        call_ensures(change, (x,), y) ==> y@ == f(x@),
                decreases items@.len(),
            {
                let ghost before = items@;
                let item = items.remove(0);
                proof {
                    assert(items_view(before).len() == before.len());
                    assert(all.skip(done).len() > 0);
                    assert(items_view(before)[0] == item@);
                    assert(all.skip(done)[0] == all[done]);
                    assert forall|k: int| 0 <= k < items@.len() implies #[trigger] items_view(
                        items@,
                    )[k] == all.skip(done + 1)[k] by {
                        assert(items_view(before)[k + 1] == all.skip(done)[k + 1]);
                    }
                    assert(items_view(items@) =~= all.skip(done + 1));
                    assert(all.take(done + 1).map_values(f) =~= all.take(done).map_values(f).push(
                        f(item@),
                    ));
                    done = done + 1;
                }
                out.push(change(item));
            }
            assert(items_view(items@).len() == 0);
            assert(all.take(done) =~= all);
            Json::Array(out)
        },
        other => other,
    }
}

/// The member of an optional value.
pub open spec fn get_in(value: Option<JsonView>, key: Seq<char>) -> Option<JsonView> {
    match value {
        Some(v) => v.get(key),
        None => None,
    }
}

/// The view of an optional value.
pub open spec fn opt_json(value: Option<Json>) -> Option<JsonView> {
    match value {
        Some(v) => Some(v@),
        None => None,
    }
}

impl Json {
    /// The value of the first member named `key`, where this is an object.
    pub fn get(&self, key: &str) -> (r: Option<&Json>)
        ensures
            match r {
                Some(v) => self@.get(key@) == Some(v@),
                None => self@.get(key@) is None,
            },
    {
        broadcast use group_json_views;

        match self {
            Json::Object(members) => {
                let mut i: usize = 0;
                assert(members_view(members@).skip(0) =~= members_view(members@));
                while i < members.len()
                    invariant
                        i <= members@.len(),
                        self@ == JsonView::Object(members_view(members@)),
                        member(members_view(members@), key@) == member(
                            members_view(members@).skip(i as int),
                            key@,
                        ),
                    decreases members@.len() - i,
                {
                    if same(members[i].0.as_str(), key) {
                        return Some(&members[i].1);
                    }
                    i += 1;
                    assert(members_view(members@).skip(i as int) =~= members_view(members@).skip(
                        i - 1,
                    ).drop_first());
                }
                None
            },
            _ => None,
        }
    }

    /// The item at `i`, where this is an array that has one.
    pub fn item(&self, i: usize) -> (r: Option<&Json>)
        ensures
            match r {
                Some(v) => self@.item(i as int) == Some(v@),
                None => self@.item(i as int) is None,
            },
    {
        broadcast use group_json_views;

        match self {
            Json::Array(items) => if i < items.len() {
                Some(&items[i])
            } else {
                None
            },
            _ => None,
        }
    }

    /// The characters, where this is a string.
    pub fn as_str(&self) -> (r: Option<&str>)
        ensures
            match r {
                Some(t) => self@.text() == Some(t@),
                None => self@.text() is None,
            },
    {
        match self {
            Json::Text(t) => Some(t.as_str()),
            _ => None,
        }
    }

    /// The number, where this is a whole number that is not negative.
    pub fn as_u64(&self) -> (r: Option<u64>)
        ensures
            r == self@.unsigned(),
    {
        match self {
            Json::Number(Number::Unsigned(n)) => Some(*n),
            _ => None,
        }
    }

    /// The number, where this is a whole number that an `i64` holds.
    pub fn as_i64(&self) -> (r: Option<i64>)
        ensures
            r == self@.signed(),
    {
        match self {
            Json::Number(Number::Unsigned(n)) => if *n <= 0x7fff_ffff_ffff_ffff {
                Some(*n as i64)
            } else {
                None
            },
            Json::Number(Number::Negative(n)) => Some(*n),
            _ => None,
        }
    }

    /// The truth value, where this is one.
    pub fn as_bool(&self) -> (r: Option<bool>)
        ensures
            r == self@.truth(),
    {
        match self {
            Json::Bool(b) => Some(*b),
            _ => None,
        }
    }

    /// The items, where this is an array.
    pub fn as_array(&self) -> (r: Option<&Vec<Json>>)
        ensures
            match r {
                Some(items) => self@ == JsonView::Array(items_view(items@)),
                None => self@.items() is None,
            },
    {
        broadcast use group_json_views;

        match self {
            Json::Array(items) => Some(items),
            _ => None,
        }
    }

    /// Whether this is `null`.
    pub fn is_null(&self) -> (r: bool)
        ensures
            r == (self@ is Null),
    {
        match self {
            Json::Null => true,
            _ => false,
        }
    }

    /// A copy of the whole value.
    pub fn copy(&self) -> (r: Json)
        ensures
            r@ == self@,
        decreases self,
    {
        broadcast use group_json_views;

        match self {
            Json::Null => Json::Null,
            Json::Bool(b) => Json::Bool(*b),
            Json::Number(n) => Json::Number(
                match n {
                    Number::Unsigned(u) => Number::Unsigned(*u),
                    Number::Negative(i) => Number::Negative(*i),
                    Number::Float(t) => Number::Float(t.clone()),
                },
            ),
            Json::Text(t) => Json::Text(t.clone()),
            Json::Array(items) => {
                let mut out: Vec<Json> = Vec::new();
                let mut i: usize = 0;
                while i < items.len()
                    invariant
                        i <= items@.len(),
                        *self == Json::Array(*items),
                        items_view(out@) == items_view(items@).take(i as int),
                    decreases items@.len() - i,
                {
                    assert(decreases_to!(self => self->Array_0));
                    assert(decreases_to!(items@ => items@[i as int]));
                    let next = items[i].copy();
                    out.push(next);
                    i += 1;
                    assert(items_view(items@).take(i as int) =~= items_view(items@).take(i - 1).push(items@[i - 1]@));
                }
                assert(items_view(items@).take(items@.len() as int) =~= items_view(items@));
                Json::Array(out)
            },
            Json::Object(members) => {
                let mut out: Vec<(String, Json)> = Vec::new();
                let mut i: usize = 0;
                while i < members.len()
                    invariant
                        i <= members@.len(),
                        *self == Json::Object(*members),
                        members_view(out@) == members_view(members@).take(i as int),
                    decreases members@.len() - i,
                {
                    assert(decreases_to!(self => self->Object_0));
                    assert(decreases_to!(members@ => members@[i as int]));
                    let next = members[i].1.copy();
                    out.push((members[i].0.clone(), next));
                    i += 1;
                    assert(members_view(members@).take(i as int) =~= members_view(members@).take(i - 1).push((members@[i - 1].0@, members@[i - 1].1@)));
                }
                assert(members_view(members@).take(members@.len() as int) =~= members_view(
                    members@,
                ));
                Json::Object(out)
            },
        }
    }

    /// A string value.
    pub fn string(s: &str) -> (r: Json)
        ensures
            r@ == JsonView::Text(s@),
    {
        Json::Text(s.to_owned())
    }

    /// A whole number that is not negative.
    pub fn unsigned(n: u64) -> (r: Json)
        ensures
            r@ == JsonView::Number(NumberView::Unsigned(n)),
    {
        Json::Number(Number::Unsigned(n))
    }

    /// A whole number.
    pub fn signed(n: i64) -> (r: Json)
        ensures
            r@ == int_json(n as int),
    {
        if n < 0 {
            Json::Number(Number::Negative(n))
        } else {
            Json::Number(Number::Unsigned(n as u64))
        }
    }

    /// An array of strings.
    pub fn strings(list: &Vec<String>) -> (r: Json)
        ensures
            r@ == strings_json(views(list@)),
    {
        broadcast use group_json_views;

        let mut out: Vec<Json> = Vec::new();
        let mut i: usize = 0;
        while i < list.len()
            invariant
                i <= list@.len(),
                items_view(out@) == text_items(views(list@).take(i as int)),
            decreases list@.len() - i,
        {
            out.push(Json::Text(list[i].clone()));
            i += 1;
            assert(text_items(views(list@).take(i as int)) =~= text_items(views(list@).take(i - 1)).push(JsonView::Text(list@[i - 1]@)));
        }
        assert(views(list@).take(list@.len() as int) =~= views(list@));
        Json::Array(out)
    }
}

/// A whole number as a value.
pub open spec fn int_json(n: int) -> JsonView {
    if n < 0 {
        JsonView::Number(NumberView::Negative(n as i64))
    } else {
        JsonView::Number(NumberView::Unsigned(n as u64))
    }
}

/// A number that is not negative as a value.
pub open spec fn num(n: u64) -> JsonView {
    JsonView::Number(NumberView::Unsigned(n))
}

/// Strings as values.
pub open spec fn text_items(list: Seq<Seq<char>>) -> Seq<JsonView> {
    list.map_values(|t: Seq<char>| JsonView::Text(t))
}

/// An array of strings as a value.
pub open spec fn strings_json(list: Seq<Seq<char>>) -> JsonView {
    JsonView::Array(text_items(list))
}

/// An optional string as a value, `null` where there is none.
pub open spec fn opt_text_json(t: Option<Seq<char>>) -> JsonView {
    match t {
        Some(s) => JsonView::Text(s),
        None => JsonView::Null,
    }
}

/// A number, or `null`.
pub open spec fn opt_num_json(n: Option<u64>) -> JsonView {
    match n {
        Some(v) => num(v),
        None => JsonView::Null,
    }
}

/// An integer, or `null`.
pub open spec fn opt_int_json(n: Option<i64>) -> JsonView {
    match n {
        Some(v) => int_json(v as int),
        None => JsonView::Null,
    }
}

/// A truth value, or `null`.
pub open spec fn opt_bool_json(b: Option<bool>) -> JsonView {
    match b {
        Some(v) => JsonView::Bool(v),
        None => JsonView::Null,
    }
}

impl Number {
    /// The same number.
    pub fn copy(&self) -> (r: Number)
        ensures
            r@ == self@,
    {
        match self {
            Number::Unsigned(n) => Number::Unsigned(*n),
            Number::Negative(n) => Number::Negative(*n),
            Number::Float(t) => Number::Float(t.clone()),
        }
    }
}

/// An array of what a function makes of each item of a list.
pub(crate) fn json_list<T, F: Fn(&T) -> Json>(
    items: &Vec<T>,
    f: F,
    Ghost(g): Ghost<spec_fn(T) -> JsonView>,
) -> (r: Json)
    requires
        forall|t: &T| call_requires(f, (t,)),
        forall|t: &T, j: Json| #[trigger] call_ensures(f, (t,), j) ==> j@ == g(*t),
    ensures
        r@ == JsonView::Array(items@.map_values(g)),
{
    broadcast use group_json_views;

    let mut list: Vec<Json> = Vec::new();
    let mut i: usize = 0;
    while i < items.len()
        invariant
            i <= items@.len(),
            list@.len() == i,
            forall|t: &T| call_requires(f, (t,)),
            forall|t: &T, j: Json| #[trigger] call_ensures(f, (t,), j) ==> j@ == g(*t),
            forall|k: int| 0 <= k < i ==> (#[trigger] list@[k])@ == g(items@[k]),
        decreases items@.len() - i,
    {
        let item = f(&items[i]);
        list.push(item);
        i += 1;
    }
    assert(items_view(list@) =~= items@.map_values(g));
    Json::Array(list)
}

/// An object under construction.
pub struct ObjectBuilder {
    pub members: Vec<(String, Json)>,
}

impl View for ObjectBuilder {
    type V = Seq<(Seq<char>, JsonView)>;

    open spec fn view(&self) -> Seq<(Seq<char>, JsonView)> {
        members_view(self.members@)
    }
}

impl ObjectBuilder {
    /// An object without members.
    pub fn new() -> (r: ObjectBuilder)
        ensures
            r@ == Seq::<(Seq<char>, JsonView)>::empty(),
    {
        let r = ObjectBuilder { members: Vec::new() };
        assert(r@ =~= Seq::<(Seq<char>, JsonView)>::empty());
        r
    }

    /// Adds a member at the end.
    pub fn put(&mut self, key: &str, value: Json)
        ensures
            final(self)@ == old(self)@.push((key@, value@)),
    {
        self.members.push((key.to_owned(), value));
        assert(self@ =~= old(self)@.push((key@, value@)));
    }

    /// Adds a string.
    pub fn put_text(&mut self, key: &str, value: &str)
        ensures
            final(self)@ == old(self)@.push((key@, JsonView::Text(value@))),
    {
        self.put(key, Json::string(value));
    }

    /// Adds a number that is not negative.
    pub fn put_num(&mut self, key: &str, value: u64)
        ensures
            final(self)@ == old(self)@.push((key@, num(value))),
    {
        self.put(key, Json::unsigned(value));
    }

    /// Adds a truth value.
    pub fn put_bool(&mut self, key: &str, value: bool)
        ensures
            final(self)@ == old(self)@.push((key@, JsonView::Bool(value))),
    {
        self.put(key, Json::Bool(value));
    }

    /// Adds an optional string, `null` where there is none.
    pub fn put_opt_text(&mut self, key: &str, value: Option<&str>)
        ensures
            final(self)@ == old(self)@.push(
                (
                    key@,
                    opt_text_json(
                        match value {
                            Some(s) => Some(s@),
                            None => None,
                        },
                    ),
                ),
            ),
    {
        match value {
            Some(s) => self.put(key, Json::string(s)),
            None => self.put(key, Json::Null),
        }
    }

    /// Adds an integer.
    pub fn put_int(&mut self, key: &str, value: i64)
        ensures
            final(self)@ == old(self)@.push((key@, int_json(value as int))),
    {
        self.put(key, Json::signed(value));
    }

    /// Adds an optional number that is not negative.
    pub fn put_opt_num(&mut self, key: &str, value: Option<u64>)
        ensures
            final(self)@ == old(self)@.push((key@, opt_num_json(value))),
    {
        match value {
            Some(n) => self.put(key, Json::unsigned(n)),
            None => self.put(key, Json::Null),
        }
    }

    /// Adds an optional integer.
    pub fn put_opt_int(&mut self, key: &str, value: Option<i64>)
        ensures
            final(self)@ == old(self)@.push((key@, opt_int_json(value))),
    {
        match value {
            Some(n) => self.put(key, Json::signed(n)),
            None => self.put(key, Json::Null),
        }
    }

    /// Adds an optional truth value.
    pub fn put_opt_bool(&mut self, key: &str, value: Option<bool>)
        ensures
            final(self)@ == old(self)@.push((key@, opt_bool_json(value))),
    {
        match value {
            Some(b) => self.put(key, Json::Bool(b)),
            None => self.put(key, Json::Null),
        }
    }

    /// Adds an optional number of any kind.
    pub fn put_opt_number(&mut self, key: &str, value: &Option<Number>)
        ensures
            final(self)@ == old(self)@.push(
                (
                    key@,
                    match *value {
                        Some(n) => JsonView::Number(n@),
                        None => JsonView::Null,
                    },
                ),
            ),
    {
        match value {
            Some(n) => self.put(key, Json::Number(n.copy())),
            None => self.put(key, Json::Null),
        }
    }

    /// Adds an array of strings.
    pub fn put_strings(&mut self, key: &str, value: &Vec<String>)
        ensures
            final(self)@ == old(self)@.push((key@, strings_json(views(value@)))),
    {
        self.put(key, Json::strings(value));
    }

    /// The object.
    pub fn done(self) -> (r: Json)
        ensures
            r@ == JsonView::Object(self@),
    {
        broadcast use group_json_views;

        Json::Object(self.members)
    }
}

} // verus!
