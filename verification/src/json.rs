//! JSON values as plain data.
//!
//! A [`JsonValue`] holds what a JSON text says: the members of an object stand in the order of the
//! text, and a name that the text repeats is repeated here too.
use vstd::prelude::*;

verus! {

/// A JSON number.
///
/// A number without fraction and exponent is an integer where it fits; every other number is a
/// double precision float, kept as its bits.
#[derive(Clone, Copy, Debug, PartialEq, Eq, Structural)]
pub enum JsonNumber {
    /// An integer from zero up.
    PosInt(u64),
    /// An integer below zero.
    NegInt(i64),
    /// The bits of a float.
    Float(u64),
}

/// A JSON value.
#[derive(Debug, PartialEq, Eq)]
pub enum JsonValue {
    Null,
    Bool(bool),
    Number(JsonNumber),
    String(String),
    Array(Vec<JsonValue>),
    Object(Vec<(String, JsonValue)>),
}

/// The mathematical value of a [`JsonValue`].
pub enum Json {
    Null,
    Bool(bool),
    Number(JsonNumber),
    String(Seq<char>),
    Array(Seq<Json>),
    Object(Seq<(Seq<char>, Json)>),
}

/// What `value` stands for.
pub open spec fn json_view(value: JsonValue) -> Json
    decreases value,
{
    match value {
        JsonValue::Null => Json::Null,
        JsonValue::Bool(b) => Json::Bool(b),
        JsonValue::Number(n) => Json::Number(n),
        JsonValue::String(s) => Json::String(s@),
        JsonValue::Array(items) => Json::Array(
            Seq::new(
                items@.len(),
                |i: int|
                    if 0 <= i < items@.len() {
                        json_view(items@[i])
                    } else {
                        Json::Null
                    },
            ),
        ),
        JsonValue::Object(members) => Json::Object(
            Seq::new(
                members@.len(),
                |i: int|
                    if 0 <= i < members@.len() {
                        (members@[i].0@, json_view(members@[i].1))
                    } else {
                        (Seq::empty(), Json::Null)
                    },
            ),
        ),
    }
}

impl View for JsonValue {
    type V = Json;

    open spec fn view(&self) -> Json {
        json_view(*self)
    }
}

/// What an optional value stands for.
pub open spec fn option_json(value: Option<JsonValue>) -> Option<Json> {
    match value {
        Some(value) => Some(value@),
        None => None,
    }
}

impl Clone for JsonValue {
    fn clone(&self) -> (copy: Self)
        ensures
            copy@ == self@,
        decreases self,
    {
        match self {
            JsonValue::Null => JsonValue::Null,
            JsonValue::Bool(b) => JsonValue::Bool(*b),
            JsonValue::Number(n) => JsonValue::Number(*n),
            JsonValue::String(s) => JsonValue::String(s.clone()),
            JsonValue::Array(items) => {
                let mut copies: Vec<JsonValue> = Vec::new();
                let mut i: usize = 0;
                while i < items.len()
                    invariant
                        i <= items@.len(),
                        copies@.len() == i,
                        *self == JsonValue::Array(*items),
                        forall|k: int| 0 <= k < i ==> (#[trigger] copies@[k])@ == items@[k]@,
                    decreases items@.len() - i,
                {
                    assert(decreases_to!(self => self->Array_0));
                    assert(decreases_to!(self->Array_0 => self->Array_0@));
                    assert(decreases_to!(self => self->Array_0@[i as int]));
                    copies.push(items[i].clone());
                    i += 1;
                }
                let copy = JsonValue::Array(copies);
                assert(copy@->Array_0 =~= self@->Array_0);
                copy
            },
            JsonValue::Object(members) => {
                let mut copies: Vec<(String, JsonValue)> = Vec::new();
                let mut i: usize = 0;
                while i < members.len()
                    invariant
                        i <= members@.len(),
                        copies@.len() == i,
                        *self == JsonValue::Object(*members),
                        forall|k: int|
                            0 <= k < i ==> (#[trigger] copies@[k]).0@ == members@[k].0@
                                && copies@[k].1@ == members@[k].1@,
                    decreases members@.len() - i,
                {
                    assert(decreases_to!(self => self->Object_0));
                    assert(decreases_to!(self => self->Object_0@));
                    assert(decreases_to!(self => self->Object_0@[i as int]));
                    assert(decreases_to!(self => self->Object_0@[i as int].1));
                    copies.push((members[i].0.clone(), members[i].1.clone()));
                    i += 1;
                }
                let copy = JsonValue::Object(copies);
                assert(copy@->Object_0 =~= self@->Object_0);
                copy
            },
        }
    }
}

impl JsonValue {
    /// Creates an object with one member.
    pub fn object_of(name: &str, value: JsonValue) -> (object: JsonValue)
        ensures
            object@ == Json::Object(seq![(name@, value@)]),
    {
        let mut members: Vec<(String, JsonValue)> = Vec::new();
        members.push((name.to_string(), value));
        let object = JsonValue::Object(members);
        assert(object@->Object_0 =~= seq![(name@, value@)]);
        object
    }

    /// Creates an object with two members.
    pub fn object_of_two(
        name: &str,
        value: JsonValue,
        other_name: &str,
        other_value: JsonValue,
    ) -> (object: JsonValue)
        ensures
            object@ == Json::Object(seq![(name@, value@), (other_name@, other_value@)]),
    {
        let mut members: Vec<(String, JsonValue)> = Vec::new();
        members.push((name.to_string(), value));
        members.push((other_name.to_string(), other_value));
        let object = JsonValue::Object(members);
        proof {
            let pair = seq![(name@, value@), (other_name@, other_value@)];
            assert(object@->Object_0.len() == 2);
            assert(object@->Object_0[0] == pair[0]);
            assert(object@->Object_0[1] == pair[1]);
            assert(object@->Object_0 =~= pair);
        }
        object
    }
}

/// The name of the member at `i` comes again further on.
pub open spec fn comes_again(members: Seq<(Seq<char>, Json)>, i: int) -> bool {
    exists|j: int| i < j < members.len() && (#[trigger] members[j]).0 == members[i].0
}

/// `json` with only the last of the members that have the same name, at every depth.
pub open spec fn last_values(json: Json) -> Json
    decreases json, 0nat,
{
    match json {
        Json::Array(items) => Json::Array(last_values_of_items(items, items.len())),
        Json::Object(members) => Json::Object(last_values_of_members(members, members.len())),
        other => other,
    }
}

/// The first `n` of `items`, each with only the last of the members that have the same name.
pub open spec fn last_values_of_items(items: Seq<Json>, n: nat) -> Seq<Json>
    decreases items, n,
{
    if n == 0 || n > items.len() {
        Seq::empty()
    } else {
        last_values_of_items(items, (n - 1) as nat).push(last_values(items[n - 1]))
    }
}

/// The first `n` of `members` without those of which the name comes again further on.
pub open spec fn last_values_of_members(members: Seq<(Seq<char>, Json)>, n: nat) -> Seq<
    (Seq<char>, Json),
>
    decreases members, n,
{
    if n == 0 || n > members.len() {
        Seq::empty()
    } else {
        let before = last_values_of_members(members, (n - 1) as nat);
        if comes_again(members, n - 1) {
            before
        } else {
            before.push((members[n - 1].0, last_values(members[n - 1].1)))
        }
    }
}

fn comes_again_in(members: &Vec<(String, JsonValue)>, i: usize) -> (again: bool)
    requires
        i < members@.len(),
    ensures
        again == comes_again(JsonValue::Object(*members)@->Object_0, i as int),
{
    let ghost views = JsonValue::Object(*members)@->Object_0;
    let len: usize = members.len();
    let mut j: usize = i + 1;
    while j < len
        invariant
            len == members@.len(),
            i < j <= len,
            views == JsonValue::Object(*members)@->Object_0,
            forall|k: int| i < k < j ==> (#[trigger] views[k]).0 != views[i as int].0,
        decreases len - j,
    {
        if members[j].0 == members[i].0 {
            assert(views[j as int].0 == views[i as int].0);
            return true;
        }
        j += 1;
    }
    false
}

impl JsonValue {
    /// Copies the value with only the last of the members that have the same name, at every depth.
    ///
    /// The members that are left stand in the order in which they stood.
    pub fn with_last_values(&self) -> (copy: JsonValue)
        ensures
            copy@ == last_values(self@),
        decreases self,
    {
        match self {
            JsonValue::Array(items) => {
                let ghost views = self@->Array_0;
                let mut copies: Vec<JsonValue> = Vec::new();
                let mut i: usize = 0;
                assert(copies@.map_values(|item: JsonValue| item@) =~= last_values_of_items(
                    views,
                    0,
                ));
                while i < items.len()
                    invariant
                        i <= items@.len(),
                        *self == JsonValue::Array(*items),
                        views == self@->Array_0,
                        copies@.map_values(|item: JsonValue| item@) == last_values_of_items(
                            views,
                            i as nat,
                        ),
                    decreases items@.len() - i,
                {
                    let ghost before = copies@;
                    assert(decreases_to!(self => self->Array_0));
                    assert(decreases_to!(self->Array_0 => self->Array_0@));
                    assert(decreases_to!(self => self->Array_0@[i as int]));
                    copies.push(items[i].with_last_values());
                    assert(copies@.map_values(|item: JsonValue| item@) =~= before.map_values(
                        |item: JsonValue| item@,
                    ).push(last_values(views[i as int])));
                    i += 1;
                }
                let copy = JsonValue::Array(copies);
                assert(copy@->Array_0 =~= copies@.map_values(|item: JsonValue| item@));
                copy
            },
            JsonValue::Object(members) => {
                let ghost views = self@->Object_0;
                let mut copies: Vec<(String, JsonValue)> = Vec::new();
                let mut i: usize = 0;
                assert(copies@.map_values(|m: (String, JsonValue)| (m.0@, m.1@))
                    =~= last_values_of_members(views, 0));
                while i < members.len()
                    invariant
                        i <= members@.len(),
                        *self == JsonValue::Object(*members),
                        views == self@->Object_0,
                        copies@.map_values(|m: (String, JsonValue)| (m.0@, m.1@))
                            == last_values_of_members(views, i as nat),
                    decreases members@.len() - i,
                {
                    let ghost before = copies@;
                    assert(decreases_to!(self => self->Object_0));
                    assert(decreases_to!(self => self->Object_0@));
                    assert(decreases_to!(self => self->Object_0@[i as int]));
                    assert(decreases_to!(self => self->Object_0@[i as int].1));
                    if !comes_again_in(members, i) {
                        copies.push((members[i].0.clone(), members[i].1.with_last_values()));
                        assert(copies@.map_values(|m: (String, JsonValue)| (m.0@, m.1@))
                            =~= before.map_values(|m: (String, JsonValue)| (m.0@, m.1@)).push(
                            (views[i as int].0, last_values(views[i as int].1)),
                        ));
                    }
                    i += 1;
                }
                let copy = JsonValue::Object(copies);
                assert(copy@->Object_0 =~= copies@.map_values(
                    |m: (String, JsonValue)| (m.0@, m.1@),
                ));
                copy
            },
            other => other.clone(),
        }
    }
}

/// No object in `json` has two members of the same name.
pub open spec fn names_differ(json: Json) -> bool
    decreases json, 0nat,
{
    match json {
        Json::Array(items) => names_differ_in_items(items, items.len()),
        Json::Object(members) => names_differ_in_members(members, members.len()),
        _ => true,
    }
}

/// Names differ in each of the first `n` of `items`.
pub open spec fn names_differ_in_items(items: Seq<Json>, n: nat) -> bool
    decreases items, n,
{
    n == 0 || n > items.len() || (names_differ_in_items(items, (n - 1) as nat) && names_differ(
        items[n - 1],
    ))
}

/// The names of the first `n` of `members` do not come again further on, and names differ in the
/// value of each.
pub open spec fn names_differ_in_members(members: Seq<(Seq<char>, Json)>, n: nat) -> bool
    decreases members, n,
{
    n == 0 || n > members.len() || {
        &&& names_differ_in_members(members, (n - 1) as nat)
        &&& !comes_again(members, n - 1)
        &&& names_differ(members[n - 1].1)
    }
}

/// A value in which names differ is left as it is.
pub proof fn lemma_last_values_of_different_names(json: Json)
    requires
        names_differ(json),
    ensures
        last_values(json) == json,
    decreases json, 0nat,
{
    match json {
        Json::Array(items) => {
            lemma_last_values_of_items(items, items.len());
            assert(items.take(items.len() as int) =~= items);
        },
        Json::Object(members) => {
            lemma_last_values_of_members(members, members.len());
            assert(members.take(members.len() as int) =~= members);
        },
        _ => {},
    }
}

proof fn lemma_last_values_of_items(items: Seq<Json>, n: nat)
    requires
        n <= items.len(),
        names_differ_in_items(items, n),
    ensures
        last_values_of_items(items, n) == items.take(n as int),
    decreases items, n,
{
    if n > 0 {
        lemma_last_values_of_items(items, (n - 1) as nat);
        lemma_last_values_of_different_names(items[n - 1]);
        assert(items.take(n as int) =~= items.take(n - 1).push(items[n - 1]));
    }
}

proof fn lemma_last_values_of_members(members: Seq<(Seq<char>, Json)>, n: nat)
    requires
        n <= members.len(),
        names_differ_in_members(members, n),
    ensures
        last_values_of_members(members, n) == members.take(n as int),
    decreases members, n,
{
    if n > 0 {
        lemma_last_values_of_members(members, (n - 1) as nat);
        lemma_last_values_of_different_names(members[n - 1].1);
        assert(members.take(n as int) =~= members.take(n - 1).push(members[n - 1]));
    }
}

/// `kept` holds, of each name among the first `n` of `members` that does not come again further
/// on, the one value; and nothing else.
spec fn keeps_last(
    members: Seq<(Seq<char>, Json)>,
    n: nat,
    kept: Seq<(Seq<char>, Json)>,
) -> bool {
    &&& forall|k: int|
        0 <= k < kept.len() ==> exists|i: int|
            {
                &&& 0 <= i < n
                &&& !comes_again(members, i)
                &&& #[trigger] kept[k] == (#[trigger] members[i].0, last_values(members[i].1))
            }
    &&& forall|j: int, k: int|
        0 <= j < k < kept.len() ==> (#[trigger] kept[j]).0 != (#[trigger] kept[k]).0
    &&& forall|i: int|
        0 <= i < n && !comes_again(members, i) ==> kept.contains(
            (#[trigger] members[i].0, last_values(members[i].1)),
        )
}

proof fn lemma_keeps_last(members: Seq<(Seq<char>, Json)>, n: nat)
    requires
        n <= members.len(),
    ensures
        keeps_last(members, n, last_values_of_members(members, n)),
    decreases n,
{
    let kept = last_values_of_members(members, n);
    if n > 0 {
        let m = (n - 1) as nat;
        let before = last_values_of_members(members, m);
        let member = (members[n - 1].0, last_values(members[n - 1].1));
        lemma_keeps_last(members, m);
        if !comes_again(members, n - 1) {
            assert(kept == before.push(member));
        }
        assert forall|k: int| 0 <= k < kept.len() implies exists|i: int|
            {
                &&& 0 <= i < n
                &&& !comes_again(members, i)
                &&& #[trigger] kept[k] == (#[trigger] members[i].0, last_values(members[i].1))
            } by {
            if k < before.len() {
                assert(kept[k] == before[k]);
                let i = choose|i: int|
                    {
                        &&& 0 <= i < m
                        &&& !comes_again(members, i)
                        &&& before[k] == (#[trigger] members[i].0, last_values(members[i].1))
                    };
                assert(kept[k] == (members[i].0, last_values(members[i].1)));
            } else {
                assert(kept[k] == (members[n - 1].0, last_values(members[n - 1].1)));
            }
        }
        assert forall|j: int, k: int| 0 <= j < k < kept.len() implies (#[trigger] kept[j]).0 != (
        #[trigger] kept[k]).0 by {
            assert(kept[j] == before[j]);
            if k < before.len() {
                assert(kept[k] == before[k]);
            } else {
                let i = choose|i: int|
                    {
                        &&& 0 <= i < m
                        &&& !comes_again(members, i)
                        &&& before[j] == (#[trigger] members[i].0, last_values(members[i].1))
                    };
                assert(members[n - 1].0 != members[i].0);
            }
        }
        assert forall|i: int| 0 <= i < n && !comes_again(members, i) implies kept.contains(
            (#[trigger] members[i].0, last_values(members[i].1)),
        ) by {
            let wanted = (members[i].0, last_values(members[i].1));
            if i < m {
                assert(before.contains(wanted));
                let k = before.index_of(wanted);
                assert(kept[k] == before[k]);
            } else {
                assert(kept[before.len() as int] == wanted);
            }
        }
    }
}

/// Of members with the same name the value of the last is kept, and of each name one.
pub proof fn law_last_value_of_each_name_is_kept(members: Seq<(Seq<char>, Json)>)
    ensures
        ({
            let kept = last_values(Json::Object(members))->Object_0;
            &&& forall|i: int|
                0 <= i < members.len() && !comes_again(members, i) ==> kept.contains(
                    (#[trigger] members[i].0, last_values(members[i].1)),
                )
            &&& forall|j: int, k: int|
                0 <= j < k < kept.len() ==> (#[trigger] kept[j]).0 != (#[trigger] kept[k]).0
        }),
{
    lemma_keeps_last(members, members.len());
}

/// Once only the last values are left, names differ at every depth.
pub proof fn law_names_of_last_values_differ(json: Json)
    ensures
        names_differ(last_values(json)),
    decreases json, 0nat,
{
    match json {
        Json::Array(items) => {
            let kept = last_values_of_items(items, items.len());
            lemma_names_of_items_differ(items, items.len());
            assert(kept.len() == items.len());
            lemma_all_items(kept, kept.len());
        },
        Json::Object(members) => {
            let kept = last_values_of_members(members, members.len());
            lemma_keeps_last(members, members.len());
            assert forall|k: int| 0 <= k < kept.len() implies names_differ(
                (#[trigger] kept[k]).1,
            ) by {
                let i = choose|i: int|
                    {
                        &&& 0 <= i < members.len()
                        &&& !comes_again(members, i)
                        &&& kept[k] == (#[trigger] members[i].0, last_values(members[i].1))
                    };
                assert(decreases_to!(members => members[i]));
                assert(decreases_to!(json => members[i].1));
                law_names_of_last_values_differ(members[i].1);
            }
            lemma_all_members(kept, kept.len());
        },
        _ => {},
    }
}

proof fn lemma_names_of_items_differ(items: Seq<Json>, n: nat)
    requires
        n <= items.len(),
    ensures
        last_values_of_items(items, n).len() == n,
        forall|k: int| 0 <= k < n ==> names_differ(#[trigger] last_values_of_items(items, n)[k]),
    decreases items, n,
{
    if n > 0 {
        lemma_names_of_items_differ(items, (n - 1) as nat);
        law_names_of_last_values_differ(items[n - 1]);
        let before = last_values_of_items(items, (n - 1) as nat);
        assert forall|k: int| 0 <= k < n implies names_differ(
            #[trigger] last_values_of_items(items, n)[k],
        ) by {
            if k < n - 1 {
                assert(last_values_of_items(items, n)[k] == before[k]);
            }
        }
    }
}

proof fn lemma_all_items(items: Seq<Json>, n: nat)
    requires
        n <= items.len(),
        forall|k: int| 0 <= k < items.len() ==> names_differ(#[trigger] items[k]),
    ensures
        names_differ_in_items(items, n),
    decreases n,
{
    if n > 0 {
        lemma_all_items(items, (n - 1) as nat);
    }
}

proof fn lemma_all_members(members: Seq<(Seq<char>, Json)>, n: nat)
    requires
        n <= members.len(),
        forall|k: int| 0 <= k < members.len() ==> names_differ((#[trigger] members[k]).1),
        forall|j: int, k: int|
            0 <= j < k < members.len() ==> (#[trigger] members[j]).0 != (#[trigger] members[k]).0,
    ensures
        names_differ_in_members(members, n),
    decreases n,
{
    if n > 0 {
        lemma_all_members(members, (n - 1) as nat);
    }
}

/// What a JSON value stands for holds everything that is in the value, in its order: the items of an
/// array, and the name and the value of each member of an object.
pub proof fn law_json_view_holds_everything(value: JsonValue)
    ensures
        match value {
            JsonValue::Null => value@ is Null,
            JsonValue::Bool(b) => value@ == Json::Bool(b),
            JsonValue::Number(n) => value@ == Json::Number(n),
            JsonValue::String(s) => value@ == Json::String(s@),
            JsonValue::Array(items) => {
                &&& value@ matches Json::Array(views)
                &&& views.len() == items@.len()
                &&& forall|i: int| 0 <= i < items@.len() ==> #[trigger] views[i] == items@[i]@
            },
            JsonValue::Object(members) => {
                &&& value@ matches Json::Object(views)
                &&& views.len() == members@.len()
                &&& forall|i: int|
                    0 <= i < members@.len() ==> #[trigger] views[i] == (
                        members@[i].0@,
                        members@[i].1@,
                    )
            },
        },
{
}

/// A value that may be left out stands for nothing exactly where it was left out.
pub proof fn law_option_json_holds_the_value(value: Option<JsonValue>)
    ensures
        match value {
            Some(value) => option_json(Some(value)) == Some(value@),
            None => option_json(value) is None,
        },
{
}

/// The positions among the first `n` of `members` of those that are left.
spec fn last_positions(members: Seq<(Seq<char>, Json)>, n: nat) -> Seq<int>
    decreases n,
{
    if n == 0 || n > members.len() {
        Seq::empty()
    } else if comes_again(members, n - 1) {
        last_positions(members, (n - 1) as nat)
    } else {
        last_positions(members, (n - 1) as nat).push(n - 1)
    }
}

proof fn lemma_last_positions(members: Seq<(Seq<char>, Json)>, n: nat)
    requires
        n <= members.len(),
    ensures
        last_positions(members, n).len() == last_values_of_members(members, n).len(),
        forall|k: int|
            0 <= k < last_positions(members, n).len() ==> {
                &&& 0 <= #[trigger] last_positions(members, n)[k] < n
                &&& !comes_again(members, last_positions(members, n)[k])
                &&& last_values_of_members(members, n)[k] == (
                    members[last_positions(members, n)[k]].0,
                    last_values(members[last_positions(members, n)[k]].1),
                )
            },
        forall|j: int, k: int|
            0 <= j < k < last_positions(members, n).len() ==> #[trigger] last_positions(
                members,
                n,
            )[j] < #[trigger] last_positions(members, n)[k],
        forall|i: int|
            0 <= i < n && !#[trigger] comes_again(members, i) ==> last_positions(
                members,
                n,
            ).contains(i),
    decreases n,
{
    if n > 0 {
        let m = (n - 1) as nat;
        lemma_last_positions(members, m);
        let before = last_positions(members, m);
        let from = last_positions(members, n);
        if !comes_again(members, n - 1) {
            assert(from == before.push(n - 1));
            assert(from[before.len() as int] == n - 1);
            assert forall|i: int| 0 <= i < n && !#[trigger] comes_again(members, i) implies
                from.contains(i) by {
                if i < m {
                    let k = before.index_of(i);
                    assert(from[k] == i);
                }
            }
        }
    }
}

/// What is left once only the last values count.
///
/// Of an array, every item is left in its place. Of an object, exactly those members are left of
/// which the name does not come again further on; they stand in the order in which they stood. All
/// else is left as it is.
pub proof fn law_what_last_values_leaves(json: Json)
    ensures
        match json {
            Json::Array(items) => {
                &&& last_values(json) matches Json::Array(kept)
                &&& kept.len() == items.len()
                &&& forall|i: int|
                    0 <= i < items.len() ==> #[trigger] kept[i] == last_values(items[i])
            },
            Json::Object(members) => {
                &&& last_values(json) matches Json::Object(kept)
                &&& exists|from: Seq<int>|
                    {
                        &&& #[trigger] from.len() == kept.len()
                        &&& forall|k: int|
                            0 <= k < from.len() ==> {
                                &&& 0 <= #[trigger] from[k] < members.len()
                                &&& kept[k].0 == members[from[k]].0
                                &&& kept[k].1 == last_values(members[from[k]].1)
                            }
                        &&& forall|j: int, k: int|
                            0 <= j < k < from.len() ==> #[trigger] from[j] < #[trigger] from[k]
                        &&& forall|i: int|
                            #![trigger members[i]]
                            0 <= i < members.len() ==> (from.contains(i) <==> forall|j: int|
                                i < j < members.len() ==> (#[trigger] members[j]).0
                                    != members[i].0)
                    }
            },
            other => last_values(other) == other,
        },
{
    match json {
        Json::Array(items) => {
            lemma_last_values_by_item(items, items.len());
        },
        Json::Object(members) => {
            lemma_last_positions(members, members.len());
            let from = last_positions(members, members.len());
            let kept = last_values_of_members(members, members.len());
            assert(from.len() == kept.len());
            assert forall|i: int|
                #![trigger members[i]]
                0 <= i < members.len() implies (from.contains(i) <==> forall|j: int|
                i < j < members.len() ==> (#[trigger] members[j]).0 != members[i].0) by {
                if from.contains(i) {
                    let k = from.index_of(i);
                    assert(!comes_again(members, from[k]));
                }
                if forall|j: int|
                    i < j < members.len() ==> (#[trigger] members[j]).0 != members[i].0 {
                    assert(!comes_again(members, i));
                }
            }
        },
        _ => {},
    }
}

proof fn lemma_last_values_by_item(items: Seq<Json>, n: nat)
    requires
        n <= items.len(),
    ensures
        last_values_of_items(items, n).len() == n,
        forall|i: int|
            0 <= i < n ==> #[trigger] last_values_of_items(items, n)[i] == last_values(items[i]),
    decreases n,
{
    if n > 0 {
        lemma_last_values_by_item(items, (n - 1) as nat);
        let before = last_values_of_items(items, (n - 1) as nat);
        assert forall|i: int| 0 <= i < n implies #[trigger] last_values_of_items(items, n)[i]
            == last_values(items[i]) by {
            if i < n - 1 {
                assert(last_values_of_items(items, n)[i] == before[i]);
            }
        }
    }
}

} // verus!
