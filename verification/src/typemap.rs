//! A map from types to one value of each.
use crate::assoc_map::{AssocMap, Key};
use std::any::{Any, TypeId};
use std::marker::PhantomData;
use vstd::prelude::*;

verus! {

/// Declares `std::any::TypeId`, of which nothing is known but what is claimed of it below.
#[verifier::external_type_specification]
#[verifier::external_body]
pub struct ExTypeId(TypeId);

/// A value of which the type is known only at run time: a boxed `std::any::Any`.
#[verifier::external_body]
pub struct Erased {
    value: Box<dyn Any + Send + Sync>,
}

/// The identifier of the type `T`: some function of the type, of which nothing else is known.
pub open spec fn id_of<T>() -> TypeId {
    arbitrary::<spec_fn(PhantomData<T>) -> TypeId>()(PhantomData)
}

/// The identifier of the type that an erased value has.
pub uninterp spec fn erased_type(erased: Erased) -> TypeId;

/// Data that is numbers and texts, several together, and nothing else.
pub enum PlainData {
    Number(int),
    Text(String),
    Several(Seq<PlainData>),
}

/// `code` tells the values of type `T` apart.
pub open spec fn tells_apart<T>(code: spec_fn(T) -> PlainData) -> bool {
    forall|a: T, b: T| #[trigger] code(a) == #[trigger] code(b) ==> a == b
}

/// The values of type `T` can be told apart by plain data.
///
/// Shown below of numbers and texts, and of what is made of them. Of `Vec` and other types whose
/// values are known by their view alone it cannot be shown, and is left unsaid.
pub open spec fn plain<T>() -> bool {
    exists|code: spec_fn(T) -> PlainData| #[trigger] tells_apart(code)
}

/// The plain data of a value: that of another value of the same type is other data, if there is a
/// way at all to tell the values of the type apart by plain data.
///
/// What is said of the values in a map is said of their plain data. It could not be said of the
/// values themselves, whatever their type: there are more functions of erased values, say, than
/// there are erased values.
pub open spec fn data_of<T>(value: T) -> PlainData {
    let code = choose|code: spec_fn(T) -> PlainData| #[trigger] tells_apart(code);
    code(value)
}

/// The plain data of the value that was erased.
pub uninterp spec fn erased_data(erased: Erased) -> PlainData;

/// Calls `std::any::TypeId::of`.
///
/// Claimed of the identifier: it is the one of the type, the same whenever it is asked for. That
/// two types have two identifiers is left unsaid.
#[verifier::external_body]
fn type_id_of<T: 'static>() -> (id: TypeId)
    ensures
        id == id_of::<T>(),
{
    TypeId::of::<T>()
}

/// The `==` of `std::any::TypeId`.
///
/// Claimed of the result: it tells whether the two identifiers are one and the same.
pub assume_specification[ <TypeId as PartialEq>::eq ](a: &TypeId, b: &TypeId) -> (same: bool)
    ensures
        same == (*a == *b),
;

/// Boxes a value as a `dyn std::any::Any`.
///
/// Claimed of the result: it has the type and the plain data of the value.
#[verifier::external_body]
fn erase<T: Send + Sync + 'static>(value: T) -> (erased: Erased)
    ensures
        erased_type(erased) == id_of::<T>(),
        erased_data(erased) == data_of(value),
{
    Erased { value: Box::new(value) }
}

/// Calls `downcast_ref` of `dyn std::any::Any`.
///
/// Claimed of the result: there is one where the value has the type `T`, and it has the plain data
/// of the value.
#[verifier::external_body]
fn downcast_ref<T: 'static>(erased: &Erased) -> (found: Option<&T>)
    ensures
        found is Some <==> erased_type(*erased) == id_of::<T>(),
        found matches Some(value) ==> data_of(*value) == erased_data(*erased),
{
    erased.value.downcast_ref()
}

/// Calls `downcast_mut` of `dyn std::any::Any`.
///
/// Claimed of the result: there is one where the value has the type `T`, and it has the plain data
/// of the value. The value keeps its type, and gets the plain data of what is written through the
/// result.
#[verifier::external_body]
fn downcast_mut<T: 'static>(erased: &mut Erased) -> (found: Option<&mut T>)
    ensures
        found is Some <==> erased_type(*old(erased)) == id_of::<T>(),
        match found {
            Some(value) => {
                &&& data_of(*value) == erased_data(*old(erased))
                &&& data_of(*final(value)) == erased_data(*final(erased))
                &&& erased_type(*final(erased)) == erased_type(*old(erased))
            },
            None => *final(erased) == *old(erased),
        },
{
    erased.value.downcast_mut()
}

/// Calls `downcast` of `Box<dyn std::any::Any>`.
///
/// Claimed of the result: there is one where the value has the type `T`, and it has the plain data
/// of the value.
#[verifier::external_body]
fn downcast<T: 'static>(erased: Erased) -> (found: Option<Box<T>>)
    ensures
        found is Some <==> erased_type(erased) == id_of::<T>(),
        found matches Some(value) ==> data_of(*value) == erased_data(erased),
{
    erased.value.downcast().ok()
}

impl Key for TypeId {
    type Mark = TypeId;

    open spec fn mark(&self) -> TypeId {
        *self
    }

    fn same(&self, other: &Self) -> bool {
        *self == *other
    }
}

/// Holds at most one value of each type.
///
/// Metadata is kept in it that is added at run time, and looked up by its type without this
/// library knowing which types there are.
pub struct TypeMap {
    map: AssocMap<TypeId, Erased>,
}

impl View for TypeMap {
    type V = Map<TypeId, Erased>;

    closed spec fn view(&self) -> Map<TypeId, Erased> {
        self.map@
    }
}

/// The plain data of the value of type `T` in `map`, if there is one.
pub open spec fn data_in<T>(map: Map<TypeId, Erased>) -> Option<PlainData> {
    if map.contains_key(id_of::<T>()) {
        Some(erased_data(map[id_of::<T>()]))
    } else {
        None
    }
}

/// `after` is `before` but for what it holds of type `T`.
pub open spec fn same_but_for<T>(
    before: Map<TypeId, Erased>,
    after: Map<TypeId, Erased>,
) -> bool {
    after.remove(id_of::<T>()) =~= before.remove(id_of::<T>())
}

impl TypeMap {
    /// Each value stands under the identifier of its own type.
    pub closed spec fn wf(&self) -> bool {
        &&& self.map.wf()
        &&& forall|id: TypeId| #[trigger]
            self.map@.contains_key(id) ==> erased_type(self.map@[id]) == id
    }

    /// Creates an empty map.
    pub fn new() -> (map: Self)
        ensures
            map.wf(),
            map@ == Map::<TypeId, Erased>::empty(),
    {
        TypeMap { map: AssocMap::new() }
    }

    /// Puts a value into the map, in place of the one of the same type.
    pub fn insert<T: Send + Sync + 'static>(&mut self, value: T)
        requires
            old(self).wf(),
        ensures
            final(self).wf(),
            data_in::<T>(final(self)@) == Some(data_of(value)),
            same_but_for::<T>(old(self)@, final(self)@),
            final(self)@.len() == old(self)@.len() + if data_in::<T>(old(self)@) is Some {
                0int
            } else {
                1
            },
    {
        self.map.insert(type_id_of::<T>(), erase(value));
        proof {
            old(self).lemma_finite();
            law_length_after_insert::<T>(old(self)@, self@);
        }
    }

    /// Returns the value of type `T`, if there is one.
    pub fn get<T: 'static>(&self) -> (found: Option<&T>)
        requires
            self.wf(),
        ensures
            match found {
                Some(value) => data_in::<T>(self@) == Some(data_of(*value)),
                None => data_in::<T>(self@) is None,
            },
    {
        match self.map.get(&type_id_of::<T>()) {
            Some(erased) => downcast_ref(erased),
            None => None,
        }
    }

    /// Returns the value of type `T` to be changed, if there is one.
    pub fn get_mut<T: 'static>(&mut self) -> (found: Option<&mut T>)
        requires
            old(self).wf(),
        ensures
            final(self).wf(),
            match found {
                Some(value) => {
                    &&& data_in::<T>(old(self)@) == Some(data_of(*value))
                    &&& data_in::<T>(final(self)@) == Some(data_of(*final(value)))
                    &&& same_but_for::<T>(old(self)@, final(self)@)
                },
                None => data_in::<T>(old(self)@) is None && final(self)@ == old(self)@,
            },
    {
        match self.map.get_mut(&type_id_of::<T>()) {
            Some(erased) => downcast_mut(erased),
            None => None,
        }
    }

    /// Returns a clone of the value of type `T`, if there is one.
    pub fn get_clone<T: Clone + 'static>(&self) -> (found: Option<T>)
        requires
            self.wf(),
        ensures
            match found {
                Some(copy) => exists|value: T|
                    data_in::<T>(self@) == Some(#[trigger] data_of(value)) && cloned(value, copy),
                None => data_in::<T>(self@) is None,
            },
    {
        match self.get::<T>() {
            Some(value) => Some(value.clone()),
            None => None,
        }
    }

    /// Returns the value of the type of `value`; if there is none, that becomes `value`.
    pub fn get_or_insert<T: Send + Sync + 'static>(&mut self, value: T) -> (kept: &T)
        requires
            old(self).wf(),
        ensures
            final(self).wf(),
            data_in::<T>(final(self)@) == Some(data_of(*kept)),
            match data_in::<T>(old(self)@) {
                Some(before) => data_of(*kept) == before && final(self)@ == old(self)@,
                None => {
                    &&& data_of(*kept) == data_of(value)
                    &&& same_but_for::<T>(old(self)@, final(self)@)
                    &&& final(self)@.len() == old(self)@.len() + 1
                },
            },
    {
        if !self.contains::<T>() {
            self.insert(value);
        }
        match self.get::<T>() {
            Some(kept) => kept,
            None => vstd::pervasive::unreached(),
        }
    }

    /// Tells whether there is a value of type `T`.
    pub fn contains<T: 'static>(&self) -> (found: bool)
        requires
            self.wf(),
        ensures
            found == (data_in::<T>(self@) is Some),
    {
        self.map.contains_key(&type_id_of::<T>())
    }

    /// Takes the value of type `T` out of the map, if there is one.
    pub fn remove<T: 'static>(&mut self) -> (removed: Option<Box<T>>)
        requires
            old(self).wf(),
        ensures
            final(self).wf(),
            final(self)@ == old(self)@.remove(id_of::<T>()),
            match removed {
                Some(value) => data_in::<T>(old(self)@) == Some(data_of(*value)),
                None => data_in::<T>(old(self)@) is None,
            },
            final(self)@.len() == old(self)@.len() - if removed is Some {
                1int
            } else {
                0
            },
    {
        proof {
            self.lemma_finite();
            law_length_after_remove::<T>(self@);
        }
        match self.map.remove(&type_id_of::<T>()) {
            Some(erased) => downcast(erased),
            None => None,
        }
    }

    /// Takes all values out of the map.
    pub fn clear(&mut self)
        ensures
            final(self).wf(),
            final(self)@ == Map::<TypeId, Erased>::empty(),
    {
        self.map = AssocMap::new();
    }

    /// There are finitely many values.
    pub proof fn lemma_finite(&self)
        requires
            self.wf(),
        ensures
            self@.dom().finite(),
    {
        self.map.lemma_finite();
    }

    /// Returns how many values there are.
    pub fn len(&self) -> (len: usize)
        requires
            self.wf(),
        ensures
            self@.dom().finite(),
            len == self@.len(),
    {
        self.map.len()
    }

    /// Tells whether there are no values.
    pub fn is_empty(&self) -> (empty: bool)
        requires
            self.wf(),
        ensures
            empty == (self@ == Map::<TypeId, Erased>::empty()),
            empty == (self@.len() == 0),
    {
        self.map.is_empty()
    }
}

impl Default for TypeMap {
    fn default() -> (map: Self)
        ensures
            map.wf(),
            map@ == Map::<TypeId, Erased>::empty(),
    {
        TypeMap::new()
    }
}

/// To put a value into the map makes it longer by one, unless it takes the place of another.
pub proof fn law_length_after_insert<T>(before: Map<TypeId, Erased>, after: Map<TypeId, Erased>)
    requires
        before.dom().finite(),
        same_but_for::<T>(before, after),
        data_in::<T>(after) is Some,
    ensures
        after.dom().finite(),
        after.len() == before.len() + if data_in::<T>(before) is Some {
            0int
        } else {
            1
        },
{
    let id = id_of::<T>();
    assert(after =~= before.insert(id, after[id])) by {
        assert forall|other: TypeId| other != id implies after.contains_key(other)
            == before.contains_key(other) && after[other] == before[other] by {
            assert(after.remove(id).contains_key(other) == before.remove(id).contains_key(other));
            assert(after.remove(id)[other] == before.remove(id)[other]);
        }
    }
    assert(after.dom() =~= before.dom().insert(id));
}

/// To take a value out of the map makes it shorter by one, if there is one.
pub proof fn law_length_after_remove<T>(before: Map<TypeId, Erased>)
    requires
        before.dom().finite(),
    ensures
        before.remove(id_of::<T>()).dom().finite(),
        before.remove(id_of::<T>()).len() == before.len() - if data_in::<T>(before) is Some {
            1int
        } else {
            0
        },
        data_in::<T>(before.remove(id_of::<T>())) is None,
        same_but_for::<T>(before, before.remove(id_of::<T>())),
{
    let id = id_of::<T>();
    assert(before.remove(id).dom() =~= before.dom().remove(id));
}

/// The map is empty if and only if its length is zero, and then it holds no value of any type.
pub proof fn law_empty_map_holds_nothing<T>(map: Map<TypeId, Erased>)
    requires
        map.dom().finite(),
    ensures
        map == Map::<TypeId, Erased>::empty() <==> map.len() == 0,
        map == Map::<TypeId, Erased>::empty() ==> data_in::<T>(map) is None,
{
    if map.len() == 0 {
        assert(map.dom() =~= Set::<TypeId>::empty());
        assert(map =~= Map::<TypeId, Erased>::empty());
    }
}

/// To put a value into the map, or to take one out, leaves the values of all types alone that have
/// another identifier.
pub proof fn law_other_types_are_left_alone<T, U>(
    before: Map<TypeId, Erased>,
    after: Map<TypeId, Erased>,
)
    requires
        same_but_for::<T>(before, after),
        id_of::<T>() != id_of::<U>(),
    ensures
        data_in::<U>(after) == data_in::<U>(before),
{
    let id = id_of::<U>();
    assert(after.remove(id_of::<T>()).contains_key(id) == before.remove(
        id_of::<T>(),
    ).contains_key(id));
    assert(after.remove(id_of::<T>())[id] == before.remove(id_of::<T>())[id]);
}

/// What was put into a map is what is had back from it, and not something else of the same type:
/// two values that have the plain data in the map are one and the same.
pub proof fn law_value_put_in_is_had_back<T>(map: Map<TypeId, Erased>, put: T, got: T)
    requires
        plain::<T>(),
        data_in::<T>(map) == Some(data_of(put)),
        data_in::<T>(map) == Some(data_of(got)),
    ensures
        got == put,
{
}

/// The integers are plain.
pub proof fn lemma_integers_are_plain()
    ensures
        plain::<u8>(),
        plain::<u16>(),
        plain::<u32>(),
        plain::<u64>(),
        plain::<u128>(),
        plain::<usize>(),
        plain::<i8>(),
        plain::<i16>(),
        plain::<i32>(),
        plain::<i64>(),
        plain::<i128>(),
        plain::<isize>(),
{
    assert(tells_apart(|n: u8| PlainData::Number(n as int)));
    assert(tells_apart(|n: u16| PlainData::Number(n as int)));
    assert(tells_apart(|n: u32| PlainData::Number(n as int)));
    assert(tells_apart(|n: u64| PlainData::Number(n as int)));
    assert(tells_apart(|n: u128| PlainData::Number(n as int)));
    assert(tells_apart(|n: usize| PlainData::Number(n as int)));
    assert(tells_apart(|n: i8| PlainData::Number(n as int)));
    assert(tells_apart(|n: i16| PlainData::Number(n as int)));
    assert(tells_apart(|n: i32| PlainData::Number(n as int)));
    assert(tells_apart(|n: i64| PlainData::Number(n as int)));
    assert(tells_apart(|n: i128| PlainData::Number(n as int)));
    assert(tells_apart(|n: isize| PlainData::Number(n as int)));
}

/// Truth values, characters and the unit are plain.
pub proof fn lemma_small_types_are_plain()
    ensures
        plain::<bool>(),
        plain::<char>(),
        plain::<()>(),
{
    assert(tells_apart(
        |b: bool|
            PlainData::Number(
                if b {
                    1
                } else {
                    0
                },
            ),
    ));
    assert(tells_apart(|c: char| PlainData::Number(c as int)));
    assert(tells_apart(|unit: ()| PlainData::Number(0)));
}

/// Texts are plain.
pub proof fn lemma_texts_are_plain()
    ensures
        plain::<String>(),
{
    assert(tells_apart(|text: String| PlainData::Text(text)));
}

/// Pairs of plain values are plain.
pub proof fn lemma_pairs_are_plain<T, U>()
    requires
        plain::<T>(),
        plain::<U>(),
    ensures
        plain::<(T, U)>(),
{
    let first = choose|code: spec_fn(T) -> PlainData| #[trigger] tells_apart(code);
    let second = choose|code: spec_fn(U) -> PlainData| #[trigger] tells_apart(code);
    let code = |pair: (T, U)| PlainData::Several(seq![first(pair.0), second(pair.1)]);
    assert forall|a: (T, U), b: (T, U)| #[trigger] code(a) == #[trigger] code(b) implies a
        == b by {
        assert(code(a)->Several_0[0] == first(a.0) && code(a)->Several_0[1] == second(a.1));
        assert(code(b)->Several_0[0] == first(b.0) && code(b)->Several_0[1] == second(b.1));
    }
    assert(tells_apart(code));
}

/// Plain values that may be left out are plain.
pub proof fn lemma_options_are_plain<T>()
    requires
        plain::<T>(),
    ensures
        plain::<Option<T>>(),
{
    let inner = choose|code: spec_fn(T) -> PlainData| #[trigger] tells_apart(code);
    let code = |value: Option<T>|
        match value {
            Some(value) => PlainData::Several(seq![inner(value)]),
            None => PlainData::Several(Seq::empty()),
        };
    assert forall|a: Option<T>, b: Option<T>| #[trigger] code(a) == #[trigger] code(b) implies a
        == b by {
        assert(code(a)->Several_0.len() == code(b)->Several_0.len());
        if a is Some && b is Some {
            assert(code(a)->Several_0[0] == inner(a->Some_0));
            assert(code(b)->Several_0[0] == inner(b->Some_0));
        }
    }
    assert(tells_apart(code));
}

/// A type is plain if its values can be told apart by values of a plain type, as those of a struct
/// with plain fields can.
pub proof fn lemma_told_apart_is_plain<T, U>(part: spec_fn(T) -> U)
    requires
        plain::<U>(),
        forall|a: T, b: T| #[trigger] part(a) == #[trigger] part(b) ==> a == b,
    ensures
        plain::<T>(),
{
    let inner = choose|code: spec_fn(U) -> PlainData| #[trigger] tells_apart(code);
    let code = |value: T| inner(part(value));
    assert forall|a: T, b: T| #[trigger] code(a) == #[trigger] code(b) implies a == b by {
        assert(inner(part(a)) == inner(part(b)));
    }
    assert(tells_apart(code));
}

} // verus!
