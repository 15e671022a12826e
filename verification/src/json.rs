//! JSON documents as a tagged value.

use crate::errors::FfiError;
use crate::json_path::{find_index, find_member, lemma_find_index_bounds};
use vstd::prelude::*;

verus! {

broadcast use {vstd::string::group_string_axioms, vstd::std_specs::vec::group_vec_axioms};

/// A JSON number: a whole number from zero up, a whole number below zero, or
/// a finite floating-point number, kept as the 64 bits that encode it.
#[derive(Clone, Copy, Debug, PartialEq, Eq, Structural)]
pub enum JsonNumber {
    PosInt(u64),
    NegInt(i64),
    Float(u64),
}

/// A JSON document.
#[derive(Debug)]
pub enum JsonValue {
    Null,
    Bool(bool),
    Number(JsonNumber),
    String(String),
    Array(Vec<JsonValue>),
    /// The members in the order they are held. A lookup takes the first
    /// member of the name.
    Object(Vec<(String, JsonValue)>),
}

/// A JSON document as plain values.
pub enum JsonModel {
    Null,
    Bool(bool),
    Number(JsonNumber),
    String(Seq<char>),
    Array(Seq<JsonModel>),
    Object(Seq<(Seq<char>, JsonModel)>),
}

impl JsonValue {
    /// The document as plain values.
    pub open spec fn model(self) -> JsonModel
        decreases self,
    {
        match self {
            JsonValue::Null => JsonModel::Null,
            JsonValue::Bool(b) => JsonModel::Bool(b),
            JsonValue::Number(n) => JsonModel::Number(n),
            JsonValue::String(s) => JsonModel::String(s@),
            JsonValue::Array(items) => JsonModel::Array(
                Seq::new(
                    items@.len(),
                    |i: int|
                        if 0 <= i < items@.len() {
                            items@[i].model()
                        } else {
                            JsonModel::Null
                        },
                ),
            ),
            JsonValue::Object(members) => JsonModel::Object(
                Seq::new(
                    members@.len(),
                    |i: int|
                        if 0 <= i < members@.len() {
                            (members@[i].0@, members@[i].1.model())
                        } else {
                            (Seq::empty(), JsonModel::Null)
                        },
                ),
            ),
        }
    }
}

impl View for JsonValue {
    type V = JsonModel;

    open spec fn view(&self) -> JsonModel {
        self.model()
    }
}

/// What an object is as plain values: its members, each by its name and its
/// own plain value, in the order they are held.
pub proof fn lemma_object_view(members: Vec<(String, JsonValue)>)
    ensures
        JsonValue::Object(members)@ is Object,
        JsonValue::Object(members)@->Object_0.len() == members@.len(),
        forall|i: int|
            0 <= i < members@.len() ==> (#[trigger] JsonValue::Object(members)@->Object_0[i]) == (
                members@[i].0@,
                members@[i].1@,
            ),
{
    reveal_with_fuel(JsonValue::model, 2);
}

/// What an array is as plain values: its items, each by its own plain value.
pub proof fn lemma_array_view(items: Vec<JsonValue>)
    ensures
        JsonValue::Array(items)@ is Array,
        JsonValue::Array(items)@->Array_0.len() == items@.len(),
        forall|i: int|
            0 <= i < items@.len() ==> (#[trigger] JsonValue::Array(items)@->Array_0[i])
                == items@[i]@,
{
    reveal_with_fuel(JsonValue::model, 2);
}

/// The bits of the floating-point number minus zero.
pub const NEGATIVE_ZERO_BITS: u64 = 0x8000_0000_0000_0000;

impl JsonNumber {
    /// The number as a signed 64-bit integer, if it is a whole number that
    /// fits.
    pub open spec fn to_i64(self) -> Option<i64> {
        match self {
            JsonNumber::PosInt(n) => if n <= i64::MAX {
                Some(n as i64)
            } else {
                None
            },
            JsonNumber::NegInt(n) => Some(n),
            JsonNumber::Float(_) => None,
        }
    }

    /// The number as an unsigned 64-bit integer, if it is a whole number from
    /// zero up.
    pub open spec fn to_u64(self) -> Option<u64> {
        match self {
            JsonNumber::PosInt(n) => Some(n),
            _ => None,
        }
    }

    /// The number that stands for a signed integer.
    pub open spec fn of_i64(value: i64) -> JsonNumber {
        if value < 0 {
            JsonNumber::NegInt(value)
        } else {
            JsonNumber::PosInt(value as u64)
        }
    }

    /// Whether two numbers are equal: of the same kind and the same value,
    /// where the two floating-point zeros are one value.
    pub open spec fn same(self, other: JsonNumber) -> bool {
        match (self, other) {
            (JsonNumber::PosInt(a), JsonNumber::PosInt(b)) => a == b,
            (JsonNumber::NegInt(a), JsonNumber::NegInt(b)) => a == b,
            (JsonNumber::Float(a), JsonNumber::Float(b)) => a == b || ((a == 0 || a
                == NEGATIVE_ZERO_BITS) && (b == 0 || b == NEGATIVE_ZERO_BITS)),
            _ => false,
        }
    }

    pub fn as_i64(&self) -> (value: Option<i64>)
        ensures
            value == self.to_i64(),
    {
        match self {
            JsonNumber::PosInt(n) => {
                if *n <= 0x7fff_ffff_ffff_ffff {
                    Some(*n as i64)
                } else {
                    None
                }
            },
            JsonNumber::NegInt(n) => Some(*n),
            JsonNumber::Float(_) => None,
        }
    }

    pub fn as_u64(&self) -> (value: Option<u64>)
        ensures
            value == self.to_u64(),
    {
        match self {
            JsonNumber::PosInt(n) => Some(*n),
            _ => None,
        }
    }

    pub fn from_i64(value: i64) -> (number: JsonNumber)
        ensures
            number == JsonNumber::of_i64(value),
    {
        if value < 0 {
            JsonNumber::NegInt(value)
        } else {
            JsonNumber::PosInt(value as u64)
        }
    }

    pub fn equals(&self, other: &JsonNumber) -> (equal: bool)
        ensures
            equal == self.same(*other),
    {
        match (self, other) {
            (JsonNumber::PosInt(a), JsonNumber::PosInt(b)) => *a == *b,
            (JsonNumber::NegInt(a), JsonNumber::NegInt(b)) => *a == *b,
            (JsonNumber::Float(a), JsonNumber::Float(b)) => *a == *b || ((*a == 0 || *a
                == NEGATIVE_ZERO_BITS) && (*b == 0 || *b == NEGATIVE_ZERO_BITS)),
            _ => false,
        }
    }
}

/// Whether the 64 bits encode a finite floating-point number: the eleven
/// bits of the exponent are not all set.
pub open spec fn float_bits_finite(bits: u64) -> bool {
    (bits >> 52) & 0x7ff != 0x7ff
}

/// The JSON value of a floating-point number given by its bits: the number
/// if it is finite, null if it is not.
pub open spec fn float_model(bits: u64) -> JsonModel {
    if float_bits_finite(bits) {
        JsonModel::Number(JsonNumber::Float(bits))
    } else {
        JsonModel::Null
    }
}

impl JsonValue {
    /// The JSON value of a floating-point number given by its bits.
    pub fn from_float_bits(bits: u64) -> (value: JsonValue)
        ensures
            value@ == float_model(bits),
    {
        if (bits >> 52) & 0x7ff != 0x7ff {
            JsonValue::Number(JsonNumber::Float(bits))
        } else {
            JsonValue::Null
        }
    }
}

impl JsonModel {
    /// The code that the host knows a kind of value by.
    pub open spec fn type_code(self) -> int {
        match self {
            JsonModel::Null => 1,
            JsonModel::String(_) => 2,
            JsonModel::Number(_) => 3,
            JsonModel::Object(_) => 4,
            JsonModel::Array(_) => 5,
            JsonModel::Bool(_) => 6,
        }
    }
}

impl JsonValue {
    /// The code that the host knows this kind of value by.
    pub fn type_code(&self) -> (code: isize)
        ensures
            code == self@.type_code(),
    {
        match self {
            JsonValue::Null => 1,
            JsonValue::String(_) => 2,
            JsonValue::Number(_) => 3,
            JsonValue::Object(_) => 4,
            JsonValue::Array(_) => 5,
            JsonValue::Bool(_) => 6,
        }
    }

    pub fn is_object(&self) -> (yes: bool)
        ensures
            yes == (self@ is Object),
    {
        match self {
            JsonValue::Object(_) => true,
            _ => false,
        }
    }

    pub fn is_array(&self) -> (yes: bool)
        ensures
            yes == (self@ is Array),
    {
        match self {
            JsonValue::Array(_) => true,
            _ => false,
        }
    }

    /// The number, if this is a whole number from zero up.
    pub fn as_u64(&self) -> (value: Option<u64>)
        ensures
            value == (match self@ {
                JsonModel::Number(n) => n.to_u64(),
                _ => None,
            }),
    {
        match self {
            JsonValue::Number(n) => n.as_u64(),
            _ => None,
        }
    }

    /// The number, if this is a whole number that fits 64 bits with a sign.
    pub fn as_i64(&self) -> (value: Option<i64>)
        ensures
            value == (match self@ {
                JsonModel::Number(n) => n.to_i64(),
                _ => None,
            }),
    {
        match self {
            JsonValue::Number(n) => n.as_i64(),
            _ => None,
        }
    }

    pub fn as_bool(&self) -> (value: Option<bool>)
        ensures
            value == (match self@ {
                JsonModel::Bool(b) => Some(b),
                _ => None,
            }),
    {
        match self {
            JsonValue::Bool(b) => Some(*b),
            _ => None,
        }
    }

    pub fn as_str<'a>(&'a self) -> (value: Option<&'a str>)
        ensures
            match value {
                Some(text) => self@ == JsonModel::String(text@),
                None => !(self@ is String),
            },
    {
        match self {
            JsonValue::String(s) => Some(s.as_str()),
            _ => None,
        }
    }

    /// An independent copy of the whole document.
    pub fn duplicate(&self) -> (copy: JsonValue)
        ensures
            copy@ == self@,
        decreases self,
    {
        match self {
            JsonValue::Null => JsonValue::Null,
            JsonValue::Bool(b) => JsonValue::Bool(*b),
            JsonValue::Number(n) => JsonValue::Number(*n),
            JsonValue::String(s) => JsonValue::String(s.clone()),
            JsonValue::Array(items) => {
                let mut copies: Vec<JsonValue> = Vec::new();
                let mut i: usize = 0;
                while i < items.len()
                    invariant
                        i <= items.len(),
                        copies.len() == i,
                        *self == JsonValue::Array(*items),
                        forall|j: int| 0 <= j < i ==> (#[trigger] copies[j])@ == items[j]@,
                    decreases items.len() - i,
                {
                    proof {
                        vstd::std_specs::vec::axiom_vec_index_decreases(*items, i as int);
                        assert(self->Array_0 == *items);
                        assert(decreases_to!(*self => self->Array_0));
                        assert(decreases_to!(*self => items[i as int]));
                    }
                    copies.push(items[i].duplicate());
                    i = i + 1;
                }
                proof {
                    lemma_array_view(*items);
                    lemma_array_view(copies);
                    assert(JsonValue::Array(copies)@->Array_0 =~= self@->Array_0);
                }
                JsonValue::Array(copies)
            },
            JsonValue::Object(members) => {
                let mut copies: Vec<(String, JsonValue)> = Vec::new();
                let mut i: usize = 0;
                while i < members.len()
                    invariant
                        i <= members.len(),
                        copies.len() == i,
                        *self == JsonValue::Object(*members),
                        forall|j: int|
                            0 <= j < i ==> (#[trigger] copies[j]).0@ == members[j].0@
                                && copies[j].1@ == members[j].1@,
                    decreases members.len() - i,
                {
                    let name = members[i].0.clone();
                    proof {
                        vstd::std_specs::vec::axiom_vec_index_decreases(*members, i as int);
                        assert(self->Object_0 == *members);
                        assert(decreases_to!(*self => self->Object_0));
                        assert(decreases_to!(*self => members[i as int].1));
                    }
                    let value = members[i].1.duplicate();
                    copies.push((name, value));
                    i = i + 1;
                }
                proof {
                    lemma_object_view(*members);
                    lemma_object_view(copies);
                    assert(JsonValue::Object(copies)@->Object_0 =~= self@->Object_0);
                }
                JsonValue::Object(copies)
            },
        }
    }
}

impl JsonModel {
    /// The text of a string value.
    pub open spec fn string(self) -> Result<Seq<char>, FfiError> {
        match self {
            JsonModel::String(text) => Ok(text),
            _ => Err(FfiError::NotString),
        }
    }

    /// The number of a number value.
    pub open spec fn number(self) -> Result<JsonNumber, FfiError> {
        match self {
            JsonModel::Number(number) => Ok(number),
            _ => Err(FfiError::NotNumber),
        }
    }

    /// The integer of a number value.
    pub open spec fn integer(self) -> Result<i64, FfiError> {
        match self {
            JsonModel::Number(number) => match number.to_i64() {
                Some(value) => Ok(value),
                None => Err(FfiError::NumberNotInteger),
            },
            _ => Err(FfiError::NotNumber),
        }
    }

    /// The truth value of a boolean value.
    pub open spec fn boolean(self) -> Result<bool, FfiError> {
        match self {
            JsonModel::Bool(value) => Ok(value),
            _ => Err(FfiError::NotBool),
        }
    }
}

impl JsonValue {
    /// The text of a string value.
    pub fn get_string<'a>(&'a self) -> (text: Result<&'a str, FfiError>)
        ensures
            match text {
                Ok(text) => self@.string() == Ok::<Seq<char>, FfiError>(text@),
                Err(error) => self@.string() == Err::<Seq<char>, FfiError>(error),
            },
    {
        match self {
            JsonValue::String(text) => Ok(text.as_str()),
            _ => Err(FfiError::NotString),
        }
    }

    /// The number of a number value, whatever its kind.
    pub fn get_number_value(&self) -> (number: Result<JsonNumber, FfiError>)
        ensures
            number == self@.number(),
    {
        match self {
            JsonValue::Number(number) => Ok(*number),
            _ => Err(FfiError::NotNumber),
        }
    }

    /// The integer of a number value.
    pub fn get_number(&self) -> (value: Result<i64, FfiError>)
        ensures
            value == self@.integer(),
    {
        match self {
            JsonValue::Number(number) => match number.as_i64() {
                Some(value) => Ok(value),
                None => Err(FfiError::NumberNotInteger),
            },
            _ => Err(FfiError::NotNumber),
        }
    }

    /// The truth value of a boolean value.
    pub fn get_bool(&self) -> (value: Result<bool, FfiError>)
        ensures
            value == self@.boolean(),
    {
        match self {
            JsonValue::Bool(value) => Ok(*value),
            _ => Err(FfiError::NotBool),
        }
    }
}

/// Whether two documents are the same JSON: the same kind with the same
/// content, arrays item by item, objects as sets of members whatever their
/// order, numbers as `JsonNumber::same` says.
pub open spec fn json_eq(a: JsonModel, b: JsonModel) -> bool
    decreases a, 0nat,
{
    match (a, b) {
        (JsonModel::Null, JsonModel::Null) => true,
        (JsonModel::Bool(x), JsonModel::Bool(y)) => x == y,
        (JsonModel::Number(x), JsonModel::Number(y)) => x.same(y),
        (JsonModel::String(x), JsonModel::String(y)) => x == y,
        (JsonModel::Array(x), JsonModel::Array(y)) => {
            &&& x.len() == y.len()
            &&& forall|i: int| 0 <= i < x.len() ==> json_eq(#[trigger] x[i], y[i])
        },
        (JsonModel::Object(x), JsonModel::Object(y)) => {
            &&& x.len() == y.len()
            &&& forall|i: int| 0 <= i < x.len() ==> member_matches(#[trigger] x[i], y)
        },
        _ => false,
    }
}

/// Whether `members` has a member of the name of `member`, with an equal
/// value.
pub open spec fn member_matches(
    member: (Seq<char>, JsonModel),
    members: Seq<(Seq<char>, JsonModel)>,
) -> bool
    decreases member.1, 1nat,
{
    match find_member(members, member.0, 0) {
        Some(value) => json_eq(member.1, value),
        None => false,
    }
}

impl JsonValue {
    /// Compares two documents.
    pub fn equals(&self, other: &JsonValue) -> (equal: bool)
        ensures
            equal == json_eq(self@, other@),
        decreases self,
    {
        match (self, other) {
            (JsonValue::Null, JsonValue::Null) => true,
            (JsonValue::Bool(x), JsonValue::Bool(y)) => *x == *y,
            (JsonValue::Number(x), JsonValue::Number(y)) => x.equals(y),
            (JsonValue::String(x), JsonValue::String(y)) => *x == *y,
            (JsonValue::Array(x), JsonValue::Array(y)) => {
                proof {
                    lemma_array_view(*x);
                    lemma_array_view(*y);
                }
                if x.len() != y.len() {
                    return false;
                }
                let mut i: usize = 0;
                while i < x.len()
                    invariant
                        i <= x.len(),
                        x.len() == y.len(),
                        *self == JsonValue::Array(*x),
                        *other == JsonValue::Array(*y),
                        forall|j: int| 0 <= j < i ==> json_eq(#[trigger] x[j]@, y[j]@),
                    decreases x.len() - i,
                {
                    proof {
                        lemma_array_view(*x);
                        lemma_array_view(*y);
                        vstd::std_specs::vec::axiom_vec_index_decreases(*x, i as int);
                        assert(self->Array_0 == *x);
                        assert(decreases_to!(*self => self->Array_0));
                    }
                    if !x[i].equals(&y[i]) {
                        assert(!json_eq(self@->Array_0[i as int], other@->Array_0[i as int]));
                        return false;
                    }
                    i = i + 1;
                }
                true
            },
            (JsonValue::Object(x), JsonValue::Object(y)) => {
                proof {
                    lemma_object_view(*x);
                    lemma_object_view(*y);
                }
                if x.len() != y.len() {
                    return false;
                }
                let mut i: usize = 0;
                while i < x.len()
                    invariant
                        i <= x.len(),
                        x.len() == y.len(),
                        *self == JsonValue::Object(*x),
                        *other == JsonValue::Object(*y),
                        forall|j: int|
                            0 <= j < i ==> member_matches(
                                #[trigger] self@->Object_0[j],
                                other@->Object_0,
                            ),
                    decreases x.len() - i,
                {
                    proof {
                        lemma_object_view(*x);
                        lemma_object_view(*y);
                        vstd::std_specs::vec::axiom_vec_index_decreases(*x, i as int);
                        assert(self->Object_0 == *x);
                        assert(decreases_to!(*self => self->Object_0));
                    }
                    let matched = match other.index_safe(x[i].0.as_str()) {
                        Ok(value) => x[i].1.equals(value),
                        Err(_) => false,
                    };
                    if !matched {
                        assert(!member_matches(self@->Object_0[i as int], other@->Object_0));
                        return false;
                    }
                    i = i + 1;
                }
                true
            },
            _ => false,
        }
    }
}

/// Whether no object in the document has two members of one name.
pub open spec fn names_distinct(value: JsonModel) -> bool
    decreases value,
{
    match value {
        JsonModel::Array(items) => forall|i: int|
            0 <= i < items.len() ==> names_distinct(#[trigger] items[i]),
        JsonModel::Object(members) => {
            &&& forall|i: int, j: int|
                0 <= i < j < members.len() ==> (#[trigger] members[i]).0 != (
                #[trigger] members[j]).0
            &&& forall|i: int| 0 <= i < members.len() ==> names_distinct((#[trigger] members[i]).1)
        },
        _ => true,
    }
}

/// A document in which no object has two members of one name is the same
/// JSON as itself. (With a name twice in an object, only the first of the
/// two members is ever found, so the second finds no equal.)
pub proof fn lemma_json_eq_reflexive(value: JsonModel)
    requires
        names_distinct(value),
    ensures
        json_eq(value, value),
    decreases value,
{
    match value {
        JsonModel::Array(items) => {
            assert forall|i: int| 0 <= i < items.len() implies json_eq(
                #[trigger] items[i],
                items[i],
            ) by {
                lemma_json_eq_reflexive(items[i]);
            }
        },
        JsonModel::Object(members) => {
            assert forall|i: int| 0 <= i < members.len() implies member_matches(
                #[trigger] members[i],
                members,
            ) by {
                lemma_find_index_bounds(members, members[i].0, 0);
                let place = find_index(members, members[i].0, 0);
                if place < i {
                    assert(members[place].0 != members[i].0);
                }
                assert(place == i);
                lemma_json_eq_reflexive(members[i].1);
            }
        },
        JsonModel::Number(number) => {},
        _ => {},
    }
}

} // verus!
