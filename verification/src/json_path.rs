//! Names looked up in a JSON document: one member name, or a dotted path
//! that goes one object deeper with each name.

use crate::errors::PathError;
use crate::json::{lemma_object_view, JsonModel, JsonValue};
use crate::text::chars_of;
use vstd::prelude::*;

verus! {

broadcast use {vstd::string::group_string_axioms, vstd::std_specs::vec::group_vec_axioms};

/// The place of the first member named `key` among `members[from..]`, or the
/// number of members if there is none.
pub open spec fn find_index(members: Seq<(Seq<char>, JsonModel)>, key: Seq<char>, from: int) -> int
    decreases members.len() - from,
{
    if from < 0 || from >= members.len() {
        members.len() as int
    } else if members[from].0 == key {
        from
    } else {
        find_index(members, key, from + 1)
    }
}

/// The value of the first member named `key` among `members[from..]`.
pub open spec fn find_member(
    members: Seq<(Seq<char>, JsonModel)>,
    key: Seq<char>,
    from: int,
) -> Option<JsonModel> {
    let place = find_index(members, key, from);
    if 0 <= place < members.len() {
        Some(members[place].1)
    } else {
        None
    }
}

/// Where a search finds a member, that member has the name searched for and
/// no member from the start of the search up to it has.
pub proof fn lemma_find_index_bounds(members: Seq<(Seq<char>, JsonModel)>, key: Seq<char>, from: int)
    requires
        0 <= from <= members.len(),
    ensures
        from <= find_index(members, key, from) <= members.len(),
        find_index(members, key, from) < members.len() ==> members[find_index(
            members,
            key,
            from,
        )].0 == key,
        forall|i: int| from <= i < find_index(members, key, from) ==> (#[trigger] members[i]).0 != key,
    decreases members.len() - from,
{
    if from < members.len() && members[from].0 != key {
        lemma_find_index_bounds(members, key, from + 1);
    }
}

/// The place of the first dot in `path[from..]`, or the length of `path` if
/// there is none.
pub open spec fn first_dot(path: Seq<char>, from: int) -> int
    decreases path.len() - from,
{
    if from < 0 || from >= path.len() {
        path.len() as int
    } else if path[from] == '.' {
        from
    } else {
        first_dot(path, from + 1)
    }
}

/// The first dot lies between where the search starts and the end of the
/// path, and no dot comes before it.
pub proof fn lemma_first_dot_bounds(path: Seq<char>, from: int)
    requires
        0 <= from <= path.len(),
    ensures
        from <= first_dot(path, from) <= path.len(),
        first_dot(path, from) < path.len() ==> path[first_dot(path, from)] == '.',
        forall|i: int| from <= i < first_dot(path, from) ==> path[i] != '.',
    decreases path.len() - from,
{
    if from < path.len() && path[from] != '.' {
        lemma_first_dot_bounds(path, from + 1);
    }
}

impl JsonModel {
    /// The member named `key` of an object. Anything but an object has no
    /// members.
    pub open spec fn member(self, key: Seq<char>) -> Result<JsonModel, PathError> {
        match self {
            JsonModel::Object(members) => match find_member(members, key, 0) {
                Some(value) => Ok(value),
                None => Err(PathError::MissingKey),
            },
            _ => Err(PathError::NotAnObject),
        }
    }

    /// Follows the names of `path[from..]`, which dots separate, one object
    /// deeper with each name. The names are taken from left to right, and the
    /// first that fails decides the error: an empty name, a value that is no
    /// object, or an object without that member.
    pub open spec fn dot_lookup_from(self, path: Seq<char>, from: int) -> Result<
        JsonModel,
        PathError,
    >
        decreases path.len() - from,
    {
        let end = first_dot(path, from);
        if from < 0 || from > path.len() || end <= from {
            Err(PathError::EmptySegment)
        } else {
            match self.member(path.subrange(from, end)) {
                Err(error) => Err(error),
                Ok(child) => if end >= path.len() {
                    Ok(child)
                } else {
                    child.dot_lookup_from(path, end + 1)
                },
            }
        }
    }

    /// Follows a dotted path from this value.
    pub open spec fn dot_lookup(self, path: Seq<char>) -> Result<JsonModel, PathError> {
        self.dot_lookup_from(path, 0)
    }

    /// Looks `name` up as a dotted path, or as one member name with any dots
    /// taken literally.
    pub open spec fn selective_lookup(self, name: Seq<char>, dot_notation: bool) -> Result<
        JsonModel,
        PathError,
    > {
        if dot_notation {
            self.dot_lookup(name)
        } else {
            self.member(name)
        }
    }
}

impl JsonModel {
    /// This object with the value of its first member named `key` replaced
    /// by `new`. Without such a member, and for anything but an object, the
    /// value itself.
    pub open spec fn with_member(self, key: Seq<char>, new: JsonModel) -> JsonModel {
        match self {
            JsonModel::Object(members) => {
                let place = find_index(members, key, 0);
                if 0 <= place < members.len() {
                    JsonModel::Object(members.update(place, (members[place].0, new)))
                } else {
                    self
                }
            },
            _ => self,
        }
    }

    /// This value with what `path[from..]` leads to replaced by `new`. Where
    /// the path leads nowhere, the value itself.
    pub open spec fn dot_replaced_from(self, path: Seq<char>, from: int, new: JsonModel) -> JsonModel
        decreases path.len() - from,
    {
        let end = first_dot(path, from);
        if from < 0 || from > path.len() || end <= from {
            self
        } else {
            let name = path.subrange(from, end);
            match self.member(name) {
                Err(_) => self,
                Ok(child) => if end >= path.len() {
                    self.with_member(name, new)
                } else {
                    self.with_member(name, child.dot_replaced_from(path, end + 1, new))
                },
            }
        }
    }

    /// This value with what the dotted path leads to replaced by `new`.
    pub open spec fn dot_replaced(self, path: Seq<char>, new: JsonModel) -> JsonModel {
        self.dot_replaced_from(path, 0, new)
    }

    /// This value with what `name` leads to replaced by `new`, where `name`
    /// is a dotted path or one member name.
    pub open spec fn selective_replaced(
        self,
        name: Seq<char>,
        dot_notation: bool,
        new: JsonModel,
    ) -> JsonModel {
        if dot_notation {
            self.dot_replaced(name, new)
        } else {
            self.with_member(name, new)
        }
    }
}

/// Putting a member's own value back in its place changes nothing.
pub proof fn lemma_with_member_same(value: JsonModel, key: Seq<char>)
    requires
        value.member(key) is Ok,
    ensures
        value.with_member(key, value.member(key)->Ok_0) == value,
{
    let members = value->Object_0;
    let place = find_index(members, key, 0);
    assert(members.update(place, (members[place].0, members[place].1)) =~= members);
}

/// After the value of a member has been replaced, a lookup of the member's
/// name finds the new value, and a lookup of any other name finds what it
/// found before.
pub proof fn lemma_with_member_then_member(
    value: JsonModel,
    key: Seq<char>,
    new: JsonModel,
    other: Seq<char>,
)
    requires
        value.member(key) is Ok,
    ensures
        value.with_member(key, new).member(key) == Ok::<JsonModel, PathError>(new),
        other != key ==> value.with_member(key, new).member(other) == value.member(other),
{
    let members = value->Object_0;
    let place = find_index(members, key, 0);
    let changed = members.update(place, (members[place].0, new));
    lemma_same_names_same_place(members, changed, key, 0);
    lemma_same_names_same_place(members, changed, other, 0);
    lemma_find_index_bounds(members, key, 0);
    lemma_find_index_bounds(members, other, 0);
}

/// Two lists of members with the same names in the same places are searched
/// alike.
pub proof fn lemma_same_names_same_place(
    first: Seq<(Seq<char>, JsonModel)>,
    second: Seq<(Seq<char>, JsonModel)>,
    key: Seq<char>,
    from: int,
)
    requires
        first.len() == second.len(),
        forall|i: int| 0 <= i < first.len() ==> (#[trigger] first[i]).0 == second[i].0,
    ensures
        find_index(first, key, from) == find_index(second, key, from),
    decreases first.len() - from,
{
    if 0 <= from < first.len() {
        assert(first[from].0 == second[from].0);
        if first[from].0 != key {
            lemma_same_names_same_place(first, second, key, from + 1);
        }
    }
}

/// Changing the value of one member of an object, and nothing else, gives
/// the object that `with_member` describes.
pub proof fn lemma_value_change(before: Vec<(String, JsonValue)>, key: Seq<char>, place: int)
    requires
        0 <= place < before@.len(),
        place == find_index(JsonValue::Object(before)@->Object_0, key, 0),
    ensures
        forall|after: Vec<(String, JsonValue)>|
            after@.len() == before@.len() && after@[place].0 == before@[place].0 && (forall|j: int|
                0 <= j < before@.len() && j != place ==> after@[j] == before@[j])
                ==> #[trigger] JsonValue::Object(after)@ == JsonValue::Object(before)@.with_member(
                key,
                after@[place].1@,
            ),
{
    assert forall|after: Vec<(String, JsonValue)>|
        after@.len() == before@.len() && after@[place].0 == before@[place].0 && (forall|j: int|
            0 <= j < before@.len() && j != place ==> after@[j] == before@[j])
        implies #[trigger] JsonValue::Object(after)@ == JsonValue::Object(before)@.with_member(
        key,
        after@[place].1@,
    ) by {
        lemma_object_view(before);
        lemma_object_view(after);
        let old_members = JsonValue::Object(before)@->Object_0;
        assert(JsonValue::Object(after)@->Object_0 =~= old_members.update(
            place,
            (old_members[place].0, after@[place].1@),
        ));
    }
}

/// Finds the first dot at or after `from`.
fn find_dot(path: &Vec<char>, from: usize) -> (end: usize)
    requires
        from <= path.len(),
    ensures
        end == first_dot(path@, from as int),
        from <= end <= path.len(),
{
    let mut end: usize = from;
    while end < path.len() && path[end] != '.'
        invariant
            from <= end <= path.len(),
            first_dot(path@, from as int) == first_dot(path@, end as int),
        decreases path.len() - end,
    {
        end = end + 1;
    }
    end
}

impl JsonValue {
    /// Finds the place of the member named `name`.
    pub fn member_index(&self, name: &str) -> (place: Result<usize, PathError>)
        ensures
            match place {
                Ok(i) => self@ is Object && i == find_index(self@->Object_0, name@, 0) && i
                    < self@->Object_0.len(),
                Err(error) => self@.member(name@) == Err::<JsonModel, PathError>(error),
            },
    {
        match self {
            JsonValue::Object(members) => {
                let key = name.to_owned();
                let ghost model = self@->Object_0;
                proof {
                    lemma_object_view(*members);
                }
                let mut i: usize = 0;
                while i < members.len()
                    invariant
                        i <= members.len(),
                        key@ == name@,
                        self@ == JsonModel::Object(model),
                        model.len() == members.len(),
                        forall|j: int|
                            0 <= j < members.len() ==> #[trigger] model[j] == (
                                members[j].0@,
                                members[j].1@,
                            ),
                        find_index(model, name@, 0) == find_index(model, name@, i as int),
                    decreases members.len() - i,
                {
                    if members[i].0 == key {
                        return Ok(i);
                    }
                    i = i + 1;
                }
                Err(PathError::MissingKey)
            },
            _ => Err(PathError::NotAnObject),
        }
    }

    /// Looks up the member named `name`, with any dots in it taken literally.
    pub fn index_safe<'a>(&'a self, name: &str) -> (found: Result<&'a JsonValue, PathError>)
        ensures
            match found {
                Ok(value) => self@.member(name@) == Ok::<JsonModel, PathError>(value@),
                Err(error) => self@.member(name@) == Err::<JsonModel, PathError>(error),
            },
    {
        match self.member_index(name) {
            Ok(i) => match self {
                JsonValue::Object(members) => {
                    proof {
                        lemma_object_view(*members);
                    }
                    Ok(&members[i].1)
                },
                _ => Err(PathError::NotAnObject),
            },
            Err(error) => Err(error),
        }
    }

}

impl JsonValue {
    /// Looks up the member named `name`, for changing it in place.
    pub fn index_safe_mut<'a>(&'a mut self, name: &str) -> (found: Result<
        &'a mut JsonValue,
        PathError,
    >)
        ensures
            match found {
                Ok(value) => {
                    &&& old(self)@.member(name@) == Ok::<JsonModel, PathError>(value@)
                    &&& final(self)@ == old(self)@.with_member(name@, final(value)@)
                },
                Err(error) => {
                    &&& old(self)@.member(name@) == Err::<JsonModel, PathError>(error)
                    &&& final(self)@ == old(self)@
                },
            },
    {
        match self.member_index(name) {
            Ok(i) => match self {
                JsonValue::Object(members) => {
                    proof {
                        lemma_object_view(*members);
                    }
                    proof {
                        lemma_value_change(*members, name@, i as int);
                    }
                    let member = &mut members[i];
                    Ok(&mut member.1)
                },
                _ => Err(PathError::NotAnObject),
            },
            Err(error) => Err(error),
        }
    }
}

impl JsonValue {
    /// Follows the names of `name` from its character `start` on, for
    /// changing what they lead to in place.
    fn dot_index_mut_from<'a>(&'a mut self, name: &str, chars: &Vec<char>, start: usize) -> (found:
        Result<&'a mut JsonValue, PathError>)
        requires
            chars@ == name@,
            start <= chars.len(),
        ensures
            match found {
                Ok(value) => {
                    &&& old(self)@.dot_lookup_from(name@, start as int) == Ok::<
                        JsonModel,
                        PathError,
                    >(value@)
                    &&& final(self)@ == old(self)@.dot_replaced_from(
                        name@,
                        start as int,
                        final(value)@,
                    )
                },
                Err(error) => {
                    &&& old(self)@.dot_lookup_from(name@, start as int) == Err::<
                        JsonModel,
                        PathError,
                    >(error)
                    &&& final(self)@ == old(self)@
                },
            },
        decreases chars.len() - start,
    {
        let end = find_dot(chars, start);
        if end == start {
            return Err(PathError::EmptySegment);
        }
        let segment = name.substring_char(start, end);
        let ghost before = self@;
        proof {
            if before.member(segment@) is Ok {
                lemma_with_member_same(before, segment@);
            }
        }
        match self.index_safe_mut(segment) {
            Err(error) => Err(error),
            Ok(child) => {
                if end >= chars.len() {
                    Ok(child)
                } else {
                    child.dot_index_mut_from(name, chars, end + 1)
                }
            },
        }
    }

}

/// Lookups by name in a JSON document: by one member name, or by a dotted
/// path that goes one object deeper with each name.
pub trait ValueExt: Sized {
    /// The document as plain values.
    spec fn document(&self) -> JsonModel;

    /// Follows a dotted path: `a.b` is member `b` of member `a`.
    fn dot_index_safe<'a>(&'a self, name: &str) -> (found: Result<&'a JsonValue, PathError>)
        ensures
            match found {
                Ok(value) => self.document().dot_lookup(name@) == Ok::<JsonModel, PathError>(value@),
                Err(error) => self.document().dot_lookup(name@) == Err::<JsonModel, PathError>(error),
            },
    ;

    /// Looks `name` up as a dotted path where `dot_notation` is set, and as
    /// one member name otherwise.
    fn index_selective_safe<'a>(&'a self, name: &str, dot_notation: bool) -> (found: Result<
        &'a JsonValue,
        PathError,
    >)
        ensures
            match found {
                Ok(value) => self.document().selective_lookup(name@, dot_notation) == Ok::<
                    JsonModel,
                    PathError,
                >(value@),
                Err(error) => self.document().selective_lookup(name@, dot_notation) == Err::<
                    JsonModel,
                    PathError,
                >(error),
            },
    ;

    /// Follows a dotted path, for changing what it leads to in place.
    fn dot_index_safe_mut<'a>(&'a mut self, name: &str) -> (found: Result<
        &'a mut JsonValue,
        PathError,
    >)
        ensures
            match found {
                Ok(value) => {
                    &&& old(self).document().dot_lookup(name@) == Ok::<JsonModel, PathError>(value@)
                    &&& final(self).document() == old(self).document().dot_replaced(name@, final(value)@)
                },
                Err(error) => {
                    &&& old(self).document().dot_lookup(name@) == Err::<JsonModel, PathError>(error)
                    &&& final(self).document() == old(self).document()
                },
            },
    ;

    /// Looks `name` up as a dotted path where `dot_notation` is set, and as
    /// one member name otherwise, for changing what it leads to in place.
    fn index_selective_safe_mut<'a>(&'a mut self, name: &str, dot_notation: bool) -> (found:
        Result<&'a mut JsonValue, PathError>)
        ensures
            match found {
                Ok(value) => {
                    &&& old(self).document().selective_lookup(name@, dot_notation) == Ok::<
                        JsonModel,
                        PathError,
                    >(value@)
                    &&& final(self).document() == old(self).document().selective_replaced(
                        name@,
                        dot_notation,
                        final(value)@,
                    )
                },
                Err(error) => {
                    &&& old(self).document().selective_lookup(name@, dot_notation) == Err::<
                        JsonModel,
                        PathError,
                    >(error)
                    &&& final(self).document() == old(self).document()
                },
            },
    ;
}

impl ValueExt for JsonValue {
    open spec fn document(&self) -> JsonModel {
        self@
    }

    fn dot_index_safe<'a>(&'a self, name: &str) -> (found: Result<&'a JsonValue, PathError>)
    {
        let chars = chars_of(name);
        let mut it: &JsonValue = self;
        let mut start: usize = 0;
        loop
            invariant
                start <= chars.len(),
                chars@ == name@,
                self@.dot_lookup(name@) == it@.dot_lookup_from(name@, start as int),
            decreases chars.len() - start,
        {
            let end = find_dot(&chars, start);
            if end == start {
                return Err(PathError::EmptySegment);
            }
            let segment = name.substring_char(start, end);
            match it.index_safe(segment) {
                Err(error) => {
                    return Err(error);
                },
                Ok(child) => {
                    if end >= chars.len() {
                        return Ok(child);
                    }
                    it = child;
                    start = end + 1;
                },
            }
        }
    }

    fn index_selective_safe<'a>(&'a self, name: &str, dot_notation: bool) -> (found: Result<
        &'a JsonValue,
        PathError,
    >)
    {
        if dot_notation {
            self.dot_index_safe(name)
        } else {
            self.index_safe(name)
        }
    }

    fn dot_index_safe_mut<'a>(&'a mut self, name: &str) -> (found: Result<
        &'a mut JsonValue,
        PathError,
    >)
    {
        let chars = chars_of(name);
        self.dot_index_mut_from(name, &chars, 0)
    }

    fn index_selective_safe_mut<'a>(&'a mut self, name: &str, dot_notation: bool) -> (found:
        Result<&'a mut JsonValue, PathError>)
    {
        if dot_notation {
            self.dot_index_safe_mut(name)
        } else {
            self.index_safe_mut(name)
        }
    }
}

} // verus!
