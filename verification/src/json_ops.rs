//! The module's operations on registered JSON documents.

use crate::cell_map::{lemma_replace_same, Cell, TableModel};
use crate::errors::FfiError;
use crate::json::{JsonModel, JsonNumber, JsonValue};
use crate::json_path::ValueExt;
use crate::module::ModuleStorage;
use vstd::prelude::*;

verus! {

/// The document registered under `handle`.
pub open spec fn json_at(table: TableModel<JsonValue>, handle: Cell) -> Result<JsonModel, FfiError> {
    if table.is_live(handle) {
        Ok(table.entries[handle]@)
    } else {
        Err(FfiError::InvalidJsonHandle(handle))
    }
}

/// The item at `index` of the array registered under `array`.
pub open spec fn json_item_at(table: TableModel<JsonValue>, array: Cell, index: Cell) -> Result<
    JsonModel,
    FfiError,
> {
    match json_at(table, array) {
        Ok(value) => value.item(index),
        Err(error) => Err(error),
    }
}

/// What `name` leads to in the document registered under `object`.
pub open spec fn json_member_at(
    table: TableModel<JsonValue>,
    object: Cell,
    name: Seq<char>,
    dot_notation: bool,
) -> Result<JsonModel, FfiError> {
    match json_at(table, object) {
        Ok(value) => match value.selective_lookup(name, dot_notation) {
            Ok(found) => Ok(found),
            Err(error) => Err(FfiError::Path(error)),
        },
        Err(error) => Err(error),
    }
}

/// The text of a string value that was reached.
pub open spec fn string_of(reached: Result<JsonModel, FfiError>) -> Result<Seq<char>, FfiError> {
    match reached {
        Ok(value) => value.string(),
        Err(error) => Err(error),
    }
}

/// The integer of a number value that was reached.
pub open spec fn integer_of(reached: Result<JsonModel, FfiError>) -> Result<i64, FfiError> {
    match reached {
        Ok(value) => value.integer(),
        Err(error) => Err(error),
    }
}

/// The number of a number value that was reached.
pub open spec fn number_of(reached: Result<JsonModel, FfiError>) -> Result<JsonNumber, FfiError> {
    match reached {
        Ok(value) => value.number(),
        Err(error) => Err(error),
    }
}

/// The number of items of an array that was reached.
pub open spec fn count_of(reached: Result<JsonModel, FfiError>) -> Result<nat, FfiError> {
    match reached {
        Ok(value) => value.count(),
        Err(error) => Err(error),
    }
}

/// The truth value of a boolean value that was reached.
pub open spec fn boolean_of(reached: Result<JsonModel, FfiError>) -> Result<bool, FfiError> {
    match reached {
        Ok(value) => value.boolean(),
        Err(error) => Err(error),
    }
}

/// Whether `after` is `before` with one more document, which is `model` and
/// stands under `handle`.
pub open spec fn json_added(
    before: TableModel<JsonValue>,
    after: TableModel<JsonValue>,
    handle: Cell,
    model: JsonModel,
) -> bool {
    &&& (after, handle) == before.insert(after.entries[handle])
    &&& after.entries[handle]@ == model
}

/// Whether `after` is `before` with the document under `handle` changed to
/// `model`.
pub open spec fn json_changed(
    before: TableModel<JsonValue>,
    after: TableModel<JsonValue>,
    handle: Cell,
    model: JsonModel,
) -> bool {
    &&& after == before.replace(handle, after.entries[handle])
    &&& after.entries[handle]@ == model
}

/// The array under `array` with the item at `index` replaced by `new`.
pub open spec fn replace_result(
    table: TableModel<JsonValue>,
    array: Cell,
    index: Cell,
    new: JsonModel,
) -> Result<JsonModel, FfiError> {
    match json_at(table, array) {
        Ok(target) => target.replaced(index, new),
        Err(error) => Err(error),
    }
}

/// The array under `array` with `new` added at its end.
pub open spec fn append_result(table: TableModel<JsonValue>, array: Cell, new: JsonModel) -> Result<
    JsonModel,
    FfiError,
> {
    match json_at(table, array) {
        Ok(target) => target.appended(new),
        Err(error) => Err(error),
    }
}

/// The array under `array` without the item at `index`.
pub open spec fn remove_result(table: TableModel<JsonValue>, array: Cell, index: Cell) -> Result<
    JsonModel,
    FfiError,
> {
    match json_at(table, array) {
        Ok(target) => target.removed(index),
        Err(error) => Err(error),
    }
}

/// The array under `array` without any item.
pub open spec fn clear_result(table: TableModel<JsonValue>, array: Cell) -> Result<
    JsonModel,
    FfiError,
> {
    match json_at(table, array) {
        Ok(target) => target.cleared(),
        Err(error) => Err(error),
    }
}

/// The document under `value`, for putting it into the array under `array`:
/// both handles must be registered, `array` first, and `array` must be an
/// array.
pub open spec fn value_for_array(table: TableModel<JsonValue>, array: Cell, value: Cell) -> Result<
    JsonModel,
    FfiError,
> {
    match json_at(table, array) {
        Err(error) => Err(error),
        Ok(target) => if !(target is Array) {
            Err(FfiError::NotArray)
        } else {
            json_at(table, value)
        },
    }
}

/// The array under `array` with the item at `index` replaced by a copy of
/// the document under `value`.
pub open spec fn replace_value_result(
    table: TableModel<JsonValue>,
    array: Cell,
    index: Cell,
    value: Cell,
) -> Result<JsonModel, FfiError> {
    match value_for_array(table, array, value) {
        Ok(new) => replace_result(table, array, index, new),
        Err(error) => Err(error),
    }
}

/// The array under `array` with a copy of the document under `value` added
/// at its end.
pub open spec fn append_value_result(table: TableModel<JsonValue>, array: Cell, value: Cell) -> Result<
    JsonModel,
    FfiError,
> {
    match value_for_array(table, array, value) {
        Ok(new) => append_result(table, array, new),
        Err(error) => Err(error),
    }
}

/// How a change to a registered document ended: done as `result` says, or
/// refused for the reason in `result` with nothing changed.
pub open spec fn json_change_done(
    before: TableModel<JsonValue>,
    after: TableModel<JsonValue>,
    handle: Cell,
    result: Result<JsonModel, FfiError>,
    done: Result<(), FfiError>,
) -> bool {
    match done {
        Ok(_) => result is Ok && json_changed(before, after, handle, result->Ok_0),
        Err(error) => result == Err::<JsonModel, FfiError>(error) && after == before,
    }
}

/// How registering a copy of a document that was reached ended: registered
/// under the handle returned, or refused with nothing changed.
pub open spec fn json_copy_done(
    before: TableModel<JsonValue>,
    after: TableModel<JsonValue>,
    reached: Result<JsonModel, FfiError>,
    handle: Result<Cell, FfiError>,
) -> bool {
    match handle {
        Ok(handle) => reached is Ok && json_added(before, after, handle, reached->Ok_0),
        Err(error) => reached == Err::<JsonModel, FfiError>(error) && after == before,
    }
}

impl<C> ModuleStorage<C> {
    /// The document registered under `handle`.
    pub fn json_value<'a>(&'a self, handle: Cell) -> (value: Result<&'a JsonValue, FfiError>)
        ensures
            match value {
                Ok(value) => json_at(self.json_handles@, handle) == Ok::<JsonModel, FfiError>(
                    value@,
                ),
                Err(error) => json_at(self.json_handles@, handle) == Err::<JsonModel, FfiError>(
                    error,
                ),
            },
    {
        match self.json_handles.get_with_id(handle) {
            Some(value) => Ok(value),
            None => Err(FfiError::InvalidJsonHandle(handle)),
        }
    }

    /// Registers a document and returns its handle.
    pub fn json_insert(&mut self, value: JsonValue) -> (handle: Cell)
        ensures
            (final(self).json_handles@, handle) == old(self).json_handles@.insert(value),
            json_added(old(self).json_handles@, final(self).json_handles@, handle, value@),
            final(self).same_but_json(*old(self)),
    {
        self.json_handles.insert_with_unique_id(value)
    }

    /// Destroys a document.
    pub fn destroy_json_value(&mut self, json_value: Cell) -> (done: Result<(), FfiError>)
        ensures
            final(self).json_handles@ == old(self).json_handles@.remove(json_value).0,
            final(self).same_but_json(*old(self)),
            done == (if old(self).json_handles@.is_live(json_value) {
                Ok::<(), FfiError>(())
            } else {
                Err::<(), FfiError>(FfiError::InvalidJsonHandle(json_value))
            }),
    {
        match self.json_handles.remove_with_id(json_value) {
            Some(_) => Ok(()),
            None => Err(FfiError::InvalidJsonHandle(json_value)),
        }
    }

    /// Compares two documents: 1 if they are the same JSON, 0 if not.
    pub fn json_equals(&self, value1: Cell, value2: Cell) -> (equal: Result<Cell, FfiError>)
        ensures
            equal == (match json_at(self.json_handles@, value1) {
                Err(error) => Err::<Cell, FfiError>(error),
                Ok(first) => match json_at(self.json_handles@, value2) {
                    Err(error) => Err::<Cell, FfiError>(error),
                    Ok(second) => Ok::<Cell, FfiError>(
                        if crate::json::json_eq(second, first) {
                            1isize
                        } else {
                            0isize
                        },
                    ),
                },
            }),
    {
        let first = self.json_value(value1)?;
        let second = self.json_value(value2)?;
        if second.equals(first) {
            Ok(1)
        } else {
            Ok(0)
        }
    }

    /// The code of the kind of a document.
    pub fn json_get_type(&self, value: Cell) -> (code: Result<Cell, FfiError>)
        ensures
            code == (match json_at(self.json_handles@, value) {
                Ok(value) => Ok::<Cell, FfiError>(value.type_code() as Cell),
                Err(error) => Err::<Cell, FfiError>(error),
            }),
    {
        let value = self.json_value(value)?;
        Ok(value.type_code())
    }

    /// The text of a registered string.
    pub fn json_get_string<'a>(&'a self, value: Cell) -> (text: Result<&'a str, FfiError>)
        ensures
            match text {
                Ok(text) => string_of(json_at(self.json_handles@, value)) == Ok::<
                    Seq<char>,
                    FfiError,
                >(text@),
                Err(error) => string_of(json_at(self.json_handles@, value)) == Err::<
                    Seq<char>,
                    FfiError,
                >(error),
            },
    {
        let value = self.json_value(value)?;
        value.get_string()
    }

    /// The integer of a registered number.
    pub fn json_get_number(&self, value: Cell) -> (number: Result<i64, FfiError>)
        ensures
            number == integer_of(json_at(self.json_handles@, value)),
    {
        let value = self.json_value(value)?;
        value.get_number()
    }

    /// A registered number, whatever its kind.
    pub fn json_get_float(&self, value: Cell) -> (number: Result<JsonNumber, FfiError>)
        ensures
            number == number_of(json_at(self.json_handles@, value)),
    {
        let value = self.json_value(value)?;
        value.get_number_value()
    }

    /// The truth value of a registered boolean.
    pub fn json_get_bool(&self, value: Cell) -> (truth: Result<bool, FfiError>)
        ensures
            truth == boolean_of(json_at(self.json_handles@, value)),
    {
        let value = self.json_value(value)?;
        value.get_bool()
    }
}

impl<C> ModuleStorage<C> {
    /// Registers an empty object.
    pub fn json_init_object(&mut self) -> (handle: Cell)
        ensures
            json_added(
                old(self).json_handles@,
                final(self).json_handles@,
                handle,
                JsonModel::Object(Seq::empty()),
            ),
            final(self).same_but_json(*old(self)),
    {
        let value = JsonValue::Object(Vec::new());
        proof {
            crate::json::lemma_object_view(value->Object_0);
            assert(value@->Object_0 =~= Seq::empty());
        }
        self.json_insert(value)
    }

    /// Registers an empty array.
    pub fn json_init_array(&mut self) -> (handle: Cell)
        ensures
            json_added(
                old(self).json_handles@,
                final(self).json_handles@,
                handle,
                JsonModel::Array(Seq::empty()),
            ),
            final(self).same_but_json(*old(self)),
    {
        let value = JsonValue::Array(Vec::new());
        proof {
            crate::json::lemma_array_view(value->Array_0);
            assert(value@->Array_0 =~= Seq::empty());
        }
        self.json_insert(value)
    }

    /// Registers a string.
    pub fn json_init_string(&mut self, text: &str) -> (handle: Cell)
        ensures
            json_added(
                old(self).json_handles@,
                final(self).json_handles@,
                handle,
                JsonModel::String(text@),
            ),
            final(self).same_but_json(*old(self)),
    {
        self.json_insert(JsonValue::String(text.to_owned()))
    }

    /// Registers a whole number.
    pub fn json_init_number(&mut self, value: i64) -> (handle: Cell)
        ensures
            json_added(
                old(self).json_handles@,
                final(self).json_handles@,
                handle,
                JsonModel::Number(JsonNumber::of_i64(value)),
            ),
            final(self).same_but_json(*old(self)),
    {
        self.json_insert(JsonValue::Number(JsonNumber::from_i64(value)))
    }

    /// Registers a floating-point number, given by its bits. What is not a
    /// finite number is registered as null.
    pub fn json_init_float(&mut self, bits: u64) -> (handle: Cell)
        ensures
            json_added(
                old(self).json_handles@,
                final(self).json_handles@,
                handle,
                crate::json::float_model(bits),
            ),
            final(self).same_but_json(*old(self)),
    {
        self.json_insert(JsonValue::from_float_bits(bits))
    }

    /// Registers a boolean.
    pub fn json_init_bool(&mut self, value: bool) -> (handle: Cell)
        ensures
            json_added(
                old(self).json_handles@,
                final(self).json_handles@,
                handle,
                JsonModel::Bool(value),
            ),
            final(self).same_but_json(*old(self)),
    {
        self.json_insert(JsonValue::Bool(value))
    }

    /// Registers a null.
    pub fn json_init_null(&mut self) -> (handle: Cell)
        ensures
            json_added(old(self).json_handles@, final(self).json_handles@, handle, JsonModel::Null),
            final(self).same_but_json(*old(self)),
    {
        self.json_insert(JsonValue::Null)
    }

    /// The item at `index` of a registered array.
    pub fn json_array_item<'a>(&'a self, array: Cell, index: Cell) -> (item: Result<
        &'a JsonValue,
        FfiError,
    >)
        ensures
            match item {
                Ok(item) => json_item_at(self.json_handles@, array, index) == Ok::<
                    JsonModel,
                    FfiError,
                >(item@),
                Err(error) => json_item_at(self.json_handles@, array, index) == Err::<
                    JsonModel,
                    FfiError,
                >(error),
            },
    {
        let value = self.json_value(array)?;
        value.array_item(index)
    }

    /// Registers a copy of the item at `index` of a registered array.
    pub fn json_array_get_value(&mut self, array: Cell, index: Cell) -> (handle: Result<
        Cell,
        FfiError,
    >)
        ensures
            json_copy_done(
                old(self).json_handles@,
                final(self).json_handles@,
                json_item_at(old(self).json_handles@, array, index),
                handle,
            ),
            final(self).same_but_json(*old(self)),
    {
        let copy = self.json_array_item(array, index)?.duplicate();
        Ok(self.json_insert(copy))
    }

    /// The text of the string at `index` of a registered array.
    pub fn json_array_get_string<'a>(&'a self, array: Cell, index: Cell) -> (text: Result<
        &'a str,
        FfiError,
    >)
        ensures
            match text {
                Ok(text) => string_of(json_item_at(self.json_handles@, array, index)) == Ok::<
                    Seq<char>,
                    FfiError,
                >(text@),
                Err(error) => string_of(json_item_at(self.json_handles@, array, index)) == Err::<
                    Seq<char>,
                    FfiError,
                >(error),
            },
    {
        let item = self.json_array_item(array, index)?;
        item.get_string()
    }

    /// The integer at `index` of a registered array.
    pub fn json_array_get_number(&self, array: Cell, index: Cell) -> (number: Result<i64, FfiError>)
        ensures
            number == integer_of(json_item_at(self.json_handles@, array, index)),
    {
        let item = self.json_array_item(array, index)?;
        item.get_number()
    }

    /// The number at `index` of a registered array, whatever its kind.
    pub fn json_array_get_float(&self, array: Cell, index: Cell) -> (number: Result<
        JsonNumber,
        FfiError,
    >)
        ensures
            number == number_of(json_item_at(self.json_handles@, array, index)),
    {
        let item = self.json_array_item(array, index)?;
        item.get_number_value()
    }

    /// The truth value at `index` of a registered array.
    pub fn json_array_get_bool(&self, array: Cell, index: Cell) -> (truth: Result<bool, FfiError>)
        ensures
            truth == boolean_of(json_item_at(self.json_handles@, array, index)),
    {
        let item = self.json_array_item(array, index)?;
        item.get_bool()
    }

    /// The number of items of a registered array.
    pub fn json_array_get_count(&self, array: Cell) -> (count: Result<usize, FfiError>)
        ensures
            match count {
                Ok(count) => count_of(json_at(self.json_handles@, array)) == Ok::<nat, FfiError>(
                    count as nat,
                ),
                Err(error) => count_of(json_at(self.json_handles@, array)) == Err::<
                    nat,
                    FfiError,
                >(error),
            },
    {
        let value = self.json_value(array)?;
        value.array_count()
    }

    /// Replaces the item at `index` of a registered array by `new`.
    pub fn json_array_replace(&mut self, array: Cell, index: Cell, new: JsonValue) -> (done: Result<
        (),
        FfiError,
    >)
        ensures
            json_change_done(
                old(self).json_handles@,
                final(self).json_handles@,
                array,
                replace_result(old(self).json_handles@, array, index, new@),
                done,
            ),
            final(self).same_but_json(*old(self)),
    {
        proof {
            if self.json_handles@.is_live(array) {
                lemma_replace_same(self.json_handles@, array);
            }
        }
        match self.json_handles.get_mut_with_id(array) {
            None => Err(FfiError::InvalidJsonHandle(array)),
            Some(target) => target.array_replace(index, new),
        }
    }

    /// Adds `new` at the end of a registered array.
    pub fn json_array_append(&mut self, array: Cell, new: JsonValue) -> (done: Result<(), FfiError>)
        ensures
            json_change_done(
                old(self).json_handles@,
                final(self).json_handles@,
                array,
                append_result(old(self).json_handles@, array, new@),
                done,
            ),
            final(self).same_but_json(*old(self)),
    {
        proof {
            if self.json_handles@.is_live(array) {
                lemma_replace_same(self.json_handles@, array);
            }
        }
        match self.json_handles.get_mut_with_id(array) {
            None => Err(FfiError::InvalidJsonHandle(array)),
            Some(target) => target.array_append(new),
        }
    }

    /// A copy of the document under `value`, for putting it into the array
    /// under `array`.
    fn json_copy_for_array(&self, array: Cell, value: Cell) -> (copy: Result<JsonValue, FfiError>)
        ensures
            match copy {
                Ok(copy) => value_for_array(self.json_handles@, array, value) == Ok::<
                    JsonModel,
                    FfiError,
                >(copy@),
                Err(error) => value_for_array(self.json_handles@, array, value) == Err::<
                    JsonModel,
                    FfiError,
                >(error),
            },
    {
        let target = self.json_value(array)?;
        if !target.is_array() {
            return Err(FfiError::NotArray);
        }
        let new = self.json_value(value)?;
        Ok(new.duplicate())
    }

    /// Replaces the item at `index` of a registered array by a copy of
    /// another registered document.
    pub fn json_array_replace_value(&mut self, array: Cell, index: Cell, value: Cell) -> (done:
        Result<(), FfiError>)
        ensures
            json_change_done(
                old(self).json_handles@,
                final(self).json_handles@,
                array,
                replace_value_result(old(self).json_handles@, array, index, value),
                done,
            ),
            final(self).same_but_json(*old(self)),
    {
        let copy = self.json_copy_for_array(array, value)?;
        self.json_array_replace(array, index, copy)
    }

    /// Adds a copy of another registered document at the end of a registered
    /// array.
    pub fn json_array_append_value(&mut self, array: Cell, value: Cell) -> (done: Result<
        (),
        FfiError,
    >)
        ensures
            json_change_done(
                old(self).json_handles@,
                final(self).json_handles@,
                array,
                append_value_result(old(self).json_handles@, array, value),
                done,
            ),
            final(self).same_but_json(*old(self)),
    {
        let copy = self.json_copy_for_array(array, value)?;
        self.json_array_append(array, copy)
    }

    /// Takes the item at `index` out of a registered array.
    pub fn json_array_remove(&mut self, array: Cell, index: Cell) -> (done: Result<(), FfiError>)
        ensures
            json_change_done(
                old(self).json_handles@,
                final(self).json_handles@,
                array,
                remove_result(old(self).json_handles@, array, index),
                done,
            ),
            final(self).same_but_json(*old(self)),
    {
        proof {
            if self.json_handles@.is_live(array) {
                lemma_replace_same(self.json_handles@, array);
            }
        }
        match self.json_handles.get_mut_with_id(array) {
            None => Err(FfiError::InvalidJsonHandle(array)),
            Some(target) => match target.array_remove(index) {
                Ok(_) => Ok(()),
                Err(error) => Err(error),
            },
        }
    }

    /// Takes every item out of a registered array.
    pub fn json_array_clear(&mut self, array: Cell) -> (done: Result<(), FfiError>)
        ensures
            json_change_done(
                old(self).json_handles@,
                final(self).json_handles@,
                array,
                clear_result(old(self).json_handles@, array),
                done,
            ),
            final(self).same_but_json(*old(self)),
    {
        proof {
            if self.json_handles@.is_live(array) {
                lemma_replace_same(self.json_handles@, array);
            }
        }
        match self.json_handles.get_mut_with_id(array) {
            None => Err(FfiError::InvalidJsonHandle(array)),
            Some(target) => target.array_clear(),
        }
    }

    /// What `name` leads to in a registered document.
    pub fn json_object_member<'a>(&'a self, object: Cell, name: &str, dot_notation: bool) -> (found:
        Result<&'a JsonValue, FfiError>)
        ensures
            match found {
                Ok(found) => json_member_at(self.json_handles@, object, name@, dot_notation)
                    == Ok::<JsonModel, FfiError>(found@),
                Err(error) => json_member_at(self.json_handles@, object, name@, dot_notation)
                    == Err::<JsonModel, FfiError>(error),
            },
    {
        let value = self.json_value(object)?;
        match value.index_selective_safe(name, dot_notation) {
            Ok(found) => Ok(found),
            Err(error) => Err(FfiError::Path(error)),
        }
    }

    /// Registers a copy of what `name` leads to in a registered document.
    pub fn json_object_get_value(&mut self, object: Cell, name: &str, dot_notation: bool) -> (handle:
        Result<Cell, FfiError>)
        ensures
            json_copy_done(
                old(self).json_handles@,
                final(self).json_handles@,
                json_member_at(old(self).json_handles@, object, name@, dot_notation),
                handle,
            ),
            final(self).same_but_json(*old(self)),
    {
        let copy = self.json_object_member(object, name, dot_notation)?.duplicate();
        Ok(self.json_insert(copy))
    }

    /// The text of the string that `name` leads to.
    pub fn json_object_get_string<'a>(&'a self, object: Cell, name: &str, dot_notation: bool) -> (text:
        Result<&'a str, FfiError>)
        ensures
            match text {
                Ok(text) => string_of(
                    json_member_at(self.json_handles@, object, name@, dot_notation),
                ) == Ok::<Seq<char>, FfiError>(text@),
                Err(error) => string_of(
                    json_member_at(self.json_handles@, object, name@, dot_notation),
                ) == Err::<Seq<char>, FfiError>(error),
            },
    {
        let found = self.json_object_member(object, name, dot_notation)?;
        found.get_string()
    }

    /// The integer that `name` leads to.
    pub fn json_object_get_number(&self, object: Cell, name: &str, dot_notation: bool) -> (number:
        Result<i64, FfiError>)
        ensures
            number == integer_of(json_member_at(self.json_handles@, object, name@, dot_notation)),
    {
        let found = self.json_object_member(object, name, dot_notation)?;
        found.get_number()
    }

    /// The number that `name` leads to, whatever its kind.
    pub fn json_object_get_float(&self, object: Cell, name: &str, dot_notation: bool) -> (number:
        Result<JsonNumber, FfiError>)
        ensures
            number == number_of(json_member_at(self.json_handles@, object, name@, dot_notation)),
    {
        let found = self.json_object_member(object, name, dot_notation)?;
        found.get_number_value()
    }

    /// The truth value that `name` leads to.
    pub fn json_object_get_bool(&self, object: Cell, name: &str, dot_notation: bool) -> (truth:
        Result<bool, FfiError>)
        ensures
            truth == boolean_of(json_member_at(self.json_handles@, object, name@, dot_notation)),
    {
        let found = self.json_object_member(object, name, dot_notation)?;
        found.get_bool()
    }
}

} // verus!
