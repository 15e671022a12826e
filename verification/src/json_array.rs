//! JSON arrays: reaching, replacing, adding and removing items.

use crate::cell_map::Cell;
use crate::errors::FfiError;
use crate::json::{lemma_array_view, JsonModel, JsonValue};
use vstd::prelude::*;

verus! {

broadcast use {vstd::string::group_string_axioms, vstd::std_specs::vec::group_vec_axioms};

impl JsonModel {
    /// The number of items of an array.
    pub open spec fn count(self) -> Result<nat, FfiError> {
        match self {
            JsonModel::Array(items) => Ok(items.len()),
            _ => Err(FfiError::NotArray),
        }
    }

    /// Why the item at `index` cannot be reached, if it cannot: this is no
    /// array, the index is below zero, or it is not below the length.
    pub open spec fn index_error(self, index: Cell) -> Option<FfiError> {
        match self {
            JsonModel::Array(items) => if index < 0 {
                Some(FfiError::NegativeIndex(index))
            } else if index >= items.len() {
                Some(FfiError::IndexOutOfRange(index))
            } else {
                None
            },
            _ => Some(FfiError::NotArray),
        }
    }

    /// The item at `index` of an array.
    pub open spec fn item(self, index: Cell) -> Result<JsonModel, FfiError> {
        match self.index_error(index) {
            Some(error) => Err(error),
            None => Ok(self->Array_0[index as int]),
        }
    }

    /// The array with the item at `index` replaced by `new`.
    pub open spec fn replaced(self, index: Cell, new: JsonModel) -> Result<JsonModel, FfiError> {
        match self.index_error(index) {
            Some(error) => Err(error),
            None => Ok(JsonModel::Array(self->Array_0.update(index as int, new))),
        }
    }

    /// The array with `new` added at its end.
    pub open spec fn appended(self, new: JsonModel) -> Result<JsonModel, FfiError> {
        match self {
            JsonModel::Array(items) => Ok(JsonModel::Array(items.push(new))),
            _ => Err(FfiError::NotArray),
        }
    }

    /// The array without the item at `index`; the later items move up.
    pub open spec fn removed(self, index: Cell) -> Result<JsonModel, FfiError> {
        match self.index_error(index) {
            Some(error) => Err(error),
            None => Ok(JsonModel::Array(self->Array_0.remove(index as int))),
        }
    }

    /// The array without any item.
    pub open spec fn cleared(self) -> Result<JsonModel, FfiError> {
        match self {
            JsonModel::Array(_) => Ok(JsonModel::Array(Seq::empty())),
            _ => Err(FfiError::NotArray),
        }
    }
}

impl JsonValue {
    /// The number of items of an array.
    pub fn array_count(&self) -> (count: Result<usize, FfiError>)
        ensures
            match count {
                Ok(count) => self@.count() == Ok::<nat, FfiError>(count as nat),
                Err(error) => self@.count() == Err::<nat, FfiError>(error),
            },
    {
        match self {
            JsonValue::Array(items) => {
                proof {
                    lemma_array_view(*items);
                }
                Ok(items.len())
            },
            _ => Err(FfiError::NotArray),
        }
    }

    /// The item at `index` of an array.
    pub fn array_item<'a>(&'a self, index: Cell) -> (item: Result<&'a JsonValue, FfiError>)
        ensures
            match item {
                Ok(item) => self@.item(index) == Ok::<JsonModel, FfiError>(item@),
                Err(error) => self@.item(index) == Err::<JsonModel, FfiError>(error),
            },
    {
        match self {
            JsonValue::Array(items) => {
                proof {
                    lemma_array_view(*items);
                }
                if index < 0 {
                    Err(FfiError::NegativeIndex(index))
                } else if index as usize >= items.len() {
                    Err(FfiError::IndexOutOfRange(index))
                } else {
                    Ok(&items[index as usize])
                }
            },
            _ => Err(FfiError::NotArray),
        }
    }

    /// Replaces the item at `index` of an array by `new`.
    pub fn array_replace(&mut self, index: Cell, new: JsonValue) -> (done: Result<(), FfiError>)
        ensures
            match done {
                Ok(_) => old(self)@.replaced(index, new@) == Ok::<JsonModel, FfiError>(
                    final(self)@,
                ),
                Err(error) => old(self)@.replaced(index, new@) == Err::<JsonModel, FfiError>(
                    error,
                ) && *final(self) == *old(self),
            },
    {
        match self {
            JsonValue::Array(items) => {
                proof {
                    lemma_array_view(*items);
                }
                if index < 0 {
                    Err(FfiError::NegativeIndex(index))
                } else if index as usize >= items.len() {
                    Err(FfiError::IndexOutOfRange(index))
                } else {
                    items.set(index as usize, new);
                    proof {
                        lemma_array_view(*items);
                        assert(JsonValue::Array(*items)@->Array_0 =~= old(self)@->Array_0.update(
                            index as int,
                            new@,
                        ));
                    }
                    Ok(())
                }
            },
            _ => Err(FfiError::NotArray),
        }
    }

    /// Adds `new` at the end of an array.
    pub fn array_append(&mut self, new: JsonValue) -> (done: Result<(), FfiError>)
        ensures
            match done {
                Ok(_) => old(self)@.appended(new@) == Ok::<JsonModel, FfiError>(final(self)@),
                Err(error) => old(self)@.appended(new@) == Err::<JsonModel, FfiError>(error)
                    && *final(self) == *old(self),
            },
    {
        match self {
            JsonValue::Array(items) => {
                proof {
                    lemma_array_view(*items);
                }
                items.push(new);
                proof {
                    lemma_array_view(*items);
                    assert(JsonValue::Array(*items)@->Array_0 =~= old(self)@->Array_0.push(new@));
                }
                Ok(())
            },
            _ => Err(FfiError::NotArray),
        }
    }

    /// Takes the item at `index` out of an array and returns it.
    pub fn array_remove(&mut self, index: Cell) -> (taken: Result<JsonValue, FfiError>)
        ensures
            match taken {
                Ok(item) => old(self)@.removed(index) == Ok::<JsonModel, FfiError>(final(self)@)
                    && old(self)@.item(index) == Ok::<JsonModel, FfiError>(item@),
                Err(error) => old(self)@.removed(index) == Err::<JsonModel, FfiError>(error)
                    && *final(self) == *old(self),
            },
    {
        match self {
            JsonValue::Array(items) => {
                proof {
                    lemma_array_view(*items);
                }
                if index < 0 {
                    Err(FfiError::NegativeIndex(index))
                } else if index as usize >= items.len() {
                    Err(FfiError::IndexOutOfRange(index))
                } else {
                    let item = items.remove(index as usize);
                    proof {
                        lemma_array_view(*items);
                        assert(JsonValue::Array(*items)@->Array_0 =~= old(self)@->Array_0.remove(
                            index as int,
                        ));
                    }
                    Ok(item)
                }
            },
            _ => Err(FfiError::NotArray),
        }
    }

    /// Takes every item out of an array.
    pub fn array_clear(&mut self) -> (done: Result<(), FfiError>)
        ensures
            match done {
                Ok(_) => old(self)@.cleared() == Ok::<JsonModel, FfiError>(final(self)@),
                Err(error) => old(self)@.cleared() == Err::<JsonModel, FfiError>(error)
                    && *final(self) == *old(self),
            },
    {
        match self {
            JsonValue::Array(items) => {
                items.clear();
                proof {
                    lemma_array_view(*items);
                    assert(JsonValue::Array(*items)@->Array_0 =~= Seq::<JsonModel>::empty());
                }
                Ok(())
            },
            _ => Err(FfiError::NotArray),
        }
    }
}

} // verus!
