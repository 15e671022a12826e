//! Small helpers for values that come in across the host boundary.

use crate::cell_map::Cell;
use crate::errors::FfiError;
use vstd::prelude::*;

verus! {

/// Turns what may be absent into a value or a message for the host's log.
pub trait ResultFFIExt<T>: Sized {
    /// The value, or the message that says why there is none.
    spec fn value_or_message(self) -> Result<T, Seq<char>>;

    fn get_value(self) -> (value: Result<T, String>)
        ensures
            match value {
                Ok(item) => self.value_or_message() == Ok::<T, Seq<char>>(item),
                Err(message) => self.value_or_message() == Err::<T, Seq<char>>(message@),
            },
    ;
}

impl<T> ResultFFIExt<T> for Option<T> {
    open spec fn value_or_message(self) -> Result<T, Seq<char>> {
        match self {
            Some(item) => Ok(item),
            None => Err("Got empty option"@),
        }
    }

    fn get_value(self) -> (value: Result<T, String>) {
        match self {
            Some(item) => Ok(item),
            None => Err("Got empty option".to_owned()),
        }
    }
}

impl<T> ResultFFIExt<T> for Result<T, FfiError> {
    open spec fn value_or_message(self) -> Result<T, Seq<char>> {
        match self {
            Ok(item) => Ok(item),
            Err(error) => Err(error.message_text()),
        }
    }

    fn get_value(self) -> (value: Result<T, String>) {
        match self {
            Ok(item) => Ok(item),
            Err(error) => Err(error.message()),
        }
    }
}

impl<T> ResultFFIExt<T> for Result<T, String> {
    open spec fn value_or_message(self) -> Result<T, Seq<char>> {
        match self {
            Ok(item) => Ok(item),
            Err(message) => Err(message@),
        }
    }

    fn get_value(self) -> (value: Result<T, String>) {
        self
    }
}

/// The address of a pointer, unless the pointer is null.
pub fn ptr_to_option(ptr: usize) -> (address: Option<usize>)
    ensures
        address == (if ptr == 0 {
            None
        } else {
            Some(ptr)
        }),
{
    if ptr == 0 {
        None
    } else {
        Some(ptr)
    }
}

/// An index or size handed in by the host, as an unsigned number.
pub fn try_as_usize(size: Cell) -> (converted: Result<usize, FfiError>)
    ensures
        converted == (if size >= 0 {
            Ok::<usize, FfiError>(size as usize)
        } else {
            Err::<usize, FfiError>(FfiError::NegativeIndex(size))
        }),
{
    if size >= 0 {
        Ok(size as usize)
    } else {
        Err(FfiError::NegativeIndex(size))
    }
}

/// The number of bytes reported for copying a text of `text_len` bytes, with
/// its closing zero byte, into a buffer of `size` bytes: the smaller of the
/// two lengths.
pub open spec fn copy_length(size: Cell, text_len: usize) -> int {
    if size <= text_len {
        size as int
    } else {
        text_len + 1
    }
}

/// Computes what a copy into the host's buffer reports. A negative buffer
/// size is refused.
pub fn copied_length(size: Cell, text_len: usize) -> (copied: Result<Cell, FfiError>)
    ensures
        copied == (if size >= 0 {
            Ok::<Cell, FfiError>(copy_length(size, text_len) as Cell)
        } else {
            Err::<Cell, FfiError>(FfiError::NegativeIndex(size))
        }),
        size >= 0 ==> 0 <= copy_length(size, text_len) <= size,
{
    let room = try_as_usize(size)?;
    if room <= text_len {
        Ok(size)
    } else {
        Ok((text_len + 1) as Cell)
    }
}

} // verus!
