use grip::errors::FfiError;
use grip::ext::{copied_length, ptr_to_option, try_as_usize, ResultFFIExt};

#[test]
fn copy_unsafe_string_test() {
    // A buffer size below zero is refused; a text of one byte and its closing
    // zero fill a buffer of two.
    assert_eq!(copied_length(-1, 1), Err(FfiError::NegativeIndex(-1)));
    assert_eq!(copied_length(2, 1), Ok(2));
}

#[test]
fn copied_length_is_the_smaller_of_the_two() {
    assert_eq!(copied_length(0, 5), Ok(0));
    assert_eq!(copied_length(3, 5), Ok(3));
    assert_eq!(copied_length(5, 5), Ok(5));
    assert_eq!(copied_length(6, 5), Ok(6));
    assert_eq!(copied_length(7, 5), Ok(6));
    assert_eq!(copied_length(100, 0), Ok(1));
    assert_eq!(copied_length(isize::MAX, 0), Ok(1));
    assert_eq!(copied_length(isize::MIN, 0), Err(FfiError::NegativeIndex(isize::MIN)));
}

#[test]
fn null_pointer_is_none() {
    assert_eq!(ptr_to_option(0), None);
    assert_eq!(ptr_to_option(1), Some(1));
    assert_eq!(ptr_to_option(usize::MAX), Some(usize::MAX));
}

#[test]
fn sizes_below_zero_are_refused() {
    assert_eq!(try_as_usize(0), Ok(0));
    assert_eq!(try_as_usize(17), Ok(17));
    assert_eq!(try_as_usize(isize::MAX), Ok(isize::MAX as usize));
    assert_eq!(try_as_usize(-1), Err(FfiError::NegativeIndex(-1)));
}

#[test]
fn get_value_of_option() {
    assert_eq!(Some(5).get_value(), Ok(5));
    assert_eq!(None::<i32>.get_value(), Err("Got empty option".to_string()));
}

#[test]
fn get_value_of_result() {
    let ok: Result<i32, FfiError> = Ok(3);
    assert_eq!(ok.get_value(), Ok(3));
    let err: Result<i32, FfiError> = Err(FfiError::InvalidBodyHandle(7));
    assert_eq!(err.get_value(), Err("Invalid body handle 7".to_string()));
}

#[test]
fn get_value_of_result_with_a_message() {
    let ok: Result<u8, String> = Ok(1);
    assert_eq!(ok.get_value(), Ok(1));
    let err: Result<u8, String> = Err("Invalid URI.".to_string());
    assert_eq!(err.get_value(), Err("Invalid URI.".to_string()));
}
