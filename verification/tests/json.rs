use grip::errors::{FfiError, PathError};
use grip::json::{JsonNumber, JsonValue};
use grip::json_path::ValueExt;

fn number(n: u64) -> JsonValue {
    JsonValue::Number(JsonNumber::PosInt(n))
}

fn text(s: &str) -> JsonValue {
    JsonValue::String(s.to_string())
}

fn object(members: Vec<(&str, JsonValue)>) -> JsonValue {
    JsonValue::Object(members.into_iter().map(|(k, v)| (k.to_string(), v)).collect())
}

fn sample() -> JsonValue {
    object(vec![("a", object(vec![("b", number(123))]))])
}

#[test]
fn dot_index_safe() {
    let mut json = sample();

    assert_eq!(json.dot_index_safe("a.b").unwrap().as_u64().unwrap(), 123);
    assert!(json.dot_index_safe("a.b.c").is_err());
    assert!(json.dot_index_safe("a..").is_err());
    assert!(json.dot_index_safe("a").unwrap().is_object());

    assert!(json.dot_index_safe_mut("a.b.c").is_err());
    assert_eq!(json.dot_index_safe_mut("a.b").unwrap().as_u64().unwrap(), 123);
    assert!(json.dot_index_safe_mut("a..").is_err());
    assert!(json.dot_index_safe_mut("a").unwrap().is_object());

    assert_eq!(json.index_selective_safe("a.b", true).unwrap().as_u64().unwrap(), 123);
    assert!(json.index_selective_safe("a.b.c", true).is_err());
    assert!(json.index_selective_safe("a..", true).is_err());
    assert!(json.index_selective_safe("a", true).unwrap().is_object());

    assert_eq!(json.index_selective_safe_mut("a.b", true).unwrap().as_u64().unwrap(), 123);
    assert!(json.index_selective_safe_mut("a.b.c", true).is_err());
    assert!(json.index_selective_safe_mut("a..", true).is_err());
    assert!(json.index_selective_safe_mut("a", true).unwrap().is_object());

    assert!(json.index_selective_safe("a", false).unwrap().is_object());
    assert!(json.index_selective_safe("a.b.c", false).is_err());

    assert!(json.index_selective_safe_mut("a", false).unwrap().is_object());
    assert!(json.index_selective_safe_mut("a.b.c", false).is_err());
}

#[test]
fn path_errors_are_structured() {
    let json = sample();
    assert_eq!(json.dot_index_safe("a.b.c").unwrap_err(), PathError::NotAnObject);
    assert_eq!(json.dot_index_safe("a..").unwrap_err(), PathError::EmptySegment);
    assert_eq!(json.dot_index_safe("a.").unwrap_err(), PathError::EmptySegment);
    assert_eq!(json.dot_index_safe("").unwrap_err(), PathError::EmptySegment);
    assert_eq!(json.dot_index_safe(".a").unwrap_err(), PathError::EmptySegment);
    assert_eq!(json.dot_index_safe("a.x").unwrap_err(), PathError::MissingKey);
    assert_eq!(json.dot_index_safe("x").unwrap_err(), PathError::MissingKey);
    assert_eq!(json.dot_index_safe("x..").unwrap_err(), PathError::MissingKey);
    assert_eq!(number(1).dot_index_safe("a").unwrap_err(), PathError::NotAnObject);
    assert_eq!(json.index_safe("a.b").unwrap_err(), PathError::MissingKey);
    assert_eq!(number(1).index_safe("a").unwrap_err(), PathError::NotAnObject);
}

#[test]
fn names_with_dots_are_reached_without_dot_notation() {
    let json = object(vec![("a.b", number(1)), ("a", object(vec![("b", number(2))]))]);
    assert_eq!(json.index_selective_safe("a.b", false).unwrap().as_u64(), Some(1));
    assert_eq!(json.index_selective_safe("a.b", true).unwrap().as_u64(), Some(2));
}

#[test]
fn lookup_takes_the_first_member_of_a_name() {
    let json = object(vec![("k", number(1)), ("k", number(2))]);
    assert_eq!(json.index_safe("k").unwrap().as_u64(), Some(1));
    assert_eq!(json.member_index("k"), Ok(0));
    assert_eq!(json.member_index("z"), Err(PathError::MissingKey));
}

#[test]
fn non_ascii_names_are_followed() {
    let json = object(vec![("ключ", object(vec![("é", number(7))]))]);
    assert_eq!(json.dot_index_safe("ключ.é").unwrap().as_u64(), Some(7));
    assert_eq!(json.dot_index_safe("ключ.e").unwrap_err(), PathError::MissingKey);
}

#[test]
fn mutable_lookup_changes_the_document_in_place() {
    let mut json = sample();
    *json.dot_index_safe_mut("a.b").unwrap() = text("changed");
    assert_eq!(json.dot_index_safe("a.b").unwrap().as_str(), Some("changed"));
    *json.index_safe_mut("a").unwrap() = JsonValue::Null;
    assert!(json.equals(&object(vec![("a", JsonValue::Null)])));
    assert_eq!(json.dot_index_safe_mut("a.b").unwrap_err(), PathError::NotAnObject);
}

#[test]
fn type_codes() {
    assert_eq!(JsonValue::Null.type_code(), 1);
    assert_eq!(text("s").type_code(), 2);
    assert_eq!(number(1).type_code(), 3);
    assert_eq!(object(vec![]).type_code(), 4);
    assert_eq!(JsonValue::Array(vec![]).type_code(), 5);
    assert_eq!(JsonValue::Bool(false).type_code(), 6);
}

#[test]
fn numbers_convert_as_their_kind_allows() {
    assert_eq!(JsonNumber::PosInt(5).as_i64(), Some(5));
    assert_eq!(JsonNumber::PosInt(i64::MAX as u64).as_i64(), Some(i64::MAX));
    assert_eq!(JsonNumber::PosInt(i64::MAX as u64 + 1).as_i64(), None);
    assert_eq!(JsonNumber::NegInt(-5).as_i64(), Some(-5));
    assert_eq!(JsonNumber::Float(1.5f64.to_bits()).as_i64(), None);
    assert_eq!(JsonNumber::PosInt(u64::MAX).as_u64(), Some(u64::MAX));
    assert_eq!(JsonNumber::NegInt(-1).as_u64(), None);
    assert_eq!(JsonNumber::from_i64(-3), JsonNumber::NegInt(-3));
    assert_eq!(JsonNumber::from_i64(0), JsonNumber::PosInt(0));
    assert_eq!(JsonNumber::from_i64(i64::MIN), JsonNumber::NegInt(i64::MIN));
}

#[test]
fn number_equality_is_by_kind_and_value() {
    let one = JsonNumber::PosInt(1);
    let one_float = JsonNumber::Float(1.0f64.to_bits());
    assert!(one.equals(&JsonNumber::PosInt(1)));
    assert!(!one.equals(&JsonNumber::PosInt(2)));
    assert!(!one.equals(&one_float));
    assert!(one_float.equals(&JsonNumber::Float(1.0f64.to_bits())));
    let zero = JsonNumber::Float(0.0f64.to_bits());
    let minus_zero = JsonNumber::Float((-0.0f64).to_bits());
    assert!(zero.equals(&minus_zero));
    assert!(minus_zero.equals(&zero));
    assert!(!zero.equals(&one_float));
    assert!(!JsonNumber::NegInt(-1).equals(&JsonNumber::PosInt(1)));
}

#[test]
fn float_bits_that_are_not_finite_become_null() {
    assert_eq!(JsonValue::from_float_bits(f64::NAN.to_bits()).type_code(), 1);
    assert_eq!(JsonValue::from_float_bits(f64::INFINITY.to_bits()).type_code(), 1);
    assert_eq!(JsonValue::from_float_bits(f64::NEG_INFINITY.to_bits()).type_code(), 1);
    let finite = JsonValue::from_float_bits(2.5f64.to_bits());
    assert_eq!(finite.get_number_value(), Ok(JsonNumber::Float(2.5f64.to_bits())));
    assert_eq!(JsonValue::from_float_bits(f64::MAX.to_bits()).type_code(), 3);
}

#[test]
fn documents_compare_by_content() {
    let a = object(vec![("x", number(1)), ("y", JsonValue::Array(vec![text("s"), JsonValue::Null]))]);
    let b = object(vec![("y", JsonValue::Array(vec![text("s"), JsonValue::Null])), ("x", number(1))]);
    let c = object(vec![("x", number(1)), ("y", JsonValue::Array(vec![JsonValue::Null, text("s")]))]);
    let d = object(vec![("x", number(1))]);
    assert!(a.equals(&a));
    assert!(a.equals(&b));
    assert!(b.equals(&a));
    assert!(!a.equals(&c));
    assert!(!a.equals(&d));
    assert!(!d.equals(&a));
    assert!(!JsonValue::Null.equals(&JsonValue::Bool(false)));
    assert!(JsonValue::Bool(true).equals(&JsonValue::Bool(true)));
    assert!(!text("a").equals(&text("b")));
    assert!(!JsonValue::Array(vec![]).equals(&object(vec![])));
}

#[test]
fn duplicate_is_an_equal_independent_copy() {
    let first = sample();
    let mut copy = first.duplicate();
    assert!(copy.equals(&first));
    *copy.dot_index_safe_mut("a.b").unwrap() = number(5);
    assert!(!copy.equals(&first));
    assert_eq!(first.dot_index_safe("a.b").unwrap().as_u64(), Some(123));
}

#[test]
fn getters_check_the_kind() {
    assert_eq!(text("hi").get_string(), Ok("hi"));
    assert_eq!(number(1).get_string(), Err(FfiError::NotString));
    assert_eq!(number(7).get_number(), Ok(7));
    assert_eq!(JsonValue::Number(JsonNumber::NegInt(-7)).get_number(), Ok(-7));
    assert_eq!(JsonValue::Number(JsonNumber::PosInt(u64::MAX)).get_number(), Err(FfiError::NumberNotInteger));
    assert_eq!(
        JsonValue::Number(JsonNumber::Float(1.5f64.to_bits())).get_number(),
        Err(FfiError::NumberNotInteger)
    );
    assert_eq!(text("1").get_number(), Err(FfiError::NotNumber));
    assert_eq!(text("1").get_number_value(), Err(FfiError::NotNumber));
    assert_eq!(JsonValue::Bool(true).get_bool(), Ok(true));
    assert_eq!(JsonValue::Null.get_bool(), Err(FfiError::NotBool));
    assert_eq!(JsonValue::Bool(true).as_bool(), Some(true));
    assert_eq!(number(1).as_bool(), None);
    assert_eq!(number(1).as_i64(), Some(1));
    assert_eq!(text("x").as_u64(), None);
    assert!(JsonValue::Array(vec![]).is_array());
    assert!(!JsonValue::Null.is_array());
}

#[test]
fn array_items_are_reached_by_index() {
    let array = JsonValue::Array(vec![number(1), text("two")]);
    assert_eq!(array.array_count(), Ok(2));
    assert_eq!(array.array_item(0).unwrap().as_u64(), Some(1));
    assert_eq!(array.array_item(1).unwrap().as_str(), Some("two"));
    assert_eq!(array.array_item(2).unwrap_err(), FfiError::IndexOutOfRange(2));
    assert_eq!(array.array_item(-1).unwrap_err(), FfiError::NegativeIndex(-1));
    assert_eq!(number(1).array_item(0).unwrap_err(), FfiError::NotArray);
    assert_eq!(number(1).array_count(), Err(FfiError::NotArray));
}

#[test]
fn arrays_change_in_place() {
    let mut array = JsonValue::Array(vec![number(1), number(2), number(3)]);
    assert_eq!(array.array_replace(1, text("two")), Ok(()));
    assert_eq!(array.array_append(JsonValue::Null), Ok(()));
    assert!(array.equals(&JsonValue::Array(vec![number(1), text("two"), number(3), JsonValue::Null])));
    let taken = array.array_remove(0).unwrap();
    assert_eq!(taken.as_u64(), Some(1));
    assert!(array.equals(&JsonValue::Array(vec![text("two"), number(3), JsonValue::Null])));
    assert_eq!(array.array_replace(3, number(0)), Err(FfiError::IndexOutOfRange(3)));
    assert_eq!(array.array_replace(-2, number(0)), Err(FfiError::NegativeIndex(-2)));
    assert_eq!(array.array_remove(3).unwrap_err(), FfiError::IndexOutOfRange(3));
    assert_eq!(array.array_remove(-1).unwrap_err(), FfiError::NegativeIndex(-1));
    assert_eq!(array.array_count(), Ok(3));
    assert_eq!(array.array_clear(), Ok(()));
    assert_eq!(array.array_count(), Ok(0));
    let mut not_array = number(1);
    assert_eq!(not_array.array_append(JsonValue::Null), Err(FfiError::NotArray));
    assert_eq!(not_array.array_replace(0, JsonValue::Null), Err(FfiError::NotArray));
    assert_eq!(not_array.array_remove(0).unwrap_err(), FfiError::NotArray);
    assert_eq!(not_array.array_clear(), Err(FfiError::NotArray));
    assert_eq!(not_array.as_u64(), Some(1));
}

#[test]
fn chars_of_gives_every_character() {
    assert_eq!(grip::text::chars_of("a.é"), vec!['a', '.', 'é']);
    assert_eq!(grip::text::chars_of(""), Vec::<char>::new());
}

#[test]
fn a_name_twice_in_an_object_hides_the_second_member() {
    let twice = object(vec![("k", number(1)), ("k", number(2))]);
    assert!(!twice.equals(&twice));
    let once = object(vec![("k", number(1)), ("j", number(2))]);
    assert!(once.equals(&once));
}

#[test]
fn replacing_a_member_leaves_the_others() {
    let mut json = object(vec![("a", number(1)), ("b", number(2))]);
    *json.index_safe_mut("a").unwrap() = number(9);
    assert_eq!(json.index_safe("a").unwrap().as_u64(), Some(9));
    assert_eq!(json.index_safe("b").unwrap().as_u64(), Some(2));
    assert_eq!(json.index_safe_mut("c").unwrap_err(), PathError::MissingKey);
    assert_eq!(number(1).index_safe_mut("a").unwrap_err(), PathError::NotAnObject);
}
