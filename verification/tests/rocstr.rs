use rocstr::boundary::extract_utf8_within;
use rocstr::RocStr;
use std::hash::DefaultHasher;
use std::hash::Hash;
use std::hash::Hasher;

#[test]
fn str_could_be_compared_to_rocstr() {
    let s = RocStr::<16>::from("foo");
    assert!("foo" == s);
}

#[test]
fn rocstr_as_str_should_be_inner_str() {
    let s = RocStr::<16>::from("foo");
    assert_eq!(s.as_str(), "foo");
}

#[test]
fn rocstr_should_equal_inner_str() {
    let s = RocStr::<16>::from("foo");
    assert_eq!(s, "foo");
}

#[test]
fn rocstr_ref_should_equal_inner_str() {
    let s = RocStr::<16>::from("foo");
    assert_eq!(&s, "foo");
}

#[test]
fn rocstr_capacity_should_be_its_generic_parameter_size() {
    let string = RocStr::<16>::from("");
    assert_eq!(string.capacity(), 16);
}

#[test]
fn empty_rocstr_should_say_it_is_empty() {
    let s = RocStr::<16>::from("");
    assert!(s.is_empty());
}

#[test]
fn not_empty_rocstr_should_say_it_is_not_empty() {
    let s = RocStr::<16>::from("foo");
    assert!(!s.is_empty());
}

#[test]
fn rocstr_len_should_count_the_number_of_bytes() {
    let s = RocStr::<16>::from("foo");
    assert_eq!(s.len(), 3);
}

#[test]
fn reshaped_rocstr_should_have_the_new_capacity() {
    let s = RocStr::<16>::from("foo");
    assert_eq!(s.reshape::<8>().capacity(), 8);
}

#[test]
fn rocstr_starts_with_should_return_true_if_it_starts_with() {
    let bananas = RocStr::<16>::from("bananas");
    assert!(bananas.starts_with("bana"));
}

#[test]
fn rocstr_starts_with_should_return_false_if_it_does_not_start_with() {
    let bananas = RocStr::<16>::from("bananas");
    assert!(!bananas.starts_with("nana"));
}

#[test]
fn bytes_from_rocstr_should_be_the_bytes_of_the_inner_str() {
    let s = RocStr::<16>::from("foo");
    let bytes: &[u8] = (&s).into();
    assert_eq!(bytes, b"foo");
}

#[test]
fn rocstr_as_bytes_should_be_the_bytes_of_the_inner_str() {
    let s = RocStr::<16>::from("foo");
    let bytes = s.as_bytes();
    assert_eq!(bytes, b"foo");
}

#[test]
fn concat_two_rocstrs_first_with_enough_capacity_should_be_the_concateenation() {
    let s = RocStr::<32>::from("Löwe 老虎 ");
    let t = RocStr::<16>::from("Léopard Gepardi");
    let expected = RocStr::<32>::from("Löwe 老虎 Léopard Gepardi");

    assert_eq!(s + t, expected);
}

#[test]
fn concat_two_rocstrs_first_without_enough_capacity_should_be_trimmed_concateenation() {
    let s = RocStr::<16>::from("Löwe 老虎 ");
    let t = RocStr::<16>::from("Léopard Gepardi");
    let expected = RocStr::<16>::from("Löwe 老虎 Lé");

    assert_eq!(s + t, expected);
}

#[test]
fn concat_a_str_to_rocstr_first_with_enough_capacity_should_be_the_concateenation() {
    let s = RocStr::<32>::from("Löwe 老虎 ");
    let t = "Léopard Gepardi";
    let expected = RocStr::<32>::from("Löwe 老虎 Léopard Gepardi");

    assert_eq!(s + t, expected);
}

#[test]
fn concat_a_str_to_rocstr_first_without_enough_capacity_should_be_trimmed_concateenation() {
    let s = RocStr::<16>::from("Löwe 老虎 ");
    let t = "Léo";
    let expected = RocStr::<16>::from("Löwe 老虎 Lé");

    assert_eq!(s + t, expected);

    let s = RocStr::<16>::from("Löwe 老虎 ");
    let t = "Léopard Gepardi";
    let expected = RocStr::<16>::from("Löwe 老虎 Lé");

    assert_eq!(s + t, expected);
}

#[test]
fn concat_an_empty_rocstr_to_rocstr_should_be_a_noop() {
    let s = RocStr::<32>::from("Löwe 老虎 ");
    let t = RocStr::<32>::default();
    let expected = RocStr::<32>::from("Löwe 老虎 ");

    assert_eq!(s + t, expected);
}

#[test]
fn concat_an_empty_str_to_rocstr_should_be_a_noop() {
    let s = RocStr::<32>::from("Löwe 老虎 ");
    let t = "";
    let expected = RocStr::<32>::from("Löwe 老虎 ");

    assert_eq!(s + t, expected);
}

#[test]
fn extract_utf8_within_should_return_the_string_if_len_is_greater_than() {
    let s = "Löwe 老虎 Léopard";
    assert_eq!(extract_utf8_within(s.as_bytes(), 32), s.as_bytes());
}

#[test]
fn extract_utf8_within_should_a_valid_utf8_with_len_lower_or_eq_than_len() {
    let s = "Löwe 老虎 Léopard";
    let len = 8;
    let extracted = extract_utf8_within(s.as_bytes(), len);
    assert_eq!(extracted, "Löwe ".as_bytes());
    assert!(extracted.len() <= len);
}

#[test]
fn convert_max_u8_to_rocstr_should_be_max_u8_as_str() {
    let expected = "255";
    let converted = RocStr::from(u8::MAX);

    assert_eq!(converted, expected);
}

#[test]
fn convert_max_u16_to_rocstr_should_be_max_u16_as_str() {
    let expected = "65535";
    let converted = RocStr::from(u16::MAX);

    assert_eq!(converted, expected);
}

#[test]
fn convert_max_u32_to_rocstr_should_be_max_u32_as_str() {
    let expected = "4294967295";
    let converted = RocStr::from(u32::MAX);

    assert_eq!(converted, expected);
}

#[test]
fn convert_max_u64_to_rocstr_should_be_max_u64_as_str() {
    let expected = "18446744073709551615";
    let converted = RocStr::from(u64::MAX);

    assert_eq!(converted, expected);
}

#[test]
fn convert_max_u128_to_rocstr_should_be_max_u128_as_str() {
    let expected = "340282366920938463463374607431768211455";
    let converted = RocStr::from(u128::MAX);

    assert_eq!(converted, expected);
}

#[test]
fn convert_max_usize_to_rocstr_should_be_max_usize_as_str() {
    let expected = "18446744073709551615";
    let converted = RocStr::from(usize::MAX);

    assert_eq!(converted, expected);
}

#[test]
fn convert_max_i8_to_rocstr_should_be_max_i8_as_str() {
    let expected = "127";
    let converted = RocStr::from(i8::MAX);

    assert_eq!(converted, expected);
}

#[test]
fn convert_max_i16_to_rocstr_should_be_max_i16_as_str() {
    let expected = "32767";
    let converted = RocStr::from(i16::MAX);

    assert_eq!(converted, expected);
}

#[test]
fn convert_max_i32_to_rocstr_should_be_max_i32_as_str() {
    let expected = "2147483647";
    let converted = RocStr::from(i32::MAX);

    assert_eq!(converted, expected);
}

#[test]
fn convert_max_i64_to_rocstr_should_be_max_i64_as_str() {
    let expected = "9223372036854775807";
    let converted = RocStr::from(i64::MAX);

    assert_eq!(converted, expected);
}

#[test]
fn convert_max_isize_to_rocstr_should_be_max_isize_as_str() {
    let expected = "9223372036854775807";
    let converted = RocStr::from(isize::MAX);

    assert_eq!(converted, expected);
}

#[test]
fn convert_min_u8_to_rocstr_should_be_min_u8_as_str() {
    let expected = "0";
    let converted = RocStr::from(u8::MIN);

    assert_eq!(converted, expected);
}

#[test]
fn convert_min_u16_to_rocstr_should_be_min_u16_as_str() {
    let expected = "0";
    let converted = RocStr::from(u16::MIN);

    assert_eq!(converted, expected);
}

#[test]
fn convert_min_u32_to_rocstr_should_be_min_u32_as_str() {
    let expected = "0";
    let converted = RocStr::from(u32::MIN);

    assert_eq!(converted, expected);
}

#[test]
fn convert_min_u64_to_rocstr_should_be_min_u64_as_str() {
    let expected = "0";
    let converted = RocStr::from(u64::MIN);

    assert_eq!(converted, expected);
}

#[test]
fn convert_min_u128_to_rocstr_should_be_min_u128_as_str() {
    let expected = "0";
    let converted = RocStr::from(u128::MIN);

    assert_eq!(converted, expected);
}

#[test]
fn convert_min_usize_to_rocstr_should_be_min_usize_as_str() {
    let expected = "0";
    let converted = RocStr::from(usize::MIN);

    assert_eq!(converted, expected);
}

#[test]
fn convert_min_i8_to_rocstr_should_be_min_i8_as_str() {
    let expected = "-128";
    let converted = RocStr::from(i8::MIN);

    assert_eq!(converted, expected);
}

#[test]
fn convert_min_i16_to_rocstr_should_be_min_i16_as_str() {
    let expected = "-32768";
    let converted = RocStr::from(i16::MIN);

    assert_eq!(converted, expected);
}

#[test]
fn convert_min_i32_to_rocstr_should_be_min_i32_as_str() {
    let expected = "-2147483648";
    let converted = RocStr::from(i32::MIN);

    assert_eq!(converted, expected);
}

#[test]
fn convert_min_i64_to_rocstr_should_be_min_i64_as_str() {
    let expected = "-9223372036854775808";
    let converted = RocStr::from(i64::MIN);

    assert_eq!(converted, expected);
}

#[test]
fn convert_min_isize_to_rocstr_should_be_min_isize_as_str() {
    let expected = "-9223372036854775808";
    let converted = RocStr::from(isize::MIN);

    assert_eq!(converted, expected);
}

#[test]
fn convert_zero_i8_to_rocstr_should_be_str_zero() {
    let converted = RocStr::from(0i8);
    assert_eq!(converted, "0");
}

#[test]
fn convert_zero_i16_to_rocstr_should_be_str_zero() {
    let converted = RocStr::from(0i16);
    assert_eq!(converted, "0");
}

#[test]
fn convert_zero_i32_to_rocstr_should_be_str_zero() {
    let converted = RocStr::from(0i32);
    assert_eq!(converted, "0");
}

#[test]
fn convert_zero_i64_to_rocstr_should_be_str_zero() {
    let converted = RocStr::from(0i64);
    assert_eq!(converted, "0");
}

#[test]
fn convert_zero_isize_to_rocstr_should_be_str_zero() {
    let converted = RocStr::from(0isize);
    assert_eq!(converted, "0");
}

#[test]
fn convert_negative_i8_to_rocstr_should_start_with_a_minus_sign() {
    let converted = RocStr::from(-42i8);

    assert_eq!(converted.as_bytes()[0], b'-');
    assert_eq!(converted, "-42");
}

#[test]
fn convert_negative_i16_to_rocstr_should_start_with_a_minus_sign() {
    let converted = RocStr::from(-42i16);

    assert_eq!(converted.as_bytes()[0], b'-');
    assert_eq!(converted, "-42");
}

#[test]
fn convert_negative_i32_to_rocstr_should_start_with_a_minus_sign() {
    let converted = RocStr::from(-42i32);

    assert_eq!(converted.as_bytes()[0], b'-');
    assert_eq!(converted, "-42");
}

#[test]
fn convert_negative_i64_to_rocstr_should_start_with_a_minus_sign() {
    let converted = RocStr::from(-42i64);

    assert_eq!(converted.as_bytes()[0], b'-');
    assert_eq!(converted, "-42");
}

#[test]
fn convert_negative_isize_to_rocstr_should_start_with_a_minus_sign() {
    let converted = RocStr::from(-42isize);

    assert_eq!(converted.as_bytes()[0], b'-');
    assert_eq!(converted, "-42");
}

#[test]
fn rocerr_debug_info_should_display_inner_field_as_str() {
    let s = RocStr::<16>::from("foo");
    assert_eq!(
        format!("{s:?}"),
        "RocStr { inner: \"foo\", len: 3 }".to_string()
    );
}

#[test]
fn hash_rocstr_should_be_the_hash_of_the_inner_str() {
    let mut hasher = DefaultHasher::new();
    "foo".hash(&mut hasher);
    let exptected = hasher.finish();

    let mut hasher = DefaultHasher::new();
    let s = RocStr::<16>::from("foo");
    s.hash(&mut hasher);
    let hash = hasher.finish();

    assert_eq!(hash, exptected);
}

#[test]
fn replace_an_str_at_the_begining_of_a_rocstr_should_be_the_rocstr_with_str_replaced() {
    let s = RocStr::<16>::from("this is old");
    assert_eq!(RocStr::<16>::from("that is old"), s.replace("this", "that"));
}

#[test]
fn replace_an_str_at_the_end_of_a_rocstr_should_be_the_rocstr_with_str_replaced() {
    let s = RocStr::<16>::from("this is old");
    assert_eq!(RocStr::<16>::from("this is new"), s.replace("old", "new"));
}

#[test]
fn replace_an_str_in_a_rocstr_should_be_the_rocstr_with_str_replaced() {
    let s = RocStr::<16>::from("this is old");
    assert_eq!(RocStr::<16>::from("than an old"), s.replace("is", "an"));
}

#[test]
fn replace_an_str_in_a_rocstr_that_overflow_should_be_the_truncated_str_replaced() {
    let s = RocStr::<16>::from("this is old");
    let replaced = s.replace("old", "obvously overflowing");

    assert!(
        replaced.len() <= replaced.capacity(),
        "Len of replaced rocstr is greater than its capacity"
    );

    assert_eq!(RocStr::<16>::from("this is obvously"), replaced);
}

#[test]
fn replace_an_str_inside_a_rocstr_that_overflow_should_be_the_truncated_str_replaced() {
    let s = RocStr::<16>::from("this is old");
    let replaced = s.replace("is", "is obvously");

    assert!(
        replaced.len() <= replaced.capacity(),
        "Len of replaced rocstr is greater than its capacity"
    );

    assert_eq!(RocStr::<16>::from("this obvously is"), replaced);
}

#[test]
fn replace_an_str_inside_a_rocstr_that_overflow_at_last_should_be_the_truncated_str_replaced() {
    let s = RocStr::<16>::from("this is old");
    let replaced = s.replace(" is", " is obvously");

    assert!(
        replaced.len() <= replaced.capacity(),
        "Len of replaced rocstr is greater than its capacity"
    );

    assert_eq!(RocStr::<16>::from("this is obvously is"), replaced);
}

#[test]
fn truncate_rocstr_should_contain_a_valid_utf8_with_at_most_len_bytes() {
    let s = RocStr::<32>::from("Löwe 老虎 Léopard");

    /* second byte of `老`is not utf-8 boundary */
    assert_eq!(s.truncate(8), "Löwe ");
}
