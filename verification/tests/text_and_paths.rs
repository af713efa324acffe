use lineart::error::LineartError;
use lineart::image_generation::{build_image_directory_path, build_image_output_path};
use lineart::paths::{check_file_type_is_image, join_path, variant_file_name};
use lineart::text::{push_decimal, to_decimal};

#[test]
fn decimal_of_zero_is_one_digit() {
    assert_eq!(to_decimal(0), "0");
}

#[test]
fn decimal_of_single_digits() {
    let expected = ["0", "1", "2", "3", "4", "5", "6", "7", "8", "9"];
    for (value, text) in expected.iter().enumerate() {
        assert_eq!(to_decimal(value as i64), *text);
    }
}

#[test]
fn decimal_has_no_leading_zeros() {
    assert_eq!(to_decimal(10), "10");
    assert_eq!(to_decimal(100), "100");
    assert_eq!(to_decimal(1005), "1005");
    assert_eq!(to_decimal(255), "255");
}

#[test]
fn decimal_of_negative_values_starts_with_minus() {
    assert_eq!(to_decimal(-1), "-1");
    assert_eq!(to_decimal(-42), "-42");
    assert_eq!(to_decimal(-1000), "-1000");
}

#[test]
fn decimal_of_the_extremes() {
    assert_eq!(to_decimal(i32::MAX as i64), "2147483647");
    assert_eq!(to_decimal(i32::MIN as i64), "-2147483648");
    assert_eq!(to_decimal(i64::MAX), "9223372036854775807");
    assert_eq!(to_decimal(i64::MIN), "-9223372036854775808");
}

#[test]
fn decimal_agrees_with_the_standard_formatting() {
    let mut value: i64 = -70_000;
    while value <= 70_000 {
        assert_eq!(to_decimal(value), format!("{}", value));
        value += 37;
    }
}

#[test]
fn push_decimal_appends_to_what_is_there() {
    let mut text = String::from("radius=");
    push_decimal(&mut text, 17);
    assert_eq!(text, "radius=17");
    push_decimal(&mut text, -3);
    assert_eq!(text, "radius=17-3");
}

#[test]
fn variant_file_name_has_radius_and_level() {
    assert_eq!(variant_file_name(1, 0), "blur_1_darken_0.png");
    assert_eq!(variant_file_name(3, 2), "blur_3_darken_2.png");
    assert_eq!(variant_file_name(12, 255), "blur_12_darken_255.png");
    assert_eq!(variant_file_name(-4, 7), "blur_-4_darken_7.png");
}

#[test]
fn join_path_puts_one_separator_between() {
    assert_eq!(join_path("out", "cat"), "out/cat");
    assert_eq!(join_path("./multiple_images", "cat"), "./multiple_images/cat");
}

#[test]
fn join_path_keeps_a_trailing_separator_single() {
    assert_eq!(join_path("out/", "cat"), "out/cat");
    assert_eq!(join_path("/", "cat"), "/cat");
}

#[test]
fn join_path_with_an_empty_directory_is_the_name() {
    assert_eq!(join_path("", "cat"), "cat");
}

#[test]
fn join_path_with_a_rooted_name_is_the_name() {
    assert_eq!(join_path("out", "/tmp/cat"), "/tmp/cat");
}

#[test]
fn join_path_with_an_empty_name_ends_in_a_separator() {
    assert_eq!(join_path("out", ""), "out/");
}

#[test]
fn join_path_agrees_with_the_standard_path_on_this_platform() {
    let dirs = ["", "out", "out/", "./multiple_images", "/", "a/b/c", "é/ü"];
    let names = ["cat", "", "/abs", "blur_1_darken_0.png", "ñ"];
    for dir in dirs.iter() {
        for name in names.iter() {
            let expected = std::path::Path::new(dir).join(name);
            if std::path::MAIN_SEPARATOR == '/' {
                assert_eq!(join_path(dir, name), expected.to_str().unwrap());
            }
        }
    }
}

#[test]
fn output_path_lies_below_the_image_directory() {
    assert_eq!(build_image_output_path("out/cat", 1, 0), "out/cat/blur_1_darken_0.png");
    assert_eq!(build_image_output_path("out/cat/", 2, 1), "out/cat/blur_2_darken_1.png");
    assert_eq!(build_image_output_path("", 5, 9), "blur_5_darken_9.png");
}

#[test]
fn output_path_of_a_negative_radius() {
    assert_eq!(build_image_output_path("d", -3, 4), "d/blur_-3_darken_4.png");
}

#[test]
fn directory_path_is_output_directory_and_stem() {
    assert_eq!(
        build_image_directory_path(Some("cat"), "./multiple_images"),
        Ok(String::from("./multiple_images/cat"))
    );
    assert_eq!(build_image_directory_path(Some("photo.final"), "out/"), Ok(String::from("out/photo.final")));
}

#[test]
fn directory_path_without_a_stem_is_an_error() {
    assert_eq!(build_image_directory_path(None, "out"), Err(LineartError::MissingStem));
}

#[test]
fn image_files_are_told_by_their_extension() {
    assert!(check_file_type_is_image(true, Some("png")));
    assert!(check_file_type_is_image(true, Some("jpg")));
    assert!(check_file_type_is_image(true, Some("jpeg")));
}

#[test]
fn other_extensions_are_not_images() {
    assert!(!check_file_type_is_image(true, Some("gif")));
    assert!(!check_file_type_is_image(true, Some("PNG")));
    assert!(!check_file_type_is_image(true, Some("pn")));
    assert!(!check_file_type_is_image(true, Some("pngx")));
    assert!(!check_file_type_is_image(true, Some("")));
    assert!(!check_file_type_is_image(true, None));
}

#[test]
fn what_is_not_a_file_is_not_an_image() {
    assert!(!check_file_type_is_image(false, Some("png")));
    assert!(!check_file_type_is_image(false, None));
}
