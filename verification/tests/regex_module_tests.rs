#![allow(unused_imports)]
use matrix_bot::command::{no_bang_is_match, unit_conversion_command, unit_conversion_command_is_match};
use matrix_bot::basic::basic_is_match;

#[test]
fn no_bang_test_bang_at_front() {
        assert_eq!(false, no_bang_is_match("!convert"));
    }

#[test]
fn no_bang_test_bang_at_end() {
        assert_eq!(true, no_bang_is_match("convert!"));
    }

#[test]
fn no_bang_test_bang_after_starting_space() {
        assert_eq!(true, no_bang_is_match(" !convert"));
    }

#[test]
fn no_bang_test_no_bang() {
        assert_eq!(true, no_bang_is_match("hoogaboogawooga"));
    }

#[test]
fn single_unit_conversion_test_match() {
        assert_eq!(true, unit_conversion_command_is_match("!convert 22km"))
    }

#[test]
fn single_unit_conversion_test_match_float() {
        assert_eq!(true, unit_conversion_command_is_match("!convert 22.2km"))
    }

#[test]
fn single_unit_conversion_test_match_space() {
        assert_eq!(true, unit_conversion_command_is_match("!convert 22 km"))
    }

#[test]
fn single_unit_conversion_test_match_float_space() {
        assert_eq!(true, unit_conversion_command_is_match("!convert 22.2 km"))
    }

#[test]
fn single_unit_conversion_test_match_forwardslash() {
        assert_eq!(true, unit_conversion_command_is_match("!convert 22km/h"))
    }

#[test]
fn single_unit_conversion_test_match_forwardslash_space() {
        assert_eq!(true, unit_conversion_command_is_match("!convert 22 km/h"))
    }

#[test]
fn single_unit_conversion_test_match_float_forwardslash() {
        assert_eq!(true, unit_conversion_command_is_match("!convert 22.2km/h"))
    }

#[test]
fn single_unit_conversion_test_match_float_forwardslash_space() {
        assert_eq!(true, unit_conversion_command_is_match("!convert 22.2 km/h"))
    }

#[test]
fn single_unit_conversion_test_match_single_digit() {
        assert_eq!(true, unit_conversion_command_is_match("!convert 6ft"))
    }

#[test]
fn single_unit_conversion_test_match_single_digit_space() {
        assert_eq!(true, unit_conversion_command_is_match("!convert 6 ft"))
    }

#[test]
fn single_unit_conversion_test_match_single_digit_forwardslash() {
        assert_eq!(true, unit_conversion_command_is_match("!convert 6km/h"))
    }

#[test]
fn single_unit_conversion_test_match_single_digit_forwardslash_space() {
        assert_eq!(true, unit_conversion_command_is_match("!convert 6 km/h"))
    }

#[test]
fn single_unit_conversion_test_match_single_letter() {
        assert_eq!(true, unit_conversion_command_is_match("!convert 22c"))
    }

#[test]
fn single_unit_conversion_test_match_single_letter_space() {
        assert_eq!(true, unit_conversion_command_is_match("!convert 22 c"))
    }

#[test]
fn single_unit_conversion_test_capture() {
        let (mut quantity, mut unit) = (String::new(), String::new());
        for cap in unit_conversion_command("!convert 22km") {
            quantity = cap.quantity.clone();
            unit = cap.unit.clone();
        }
        let quantity = quantity.parse::<f64>().unwrap();
        assert_eq!((22.0, "km"), (quantity, unit.as_str()))
    }

#[test]
fn single_unit_conversion_test_capture_float() {
        let (mut quantity, mut unit) = (String::new(), String::new());
        for cap in unit_conversion_command("!convert 22.2km") {
            quantity = cap.quantity.clone();
            unit = cap.unit.clone();
        }
        let quantity = quantity.parse::<f64>().unwrap();
        assert_eq!((22.2, "km"), (quantity, unit.as_str()))
    }

#[test]
fn single_unit_conversion_test_capture_space() {
        let (mut quantity, mut unit) = (String::new(), String::new());
        for cap in unit_conversion_command("!convert 22 km") {
            quantity = cap.quantity.clone();
            unit = cap.unit.clone();
        }
        let quantity = quantity.parse::<f64>().unwrap();
        assert_eq!((22.0, "km"), (quantity, unit.as_str()))
    }

#[test]
fn single_unit_conversion_test_capture_float_space() {
        let (mut quantity, mut unit) = (String::new(), String::new());
        for cap in unit_conversion_command("!convert 22.2 km") {
            quantity = cap.quantity.clone();
            unit = cap.unit.clone();
        }
        let quantity = quantity.parse::<f64>().unwrap();
        assert_eq!((22.2, "km"), (quantity, unit.as_str()))
    }

#[test]
fn single_unit_conversion_test_capture_forwardslash() {
        let (mut quantity, mut unit) = (String::new(), String::new());
        for cap in unit_conversion_command("!convert 22km/h") {
            quantity = cap.quantity.clone();
            unit = cap.unit.clone();
        }
        let quantity = quantity.parse::<f64>().unwrap();
        assert_eq!((22.0, "km/h"), (quantity, unit.as_str()))
    }

#[test]
fn single_unit_conversion_test_capture_forwardslash_space() {
        let (mut quantity, mut unit) = (String::new(), String::new());
        for cap in unit_conversion_command("!convert 22 km/h") {
            quantity = cap.quantity.clone();
            unit = cap.unit.clone();
        }
        let quantity = quantity.parse::<f64>().unwrap();
        assert_eq!((22.0, "km/h"), (quantity, unit.as_str()))
    }

#[test]
fn single_unit_conversion_test_capture_forwardslash_float() {
        let (mut quantity, mut unit) = (String::new(), String::new());
        for cap in unit_conversion_command("!convert 22.2km/h") {
            quantity = cap.quantity.clone();
            unit = cap.unit.clone();
        }
        let quantity = quantity.parse::<f64>().unwrap();
        assert_eq!((22.2, "km/h"), (quantity, unit.as_str()))
    }

#[test]
fn single_unit_conversion_test_capture_forwardslash_float_space() {
        let (mut quantity, mut unit) = (String::new(), String::new());
        for cap in unit_conversion_command("!convert 22.2 km/h") {
            quantity = cap.quantity.clone();
            unit = cap.unit.clone();
        }
        let quantity = quantity.parse::<f64>().unwrap();
        assert_eq!((22.2, "km/h"), (quantity, unit.as_str()))
    }

#[test]
fn single_unit_conversion_test_capture_single_digit() {
        let (mut quantity, mut unit) = (String::new(), String::new());
        for cap in unit_conversion_command("!convert 6km") {
            quantity = cap.quantity.clone();
            unit = cap.unit.clone();
        }
        let quantity = quantity.parse::<f64>().unwrap();
        assert_eq!((6.0, "km"), (quantity, unit.as_str()))
    }

#[test]
fn single_unit_conversion_test_capture_single_digit_space() {
        let (mut quantity, mut unit) = (String::new(), String::new());
        for cap in unit_conversion_command("!convert 6 km") {
            quantity = cap.quantity.clone();
            unit = cap.unit.clone();
        }
        let quantity = quantity.parse::<f64>().unwrap();
        assert_eq!((6.0, "km"), (quantity, unit.as_str()))
    }

#[test]
fn single_unit_conversion_test_capture_single_digit_forwardslash() {
        let (mut quantity, mut unit) = (String::new(), String::new());
        for cap in unit_conversion_command("!convert 6km/h") {
            quantity = cap.quantity.clone();
            unit = cap.unit.clone();
        }
        let quantity = quantity.parse::<f64>().unwrap();
        assert_eq!((6.0, "km/h"), (quantity, unit.as_str()))
    }

#[test]
fn single_unit_conversion_test_capture_single_digit_forwardslash_space() {
        let (mut quantity, mut unit) = (String::new(), String::new());
        for cap in unit_conversion_command("!convert 6 km/h") {
            quantity = cap.quantity.clone();
            unit = cap.unit.clone();
        }
        let quantity = quantity.parse::<f64>().unwrap();
        assert_eq!((6.0, "km/h"), (quantity, unit.as_str()))
    }

#[test]
fn single_unit_conversion_test_capture_single_letter() {
        let (mut quantity, mut unit) = (String::new(), String::new());
        for cap in unit_conversion_command("!convert 22c") {
            quantity = cap.quantity.clone();
            unit = cap.unit.clone();
        }
        let quantity = quantity.parse::<f64>().unwrap();
        assert_eq!((22.0, "c"), (quantity, unit.as_str()))
    }

#[test]
fn single_unit_conversion_test_capture_single_letter_space() {
        let (mut quantity, mut unit) = (String::new(), String::new());
        for cap in unit_conversion_command("!convert 22 c") {
            quantity = cap.quantity.clone();
            unit = cap.unit.clone();
        }
        let quantity = quantity.parse::<f64>().unwrap();
        assert_eq!((22.0, "c"), (quantity, unit.as_str()))
    }

#[test]
fn regex_unit_conversion_test_match_single() {
        assert_eq!(true, basic_is_match("you are 22km from me"))
    }

#[test]
fn regex_unit_conversion_test_match_single_forwardslash() {
        assert_eq!(
            true,
            basic_is_match("you are going 22km/h right now")
        )
    }

#[test]
fn regex_unit_conversion_test_match_single_float() {
        assert_eq!(true, basic_is_match("you are 22.2km from me"))
    }

#[test]
fn regex_unit_conversion_test_match_single_float_forwardslash() {
        assert_eq!(
            true,
            basic_is_match("you are going 22.2km/h right now")
        )
    }

#[test]
fn regex_unit_conversion_test_match_single_space() {
        assert_eq!(true, basic_is_match("you are 22 km from me"))
    }

#[test]
fn regex_unit_conversion_test_match_single_float_space() {
        assert_eq!(true, basic_is_match("you are 22.2 km from me"))
    }

#[test]
fn regex_unit_conversion_test_match_single_at_end() {
        assert_eq!(true, basic_is_match("its 22km"))
    }

#[test]
fn regex_unit_conversion_test_match_single_at_end_float() {
        assert_eq!(true, basic_is_match("its 22.2km"))
    }

#[test]
fn regex_unit_conversion_test_match_single_at_end_space() {
        assert_eq!(true, basic_is_match("its 22 km"))
    }

#[test]
fn regex_unit_conversion_test_match_single_at_end_float_space() {
        assert_eq!(true, basic_is_match("its 22.2 km"))
    }

#[test]
fn regex_unit_conversion_test_match_single_at_beginning() {
        assert_eq!(true, basic_is_match("22km away from me"))
    }

#[test]
fn regex_unit_conversion_test_match_single_at_beginning_float() {
        assert_eq!(true, basic_is_match("22.2km away from me"))
    }

#[test]
fn regex_unit_conversion_test_match_single_at_beginning_space() {
        assert_eq!(true, basic_is_match("22 km away from me"))
    }

#[test]
fn regex_unit_conversion_test_match_single_at_beginning_float_space() {
        assert_eq!(true, basic_is_match("22.2 km away from me"))
    }

#[test]
fn regex_unit_conversion_test_match_multiple() {
        assert_eq!(
            true,
            basic_is_match("you are 22km from me. at 22kmph itll be 1 hour to get here")
        )
    }

#[test]
fn regex_unit_conversion_test_match_multiple_float() {
        assert_eq!(
            true,
            basic_is_match("you are 22.2km from me. at 22.2kmph itll be 1 hour to get here")
        )
    }

#[test]
fn regex_unit_conversion_test_match_multiple_float_mixed() {
        assert_eq!(
            true,
            basic_is_match("you are 22.2km from me. at 22kmph itll be 1 hour to get here")
        )
    }

#[test]
fn regex_unit_conversion_test_match_multiple_space() {
        assert_eq!(
            true,
            basic_is_match("you are 22 km from me. at 22 kmph itll be 1 hour to get here")
        )
    }

#[test]
fn regex_unit_conversion_test_match_multiple_float_multiple_space() {
        assert_eq!(
            true,
            basic_is_match("you are 22.2 km from me. at 22.2 kmph itll be 1 hour to get here")
        )
    }

#[test]
fn regex_unit_conversion_test_match_multiple_float_mixed_space() {
        assert_eq!(
            true,
            basic_is_match("you are 22.2 km from me. at 22.2kmph itll be 1 hour to get here")
        )
    }

#[test]
fn regex_unit_conversion_test_match_multiple_mixed_float_mixed_space() {
        assert_eq!(
            true,
            basic_is_match("you are 22.2 km from me. at 22kmph itll be 1 hour to get here")
        )
    }

#[test]
fn regex_unit_conversion_test_match_multiple_mixed_space() {
        assert_eq!(
            true,
            basic_is_match("you are 22km from me. at 22 kmph itll be 1 hour to get here")
        )
    }

#[test]
fn regex_unit_conversion_test_match_multiple_at_both_ends() {
        assert_eq!(
            true,
            basic_is_match("22km away from me. itll take 1 hour at 22kmph")
        )
    }

#[test]
fn regex_unit_conversion_test_match_multiple_at_both_ends_multiple_space() {
        assert_eq!(
            true,
            basic_is_match("22 km away from me. itll take 1 hour at 22 kmph")
        )
    }

#[test]
fn regex_unit_conversion_test_match_multiple_at_both_ends_mixed_space() {
        assert_eq!(
            true,
            basic_is_match("22 km away from me. itll take 1 hour at 22kmph")
        )
    }
