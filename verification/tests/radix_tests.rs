use soundboard::radix::{hex_to_i32, hex_to_i64, parse_usize, try_hex_to_i32, try_hex_to_i64};

#[test]
fn hex_with_and_without_prefix() {
    assert_eq!(hex_to_i32("0x1a"), 26);
    assert_eq!(hex_to_i32("1a"), 26);
    assert_eq!(hex_to_i32("0x0x1A"), 26);
    assert_eq!(hex_to_i64("0xFFFFFFFF"), 4294967295);
}

#[test]
fn hex_signs() {
    assert_eq!(hex_to_i32("-10"), -16);
    assert_eq!(hex_to_i32("+7f"), 127);
    assert_eq!(hex_to_i32("-80000000"), i32::MIN);
    assert_eq!(hex_to_i32("7fffffff"), i32::MAX);
    assert_eq!(hex_to_i64("-8000000000000000"), i64::MIN);
}

#[test]
fn hex_rejects_what_std_rejects() {
    assert_eq!(try_hex_to_i32(""), None);
    assert_eq!(try_hex_to_i32("0x"), None);
    assert_eq!(try_hex_to_i32("+"), None);
    assert_eq!(try_hex_to_i32("-"), None);
    assert_eq!(try_hex_to_i32("80000000"), None);
    assert_eq!(try_hex_to_i32("ffffffff"), None);
    assert_eq!(try_hex_to_i32("1g"), None);
    assert_eq!(try_hex_to_i32(" 1"), None);
    assert_eq!(try_hex_to_i64("10000000000000000"), None);
}

#[test]
fn hex_agrees_with_std() {
    for s in ["0", "a", "FF", "-ff", "+0", "123abc", "7FFFFFFF", "-80000000", "80000000", "x1", "0X1", "é"] {
        let trimmed = s.trim_start_matches("0x");
        assert_eq!(try_hex_to_i32(s), i32::from_str_radix(trimmed, 16).ok(), "input {:?}", s);
        assert_eq!(try_hex_to_i64(s), i64::from_str_radix(trimmed, 16).ok(), "input {:?}", s);
    }
}

#[test]
fn hex_i32_value_is_the_i64_value() {
    for s in ["0x10", "-7", "7fffffff"] {
        assert_eq!(try_hex_to_i32(s).map(|v| v as i64), try_hex_to_i64(s));
    }
}

#[test]
fn decimal_usize() {
    assert_eq!(parse_usize("3"), Some(3));
    assert_eq!(parse_usize("+12"), Some(12));
    assert_eq!(parse_usize("-1"), None);
    assert_eq!(parse_usize(""), None);
    assert_eq!(parse_usize("1a"), None);
    assert_eq!(parse_usize("18446744073709551615"), "18446744073709551615".parse::<usize>().ok());
    assert_eq!(parse_usize("18446744073709551616"), None);
}

#[test]
fn parsing_formatted_hex_gives_the_number_back() {
    for n in [0i32, 1, 15, 16, 255, 0x1234abcd, i32::MAX, -1, -16, i32::MIN] {
        let t = format!("{:x}", n.unsigned_abs());
        if n >= 0 {
            assert_eq!(hex_to_i32(&format!("0x{}", t)), n);
        } else {
            assert_eq!(hex_to_i32(&format!("-{}", t)), n);
        }
    }
    for n in [0i64, 0xdeadbeef, i64::MAX, -2, i64::MIN] {
        let t = format!("{:x}", n.unsigned_abs());
        if n >= 0 {
            assert_eq!(hex_to_i64(&format!("0x{}", t)), n);
        } else {
            assert_eq!(hex_to_i64(&format!("-{}", t)), n);
        }
    }
}
