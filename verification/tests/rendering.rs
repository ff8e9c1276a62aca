use runtime_fmt::{FormatBuf, Param, Value};

fn shown(spec: &str, params: &[Param]) -> String {
    FormatBuf::new(spec, params).unwrap().format()
}

#[test]
fn text_is_cut_and_filled_as_the_formatter_does() {
    let s = "héllo";
    let p = [Param::normal(Value::Str(s))];
    assert_eq!(format!("{:8}|", s), shown("{:8}|", &p));
    assert_eq!(format!("{:<8}|", s), shown("{:<8}|", &p));
    assert_eq!(format!("{:>8}|", s), shown("{:>8}|", &p));
    assert_eq!(format!("{:^8}|", s), shown("{:^8}|", &p));
    assert_eq!(format!("{:*^8}|", s), shown("{:*^8}|", &p));
    assert_eq!(format!("{:*^9}|", s), shown("{:*^9}|", &p));
    assert_eq!(format!("{:.2}|", s), shown("{:.2}|", &p));
    assert_eq!(format!("{:.0}|", s), shown("{:.0}|", &p));
    assert_eq!(format!("{:.9}|", s), shown("{:.9}|", &p));
    assert_eq!(format!("{:-^7.3}|", s), shown("{:-^7.3}|", &p));
    assert_eq!(format!("{:08}|", s), shown("{:08}|", &p));
    assert_eq!(format!("{:+}|", s), shown("{:+}|", &p));
    assert_eq!(format!("{:#}|", s), shown("{:#}|", &p));
    assert_eq!(format!("{:2}|", s), shown("{:2}|", &p));
}

#[test]
fn debug_of_text_is_quoted_and_escaped() {
    let s = "a\"b\n\t\\ é";
    let p = [Param::normal(Value::Str(s))];
    assert_eq!(format!("{:?}", s), shown("{:?}", &p));
    assert_eq!(format!("{:12?}|", "ab"), shown("{:12?}|", &[Param::normal(Value::Str("ab"))]));
    assert_eq!(format!("{:.1?}|", "ab"), shown("{:.1?}|", &[Param::normal(Value::Str("ab"))]));
}

#[test]
fn characters_and_booleans() {
    let c = [Param::normal(Value::Char('x'))];
    assert_eq!(format!("{}", 'x'), shown("{}", &c));
    assert_eq!(format!("{:3}|", 'x'), shown("{:3}|", &c));
    assert_eq!(format!("{:>3}|", 'x'), shown("{:>3}|", &c));
    assert_eq!(format!("{:.0}|", 'x'), shown("{:.0}|", &c));
    assert_eq!(format!("{:?}", 'x'), shown("{:?}", &c));
    assert_eq!(format!("{:?}", '\n'), shown("{:?}", &[Param::normal(Value::Char('\n'))]));
    assert_eq!(format!("{:5?}|", 'x'), shown("{:5?}|", &c));
    let b = [Param::normal(Value::Bool(true)), Param::normal(Value::Bool(false))];
    assert_eq!(format!("{} {}", true, false), shown("{} {}", &b));
    assert_eq!(format!("{:?} {:?}", true, false), shown("{:?} {:?}", &b));
    assert_eq!(format!("{:>7}|{:<7}|", true, false), shown("{:>7}|{:<7}|", &b));
    assert_eq!(format!("{:.2}|{:7?}|", true, false), shown("{:.2}|{:7?}|", &b));
}

#[test]
fn decimal_integers() {
    let p = [Param::normal(Value::I32(-42))];
    assert_eq!(format!("{}", -42), shown("{}", &p));
    assert_eq!(format!("{:?}", -42), shown("{:?}", &p));
    assert_eq!(format!("{:6}|", -42), shown("{:6}|", &p));
    assert_eq!(format!("{:<6}|", -42), shown("{:<6}|", &p));
    assert_eq!(format!("{:^6}|", -42), shown("{:^6}|", &p));
    assert_eq!(format!("{:06}|", -42), shown("{:06}|", &p));
    assert_eq!(format!("{:*<06}|", -42), shown("{:*<06}|", &p));
    assert_eq!(format!("{:+}", -42), shown("{:+}", &p));
    assert_eq!(format!("{:.1}", -42), shown("{:.1}", &p));
    assert_eq!(format!("{:#}", -42), shown("{:#}", &p));
    assert_eq!(format!("{:#?}", -42), shown("{:#?}", &p));
    let q = [Param::normal(Value::U64(7))];
    assert_eq!(format!("{:+}", 7u64), shown("{:+}", &q));
    assert_eq!(format!("{:+05}", 7u64), shown("{:+05}", &q));
    assert_eq!(format!("{:x<+5}", 7u64), shown("{:x<+5}", &q));
    assert_eq!(format!("{}", 0u8), shown("{}", &[Param::normal(Value::U8(0))]));
    assert_eq!(format!("{}", i128::MIN), shown("{}", &[Param::normal(Value::I128(i128::MIN))]));
    assert_eq!(format!("{}", u128::MAX), shown("{}", &[Param::normal(Value::U128(u128::MAX))]));
    assert_eq!(format!("{}", i8::MIN), shown("{}", &[Param::normal(Value::I8(i8::MIN))]));
    assert_eq!(format!("{}", isize::MIN), shown("{}", &[Param::normal(Value::Isize(isize::MIN))]));
    assert_eq!(format!("{}", usize::MAX), shown("{}", &[Param::normal(Value::Usize(usize::MAX))]));
}

#[test]
fn integers_in_other_bases() {
    let p = [Param::normal(Value::I32(-255))];
    assert_eq!(format!("{:x}", -255), shown("{:x}", &p));
    assert_eq!(format!("{:X}", -255), shown("{:X}", &p));
    assert_eq!(format!("{:o}", -255), shown("{:o}", &p));
    assert_eq!(format!("{:b}", -255), shown("{:b}", &p));
    assert_eq!(format!("{:#x}", -255), shown("{:#x}", &p));
    let q = [Param::normal(Value::U16(255))];
    assert_eq!(format!("{:#x}", 255u16), shown("{:#x}", &q));
    assert_eq!(format!("{:#X}", 255u16), shown("{:#X}", &q));
    assert_eq!(format!("{:#o}", 255u16), shown("{:#o}", &q));
    assert_eq!(format!("{:#b}", 255u16), shown("{:#b}", &q));
    assert_eq!(format!("{:#010x}", 255u16), shown("{:#010x}", &q));
    assert_eq!(format!("{:010x}", 255u16), shown("{:010x}", &q));
    assert_eq!(format!("{:#10x}|", 255u16), shown("{:#10x}|", &q));
    assert_eq!(format!("{:<#10x}|", 255u16), shown("{:<#10x}|", &q));
    assert_eq!(format!("{:_^#10b}|", 5u16), shown("{:_^#10b}|", &[Param::normal(Value::U16(5))]));
    assert_eq!(format!("{:+x}", 255u16), shown("{:+x}", &q));
    assert_eq!(format!("{:+#06x}", 255u16), shown("{:+#06x}", &q));
    assert_eq!(format!("{:x}", i8::MIN), shown("{:x}", &[Param::normal(Value::I8(i8::MIN))]));
    assert_eq!(format!("{:b}", -1i16), shown("{:b}", &[Param::normal(Value::I16(-1))]));
    assert_eq!(format!("{:o}", -1i64), shown("{:o}", &[Param::normal(Value::I64(-1))]));
    assert_eq!(format!("{:x}", -1i128), shown("{:x}", &[Param::normal(Value::I128(-1))]));
    assert_eq!(format!("{:x}", -2isize), shown("{:x}", &[Param::normal(Value::Isize(-2))]));
    assert_eq!(format!("{:x}", 0u32), shown("{:x}", &[Param::normal(Value::U32(0))]));
}

#[test]
fn integers_with_exponent() {
    let p = [Param::normal(Value::I32(-123456))];
    assert_eq!(format!("{:e}", -123456), shown("{:e}", &p));
    assert_eq!(format!("{:E}", -123456), shown("{:E}", &p));
    assert_eq!(format!("{:.2e}", -123456), shown("{:.2e}", &p));
    assert_eq!(format!("{:.0e}", -123456), shown("{:.0e}", &p));
    assert_eq!(format!("{:12e}|", -123456), shown("{:12e}|", &p));
    assert_eq!(format!("{:<12e}|", -123456), shown("{:<12e}|", &p));
    assert_eq!(format!("{:012e}|", -123456), shown("{:012e}|", &p));
    assert_eq!(format!("{:+e}", 1500u64), shown("{:+e}", &[Param::normal(Value::U64(1500))]));
    assert_eq!(format!("{:+010.1E}", 1500u64), shown("{:+010.1E}", &[Param::normal(Value::U64(1500))]));
    assert_eq!(format!("{:#e}", 0u8), shown("{:#e}", &[Param::normal(Value::U8(0))]));
    assert_eq!(format!("{:e}", i128::MIN), shown("{:e}", &[Param::normal(Value::I128(i128::MIN))]));
}

#[test]
fn addresses() {
    let s = "somewhere";
    let p = [Param::normal(Value::Str(s))];
    assert_eq!(format!("{:p}", s), shown("{:p}", &p));
    assert_eq!(format!("{:#p}", s), shown("{:#p}", &p));
    assert_eq!(format!("{:20p}|", s), shown("{:20p}|", &p));
    assert_eq!(format!("{:<20p}|", s), shown("{:<20p}|", &p));
    assert_eq!(format!("{:020p}|", s), shown("{:020p}|", &p));
    assert_eq!(format!("{:#24p}|", s), shown("{:#24p}|", &p));
    assert_eq!(format!("{:+p}|", s), shown("{:+p}|", &p));
}

#[test]
fn counts_from_arguments() {
    let p = [
        Param::normal(Value::Str("abcdef")),
        Param::normal(Value::Usize(9)),
        Param::named("w", Value::U8(3)),
    ];
    assert_eq!(format!("{:1$}|", "abcdef", 9), shown("{:1$}|", &p));
    assert_eq!(format!("{:>1$}|", "abcdef", 9), shown("{:>1$}|", &p));
    assert_eq!(format!("{:.2$} {}|", "abcdef", 9, 3), shown("{:.2$} {}|", &p));
    assert_eq!(format!("{:.w$} {}|", "abcdef", 9, w = 3), shown("{0:.w$} {1}|", &p));
    assert_eq!(format!("{:1$.w$}|", "abcdef", 9, w = 3), shown("{:1$.w$}|", &p));
    assert_eq!(format!("{:0$}|", 5usize), shown("{:0$}|", &[Param::normal(Value::Usize(5))]));
    let q = [
        Param::normal(Value::Usize(2)),
        Param::normal(Value::Str("abcdef")),
        Param::normal(Value::Str("tail")),
    ];
    assert_eq!(format!("{:.*} {}", 2, "abcdef", "tail"), shown("{:.*} {}", &q));
}

#[test]
fn escapes_and_mixed_text() {
    assert_eq!(format!("{{}}"), shown("{{}}", &[]));
    assert_eq!(format!("{{x}}"), shown("{{x}}", &[]));
    assert_eq!(format!("a{{b}}c{}d", 1), shown("a{{b}}c{}d", &[Param::normal(Value::I32(1))]));
    assert_eq!(format!("{}}}{{{}", 1, 2), shown("{}}}{{{}", &[Param::normal(Value::I32(1)), Param::normal(Value::I32(2))]));
    assert_eq!(format!("{1} {0} {1:?}", 'a', "b"), shown("{1} {0} {1:?}", &[Param::normal(Value::Char('a')), Param::normal(Value::Str("b"))]));
}
