//! Rendering under the leaf styles: scalars, strings, lists and the
//! composite-value builders.

use restd::fmt::{Binary, Display, Format, Hex, Pretty};

#[test]
fn integer() {
    let x = 123_u8;
    let y = -456_isize;

    let mut f = String::new();
    x.fmt(&mut f, &Display).unwrap();
    f.push('\n');
    y.fmt(&mut f, &restd::fmt::Debug).unwrap();

    assert_eq!(f, "123\n-456");
}

#[test]
fn hex() {
    let x = 0x1a23_u32;
    let y = 0x0123456789abcdef_u64;

    let mut f = String::new();
    x.fmt(&mut f, &Hex(false)).unwrap();
    f.push(' ');
    y.fmt(&mut f, &Hex(true)).unwrap();

    assert_eq!(f, "1a23 123456789ABCDEF");
}

struct Foo(u32, &'static str);
struct Bar {
    foo: Foo,
    bar: [char; 3],
}

impl Format<restd::fmt::Debug> for Foo {
    fn rendering(&self, _: &restd::fmt::Debug) -> vstd::seq::Seq<char> {
        unreachable!()
    }

    fn fmt<W: restd::fmt::Write>(
        &self,
        f: &mut W,
        s: &restd::fmt::Debug,
    ) -> Result<(), restd::fmt::Error> {
        let mut t = s.dbg_tuple(f, "Foo");
        t.field(f, &self.0);
        t.field(f, &self.1);
        t.finish(f)
    }
}

impl Format<restd::fmt::Debug> for Bar {
    fn rendering(&self, _: &restd::fmt::Debug) -> vstd::seq::Seq<char> {
        unreachable!()
    }

    fn fmt<W: restd::fmt::Write>(
        &self,
        f: &mut W,
        s: &restd::fmt::Debug,
    ) -> Result<(), restd::fmt::Error> {
        let mut b = s.dbg_struct(f, "Bar");
        b.field(f, "foo", &self.foo);
        b.field(f, "bar", &self.bar);
        b.finish(f)
    }
}

impl Format<Pretty> for Foo {
    fn rendering(&self, _: &Pretty) -> vstd::seq::Seq<char> {
        unreachable!()
    }

    fn fmt<W: restd::fmt::Write>(&self, f: &mut W, s: &Pretty) -> Result<(), restd::fmt::Error> {
        let mut t = s.dbg_tuple(f, "Foo");
        t.field(f, &self.0);
        t.field(f, &self.1);
        t.finish(f)
    }
}

impl Format<Pretty> for Bar {
    fn rendering(&self, _: &Pretty) -> vstd::seq::Seq<char> {
        unreachable!()
    }

    fn fmt<W: restd::fmt::Write>(&self, f: &mut W, s: &Pretty) -> Result<(), restd::fmt::Error> {
        let mut b = s.dbg_struct(f, "Bar");
        b.field(f, "foo", &self.foo);
        b.field(f, "bar", &self.bar);
        b.finish(f)
    }
}

#[test]
fn debug_helpers() {
    let foo = Foo(123, "foo");
    let bar = Bar {
        foo,
        bar: ['b', 'a', 'r'],
    };

    let f = bar.stringify(&restd::fmt::Debug);
    assert_eq!(f, r#"Bar { foo: Foo(123, "foo"), bar: ['b', 'a', 'r'] }"#);
}

#[test]
fn pretty_helpers() {
    let foo = Foo(123, "foo");
    let bar = Bar {
        foo,
        bar: ['b', 'a', 'r'],
    };

    let f = bar.stringify(&Pretty(0));
    let ex = r#"Bar {
    foo: Foo(
        123,
        "foo",
    ),
    bar: [
        'b',
        'a',
        'r',
    ],
}"#;
    assert_eq!(f, ex);
}

#[test]
fn pretty_consistent_with_debug_modulo_layout() {
    let bar = Bar {
        foo: Foo(123, "foo"),
        bar: ['b', 'a', 'r'],
    };
    let strip = |s: String| -> String {
        s.chars()
            .filter(|c| *c != ' ' && *c != '\n' && *c != ',')
            .collect()
    };
    let d = strip(bar.stringify(&restd::fmt::Debug));
    let p = strip(bar.stringify(&Pretty(0)));
    assert_eq!(d, p);
}

#[test]
fn char_and_string_scenarios() {
    assert_eq!('x'.stringify(&Display), "x");
    assert_eq!('\''.stringify(&restd::fmt::Debug), r"'\''");
    assert_eq!("foobar".stringify(&restd::fmt::Debug), "\"foobar\"");
    assert_eq!("".stringify(&restd::fmt::Debug), "\"\"");
    assert_eq!(
        "a\"b\nc\td\0e".stringify(&restd::fmt::Debug),
        "\"a\\\"b\\nc\\td\\0e\""
    );
    // a control character outside the named escapes gets a braced hex code
    assert_eq!("\u{7}".stringify(&restd::fmt::Debug), "\"\\u{7}\"");
    assert_eq!("\u{9f}".stringify(&restd::fmt::Debug), "\"\\u{9f}\"");
}

#[test]
fn integer_extremes() {
    assert_eq!(0u8.stringify(&restd::fmt::Debug), "0");
    assert_eq!(u64::MAX.stringify(&restd::fmt::Debug), "18446744073709551615");
    assert_eq!(i64::MIN.stringify(&restd::fmt::Debug), "-9223372036854775808");
    assert_eq!(i8::MIN.stringify(&restd::fmt::Debug), "-128");
    assert_eq!(i16::MIN.stringify(&restd::fmt::Debug), "-32768");
    assert_eq!(i32::MIN.stringify(&restd::fmt::Debug), "-2147483648");
    assert_eq!(isize::MIN.stringify(&restd::fmt::Debug), "-9223372036854775808");
    assert_eq!((-456isize).stringify(&Display), "-456");
    assert_eq!(i64::MIN.stringify(&Hex(true)), "-8000000000000000");
}

#[test]
fn decimal_parses_back() {
    for n in [0i64, 7, -7, 123456, -123456, i64::MAX, i64::MIN] {
        let s = n.stringify(&restd::fmt::Debug);
        assert_eq!(s.parse::<i64>().unwrap(), n);
        assert_eq!(s.starts_with('-'), n < 0);
    }
}

#[test]
fn hex_parses_back_case_insensitively() {
    for n in [0u64, 9, 10, 255, 0xdead_beef, u64::MAX] {
        let lo = n.stringify(&Hex(false));
        let hi = n.stringify(&Hex(true));
        assert_eq!(u64::from_str_radix(&lo, 16).unwrap(), n);
        assert_eq!(u64::from_str_radix(&hi, 16).unwrap(), n);
        assert_eq!(lo.to_uppercase(), hi);
        assert!(n == 0 || !lo.starts_with('0'));
    }
}

#[test]
fn binary_has_no_leading_zeros() {
    assert_eq!(0u8.stringify(&Binary), "0");
    assert_eq!(5u8.stringify(&Binary), "101");
    assert_eq!(u8::MAX.stringify(&Binary), "11111111");
    for n in [1u64, 2, 3, 1 << 63, u64::MAX] {
        let s = n.stringify(&Binary);
        assert!(s.starts_with('1'));
        assert_eq!(u64::from_str_radix(&s, 2).unwrap(), n);
    }

    // a negative signed value shows its full-width two's-complement pattern
    assert_eq!((-2i8).stringify(&Binary), "11111110");
    assert_eq!(i8::MIN.stringify(&Binary), "10000000");
    assert_eq!((-1i16).stringify(&Binary), "1111111111111111");
    assert_eq!(0i32.stringify(&Binary), "0");
}

#[test]
fn unit_bool_and_options() {
    assert_eq!(().stringify(&restd::fmt::Debug), "()");
    assert_eq!(true.stringify(&restd::fmt::Debug), "true");
    assert_eq!(false.stringify(&Pretty(0)), "false");
    assert_eq!(Some(5u32).stringify(&restd::fmt::Debug), "Some(5)");
    let none: Option<u32> = None;
    assert_eq!(none.stringify(&restd::fmt::Debug), "None");
    let ok: Result<u32, bool> = Ok(1);
    let err: Result<u32, bool> = Err(true);
    assert_eq!(ok.stringify(&restd::fmt::Debug), "Ok(1)");
    assert_eq!(err.stringify(&restd::fmt::Debug), "Err(true)");
}

#[test]
fn option_and_result_pretty() {
    assert_eq!(Some(5u32).stringify(&Pretty(0)), "Some(\n    5,\n)");
    let none: Option<u32> = None;
    assert_eq!(none.stringify(&Pretty(0)), "None");
    let err: Result<u32, bool> = Err(false);
    assert_eq!(err.stringify(&Pretty(1)), "Err(\n        false,\n    )");
}

#[test]
fn lists_debug_and_pretty() {
    let v: Vec<u32> = vec![1, 2, 3];
    assert_eq!(v.stringify(&restd::fmt::Debug), "[1, 2, 3]");
    let empty: Vec<u32> = vec![];
    assert_eq!(empty.stringify(&restd::fmt::Debug), "[]");
    assert_eq!(empty.stringify(&Pretty(0)), "[\n]");
    assert_eq!(v.stringify(&Pretty(0)), "[\n    1,\n    2,\n    3,\n]");
    assert_eq!(String::from("hi").stringify(&Display), "hi");
}

#[test]
fn references_slices_and_char_sinks() {
    // a reference renders as the value it points at
    let r = &5u32;
    assert_eq!(r.stringify(&Display), "5");
    let rr = &r;
    assert_eq!(rr.stringify(&Display), "5");

    // bare slices render like their vectors
    let v = [1u8, 2, 3];
    assert_eq!(v.as_slice().stringify(&restd::fmt::Debug), "[1, 2, 3]");
    assert_eq!(v.as_slice().stringify(&Pretty(0)), "[\n    1,\n    2,\n    3,\n]");

    // a vector of characters is a sink
    let mut sink: Vec<char> = Vec::new();
    restd::fmt::Write::write_str(&mut sink, "ab").unwrap();
    restd::fmt::Write::write_char(&mut sink, 'c').unwrap();
    assert_eq!(sink, vec!['a', 'b', 'c']);
}

#[test]
fn non_exhaustive_markers() {
    let mut f = String::new();
    let d = restd::fmt::Debug;
    let mut t = d.dbg_tuple(&mut f, "T");
    t.field(&mut f, &1u8);
    t.non_exhaustive(&mut f).unwrap();
    assert_eq!(f, "T(1, ...)");

    let mut g = String::new();
    let mut s = d.dbg_struct(&mut g, "S");
    s.field(&mut g, "x", &1u8);
    s.non_exhaustive(&mut g).unwrap();
    assert_eq!(g, "S { x: 1, ... }");

    let mut h = String::new();
    let p = Pretty(0);
    let mut pt = p.dbg_tuple(&mut h, "T");
    pt.field(&mut h, &1u8);
    pt.non_exhaustive(&mut h).unwrap();
    assert_eq!(h, "T(\n    1,\n    ...\n)");
}
