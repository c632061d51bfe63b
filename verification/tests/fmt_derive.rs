//! The renderings a per-field derive would generate, written out by hand
//! through the builder API, plus the bridge for host-formatted floats.

use restd::fmt::{Display, Format, Hex, Prefix, Pretty};

/// A float rendered through the host formatter; floats stay outside the
/// verified core, so tests bridge them explicitly.
#[derive(Clone, Copy)]
struct F32Val(f32);

#[derive(Clone, Copy)]
struct F64Val(f64);

impl Format<Display> for F32Val {
    fn rendering(&self, _: &Display) -> vstd::seq::Seq<char> {
        unreachable!()
    }

    fn fmt<W: restd::fmt::Write>(&self, f: &mut W, _: &Display) -> Result<(), restd::fmt::Error> {
        f.write_str(&format!("{}", self.0))
    }
}

impl Format<restd::fmt::Debug> for F32Val {
    fn rendering(&self, _: &restd::fmt::Debug) -> vstd::seq::Seq<char> {
        unreachable!()
    }

    fn fmt<W: restd::fmt::Write>(
        &self,
        f: &mut W,
        _: &restd::fmt::Debug,
    ) -> Result<(), restd::fmt::Error> {
        f.write_str(&format!("{:?}", self.0))
    }
}

impl Format<Pretty> for F32Val {
    fn rendering(&self, _: &Pretty) -> vstd::seq::Seq<char> {
        unreachable!()
    }

    fn fmt<W: restd::fmt::Write>(&self, f: &mut W, _: &Pretty) -> Result<(), restd::fmt::Error> {
        f.write_str(&format!("{:?}", self.0))
    }
}

impl Format<Display> for F64Val {
    fn rendering(&self, _: &Display) -> vstd::seq::Seq<char> {
        unreachable!()
    }

    fn fmt<W: restd::fmt::Write>(&self, f: &mut W, _: &Display) -> Result<(), restd::fmt::Error> {
        f.write_str(&format!("{}", self.0))
    }
}

#[test]
fn floats() {
    let x = 123.456_f32;
    let y = 12345678.87654321_f64;

    let mut f = String::new();
    F32Val(x).fmt(&mut f, &Display).unwrap();
    f.push(' ');
    F64Val(y).fmt(&mut f, &Display).unwrap();

    assert_eq!(f, std::format!("{x} {y}"));
}

struct Foo(u32, &'static str);

impl Format<restd::fmt::Debug> for Foo {
    fn rendering(&self, _: &restd::fmt::Debug) -> vstd::seq::Seq<char> {
        unreachable!()
    }

    fn fmt<W: restd::fmt::Write>(
        &self,
        f: &mut W,
        s: &restd::fmt::Debug,
    ) -> Result<(), restd::fmt::Error> {
        let mut t = s.dbg_tuple(f, "Foo");
        t.field(f, &self.0);
        t.field_styled(f, &self.1, &restd::fmt::Debug);
        t.finish(f)
    }
}

#[allow(dead_code)]
struct Bar {
    x: u32,
    y: u32,
    z: bool,
}

impl Format<restd::fmt::Debug> for Bar {
    fn rendering(&self, _: &restd::fmt::Debug) -> vstd::seq::Seq<char> {
        unreachable!()
    }

    fn fmt<W: restd::fmt::Write>(
        &self,
        f: &mut W,
        s: &restd::fmt::Debug,
    ) -> Result<(), restd::fmt::Error> {
        let mut b = s.dbg_struct(f, "Bar");
        b.field_styled(f, "x", &self.x, &Prefix("0x", Hex(false)));
        b.field_styled(f, "y", &self.y, &Hex::prefix(true));
        b.non_exhaustive(f)
    }
}

#[allow(dead_code)]
enum Baz {
    A(u32),
    B,
    C { x: F32Val, y: () },
}

impl Format<restd::fmt::Debug> for Baz {
    fn rendering(&self, _: &restd::fmt::Debug) -> vstd::seq::Seq<char> {
        unreachable!()
    }

    fn fmt<W: restd::fmt::Write>(
        &self,
        f: &mut W,
        s: &restd::fmt::Debug,
    ) -> Result<(), restd::fmt::Error> {
        match self {
            Baz::A(x) => {
                let mut t = s.dbg_tuple(f, "A");
                t.field_styled(f, x, &Hex(false));
                t.finish(f)
            }
            Baz::B => f.write_str("B"),
            Baz::C { x, .. } => {
                let mut b = s.dbg_struct(f, "C");
                b.field(f, "x", x);
                b.non_exhaustive(f)
            }
        }
    }
}

struct Qux<T, Q> {
    x: T,
    y: Q,
}

impl<T: Format<Pretty>, Q: Format<Display>> Format<Pretty> for Qux<T, Q> {
    fn rendering(&self, _: &Pretty) -> vstd::seq::Seq<char> {
        unreachable!()
    }

    fn fmt<W: restd::fmt::Write>(&self, f: &mut W, s: &Pretty) -> Result<(), restd::fmt::Error> {
        let mut b = s.dbg_struct(f, "Qux");
        b.field(f, "x", &self.x);
        b.field_styled(f, "y", &self.y, &Display);
        b.finish(f)
    }
}

#[test]
fn derive() {
    let f = Foo(123, "foo").stringify(&restd::fmt::Debug);
    assert_eq!(f, r#"Foo(123, "foo")"#);

    let f = Bar {
        x: 0xabc,
        y: 0xDEF,
        z: false,
    }
    .stringify(&restd::fmt::Debug);
    assert_eq!(f, "Bar { x: 0xabc, y: 0xDEF, ... }");

    let f = Baz::A(0x1a2b).stringify(&restd::fmt::Debug);
    assert_eq!(f, "A(1a2b)");

    let f = Baz::B.stringify(&restd::fmt::Debug);
    assert_eq!(f, "B");

    let f = Baz::C {
        x: F32Val(12.34),
        y: (),
    }
    .stringify(&restd::fmt::Debug);
    assert_eq!(f, "C { x: 12.34, ... }");

    let f = Qux {
        x: [F32Val(1.23), F32Val(4.56), F32Val(7.89)],
        y: 'y',
    }
    .stringify(&Pretty(0));
    let ex = r#"Qux {
    x: [
        1.23,
        4.56,
        7.89,
    ],
    y: y,
}"#;
    assert_eq!(f, ex);
}
