//! The type-erased argument list, padding and the modifier styles.

use restd::fmt::ansi::{Bg, BgRgb, Bold, Fg, FgRgb, Strike, RESET};
use restd::fmt::{
    Arguments, Binary, Dir, Display, Format, Hex, Kind, LeafStyle, Modifier, Pad, Prefix, Var,
    VarData, VarStyle, _format,
};

#[test]
fn format() {
    let x = 'x';
    let y = "foobar".to_string();
    let z = 123456_u32;

    let vars = [
        Var::new(VarData::Ch(x), VarStyle::Leaf(LeafStyle::Display)),
        Var::new(VarData::Str(" "), VarStyle::Leaf(LeafStyle::Display)),
        Var::new(VarData::Str(y.as_str()), VarStyle::Leaf(LeafStyle::Debug)),
        Var::new(VarData::Ch(' '), VarStyle::Leaf(LeafStyle::Display)),
        Var::new(
            VarData::UInt(z as u64),
            VarStyle::Padded(Pad::right('0', 9, LeafStyle::Display)),
        ),
        Var::new(VarData::Str(" "), VarStyle::Leaf(LeafStyle::Display)),
        Var::new(VarData::Int(123 + 456), VarStyle::Leaf(LeafStyle::Display)),
        Var::new(VarData::Ch(0x20 as u8 as char), VarStyle::Leaf(LeafStyle::Display)),
        Var::new(VarData::Str(&y.as_str()[3..]), VarStyle::Leaf(LeafStyle::Display)),
    ];
    let args = Arguments(&vars[..]);

    let f = _format(args);
    assert_eq!(f, "x \"foobar\" 000123456 579 bar");
}

#[test]
fn manual_args() {
    let x = 'x';
    let y = "foobar".to_string();

    let slice = [
        Var::new(VarData::Str("hello, world!\n"), VarStyle::Leaf(LeafStyle::Display)),
        Var::new(VarData::Ch(x), VarStyle::Leaf(LeafStyle::Display)),
        Var::new(VarData::Str(" "), VarStyle::Leaf(LeafStyle::Display)),
        Var::new(VarData::Str(y.as_str()), VarStyle::Leaf(LeafStyle::Debug)),
    ];
    let args = Arguments(&slice[..]);

    let mut f = String::new();
    args.write(&mut f).unwrap();

    assert_eq!(f, "hello, world!\nx \"foobar\"");
}

#[test]
fn manual_pad() {
    let rpad = Pad {
        align: Dir::Right,
        with: ' ',
        count: 12,
        kind: Kind::Full,
        style: LeafStyle::Display,
    };
    let lpad = Pad {
        align: Dir::Left,
        with: ' ',
        count: 12,
        kind: Kind::Full,
        style: LeafStyle::Display,
    };

    let slice = [
        Var::new(VarData::Str("foobar"), VarStyle::Padded(rpad)),
        Var::new(VarData::Ch('\n'), VarStyle::Leaf(LeafStyle::Display)),
        Var::new(VarData::Str("longer-string"), VarStyle::Padded(lpad)),
    ];
    let args = Arguments(&slice[..]);

    let mut f = String::new();
    args.write(&mut f).unwrap();

    assert_eq!(f, "      foobar\nlonger-string");
}

#[test]
fn pad_boundaries() {
    // a value already as wide as the target is not padded at all
    let wide = Pad::right(' ', 3, Display);
    let mut f = String::new();
    wide.apply(&mut f, &"foobar").unwrap();
    assert_eq!(f, "foobar");

    // padding to width 12 of a width-6 value adds exactly six fill chars
    let left = Pad::left(' ', 12, Display);
    let mut g = String::new();
    left.apply(&mut g, &"foobar").unwrap();
    assert_eq!(g, "foobar      ");

    // padding is idempotent: the padded text is already at the target width
    let mut g2 = String::new();
    left.apply(&mut g2, &g.as_str()).unwrap();
    assert_eq!(g2, g);

    // the odd center fill character goes after the text
    let center = Pad::center('*', 5, Display);
    let mut h = String::new();
    center.apply(&mut h, &"ab").unwrap();
    assert_eq!(h, "*ab**");

    // scenario: right-pad 123456u32 with zeros to width nine
    let zeros = Pad::right('0', 9, Display);
    let mut k = String::new();
    zeros.apply(&mut k, &123456u32).unwrap();
    assert_eq!(k, "000123456");
}

#[test]
fn pad_mod_kind() {
    // pad until the width is a multiple of four
    let p = Pad::right_mod('.', 4, Display);
    let mut f = String::new();
    p.apply(&mut f, &"abcde").unwrap();
    assert_eq!(f, "...abcde");
    // a width already at the multiple needs no fill at all
    let mut g = String::new();
    p.apply(&mut g, &"abcd").unwrap();
    assert_eq!(g, "abcd");
}

#[test]
fn prefix_and_radix_prefixes() {
    let p = Hex::prefix(true);
    let mut f = String::new();
    p.apply(&mut f, &0xdefu32).unwrap();
    assert_eq!(f, "0xDEF");

    let b = Binary::prefix();
    let mut g = String::new();
    b.apply(&mut g, &5u8).unwrap();
    assert_eq!(g, "0b101");

    let lit = Prefix("n = ", Display);
    let mut h = String::new();
    lit.apply(&mut h, &7u8).unwrap();
    assert_eq!(h, "n = 7");
}

#[test]
fn ansi_escapes() {
    assert_eq!(RESET, "\x1b[0m");

    let mut f = String::new();
    Fg(5, Display).apply(&mut f, &"hi").unwrap();
    assert_eq!(f, "\x1b[38;5;5mhi\x1b[0m");

    let mut g = String::new();
    Bg(250, Display).apply(&mut g, &"hi").unwrap();
    assert_eq!(g, "\x1b[48;5;250mhi\x1b[0m");

    let mut h = String::new();
    FgRgb(1, 22, 133, Display).apply(&mut h, &"x").unwrap();
    assert_eq!(h, "\x1b[38;2;1;22;133mx\x1b[0m");

    let mut i = String::new();
    BgRgb(0, 0, 0, Display).apply(&mut i, &"x").unwrap();
    assert_eq!(i, "\x1b[48;2;0;0;0mx\x1b[0m");

    let mut j = String::new();
    Bold(Display).apply(&mut j, &"b").unwrap();
    assert_eq!(j, "\x1b[1mb\x1b[0m");

    // modifiers nest: color around an attribute
    let mut k = String::new();
    Fg(1, Strike(Display)).apply(&mut k, &"s").unwrap();
    assert_eq!(k, "\x1b[38;5;1m\x1b[9ms\x1b[0m\x1b[0m");
}

#[test]
fn args_render_all_leaf_styles() {
    let vars = [
        Var::new(VarData::UInt(255), VarStyle::Leaf(LeafStyle::Hex(false))),
        Var::new(VarData::Str(" "), VarStyle::Leaf(LeafStyle::Display)),
        Var::new(VarData::UInt(5), VarStyle::Leaf(LeafStyle::Binary)),
        Var::new(VarData::Str(" "), VarStyle::Leaf(LeafStyle::Display)),
        Var::new(VarData::Int(-9), VarStyle::Leaf(LeafStyle::Debug)),
        Var::new(VarData::Str(" "), VarStyle::Leaf(LeafStyle::Display)),
        Var::new(VarData::Bool(true), VarStyle::Leaf(LeafStyle::Debug)),
        Var::new(VarData::Str(" "), VarStyle::Leaf(LeafStyle::Display)),
        Var::new(VarData::Ch('q'), VarStyle::Leaf(LeafStyle::Pretty(0))),
    ];
    let args = Arguments(&vars[..]);
    assert_eq!(_format(args), "ff 101 -9 true 'q'");
}
