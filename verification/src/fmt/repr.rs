//! Mathematical descriptions of every rendering the library produces, and
//! the laws that hold of them: positional numerals in a radix and their
//! parse, character escaping and its reverse, padding arithmetic.

use vstd::arithmetic::div_mod::{
    lemma_basic_div, lemma_div_decreases, lemma_fundamental_div_mod, lemma_mod_bound,
};
use vstd::arithmetic::mul::lemma_mul_basics;
use vstd::prelude::*;

verus! {

/// The digit character for value `d` (`d < 16`); letters follow the
/// `upper` flag.
pub open spec fn digit_char(d: nat, upper: bool) -> char {
    if d == 0 {
        '0'
    } else if d == 1 {
        '1'
    } else if d == 2 {
        '2'
    } else if d == 3 {
        '3'
    } else if d == 4 {
        '4'
    } else if d == 5 {
        '5'
    } else if d == 6 {
        '6'
    } else if d == 7 {
        '7'
    } else if d == 8 {
        '8'
    } else if d == 9 {
        '9'
    } else if d == 10 {
        if upper { 'A' } else { 'a' }
    } else if d == 11 {
        if upper { 'B' } else { 'b' }
    } else if d == 12 {
        if upper { 'C' } else { 'c' }
    } else if d == 13 {
        if upper { 'D' } else { 'd' }
    } else if d == 14 {
        if upper { 'E' } else { 'e' }
    } else if d == 15 {
        if upper { 'F' } else { 'f' }
    } else {
        '?'
    }
}

/// The value of a digit character, accepting both letter cases; characters
/// that are no digit map to 16.
pub open spec fn digit_val(c: char) -> nat {
    if c == '0' {
        0
    } else if c == '1' {
        1
    } else if c == '2' {
        2
    } else if c == '3' {
        3
    } else if c == '4' {
        4
    } else if c == '5' {
        5
    } else if c == '6' {
        6
    } else if c == '7' {
        7
    } else if c == '8' {
        8
    } else if c == '9' {
        9
    } else if c == 'a' || c == 'A' {
        10
    } else if c == 'b' || c == 'B' {
        11
    } else if c == 'c' || c == 'C' {
        12
    } else if c == 'd' || c == 'D' {
        13
    } else if c == 'e' || c == 'E' {
        14
    } else if c == 'f' || c == 'F' {
        15
    } else {
        16
    }
}

/// The base-`base` numeral for `n`, most significant digit first, with no
/// leading zeros (`0` itself renders as `"0"`).
pub open spec fn radix_rep(n: nat, base: nat, upper: bool) -> Seq<char>
    decreases n,
{
    if base < 2 {
        Seq::empty()
    } else if n < base {
        seq![digit_char(n, upper)]
    } else {
        proof {
            lemma_div_decreases(n as int, base as int);
        }
        radix_rep(n / base, base, upper).push(digit_char(n % base, upper))
    }
}

/// The value of a digit string read in base `base`, most significant digit
/// first.
pub open spec fn parse_radix(s: Seq<char>, base: nat) -> nat
    decreases s.len(),
{
    if s.len() == 0 {
        0
    } else {
        parse_radix(s.drop_last(), base) * base + digit_val(s.last())
    }
}

/// The signed numeral: a leading `-` for negative values, then the numeral
/// of the magnitude.
pub open spec fn int_radix_rep(v: int, base: nat, upper: bool) -> Seq<char> {
    if v < 0 {
        seq!['-'] + radix_rep((-v) as nat, base, upper)
    } else {
        radix_rep(v as nat, base, upper)
    }
}

/// The decimal numeral used by the `Debug`, `Display` and `Pretty` styles.
pub open spec fn dec_rep(v: int) -> Seq<char> {
    int_radix_rep(v, 10, false)
}

/// The division-and-remainder facts every digit-extraction proof leans on.
pub proof fn lemma_div_mod_split(n: nat, b: nat)
    requires
        b >= 2,
    ensures
        n == b * (n / b) + n % b,
        n % b < b,
        (n / b == 0) <==> n < b,
        n < b ==> n % b == n,
{
    lemma_fundamental_div_mod(n as int, b as int);
    lemma_mod_bound(n as int, b as int);
    lemma_mul_basics(b as int);
    if (n as int) < (b as int) {
        lemma_basic_div(n as int, b as int);
    }
}

/// The value of a numeral with an optional leading `-`, read in base `base`.
pub open spec fn parse_int_radix(s: Seq<char>, base: nat) -> int {
    if s.len() > 0 && s[0] == '-' {
        -(parse_radix(s.skip(1), base) as int)
    } else {
        parse_radix(s, base) as int
    }
}

/// Whether `c` is a control character (the Unicode `Cc` category).
pub open spec fn is_ctl(c: char) -> bool {
    (c as u32) < 0x20 || (0x7f <= (c as u32) && (c as u32) <= 0x9f)
}

/// The escape of one character inside a `Debug`-rendered char literal:
/// quote, NUL, newline and tab get two-character escapes, other control
/// characters a `\u{..}` escape, everything else stands for itself.
pub open spec fn dbg_char_rep(c: char) -> Seq<char> {
    if c == '\'' {
        seq!['\\', '\'']
    } else if c == '\0' {
        seq!['\\', '0']
    } else if c == '\n' {
        seq!['\\', 'n']
    } else if c == '\t' {
        seq!['\\', 't']
    } else if is_ctl(c) {
        seq!['\\', 'u', '{'] + radix_rep(c as nat, 16, false) + seq!['}']
    } else {
        seq![c]
    }
}

/// The escape of one character inside a `Debug`-rendered string literal:
/// as [`dbg_char_rep`], and additionally the double quote is escaped.
pub open spec fn str_char_rep(c: char) -> Seq<char> {
    if c == '"' {
        seq!['\\', '"']
    } else {
        dbg_char_rep(c)
    }
}

/// The body of a `Debug`-rendered string literal: each character escaped.
pub open spec fn str_body_rep(s: Seq<char>) -> Seq<char>
    decreases s.len(),
{
    if s.len() == 0 {
        Seq::empty()
    } else {
        str_char_rep(s[0]) + str_body_rep(s.skip(1))
    }
}

/// The `Debug` rendering of a string: the escaped body in double quotes.
pub open spec fn str_rep(s: Seq<char>) -> Seq<char> {
    seq!['"'] + str_body_rep(s) + seq!['"']
}

/// The `Debug` rendering of a character: its escape in single quotes.
pub open spec fn char_rep(c: char) -> Seq<char> {
    seq!['\''] + dbg_char_rep(c) + seq!['\'']
}

/// The rendering of a boolean.
pub open spec fn bool_rep(b: bool) -> Seq<char> {
    if b {
        "true"@
    } else {
        "false"@
    }
}

/// Appending one character to a string appends its escape to the rendered
/// body.
pub proof fn lemma_str_body_rep_push(s: Seq<char>, c: char)
    ensures
        str_body_rep(s.push(c)) == str_body_rep(s) + str_char_rep(c),
    decreases s.len(),
{
    if s.len() == 0 {
        assert(s.push(c)[0] == c);
        assert(s.push(c).skip(1) =~= Seq::<char>::empty());
        assert(str_body_rep(s.push(c).skip(1)) == Seq::<char>::empty());
        assert(str_body_rep(s.push(c)) =~= str_body_rep(s) + str_char_rep(c));
    } else {
        assert(s.push(c)[0] == s[0]);
        assert(s.push(c).skip(1) =~= s.skip(1).push(c));
        lemma_str_body_rep_push(s.skip(1), c);
        assert(str_body_rep(s.push(c).skip(1)) == str_body_rep(s.skip(1)) + str_char_rep(c));
        assert(str_body_rep(s.push(c)) == str_char_rep(s[0]) + (str_body_rep(s.skip(1))
            + str_char_rep(c)));
        assert(str_body_rep(s) == str_char_rep(s[0]) + str_body_rep(s.skip(1)));
        vstd::seq_lib::lemma_concat_associative(
            str_char_rep(s[0]),
            str_body_rep(s.skip(1)),
            str_char_rep(c),
        );
        assert(str_body_rep(s.push(c)) == str_body_rep(s) + str_char_rep(c));
    }
}

/// The given sequences joined by the given separator.
pub open spec fn sep_concat(items: Seq<Seq<char>>, sep: Seq<char>) -> Seq<char>
    decreases items.len(),
{
    if items.len() == 0 {
        Seq::empty()
    } else if items.len() == 1 {
        items[0]
    } else {
        items[0] + sep + sep_concat(items.skip(1), sep)
    }
}

/// Appending an item to a joined sequence appends a separator (when the
/// sequence was not empty) and the item.
pub proof fn lemma_sep_concat_push(items: Seq<Seq<char>>, sep: Seq<char>, item: Seq<char>)
    ensures
        sep_concat(items.push(item), sep) == if items.len() == 0 {
            item
        } else {
            sep_concat(items, sep) + sep + item
        },
    decreases items.len(),
{
    if items.len() == 0 {
        assert(items.push(item)[0] == item);
        assert(sep_concat(items.push(item), sep) == item);
    } else if items.len() == 1 {
        assert(items.push(item)[0] == items[0]);
        assert(items.push(item).skip(1) =~= seq![item]);
        assert(sep_concat(items.push(item).skip(1), sep) == item);
        assert(sep_concat(items.push(item), sep) =~= sep_concat(items, sep) + sep + item);
    } else {
        assert(items.push(item)[0] == items[0]);
        assert(items.push(item).skip(1) =~= items.skip(1).push(item));
        lemma_sep_concat_push(items.skip(1), sep, item);
        assert(sep_concat(items.push(item).skip(1), sep) == sep_concat(items.skip(1), sep) + sep
            + item);
        assert(sep_concat(items.push(item), sep) == items[0] + sep + (sep_concat(
            items.skip(1),
            sep,
        ) + sep + item));
        assert(sep_concat(items, sep) == items[0] + sep + sep_concat(items.skip(1), sep));
        assert(sep_concat(items.push(item), sep) =~= sep_concat(items, sep) + sep + item) by {
            vstd::seq_lib::lemma_concat_associative(
                items[0] + sep,
                sep_concat(items.skip(1), sep),
                sep + item,
            );
            vstd::seq_lib::lemma_concat_associative(
                items[0] + sep + sep_concat(items.skip(1), sep),
                sep,
                item,
            );
            vstd::seq_lib::lemma_concat_associative(
                items[0] + sep,
                sep_concat(items.skip(1), sep) + sep,
                item,
            );
            vstd::seq_lib::lemma_concat_associative(
                items[0] + sep,
                sep_concat(items.skip(1), sep),
                sep,
            );
        }
    }
}

/// `depth` levels of four-space indentation.
pub open spec fn indent_rep(depth: nat) -> Seq<char> {
    Seq::new(4 * depth, |i: int| ' ')
}

/// A line break followed by `depth` levels of indentation.
pub open spec fn newline_indent(depth: nat) -> Seq<char> {
    seq!['\n'] + indent_rep(depth)
}

/// One pretty-printed item: on its own line, indented, with a trailing
/// comma.
pub open spec fn pretty_item_rep(item: Seq<char>, depth: nat) -> Seq<char> {
    newline_indent(depth) + item + seq![',']
}

/// A block of pretty-printed items, each on its own line at depth `depth`.
pub open spec fn pretty_items_rep(items: Seq<Seq<char>>, depth: nat) -> Seq<char>
    decreases items.len(),
{
    if items.len() == 0 {
        Seq::empty()
    } else {
        pretty_item_rep(items[0], depth) + pretty_items_rep(items.skip(1), depth)
    }
}

/// Appending an item to a pretty block appends one more indented line.
pub proof fn lemma_pretty_items_rep_push(items: Seq<Seq<char>>, depth: nat, item: Seq<char>)
    ensures
        pretty_items_rep(items.push(item), depth) == pretty_items_rep(items, depth)
            + pretty_item_rep(item, depth),
    decreases items.len(),
{
    if items.len() == 0 {
        assert(items.push(item)[0] == item);
        assert(items.push(item).skip(1) =~= Seq::<Seq<char>>::empty());
        assert(pretty_items_rep(items.push(item).skip(1), depth) == Seq::<char>::empty());
        assert(pretty_items_rep(items.push(item), depth) =~= pretty_items_rep(items, depth)
            + pretty_item_rep(item, depth));
    } else {
        assert(items.push(item)[0] == items[0]);
        assert(items.push(item).skip(1) =~= items.skip(1).push(item));
        lemma_pretty_items_rep_push(items.skip(1), depth, item);
        assert(pretty_items_rep(items.push(item).skip(1), depth) == pretty_items_rep(
            items.skip(1),
            depth,
        ) + pretty_item_rep(item, depth));
        assert(pretty_items_rep(items, depth) == pretty_item_rep(items[0], depth)
            + pretty_items_rep(items.skip(1), depth));
        vstd::seq_lib::lemma_concat_associative(
            pretty_item_rep(items[0], depth),
            pretty_items_rep(items.skip(1), depth),
            pretty_item_rep(item, depth),
        );
        assert(pretty_items_rep(items.push(item), depth) == pretty_items_rep(items, depth)
            + pretty_item_rep(item, depth));
    }
}

/// The comma-space separator between `Debug` fields.
pub open spec fn sep_rep() -> Seq<char> {
    seq![',', ' ']
}

/// The `Debug` rendering of a tuple (struct): the name, the rendered fields
/// joined by `", "`, in parentheses.
pub open spec fn dbg_tuple_rep(name: Seq<char>, fields: Seq<Seq<char>>) -> Seq<char> {
    name + seq!['('] + sep_concat(fields, sep_rep()) + seq![')']
}

/// One `Debug`-rendered struct field: its name, `": "`, its value.
pub open spec fn dbg_field_rep(fname: Seq<char>, fval: Seq<char>) -> Seq<char> {
    fname + seq![':', ' '] + fval
}

/// The `Debug` rendering of a struct: the name, a space, then the named
/// fields joined by `", "` inside `{ .. }` braces.
pub open spec fn dbg_struct_rep(name: Seq<char>, fields: Seq<(Seq<char>, Seq<char>)>) -> Seq<
    char,
> {
    name + seq![' ', '{', ' '] + sep_concat(
        fields.map_values(|p: (Seq<char>, Seq<char>)| dbg_field_rep(p.0, p.1)),
        sep_rep(),
    ) + seq![' ', '}']
}

/// The `Pretty` rendering of a tuple (struct) at the given depth.
pub open spec fn pretty_tuple_rep(name: Seq<char>, fields: Seq<Seq<char>>, depth: nat) -> Seq<
    char,
> {
    name + seq!['('] + pretty_items_rep(fields, depth + 1) + newline_indent(depth) + seq![')']
}

/// The `Pretty` rendering of a struct at the given depth.
pub open spec fn pretty_struct_rep(
    name: Seq<char>,
    fields: Seq<(Seq<char>, Seq<char>)>,
    depth: nat,
) -> Seq<char> {
    name + seq![' ', '{'] + pretty_items_rep(
        fields.map_values(|p: (Seq<char>, Seq<char>)| dbg_field_rep(p.0, p.1)),
        depth + 1,
    ) + newline_indent(depth) + seq!['}']
}

/// `n` copies of the fill character `c`.
pub open spec fn repeat_char(c: char, n: nat) -> Seq<char> {
    Seq::new(n, |i: int| c)
}

/// A width as a saturating machine counter measures it: exact up to
/// `usize::MAX`, then pinned there.
pub open spec fn measured_width(n: nat) -> nat {
    if n > usize::MAX {
        usize::MAX as nat
    } else {
        n
    }
}

/// How many fill characters padding adds around text of width `width`:
/// under `Full`, up to the target `count`; under `Mod`, up to the nearest
/// multiple of `count`, so a width already at a multiple needs none.
pub open spec fn pad_deficit(kind: crate::fmt::Kind, count: nat, width: nat) -> nat {
    match kind {
        crate::fmt::Kind::Full => if width >= count {
            0
        } else {
            (count - width) as nat
        },
        crate::fmt::Kind::Mod => if count == 0 || width % count == 0 {
            0
        } else {
            (count - (width % count)) as nat
        },
    }
}

/// The padded text: `chs` fill characters placed after, around (odd one
/// after), or before the text.
pub open spec fn pad_rep(align: crate::fmt::Dir, with: char, chs: nat, inner: Seq<char>) -> Seq<
    char,
> {
    match align {
        crate::fmt::Dir::Left => inner + repeat_char(with, chs),
        crate::fmt::Dir::Center => repeat_char(with, chs / 2) + inner + repeat_char(
            with,
            chs / 2 + chs % 2,
        ),
        crate::fmt::Dir::Right => repeat_char(with, chs) + inner,
    }
}

/// Padding in the `Full` kind never touches text that already reaches the
/// target width.
pub proof fn lemma_pad_full_noop(
    align: crate::fmt::Dir,
    with: char,
    count: nat,
    inner: Seq<char>,
)
    requires
        count <= usize::MAX,
        inner.len() >= count,
    ensures
        pad_rep(
            align,
            with,
            pad_deficit(crate::fmt::Kind::Full, count, measured_width(inner.len())),
            inner,
        ) == inner,
{
    assert(repeat_char(with, 0) =~= Seq::<char>::empty());
    match align {
        crate::fmt::Dir::Left => {
            assert(inner + repeat_char(with, 0) =~= inner);
        },
        crate::fmt::Dir::Center => {
            assert(repeat_char(with, 0) + inner + repeat_char(with, 0) =~= inner);
        },
        crate::fmt::Dir::Right => {
            assert(repeat_char(with, 0) + inner =~= inner);
        },
    }
}

/// Padding in the `Full` kind is idempotent: text already padded to the
/// target width is not padded again, under any alignment and fill.
pub proof fn lemma_pad_full_idempotent(
    align: crate::fmt::Dir,
    align2: crate::fmt::Dir,
    with: char,
    with2: char,
    count: nat,
    inner: Seq<char>,
)
    requires
        count <= usize::MAX,
    ensures
        ({
            let padded = pad_rep(
                align,
                with,
                pad_deficit(crate::fmt::Kind::Full, count, measured_width(inner.len())),
                inner,
            );
            pad_rep(
                align2,
                with2,
                pad_deficit(crate::fmt::Kind::Full, count, measured_width(padded.len())),
                padded,
            ) == padded
        }),
{
    lemma_pad_full_width(align, with, count, inner);
    let padded = pad_rep(
        align,
        with,
        pad_deficit(crate::fmt::Kind::Full, count, measured_width(inner.len())),
        inner,
    );
    assert(padded.len() >= count);
    lemma_pad_full_noop(align2, with2, count, padded);
}

/// Padding in the `Full` kind always reaches the target width exactly, and
/// never shortens the text.
pub proof fn lemma_pad_full_width(
    align: crate::fmt::Dir,
    with: char,
    count: nat,
    inner: Seq<char>,
)
    requires
        count <= usize::MAX,
    ensures
        pad_rep(
            align,
            with,
            pad_deficit(crate::fmt::Kind::Full, count, measured_width(inner.len())),
            inner,
        ).len() == if inner.len() >= count {
            inner.len()
        } else {
            count
        },
{
}

/// Rendering a digit and reading it back gives the digit; digit characters
/// are never `'0'` unless the digit is zero, and never a minus sign.
pub proof fn lemma_digit_char_val(d: nat, upper: bool)
    requires
        d < 16,
    ensures
        digit_val(digit_char(d, upper)) == d,
        (digit_char(d, upper) == '0') <==> (d == 0),
        digit_char(d, upper) != '-',
{
}

/// The shape of a numeral: never empty, exactly `"0"` for zero, no leading
/// zero otherwise, and made of digits of the base throughout.
pub proof fn lemma_radix_rep_shape(n: nat, base: nat, upper: bool)
    requires
        2 <= base <= 16,
    ensures
        radix_rep(n, base, upper).len() >= 1,
        n == 0 ==> radix_rep(n, base, upper) == seq!['0'],
        n > 0 ==> radix_rep(n, base, upper)[0] != '0',
        forall|i: int|
            0 <= i < radix_rep(n, base, upper).len() ==> digit_val(
                #[trigger] radix_rep(n, base, upper)[i],
            ) < base,
    decreases n,
{
    let rep = radix_rep(n, base, upper);
    lemma_div_mod_split(n, base);
    if n < base {
        lemma_digit_char_val(n, upper);
        assert(rep == seq![digit_char(n, upper)]);
    } else {
        lemma_radix_rep_shape(n / base, base, upper);
        lemma_digit_char_val(n % base, upper);
        let sub = radix_rep(n / base, base, upper);
        assert(rep == sub.push(digit_char(n % base, upper)));
        assert(rep[0] == sub[0]);
        assert(n / base > 0);
        assert forall|i: int| 0 <= i < rep.len() implies digit_val(#[trigger] rep[i])
            < base by {
            if i < sub.len() {
                assert(rep[i] == sub[i]);
            } else {
                assert(rep[i] == digit_char(n % base, upper));
            }
        }
    }
}

/// Reading a numeral back in its base gives the value it was rendered
/// from.
pub proof fn lemma_parse_radix_roundtrip(n: nat, base: nat, upper: bool)
    requires
        2 <= base <= 16,
    ensures
        parse_radix(radix_rep(n, base, upper), base) == n,
    decreases n,
{
    let rep = radix_rep(n, base, upper);
    lemma_div_mod_split(n, base);
    if n < base {
        lemma_digit_char_val(n, upper);
        assert(rep == seq![digit_char(n, upper)]);
        assert(rep.drop_last() =~= Seq::<char>::empty());
        assert(parse_radix(rep.drop_last(), base) == 0);
        lemma_mul_basics(base as int);
        assert(parse_radix(rep, base) == 0 * base + digit_val(rep.last()));
    } else {
        lemma_div_decreases(n as int, base as int);
        lemma_parse_radix_roundtrip(n / base, base, upper);
        lemma_digit_char_val(n % base, upper);
        let sub = radix_rep(n / base, base, upper);
        assert(rep == sub.push(digit_char(n % base, upper)));
        assert(rep.drop_last() =~= sub);
        assert(rep.last() == digit_char(n % base, upper));
        assert(parse_radix(rep, base) == parse_radix(sub, base) * base + digit_val(rep.last()));
        assert(parse_radix(rep, base) == (n / base) * base + n % base);
        assert((n / base) * base == base * (n / base)) by (nonlinear_arith);
    }
}

/// Reading a signed numeral back gives the value it was rendered from, and
/// the numeral starts with `-` exactly for negative values.
pub proof fn lemma_parse_int_radix_roundtrip(v: int, base: nat, upper: bool)
    requires
        2 <= base <= 16,
    ensures
        parse_int_radix(int_radix_rep(v, base, upper), base) == v,
        (int_radix_rep(v, base, upper)[0] == '-') <==> v < 0,
        int_radix_rep(v, base, upper).len() >= 1,
{
    let rep = int_radix_rep(v, base, upper);
    if v < 0 {
        let mag = (-v) as nat;
        lemma_radix_rep_shape(mag, base, upper);
        lemma_parse_radix_roundtrip(mag, base, upper);
        assert(rep == seq!['-'] + radix_rep(mag, base, upper));
        assert(rep[0] == '-');
        assert(rep.skip(1) =~= radix_rep(mag, base, upper));
        assert(parse_int_radix(rep, base) == -(parse_radix(radix_rep(mag, base, upper), base)
            as int));
    } else {
        let mag = v as nat;
        lemma_radix_rep_shape(mag, base, upper);
        lemma_parse_radix_roundtrip(mag, base, upper);
        assert(rep == radix_rep(mag, base, upper));
        assert(digit_val(rep[0]) < base);
        assert(rep[0] != '-') by {
            assert(digit_val('-') == 16);
        }
    }
}

/// Rendering any integer in decimal and parsing the result back in base
/// ten yields the same integer, and the first character is `-` exactly
/// when the integer is negative.
pub proof fn lemma_dec_roundtrip(v: int)
    ensures
        parse_int_radix(dec_rep(v), 10) == v,
        (dec_rep(v)[0] == '-') <==> v < 0,
{
    lemma_parse_int_radix_roundtrip(v, 10, false);
}

/// Rendering any integer in hexadecimal, under either letter case, and
/// parsing the result back in base sixteen (the parse accepts both cases)
/// yields the same integer; no leading zeros appear.
pub proof fn lemma_hex_roundtrip(v: int, upper: bool)
    ensures
        parse_int_radix(int_radix_rep(v, 16, upper), 16) == v,
        v > 0 ==> int_radix_rep(v, 16, upper)[0] != '0',
        v < 0 ==> int_radix_rep(v, 16, upper)[1] != '0',
        v == 0 ==> int_radix_rep(v, 16, upper) == seq!['0'],
{
    lemma_parse_int_radix_roundtrip(v, 16, upper);
    if v < 0 {
        lemma_radix_rep_shape((-v) as nat, 16, upper);
        assert(int_radix_rep(v, 16, upper)[1] == radix_rep((-v) as nat, 16, upper)[0]);
    } else {
        lemma_radix_rep_shape(v as nat, 16, upper);
    }
}

/// A binary rendering has no leading zero bits: a zero bit pattern renders
/// exactly as `"0"`, and any other pattern starts with a one bit. Every
/// `Binary` rendering is the numeral of the value's bit pattern, so this
/// holds of every width, negative values included.
pub proof fn lemma_binary_rep(n: nat)
    ensures
        n == 0 ==> radix_rep(n, 2, false) == seq!['0'],
        n > 0 ==> radix_rep(n, 2, false)[0] == '1',
        forall|i: int|
            0 <= i < radix_rep(n, 2, false).len() ==> (#[trigger] radix_rep(n, 2, false)[i] == '0'
                || radix_rep(n, 2, false)[i] == '1'),
{
    lemma_radix_rep_shape(n, 2, false);
    lemma_binary_digits_are_bits(n);
    if n > 0 {
        assert(digit_val(radix_rep(n, 2, false)[0]) < 2);
    }
}

/// Every character of a binary numeral is `'0'` or `'1'`.
pub proof fn lemma_binary_digits_are_bits(n: nat)
    ensures
        forall|i: int|
            0 <= i < radix_rep(n, 2, false).len() ==> (#[trigger] radix_rep(n, 2, false)[i] == '0'
                || radix_rep(n, 2, false)[i] == '1'),
    decreases n,
{
    let rep = radix_rep(n, 2, false);
    lemma_div_mod_split(n, 2);
    if n < 2 {
        assert(rep == seq![digit_char(n, false)]);
    } else {
        lemma_binary_digits_are_bits(n / 2);
        let sub = radix_rep(n / 2, 2, false);
        assert(rep == sub.push(digit_char(n % 2, false)));
        assert forall|i: int| 0 <= i < rep.len() implies (#[trigger] rep[i] == '0' || rep[i]
            == '1') by {
            if i < sub.len() {
                assert(rep[i] == sub[i]);
            } else {
                assert(rep[i] == digit_char(n % 2, false));
            }
        }
    }
}

/// The length of the run of hexadecimal digit characters at the front of
/// `s`.
pub open spec fn hex_run_len(s: Seq<char>) -> nat
    decreases s.len(),
{
    if s.len() == 0 {
        0
    } else if digit_val(s[0]) < 16 {
        1 + hex_run_len(s.skip(1))
    } else {
        0
    }
}

/// Whether `n` is the code of a Unicode scalar value.
pub open spec fn valid_char_code(n: nat) -> bool {
    n <= 0x10ffff && !(0xd800 <= n && n <= 0xdfff)
}

/// Reverse the documented escape rules of a `Debug`-rendered string body:
/// a backslash introduces one of the five named escapes or a braced
/// hexadecimal code, and every other character stands for itself. `None`
/// when the text follows no such shape.
pub open spec fn unescape_str_body(s: Seq<char>) -> Option<Seq<char>>
    decreases s.len(),
{
    if s.len() == 0 {
        Some(Seq::<char>::empty())
    } else if s[0] == '\\' {
        if s.len() < 2 {
            None
        } else if s[1] == '"' || s[1] == '\'' {
            match unescape_str_body(s.skip(2)) {
                Some(t) => Some(seq![s[1]] + t),
                None => None,
            }
        } else if s[1] == '0' {
            match unescape_str_body(s.skip(2)) {
                Some(t) => Some(seq!['\0'] + t),
                None => None,
            }
        } else if s[1] == 'n' {
            match unescape_str_body(s.skip(2)) {
                Some(t) => Some(seq!['\n'] + t),
                None => None,
            }
        } else if s[1] == 't' {
            match unescape_str_body(s.skip(2)) {
                Some(t) => Some(seq!['\t'] + t),
                None => None,
            }
        } else if s[1] == 'u' {
            let k = hex_run_len(s.skip(3)) as int;
            if s.len() >= 3 && s[2] == '{' && k >= 1 && 3 + k < s.len() && s[3 + k] == '}'
                && valid_char_code(parse_radix(s.subrange(3, 3 + k), 16)) {
                match unescape_str_body(s.skip(3 + k + 1)) {
                    Some(t) => Some(seq![parse_radix(s.subrange(3, 3 + k), 16) as char] + t),
                    None => None,
                }
            } else {
                None
            }
        } else {
            None
        }
    } else {
        match unescape_str_body(s.skip(1)) {
            Some(t) => Some(seq![s[0]] + t),
            None => None,
        }
    }
}

/// A run of hexadecimal digits followed by anything opening with a
/// non-digit measures exactly the run.
pub proof fn lemma_hex_run_len(h: Seq<char>, t: Seq<char>)
    requires
        forall|i: int| 0 <= i < h.len() ==> digit_val(#[trigger] h[i]) < 16,
        t.len() > 0,
        digit_val(t[0]) >= 16,
    ensures
        hex_run_len(h + t) == h.len(),
    decreases h.len(),
{
    if h.len() == 0 {
        assert(h + t =~= t);
    } else {
        assert((h + t)[0] == h[0]);
        assert((h + t).skip(1) =~= h.skip(1) + t);
        lemma_hex_run_len(h.skip(1), t);
        assert(hex_run_len((h + t).skip(1)) == h.skip(1).len());
    }
}

/// Reversing the escape rules on a rendered string body reconstructs the
/// string exactly, for strings free of literal backslashes (a backslash
/// renders as itself, so its rendering is not reversible).
pub proof fn lemma_unescape_str_body(s: Seq<char>)
    requires
        forall|i: int| 0 <= i < s.len() ==> s[i] != '\\',
    ensures
        unescape_str_body(str_body_rep(s)) == Some(s),
    decreases s.len(),
{
    if s.len() == 0 {
    } else {
        let c = s[0];
        let rep0 = str_char_rep(c);
        let rest = str_body_rep(s.skip(1));
        let total = str_body_rep(s);
        assert(total == rep0 + rest);
        assert(forall|i: int| 0 <= i < s.skip(1).len() ==> s.skip(1)[i] != '\\');
        lemma_unescape_str_body(s.skip(1));
        if c == '"' || c == '\'' || c == '\0' || c == '\n' || c == '\t' {
            assert(rep0.len() == 2 && rep0[0] == '\\');
            assert(total[0] == '\\' && total[1] == rep0[1]);
            assert(total.skip(2) =~= rest);
            assert(seq![c] + s.skip(1) =~= s);
        } else if is_ctl(c) {
            let code = c as nat;
            let hex = radix_rep(code, 16, false);
            assert(rep0 =~= seq!['\\', 'u', '{'] + hex + seq!['}']);
            lemma_radix_rep_shape(code, 16, false);
            lemma_parse_radix_roundtrip(code, 16, false);
            let k = hex.len();
            assert(total[0] == '\\' && total[1] == 'u' && total[2] == '{');
            assert(total.skip(3) =~= hex + (seq!['}'] + rest));
            assert(digit_val('}') >= 16);
            lemma_hex_run_len(hex, seq!['}'] + rest);
            assert(hex_run_len(total.skip(3)) == k);
            assert(total.subrange(3, 3 + k as int) =~= hex);
            assert(total[3 + k as int] == '}');
            assert(3 + k < total.len());
            assert(parse_radix(total.subrange(3, 3 + k as int), 16) == code);
            vstd::utf8::char_is_scalar(c);
            vstd::utf8::char_u32_cast(c, c as u32);
            assert(valid_char_code(code));
            assert((code as char) == c);
            assert(total.skip(3 + k as int + 1) =~= rest);
            assert(seq![c] + s.skip(1) =~= s);
        } else {
            assert(rep0 =~= seq![c]);
            assert(total[0] == c && c != '\\');
            assert(total.skip(1) =~= rest);
            assert(seq![c] + s.skip(1) =~= s);
        }
    }
}

/// Reverse the documented escape rules of a whole `Debug`-rendered string:
/// strip the surrounding double quotes and unescape the body.
pub open spec fn unescape_str(s: Seq<char>) -> Option<Seq<char>> {
    if s.len() >= 2 && s[0] == '"' && s.last() == '"' {
        unescape_str_body(s.subrange(1, s.len() - 1))
    } else {
        None
    }
}

/// Rendering a string under `Debug` and reversing the documented escape
/// rules reconstructs the string exactly, for strings free of literal
/// backslashes.
pub proof fn lemma_str_debug_roundtrip(s: Seq<char>)
    requires
        forall|i: int| 0 <= i < s.len() ==> s[i] != '\\',
    ensures
        unescape_str(str_rep(s)) == Some(s),
{
    let rep = str_rep(s);
    assert(rep[0] == '"');
    assert(rep.last() == '"');
    assert(rep.subrange(1, rep.len() - 1) =~= str_body_rep(s));
    lemma_unescape_str_body(s);
}

/// Whether a character is part of the layout that `Pretty` inserts and
/// `Debug` spaces with: blanks, line breaks and commas.
pub open spec fn is_layout_char(c: char) -> bool {
    c == ' ' || c == '\n' || c == ','
}

/// The rendering with every layout character removed.
pub open spec fn strip_layout(s: Seq<char>) -> Seq<char> {
    s.filter(|c: char| !is_layout_char(c))
}

/// The stripped fields, concatenated bare.
pub open spec fn strip_concat(fields: Seq<Seq<char>>) -> Seq<char>
    decreases fields.len(),
{
    if fields.len() == 0 {
        Seq::<char>::empty()
    } else {
        strip_layout(fields[0]) + strip_concat(fields.skip(1))
    }
}

/// A sequence of nothing but layout characters strips to nothing.
pub proof fn lemma_strip_all_layout(s: Seq<char>)
    requires
        forall|i: int| 0 <= i < s.len() ==> is_layout_char(#[trigger] s[i]),
    ensures
        strip_layout(s) == Seq::<char>::empty(),
    decreases s.len(),
{
    reveal(Seq::filter);
    if s.len() == 0 {
        assert(strip_layout(s) =~= Seq::<char>::empty());
    } else {
        lemma_strip_all_layout(s.drop_last());
        assert(is_layout_char(s.last()));
        assert(strip_layout(s) == strip_layout(s.drop_last()));
    }
}

/// Stripping a `Debug` field list leaves the bare stripped fields.
pub proof fn lemma_strip_sep_concat(fields: Seq<Seq<char>>)
    ensures
        strip_layout(sep_concat(fields, sep_rep())) == strip_concat(fields),
    decreases fields.len(),
{
    broadcast use Seq::filter_distributes_over_add;

    if fields.len() == 0 {
        reveal(Seq::filter);
        assert(strip_layout(sep_concat(fields, sep_rep())) =~= strip_concat(fields));
    } else if fields.len() == 1 {
        assert(sep_concat(fields, sep_rep()) == fields[0]);
        assert(strip_concat(fields) =~= strip_layout(fields[0]) + strip_concat(fields.skip(1)));
        assert(strip_concat(fields.skip(1)) == Seq::<char>::empty());
        assert(strip_layout(fields[0]) + Seq::<char>::empty() =~= strip_layout(fields[0]));
    } else {
        lemma_strip_sep_concat(fields.skip(1));
        assert(sep_concat(fields, sep_rep()) == fields[0] + sep_rep() + sep_concat(
            fields.skip(1),
            sep_rep(),
        ));
        lemma_strip_all_layout(sep_rep());
        assert(strip_layout(fields[0] + sep_rep()) == strip_layout(fields[0]) + strip_layout(
            sep_rep(),
        ));
        assert(strip_layout(fields[0]) + Seq::<char>::empty() =~= strip_layout(fields[0]));
        assert(strip_layout(sep_concat(fields, sep_rep())) == strip_layout(fields[0])
            + strip_concat(fields.skip(1)));
    }
}

/// Stripping a `Pretty` item block leaves the bare stripped fields.
pub proof fn lemma_strip_pretty_items(fields: Seq<Seq<char>>, depth: nat)
    ensures
        strip_layout(pretty_items_rep(fields, depth)) == strip_concat(fields),
    decreases fields.len(),
{
    broadcast use Seq::filter_distributes_over_add;

    if fields.len() == 0 {
        reveal(Seq::filter);
        assert(strip_layout(pretty_items_rep(fields, depth)) =~= strip_concat(fields));
    } else {
        lemma_strip_pretty_items(fields.skip(1), depth);
        assert(pretty_items_rep(fields, depth) == pretty_item_rep(fields[0], depth)
            + pretty_items_rep(fields.skip(1), depth));
        assert(pretty_item_rep(fields[0], depth) == newline_indent(depth) + fields[0] + seq![
            ',',
        ]);
        assert(forall|i: int|
            0 <= i < newline_indent(depth).len() ==> is_layout_char(
                #[trigger] newline_indent(depth)[i],
            ));
        lemma_strip_all_layout(newline_indent(depth));
        lemma_strip_all_layout(seq![',']);
        assert(strip_layout(pretty_item_rep(fields[0], depth)) == (Seq::<char>::empty()
            + strip_layout(fields[0])) + Seq::<char>::empty());
        assert((Seq::<char>::empty() + strip_layout(fields[0])) + Seq::<char>::empty()
            =~= strip_layout(fields[0]));
        assert(strip_layout(pretty_items_rep(fields, depth)) == strip_layout(fields[0])
            + strip_concat(fields.skip(1)));
    }
}

/// Pretty-rendering a tuple is consistent with Debug-rendering it modulo
/// layout: stripping blanks, line breaks and commas from both renderings
/// leaves the same text, so the field order and the field values agree.
pub proof fn lemma_pretty_debug_tuple_consistent(
    name: Seq<char>,
    fields: Seq<Seq<char>>,
    depth: nat,
)
    ensures
        strip_layout(pretty_tuple_rep(name, fields, depth)) == strip_layout(
            dbg_tuple_rep(name, fields),
        ),
{
    broadcast use Seq::filter_distributes_over_add;

    lemma_strip_sep_concat(fields);
    lemma_strip_pretty_items(fields, depth + 1);
    lemma_strip_all_layout(newline_indent(depth));
    assert(strip_layout(seq!['(']) =~= seq!['(']) by {
        reveal_with_fuel(Seq::filter, 2);
    }
    assert(strip_layout(seq![')']) =~= seq![')']) by {
        reveal_with_fuel(Seq::filter, 2);
    }
    assert(strip_layout(pretty_tuple_rep(name, fields, depth)) =~= strip_layout(name) + seq!['(']
        + strip_concat(fields) + seq![')']);
    assert(strip_layout(dbg_tuple_rep(name, fields)) =~= strip_layout(name) + seq!['(']
        + strip_concat(fields) + seq![')']);
}

/// Pretty-rendering a struct is consistent with Debug-rendering it modulo
/// layout: stripping blanks, line breaks and commas from both renderings
/// leaves the same text, so the field order, the field names and the field
/// values agree.
#[verifier::rlimit(50)]
pub proof fn lemma_pretty_debug_struct_consistent(
    name: Seq<char>,
    fields: Seq<(Seq<char>, Seq<char>)>,
    depth: nat,
)
    ensures
        strip_layout(pretty_struct_rep(name, fields, depth)) == strip_layout(
            dbg_struct_rep(name, fields),
        ),
{
    broadcast use Seq::filter_distributes_over_add;

    let units = fields.map_values(|p: (Seq<char>, Seq<char>)| dbg_field_rep(p.0, p.1));
    lemma_strip_sep_concat(units);
    lemma_strip_pretty_items(units, depth + 1);
    lemma_strip_all_layout(newline_indent(depth));
    lemma_strip_all_layout(seq![' ']);
    assert(strip_layout(seq![' ', '{', ' ']) =~= seq!['{']) by {
        reveal_with_fuel(Seq::filter, 4);
    }
    assert(strip_layout(seq![' ', '{']) =~= seq!['{']) by {
        reveal_with_fuel(Seq::filter, 3);
    }
    assert(strip_layout(seq![' ', '}']) =~= seq!['}']) by {
        reveal_with_fuel(Seq::filter, 3);
    }
    assert(strip_layout(seq!['}']) =~= seq!['}']) by {
        reveal_with_fuel(Seq::filter, 2);
    }
    assert(strip_layout(pretty_struct_rep(name, fields, depth)) =~= strip_layout(name) + seq![
        '{',
    ] + strip_concat(units) + seq!['}']);
    assert(strip_layout(dbg_struct_rep(name, fields)) =~= strip_layout(name) + seq!['{']
        + strip_concat(units) + seq!['}']);
}

/// The sink grew by some prefix of `text`: what a failed rendering is
/// allowed to leave behind.
pub open spec fn grew_by_prefix(pre: Seq<char>, post: Seq<char>, text: Seq<char>) -> bool {
    exists|k: int| 0 <= k <= text.len() && post == pre + #[trigger] text.take(k)
}

/// Growing by nothing is growing by a prefix.
pub proof fn lemma_grew_by_prefix_zero(pre: Seq<char>, text: Seq<char>)
    ensures
        grew_by_prefix(pre, pre, text),
{
    assert(pre =~= pre + text.take(0));
}

/// A prefix of a leading portion is a prefix of the whole.
pub proof fn lemma_grew_by_prefix_widen(
    pre: Seq<char>,
    post: Seq<char>,
    a: Seq<char>,
    b: Seq<char>,
)
    requires
        grew_by_prefix(pre, post, a),
    ensures
        grew_by_prefix(pre, post, a + b),
{
    let k = choose|k: int| 0 <= k <= a.len() && post == pre + a.take(k);
    assert((a + b).take(k) =~= a.take(k));
    assert(post == pre + (a + b).take(k));
}

/// After accepting `a` whole, growing by a prefix of `b` is growing by a
/// prefix of `a + b`.
pub proof fn lemma_grew_by_prefix_extend(
    pre: Seq<char>,
    post: Seq<char>,
    a: Seq<char>,
    b: Seq<char>,
)
    requires
        grew_by_prefix(pre + a, post, b),
    ensures
        grew_by_prefix(pre, post, a + b),
{
    let k = choose|k: int| 0 <= k <= b.len() && post == (pre + a) + b.take(k);
    assert((pre + a) + b.take(k) =~= pre + (a + b).take(a.len() + k));
    assert(post == pre + (a + b).take(a.len() + k));
}

/// A failure part-way through: the sink holds `done` whole plus a prefix of
/// `part`, and `done + part + rest` is the whole text.
pub proof fn lemma_grew_by_prefix_mid(
    pre: Seq<char>,
    post: Seq<char>,
    done: Seq<char>,
    part: Seq<char>,
    rest: Seq<char>,
    text: Seq<char>,
)
    requires
        grew_by_prefix(pre + done, post, part),
        text == done + part + rest,
    ensures
        grew_by_prefix(pre, post, text),
{
    lemma_grew_by_prefix_widen(pre + done, post, part, rest);
    lemma_grew_by_prefix_extend(pre, post, done, part + rest);
    assert(done + (part + rest) =~= done + part + rest);
}

/// The rendered body of a concatenation is the concatenation of the
/// rendered bodies.
pub proof fn lemma_str_body_rep_concat(a: Seq<char>, b: Seq<char>)
    ensures
        str_body_rep(a + b) == str_body_rep(a) + str_body_rep(b),
    decreases a.len(),
{
    if a.len() == 0 {
        assert(a + b =~= b);
        assert(str_body_rep(a) + str_body_rep(b) =~= str_body_rep(b));
    } else {
        assert((a + b)[0] == a[0]);
        assert((a + b).skip(1) =~= a.skip(1) + b);
        lemma_str_body_rep_concat(a.skip(1), b);
        assert(str_body_rep((a + b).skip(1)) == str_body_rep(a.skip(1)) + str_body_rep(b));
        assert(str_body_rep(a) == str_char_rep(a[0]) + str_body_rep(a.skip(1)));
        vstd::seq_lib::lemma_concat_associative(
            str_char_rep(a[0]),
            str_body_rep(a.skip(1)),
            str_body_rep(b),
        );
        assert(str_body_rep(a + b) == str_body_rep(a) + str_body_rep(b));
    }
}

/// The continuation of a joined sequence: a separator before every item.
pub open spec fn sep_cont(items: Seq<Seq<char>>, sep: Seq<char>) -> Seq<char>
    decreases items.len(),
{
    if items.len() == 0 {
        Seq::<char>::empty()
    } else {
        sep + items[0] + sep_cont(items.skip(1), sep)
    }
}

/// The continuation of a nonempty sequence is a separator before the join.
pub proof fn lemma_sep_cont(items: Seq<Seq<char>>, sep: Seq<char>)
    requires
        items.len() >= 1,
    ensures
        sep_cont(items, sep) == sep + sep_concat(items, sep),
    decreases items.len(),
{
    if items.len() == 1 {
        assert(sep_cont(items.skip(1), sep) == Seq::<char>::empty());
        assert(sep + items[0] + Seq::<char>::empty() =~= sep + items[0]);
    } else {
        lemma_sep_cont(items.skip(1), sep);
        assert(sep_cont(items, sep) == sep + items[0] + (sep + sep_concat(items.skip(1), sep)));
        assert(sep + items[0] + (sep + sep_concat(items.skip(1), sep)) =~= sep + (items[0] + sep
            + sep_concat(items.skip(1), sep)));
    }
}

/// A nonempty join opens with its first item, followed by the continuation
/// of the rest.
pub proof fn lemma_sep_concat_head(items: Seq<Seq<char>>, sep: Seq<char>)
    requires
        items.len() >= 1,
    ensures
        sep_concat(items, sep) == items[0] + sep_cont(items.skip(1), sep),
{
    if items.len() == 1 {
        assert(sep_cont(items.skip(1), sep) == Seq::<char>::empty());
        assert(items[0] + Seq::<char>::empty() =~= items[0]);
    } else {
        lemma_sep_cont(items.skip(1), sep);
        assert(sep_concat(items, sep) == items[0] + sep + sep_concat(items.skip(1), sep));
        assert(items[0] + sep + sep_concat(items.skip(1), sep) =~= items[0] + (sep + sep_concat(
            items.skip(1),
            sep,
        )));
    }
}

/// A join splits at any boundary into the joined head and the continuation
/// of the tail.
pub proof fn lemma_sep_concat_split(items: Seq<Seq<char>>, sep: Seq<char>, i: int)
    requires
        1 <= i <= items.len(),
    ensures
        sep_concat(items, sep) == sep_concat(items.take(i), sep) + sep_cont(items.skip(i), sep),
    decreases i,
{
    if i == 1 {
        lemma_sep_concat_head(items, sep);
        assert(items.take(1) =~= seq![items[0]]);
        assert(sep_concat(items.take(1), sep) == items[0]);
        assert(items.skip(1) =~= items.skip(1));
    } else {
        assert(items.len() >= 2);
        lemma_sep_concat_split(items.skip(1), sep, i - 1);
        assert(items.skip(1).take(i - 1) =~= items.take(i).skip(1));
        assert(items.skip(1).skip(i - 1) =~= items.skip(i));
        assert(sep_concat(items, sep) == items[0] + sep + sep_concat(items.skip(1), sep));
        assert(sep_concat(items.skip(1), sep) == sep_concat(items.take(i).skip(1), sep) + sep_cont(
            items.skip(i),
            sep,
        ));
        assert(items.take(i)[0] == items[0]);
        assert(items.take(i).len() == i >= 2);
        assert(sep_concat(items.take(i), sep) == items.take(i)[0] + sep + sep_concat(
            items.take(i).skip(1),
            sep,
        ));
        assert(items[0] + sep + (sep_concat(items.take(i).skip(1), sep) + sep_cont(
            items.skip(i),
            sep,
        )) =~= (items[0] + sep + sep_concat(items.take(i).skip(1), sep)) + sep_cont(
            items.skip(i),
            sep,
        ));
    }
}

/// A pretty item block splits at any boundary.
pub proof fn lemma_pretty_items_split(items: Seq<Seq<char>>, depth: nat, i: int)
    requires
        0 <= i <= items.len(),
    ensures
        pretty_items_rep(items, depth) == pretty_items_rep(items.take(i), depth)
            + pretty_items_rep(items.skip(i), depth),
    decreases i,
{
    if i == 0 {
        assert(items.take(0) =~= Seq::<Seq<char>>::empty());
        assert(items.skip(0) =~= items);
        assert(pretty_items_rep(items.take(0), depth) == Seq::<char>::empty());
        assert(Seq::<char>::empty() + pretty_items_rep(items, depth) =~= pretty_items_rep(
            items,
            depth,
        ));
    } else {
        lemma_pretty_items_split(items.skip(1), depth, i - 1);
        assert(items.skip(1).take(i - 1) =~= items.take(i).skip(1));
        assert(items.skip(1).skip(i - 1) =~= items.skip(i));
        assert(pretty_items_rep(items, depth) == pretty_item_rep(items[0], depth)
            + pretty_items_rep(items.skip(1), depth));
        assert(items.take(i)[0] == items[0]);
        assert(pretty_items_rep(items.take(i), depth) == pretty_item_rep(items[0], depth)
            + pretty_items_rep(items.take(i).skip(1), depth));
        assert(pretty_item_rep(items[0], depth) + (pretty_items_rep(items.take(i).skip(1), depth)
            + pretty_items_rep(items.skip(i), depth)) =~= (pretty_item_rep(items[0], depth)
            + pretty_items_rep(items.take(i).skip(1), depth)) + pretty_items_rep(
            items.skip(i),
            depth,
        ));
    }
}

/// A string body splits at any character into the bodies of the pieces
/// around that character's escape.
pub proof fn lemma_str_body_rep_split(s: Seq<char>, i: int)
    requires
        0 <= i < s.len(),
    ensures
        str_body_rep(s) == str_body_rep(s.take(i)) + str_char_rep(s[i]) + str_body_rep(
            s.skip(i + 1),
        ),
{
    assert(s =~= s.take(i) + s.skip(i));
    lemma_str_body_rep_concat(s.take(i), s.skip(i));
    assert(s.skip(i)[0] == s[i]);
    assert(s.skip(i).skip(1) =~= s.skip(i + 1));
    assert(str_body_rep(s.skip(i)) == str_char_rep(s[i]) + str_body_rep(s.skip(i + 1)));
    assert(str_body_rep(s.take(i)) + (str_char_rep(s[i]) + str_body_rep(s.skip(i + 1)))
        =~= str_body_rep(s.take(i)) + str_char_rep(s[i]) + str_body_rep(s.skip(i + 1)));
}

} // verus!
