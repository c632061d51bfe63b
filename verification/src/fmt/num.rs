//! Executable numeral rendering, shared by all the integer `Format`
//! implementations: repeated divide-and-mod digit extraction into a buffer,
//! emitted most significant digit first.

use vstd::prelude::*;

use crate::fmt::repr::{
    dec_rep, digit_char, grew_by_prefix, int_radix_rep, lemma_div_mod_split,
    lemma_grew_by_prefix_extend, lemma_grew_by_prefix_zero, radix_rep,
};
use crate::fmt::{Binary, Display, Error, Format, Hex, Pretty, Write};

verus! {

/// The digit character for value `d < 16`; letters follow the `upper` flag.
fn digit_char_of(d: u64, upper: bool) -> (c: char)
    requires
        d < 16,
    ensures
        c == digit_char(d as nat, upper),
{
    if d == 0 {
        '0'
    } else if d == 1 {
        '1'
    } else if d == 2 {
        '2'
    } else if d == 3 {
        '3'
    } else if d == 4 {
        '4'
    } else if d == 5 {
        '5'
    } else if d == 6 {
        '6'
    } else if d == 7 {
        '7'
    } else if d == 8 {
        '8'
    } else if d == 9 {
        '9'
    } else if d == 10 {
        if upper { 'A' } else { 'a' }
    } else if d == 11 {
        if upper { 'B' } else { 'b' }
    } else if d == 12 {
        if upper { 'C' } else { 'c' }
    } else if d == 13 {
        if upper { 'D' } else { 'd' }
    } else if d == 14 {
        if upper { 'E' } else { 'e' }
    } else {
        if upper { 'F' } else { 'f' }
    }
}

/// Write the base-`base` numeral of `x`, most significant digit first.
pub(crate) fn write_radix_u64<W: Write>(f: &mut W, x: u64, base: u64, upper: bool) -> (r: Result<
    (),
    Error,
>)
    requires
        2 <= base <= 16,
    ensures
        final(f).infallible() == old(f).infallible(),
        r is Ok ==> final(f).content() == old(f).content() + radix_rep(
            x as nat,
            base as nat,
            upper,
        ),
        r is Err ==> grew_by_prefix(
            old(f).content(),
            final(f).content(),
            radix_rep(x as nat, base as nat, upper),
        ),
        old(f).infallible() ==> r is Ok,
{
    let ghost x0 = x as nat;
    let ghost b = base as nat;
    let mut digits: Vec<char> = Vec::new();
    let mut v: u64 = x;

    let d0: u64 = v % base;
    digits.push(digit_char_of(d0, upper));
    v = v / base;
    proof {
        lemma_div_mod_split(x0, b);
        assert(digits@.reverse() =~= seq![digit_char(x0 % b, upper)]);
        if v == 0 {
            assert(x0 % b == x0);
        } else {
            assert(radix_rep(x0, b, upper) =~= radix_rep(v as nat, b, upper) + digits@.reverse());
        }
    }
    while v > 0
        invariant
            2 <= base <= 16,
            b == base as nat,
            radix_rep(x0, b, upper) =~= (if v > 0 {
                radix_rep(v as nat, b, upper)
            } else {
                Seq::<char>::empty()
            }) + digits@.reverse(),
        decreases v,
    {
        let ghost pre = digits@;
        let ghost vpre = v as nat;
        let d: u64 = v % base;
        digits.push(digit_char_of(d, upper));
        v = v / base;
        proof {
            lemma_div_mod_split(vpre, b);
            assert(digits@.reverse() =~= seq![digit_char(vpre % b, upper)] + pre.reverse());
            if v == 0 {
                assert(vpre < b);
                assert(vpre % b == vpre);
                assert(radix_rep(vpre, b, upper) == seq![digit_char(vpre, upper)]);
                assert(radix_rep(x0, b, upper) =~= Seq::<char>::empty() + digits@.reverse());
            } else {
                assert(radix_rep(vpre, b, upper) == radix_rep(vpre / b, b, upper).push(
                    digit_char(vpre % b, upper),
                ));
                assert(radix_rep(vpre, b, upper) =~= radix_rep(v as nat, b, upper) + seq![
                    digit_char(vpre % b, upper),
                ]);
                assert(radix_rep(x0, b, upper) =~= radix_rep(v as nat, b, upper)
                    + digits@.reverse());
            }
        }
    }

    let ghost out = radix_rep(x0, b, upper);
    proof {
        assert(out =~= digits@.reverse());
    }
    let n = digits.len();
    let mut i: usize = n;
    while i > 0
        invariant
            i <= n,
            n == digits@.len(),
            out == digits@.reverse(),
            out == radix_rep(x as nat, base as nat, upper),
            f.infallible() == old(f).infallible(),
            f.content() == old(f).content() + out.take(n - i),
        decreases i,
    {
        i = i - 1;
        let c = digits[i];
        proof {
            assert(out[n - i - 1] == digits@[i as int]);
            assert(out.take(n - i) =~= out.take(n - i - 1) + seq![digits@[i as int]]);
        }
        match f.write_char(c) {
            Ok(()) => (),
            Err(e) => {
                proof {
                    assert(f.content() == old(f).content() + radix_rep(
                        x as nat,
                        base as nat,
                        upper,
                    ).take(n - i - 1));
                    assert(grew_by_prefix(
                        old(f).content(),
                        f.content(),
                        radix_rep(x as nat, base as nat, upper),
                    ));
                }
                return Err(e);
            },
        }
        proof {
            assert(f.content() =~= old(f).content() + out.take(n - i));
        }
    }
    proof {
        assert(out.take(n as int) =~= out);
    }
    Ok(())
}

/// Write a sign-and-magnitude numeral: a `-` when `neg`, then the numeral of
/// `mag`.
pub(crate) fn write_int_radix_u64<W: Write>(
    f: &mut W,
    neg: bool,
    mag: u64,
    base: u64,
    upper: bool,
) -> (r: Result<(), Error>)
    requires
        2 <= base <= 16,
        neg ==> mag > 0,
    ensures
        final(f).infallible() == old(f).infallible(),
        r is Ok ==> final(f).content() == old(f).content() + int_radix_rep(
            if neg {
                -(mag as int)
            } else {
                mag as int
            },
            base as nat,
            upper,
        ),
        r is Err ==> grew_by_prefix(
            old(f).content(),
            final(f).content(),
            int_radix_rep(
                if neg {
                    -(mag as int)
                } else {
                    mag as int
                },
                base as nat,
                upper,
            ),
        ),
        old(f).infallible() ==> r is Ok,
{
    let ghost v: int = if neg { -(mag as int) } else { mag as int };
    let ghost full = int_radix_rep(v, base as nat, upper);
    proof {
        if neg {
            assert((-v) as nat == mag as nat);
            assert(full =~= seq!['-'] + radix_rep(mag as nat, base as nat, upper));
        }
    }
    if neg {
        match f.write_char('-') {
            Ok(()) => (),
            Err(e) => {
                proof {
                    lemma_grew_by_prefix_zero(old(f).content(), full);
                }
                return Err(e);
            },
        }
    }
    let r = write_radix_u64(f, mag, base, upper);
    proof {
        if r is Err && neg {
            lemma_grew_by_prefix_extend(
                old(f).content(),
                f.content(),
                seq!['-'],
                radix_rep(mag as nat, base as nat, upper),
            );
        }
    }
    r
}

/// The magnitude of `x` as an unsigned value, safe for the minimum
/// representable value.
pub(crate) fn i64_mag(x: i64) -> (m: u64)
    ensures
        m as int == if x < 0 {
            -(x as int)
        } else {
            x as int
        },
{
    if x == i64::MIN {
        9223372036854775808u64
    } else if x < 0 {
        (-x) as u64
    } else {
        x as u64
    }
}

impl Format<crate::fmt::Debug> for u8 {
    open spec fn rendering(&self, style: &crate::fmt::Debug) -> Seq<char> {
        dec_rep(*self as int)
    }

    fn fmt<W: Write>(&self, f: &mut W, style: &crate::fmt::Debug) -> (r: Result<(), Error>) {
        write_int_radix_u64(f, false, *self as u64, 10, false)
    }
}

impl Format<Display> for u8 {
    open spec fn rendering(&self, style: &Display) -> Seq<char> {
        dec_rep(*self as int)
    }

    fn fmt<W: Write>(&self, f: &mut W, style: &Display) -> (r: Result<(), Error>) {
        write_int_radix_u64(f, false, *self as u64, 10, false)
    }
}

impl Format<Pretty> for u8 {
    open spec fn rendering(&self, style: &Pretty) -> Seq<char> {
        dec_rep(*self as int)
    }

    fn fmt<W: Write>(&self, f: &mut W, style: &Pretty) -> (r: Result<(), Error>) {
        write_int_radix_u64(f, false, *self as u64, 10, false)
    }
}

impl Format<Hex> for u8 {
    open spec fn rendering(&self, style: &Hex) -> Seq<char> {
        int_radix_rep(*self as int, 16, style.0)
    }

    fn fmt<W: Write>(&self, f: &mut W, style: &Hex) -> (r: Result<(), Error>) {
        write_int_radix_u64(f, false, *self as u64, 16, style.0)
    }
}

impl Format<Binary> for u8 {
    open spec fn rendering(&self, style: &Binary) -> Seq<char> {
        radix_rep(*self as nat, 2, false)
    }

    fn fmt<W: Write>(&self, f: &mut W, style: &Binary) -> (r: Result<(), Error>) {
        write_radix_u64(f, *self as u64, 2, false)
    }
}

impl Format<crate::fmt::Debug> for u16 {
    open spec fn rendering(&self, style: &crate::fmt::Debug) -> Seq<char> {
        dec_rep(*self as int)
    }

    fn fmt<W: Write>(&self, f: &mut W, style: &crate::fmt::Debug) -> (r: Result<(), Error>) {
        write_int_radix_u64(f, false, *self as u64, 10, false)
    }
}

impl Format<Display> for u16 {
    open spec fn rendering(&self, style: &Display) -> Seq<char> {
        dec_rep(*self as int)
    }

    fn fmt<W: Write>(&self, f: &mut W, style: &Display) -> (r: Result<(), Error>) {
        write_int_radix_u64(f, false, *self as u64, 10, false)
    }
}

impl Format<Pretty> for u16 {
    open spec fn rendering(&self, style: &Pretty) -> Seq<char> {
        dec_rep(*self as int)
    }

    fn fmt<W: Write>(&self, f: &mut W, style: &Pretty) -> (r: Result<(), Error>) {
        write_int_radix_u64(f, false, *self as u64, 10, false)
    }
}

impl Format<Hex> for u16 {
    open spec fn rendering(&self, style: &Hex) -> Seq<char> {
        int_radix_rep(*self as int, 16, style.0)
    }

    fn fmt<W: Write>(&self, f: &mut W, style: &Hex) -> (r: Result<(), Error>) {
        write_int_radix_u64(f, false, *self as u64, 16, style.0)
    }
}

impl Format<Binary> for u16 {
    open spec fn rendering(&self, style: &Binary) -> Seq<char> {
        radix_rep(*self as nat, 2, false)
    }

    fn fmt<W: Write>(&self, f: &mut W, style: &Binary) -> (r: Result<(), Error>) {
        write_radix_u64(f, *self as u64, 2, false)
    }
}

impl Format<crate::fmt::Debug> for u32 {
    open spec fn rendering(&self, style: &crate::fmt::Debug) -> Seq<char> {
        dec_rep(*self as int)
    }

    fn fmt<W: Write>(&self, f: &mut W, style: &crate::fmt::Debug) -> (r: Result<(), Error>) {
        write_int_radix_u64(f, false, *self as u64, 10, false)
    }
}

impl Format<Display> for u32 {
    open spec fn rendering(&self, style: &Display) -> Seq<char> {
        dec_rep(*self as int)
    }

    fn fmt<W: Write>(&self, f: &mut W, style: &Display) -> (r: Result<(), Error>) {
        write_int_radix_u64(f, false, *self as u64, 10, false)
    }
}

impl Format<Pretty> for u32 {
    open spec fn rendering(&self, style: &Pretty) -> Seq<char> {
        dec_rep(*self as int)
    }

    fn fmt<W: Write>(&self, f: &mut W, style: &Pretty) -> (r: Result<(), Error>) {
        write_int_radix_u64(f, false, *self as u64, 10, false)
    }
}

impl Format<Hex> for u32 {
    open spec fn rendering(&self, style: &Hex) -> Seq<char> {
        int_radix_rep(*self as int, 16, style.0)
    }

    fn fmt<W: Write>(&self, f: &mut W, style: &Hex) -> (r: Result<(), Error>) {
        write_int_radix_u64(f, false, *self as u64, 16, style.0)
    }
}

impl Format<Binary> for u32 {
    open spec fn rendering(&self, style: &Binary) -> Seq<char> {
        radix_rep(*self as nat, 2, false)
    }

    fn fmt<W: Write>(&self, f: &mut W, style: &Binary) -> (r: Result<(), Error>) {
        write_radix_u64(f, *self as u64, 2, false)
    }
}

impl Format<crate::fmt::Debug> for u64 {
    open spec fn rendering(&self, style: &crate::fmt::Debug) -> Seq<char> {
        dec_rep(*self as int)
    }

    fn fmt<W: Write>(&self, f: &mut W, style: &crate::fmt::Debug) -> (r: Result<(), Error>) {
        write_int_radix_u64(f, false, *self as u64, 10, false)
    }
}

impl Format<Display> for u64 {
    open spec fn rendering(&self, style: &Display) -> Seq<char> {
        dec_rep(*self as int)
    }

    fn fmt<W: Write>(&self, f: &mut W, style: &Display) -> (r: Result<(), Error>) {
        write_int_radix_u64(f, false, *self as u64, 10, false)
    }
}

impl Format<Pretty> for u64 {
    open spec fn rendering(&self, style: &Pretty) -> Seq<char> {
        dec_rep(*self as int)
    }

    fn fmt<W: Write>(&self, f: &mut W, style: &Pretty) -> (r: Result<(), Error>) {
        write_int_radix_u64(f, false, *self as u64, 10, false)
    }
}

impl Format<Hex> for u64 {
    open spec fn rendering(&self, style: &Hex) -> Seq<char> {
        int_radix_rep(*self as int, 16, style.0)
    }

    fn fmt<W: Write>(&self, f: &mut W, style: &Hex) -> (r: Result<(), Error>) {
        write_int_radix_u64(f, false, *self as u64, 16, style.0)
    }
}

impl Format<Binary> for u64 {
    open spec fn rendering(&self, style: &Binary) -> Seq<char> {
        radix_rep(*self as nat, 2, false)
    }

    fn fmt<W: Write>(&self, f: &mut W, style: &Binary) -> (r: Result<(), Error>) {
        write_radix_u64(f, *self as u64, 2, false)
    }
}

impl Format<crate::fmt::Debug> for usize {
    open spec fn rendering(&self, style: &crate::fmt::Debug) -> Seq<char> {
        dec_rep(*self as int)
    }

    fn fmt<W: Write>(&self, f: &mut W, style: &crate::fmt::Debug) -> (r: Result<(), Error>) {
        write_int_radix_u64(f, false, *self as u64, 10, false)
    }
}

impl Format<Display> for usize {
    open spec fn rendering(&self, style: &Display) -> Seq<char> {
        dec_rep(*self as int)
    }

    fn fmt<W: Write>(&self, f: &mut W, style: &Display) -> (r: Result<(), Error>) {
        write_int_radix_u64(f, false, *self as u64, 10, false)
    }
}

impl Format<Pretty> for usize {
    open spec fn rendering(&self, style: &Pretty) -> Seq<char> {
        dec_rep(*self as int)
    }

    fn fmt<W: Write>(&self, f: &mut W, style: &Pretty) -> (r: Result<(), Error>) {
        write_int_radix_u64(f, false, *self as u64, 10, false)
    }
}

impl Format<Hex> for usize {
    open spec fn rendering(&self, style: &Hex) -> Seq<char> {
        int_radix_rep(*self as int, 16, style.0)
    }

    fn fmt<W: Write>(&self, f: &mut W, style: &Hex) -> (r: Result<(), Error>) {
        write_int_radix_u64(f, false, *self as u64, 16, style.0)
    }
}

impl Format<Binary> for usize {
    open spec fn rendering(&self, style: &Binary) -> Seq<char> {
        radix_rep(*self as nat, 2, false)
    }

    fn fmt<W: Write>(&self, f: &mut W, style: &Binary) -> (r: Result<(), Error>) {
        write_radix_u64(f, *self as u64, 2, false)
    }
}

impl Format<crate::fmt::Debug> for i8 {
    open spec fn rendering(&self, style: &crate::fmt::Debug) -> Seq<char> {
        dec_rep(*self as int)
    }

    fn fmt<W: Write>(&self, f: &mut W, style: &crate::fmt::Debug) -> (r: Result<(), Error>) {
        let x = *self as i64;
        write_int_radix_u64(f, x < 0, i64_mag(x), 10, false)
    }
}

impl Format<Display> for i8 {
    open spec fn rendering(&self, style: &Display) -> Seq<char> {
        dec_rep(*self as int)
    }

    fn fmt<W: Write>(&self, f: &mut W, style: &Display) -> (r: Result<(), Error>) {
        let x = *self as i64;
        write_int_radix_u64(f, x < 0, i64_mag(x), 10, false)
    }
}

impl Format<Pretty> for i8 {
    open spec fn rendering(&self, style: &Pretty) -> Seq<char> {
        dec_rep(*self as int)
    }

    fn fmt<W: Write>(&self, f: &mut W, style: &Pretty) -> (r: Result<(), Error>) {
        let x = *self as i64;
        write_int_radix_u64(f, x < 0, i64_mag(x), 10, false)
    }
}

impl Format<Hex> for i8 {
    open spec fn rendering(&self, style: &Hex) -> Seq<char> {
        int_radix_rep(*self as int, 16, style.0)
    }

    fn fmt<W: Write>(&self, f: &mut W, style: &Hex) -> (r: Result<(), Error>) {
        let x = *self as i64;
        write_int_radix_u64(f, x < 0, i64_mag(x), 16, style.0)
    }
}

impl Format<Binary> for i8 {
    open spec fn rendering(&self, style: &Binary) -> Seq<char> {
        radix_rep((*self as u8) as nat, 2, false)
    }

    fn fmt<W: Write>(&self, f: &mut W, style: &Binary) -> (r: Result<(), Error>) {
        let bits = #[verifier::truncate] (*self as u8);
        write_radix_u64(f, bits as u64, 2, false)
    }
}

impl Format<crate::fmt::Debug> for i16 {
    open spec fn rendering(&self, style: &crate::fmt::Debug) -> Seq<char> {
        dec_rep(*self as int)
    }

    fn fmt<W: Write>(&self, f: &mut W, style: &crate::fmt::Debug) -> (r: Result<(), Error>) {
        let x = *self as i64;
        write_int_radix_u64(f, x < 0, i64_mag(x), 10, false)
    }
}

impl Format<Display> for i16 {
    open spec fn rendering(&self, style: &Display) -> Seq<char> {
        dec_rep(*self as int)
    }

    fn fmt<W: Write>(&self, f: &mut W, style: &Display) -> (r: Result<(), Error>) {
        let x = *self as i64;
        write_int_radix_u64(f, x < 0, i64_mag(x), 10, false)
    }
}

impl Format<Pretty> for i16 {
    open spec fn rendering(&self, style: &Pretty) -> Seq<char> {
        dec_rep(*self as int)
    }

    fn fmt<W: Write>(&self, f: &mut W, style: &Pretty) -> (r: Result<(), Error>) {
        let x = *self as i64;
        write_int_radix_u64(f, x < 0, i64_mag(x), 10, false)
    }
}

impl Format<Hex> for i16 {
    open spec fn rendering(&self, style: &Hex) -> Seq<char> {
        int_radix_rep(*self as int, 16, style.0)
    }

    fn fmt<W: Write>(&self, f: &mut W, style: &Hex) -> (r: Result<(), Error>) {
        let x = *self as i64;
        write_int_radix_u64(f, x < 0, i64_mag(x), 16, style.0)
    }
}

impl Format<Binary> for i16 {
    open spec fn rendering(&self, style: &Binary) -> Seq<char> {
        radix_rep((*self as u16) as nat, 2, false)
    }

    fn fmt<W: Write>(&self, f: &mut W, style: &Binary) -> (r: Result<(), Error>) {
        let bits = #[verifier::truncate] (*self as u16);
        write_radix_u64(f, bits as u64, 2, false)
    }
}

impl Format<crate::fmt::Debug> for i32 {
    open spec fn rendering(&self, style: &crate::fmt::Debug) -> Seq<char> {
        dec_rep(*self as int)
    }

    fn fmt<W: Write>(&self, f: &mut W, style: &crate::fmt::Debug) -> (r: Result<(), Error>) {
        let x = *self as i64;
        write_int_radix_u64(f, x < 0, i64_mag(x), 10, false)
    }
}

impl Format<Display> for i32 {
    open spec fn rendering(&self, style: &Display) -> Seq<char> {
        dec_rep(*self as int)
    }

    fn fmt<W: Write>(&self, f: &mut W, style: &Display) -> (r: Result<(), Error>) {
        let x = *self as i64;
        write_int_radix_u64(f, x < 0, i64_mag(x), 10, false)
    }
}

impl Format<Pretty> for i32 {
    open spec fn rendering(&self, style: &Pretty) -> Seq<char> {
        dec_rep(*self as int)
    }

    fn fmt<W: Write>(&self, f: &mut W, style: &Pretty) -> (r: Result<(), Error>) {
        let x = *self as i64;
        write_int_radix_u64(f, x < 0, i64_mag(x), 10, false)
    }
}

impl Format<Hex> for i32 {
    open spec fn rendering(&self, style: &Hex) -> Seq<char> {
        int_radix_rep(*self as int, 16, style.0)
    }

    fn fmt<W: Write>(&self, f: &mut W, style: &Hex) -> (r: Result<(), Error>) {
        let x = *self as i64;
        write_int_radix_u64(f, x < 0, i64_mag(x), 16, style.0)
    }
}

impl Format<Binary> for i32 {
    open spec fn rendering(&self, style: &Binary) -> Seq<char> {
        radix_rep((*self as u32) as nat, 2, false)
    }

    fn fmt<W: Write>(&self, f: &mut W, style: &Binary) -> (r: Result<(), Error>) {
        let bits = #[verifier::truncate] (*self as u32);
        write_radix_u64(f, bits as u64, 2, false)
    }
}

impl Format<crate::fmt::Debug> for i64 {
    open spec fn rendering(&self, style: &crate::fmt::Debug) -> Seq<char> {
        dec_rep(*self as int)
    }

    fn fmt<W: Write>(&self, f: &mut W, style: &crate::fmt::Debug) -> (r: Result<(), Error>) {
        let x = *self as i64;
        write_int_radix_u64(f, x < 0, i64_mag(x), 10, false)
    }
}

impl Format<Display> for i64 {
    open spec fn rendering(&self, style: &Display) -> Seq<char> {
        dec_rep(*self as int)
    }

    fn fmt<W: Write>(&self, f: &mut W, style: &Display) -> (r: Result<(), Error>) {
        let x = *self as i64;
        write_int_radix_u64(f, x < 0, i64_mag(x), 10, false)
    }
}

impl Format<Pretty> for i64 {
    open spec fn rendering(&self, style: &Pretty) -> Seq<char> {
        dec_rep(*self as int)
    }

    fn fmt<W: Write>(&self, f: &mut W, style: &Pretty) -> (r: Result<(), Error>) {
        let x = *self as i64;
        write_int_radix_u64(f, x < 0, i64_mag(x), 10, false)
    }
}

impl Format<Hex> for i64 {
    open spec fn rendering(&self, style: &Hex) -> Seq<char> {
        int_radix_rep(*self as int, 16, style.0)
    }

    fn fmt<W: Write>(&self, f: &mut W, style: &Hex) -> (r: Result<(), Error>) {
        let x = *self as i64;
        write_int_radix_u64(f, x < 0, i64_mag(x), 16, style.0)
    }
}

impl Format<Binary> for i64 {
    open spec fn rendering(&self, style: &Binary) -> Seq<char> {
        radix_rep((*self as u64) as nat, 2, false)
    }

    fn fmt<W: Write>(&self, f: &mut W, style: &Binary) -> (r: Result<(), Error>) {
        let bits = #[verifier::truncate] (*self as u64);
        write_radix_u64(f, bits as u64, 2, false)
    }
}

impl Format<crate::fmt::Debug> for isize {
    open spec fn rendering(&self, style: &crate::fmt::Debug) -> Seq<char> {
        dec_rep(*self as int)
    }

    fn fmt<W: Write>(&self, f: &mut W, style: &crate::fmt::Debug) -> (r: Result<(), Error>) {
        let x = *self as i64;
        write_int_radix_u64(f, x < 0, i64_mag(x), 10, false)
    }
}

impl Format<Display> for isize {
    open spec fn rendering(&self, style: &Display) -> Seq<char> {
        dec_rep(*self as int)
    }

    fn fmt<W: Write>(&self, f: &mut W, style: &Display) -> (r: Result<(), Error>) {
        let x = *self as i64;
        write_int_radix_u64(f, x < 0, i64_mag(x), 10, false)
    }
}

impl Format<Pretty> for isize {
    open spec fn rendering(&self, style: &Pretty) -> Seq<char> {
        dec_rep(*self as int)
    }

    fn fmt<W: Write>(&self, f: &mut W, style: &Pretty) -> (r: Result<(), Error>) {
        let x = *self as i64;
        write_int_radix_u64(f, x < 0, i64_mag(x), 10, false)
    }
}

impl Format<Hex> for isize {
    open spec fn rendering(&self, style: &Hex) -> Seq<char> {
        int_radix_rep(*self as int, 16, style.0)
    }

    fn fmt<W: Write>(&self, f: &mut W, style: &Hex) -> (r: Result<(), Error>) {
        let x = *self as i64;
        write_int_radix_u64(f, x < 0, i64_mag(x), 16, style.0)
    }
}

impl Format<Binary> for isize {
    open spec fn rendering(&self, style: &Binary) -> Seq<char> {
        radix_rep((*self as usize) as nat, 2, false)
    }

    fn fmt<W: Write>(&self, f: &mut W, style: &Binary) -> (r: Result<(), Error>) {
        let bits = #[verifier::truncate] (*self as usize);
        write_radix_u64(f, bits as u64, 2, false)
    }
}

} // verus!
