//! A 4-channel color value: parsed from hex notation, emitted as hex and
//! rgb/rgba text.

use vstd::prelude::*;
use vstd::string::*;

verus! {

/// Failure conditions of color parsing: a string whose shape is not hex
/// notation at all (`InvalidHexChar`), or one of the right shape holding a
/// character that is no hex digit (`ParseErr`).
#[derive(Debug, PartialEq, Eq, Structural)]
pub enum ColorError {
    InvalidHexChar,
    ParseErr,
}

pub type ColorResult<T> = Result<T, ColorError>;

/// Immutable color value; each channel is an 8-bit integer and alpha
/// defaults to 255 (opaque) when not supplied.
#[derive(Clone, Copy, Debug, PartialEq, Eq, Structural)]
pub struct Color {
    pub r: u8,
    pub g: u8,
    pub b: u8,
    pub a: u8,
}

/// A hexadecimal digit, in either case.
pub open spec fn is_hex_digit(c: char) -> bool {
    ||| ('0' as u32) <= (c as u32) <= ('9' as u32)
    ||| ('a' as u32) <= (c as u32) <= ('f' as u32)
    ||| ('A' as u32) <= (c as u32) <= ('F' as u32)
}

/// Numeric value of a hex digit; meaningful only where `is_hex_digit` holds.
pub open spec fn hex_val(c: char) -> nat {
    if ('0' as u32) <= (c as u32) <= ('9' as u32) {
        ((c as u32) - ('0' as u32)) as nat
    } else if ('a' as u32) <= (c as u32) <= ('f' as u32) {
        ((c as u32) - ('a' as u32) + 10) as nat
    } else if ('A' as u32) <= (c as u32) <= ('F' as u32) {
        ((c as u32) - ('A' as u32) + 10) as nat
    } else {
        0
    }
}

/// The string has one of the four hex-notation shapes: a leading `#`
/// followed by 3, 4, 6 or 8 digit positions.
pub open spec fn hex_len_ok(s: Seq<char>) -> bool {
    &&& (s.len() == 4 || s.len() == 5 || s.len() == 7 || s.len() == 9)
    &&& s[0] == '#'
}

/// Every position after the leading `#` holds a hex digit.
pub open spec fn hex_digits_ok(s: Seq<char>) -> bool {
    forall|i: int| 1 <= i < s.len() ==> is_hex_digit(#[trigger] s[i])
}

/// Channel value of a digit pair at positions `i`, `i + 1`.
pub open spec fn pair_val(s: Seq<char>, i: int) -> nat {
    hex_val(s[i]) * 16 + hex_val(s[i + 1])
}

/// Channel value of the single digit at position `i`, duplicated to a full
/// byte (`a` reads as `aa`).
pub open spec fn dup_val(s: Seq<char>, i: int) -> nat {
    hex_val(s[i]) * 16 + hex_val(s[i])
}

/// What parsing a hex color string yields: `InvalidHexChar` off-shape,
/// `ParseErr` on a non-digit, else the channels read per shape, with alpha
/// 255 where the shape carries none.
pub open spec fn hex_spec(s: Seq<char>) -> ColorResult<Color> {
    if !hex_len_ok(s) {
        Err(ColorError::InvalidHexChar)
    } else if !hex_digits_ok(s) {
        Err(ColorError::ParseErr)
    } else if s.len() == 4 {
        Ok(Color {
            r: dup_val(s, 1) as u8,
            g: dup_val(s, 2) as u8,
            b: dup_val(s, 3) as u8,
            a: 255,
        })
    } else if s.len() == 5 {
        Ok(Color {
            r: dup_val(s, 1) as u8,
            g: dup_val(s, 2) as u8,
            b: dup_val(s, 3) as u8,
            a: dup_val(s, 4) as u8,
        })
    } else if s.len() == 7 {
        Ok(Color {
            r: pair_val(s, 1) as u8,
            g: pair_val(s, 3) as u8,
            b: pair_val(s, 5) as u8,
            a: 255,
        })
    } else {
        Ok(Color {
            r: pair_val(s, 1) as u8,
            g: pair_val(s, 3) as u8,
            b: pair_val(s, 5) as u8,
            a: pair_val(s, 7) as u8,
        })
    }
}

/// Lower-case hex digit for a value below 16.
pub open spec fn hex_char(d: nat) -> char {
    if d == 0 { '0' } else if d == 1 { '1' } else if d == 2 { '2' } else if d == 3 { '3' }
    else if d == 4 { '4' } else if d == 5 { '5' } else if d == 6 { '6' } else if d == 7 { '7' }
    else if d == 8 { '8' } else if d == 9 { '9' } else if d == 10 { 'a' } else if d == 11 { 'b' }
    else if d == 12 { 'c' } else if d == 13 { 'd' } else if d == 14 { 'e' } else { 'f' }
}

/// Two lower-case, zero-padded hex digits of a byte value.
pub open spec fn hex_pair(v: nat) -> Seq<char> {
    seq![hex_char(v / 16), hex_char(v % 16)]
}

/// The canonical 9-character hex form `#rrggbbaa` of a color.
pub open spec fn to_hex_spec(c: Color) -> Seq<char> {
    seq!['#'] + hex_pair(c.r as nat) + hex_pair(c.g as nat) + hex_pair(c.b as nat) + hex_pair(
        c.a as nat,
    )
}

/// Decimal digit for a value below 10.
pub open spec fn dec_char(d: nat) -> char {
    if d == 0 { '0' } else if d == 1 { '1' } else if d == 2 { '2' } else if d == 3 { '3' }
    else if d == 4 { '4' } else if d == 5 { '5' } else if d == 6 { '6' } else if d == 7 { '7' }
    else if d == 8 { '8' } else { '9' }
}

/// Decimal digit string of a number, without leading zeros.
pub open spec fn dec_str(n: nat) -> Seq<char>
    decreases n,
{
    if n < 10 {
        seq![dec_char(n)]
    } else {
        dec_str(n / 10).push(dec_char(n % 10))
    }
}

/// The rgb/rgba text of a color: the alpha term appears if and only if
/// alpha differs from 255, and is the raw 0-255 integer.
pub open spec fn to_rgb_spec(c: Color) -> Seq<char> {
    if c.a == 255 {
        "rgb("@ + dec_str(c.r as nat) + ", "@ + dec_str(c.g as nat) + ", "@ + dec_str(c.b as nat)
            + ")"@
    } else {
        "rgba("@ + dec_str(c.r as nat) + ", "@ + dec_str(c.g as nat) + ", "@ + dec_str(c.b as nat)
            + ", "@ + dec_str(c.a as nat) + ")"@
    }
}

impl Color {
    pub fn rgb(r: u8, g: u8, b: u8) -> (res: ColorResult<Self>)
        ensures
            res == Ok::<Color, ColorError>(Color { r, g, b, a: 255 }),
    {
        Ok(Self { r, g, b, a: 255 })
    }

    /// Four explicit channels; the alpha channel is taken already normalized
    /// to the 0-255 integer domain.
    pub fn rgba(r: u8, g: u8, b: u8, a: u8) -> (res: ColorResult<Self>)
        ensures
            res == Ok::<Color, ColorError>(Color { r, g, b, a }),
    {
        Ok(Self { r, g, b, a })
    }

    /// Parse hex notation: `#rgb`, `#rgba`, `#rrggbb` or `#rrggbbaa`.
    pub fn hex(color: &str) -> (res: ColorResult<Self>)
        ensures
            res == hex_spec(color@),
    {
        match Self::validate_hex_str(color) {
            Ok(_) => {}
            Err(e) => {
                return Err(e);
            }
        }
        let len: usize = color.unicode_len();

        match len {
            4 => Self::hex_to_rgb_1(color),
            5 => Self::hex_to_rgba_1(color),
            7 => Self::hex_to_rgb_2(color),
            9 => Self::hex_to_rgba_2(color),
            _ => Err(ColorError::InvalidHexChar),
        }
    }

    /// The canonical 9-character form `#rrggbbaa`, lower-case, zero-padded.
    pub fn to_hex(&self) -> (res: String)
        ensures
            res@ == to_hex_spec(*self),
    {
        let mut s = String::new();
        proof {
            reveal_strlit("#");
        }
        s.append("#");
        proof {
            assert(s@ =~= seq!['#']);
        }
        push_hex_byte(&mut s, self.r);
        push_hex_byte(&mut s, self.g);
        push_hex_byte(&mut s, self.b);
        push_hex_byte(&mut s, self.a);
        proof {
            assert(s@ =~= to_hex_spec(*self));
        }
        s
    }

    /// `rgb(r, g, b)` when fully opaque, else `rgba(r, g, b, a)` with the
    /// raw 0-255 alpha integer.
    pub fn to_rgb(&self) -> (res: String)
        ensures
            res@ == to_rgb_spec(*self),
            self.a == 255 ==> res@ == ("rgb("@ + dec_str(self.r as nat) + ", "@ + dec_str(
                self.g as nat,
            ) + ", "@ + dec_str(self.b as nat) + ")"@),
            self.a != 255 ==> res@ == ("rgba("@ + dec_str(self.r as nat) + ", "@ + dec_str(
                self.g as nat,
            ) + ", "@ + dec_str(self.b as nat) + ", "@ + dec_str(self.a as nat) + ")"@),
    {
        let mut s = String::new();
        if self.a == 255 {
            s.append("rgb(");
            push_dec_u8(&mut s, self.r);
            s.append(", ");
            push_dec_u8(&mut s, self.g);
            s.append(", ");
            push_dec_u8(&mut s, self.b);
            s.append(")");
            proof {
                assert(s@ =~= to_rgb_spec(*self));
            }
        } else {
            s.append("rgba(");
            push_dec_u8(&mut s, self.r);
            s.append(", ");
            push_dec_u8(&mut s, self.g);
            s.append(", ");
            push_dec_u8(&mut s, self.b);
            s.append(", ");
            push_dec_u8(&mut s, self.a);
            s.append(")");
            proof {
                assert(s@ =~= to_rgb_spec(*self));
            }
        }
        s
    }
}

impl Color {
    /// Shape check: one of the four lengths, with a leading `#`.
    fn validate_hex_str(hex: &str) -> (res: ColorResult<()>)
        ensures
            res is Ok <==> hex_len_ok(hex@),
            res is Err ==> res == Err::<(), ColorError>(ColorError::InvalidHexChar),
    {
        let len: usize = hex.unicode_len();
        match len {
            4 | 5 | 7 | 9 => {}
            _ => {
                return Err(ColorError::InvalidHexChar);
            }
        }

        if hex.get_char(0) != '#' {
            return Err(ColorError::InvalidHexChar);
        }

        Ok(())
    }

    /// Parse a two-digit hex string as a byte value.
    fn from_hex(hex: &str) -> (res: ColorResult<u8>)
        ensures
            res is Ok <==> (hex@.len() == 2 && is_hex_digit(hex@[0]) && is_hex_digit(hex@[1])),
            res is Ok ==> res == Ok::<u8, ColorError>(
                (hex_val(hex@[0]) * 16 + hex_val(hex@[1])) as u8,
            ),
            res is Err ==> res == Err::<u8, ColorError>(ColorError::ParseErr),
    {
        if hex.unicode_len() != 2 {
            return Err(ColorError::ParseErr);
        }
        let hi = match hex_digit_val(hex.get_char(0)) {
            Some(v) => v,
            None => {
                return Err(ColorError::ParseErr);
            }
        };
        let lo = match hex_digit_val(hex.get_char(1)) {
            Some(v) => v,
            None => {
                return Err(ColorError::ParseErr);
            }
        };
        Ok(hi * 16 + lo)
    }

    /// The single digit at position `i`, doubled into a two-digit string
    /// (`a` becomes `aa`) and parsed as a byte.
    fn dup_digit_byte(hex: &str, i: usize) -> (res: ColorResult<u8>)
        requires
            i < hex@.len(),
            i <= 8,
        ensures
            res is Ok <==> is_hex_digit(hex@[i as int]),
            res is Ok ==> res == Ok::<u8, ColorError>(dup_val(hex@, i as int) as u8),
            res is Err ==> res == Err::<u8, ColorError>(ColorError::ParseErr),
    {
        let d = hex.substring_char(i, i + 1);
        let mut doubled = String::new();
        doubled.append(d);
        doubled.append(d);
        proof {
            assert(doubled@ =~= seq![hex@[i as int], hex@[i as int]]);
        }
        Self::from_hex(doubled.as_str())
    }

    fn hex_to_rgb_1(hex: &str) -> (res: ColorResult<Self>)
        requires
            hex@.len() == 4,
            hex@[0] == '#',
        ensures
            res == hex_spec(hex@),
    {
        let r = match Self::dup_digit_byte(hex, 1) {
            Ok(v) => v,
            Err(e) => {
                return Err(e);
            }
        };
        let g = match Self::dup_digit_byte(hex, 2) {
            Ok(v) => v,
            Err(e) => {
                return Err(e);
            }
        };
        let b = match Self::dup_digit_byte(hex, 3) {
            Ok(v) => v,
            Err(e) => {
                return Err(e);
            }
        };
        Ok(Self { r, g, b, a: 255 })
    }

    fn hex_to_rgba_1(hex: &str) -> (res: ColorResult<Self>)
        requires
            hex@.len() == 5,
            hex@[0] == '#',
        ensures
            res == hex_spec(hex@),
    {
        let r = match Self::dup_digit_byte(hex, 1) {
            Ok(v) => v,
            Err(e) => {
                return Err(e);
            }
        };
        let g = match Self::dup_digit_byte(hex, 2) {
            Ok(v) => v,
            Err(e) => {
                return Err(e);
            }
        };
        let b = match Self::dup_digit_byte(hex, 3) {
            Ok(v) => v,
            Err(e) => {
                return Err(e);
            }
        };
        let a = match Self::dup_digit_byte(hex, 4) {
            Ok(v) => v,
            Err(e) => {
                return Err(e);
            }
        };
        Ok(Self { r, g, b, a })
    }

    fn hex_to_rgb_2(hex: &str) -> (res: ColorResult<Self>)
        requires
            hex@.len() == 7,
            hex@[0] == '#',
        ensures
            res == hex_spec(hex@),
    {
        let r = match Self::from_hex(hex.substring_char(1, 3)) {
            Ok(v) => v,
            Err(e) => {
                return Err(e);
            }
        };
        let g = match Self::from_hex(hex.substring_char(3, 5)) {
            Ok(v) => v,
            Err(e) => {
                return Err(e);
            }
        };
        let b = match Self::from_hex(hex.substring_char(5, 7)) {
            Ok(v) => v,
            Err(e) => {
                return Err(e);
            }
        };
        Ok(Self { r, g, b, a: 255 })
    }

    fn hex_to_rgba_2(hex: &str) -> (res: ColorResult<Self>)
        requires
            hex@.len() == 9,
            hex@[0] == '#',
        ensures
            res == hex_spec(hex@),
    {
        let r = match Self::from_hex(hex.substring_char(1, 3)) {
            Ok(v) => v,
            Err(e) => {
                return Err(e);
            }
        };
        let g = match Self::from_hex(hex.substring_char(3, 5)) {
            Ok(v) => v,
            Err(e) => {
                return Err(e);
            }
        };
        let b = match Self::from_hex(hex.substring_char(5, 7)) {
            Ok(v) => v,
            Err(e) => {
                return Err(e);
            }
        };
        let a = match Self::from_hex(hex.substring_char(7, 9)) {
            Ok(v) => v,
            Err(e) => {
                return Err(e);
            }
        };
        Ok(Self { r, g, b, a })
    }
}

/// Numeric value of a hex digit, or `None` where the character is no hex
/// digit.
fn hex_digit_val(c: char) -> (r: Option<u8>)
    ensures
        r is Some <==> is_hex_digit(c),
        is_hex_digit(c) ==> r == Some((hex_val(c) as u8)),
{
    let u: u32 = c as u32;
    if 48 <= u && u <= 57 {
        Some((u - 48) as u8)
    } else if 97 <= u && u <= 102 {
        Some((u - 97 + 10) as u8)
    } else if 65 <= u && u <= 70 {
        Some((u - 65 + 10) as u8)
    } else {
        None
    }
}

/// Append the lower-case hex digit of a value below 16.
fn push_hex_digit(s: &mut String, d: u8)
    requires
        d < 16,
    ensures
        final(s)@ == old(s)@ + seq![hex_char(d as nat)],
{
    if d == 0 {
        s.append("0");
        proof { reveal_strlit("0"); assert(s@ =~= old(s)@ + seq![hex_char(d as nat)]); }
    } else if d == 1 {
        s.append("1");
        proof { reveal_strlit("1"); assert(s@ =~= old(s)@ + seq![hex_char(d as nat)]); }
    } else if d == 2 {
        s.append("2");
        proof { reveal_strlit("2"); assert(s@ =~= old(s)@ + seq![hex_char(d as nat)]); }
    } else if d == 3 {
        s.append("3");
        proof { reveal_strlit("3"); assert(s@ =~= old(s)@ + seq![hex_char(d as nat)]); }
    } else if d == 4 {
        s.append("4");
        proof { reveal_strlit("4"); assert(s@ =~= old(s)@ + seq![hex_char(d as nat)]); }
    } else if d == 5 {
        s.append("5");
        proof { reveal_strlit("5"); assert(s@ =~= old(s)@ + seq![hex_char(d as nat)]); }
    } else if d == 6 {
        s.append("6");
        proof { reveal_strlit("6"); assert(s@ =~= old(s)@ + seq![hex_char(d as nat)]); }
    } else if d == 7 {
        s.append("7");
        proof { reveal_strlit("7"); assert(s@ =~= old(s)@ + seq![hex_char(d as nat)]); }
    } else if d == 8 {
        s.append("8");
        proof { reveal_strlit("8"); assert(s@ =~= old(s)@ + seq![hex_char(d as nat)]); }
    } else if d == 9 {
        s.append("9");
        proof { reveal_strlit("9"); assert(s@ =~= old(s)@ + seq![hex_char(d as nat)]); }
    } else if d == 10 {
        s.append("a");
        proof { reveal_strlit("a"); assert(s@ =~= old(s)@ + seq![hex_char(d as nat)]); }
    } else if d == 11 {
        s.append("b");
        proof { reveal_strlit("b"); assert(s@ =~= old(s)@ + seq![hex_char(d as nat)]); }
    } else if d == 12 {
        s.append("c");
        proof { reveal_strlit("c"); assert(s@ =~= old(s)@ + seq![hex_char(d as nat)]); }
    } else if d == 13 {
        s.append("d");
        proof { reveal_strlit("d"); assert(s@ =~= old(s)@ + seq![hex_char(d as nat)]); }
    } else if d == 14 {
        s.append("e");
        proof { reveal_strlit("e"); assert(s@ =~= old(s)@ + seq![hex_char(d as nat)]); }
    } else {
        s.append("f");
        proof { reveal_strlit("f"); assert(s@ =~= old(s)@ + seq![hex_char(d as nat)]); }
    }
}

/// Append the two zero-padded hex digits of a byte value.
fn push_hex_byte(s: &mut String, v: u8)
    ensures
        final(s)@ == old(s)@ + hex_pair(v as nat),
{
    push_hex_digit(s, v / 16);
    push_hex_digit(s, v % 16);
    proof {
        assert(s@ =~= old(s)@ + hex_pair(v as nat));
    }
}

/// Append the decimal digit of a value below 10.
fn push_dec_digit(s: &mut String, d: u8)
    requires
        d < 10,
    ensures
        final(s)@ == old(s)@ + seq![dec_char(d as nat)],
{
    if d == 0 {
        s.append("0");
        proof { reveal_strlit("0"); assert(s@ =~= old(s)@ + seq![dec_char(d as nat)]); }
    } else if d == 1 {
        s.append("1");
        proof { reveal_strlit("1"); assert(s@ =~= old(s)@ + seq![dec_char(d as nat)]); }
    } else if d == 2 {
        s.append("2");
        proof { reveal_strlit("2"); assert(s@ =~= old(s)@ + seq![dec_char(d as nat)]); }
    } else if d == 3 {
        s.append("3");
        proof { reveal_strlit("3"); assert(s@ =~= old(s)@ + seq![dec_char(d as nat)]); }
    } else if d == 4 {
        s.append("4");
        proof { reveal_strlit("4"); assert(s@ =~= old(s)@ + seq![dec_char(d as nat)]); }
    } else if d == 5 {
        s.append("5");
        proof { reveal_strlit("5"); assert(s@ =~= old(s)@ + seq![dec_char(d as nat)]); }
    } else if d == 6 {
        s.append("6");
        proof { reveal_strlit("6"); assert(s@ =~= old(s)@ + seq![dec_char(d as nat)]); }
    } else if d == 7 {
        s.append("7");
        proof { reveal_strlit("7"); assert(s@ =~= old(s)@ + seq![dec_char(d as nat)]); }
    } else if d == 8 {
        s.append("8");
        proof { reveal_strlit("8"); assert(s@ =~= old(s)@ + seq![dec_char(d as nat)]); }
    } else {
        s.append("9");
        proof { reveal_strlit("9"); assert(s@ =~= old(s)@ + seq![dec_char(d as nat)]); }
    }
}

/// Append the decimal digit string of a byte value, without leading zeros.
fn push_dec_u8(s: &mut String, v: u8)
    ensures
        final(s)@ == old(s)@ + dec_str(v as nat),
{
    if v >= 100 {
        push_dec_digit(s, v / 100);
        push_dec_digit(s, (v / 10) % 10);
        push_dec_digit(s, v % 10);
        proof {
            let n: nat = v as nat;
            assert(n / 10 / 10 == n / 100) by (nonlinear_arith);
            assert(n / 100 < 10);
            assert(n / 10 >= 10);
            assert(dec_str(n / 10 / 10) == seq![dec_char(n / 100)]);
            assert(dec_str(n / 10) == dec_str(n / 10 / 10).push(dec_char((n / 10) % 10)));
            assert(dec_str(n) == dec_str(n / 10).push(dec_char(n % 10)));
            assert(dec_str(n) =~= seq![
                dec_char(n / 100),
                dec_char((n / 10) % 10),
                dec_char(n % 10),
            ]);
            assert(s@ =~= old(s)@ + dec_str(v as nat));
        }
    } else if v >= 10 {
        push_dec_digit(s, v / 10);
        push_dec_digit(s, v % 10);
        proof {
            let n: nat = v as nat;
            assert(n / 10 < 10);
            assert(dec_str(n / 10) == seq![dec_char(n / 10)]);
            assert(dec_str(n) == dec_str(n / 10).push(dec_char(n % 10)));
            assert(dec_str(n) =~= seq![dec_char(n / 10), dec_char(n % 10)]);
            assert(s@ =~= old(s)@ + dec_str(v as nat));
        }
    } else {
        push_dec_digit(s, v);
    }
}

/// A value below 16 renders as a hex digit, and reading that digit back
/// gives the value: the two digit alphabets are inverse to each other.
pub proof fn lemma_hex_char_val(d: nat)
    requires
        d < 16,
    ensures
        is_hex_digit(hex_char(d)),
        hex_val(hex_char(d)) == d,
{
}

/// Round trip: rendering any color to its canonical `#rrggbbaa` form and
/// parsing that text back yields exactly the original channel values.
pub proof fn lemma_hex_round_trip(c: Color)
    ensures
        hex_spec(to_hex_spec(c)) == Ok::<Color, ColorError>(c),
{
    let s = to_hex_spec(c);
    assert(s.len() == 9);
    assert(s[0] == '#');
    assert(s[1] == hex_char((c.r as nat) / 16));
    assert(s[2] == hex_char((c.r as nat) % 16));
    assert(s[3] == hex_char((c.g as nat) / 16));
    assert(s[4] == hex_char((c.g as nat) % 16));
    assert(s[5] == hex_char((c.b as nat) / 16));
    assert(s[6] == hex_char((c.b as nat) % 16));
    assert(s[7] == hex_char((c.a as nat) / 16));
    assert(s[8] == hex_char((c.a as nat) % 16));
    assert forall|i: int| 1 <= i < s.len() implies is_hex_digit(#[trigger] s[i]) by {
        lemma_hex_char_val((c.r as nat) / 16);
        lemma_hex_char_val((c.r as nat) % 16);
        lemma_hex_char_val((c.g as nat) / 16);
        lemma_hex_char_val((c.g as nat) % 16);
        lemma_hex_char_val((c.b as nat) / 16);
        lemma_hex_char_val((c.b as nat) % 16);
        lemma_hex_char_val((c.a as nat) / 16);
        lemma_hex_char_val((c.a as nat) % 16);
    }
    lemma_hex_char_val((c.r as nat) / 16);
    lemma_hex_char_val((c.r as nat) % 16);
    lemma_hex_char_val((c.g as nat) / 16);
    lemma_hex_char_val((c.g as nat) % 16);
    lemma_hex_char_val((c.b as nat) / 16);
    lemma_hex_char_val((c.b as nat) % 16);
    lemma_hex_char_val((c.a as nat) / 16);
    lemma_hex_char_val((c.a as nat) % 16);
    assert(pair_val(s, 1) == c.r as nat);
    assert(pair_val(s, 3) == c.g as nat);
    assert(pair_val(s, 5) == c.b as nat);
    assert(pair_val(s, 7) == c.a as nat);
}

} // verus!
