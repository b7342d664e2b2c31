//! Colours: hexadecimal notation, contrast and tints.
use vstd::prelude::*;
use vstd::utf8::{encode_utf8, is_continuation_byte};

verus! {

/// The value of a hexadecimal digit.
pub open spec fn nibble_of(b: u8) -> Option<int> {
    if 0x30 <= b <= 0x39 {
        Some(b - 0x30)
    } else if 0x41 <= b <= 0x46 {
        Some(b - 0x41 + 10)
    } else if 0x61 <= b <= 0x66 {
        Some(b - 0x61 + 10)
    } else {
        None
    }
}

/// The number that two bytes write in base 16; the first may be a plus sign.
pub open spec fn octet_of(a: u8, b: u8) -> Option<u8> {
    match (nibble_of(a), nibble_of(b)) {
        (Some(x), Some(y)) => Some((16 * x + y) as u8),
        (None, Some(y)) => if a == 0x2b {
            Some(y as u8)
        } else {
            None
        },
        _ => None,
    }
}

/// `bytes` from the first one on that is no `#`.
pub open spec fn after_hashes(bytes: Seq<u8>) -> Seq<u8>
    decreases bytes.len(),
{
    if bytes.len() > 0 && bytes[0] == 0x23 {
        after_hashes(bytes.drop_first())
    } else {
        bytes
    }
}

/// The bytes that write red, green and blue: those behind the `#`, without an alpha channel.
pub open spec fn color_bytes(hex: Seq<u8>) -> Seq<u8> {
    let digits = after_hashes(hex);
    if digits.len() == 8 {
        digits.take(6)
    } else {
        digits
    }
}

/// The colour that `hex`, taken as UTF-8, writes.
pub open spec fn rgb_of(hex: Seq<u8>) -> Option<(u8, u8, u8)> {
    let c = color_bytes(hex);
    if c.len() == 6 {
        match (octet_of(c[0], c[1]), octet_of(c[2], c[3]), octet_of(c[4], c[5])) {
            (Some(r), Some(g), Some(b)) => Some((r, g, b)),
            _ => None,
        }
    } else {
        None
    }
}

/// Whether `hex` falls into its parts between characters: true of all ASCII text.
pub open spec fn well_divided(hex: Seq<u8>) -> bool {
    let digits = after_hashes(hex);
    let c = color_bytes(hex);
    &&& digits.len() == 8 ==> !is_continuation_byte(digits[6])
    &&& c.len() == 6 ==> {
        &&& !is_continuation_byte(c[2])
        &&& octet_of(c[0], c[1]) is Some ==> !is_continuation_byte(c[4])
    }
}

fn nibble(b: u8) -> (r: Option<u8>)
    ensures
        r is Some <==> nibble_of(b) is Some,
        r matches Some(x) ==> x == nibble_of(b)->0 && x < 16,
{
    if 0x30 <= b && b <= 0x39 {
        Some(b - 0x30)
    } else if 0x41 <= b && b <= 0x46 {
        Some(b - 0x41 + 10)
    } else if 0x61 <= b && b <= 0x66 {
        Some(b - 0x61 + 10)
    } else {
        None
    }
}

fn octet(a: u8, b: u8) -> (r: Option<u8>)
    ensures
        r == octet_of(a, b),
{
    let low = match nibble(b) {
        Some(y) => y,
        None => {
            return None;
        },
    };
    match nibble(a) {
        Some(x) => Some(16 * x + low),
        None => if a == 0x2b {
            Some(low)
        } else {
            None
        },
    }
}

/// Where the digits of `bytes` start.
fn skip_hashes(bytes: &[u8]) -> (r: usize)
    ensures
        r <= bytes@.len(),
        after_hashes(bytes@) == bytes@.skip(r as int),
{
    let mut i: usize = 0;
    assert(bytes@.skip(0) =~= bytes@);
    while i < bytes.len() && bytes[i] == 0x23
        invariant
            i <= bytes@.len(),
            after_hashes(bytes@) == after_hashes(bytes@.skip(i as int)),
        decreases bytes@.len() - i,
    {
        assert(bytes@.skip(i as int).drop_first() =~= bytes@.skip(i + 1));
        i = i + 1;
    }
    i
}

/// The colour that `hex` writes: six digits, behind any number of `#`, with two
/// more digits of alpha or without.
pub fn hex_to_rgb(hex: &str) -> (r: Option<(u8, u8, u8)>)
    requires
        well_divided(encode_utf8(hex@)),
    ensures
        r == rgb_of(encode_utf8(hex@)),
{
    let bytes = hex.as_bytes();
    let start = skip_hashes(bytes);
    let len = bytes.len() - start;
    if len != 6 && len != 8 {
        return None;
    }
    proof {
        let c = color_bytes(bytes@);
        assert(forall|k: int| 0 <= k < 6 ==> c[k] == bytes@[start + k]);
    }
    let red = octet(bytes[start], bytes[start + 1]);
    let green = octet(bytes[start + 2], bytes[start + 3]);
    let blue = octet(bytes[start + 4], bytes[start + 5]);
    match (red, green, blue) {
        (Some(r), Some(g), Some(b)) => Some((r, g, b)),
        _ => None,
    }
}

fn continues(b: u8) -> (r: bool)
    ensures
        r == is_continuation_byte(b),
{
    0x80 <= b && b <= 0xbf
}

/// Whether `hex` can be read as a colour at all.
pub fn is_well_divided(hex: &str) -> (r: bool)
    ensures
        r == well_divided(encode_utf8(hex@)),
{
    let bytes = hex.as_bytes();
    let start = skip_hashes(bytes);
    let len = bytes.len() - start;
    proof {
        let digits = after_hashes(bytes@);
        let c = color_bytes(bytes@);
        assert(forall|k: int| 0 <= k < len ==> digits[k] == bytes@[start + k]);
        if len == 6 || len == 8 {
            assert(forall|k: int| 0 <= k < 6 ==> c[k] == bytes@[start + k]);
        }
    }
    if len != 6 && len != 8 {
        return true;
    }
    if len == 8 && continues(bytes[start + 6]) {
        return false;
    }
    if continues(bytes[start + 2]) {
        return false;
    }
    octet(bytes[start], bytes[start + 1]).is_none() || !continues(bytes[start + 4])
}

/// ASCII text always falls into its parts.
pub proof fn lemma_ascii_is_well_divided(hex: Seq<char>)
    requires
        vstd::utf8::is_ascii_chars(hex),
    ensures
        well_divided(encode_utf8(hex)),
{
    vstd::utf8::is_ascii_chars_encode_utf8(hex);
    let bytes = encode_utf8(hex);
    assert forall|i: int| 0 <= i < bytes.len() implies #[trigger] bytes[i] < 0x80 by {
        assert(hex[i] as u8 == bytes[i]);
        assert('\0' <= hex[i] <= '\u{7f}');
    }
    lemma_after_hashes_is_suffix(bytes);
    let n = bytes.len() - after_hashes(bytes).len();
    assert(forall|k: int|
        0 <= k < after_hashes(bytes).len() ==> after_hashes(bytes)[k] == bytes[n + k]);
}

proof fn lemma_after_hashes_is_suffix(bytes: Seq<u8>)
    ensures
        after_hashes(bytes).len() <= bytes.len(),
        after_hashes(bytes) == bytes.skip(bytes.len() - after_hashes(bytes).len()),
    decreases bytes.len(),
{
    if bytes.len() > 0 && bytes[0] == 0x23 {
        lemma_after_hashes_is_suffix(bytes.drop_first());
        let n = bytes.len() - after_hashes(bytes).len();
        assert(bytes.drop_first().skip(n - 1) =~= bytes.skip(n));
    } else {
        assert(bytes.skip(0) =~= bytes);
    }
}

/// A colour as one number, red in the highest byte.
pub open spec fn int_of(c: (u8, u8, u8)) -> int {
    65536 * c.0 + 256 * c.1 + c.2
}

pub fn rgb_to_int(r: u8, g: u8, b: u8) -> (n: u32)
    ensures
        n == int_of((r, g, b)),
{
    65536 * (r as u32) + 256 * (g as u32) + (b as u32)
}

/// Different colours are different numbers.
pub proof fn lemma_int_of_is_injective(c: (u8, u8, u8), d: (u8, u8, u8))
    requires
        int_of(c) == int_of(d),
    ensures
        c == d,
{
}

/// The distance between neighbouring numbers of 24 significant bits, at `x`.
pub open spec fn unit_at(x: int) -> int
    decreases x,
{
    if x < 0x1000000 {
        1
    } else {
        2 * unit_at(x / 2)
    }
}

/// `x` in single precision: rounded to 24 significant bits, in the middle between
/// two such numbers to the even one.
pub open spec fn single(x: int) -> int {
    let unit = unit_at(x);
    let q = x / unit;
    let rest = x % unit;
    if 2 * rest > unit || 2 * rest == unit && q % 2 == 1 {
        (q + 1) * unit
    } else {
        q * unit
    }
}

/// The perceived brightness `0.299 r + 0.587 g + 0.114 b`, computed in single
/// precision, in units of 1 / 2^27.
pub open spec fn brightness_of(c: (u8, u8, u8)) -> int {
    let red = single(c.0 * 40131100);
    let green = single(c.1 * 78785808);
    let blue = single(c.2 * 15300821);
    single(single(red + green) + blue)
}

/// Whether a 255th of the brightness is, in single precision, above `0.6`.
pub open spec fn is_light(c: (u8, u8, u8)) -> bool {
    brightness_of(c) > 20535314220
}

/// What stands out on the colour `c`: black on a light one, white on another.
pub open spec fn contrast_of(c: (u8, u8, u8)) -> (u8, u8, u8) {
    if is_light(c) {
        (0, 0, 0)
    } else {
        (255, 255, 255)
    }
}

/// What stands for a colour that cannot be read.
pub open spec fn rgb_or_grey(hex: Seq<u8>) -> (u8, u8, u8) {
    match rgb_of(hex) {
        Some(c) => c,
        None => (128, 128, 128),
    }
}

proof fn lemma_unit_bounds(x: int)
    requires
        0 <= x < 0x800000000,
    ensures
        1 <= unit_at(x) <= 2048,
{
    reveal_with_fuel(unit_at, 13);
}

/// Rounding moves a number by at most half the distance to its neighbours.
proof fn lemma_single_is_close(x: int)
    requires
        0 <= x < 0x800000000,
    ensures
        0 <= single(x),
        x - 1024 <= single(x) <= x + 1024,
{
    lemma_unit_bounds(x);
    let unit = unit_at(x);
    let q = x / unit;
    let rest = x % unit;
    vstd::arithmetic::div_mod::lemma_fundamental_div_mod(x, unit);
    vstd::arithmetic::div_mod::lemma_mod_bound(x, unit);
    vstd::arithmetic::div_mod::lemma_div_pos_is_pos(x, unit);
    assert((q + 1) * unit == q * unit + unit) by (nonlinear_arith);
    assert(unit * q == q * unit) by (nonlinear_arith);
    assert(0 <= q * unit) by (nonlinear_arith)
        requires
            0 <= q,
            1 <= unit,
    ;
}

/// The brightness is within rounding of `0.299 r + 0.587 g + 0.114 b`: except where
/// that is exactly `153`, three fifths of 255, it decides which colours are light.
pub proof fn lemma_brightness_decides(c: (u8, u8, u8))
    ensures
        299 * c.0 + 587 * c.1 + 114 * c.2 > 153000 ==> is_light(c),
        299 * c.0 + 587 * c.1 + 114 * c.2 < 153000 ==> !is_light(c),
{
    let red = c.0 * 40131100;
    let green = c.1 * 78785808;
    let blue = c.2 * 15300821;
    lemma_single_is_close(red);
    lemma_single_is_close(green);
    lemma_single_is_close(blue);
    lemma_single_is_close(single(red) + single(green));
    lemma_single_is_close(single(single(red) + single(green)) + single(blue));
}

fn unit(x: u64) -> (r: u64)
    requires
        x < 0x800000000,
    ensures
        r == unit_at(x as int),
    decreases x,
{
    proof {
        lemma_unit_bounds(x as int);
    }
    if x < 0x1000000 {
        1
    } else {
        proof {
            lemma_unit_bounds(x as int / 2);
        }
        2 * unit(x / 2)
    }
}

fn to_single(x: u64) -> (r: u64)
    requires
        x < 0x800000000,
    ensures
        r == single(x as int),
        x - 1024 <= r <= x + 1024,
{
    proof {
        lemma_unit_bounds(x as int);
        lemma_single_is_close(x as int);
    }
    let u = unit(x);
    let q = x / u;
    let rest = x % u;
    if 2 * rest > u || 2 * rest == u && q % 2 == 1 {
        proof {
            assert(single(x as int) == (q + 1) * u);
        }
        (q + 1) * u
    } else {
        proof {
            assert(single(x as int) == q * u);
        }
        q * u
    }
}

/// What stands out on the colour `c`.
pub fn contrast(c: (u8, u8, u8)) -> (r: (u8, u8, u8))
    ensures
        r == contrast_of(c),
{
    let red = to_single(c.0 as u64 * 40131100);
    let green = to_single(c.1 as u64 * 78785808);
    let blue = to_single(c.2 as u64 * 15300821);
    let brightness = to_single(to_single(red + green) + blue);
    if brightness > 20535314220 {
        (0, 0, 0)
    } else {
        (255, 255, 255)
    }
}

/// The colour that `hex` writes, grey where it writes none.
pub fn hex_or_grey(hex: &str) -> (r: (u8, u8, u8))
    requires
        well_divided(encode_utf8(hex@)),
    ensures
        r == rgb_or_grey(encode_utf8(hex@)),
{
    match hex_to_rgb(hex) {
        Some(c) => c,
        None => (128, 128, 128),
    }
}

/// What stands out on the colour that `hex` writes.
pub fn get_contrast_color(hex: &str) -> (r: (u8, u8, u8))
    requires
        well_divided(encode_utf8(hex@)),
    ensures
        r == contrast_of(rgb_or_grey(encode_utf8(hex@))),
{
    contrast(hex_or_grey(hex))
}

/// The lower-case hexadecimal digit for `d`.
pub open spec fn hex_char(d: int) -> char {
    if d < 10 {
        (0x30 + d) as char
    } else {
        (0x61 + d - 10) as char
    }
}

/// How a colour is written: `#rrggbb`.
pub open spec fn hex_of(c: (u8, u8, u8)) -> Seq<char> {
    seq![
        '#',
        hex_char(c.0 as int / 16),
        hex_char(c.0 as int % 16),
        hex_char(c.1 as int / 16),
        hex_char(c.1 as int % 16),
        hex_char(c.2 as int / 16),
        hex_char(c.2 as int % 16),
    ]
}

fn hex_digit(d: u8) -> (r: char)
    requires
        d < 16,
    ensures
        r == hex_char(d as int),
{
    if d < 10 {
        (0x30 + d) as char
    } else {
        (0x61 + (d - 10)) as char
    }
}

/// Writes a colour as `#rrggbb`.
pub fn rgb_to_hex(c: (u8, u8, u8)) -> (r: String)
    ensures
        r@ == hex_of(c),
{
    let mut s = String::new();
    s.push('#');
    s.push(hex_digit(c.0 / 16));
    s.push(hex_digit(c.0 % 16));
    s.push(hex_digit(c.1 / 16));
    s.push(hex_digit(c.1 % 16));
    s.push(hex_digit(c.2 / 16));
    s.push(hex_digit(c.2 % 16));
    assert(s@ =~= hex_of(c));
    s
}

/// A colour that is written is read back.
pub proof fn lemma_hex_reads_back(c: (u8, u8, u8))
    ensures
        rgb_of(encode_utf8(hex_of(c))) == Some(c),
        well_divided(encode_utf8(hex_of(c))),
{
    let s = hex_of(c);
    assert(vstd::utf8::is_ascii_chars(s));
    lemma_ascii_is_well_divided(s);
    vstd::utf8::is_ascii_chars_encode_utf8(s);
    let bytes = encode_utf8(s);
    assert(forall|i: int| 0 <= i < 7 ==> s[i] as u8 == bytes[i]);
    assert(bytes[0] == 0x23);
    assert(s[1] as u8 == bytes[1]);
    reveal_with_fuel(after_hashes, 2);
    assert(after_hashes(bytes) == bytes.drop_first());
    assert forall|d: int| 0 <= d < 16 implies nibble_of(#[trigger] hex_char(d) as u8) == Some(
        d,
    ) by {}
    assert(forall|k: int| 0 <= k < 6 ==> bytes.drop_first()[k] == s[k + 1] as u8);
}

/// `x` moved by `by`, within a byte.
pub open spec fn shifted(x: u8, by: int) -> u8 {
    if x + by < 0 {
        0
    } else if x + by > 255 {
        255
    } else {
        (x + by) as u8
    }
}

/// The colour that `hex` writes, or else the one that tints start from.
pub open spec fn rgb_or_base(hex: Seq<u8>) -> (u8, u8, u8) {
    match rgb_of(hex) {
        Some(c) => c,
        None => (30, 30, 46),
    }
}

/// The colour that `hex` writes, with each channel moved.
pub open spec fn tint_of(hex: Seq<u8>, r: int, g: int, b: int) -> (u8, u8, u8) {
    let base = rgb_or_base(hex);
    (shifted(base.0, r), shifted(base.1, g), shifted(base.2, b))
}

fn shift(x: u8, by: i16) -> (r: u8)
    requires
        x + by <= i16::MAX,
    ensures
        r == shifted(x, by as int),
{
    let y = x as i16 + by;
    if y < 0 {
        0
    } else if y > 255 {
        255
    } else {
        y as u8
    }
}

/// Tints the colour that `base_hex` writes.
pub fn tint_color(base_hex: &str, r_add: i16, g_add: i16, b_add: i16) -> (s: String)
    requires
        well_divided(encode_utf8(base_hex@)),
        rgb_or_base(encode_utf8(base_hex@)).0 + r_add <= i16::MAX,
        rgb_or_base(encode_utf8(base_hex@)).1 + g_add <= i16::MAX,
        rgb_or_base(encode_utf8(base_hex@)).2 + b_add <= i16::MAX,
    ensures
        s@ == hex_of(
            tint_of(encode_utf8(base_hex@), r_add as int, g_add as int, b_add as int),
        ),
{
    let (r, g, b) = match hex_to_rgb(base_hex) {
        Some(c) => c,
        None => (30, 30, 46),
    };
    rgb_to_hex((shift(r, r_add), shift(g, g_add), shift(b, b_add)))
}

/// Signs before the digits and an alpha channel behind them do not change a colour.
pub proof fn lemma_hash_and_alpha_do_not_matter(hex: Seq<u8>, digits: Seq<u8>, a: u8, b: u8)
    requires
        digits.len() == 6,
        digits[0] != 0x23,
    ensures
        rgb_of(seq![0x23u8] + hex) == rgb_of(hex),
        rgb_of(digits.push(a).push(b)) == rgb_of(digits),
{
    let signed = seq![0x23u8] + hex;
    assert(signed.drop_first() =~= hex);
    assert(after_hashes(signed) == after_hashes(hex));
    let long = digits.push(a).push(b);
    assert(after_hashes(long) == long);
    assert(after_hashes(digits) == digits);
    assert(long.take(6) =~= digits);
}

/// Six digits write red, green and blue, two for each, in either case. With any other
/// number of bytes, or a byte that is no digit, they write no colour.
pub proof fn lemma_digits_write_channels(d: Seq<u8>)
    requires
        d.len() > 0 ==> d[0] != 0x23,
    ensures
        d.len() == 6 && (forall|i: int| 0 <= i < 6 ==> nibble_of(#[trigger] d[i]) is Some)
            ==> rgb_of(d) == Some(
            (
                (16 * nibble_of(d[0])->0 + nibble_of(d[1])->0) as u8,
                (16 * nibble_of(d[2])->0 + nibble_of(d[3])->0) as u8,
                (16 * nibble_of(d[4])->0 + nibble_of(d[5])->0) as u8,
            ),
        ),
        d.len() != 6 && d.len() != 8 ==> rgb_of(d) is None,
        d.len() == 6 && (nibble_of(d[1]) is None || nibble_of(d[3]) is None || nibble_of(
            d[5],
        ) is None) ==> rgb_of(d) is None,
{
    assert(after_hashes(d) == d);
    if d.len() == 6 && (forall|i: int| 0 <= i < 6 ==> nibble_of(#[trigger] d[i]) is Some) {
        assert(nibble_of(d[0]) is Some && nibble_of(d[1]) is Some && nibble_of(d[2]) is Some
            && nibble_of(d[3]) is Some && nibble_of(d[4]) is Some && nibble_of(d[5]) is Some);
    }
}

/// A digit is worth the same in either case.
pub proof fn lemma_case_of_digits_does_not_matter(k: u8)
    requires
        k < 6,
    ensures
        nibble_of((0x41 + k) as u8) == Some(10 + k as int),
        nibble_of((0x61 + k) as u8) == Some(10 + k as int),
{
}

/// Each channel has a byte of its own in the number of a colour.
pub proof fn lemma_channels_of_the_number(c: (u8, u8, u8))
    ensures
        int_of(c) / 65536 == c.0,
        int_of(c) / 256 % 256 == c.1,
        int_of(c) % 256 == c.2,
{
}

/// What stands out is black or white.
pub proof fn lemma_contrast_is_black_or_white(c: (u8, u8, u8))
    ensures
        contrast_of(c) == (0u8, 0u8, 0u8) || contrast_of(c) == (255u8, 255u8, 255u8),
        299 * c.0 + 587 * c.1 + 114 * c.2 > 153000 ==> contrast_of(c) == (0u8, 0u8, 0u8),
        299 * c.0 + 587 * c.1 + 114 * c.2 < 153000 ==> contrast_of(c) == (255u8, 255u8, 255u8),
{
    lemma_brightness_decides(c);
}

/// A tint moves each channel by its own amount, as far as a byte reaches.
pub proof fn lemma_tints_move_channels(hex: Seq<u8>, r: int, g: int, b: int)
    ensures
        ({
            let base = rgb_or_base(hex);
            let t = tint_of(hex, r, g, b);
            &&& 0 <= base.0 + r <= 255 ==> t.0 == base.0 + r
            &&& 0 <= base.1 + g <= 255 ==> t.1 == base.1 + g
            &&& 0 <= base.2 + b <= 255 ==> t.2 == base.2 + b
            &&& base.0 + r > 255 ==> t.0 == 255
            &&& base.1 + g > 255 ==> t.1 == 255
            &&& base.2 + b > 255 ==> t.2 == 255
            &&& base.0 + r < 0 ==> t.0 == 0
            &&& base.1 + g < 0 ==> t.1 == 0
            &&& base.2 + b < 0 ==> t.2 == 0
            &&& rgb_of(hex) matches Some(c) ==> base == c
            &&& rgb_of(hex) is None ==> base == (30u8, 30u8, 46u8)
        }),
{
}

/// What cannot be read as a colour counts as grey, and all else as what it writes.
pub proof fn lemma_grey_stands_for_no_color(hex: Seq<u8>)
    ensures
        rgb_of(hex) is Some ==> rgb_or_grey(hex) == rgb_of(hex)->0,
        rgb_of(hex) is None ==> rgb_or_grey(hex) == (128u8, 128u8, 128u8),
{
}

} // verus!
