//! Plain-text pixel-map output: decimal formatting, the gamma-encoded
//! display conversion, and the line/header layout. The emitted text is the
//! one bit-exact external contract of the renderer, so every byte is
//! pinned by the specs here.

use crate::fixed::clamp_spec;
use crate::fixed::fx_div;
use crate::fixed::fx_mul;
use crate::fixed::fx_sqrt;
use crate::fixed::Fx;
use crate::fixed::SCALE;
use crate::vec3::Color;
use crate::vec3::Vec3;
use vstd::prelude::*;

verus! {

/// The decimal digits of `n`, most significant first, as ASCII bytes.
pub open spec fn spec_digits(n: nat) -> Seq<u8>
    decreases n,
{
    if n < 10 {
        seq![(48 + n) as u8]
    } else {
        spec_digits(n / 10).push((48 + n % 10) as u8)
    }
}

/// Digits are ASCII: every byte of `spec_digits` is below 128.
pub proof fn lemma_digits_ascii(n: nat)
    ensures
        forall|k: int| 0 <= k < spec_digits(n).len() ==> spec_digits(n)[k] < 128,
    decreases n,
{
    if n < 10 {
        assert(spec_digits(n) == seq![(48 + n) as u8]);
    } else {
        lemma_digits_ascii(n / 10);
        let prev = spec_digits(n / 10);
        assert(spec_digits(n) == prev.push((48 + n % 10) as u8));
        assert forall|k: int| 0 <= k < spec_digits(n).len() implies spec_digits(n)[k] < 128 by {
            if k < prev.len() {
                assert(spec_digits(n)[k] == prev[k]);
            } else {
                assert(spec_digits(n)[k] == (48 + n % 10) as u8);
            }
        }
    }
}

/// One color channel pressed into a display byte: the channel is averaged
/// over the sample count, gamma-2 encoded by a square root (negatives
/// flatten to zero first), clamped to `[0, 0.999]`, and scaled by `255.999`
/// with truncation - the clamp keeps the result from reaching 256.
pub open spec fn channel_byte(c: int, samples: int) -> int {
    let scale = fx_div(SCALE as int, samples * SCALE as int);
    let v = fx_mul(c, scale);
    let nn = if v >= 0 {
        v
    } else {
        0
    };
    let s = fx_sqrt(nn);
    let cl = clamp_spec(s, 0, 65470);
    (cl * 255999) / 65536000
}

/// The display bytes of a channel stay in `0..=255`.
pub proof fn lemma_channel_byte_range(c: int, samples: int)
    ensures
        0 <= channel_byte(c, samples) <= 255,
{
    let scale = fx_div(SCALE as int, samples * SCALE as int);
    let v = fx_mul(c, scale);
    let nn = if v >= 0 {
        v
    } else {
        0
    };
    let cl = clamp_spec(fx_sqrt(nn), 0, 65470);
    assert(0 <= cl <= 65470);
    assert(cl * 255999 <= 65470 * 255999) by (nonlinear_arith)
        requires
            0 <= cl <= 65470,
    ;
    assert(cl * 255999 >= 0) by (nonlinear_arith)
        requires
            cl >= 0,
    ;
    vstd::arithmetic::div_mod::lemma_div_pos_is_pos(cl * 255999, 65536000);
    vstd::arithmetic::div_mod::lemma_div_is_ordered(cl * 255999, 65470int * 255999int, 65536000);
}

/// One channel's display byte without averaging: the gamma encoding, the
/// clamp and the scaling alone.
pub open spec fn gamma_byte(c: int) -> int {
    let nn = if c >= 0 {
        c
    } else {
        0
    };
    let cl = clamp_spec(fx_sqrt(nn), 0, 65470);
    (cl * 255999) / 65536000
}

/// With a single sample, the averaged display byte is exactly the raw
/// sample's gamma-encoded byte: the averaging scale is one and drops out.
pub proof fn lemma_single_sample_channel(c: int)
    requires
        i64::MIN as int <= c <= i64::MAX as int,
    ensures
        channel_byte(c, 1) == gamma_byte(c),
{
    crate::fixed::lemma_tdiv_exact(SCALE as int, SCALE as int);
    crate::fixed::lemma_tdiv_exact(c, SCALE as int);
}

/// The bytes of one pixel line: three display channels separated by single
/// spaces.
pub open spec fn pixel_bytes(c: Color, samples: int) -> Seq<u8> {
    spec_digits(channel_byte(c.x@, samples) as nat) + seq![32u8] + spec_digits(
        channel_byte(c.y@, samples) as nat,
    ) + seq![32u8] + spec_digits(channel_byte(c.z@, samples) as nat)
}

/// Bytes reinterpreted as characters (meaningful for ASCII bytes).
pub open spec fn chars_of(bytes: Seq<u8>) -> Seq<char> {
    bytes.map_values(|b: u8| b as char)
}

/// The characters of one pixel line.
pub open spec fn pixel_chars(c: Color, samples: int) -> Seq<char> {
    chars_of(pixel_bytes(c, samples))
}

/// The bytes of one pixel line without averaging.
pub open spec fn pixel_bytes_gamma(c: Color) -> Seq<u8> {
    spec_digits(gamma_byte(c.x@) as nat) + seq![32u8] + spec_digits(gamma_byte(c.y@) as nat)
        + seq![32u8] + spec_digits(gamma_byte(c.z@) as nat)
}

/// With a single sample per pixel, the emitted display line is exactly the
/// raw sample's gamma-encoded line.
pub proof fn lemma_single_sample_line(c: Color)
    ensures
        pixel_bytes(c, 1) == pixel_bytes_gamma(c),
{
    lemma_single_sample_channel(c.x@);
    lemma_single_sample_channel(c.y@);
    lemma_single_sample_channel(c.z@);
}

/// Lines each followed by a newline byte.
pub open spec fn join_lines(lines: Seq<Seq<u8>>) -> Seq<u8>
    decreases lines.len(),
{
    if lines.len() == 0 {
        Seq::<u8>::empty()
    } else {
        lines[0] + seq![10u8] + join_lines(lines.skip(1))
    }
}

/// Appending one more line extends the joined bytes at the end.
pub proof fn lemma_join_push(lines: Seq<Seq<u8>>, l: Seq<u8>)
    ensures
        join_lines(lines.push(l)) == join_lines(lines) + l + seq![10u8],
    decreases lines.len(),
{
    if lines.len() == 0 {
        assert(lines.push(l).skip(1) =~= Seq::<Seq<u8>>::empty());
        assert(lines.push(l)[0] == l);
        assert(join_lines(lines.push(l)) == l + seq![10u8] + join_lines(Seq::<Seq<u8>>::empty()));
        assert(join_lines(Seq::<Seq<u8>>::empty()) == Seq::<u8>::empty());
        assert(join_lines(lines) == Seq::<u8>::empty());
        assert(l + seq![10u8] + Seq::<u8>::empty() =~= Seq::<u8>::empty() + l + seq![10u8]);
    } else {
        lemma_join_push(lines.skip(1), l);
        assert(lines.push(l).skip(1) =~= lines.skip(1).push(l));
        assert(lines.push(l)[0] == lines[0]);
        assert(join_lines(lines.push(l)) == lines[0] + seq![10u8] + join_lines(
            lines.skip(1).push(l),
        ));
        assert(join_lines(lines.skip(1).push(l)) == join_lines(lines.skip(1)) + l + seq![10u8]);
        assert(join_lines(lines) == lines[0] + seq![10u8] + join_lines(lines.skip(1)));
        assert(lines[0] + seq![10u8] + (join_lines(lines.skip(1)) + l + seq![10u8]) =~= (lines[0]
            + seq![10u8] + join_lines(lines.skip(1))) + l + seq![10u8]);
    }
}

/// The header of a width-by-height pixel map: the `P3` magic, the two
/// dimensions, and the maximum channel value, each line newline-ended.
pub open spec fn ppm_header(w: nat, h: nat) -> Seq<u8> {
    seq![80u8, 51u8, 10u8] + spec_digits(w) + seq![32u8] + spec_digits(h) + seq![10u8] + seq![
        50u8,
        53u8,
        53u8,
        10u8,
    ]
}

/// A whole pixel map: the header, then every pixel line newline-ended.
pub open spec fn ppm_bytes(w: nat, h: nat, lines: Seq<Seq<u8>>) -> Seq<u8> {
    ppm_header(w, h) + join_lines(lines)
}

/// Writes the decimal digits of `n` onto the end of `out`.
pub fn push_digits(n: u32, out: &mut Vec<u8>)
    ensures
        final(out)@ == old(out)@ + spec_digits(n as nat),
    decreases n,
{
    if n < 10 {
        out.push(48 + (n as u8));
        assert(final(out)@ =~= old(out)@ + spec_digits(n as nat));
    } else {
        push_digits(n / 10, out);
        out.push(48 + ((n % 10) as u8));
        assert(final(out)@ =~= old(out)@ + spec_digits(n as nat));
    }
}

/// One channel of a color pressed into its display byte.
fn channel_byte_exec(c: Fx, samples: i32) -> (r: u8)
    requires
        samples >= 1,
    ensures
        r as int == channel_byte(c@, samples as int),
{
    let scale = Fx::one().div(Fx::from_int(samples));
    let v = c.mul(scale);
    let nn = v.max(Fx::zero());
    let s = nn.sqrt();
    let cl = crate::fixed::clamp(s, Fx::zero(), Fx::from_raw(65470));
    proof {
        lemma_channel_byte_range(c@, samples as int);
    }
    (((cl.raw as u64) * 255999) / 65536000) as u8
}

/// The bytes of one pixel line.
pub fn pixel_line_bytes(c: Color, samples: i32) -> (v: Vec<u8>)
    requires
        samples >= 1,
    ensures
        v@ == pixel_bytes(c, samples as int),
        forall|k: int| 0 <= k < v@.len() ==> v@[k] < 128,
{
    let rb = channel_byte_exec(c.x, samples);
    let gb = channel_byte_exec(c.y, samples);
    let bb = channel_byte_exec(c.z, samples);
    let mut v: Vec<u8> = Vec::new();
    push_digits(rb as u32, &mut v);
    v.push(32);
    push_digits(gb as u32, &mut v);
    v.push(32);
    push_digits(bb as u32, &mut v);
    proof {
        lemma_digits_ascii(rb as nat);
        lemma_digits_ascii(gb as nat);
        lemma_digits_ascii(bb as nat);
        assert(v@ =~= pixel_bytes(c, samples as int));
    }
    v
}

/// Relies on `String::from_utf8`: ASCII bytes decode to exactly those
/// characters, one per byte.
#[verifier::external_body]
pub fn ascii_string(bytes: Vec<u8>) -> (s: String)
    requires
        forall|k: int| 0 <= k < bytes@.len() ==> bytes@[k] < 128,
    ensures
        s@ == chars_of(bytes@),
{
    match String::from_utf8(bytes) {
        Ok(s) => s,
        Err(_) => String::new(),
    }
}

/// One pixel's display line as text.
pub fn pixel_string(c: Vec3, samples: i32) -> (s: String)
    requires
        samples >= 1,
    ensures
        s@ == pixel_chars(c, samples as int),
{
    let v = pixel_line_bytes(c, samples);
    ascii_string(v)
}

} // verus!
