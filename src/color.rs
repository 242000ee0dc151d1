//! 8-bit RGB colours and the channel arithmetic of the renderer.

use vstd::prelude::*;
use vstd::string::*;

verus! {

/// The largest value of a colour channel.
pub const CHANNEL_MAX: u8 = 255;

/// A colour with three 8-bit channels.
#[derive(Clone, Copy, Debug, PartialEq, Eq, Structural)]
pub struct Color {
    pub r: u8,
    pub g: u8,
    pub b: u8,
}

/// The largest `n` whose square does not exceed `m`.
pub open spec fn is_floor_sqrt(n: int, m: int) -> bool {
    0 <= n && n * n <= m < (n + 1) * (n + 1)
}

/// A channel after "gamma 2" encoding: `sqrt(c / 255) * 255`, truncated,
/// which is the integer square root of `255 * c`.
pub open spec fn gamma_channel(c: u8, g: u8) -> bool {
    is_floor_sqrt(g as int, 255 * c as int)
}

/// The product of two channels read as fractions of 255, truncated.
pub open spec fn attenuate_channel(a: u8, c: u8) -> u8 {
    (a as int * c as int / 255) as u8
}

/// Component-wise product of two colours read as fractions of full intensity.
pub open spec fn attenuate_spec(a: Color, c: Color) -> Color {
    Color {
        r: attenuate_channel(a.r, c.r),
        g: attenuate_channel(a.g, c.g),
        b: attenuate_channel(a.b, c.b),
    }
}

/// No light in any channel.
pub open spec fn black() -> Color {
    Color { r: 0, g: 0, b: 0 }
}

/// Full intensity in every channel.
pub open spec fn white() -> Color {
    Color { r: 255, g: 255, b: 255 }
}

/// The lowercase hexadecimal digits.
pub open spec fn hex_digits() -> Seq<char> {
    seq!['0', '1', '2', '3', '4', '5', '6', '7', '8', '9', 'a', 'b', 'c', 'd', 'e', 'f']
}

/// A channel as two lowercase hexadecimal digits.
pub open spec fn hex_byte(v: u8) -> Seq<char> {
    seq![hex_digits()[v as int / 16], hex_digits()[v as int % 16]]
}

/// A colour written `#rrggbb`.
pub open spec fn hex_string(c: Color) -> Seq<char> {
    seq!['#'] + hex_byte(c.r) + hex_byte(c.g) + hex_byte(c.b)
}

/// The sum of one channel over a list of colours.
pub open spec fn channel_sum(s: Seq<Color>, ch: int) -> int
    decreases s.len(),
{
    if s.len() == 0 {
        0
    } else {
        channel_sum(s.drop_last(), ch) + channel_of(s.last(), ch)
    }
}

/// Channel `0`, `1` or `2` (red, green, blue) of a colour.
pub open spec fn channel_of(c: Color, ch: int) -> int {
    if ch == 0 {
        c.r as int
    } else if ch == 1 {
        c.g as int
    } else {
        c.b as int
    }
}

/// The component-wise mean of a non-empty list of colours, truncated.
pub open spec fn average_spec(s: Seq<Color>) -> Color {
    Color {
        r: (channel_sum(s, 0) / s.len() as int) as u8,
        g: (channel_sum(s, 1) / s.len() as int) as u8,
        b: (channel_sum(s, 2) / s.len() as int) as u8,
    }
}

proof fn lemma_channel_sum_bound(s: Seq<Color>, ch: int)
    ensures
        0 <= channel_sum(s, ch) <= 255 * s.len(),
    decreases s.len(),
{
    if s.len() > 0 {
        lemma_channel_sum_bound(s.drop_last(), ch);
    }
}

/// One hexadecimal digit as a string.
fn hex_digit_str(d: u8) -> (r: &'static str)
    requires
        d < 16,
    ensures
        r@ == seq![hex_digits()[d as int]],
{
    proof {
        reveal_strlit("0");
        reveal_strlit("1");
        reveal_strlit("2");
        reveal_strlit("3");
        reveal_strlit("4");
        reveal_strlit("5");
        reveal_strlit("6");
        reveal_strlit("7");
        reveal_strlit("8");
        reveal_strlit("9");
        reveal_strlit("a");
        reveal_strlit("b");
        reveal_strlit("c");
        reveal_strlit("d");
        reveal_strlit("e");
        reveal_strlit("f");
    }
    let r = match d {
        0 => "0",
        1 => "1",
        2 => "2",
        3 => "3",
        4 => "4",
        5 => "5",
        6 => "6",
        7 => "7",
        8 => "8",
        9 => "9",
        10 => "a",
        11 => "b",
        12 => "c",
        13 => "d",
        14 => "e",
        _ => "f",
    };
    assert(r@ =~= seq![hex_digits()[d as int]]);
    r
}

/// Appends a channel's two hexadecimal digits.
fn push_hex_byte(s: &mut String, v: u8)
    ensures
        final(s)@ == old(s)@ + hex_byte(v),
{
    s.append(hex_digit_str(v / 16));
    s.append(hex_digit_str(v % 16));
    assert(final(s)@ =~= old(s)@ + hex_byte(v));
}

/// Integer square root of `255 * c`, found by counting up.
fn gamma_of(c: u8) -> (g: u8)
    ensures
        gamma_channel(c, g),
{
    let m: u32 = 255 * c as u32;
    let mut n: u32 = 0;
    loop
        invariant
            m == 255 * c as u32,
            n <= 255,
            n * n <= m,
        ensures
            is_floor_sqrt(n as int, m as int),
        decreases 256 - n,
    {
        assert((n + 1) * (n + 1) <= 256 * 256) by (nonlinear_arith)
            requires
                n <= 255,
        ;
        if (n + 1) * (n + 1) > m {
            break;
        }
        assert(n + 1 <= 255) by (nonlinear_arith)
            requires
                (n + 1) * (n + 1) <= m,
                m <= 255 * 255,
        ;
        n = n + 1;
    }
    n as u8
}

/// One channel of `attenuate`.
fn attenuate_of(a: u8, c: u8) -> (r: u8)
    ensures
        r == attenuate_channel(a, c),
{
    assert(0 <= a as int * c as int <= 255 * 255) by (nonlinear_arith)
        requires
            a <= 255,
            c <= 255,
    ;
    let p: u32 = a as u32 * c as u32;
    (p / 255) as u8
}

impl Default for Color {
    /// Black.
    fn default() -> (r: Color)
        ensures
            r == black(),
    {
        Color::black()
    }
}

impl Color {
    /// Black, the colour of no light.
    pub fn black() -> (r: Color)
        ensures
            r == black(),
    {
        Color { r: 0, g: 0, b: 0 }
    }

    /// White, the attenuation that absorbs nothing.
    pub fn white() -> (r: Color)
        ensures
            r == white(),
    {
        Color { r: CHANNEL_MAX, g: CHANNEL_MAX, b: CHANNEL_MAX }
    }

    /// Gamma-corrects the colour with "gamma 2": each channel becomes
    /// `sqrt(c / 255) * 255`, truncated.
    pub fn gamma_corrected(&self) -> (r: Color)
        ensures
            gamma_channel(self.r, r.r),
            gamma_channel(self.g, r.g),
            gamma_channel(self.b, r.b),
    {
        Color { r: gamma_of(self.r), g: gamma_of(self.g), b: gamma_of(self.b) }
    }

    /// The colour written `#rrggbb` in lowercase hexadecimal.
    pub fn to_string(&self) -> (r: String)
        ensures
            r@ == hex_string(*self),
    {
        proof {
            reveal_strlit("#");
        }
        let mut s = String::from_str("#");
        push_hex_byte(&mut s, self.r);
        push_hex_byte(&mut s, self.g);
        push_hex_byte(&mut s, self.b);
        assert(s@ =~= hex_string(*self));
        s
    }

    /// The component-wise mean of the samples, truncated: the colour of a
    /// pixel from its antialiasing samples.
    pub fn average(samples: &Vec<Color>) -> (r: Color)
        requires
            samples@.len() > 0,
        ensures
            r == average_spec(samples@),
    {
        let mut sr: u128 = 0;
        let mut sg: u128 = 0;
        let mut sb: u128 = 0;
        let mut i: usize = 0;
        while i < samples.len()
            invariant
                i <= samples@.len(),
                sr == channel_sum(samples@.subrange(0, i as int), 0),
                sg == channel_sum(samples@.subrange(0, i as int), 1),
                sb == channel_sum(samples@.subrange(0, i as int), 2),
            decreases samples@.len() - i,
        {
            let ghost pre = samples@.subrange(0, i as int);
            let ghost next = samples@.subrange(0, i + 1);
            assert(next.drop_last() =~= pre);
            proof {
                lemma_channel_sum_bound(pre, 0);
                lemma_channel_sum_bound(pre, 1);
                lemma_channel_sum_bound(pre, 2);
            }
            let c = samples[i];
            sr = sr + c.r as u128;
            sg = sg + c.g as u128;
            sb = sb + c.b as u128;
            i = i + 1;
        }
        assert(samples@.subrange(0, samples@.len() as int) =~= samples@);
        let n = samples.len() as u128;
        proof {
            lemma_channel_sum_bound(samples@, 0);
            lemma_channel_sum_bound(samples@, 1);
            lemma_channel_sum_bound(samples@, 2);
        }
        assert(sr / n <= 255 && sg / n <= 255 && sb / n <= 255) by (nonlinear_arith)
            requires
                sr <= 255 * n,
                sg <= 255 * n,
                sb <= 255 * n,
                n > 0,
        ;
        Color { r: (sr / n) as u8, g: (sg / n) as u8, b: (sb / n) as u8 }
    }

    /// The colour of a pixel from its antialiasing samples: their mean,
    /// gamma-corrected.
    pub fn from_samples(samples: &Vec<Color>) -> (r: Color)
        requires
            samples@.len() > 0,
        ensures
            gamma_channel(average_spec(samples@).r, r.r),
            gamma_channel(average_spec(samples@).g, r.g),
            gamma_channel(average_spec(samples@).b, r.b),
    {
        Color::average(samples).gamma_corrected()
    }

    /// Attenuates `light` by this colour, channel by channel.
    pub fn attenuate(&self, light: Color) -> (r: Color)
        ensures
            r == attenuate_spec(*self, light),
    {
        Color {
            r: attenuate_of(self.r, light.r),
            g: attenuate_of(self.g, light.g),
            b: attenuate_of(self.b, light.b),
        }
    }
}

} // verus!
