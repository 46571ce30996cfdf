//! The color value and its channel setters.

use vstd::prelude::*;
use vstd::string::StringExecFns;
use crate::alpha;
use crate::css;
use crate::hex;
use crate::hsl;
use crate::parse;
use crate::text;
use crate::hsl::HSLA;
use crate::yiq;
use crate::yiq::YIQ;

verus! {

/// Red, green and blue.
#[derive(Debug, PartialEq, Eq, Structural)]
pub struct RGB {
    pub r: u8,
    pub g: u8,
    pub b: u8,
}

/// Red, green, blue and alpha; alpha is a binary64 bit pattern.
#[derive(Debug, PartialEq, Eq, Structural)]
pub struct RGBA {
    pub r: u8,
    pub g: u8,
    pub b: u8,
    pub a: u64,
}

/// A color: three byte channels and an alpha, which the constructors and the
/// setter keep within the unit interval. Alpha is a binary64 bit pattern (see
/// the module `alpha`).
#[derive(Debug, PartialEq, Eq, Structural)]
pub struct Color {
    pub r: u8,
    pub g: u8,
    pub b: u8,
    pub a: u64,
}

impl Color {
    /// Black, fully opaque.
    pub open spec fn black() -> Color {
        Color { r: 0, g: 0, b: 0, a: alpha::ONE }
    }

    /// The opaque color of three channels.
    pub open spec fn opaque(r: u8, g: u8, b: u8) -> Color {
        Color { r, g, b, a: alpha::ONE }
    }

    /// The opaque color that a sequence of grapheme clusters gives.
    pub open spec fn of_clusters(clusters: Seq<Seq<char>>) -> Color {
        let c = parse::channels(clusters);
        Color { r: c.r, g: c.g, b: c.b, a: alpha::ONE }
    }

    /// The opaque color that a text gives when each of its characters is a
    /// cluster of its own.
    pub open spec fn of_ascii(text: Seq<char>) -> Color {
        Color::of_clusters(text::singletons(parse::significant(text)))
    }

    /// The color of a hue in degrees and of a saturation and a lightness in
    /// hundredths, fully opaque. A saturation or lightness above 100
    /// hundredths is taken as a percentage.
    pub open spec fn of_hsl(hue: u16, saturation: u16, lightness: u16) -> Color {
        let c = hsl::rgb_of_hsl(hue as int, saturation as int, lightness as int);
        Color { r: c.0 as u8, g: c.1 as u8, b: c.2 as u8, a: alpha::ONE }
    }

    /// A color as text: `#` and two lower-case hexadecimal digits for each of
    /// red, green and blue.
    pub open spec fn hex_view(self) -> Seq<char> {
        seq!['#'] + hex::encoded_lower(seq![self.r, self.g, self.b])
    }

    /// Luma and chroma of a color.
    pub open spec fn yiq_view(self) -> YIQ {
        YIQ {
            y: yiq::luma(self.r as int, self.g as int, self.b as int) as i32,
            i: yiq::in_phase(self.r as int, self.g as int, self.b as int) as i32,
            q: yiq::quadrature(self.r as int, self.g as int, self.b as int) as i32,
        }
    }

    /// Hue, saturation, lightness and alpha of a color.
    pub open spec fn hsla_view(self) -> HSLA {
        HSLA {
            h: hsl::hue(self.r as int, self.g as int, self.b as int) as u16,
            s: hsl::saturation(self.r as int, self.g as int, self.b as int) as u16,
            l: hsl::lightness(self.r as int, self.g as int, self.b as int) as u16,
            a: self.a,
        }
    }

    /// Whether the luma of a color is at least 128.
    pub open spec fn light(self) -> bool {
        yiq::luma(self.r as int, self.g as int, self.b as int) >= yiq::LIGHT_FROM
    }

    /// Whether the luma of a color is below 128.
    pub open spec fn dark(self) -> bool {
        yiq::luma(self.r as int, self.g as int, self.b as int) < yiq::LIGHT_FROM
    }

    /// Black, fully opaque.
    pub fn new() -> (out: Color)
        ensures
            out == Color::black(),
    {
        Color { r: 0, g: 0, b: 0, a: alpha::ONE }
    }

    /// The color of four channels, alpha clamped into the unit interval.
    pub fn create(r: u8, g: u8, b: u8, a: u64) -> (out: Color)
        ensures
            out == (Color { r, g, b, a: alpha::clamped(a) }),
            !alpha::is_nan(a) ==> alpha::in_unit_interval(out.a),
    {
        let mut color = Color::new();
        color.r(r).g(g).b(b).a(a);
        color
    }

    /// Reads grapheme clusters as a color: up to six of them, packed two by
    /// two into tokens, each of three tokens read as a byte in hexadecimal. A
    /// token that spells no byte gives 0, and fewer than three tokens give
    /// black. Alpha is 1.
    pub fn from_graphemes(clusters: &Vec<String>) -> (out: Color)
        ensures
            out == Color::of_clusters(text::views(clusters@)),
    {
        let read = parse::channels_of(clusters);
        Color::create(read.r, read.g, read.b, alpha::ONE)
    }

    /// Reads hexadecimal text as a color. White space at both ends and one
    /// leading `#` are dropped; what is left is cut into extended grapheme
    /// clusters, and these are read as `from_graphemes` reads them. Every
    /// text gives a color.
    ///
    /// A text that is printable ASCII once trimmed is read character by
    /// character. A text of at most four characters once trimmed, or
    /// without any hexadecimal digit, gives black.
    pub fn from_hex(hex: String) -> (out: Color)
        ensures
            out == Color::of_clusters(text::grapheme_clusters(parse::significant(hex@))),
            text::is_printable_ascii(parse::significant(hex@)) ==> out == Color::of_ascii(hex@),
            parse::significant(hex@).len() <= 4 ==> out == Color::black(),
            (forall|i: int|
                0 <= i < parse::significant(hex@).len() ==> !hex::is_hex_digit(
                    #[trigger] parse::significant(hex@)[i],
                )) ==> out == Color::black(),
    {
        let trimmed = text::trim(hex.as_str());
        let digits = parse::strip_hash_prefix(trimmed);
        let clusters = text::graphemes(digits);
        proof {
            let cut = text::views(clusters@);
            assert forall|i: int| 0 <= i < cut.len() implies (#[trigger] cut[i]).len() > 0 by {
                assert(cut[i] == clusters@[i]@);
            }
            if digits@.len() <= 4 || forall|i: int|
                0 <= i < digits@.len() ==> !hex::is_hex_digit(#[trigger] digits@[i]) {
                parse::lemma_black_without_digits(cut);
            }
        }
        Color::from_graphemes(&clusters)
    }

    /// The opaque color of a hue in degrees and of a saturation and a
    /// lightness in hundredths.
    pub fn from_hsl(hue: u16, saturation: u16, lightness: u16) -> (out: Color)
        ensures
            out == Color::of_hsl(hue, saturation, lightness),
    {
        let channels = hsl::rgb_of(hue, saturation, lightness);
        Color::create(channels.r, channels.g, channels.b, alpha::ONE)
    }

    /// Sets red and hands the color back for the next setter.
    pub fn r(&mut self, r: u8) -> (out: &mut Self)
        ensures
            *out == (Color { r, ..*old(self) }),
            *final(self) == *final(out),
    {
        self.r = r;
        self
    }

    /// Sets green and hands the color back for the next setter.
    pub fn g(&mut self, g: u8) -> (out: &mut Self)
        ensures
            *out == (Color { g, ..*old(self) }),
            *final(self) == *final(out),
    {
        self.g = g;
        self
    }

    /// Sets blue and hands the color back for the next setter.
    pub fn b(&mut self, b: u8) -> (out: &mut Self)
        ensures
            *out == (Color { b, ..*old(self) }),
            *final(self) == *final(out),
    {
        self.b = b;
        self
    }

    /// Sets alpha, clamped into the unit interval, and hands the color back
    /// for the next setter. Every number ends within the unit interval, and a
    /// number of the unit interval is stored as given.
    pub fn a(&mut self, a: u64) -> (out: &mut Self)
        ensures
            *out == (Color { a: alpha::clamped(a), ..*old(self) }),
            *final(self) == *final(out),
            !alpha::is_nan(a) ==> alpha::in_unit_interval(out.a),
            alpha::in_unit_interval(a) ==> out.a == a,
    {
        self.a = alpha::clamp(a);
        self
    }

    /// The color as text: `#` and two lower-case hexadecimal digits for each
    /// of red, green and blue. Alpha is left out.
    pub fn hex(&self) -> (out: String)
        ensures
            out@ == self.hex_view(),
    {
        let channels: Vec<u8> = vec![self.r, self.g, self.b];
        let digits = hex::encode_lower(channels.as_slice());
        let mut out = String::from_str("#");
        proof {
            reveal_strlit("#");
            assert(out@ =~= seq!['#']);
        }
        out.append(digits.as_str());
        out
    }

    /// Luma and chroma in thousandths; alpha plays no part.
    pub fn yiq(&self) -> (out: YIQ)
        ensures
            out == self.yiq_view(),
    {
        yiq::yiq_of(self.r, self.g, self.b)
    }

    /// Hue in degrees, saturation and lightness in rounded hundredths, and
    /// alpha as it is.
    pub fn hsla(&self) -> (out: HSLA)
        ensures
            out == self.hsla_view(),
            out.h <= 360,
            out.s <= 100,
            out.l <= 100,
    {
        let view = hsl::hsl_of_rgb(self.r, self.g, self.b);
        HSLA { h: view.h, s: view.s, l: view.l, a: self.a }
    }

    /// The color as `hsla(h, s%, l%, a)`: the hue in degrees, saturation and
    /// lightness as percentages, and for alpha the text that the caller
    /// gives.
    pub fn to_hsla_string(&self, alpha: &str) -> (out: String)
        ensures
            out@ == css::hsla_text(
                self.hsla_view().h as nat,
                self.hsla_view().s as nat,
                self.hsla_view().l as nat,
                alpha@,
            ),
    {
        let view = self.hsla();
        css::hsla_string(view.h, view.s, view.l, alpha)
    }

    /// The color as `rgba(r, g, b, a)`: the channels in decimal, and for
    /// alpha the text that the caller gives.
    pub fn to_rgba_string(&self, alpha: &str) -> (out: String)
        ensures
            out@ == css::rgba_text(self.r as nat, self.g as nat, self.b as nat, alpha@),
    {
        css::rgba_string(self.r, self.g, self.b, alpha)
    }

    /// Whether the luma is at least 128.
    pub fn is_light(&self) -> (out: bool)
        ensures
            out == self.light(),
    {
        let view = self.yiq();
        view.y >= yiq::LIGHT_FROM
    }

    /// Whether the luma is below 128: whether the color is not light.
    pub fn is_dark(&self) -> (out: bool)
        ensures
            out == self.dark(),
    {
        !self.is_light()
    }

    /// Whether alpha equals zero: exactly zero, of either sign.
    pub fn is_transparent(&self) -> (out: bool)
        ensures
            out == alpha::equal(self.a, alpha::ZERO),
            out == (self.a == alpha::ZERO || self.a == alpha::SIGN),
    {
        alpha::is_zero(self.a)
    }
}

} // verus!
