//! What holds between the functions of the library.

use vstd::prelude::*;
use crate::color::{Color, RGB};
use crate::hex;
use crate::hsl;
use crate::parse;
use crate::round_trip;
use crate::text;

verus! {

/// Each lower-case digit has its place among the sixteen as its value.
proof fn lemma_lower_digit(n: int)
    requires
        0 <= n < 16,
    ensures
        hex::hex_value(hex::lower_digits()[n] as int) == n,
{
}

/// The clusters beyond the sixth play no part: a sequence of clusters gives
/// the channels that the clusters read of it give alone.
pub proof fn lemma_only_six_clusters_are_read(clusters: Seq<Seq<char>>)
    ensures
        parse::channels(clusters) == parse::channels(
            clusters.take(parse::consumed(clusters)),
        ),
{
    let read = clusters.take(parse::consumed(clusters));
    assert(parse::consumed(read) == parse::consumed(clusters));
    assert forall|k: int| 0 <= k < 3 && parse::token_count(clusters) >= 3 implies parse::token(
        read,
        k,
    ) == parse::token(clusters, k) by {}
}

/// Fewer than three tokens give black, and so do three tokens of which none
/// spells a byte.
pub proof fn lemma_black_without_bytes(clusters: Seq<Seq<char>>)
    requires
        parse::token_count(clusters) < 3 || forall|k: int|
            0 <= k < 3 ==> !parse::spells_bytes(#[trigger] parse::token(clusters, k)),
    ensures
        Color::of_clusters(clusters) == Color::black(),
{
    if parse::token_count(clusters) >= 3 {
        assert(!parse::spells_bytes(parse::token(clusters, 0)));
        assert(!parse::spells_bytes(parse::token(clusters, 1)));
        assert(!parse::spells_bytes(parse::token(clusters, 2)));
    }
}

/// Six hexadecimal digits, with or without a `#` before them, are read
/// character by character and give the three bytes that they spell pair by
/// pair.
pub proof fn lemma_hex_literal(text: Seq<char>)
    requires
        parse::is_hex_literal(text),
    ensures
        parse::significant(text) == parse::strip_hash(text),
        text::is_printable_ascii(parse::significant(text)),
        Color::of_ascii(text) == Color::opaque(
            parse::digit_pairs(parse::strip_hash(text)).r,
            parse::digit_pairs(parse::strip_hash(text)).g,
            parse::digit_pairs(parse::strip_hash(text)).b,
        ),
{
    let digits = parse::strip_hash(text);
    assert(hex::is_hex_digit(digits[0]));
    assert(hex::is_hex_digit(digits[5]));
    assert(!text::is_white_space(text.first()));
    assert(text.last() == digits[5]);
    assert(!text::is_white_space(text.last()));
    assert(text::trim_start(text) == text);
    assert(text::trim_end(text) == text);
    assert(parse::significant(text) == digits);
    assert forall|i: int| 0 <= i < digits.len() implies ' ' <= #[trigger] digits[i] <= '~' by {
        assert(hex::is_hex_digit(digits[i]));
    }
    let clusters = text::singletons(digits);
    assert(parse::token_count(clusters) == 3);
    assert forall|k: int| 0 <= k < 3 implies parse::channel(#[trigger] parse::token(clusters, k))
        == hex::pair_value(digits[2 * k] as int, digits[2 * k + 1] as int) as u8 by {
        let token = parse::token(clusters, k);
        assert(token =~= seq![digits[2 * k], digits[2 * k + 1]]);
        assert(hex::is_hex_digit(digits[2 * k]));
        assert(hex::is_hex_digit(digits[2 * k + 1]));
        assert(parse::spells_bytes(token));
    }
    assert(parse::channel(parse::token(clusters, 0)) == parse::digit_pairs(digits).r);
    assert(parse::channel(parse::token(clusters, 1)) == parse::digit_pairs(digits).g);
    assert(parse::channel(parse::token(clusters, 2)) == parse::digit_pairs(digits).b);
}

/// The text of a color is six hexadecimal digits after a `#`, and they spell
/// its red, green and blue. So a color read from its own text is the color
/// itself, made opaque.
pub proof fn lemma_hex_round_trip(c: Color)
    ensures
        parse::is_hex_literal(c.hex_view()),
        parse::digit_pairs(parse::strip_hash(c.hex_view())) == (RGB { r: c.r, g: c.g, b: c.b }),
        Color::of_ascii(c.hex_view()) == Color::opaque(c.r, c.g, c.b),
{
    let written = c.hex_view();
    let bytes = seq![c.r, c.g, c.b];
    let digits = hex::encoded_lower(bytes);
    assert(written.first() == '#');
    assert(parse::strip_hash(written) =~= digits);
    assert forall|i: int| 0 <= i < 6 implies hex::hex_value(#[trigger] digits[i] as int) == (if i
        % 2 == 0 {
        bytes[i / 2] as int / 16
    } else {
        bytes[i / 2] as int % 16
    }) by {
        lemma_lower_digit(bytes[i / 2] as int / 16);
        lemma_lower_digit(bytes[i / 2] as int % 16);
    }
    assert(hex::hex_value(digits[0] as int) == c.r as int / 16);
    assert(hex::hex_value(digits[1] as int) == c.r as int % 16);
    assert(hex::hex_value(digits[2] as int) == c.g as int / 16);
    assert(hex::hex_value(digits[3] as int) == c.g as int % 16);
    assert(hex::hex_value(digits[4] as int) == c.b as int / 16);
    assert(hex::hex_value(digits[5] as int) == c.b as int % 16);
    lemma_hex_literal(written);
}

/// Reading six hexadecimal digits and writing the color gives text that
/// spells the same three bytes as the digits read: the color read from that
/// text is the color read from the digits.
pub proof fn lemma_hex_of_literal(text: Seq<char>)
    requires
        parse::is_hex_literal(text),
    ensures
        Color::of_ascii(Color::of_ascii(text).hex_view()) == Color::of_ascii(text),
        parse::digit_pairs(parse::strip_hash(Color::of_ascii(text).hex_view()))
            == parse::digit_pairs(parse::strip_hash(text)),
{
    lemma_hex_literal(text);
    lemma_hex_round_trip(Color::of_ascii(text));
}

/// A color is dark exactly where it is not light.
pub proof fn lemma_dark_is_not_light(c: Color)
    ensures
        c.dark() == !c.light(),
{
}

/// A color whose hue, saturation and lightness are whole numbers of degrees
/// and hundredths without any rounding comes back from them as it was, made
/// opaque; so each channel comes back within one unit.
pub proof fn lemma_hsl_round_trip(c: Color)
    requires
        hsl::is_exact(c.r as int, c.g as int, c.b as int),
    ensures
        Color::of_hsl(c.hsla_view().h, c.hsla_view().s, c.hsla_view().l) == Color::opaque(
            c.r,
            c.g,
            c.b,
        ),
{
    hsl::lemma_hsl_in_range(c.r as int, c.g as int, c.b as int);
    round_trip::lemma_round_trip(c.r as int, c.g as int, c.b as int);
}

} // verus!
