//! Grapheme clusters read as three byte channels: up to six clusters are
//! packed two by two into tokens, and each of three tokens is read as one
//! byte in hexadecimal.

use vstd::prelude::*;
use vstd::string::StrSliceExecFns;
use vstd::string::StringExecFns;
use vstd::string::StringSliceAdditionalSpecFns;
use vstd::string::is_ascii_spec_bytes;
use crate::color::RGB;
use crate::hex;
use crate::text::views;

verus! {

/// A text without one leading `#`, if it has one.
pub open spec fn strip_hash(text: Seq<char>) -> Seq<char> {
    if text.len() > 0 && text.first() == '#' {
        text.drop_first()
    } else {
        text
    }
}

/// What of a text is read: the text trimmed, then without one leading `#`.
pub open spec fn significant(text: Seq<char>) -> Seq<char> {
    strip_hash(crate::text::trimmed(text))
}

/// How many clusters are read: all of them, up to six.
pub open spec fn consumed(clusters: Seq<Seq<char>>) -> int {
    if clusters.len() < 6 {
        clusters.len() as int
    } else {
        6
    }
}

/// How many tokens the clusters give: one for each two that are read, and
/// one for a last cluster left alone.
pub open spec fn token_count(clusters: Seq<Seq<char>>) -> int {
    (consumed(clusters) + 1) / 2
}

/// Token `k`: the clusters `2k` and `2k + 1` joined, or cluster `2k` alone
/// where it is the last one read.
pub open spec fn token(clusters: Seq<Seq<char>>, k: int) -> Seq<char> {
    if 2 * k + 1 < consumed(clusters) {
        clusters[2 * k] + clusters[2 * k + 1]
    } else {
        clusters[2 * k]
    }
}

/// The tokens of a sequence of clusters.
pub open spec fn tokens(clusters: Seq<Seq<char>>) -> Seq<Seq<char>> {
    Seq::new(token_count(clusters) as nat, |k: int| token(clusters, k))
}

/// Whether a token spells bytes: it is an even, positive number of
/// hexadecimal digits.
pub open spec fn spells_bytes(token: Seq<char>) -> bool {
    &&& token.len() > 0
    &&& token.len() % 2 == 0
    &&& forall|i: int| 0 <= i < token.len() ==> hex::is_hex_digit(#[trigger] token[i])
}

/// The channel that a token gives: the first byte it spells, or 0 where it
/// spells none.
pub open spec fn channel(token: Seq<char>) -> u8 {
    if spells_bytes(token) {
        hex::pair_value(token[0] as int, token[1] as int) as u8
    } else {
        0
    }
}

/// The three channels that a sequence of clusters gives: those of its first
/// three tokens, or black where there are fewer than three.
pub open spec fn channels(clusters: Seq<Seq<char>>) -> RGB {
    if token_count(clusters) < 3 {
        RGB { r: 0, g: 0, b: 0 }
    } else {
        RGB {
            r: channel(token(clusters, 0)),
            g: channel(token(clusters, 1)),
            b: channel(token(clusters, 2)),
        }
    }
}

/// Whether a text is six hexadecimal digits, with or without one `#` before
/// them.
pub open spec fn is_hex_literal(text: Seq<char>) -> bool {
    &&& strip_hash(text).len() == 6
    &&& forall|i: int| 0 <= i < 6 ==> hex::is_hex_digit(#[trigger] strip_hash(text)[i])
}

/// The three bytes that six hexadecimal digits spell, pair by pair.
pub open spec fn digit_pairs(digits: Seq<char>) -> RGB {
    RGB {
        r: hex::pair_value(digits[0] as int, digits[1] as int) as u8,
        g: hex::pair_value(digits[2] as int, digits[3] as int) as u8,
        b: hex::pair_value(digits[4] as int, digits[5] as int) as u8,
    }
}

/// Clusters give black where the text that they make up has at most four
/// characters, and where it has no hexadecimal digit.
pub proof fn lemma_black_without_digits(clusters: Seq<Seq<char>>)
    requires
        forall|i: int| 0 <= i < clusters.len() ==> (#[trigger] clusters[i]).len() > 0,
        clusters.flatten().len() <= 4 || forall|i: int|
            0 <= i < clusters.flatten().len() ==> !hex::is_hex_digit(#[trigger] clusters.flatten()[i]),
    ensures
        channels(clusters) == (RGB { r: 0, g: 0, b: 0 }),
{
    crate::text::lemma_clusters_within_text(clusters);
    if token_count(clusters) >= 3 {
        assert forall|k: int| 0 <= k < 3 implies !spells_bytes(#[trigger] token(clusters, k)) by {
            let first = clusters[2 * k][0];
            assert(clusters.flatten().contains(first));
            assert(token(clusters, k)[0] == first);
        }
        assert(!spells_bytes(token(clusters, 0)));
        assert(!spells_bytes(token(clusters, 1)));
        assert(!spells_bytes(token(clusters, 2)));
    }
}

/// Takes one leading `#` from a text.
pub fn strip_hash_prefix(text: &str) -> (out: &str)
    ensures
        out@ == strip_hash(text@),
{
    let len: usize = text.unicode_len();
    if len > 0 && text.get_char(0) == '#' {
        let rest = text.substring_char(1, len);
        assert(rest@ =~= text@.drop_first());
        rest
    } else {
        text
    }
}

/// Packs up to six clusters two by two into tokens.
pub fn pack(clusters: &Vec<String>) -> (out: Vec<String>)
    ensures
        views(out@) == tokens(views(clusters@)),
{
    let n: usize = if clusters.len() < 6 { clusters.len() } else { 6 };
    let mut out: Vec<String> = Vec::new();
    let mut i: usize = 0;
    while i < n
        invariant
            n == consumed(views(clusters@)),
            n <= clusters@.len(),
            i % 2 == 0,
            i <= n + 1,
            out@.len() == i / 2,
            forall|k: int|
                0 <= k < out@.len() ==> (#[trigger] out@[k])@ == token(views(clusters@), k),
        decreases n + 1 - i,
    {
        let mut joined: String = clusters[i].clone();
        if i + 1 < n {
            joined.append(clusters[i + 1].as_str());
        }
        out.push(joined);
        i = i + 2;
    }
    assert(views(out@) =~= tokens(views(clusters@)));
    out
}

/// Reads a token as one channel: the first byte that it spells in
/// hexadecimal, or 0.
pub fn decode_channel(token: &str) -> (out: u8)
    ensures
        out == channel(token@),
{
    if !token.is_ascii() {
        proof {
            let i = choose|i: int| 0 <= i < token@.len() && !('\0' <= #[trigger] token@[i] <= '\u{7f}');
            assert(!hex::is_hex_digit(token@[i]));
        }
        return 0;
    }
    let ghost bytes = token.spec_bytes();
    proof {
        is_ascii_spec_bytes(token);
        assert(bytes.len() == token@.len());
        assert forall|i: int| 0 <= i < token@.len() implies bytes[i] as int == #[trigger] token@[i] as int by {
            assert('\0' <= token@[i] <= '\u{7f}');
        }
    }
    match hex::decode(token) {
        Ok(spelled) => {
            proof {
                assert forall|i: int| 0 <= i < token@.len() implies hex::is_hex_digit(#[trigger] token@[i]) by {
                    assert(hex::hex_value(bytes[i] as int) >= 0);
                }
            }
            if spelled.len() > 0 {
                assert(spells_bytes(token@));
                spelled[0]
            } else {
                0
            }
        },
        Err(_) => {
            proof {
                if spells_bytes(token@) {
                    assert forall|i: int| 0 <= i < bytes.len() implies hex::hex_value(#[trigger] bytes[i] as int) >= 0 by {
                        assert(hex::is_hex_digit(token@[i]));
                    }
                    assert(hex::decodes(bytes));
                }
            }
            0
        },
    }
}

/// Reads clusters as three channels.
pub fn channels_of(clusters: &Vec<String>) -> (out: RGB)
    ensures
        out == channels(views(clusters@)),
{
    let packed = pack(clusters);
    proof {
        let all = tokens(views(clusters@));
        assert(views(packed@).len() == all.len());
        assert forall|k: int| 0 <= k < packed@.len() implies (#[trigger] packed@[k])@ == token(
            views(clusters@),
            k,
        ) by {
            assert(views(packed@)[k] == all[k]);
        }
    }
    if packed.len() < 3 {
        return RGB { r: 0, g: 0, b: 0 };
    }
    let r: u8 = decode_channel(packed[0].as_str());
    let g: u8 = decode_channel(packed[1].as_str());
    let b: u8 = decode_channel(packed[2].as_str());
    RGB { r, g, b }
}

} // verus!
