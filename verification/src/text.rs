//! Text before it is read as hexadecimal digits: white space trimmed from
//! both ends, and the rest cut into extended grapheme clusters.

use vstd::prelude::*;
use unicode_segmentation::UnicodeSegmentation;

verus! {

/// Whether a character has the Unicode property White_Space.
pub open spec fn is_white_space(c: char) -> bool {
    ||| '\u{9}' <= c <= '\u{d}'
    ||| c == ' '
    ||| c == '\u{85}'
    ||| c == '\u{a0}'
    ||| c == '\u{1680}'
    ||| '\u{2000}' <= c <= '\u{200a}'
    ||| c == '\u{2028}'
    ||| c == '\u{2029}'
    ||| c == '\u{202f}'
    ||| c == '\u{205f}'
    ||| c == '\u{3000}'
}

/// A text without the white space it begins with.
pub open spec fn trim_start(text: Seq<char>) -> Seq<char>
    decreases text.len(),
{
    if text.len() > 0 && is_white_space(text.first()) {
        trim_start(text.drop_first())
    } else {
        text
    }
}

/// A text without the white space it ends with.
pub open spec fn trim_end(text: Seq<char>) -> Seq<char>
    decreases text.len(),
{
    if text.len() > 0 && is_white_space(text.last()) {
        trim_end(text.drop_last())
    } else {
        text
    }
}

/// A text without the white space at either end.
pub open spec fn trimmed(text: Seq<char>) -> Seq<char> {
    trim_end(trim_start(text))
}

/// The extended grapheme clusters of a text, in order, as Unicode Standard
/// Annex #29 cuts them.
pub uninterp spec fn grapheme_clusters(text: Seq<char>) -> Seq<Seq<char>>;

/// Whether every character of a text lies between the space and the tilde.
pub open spec fn is_printable_ascii(text: Seq<char>) -> bool {
    forall|i: int| 0 <= i < text.len() ==> ' ' <= #[trigger] text[i] <= '~'
}

/// Each character of a text as a cluster of its own.
pub open spec fn singletons(text: Seq<char>) -> Seq<Seq<char>> {
    Seq::new(text.len(), |i: int| seq![text[i]])
}

/// The texts that a sequence of strings holds.
pub open spec fn views(strings: Seq<String>) -> Seq<Seq<char>> {
    strings.map_values(|s: String| s@)
}

/// Non-empty clusters are at most as many as the characters of the text that
/// they make up, and each of their characters is one of that text.
pub proof fn lemma_clusters_within_text(clusters: Seq<Seq<char>>)
    requires
        forall|i: int| 0 <= i < clusters.len() ==> (#[trigger] clusters[i]).len() > 0,
    ensures
        clusters.len() <= clusters.flatten().len(),
        forall|i: int, j: int|
            0 <= i < clusters.len() && 0 <= j < clusters[i].len() ==> clusters.flatten().contains(
                #[trigger] clusters[i][j],
            ),
    decreases clusters.len(),
{
    if clusters.len() > 0 {
        let rest = clusters.drop_first();
        let whole = clusters.flatten();
        lemma_clusters_within_text(rest);
        assert(whole =~= clusters.first() + rest.flatten());
        assert(clusters.first().len() > 0);
        assert forall|i: int, j: int|
            0 <= i < clusters.len() && 0 <= j < clusters[i].len() implies whole.contains(
            #[trigger] clusters[i][j],
        ) by {
            if i == 0 {
                assert(whole[j] == clusters[0][j]);
            } else {
                assert(rest[i - 1] == clusters[i]);
                assert(rest.flatten().contains(rest[i - 1][j]));
                let k = choose|k: int|
                    0 <= k < rest.flatten().len() && rest.flatten()[k] == rest[i - 1][j];
                assert(whole[clusters.first().len() + k] == clusters[i][j]);
            }
        }
    }
}

/// `str::trim` of std: the slice left when the leading and the trailing
/// characters with the property White_Space are taken away.
#[verifier::external_body]
pub(crate) fn trim(text: &str) -> (out: &str)
    ensures
        out@ == trimmed(text@),
{
    text.trim()
}

/// `UnicodeSegmentation::graphemes` of unicode-segmentation, with extended
/// clusters chosen, collected into owned strings. The iterator hands out
/// consecutive non-empty slices that together are the whole text. Every
/// character from the space to the tilde is classed as `Any`, and between two
/// of that class there is always a boundary, so a text of such characters
/// alone falls into its single characters.
#[verifier::external_body]
pub(crate) fn graphemes(text: &str) -> (out: Vec<String>)
    ensures
        views(out@) == grapheme_clusters(text@),
        views(out@).flatten() == text@,
        forall|i: int| 0 <= i < out@.len() ==> (#[trigger] out@[i])@.len() > 0,
        is_printable_ascii(text@) ==> views(out@) == singletons(text@),
{
    text.graphemes(true).map(|cluster| cluster.to_string()).collect()
}

} // verus!
