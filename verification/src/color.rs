//! Letting a rendered image take the color of the text around it.

use vstd::prelude::*;
use vstd::string::*;
use crate::ColorMode;

verus! {

/// `text` with every occurrence of `from` exchanged for `to`: the occurrences
/// are found from the front, and none overlaps the one before it.
pub open spec fn replaced(text: Seq<char>, from: Seq<char>, to: Seq<char>) -> Seq<char>
    decreases text.len(),
{
    if from.len() == 0 || text.len() < from.len() {
        text
    } else if text.subrange(0, from.len() as int) == from {
        to + replaced(text.subrange(from.len() as int, text.len() as int), from, to)
    } else {
        seq![text[0]] + replaced(text.drop_first(), from, to)
    }
}

/// Exchanges every occurrence of a text for another.
///
/// Calls `str::replace` of the standard library, which replaces all matches
/// of a pattern, found from the front and not overlapping, by another string.
/// An empty pattern, which matches between every two characters, is left out.
#[verifier::external_body]
pub(crate) fn replace_all(text: &str, from: &str, to: &str) -> (out: String)
    requires
        from@.len() > 0,
    ensures
        out@ == replaced(text@, from@, to@),
{
    text.replace(from, to)
}

/// The attribute of a solid black fill.
pub open spec fn black_fill() -> Seq<char> {
    "fill=\"#000000\""@
}

/// The attribute of a fill in the color of the surrounding text.
pub open spec fn inherited_fill() -> Seq<char> {
    "fill=\"currentColor\""@
}

/// The attribute of a solid black stroke.
pub open spec fn black_stroke() -> Seq<char> {
    "stroke=\"#000000\""@
}

/// The attribute of a stroke in the color of the surrounding text.
pub open spec fn inherited_stroke() -> Seq<char> {
    "stroke=\"currentColor\""@
}

/// The image as the color mode asks for it: untouched, or with each solid
/// black fill and stroke taking the color of the surrounding text. Nothing
/// but these two literal attributes is touched.
pub open spec fn recolored(image: Seq<char>, mode: ColorMode) -> Seq<char> {
    match mode {
        ColorMode::Static => image,
        ColorMode::Auto => replaced(
            replaced(image, black_fill(), inherited_fill()),
            black_stroke(),
            inherited_stroke(),
        ),
    }
}

/// Gives the image the colors that the color mode asks for.
pub fn recolor(image: &str, mode: ColorMode) -> (out: String)
    ensures
        out@ == recolored(image@, mode),
{
    match mode {
        ColorMode::Static => String::from_str(image),
        ColorMode::Auto => {
            proof {
                reveal_strlit("fill=\"#000000\"");
                reveal_strlit("stroke=\"#000000\"");
            }
            let filled = replace_all(image, "fill=\"#000000\"", "fill=\"currentColor\"");
            replace_all(filled.as_str(), "stroke=\"#000000\"", "stroke=\"currentColor\"")
        },
    }
}

} // verus!
