use vstd::prelude::*;

verus! {

/// The text that `String::from_utf8_lossy` makes of some bytes.
pub uninterp spec fn lossy_of(b: Seq<u8>) -> Seq<char>;

/// The text that `str::to_lowercase` makes of some text.
pub uninterp spec fn lower_of(s: Seq<char>) -> Seq<char>;

/// Relies on `String::from_utf8_lossy`: the bytes read as UTF-8, each
/// invalid sequence replaced; the result depends on the bytes alone.
#[verifier::external_body]
pub(crate) fn text_from_bytes(b: &[u8]) -> (r: String)
    ensures
        r@ == lossy_of(b@),
{
    String::from_utf8_lossy(b).into_owned()
}

/// Relies on `str::to_lowercase`: the result depends on the text alone.
#[verifier::external_body]
pub(crate) fn lowercase(s: &str) -> (r: String)
    ensures
        r@ == lower_of(s@),
{
    s.to_lowercase()
}

/// The text of one label: its bytes read leniently as UTF-8, lowercased.
pub open spec fn label_text(label: Seq<u8>) -> Seq<char> {
    lower_of(lossy_of(label))
}

/// The text of a domain name: its labels' texts joined by dots.
pub open spec fn name_text(labels: Seq<Seq<u8>>) -> Seq<char>
    decreases labels.len(),
{
    if labels.len() == 0 {
        Seq::empty()
    } else if labels.len() == 1 {
        label_text(labels[0])
    } else {
        name_text(labels.drop_last()) + seq!['.'] + label_text(labels.last())
    }
}

} // verus!
