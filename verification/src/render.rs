//! Rendering of a received frame as a fixed-width hex/ASCII block.
use vstd::prelude::*;

verus! {

/// The text that the hex viewer produces for a byte sequence, sixteen
/// bytes to a row. It depends on the bytes alone.
pub uninterp spec fn hex_view_of(b: Seq<u8>) -> Seq<char>;

/// Relies on hexplay's `HexView` `Display` impl (via `HexViewBuilder` with a
/// row width of 16): the rendered text is a deterministic function of the
/// bytes alone.
#[verifier::external_body]
pub(crate) fn render_hex_view(bytes: &Vec<u8>) -> (r: String)
    ensures
        r@ == hex_view_of(bytes@),
{
    let view = hexplay::HexViewBuilder::new(bytes.as_slice()).row_width(16).finish();
    format!("{}", view)
}

} // verus!
