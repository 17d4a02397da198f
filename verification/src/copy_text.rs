//! The text that copying a selection puts on the clipboard.

use crate::hex_view::HexView;
use crate::selection::HexViewSelectionSide;
use crate::workspace::Workspace;
use vstd::prelude::*;
use vstd::string::StringExecFns;

verus! {

/// What `String::from_utf8_lossy` makes of bytes: their text, with each run
/// of bytes that is no UTF-8 replaced by U+FFFD.
pub uninterp spec fn lossy_text(bytes: Seq<u8>) -> Seq<char>;

/// Calls `String::from_utf8_lossy` of the standard library and takes the
/// result as an owned string. The result depends on the bytes alone.
#[verifier::external_body]
fn utf8_lossy(bytes: &Vec<u8>) -> (r: String)
    ensures
        r@ == lossy_text(bytes@),
{
    String::from_utf8_lossy(bytes).into_owned()
}

/// The character of a hexadecimal digit, in upper case.
pub open spec fn hex_char(digit: nat) -> char {
    if digit < 10 {
        ('0' as nat + digit) as char
    } else {
        ('A' as nat + digit - 10) as char
    }
}

/// The two hexadecimal digits of a byte.
pub open spec fn hex_pair(byte: u8) -> Seq<char> {
    seq![hex_char(byte as nat / 16), hex_char(byte as nat % 16)]
}

/// Every byte as two hexadecimal digits, with one space between bytes.
pub open spec fn hex_dump(bytes: Seq<u8>) -> Seq<char>
    decreases bytes.len(),
{
    if bytes.len() == 0 {
        Seq::empty()
    } else if bytes.len() == 1 {
        hex_pair(bytes[0])
    } else {
        hex_dump(bytes.drop_last()) + seq![' '] + hex_pair(bytes.last())
    }
}

/// The selected bytes of a view as text: as hexadecimal digits if the
/// selection was made in the hexadecimal column, as characters otherwise.
pub open spec fn view_text(view: HexView) -> Seq<char> {
    match view.selection.side {
        HexViewSelectionSide::Hex => hex_dump(view.selected_bytes()),
        HexViewSelectionSide::Ascii => lossy_text(view.selected_bytes()),
    }
}

/// The texts of the views with the given id, one after the other.
pub open spec fn copied_text(views: Seq<HexView>, id: Option<usize>) -> Seq<char>
    decreases views.len(),
{
    if views.len() == 0 {
        Seq::empty()
    } else if id == Some(views.last().id) {
        copied_text(views.drop_last(), id) + view_text(views.last())
    } else {
        copied_text(views.drop_last(), id)
    }
}

/// The character of a hexadecimal digit, in upper case.
pub fn hex_digit_char(digit: u8) -> (r: char)
    requires
        digit < 16,
    ensures
        r == hex_char(digit as nat),
{
    if digit < 10 {
        (0x30 + digit) as char
    } else {
        (0x41 + digit - 10) as char
    }
}

/// Writes bytes as hexadecimal digits, two to a byte, with one space between
/// bytes.
pub fn hex_text(bytes: &Vec<u8>) -> (r: String)
    ensures
        r@ == hex_dump(bytes@),
{
    let mut out = String::new();
    let mut k: usize = 0;
    while k < bytes.len()
        invariant
            k <= bytes.len(),
            out@ == hex_dump(bytes@.take(k as int)),
        decreases bytes.len() - k,
    {
        let byte: u8 = bytes[k];
        let ghost seen = bytes@.take(k as int);
        let ghost next = bytes@.take(k + 1);
        proof {
            assert(next.drop_last() == seen);
            assert(next.last() == byte);
            if k == 0 {
                assert(next[0] == byte);
            }
        }
        if k > 0 {
            out.push(' ');
        }
        out.push(hex_digit_char(byte / 16));
        out.push(hex_digit_char(byte % 16));
        proof {
            if k == 0 {
                assert(out@ =~= hex_pair(byte));
            } else {
                assert(out@ =~= hex_dump(seen) + seq![' '] + hex_pair(byte));
            }
        }
        k += 1;
    }
    assert(bytes@.take(k as int) == bytes@);
    out
}

impl HexView {
    /// The selected bytes as text.
    pub fn selection_text(&self) -> (r: String)
        ensures
            r@ == view_text(*self),
    {
        let bytes = self.get_selected_bytes();
        match self.selection.side {
            HexViewSelectionSide::Hex => hex_text(&bytes),
            HexViewSelectionSide::Ascii => utf8_lossy(&bytes),
        }
    }
}

impl Workspace {
    /// The text to copy: the selected bytes of the view last selected in.
    /// It is empty when there is nothing to copy.
    pub fn selection_text(&self) -> (r: String)
        ensures
            r@ == copied_text(self.hex_views@, self.last_selected_hv),
    {
        let mut out = String::new();
        let mut k: usize = 0;
        while k < self.hex_views.len()
            invariant
                k <= self.hex_views@.len(),
                out@ == copied_text(self.hex_views@.take(k as int), self.last_selected_hv),
            decreases self.hex_views@.len() - k,
        {
            let ghost seen = self.hex_views@.take(k as int);
            let ghost next = self.hex_views@.take(k + 1);
            proof {
                assert(next.drop_last() == seen);
                assert(next.last() == self.hex_views@[k as int]);
            }
            match self.last_selected_hv {
                Some(id) => {
                    if self.hex_views[k].id == id {
                        let text = self.hex_views[k].selection_text();
                        out.append(text.as_str());
                    }
                },
                None => {},
            }
            k += 1;
        }
        assert(self.hex_views@.take(k as int) == self.hex_views@);
        out
    }
}

} // verus!
