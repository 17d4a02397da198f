//! What the grid of a view shows for each byte and each row: the digits of
//! the row's offset, the character of a byte, and the kind of tint it gets.

use vstd::prelude::*;

verus! {

/// The tint of a byte in the hexadecimal column.
#[derive(Clone, Copy, Debug, PartialEq, Eq, Structural)]
pub enum HexTint {
    /// The files differ at the byte.
    Diff,
    /// The byte is zero.
    Null,
    Other,
}

/// The tint of a byte in the text column.
#[derive(Clone, Copy, Debug, PartialEq, Eq, Structural)]
pub enum AsciiTint {
    /// The byte is zero.
    Null,
    /// The byte is a printable character.
    Printable,
    Other,
}

/// One digit of a row's offset.
#[derive(Clone, Copy, Debug, PartialEq, Eq, Structural)]
pub struct OffsetDigit {
    /// The digit, below sixteen.
    pub value: u8,
    /// Whether the digit is a zero before the first digit that is not.
    pub leading_zero: bool,
}

/// Whether a byte is a printable character: from the space to the tilde.
pub open spec fn is_printable(byte: u8) -> bool {
    32 <= byte <= 126
}

/// Sixteen to the power of `place`.
pub open spec fn pow16(place: nat) -> nat
    decreases place,
{
    if place == 0 {
        1
    } else {
        16 * pow16((place - 1) as nat)
    }
}

/// The hexadecimal digit of `pos` at `place`, counted from the right.
pub open spec fn digit_at(pos: nat, place: nat) -> nat {
    (pos / pow16(place)) % 16
}

/// How many digits the offsets of a file of `len` bytes are shown with.
pub open spec fn offset_width(len: nat) -> nat {
    if 0x1_0000_0000 <= len <= 0xFFFF_FFFF_FFFF {
        12
    } else {
        8
    }
}

/// The digits of `pos`, `width` of them, the most significant first.
pub open spec fn offset_digits_of(pos: nat, width: nat) -> Seq<OffsetDigit> {
    Seq::new(
        width,
        |k: int|
            OffsetDigit {
                value: digit_at(pos, (width - 1 - k) as nat) as u8,
                leading_zero: pos / pow16((width - 1 - k) as nat) == 0,
            },
    )
}

/// No power of sixteen is zero.
pub proof fn lemma_pow16_positive(place: nat)
    ensures
        pow16(place) > 0,
    decreases place,
{
    if place > 0 {
        lemma_pow16_positive((place - 1) as nat);
    }
}

/// Cutting one more digit off the right of a number divides it by sixteen.
pub proof fn lemma_digit_shift(pos: nat, place: nat)
    ensures
        (pos / pow16(place)) / 16 == pos / pow16(place + 1),
{
    lemma_pow16_positive(place);
    let p = pow16(place);
    assert(pow16(place + 1) == 16 * p);
    assert((pos / p) / 16 == pos / (16 * p)) by (nonlinear_arith)
        requires
            p > 0,
    ;
}

/// The tint of a byte in the hexadecimal column: that of a difference where
/// differences are shown and the files differ, else that of a zero byte or of
/// any other.
pub fn hex_tint(show_diff: bool, is_diff: bool, byte: Option<u8>) -> (r: HexTint)
    ensures
        r == if show_diff && is_diff {
            HexTint::Diff
        } else if byte == Some(0u8) {
            HexTint::Null
        } else {
            HexTint::Other
        },
{
    if show_diff && is_diff {
        HexTint::Diff
    } else {
        match byte {
            Some(b) => if b == 0 {
                HexTint::Null
            } else {
                HexTint::Other
            },
            None => HexTint::Other,
        }
    }
}

/// The tint of a byte in the text column.
pub fn ascii_tint(byte: Option<u8>) -> (r: AsciiTint)
    ensures
        r == match byte {
            Some(b) => if b == 0 {
                AsciiTint::Null
            } else if is_printable(b) {
                AsciiTint::Printable
            } else {
                AsciiTint::Other
            },
            None => AsciiTint::Other,
        },
{
    match byte {
        Some(b) => if b == 0 {
            AsciiTint::Null
        } else if 32 <= b && b <= 126 {
            AsciiTint::Printable
        } else {
            AsciiTint::Other
        },
        None => AsciiTint::Other,
    }
}

/// The character shown for a byte in the text column: the byte itself if it
/// is printable, a middle dot if it is not, a space where the file has ended.
pub fn ascii_glyph(byte: Option<u8>) -> (r: char)
    ensures
        r == match byte {
            Some(b) => if is_printable(b) {
                b as char
            } else {
                '\u{b7}'
            },
            None => ' ',
        },
{
    match byte {
        Some(b) => if 32 <= b && b <= 126 {
            b as char
        } else {
            '\u{b7}'
        },
        None => ' ',
    }
}

/// How many digits the offsets of a file of `len` bytes are shown with.
pub fn offset_digit_count(len: usize) -> (r: usize)
    ensures
        r == offset_width(len as nat),
{
    let n: u64 = len as u64;
    if 0x1_0000_0000 <= n && n <= 0xFFFF_FFFF_FFFF {
        12
    } else {
        8
    }
}

/// The digits of the offset `pos`, `width` of them, the most significant
/// first. Digits that do not fit are cut off at the left.
pub fn offset_digits(pos: usize, width: usize) -> (r: Vec<OffsetDigit>)
    ensures
        r@ == offset_digits_of(pos as nat, width as nat),
{
    let mut low_first: Vec<OffsetDigit> = Vec::new();
    let mut rest: usize = pos;
    let mut place: usize = 0;
    assert(pow16(0) == 1);
    while place < width
        invariant
            place <= width,
            low_first@.len() == place,
            rest == pos as nat / pow16(place as nat),
            forall|k: int|
                0 <= k < place ==> low_first@[k] == (OffsetDigit {
                    value: digit_at(pos as nat, k as nat) as u8,
                    leading_zero: pos as nat / pow16(k as nat) == 0,
                }),
        decreases width - place,
    {
        proof {
            lemma_digit_shift(pos as nat, place as nat);
            lemma_pow16_positive(place as nat);
        }
        low_first.push(OffsetDigit { value: (rest % 16) as u8, leading_zero: rest == 0 });
        rest = rest / 16;
        place += 1;
    }
    let mut out: Vec<OffsetDigit> = Vec::new();
    let mut k: usize = 0;
    while k < width
        invariant
            k <= width,
            low_first@.len() == width,
            out@.len() == k,
            forall|j: int| 0 <= j < k ==> out@[j] == low_first@[width - 1 - j],
        decreases width - k,
    {
        out.push(low_first[width - 1 - k]);
        k += 1;
    }
    assert(out@ =~= offset_digits_of(pos as nat, width as nat));
    out
}

} // verus!
