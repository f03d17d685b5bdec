use vstd::prelude::*;
use vstd::utf8::{
    is_continuation_byte, is_leading_byte_width_2, is_leading_byte_width_3, is_leading_byte_width_4,
    valid_utf8,
};

verus! {

/// `b` begins with `prefix`.
pub open spec fn starts_with(b: Seq<u8>, prefix: Seq<u8>) -> bool {
    prefix.len() <= b.len() && b.subrange(0, prefix.len() as int) == prefix
}

/// `b` begins with a byte order mark of UTF-8, UTF-16 or UTF-32.
pub open spec fn has_byte_order_mark(b: Seq<u8>) -> bool {
    starts_with(b, seq![0xEFu8, 0xBBu8, 0xBFu8]) || starts_with(
        b,
        seq![0x00u8, 0x00u8, 0xFEu8, 0xFFu8],
    ) || starts_with(b, seq![0xFFu8, 0xFEu8, 0x00u8, 0x00u8]) || starts_with(
        b,
        seq![0xFEu8, 0xFFu8],
    ) || starts_with(b, seq![0xFFu8, 0xFEu8])
}

/// A NUL byte stands among the first 1024 bytes of `b`.
pub open spec fn nul_in_head(b: Seq<u8>) -> bool {
    exists|i: int| 0 <= i < b.len() && i < 1024 && #[trigger] b[i] == 0u8
}

/// The content is classified binary: no byte order mark, and either a NUL
/// byte in the first 1024 bytes or the magic number of a PDF or PNG file.
pub open spec fn content_is_binary(b: Seq<u8>) -> bool {
    !has_byte_order_mark(b) && (nul_in_head(b) || starts_with(
        b,
        seq![0x25u8, 0x50u8, 0x44u8, 0x46u8],
    ) || starts_with(b, seq![0x89u8, 0x50u8, 0x4Eu8, 0x47u8]))
}

/// Relies on `content_inspector::inspect` and `ContentType::is_binary`: byte
/// order marks first, then NUL bytes in the first 1024 bytes, then the PDF
/// and PNG magic numbers.
#[verifier::external_body]
fn inspect_binary(sample: &[u8]) -> (r: bool)
    ensures
        r == content_is_binary(sample@),
{
    content_inspector::inspect(sample).is_binary()
}

/// Relies on `std::str::from_utf8`, which fails exactly when the bytes are
/// not valid UTF-8.
#[verifier::external_body]
fn utf8_valid(bytes: &[u8]) -> (r: bool)
    ensures
        r == valid_utf8(bytes@),
{
    std::str::from_utf8(bytes).is_ok()
}

/// The part of a file that is inspected: its first 1024 bytes.
pub open spec fn head(b: Seq<u8>) -> Seq<u8> {
    if b.len() <= 1024 {
        b
    } else {
        b.subrange(0, 1024)
    }
}

/// A byte of printable text: a visible character, a space, a tab or a
/// line or page break, or a byte of a multi-byte character.
pub open spec fn printable_byte(x: u8) -> bool {
    (0x20 <= x && x != 0x7F) || (0x09 <= x <= 0x0D)
}

/// Every byte of `b` is printable.
pub open spec fn printable(b: Seq<u8>) -> bool {
    forall|i: int| 0 <= i < b.len() ==> printable_byte(#[trigger] b[i])
}

/// `t` is the start of a multi-byte character that was cut off.
pub open spec fn cut_scalar(t: Seq<u8>) -> bool {
    (t.len() == 1 && (is_leading_byte_width_2(t[0]) || is_leading_byte_width_3(t[0])
        || is_leading_byte_width_4(t[0]))) || (t.len() == 2 && (is_leading_byte_width_3(t[0])
        || is_leading_byte_width_4(t[0])) && is_continuation_byte(t[1])) || (t.len() == 3
        && is_leading_byte_width_4(t[0]) && is_continuation_byte(t[1]) && is_continuation_byte(
        t[2],
    ))
}

/// The inspected bytes `h` are valid UTF-8, but that a full 1024-byte head
/// may end inside a character that the rest of the file completes.
pub open spec fn encoding_ok(h: Seq<u8>) -> bool {
    valid_utf8(h) || (h.len() == 1024 && exists|k: int|
        h.len() - 3 <= k < h.len() && valid_utf8(#[trigger] h.subrange(0, k)) && cut_scalar(
            h.subrange(k, h.len() as int),
        ))
}

/// The classification of a file that begins with `b`: binary when its head
/// holds a NUL byte or is not valid UTF-8. Valid text of printable bytes is
/// text; for valid text with other control bytes, content_inspector decides.
pub open spec fn sample_is_binary(b: Seq<u8>) -> bool {
    nul_in_head(b) || !encoding_ok(head(b)) || (!printable(head(b)) && content_is_binary(head(b)))
}

fn find_nul(h: &[u8]) -> (r: bool)
    requires
        h@.len() <= 1024,
    ensures
        r == nul_in_head(h@),
{
    let mut i: usize = 0;
    while i < h.len()
        invariant
            i <= h@.len() <= 1024,
            forall|j: int| 0 <= j < i ==> h@[j] != 0u8,
        decreases h@.len() - i,
    {
        if h[i] == 0u8 {
            return true;
        }
        i = i + 1;
    }
    false
}

fn all_printable(h: &[u8]) -> (r: bool)
    ensures
        r == printable(h@),
{
    let mut i: usize = 0;
    while i < h.len()
        invariant
            i <= h@.len(),
            forall|j: int| 0 <= j < i ==> printable_byte(#[trigger] h@[j]),
        decreases h@.len() - i,
    {
        let x = h[i];
        if !((0x20u8 <= x && x != 0x7Fu8) || (0x09u8 <= x && x <= 0x0Du8)) {
            assert(!printable_byte(h@[i as int]));
            return false;
        }
        i = i + 1;
    }
    true
}

fn is_cut_scalar(h: &[u8], k: usize) -> (r: bool)
    requires
        k < h@.len() <= k + 3,
    ensures
        r == cut_scalar(h@.subrange(k as int, h@.len() as int)),
{
    let n = h.len() - k;
    let lead = h[k];
    let w2 = 0xC0u8 <= lead && lead <= 0xDFu8;
    let w3 = 0xE0u8 <= lead && lead <= 0xEFu8;
    let w4 = 0xF0u8 <= lead && lead <= 0xF7u8;
    if n == 1 {
        w2 || w3 || w4
    } else if n == 2 {
        let c1 = h[k + 1];
        (w3 || w4) && 0x80u8 <= c1 && c1 <= 0xBFu8
    } else {
        let c1 = h[k + 1];
        let c2 = h[k + 2];
        w4 && 0x80u8 <= c1 && c1 <= 0xBFu8 && 0x80u8 <= c2 && c2 <= 0xBFu8
    }
}

fn head_encoding_ok(h: &[u8]) -> (r: bool)
    requires
        h@.len() <= 1024,
    ensures
        r == encoding_ok(h@),
{
    if utf8_valid(h) {
        return true;
    }
    if h.len() != 1024 {
        return false;
    }
    let mut d: usize = 1;
    while d <= 3
        invariant
            1 <= d <= 4,
            h@.len() == 1024,
            !valid_utf8(h@),
            forall|k: int|
                h@.len() - d < k < h@.len() ==> !(valid_utf8(#[trigger] h@.subrange(0, k))
                    && cut_scalar(h@.subrange(k, h@.len() as int))),
        decreases 4 - d,
    {
        let k = h.len() - d;
        let front = &h[0..k];
        if utf8_valid(front) && is_cut_scalar(h, k) {
            return true;
        }
        d = d + 1;
    }
    false
}

/// Whether a file that begins with `sample` is binary and so not scanned.
/// Only the first 1024 bytes count; an empty file is text.
pub fn is_binary(sample: &Vec<u8>) -> (r: bool)
    ensures
        r == sample_is_binary(sample@),
        nul_in_head(sample@) ==> r,
        !encoding_ok(head(sample@)) ==> r,
        sample@.len() < 1024 && !valid_utf8(sample@) ==> r,
        printable(head(sample@)) && valid_utf8(head(sample@)) ==> !r,
        sample@.len() == 0 ==> !r,
{
    let n: usize = if sample.len() <= 1024 {
        sample.len()
    } else {
        1024
    };
    let h = &sample.as_slice()[0..n];
    proof {
        assert(h@ =~= head(sample@));
        if nul_in_head(sample@) {
            let i = choose|i: int| 0 <= i < sample@.len() && i < 1024 && #[trigger] sample@[i] == 0u8;
            assert(h@[i] == 0u8);
        }
        if nul_in_head(h@) {
            let i = choose|i: int| 0 <= i < h@.len() && i < 1024 && #[trigger] h@[i] == 0u8;
            assert(sample@[i] == 0u8);
        }
        if printable(h@) {
            assert(!nul_in_head(h@));
        }
    }
    if find_nul(h) {
        true
    } else if !head_encoding_ok(h) {
        true
    } else if all_printable(h) {
        false
    } else {
        inspect_binary(h)
    }
}

} // verus!
