use vstd::prelude::*;
use vstd::string::*;
use sha2::{Digest, Sha256};
use crate::text;

verus! {

/// The SHA-256 digest of `data`, as `sha2::Sha256` computes it.
pub uninterp spec fn sha256(data: Seq<u8>) -> Seq<u8>;

/// Lower-case hexadecimal digit for `v` in `0..16`.
pub open spec fn hex_digit(v: int) -> char {
    if v < 10 {
        text::digit_char(v)
    } else if v == 10 {
        'a'
    } else if v == 11 {
        'b'
    } else if v == 12 {
        'c'
    } else if v == 13 {
        'd'
    } else if v == 14 {
        'e'
    } else {
        'f'
    }
}

/// Bytes written as lower-case hex, two digits per byte, high nibble first.
pub open spec fn lower_hex(b: Seq<u8>) -> Seq<char>
    decreases b.len(),
{
    if b.len() == 0 {
        Seq::empty()
    } else {
        seq![hex_digit(b[0] as int / 16), hex_digit(b[0] as int % 16)] + lower_hex(b.drop_first())
    }
}

/// Whether `c` is one of `0123456789abcdef`.
pub open spec fn is_lower_hex_digit(c: char) -> bool {
    ('0' <= c && c <= '9') || ('a' <= c && c <= 'f')
}

/// The value of a lower-case hex digit.
pub open spec fn hex_value(c: char) -> int {
    if '0' <= c && c <= '9' {
        c as int - 48
    } else {
        c as int - 87
    }
}

proof fn lemma_hex_digit_value(v: int)
    requires
        0 <= v < 16,
    ensures
        is_lower_hex_digit(hex_digit(v)),
        hex_value(hex_digit(v)) == v,
{
}

/// Hex writing reads back: two lower-case hex digits per byte, high nibble
/// first, spelling the byte.
pub proof fn lemma_lower_hex_reads_back(b: Seq<u8>)
    ensures
        lower_hex(b).len() == 2 * b.len(),
        forall|i: int|
            0 <= i < b.len() ==> {
                &&& is_lower_hex_digit(#[trigger] lower_hex(b)[2 * i])
                &&& is_lower_hex_digit(lower_hex(b)[2 * i + 1])
                &&& 16 * hex_value(lower_hex(b)[2 * i]) + hex_value(lower_hex(b)[2 * i + 1]) == b[i]
            },
    decreases b.len(),
{
    if b.len() > 0 {
        let rest = b.drop_first();
        lemma_lower_hex_reads_back(rest);
        lemma_hex_digit_value(b[0] as int / 16);
        lemma_hex_digit_value(b[0] as int % 16);
        let h = lower_hex(b);
        assert forall|i: int| 0 <= i < b.len() implies {
            &&& is_lower_hex_digit(#[trigger] h[2 * i])
            &&& is_lower_hex_digit(h[2 * i + 1])
            &&& 16 * hex_value(h[2 * i]) + hex_value(h[2 * i + 1]) == b[i]
        } by {
            if i > 0 {
                assert(h[2 * i] == lower_hex(rest)[2 * (i - 1)]);
                assert(h[2 * i + 1] == lower_hex(rest)[2 * (i - 1) + 1]);
                assert(rest[i - 1] == b[i]);
            }
        }
    }
}

/// Little-endian bytes of a `u32`.
pub open spec fn le32(x: u32) -> Seq<u8> {
    seq![
        (x % 256) as u8,
        ((x / 256) % 256) as u8,
        ((x / 65536) % 256) as u8,
        (x / 16777216) as u8,
    ]
}

/// The bytes an image is fingerprinted by: its RGBA pixels, then its width
/// and its height, each as four little-endian bytes.
pub open spec fn frame(rgba: Seq<u8>, width: u32, height: u32) -> Seq<u8> {
    rgba + le32(width) + le32(height)
}

/// The four bytes of `le32(x)` spell `x`, least significant first.
pub proof fn lemma_le32_value(x: u32)
    ensures
        le32(x).len() == 4,
        le32(x)[0] + 256 * le32(x)[1] + 65536 * le32(x)[2] + 16777216 * le32(x)[3] == x,
{
    let b0 = x % 256;
    let b1 = (x / 256) % 256;
    let b2 = (x / 65536) % 256;
    let b3 = x / 16777216;
    assert(b0 + 256 * b1 + 65536 * b2 + 16777216 * b3 == x) by (nonlinear_arith)
        requires
            b0 == x % 256,
            b1 == (x / 256) % 256,
            b2 == (x / 65536) % 256,
            b3 == x / 16777216,
    ;
}

/// The frame holds every pixel byte, in order, then the width and the height.
pub proof fn lemma_frame_layout(rgba: Seq<u8>, width: u32, height: u32)
    ensures
        frame(rgba, width, height).len() == rgba.len() + 8,
        frame(rgba, width, height).take(rgba.len() as int) == rgba,
        frame(rgba, width, height).subrange(rgba.len() as int, rgba.len() + 4int) == le32(width),
        frame(rgba, width, height).subrange(rgba.len() + 4int, rgba.len() + 8int) == le32(height),
{
    let f = frame(rgba, width, height);
    assert(f.take(rgba.len() as int) =~= rgba);
    assert(f.subrange(rgba.len() as int, rgba.len() + 4int) =~= le32(width));
    assert(f.subrange(rgba.len() + 4int, rgba.len() + 8int) =~= le32(height));
}

/// Images that differ in any pixel byte, in size, or in their number of bytes
/// have different frames.
pub proof fn lemma_frame_injective(
    a: Seq<u8>,
    width_a: u32,
    height_a: u32,
    b: Seq<u8>,
    width_b: u32,
    height_b: u32,
)
    requires
        frame(a, width_a, height_a) == frame(b, width_b, height_b),
    ensures
        a == b,
        width_a == width_b,
        height_a == height_b,
{
    lemma_frame_layout(a, width_a, height_a);
    lemma_frame_layout(b, width_b, height_b);
    lemma_le32_value(width_a);
    lemma_le32_value(width_b);
    lemma_le32_value(height_a);
    lemma_le32_value(height_b);
}

/// The fingerprint of an image: the hex SHA-256 of its frame.
pub open spec fn spec_image_hash(rgba: Seq<u8>, width: u32, height: u32) -> Seq<char> {
    lower_hex(sha256(frame(rgba, width, height)))
}

pub open spec fn png_suffix() -> Seq<char> {
    seq!['.', 'p', 'n', 'g']
}

/// `Sha256::digest` of `data`, written with `{:x}`.
/// Trusted: the digest is `sha256(data)`, and `generic_array`'s `LowerHex`
/// writes each of its 32 bytes as two lower-case hex digits, high nibble first.
#[verifier::external_body]
fn sha256_lower_hex(data: &[u8]) -> (r: String)
    ensures
        r@ == lower_hex(sha256(data@)),
        r@.len() == 64,
{
    format!("{:x}", Sha256::digest(data))
}

/// The bytes hashed for an image (see `frame`).
pub fn frame_bytes(rgba: &[u8], width: u32, height: u32) -> (r: Vec<u8>)
    ensures
        r@ == frame(rgba@, width, height),
{
    let mut v = vstd::slice::slice_to_vec(rgba);
    let ghost pixels = v@;
    v.push((width % 256) as u8);
    v.push(((width / 256) % 256) as u8);
    v.push(((width / 65536) % 256) as u8);
    v.push((width / 16777216) as u8);
    v.push((height % 256) as u8);
    v.push(((height / 256) % 256) as u8);
    v.push(((height / 65536) % 256) as u8);
    v.push((height / 16777216) as u8);
    assert(v@ =~= frame(rgba@, width, height));
    v
}

/// The fingerprint under which an image is de-duplicated and named.
pub fn image_hash(rgba: &[u8], width: u32, height: u32) -> (r: String)
    ensures
        r@ == spec_image_hash(rgba@, width, height),
        r@.len() == 64,
{
    let data = frame_bytes(rgba, width, height);
    sha256_lower_hex(data.as_slice())
}

/// The folder, under the data folder, that holds the image files.
pub open spec fn images_prefix() -> Seq<char> {
    seq!['i', 'm', 'a', 'g', 'e', 's', '/']
}

/// The path, relative to the data folder, of the image file named `file_name`.
pub fn stored_image_path(file_name: &str) -> (r: String)
    ensures
        r@ == images_prefix() + file_name@,
{
    proof {
        reveal_strlit("images/");
    }
    assert("images/"@ =~= images_prefix());
    let mut r = String::from_str("images/");
    r.append(file_name);
    r
}

/// The path, relative to the data folder, that an image is saved at: its
/// fingerprint followed by `.png`, in the images folder. An image copied
/// twice is stored once.
pub fn image_path(rgba: &[u8], width: u32, height: u32) -> (r: String)
    ensures
        r@ == images_prefix() + spec_image_hash(rgba@, width, height) + png_suffix(),
{
    let hash = image_hash(rgba, width, height);
    proof {
        reveal_strlit(".png");
    }
    assert(".png"@ =~= png_suffix());
    let name = hash.concat(".png");
    let r = stored_image_path(name.as_str());
    assert(r@ =~= images_prefix() + spec_image_hash(rgba@, width, height) + png_suffix());
    r
}

} // verus!
