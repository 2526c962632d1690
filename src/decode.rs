//! The tile-data decoder: an encoded layer payload to raw tile ids in
//! row-major order.

use crate::error::{CsvDecodingError, Error};
use crate::text::{
    comma_fields, digit_value, digits_value, is_ascii_space, is_digit, is_digits, parse_u32,
    parsed_u32, split_on, trim_ascii_space, trim_end, trim_start, trimmed, without_plus,
};
use base64::Engine;
use std::io::Read;
use vstd::prelude::*;

verus! {

/// The supported pairs of payload encoding and compression.
#[derive(Clone, Copy, Debug, PartialEq, Eq, Structural)]
pub enum TileEncoding {
    /// Comma-separated decimal ids.
    Csv,
    /// Base64 text of little-endian ids.
    Base64,
    /// Base64 text of zlib-compressed little-endian ids.
    Base64Zlib,
    /// Base64 text of gzip-compressed little-endian ids.
    Base64Gzip,
}

pub open spec fn attribute_view(a: Option<String>) -> Option<Seq<char>> {
    match a {
        Some(s) => Some(s@),
        None => None,
    }
}

/// The encoding named by an `encoding` and a `compression` attribute, or
/// `None` for a pair that is unknown or not supported.
pub open spec fn spec_tile_encoding(
    encoding: Option<Seq<char>>,
    compression: Option<Seq<char>>,
) -> Option<TileEncoding> {
    if encoding == Some("csv"@) && compression is None {
        Some(TileEncoding::Csv)
    } else if encoding == Some("base64"@) && compression is None {
        Some(TileEncoding::Base64)
    } else if encoding == Some("base64"@) && compression == Some("zlib"@) {
        Some(TileEncoding::Base64Zlib)
    } else if encoding == Some("base64"@) && compression == Some("gzip"@) {
        Some(TileEncoding::Base64Gzip)
    } else {
        None
    }
}

fn attribute_is(a: &Option<String>, name: &str) -> (r: bool)
    ensures
        r == (attribute_view(*a) == Some(name@)),
{
    match a {
        Some(s) => *s == String::from_str(name),
        None => false,
    }
}

/// Picks the decoding for a layer's `encoding` and `compression` attributes.
/// An unknown or unsupported pair, both absent included, is an
/// `InvalidEncodingFormat` error that carries the two attributes.
pub fn tile_encoding(encoding: Option<String>, compression: Option<String>) -> (r: Result<
    TileEncoding,
    Error,
>)
    ensures
        r matches Ok(t) ==> spec_tile_encoding(attribute_view(encoding), attribute_view(compression))
            == Some(t),
        r matches Err(e) ==> spec_tile_encoding(
            attribute_view(encoding),
            attribute_view(compression),
        ) is None && e == (Error::InvalidEncodingFormat { encoding, compression }),
{
    let csv = attribute_is(&encoding, "csv");
    let base64 = attribute_is(&encoding, "base64");
    let uncompressed = compression.is_none();
    if csv && uncompressed {
        Ok(TileEncoding::Csv)
    } else if base64 && uncompressed {
        Ok(TileEncoding::Base64)
    } else if base64 && attribute_is(&compression, "zlib") {
        Ok(TileEncoding::Base64Zlib)
    } else if base64 && attribute_is(&compression, "gzip") {
        Ok(TileEncoding::Base64Gzip)
    } else {
        Err(Error::InvalidEncodingFormat { encoding, compression })
    }
}

/// The ids that a csv payload holds: each comma-separated field, trimmed of
/// ASCII whitespace, read as a `u32`; `None` if any field is not one.
pub open spec fn csv_tiles(s: Seq<char>) -> Option<Seq<u32>> {
    let fields = comma_fields(s);
    if forall|i: int| 0 <= i < fields.len() ==> (#[trigger] parsed_u32(trimmed(fields[i]))) is Some {
        Some(Seq::new(fields.len(), |i: int| parsed_u32(trimmed(fields[i]))->0))
    } else {
        None
    }
}

/// Decodes a csv payload. The first field that is not a `u32` fails the whole
/// payload with its parse error.
pub fn decode_csv(text: &str) -> (r: Result<Vec<u32>, CsvDecodingError>)
    ensures
        r matches Ok(v) ==> csv_tiles(text@) == Some(v@),
        r is Err ==> csv_tiles(text@) is None,
{
    let fields = split_on(text, ',');
    let ghost spec_fields = comma_fields(text@);
    let mut out: Vec<u32> = Vec::new();
    let mut i: usize = 0;
    while i < fields.len()
        invariant
            fields@.len() == spec_fields.len(),
            forall|j: int| 0 <= j < fields@.len() ==> (#[trigger] fields@[j])@ == spec_fields[j],
            spec_fields == comma_fields(text@),
            i <= fields@.len(),
            out@.len() == i,
            forall|j: int| 0 <= j < i ==> parsed_u32(trimmed(spec_fields[j])) == Some(#[trigger] out@[j]),
        decreases fields@.len() - i,
    {
        let token = trim_ascii_space(fields[i]);
        match parse_u32(token) {
            Ok(v) => out.push(v),
            Err(e) => {
                assert(parsed_u32(trimmed(spec_fields[i as int])) is None);
                return Err(CsvDecodingError::TileDataParseError(e));
            },
        }
        i += 1;
    }
    proof {
        assert forall|j: int| 0 <= j < spec_fields.len() implies (#[trigger] parsed_u32(
            trimmed(spec_fields[j]),
        )) is Some by {
            assert(parsed_u32(trimmed(spec_fields[j])) == Some(out@[j]));
        }
        assert(out@ =~= Seq::new(spec_fields.len(), |j: int| parsed_u32(trimmed(spec_fields[j]))->0));
    }
    Ok(out)
}

/// What base64 decoding of a text gives: its bytes, or `None` where the text
/// is not valid standard base64.
pub uninterp spec fn base64_decoded(s: Seq<char>) -> Option<Seq<u8>>;

/// What zlib decompression of bytes gives, or `None` where they are not a
/// valid zlib stream.
pub uninterp spec fn zlib_inflated(b: Seq<u8>) -> Option<Seq<u8>>;

/// What gzip decompression of bytes gives, or `None` where they are not a
/// valid gzip stream.
pub uninterp spec fn gzip_inflated(b: Seq<u8>) -> Option<Seq<u8>>;

/// Relies on base64's `STANDARD` engine `decode`: the bytes that standard
/// base64 text (with padding) encodes, or an error for invalid text.
#[verifier::external_body]
fn base64_decode(s: &str) -> (r: Result<Vec<u8>, base64::DecodeError>)
    ensures
        r matches Ok(v) ==> base64_decoded(s@) == Some(v@),
        r is Err ==> base64_decoded(s@) is None,
{
    base64::engine::general_purpose::STANDARD.decode(s)
}

/// Relies on flate2's `read::ZlibDecoder`, read to its end: the bytes that a
/// zlib stream holds, or an error for an invalid stream.
#[verifier::external_body]
fn zlib_decompress(b: &[u8]) -> (r: Result<Vec<u8>, std::io::Error>)
    ensures
        r matches Ok(v) ==> zlib_inflated(b@) == Some(v@),
        r is Err ==> zlib_inflated(b@) is None,
{
    let mut out = Vec::new();
    flate2::read::ZlibDecoder::new(b).read_to_end(&mut out).map(|_| out)
}

/// Relies on flate2's `read::GzDecoder`, read to its end: the bytes that a
/// gzip stream holds, or an error for an invalid stream.
#[verifier::external_body]
fn gzip_decompress(b: &[u8]) -> (r: Result<Vec<u8>, std::io::Error>)
    ensures
        r matches Ok(v) ==> gzip_inflated(b@) == Some(v@),
        r is Err ==> gzip_inflated(b@) is None,
{
    let mut out = Vec::new();
    flate2::read::GzDecoder::new(b).read_to_end(&mut out).map(|_| out)
}

/// The little-endian `u32` held by the four bytes of `b` from `k` on.
pub open spec fn le_u32_at(b: Seq<u8>, k: int) -> u32 {
    (b[k] as int + b[k + 1] as int * 0x100 + b[k + 2] as int * 0x1_0000 + b[k + 3] as int
        * 0x100_0000) as u32
}

/// The ids that a byte buffer holds, one per four bytes, little-endian.
pub open spec fn le_tiles(b: Seq<u8>) -> Seq<u32> {
    Seq::new(b.len() / 4, |i: int| le_u32_at(b, 4 * i))
}

/// Reads decoded (and decompressed) bytes as little-endian tile ids. A length
/// that is not a multiple of 4 is an `InvalidTileDataLength` error.
pub fn tiles_from_le_bytes(bytes: &[u8]) -> (r: Result<Vec<u32>, Error>)
    ensures
        r matches Ok(v) ==> bytes@.len() % 4 == 0 && v@ == le_tiles(bytes@),
        r matches Err(e) ==> bytes@.len() % 4 != 0 && e == (Error::InvalidTileDataLength {
            byte_len: bytes@.len() as u64,
        }),
{
    let n = bytes.len();
    if n % 4 != 0 {
        return Err(Error::InvalidTileDataLength { byte_len: n as u64 });
    }
    let mut out: Vec<u32> = Vec::new();
    let mut i: usize = 0;
    while i < n / 4
        invariant
            n == bytes@.len(),
            n % 4 == 0,
            i <= n / 4,
            out@.len() == i,
            forall|j: int| 0 <= j < i ==> #[trigger] out@[j] == le_u32_at(bytes@, 4 * j),
        decreases n / 4 - i,
    {
        let k = 4 * i;
        let v: u32 = bytes[k] as u32 + bytes[k + 1] as u32 * 0x100 + bytes[k + 2] as u32 * 0x1_0000
            + bytes[k + 3] as u32 * 0x100_0000;
        out.push(v);
        i += 1;
    }
    assert(out@ =~= le_tiles(bytes@));
    Ok(out)
}

/// Checks that a decoded layer or chunk has one id per cell of its
/// `width` x `height` extent; any other count is an `InvalidTileCount` error.
pub fn check_tile_count(tiles: Vec<u32>, width: u32, height: u32) -> (r: Result<Vec<u32>, Error>)
    ensures
        r matches Ok(v) ==> tiles@.len() == width * height && v@ == tiles@,
        r matches Err(e) ==> tiles@.len() != width * height && e == (Error::InvalidTileCount {
            expected: (width * height) as u64,
            found: tiles@.len() as u64,
        }),
{
    assert(width as int * height as int <= u64::MAX) by (nonlinear_arith)
        requires
            width <= u32::MAX,
            height <= u32::MAX,
    ;
    let expected: u64 = width as u64 * height as u64;
    if tiles.len() as u64 == expected {
        Ok(tiles)
    } else {
        Err(Error::InvalidTileCount { expected, found: tiles.len() as u64 })
    }
}

/// The bytes that a base64 payload stands for once decoded and decompressed.
pub open spec fn payload_bytes(s: Seq<char>, encoding: TileEncoding) -> Option<Seq<u8>> {
    match base64_decoded(trimmed(s)) {
        Some(raw) => match encoding {
            TileEncoding::Base64Zlib => zlib_inflated(raw),
            TileEncoding::Base64Gzip => gzip_inflated(raw),
            _ => Some(raw),
        },
        None => None,
    }
}

/// The ids that a payload holds under an encoding, before the count is
/// checked against the extent.
pub open spec fn payload_tiles(s: Seq<char>, encoding: TileEncoding) -> Option<Seq<u32>> {
    if encoding is Csv {
        csv_tiles(s)
    } else {
        match payload_bytes(s, encoding) {
            Some(b) => if b.len() % 4 == 0 {
                Some(le_tiles(b))
            } else {
                None
            },
            None => None,
        }
    }
}

/// Decodes the payload of a layer or chunk of `width` x `height` cells into
/// its raw tile ids in row-major order. Base64 text is trimmed of ASCII
/// whitespace first. The first failure ends decoding: a csv field that is not
/// a `u32`, invalid base64, an invalid compressed stream, a byte count that is
/// not a multiple of 4, or a tile count other than `width * height`.
pub fn decode_tile_data(text: &str, encoding: TileEncoding, width: u32, height: u32) -> (r: Result<
    Vec<u32>,
    Error,
>)
    ensures
        r is Ok <==> (payload_tiles(text@, encoding) matches Some(t) && t.len() == width * height),
        r matches Ok(v) ==> payload_tiles(text@, encoding) == Some(v@),
        r matches Err(e) ==> {
            &&& (encoding is Csv && csv_tiles(text@) is None ==> e is CsvDecodingError)
            &&& (!(encoding is Csv) && base64_decoded(trimmed(text@)) is None
                ==> e is Base64DecodingError)
            &&& (!(encoding is Csv) && base64_decoded(trimmed(text@)) is Some && payload_bytes(
                text@,
                encoding,
            ) is None ==> e is DecompressingError)
            &&& (!(encoding is Csv) && payload_bytes(text@, encoding) is Some && payload_bytes(
                text@,
                encoding,
            )->0.len() % 4 != 0 ==> e == (Error::InvalidTileDataLength {
                byte_len: payload_bytes(text@, encoding)->0.len() as u64,
            }))
            &&& (payload_tiles(text@, encoding) is Some ==> e == (Error::InvalidTileCount {
                expected: (width * height) as u64,
                found: payload_tiles(text@, encoding)->0.len() as u64,
            }))
        },
{
    let tiles = match encoding {
        TileEncoding::Csv => match decode_csv(text) {
            Ok(v) => v,
            Err(e) => return Err(Error::CsvDecodingError(e)),
        },
        _ => {
            let raw = match base64_decode(trim_ascii_space(text)) {
                Ok(v) => v,
                Err(e) => return Err(Error::Base64DecodingError(e)),
            };
            let inflated = match encoding {
                TileEncoding::Base64Zlib => zlib_decompress(raw.as_slice()),
                TileEncoding::Base64Gzip => gzip_decompress(raw.as_slice()),
                _ => Ok(raw),
            };
            let bytes = match inflated {
                Ok(v) => v,
                Err(e) => return Err(Error::DecompressingError(e)),
            };
            tiles_from_le_bytes(bytes.as_slice())?
        },
    };
    check_tile_count(tiles, width, height)
}

/// Byte `j` (0 to 3, least significant first) of `v`.
pub open spec fn le_byte(v: u32, j: int) -> u8 {
    if j == 0 {
        (v & 0xff) as u8
    } else if j == 1 {
        ((v >> 8u32) & 0xff) as u8
    } else if j == 2 {
        ((v >> 16u32) & 0xff) as u8
    } else {
        ((v >> 24u32) & 0xff) as u8
    }
}

/// The little-endian bytes of a sequence of ids, four per id.
pub open spec fn le_bytes(tiles: Seq<u32>) -> Seq<u8> {
    Seq::new(4 * tiles.len(), |k: int| le_byte(tiles[k / 4], k % 4))
}

proof fn lemma_le_u32(v: u32)
    ensures
        (le_byte(v, 0) as int + le_byte(v, 1) as int * 0x100 + le_byte(v, 2) as int * 0x1_0000
            + le_byte(v, 3) as int * 0x100_0000) == v,
{
    let b0 = v & 0xff;
    let b1 = (v >> 8u32) & 0xff;
    let b2 = (v >> 16u32) & 0xff;
    let b3 = (v >> 24u32) & 0xff;
    assert(b0 < 0x100 && b1 < 0x100 && b2 < 0x100 && b3 < 0x100) by (bit_vector)
        requires
            b0 == v & 0xff,
            b1 == (v >> 8u32) & 0xff,
            b2 == (v >> 16u32) & 0xff,
            b3 == (v >> 24u32) & 0xff,
    ;
    assert(b0 + b1 * 0x100 + b2 * 0x1_0000 + b3 * 0x100_0000 == v) by (bit_vector)
        requires
            b0 == v & 0xff,
            b1 == (v >> 8u32) & 0xff,
            b2 == (v >> 16u32) & 0xff,
            b3 == (v >> 24u32) & 0xff,
    ;
}

/// Reading the little-endian bytes of any sequence of ids gives the same ids
/// back: the byte stage of base64 decoding inverts its encoding.
pub proof fn lemma_le_round_trip(tiles: Seq<u32>)
    ensures
        le_bytes(tiles).len() % 4 == 0,
        le_tiles(le_bytes(tiles)) == tiles,
{
    let b = le_bytes(tiles);
    assert forall|i: int| 0 <= i < tiles.len() implies #[trigger] le_u32_at(b, 4 * i) == tiles[i] by {
        lemma_le_u32(tiles[i]);
        assert((4 * i) / 4 == i && (4 * i + 1) / 4 == i && (4 * i + 2) / 4 == i && (4 * i + 3) / 4
            == i);
        assert((4 * i) % 4 == 0 && (4 * i + 1) % 4 == 1 && (4 * i + 2) % 4 == 2 && (4 * i + 3) % 4
            == 3);
    }
    assert(le_tiles(b) =~= tiles);
}

/// The decimal digit for `d` (0 to 9).
pub open spec fn digit_char(d: nat) -> char {
    if d == 0 {
        '0'
    } else if d == 1 {
        '1'
    } else if d == 2 {
        '2'
    } else if d == 3 {
        '3'
    } else if d == 4 {
        '4'
    } else if d == 5 {
        '5'
    } else if d == 6 {
        '6'
    } else if d == 7 {
        '7'
    } else if d == 8 {
        '8'
    } else {
        '9'
    }
}

/// `n` written in base 10, without sign or leading zeros.
pub open spec fn decimal_text(n: nat) -> Seq<char>
    decreases n,
{
    if n < 10 {
        seq![digit_char(n)]
    } else {
        decimal_text(n / 10).push(digit_char(n % 10))
    }
}

/// A csv payload of ids: each in base 10, separated by commas.
pub open spec fn csv_text(tiles: Seq<u32>) -> Seq<char>
    decreases tiles.len(),
{
    if tiles.len() == 0 {
        Seq::empty()
    } else if tiles.len() == 1 {
        decimal_text(tiles[0] as nat)
    } else {
        csv_text(tiles.drop_last()).push(',') + decimal_text(tiles.last() as nat)
    }
}

proof fn lemma_digit_char(d: nat)
    requires
        d < 10,
    ensures
        is_digit(digit_char(d)),
        digit_value(digit_char(d)) == d,
{
}

proof fn lemma_decimal_text(n: nat)
    ensures
        is_digits(decimal_text(n)),
        digits_value(decimal_text(n)) == n,
    decreases n,
{
    if n < 10 {
        lemma_digit_char(n);
        assert(decimal_text(n).drop_last() =~= Seq::<char>::empty());
        assert(digits_value(Seq::<char>::empty()) == 0);
    } else {
        assert(n == (n / 10) * 10 + n % 10) by (nonlinear_arith);
        lemma_decimal_text(n / 10);
        lemma_digit_char(n % 10);
        let t = decimal_text(n);
        assert(t.drop_last() =~= decimal_text(n / 10));
        assert forall|i: int| 0 <= i < t.len() implies is_digit(#[trigger] t[i]) by {
            if i < t.len() - 1 {
                assert(t[i] == decimal_text(n / 10)[i]);
            }
        }
    }
}

proof fn lemma_decimal_field(n: nat)
    requires
        n <= u32::MAX,
    ensures
        trimmed(decimal_text(n)) == decimal_text(n),
        parsed_u32(trimmed(decimal_text(n))) == Some(n as u32),
        !decimal_text(n).contains(','),
        decimal_text(n).len() > 0,
{
    lemma_decimal_text(n);
    let t = decimal_text(n);
    assert(is_digit(t[0]) && is_digit(t.last()));
    assert(!is_ascii_space(t[0]) && !is_ascii_space(t.last()));
    assert(trim_start(t) == t);
    assert(trim_end(t) == t);
    assert(without_plus(t) == t);
    if t.contains(',') {
        let i = choose|i: int| 0 <= i < t.len() && t[i] == ',';
        assert(is_digit(t[i]));
    }
}

proof fn lemma_fields_nonempty(s: Seq<char>)
    ensures
        comma_fields(s).len() >= 1,
    decreases s.len(),
{
    if s.len() > 0 {
        lemma_fields_nonempty(s.drop_last());
    }
}

proof fn lemma_fields_append(s: Seq<char>, b: Seq<char>)
    requires
        !b.contains(','),
    ensures
        comma_fields(s + b) == comma_fields(s).update(
            comma_fields(s).len() - 1,
            comma_fields(s).last() + b,
        ),
    decreases b.len(),
{
    lemma_fields_nonempty(s);
    let f = comma_fields(s);
    if b.len() == 0 {
        assert(s + b =~= s);
        assert(f.last() + b =~= f.last());
        assert(f.update(f.len() - 1, f.last()) =~= f);
    } else {
        let b1 = b.drop_last();
        assert(!b1.contains(',')) by {
            if b1.contains(',') {
                let i = choose|i: int| 0 <= i < b1.len() && b1[i] == ',';
                assert(b[i] == ',');
            }
        }
        assert(b.last() != ',') by {
            assert(b[b.len() - 1] == b.last());
        }
        lemma_fields_append(s, b1);
        assert((s + b).drop_last() =~= s + b1);
        assert((s + b).last() == b.last());
        assert((f.last() + b1).push(b.last()) =~= f.last() + b);
        let rest = comma_fields(s + b1);
        assert(rest.last() == f.last() + b1);
        assert(rest.update(rest.len() - 1, rest.last().push(b.last())) =~= f.update(
            f.len() - 1,
            f.last() + b,
        ));
    }
}

proof fn lemma_csv_fields(tiles: Seq<u32>)
    requires
        tiles.len() > 0,
    ensures
        comma_fields(csv_text(tiles)) == Seq::new(
            tiles.len(),
            |i: int| decimal_text(tiles[i] as nat),
        ),
    decreases tiles.len(),
{
    let d = decimal_text(tiles.last() as nat);
    lemma_decimal_field(tiles.last() as nat);
    if tiles.len() == 1 {
        lemma_fields_append(Seq::empty(), d);
        assert(Seq::<char>::empty() + d =~= d);
        assert(Seq::<char>::empty() + d =~= csv_text(tiles));
        assert(comma_fields(Seq::<char>::empty()) == seq![Seq::<char>::empty()]);
        assert(comma_fields(csv_text(tiles)) =~= Seq::new(
            tiles.len(),
            |i: int| decimal_text(tiles[i] as nat),
        ));
    } else {
        let front = tiles.drop_last();
        lemma_csv_fields(front);
        let a = csv_text(front).push(',');
        lemma_fields_append(a, d);
        assert(a.drop_last() =~= csv_text(front));
        assert(a.last() == ',');
        let fa = comma_fields(a);
        assert(fa == comma_fields(csv_text(front)).push(Seq::<char>::empty()));
        assert(Seq::<char>::empty() + d =~= d);
        assert(comma_fields(csv_text(tiles)) =~= Seq::new(
            tiles.len(),
            |i: int| decimal_text(tiles[i] as nat),
        ));
    }
}

/// Decoding the csv text of a non-empty sequence of ids gives the same ids
/// back. (An empty sequence has the empty text, which is one empty field and
/// so not a payload of ids.)
pub proof fn lemma_csv_round_trip(tiles: Seq<u32>)
    requires
        tiles.len() > 0,
    ensures
        csv_tiles(csv_text(tiles)) == Some(tiles),
{
    lemma_csv_fields(tiles);
    let fields = comma_fields(csv_text(tiles));
    assert forall|i: int| 0 <= i < fields.len() implies #[trigger] parsed_u32(trimmed(fields[i]))
        == Some(tiles[i]) by {
        lemma_decimal_field(tiles[i] as nat);
    }
    assert(Seq::new(fields.len(), |i: int| parsed_u32(trimmed(fields[i]))->0) =~= tiles);
}

/// Every payload of ids decodes back to those ids under each encoding, given
/// what the outside decoders return: the csv text of a non-empty sequence, and
/// base64 text whose decoded and decompressed bytes are the ids'
/// little-endian bytes.
pub proof fn lemma_decode_round_trip(tiles: Seq<u32>, text: Seq<char>, encoding: TileEncoding)
    requires
        encoding is Csv ==> tiles.len() > 0 && text == csv_text(tiles),
        !(encoding is Csv) ==> payload_bytes(text, encoding) == Some(le_bytes(tiles)),
    ensures
        payload_tiles(text, encoding) == Some(tiles),
{
    if encoding is Csv {
        lemma_csv_round_trip(tiles);
    } else {
        lemma_le_round_trip(tiles);
    }
}

} // verus!
