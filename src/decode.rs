//! Charset detection and decoding of raw NFO bytes into glyphs.
use vstd::prelude::*;
use vstd::utf8::{valid_utf8, decode_utf8, is_scalar};
use crate::charset::Charset;
use crate::cp437::{cp437, cp437_char, cp437_byte, cp437_inverse, lemma_cp437_round_trip_byte};

verus! {

/// The glyph that stands for an undecodable unit.
pub const REPLACEMENT: char = '\u{FFFD}';

/// The least number of art indices that counts as evidence of wrapped CP 437.
pub const MIN_EVIDENCE: usize = 4;

/// Why a strict decode failed.
#[derive(Clone, Copy, Debug, PartialEq, Eq, Structural)]
pub enum DecodeError {
    InvalidSequence,
}

/// What `String::from_utf8_lossy` makes of a byte sequence.
pub uninterp spec fn utf8_lossy_of(b: Seq<u8>) -> Seq<char>;

/// Relies on `std::str::from_utf8`: it succeeds exactly on well-formed UTF-8.
#[verifier::external_body]
fn utf8_valid(b: &[u8]) -> (r: bool)
    ensures
        r == valid_utf8(b@),
{
    std::str::from_utf8(b).is_ok()
}

/// Relies on `String::from_utf8_lossy`: each ill-formed sequence becomes
/// U+FFFD, and well-formed UTF-8 is decoded unchanged.
#[verifier::external_body]
fn utf8_lossy(b: &[u8]) -> (r: Vec<char>)
    ensures
        !valid_utf8(b@) ==> r@ == utf8_lossy_of(b@),
        valid_utf8(b@) ==> r@ == decode_utf8(b@),
{
    String::from_utf8_lossy(b).chars().collect()
}

/// Relies on `char::from_u32`: it gives the char of a Unicode scalar value, and nothing else.
#[verifier::external_body]
pub(crate) fn scalar_char(v: u32) -> (r: Option<char>)
    ensures
        is_scalar(v) ==> r == Some(v as char),
        !is_scalar(v) ==> r is None,
{
    char::from_u32(v)
}

/// The glyph that Windows-1252 assigns to a byte; its five unassigned bytes give U+FFFD.
pub open spec fn win1252(b: u8) -> char {
    if 0x80 <= b < 0xA0 {
        match b {
        0x80 => '\u{20AC}',
        0x81 => '\u{FFFD}',
        0x82 => '\u{201A}',
        0x83 => '\u{0192}',
        0x84 => '\u{201E}',
        0x85 => '\u{2026}',
        0x86 => '\u{2020}',
        0x87 => '\u{2021}',
        0x88 => '\u{02C6}',
        0x89 => '\u{2030}',
        0x8A => '\u{0160}',
        0x8B => '\u{2039}',
        0x8C => '\u{0152}',
        0x8D => '\u{FFFD}',
        0x8E => '\u{017D}',
        0x8F => '\u{FFFD}',
        0x90 => '\u{FFFD}',
        0x91 => '\u{2018}',
        0x92 => '\u{2019}',
        0x93 => '\u{201C}',
        0x94 => '\u{201D}',
        0x95 => '\u{2022}',
        0x96 => '\u{2013}',
        0x97 => '\u{2014}',
        0x98 => '\u{02DC}',
        0x99 => '\u{2122}',
        0x9A => '\u{0161}',
        0x9B => '\u{203A}',
        0x9C => '\u{0153}',
        0x9D => '\u{FFFD}',
        0x9E => '\u{017E}',
        0x9F => '\u{0178}',
            _ => REPLACEMENT,
        }
    } else {
        b as char
    }
}

fn win1252_char(b: u8) -> (c: char)
    ensures
        c == win1252(b),
{
    if 0x80 <= b && b < 0xA0 {
        match b {
            0x80 => '\u{20AC}',
            0x81 => '\u{FFFD}',
            0x82 => '\u{201A}',
            0x83 => '\u{0192}',
            0x84 => '\u{201E}',
            0x85 => '\u{2026}',
            0x86 => '\u{2020}',
            0x87 => '\u{2021}',
            0x88 => '\u{02C6}',
            0x89 => '\u{2030}',
            0x8A => '\u{0160}',
            0x8B => '\u{2039}',
            0x8C => '\u{0152}',
            0x8D => '\u{FFFD}',
            0x8E => '\u{017D}',
            0x8F => '\u{FFFD}',
            0x90 => '\u{FFFD}',
            0x91 => '\u{2018}',
            0x92 => '\u{2019}',
            0x93 => '\u{201C}',
            0x94 => '\u{201D}',
            0x95 => '\u{2022}',
            0x96 => '\u{2013}',
            0x97 => '\u{2014}',
            0x98 => '\u{02DC}',
            0x99 => '\u{2122}',
            0x9A => '\u{0161}',
            0x9B => '\u{203A}',
            0x9C => '\u{0153}',
            0x9D => '\u{FFFD}',
            0x9E => '\u{017E}',
            0x9F => '\u{0178}',
            _ => REPLACEMENT,
        }
    } else {
        b as char
    }
}

/// Each byte read as the codepoint of the same value.
pub open spec fn latin1_text(b: Seq<u8>) -> Seq<char> {
    b.map_values(|x: u8| x as char)
}

/// Each byte decoded under CP 437.
pub open spec fn cp437_text(b: Seq<u8>) -> Seq<char> {
    b.map_values(|x: u8| cp437(x))
}

/// Each byte decoded under Windows-1252.
pub open spec fn win1252_text(b: Seq<u8>) -> Seq<char> {
    b.map_values(|x: u8| win1252(x))
}

/// A codepoint below 0x100 read once more as a CP 437 index; others stay.
pub open spec fn reinterpret(c: char) -> char {
    if (c as u32) < 0x100 {
        cp437((c as u32) as u8)
    } else {
        c
    }
}

/// A text with each glyph read once more as a CP 437 index.
pub open spec fn reinterpret_text(s: Seq<char>) -> Seq<char> {
    s.map_values(|c: char| reinterpret(c))
}

/// A codepoint of the Latin-1 upper half.
pub open spec fn is_high(c: char) -> bool {
    0x80 <= c as u32 <= 0xFF
}

/// A codepoint whose value, as a CP 437 index, is a shading, box or block glyph.
pub open spec fn is_art_index(c: char) -> bool {
    0xB0 <= c as u32 <= 0xDF
}

/// How many glyphs of `s` are art indices.
pub open spec fn art_count(s: Seq<char>) -> nat
    decreases s.len(),
{
    if s.len() == 0 {
        0
    } else {
        art_count(s.drop_last()) + if is_art_index(s.last()) { 1nat } else { 0nat }
    }
}

/// How many glyphs of `s` lie in the Latin-1 upper half.
pub open spec fn high_count(s: Seq<char>) -> nat
    decreases s.len(),
{
    if s.len() == 0 {
        0
    } else {
        high_count(s.drop_last()) + if is_high(s.last()) { 1nat } else { 0nat }
    }
}

/// Every glyph of `s` is below 0x100.
pub open spec fn all_latin1(s: Seq<char>) -> bool {
    forall|i: int| 0 <= i < s.len() ==> (#[trigger] s[i] as u32) < 0x100
}

/// The upper-half codepoints of `s` read as CP 437 art: at least `MIN_EVIDENCE`
/// art indices, and more art indices than other upper-half codepoints.
pub open spec fn cp437_evidence(s: Seq<char>) -> bool {
    art_count(s) >= MIN_EVIDENCE && art_count(s) > high_count(s) - art_count(s)
}

/// `s` is CP 437 art wrapped in one more layer.
pub open spec fn wrapped(s: Seq<char>) -> bool {
    all_latin1(s) && cp437_evidence(s)
}

/// The UTF-16 code unit at byte offset `i`, big-endian when `be`.
pub open spec fn unit_at(b: Seq<u8>, i: int, be: bool) -> u32 {
    if be {
        (256 * b[i] + b[i + 1]) as u32
    } else {
        (b[i] + 256 * b[i + 1]) as u32
    }
}

/// UTF-16 decoding, big-endian when `be`: a surrogate pair gives one glyph,
/// a lone surrogate or a lone last byte gives U+FFFD.
pub open spec fn utf16_decode(b: Seq<u8>, be: bool) -> Seq<char>
    decreases b.len(),
{
    if b.len() == 0 {
        Seq::empty()
    } else if b.len() == 1 {
        seq![REPLACEMENT]
    } else {
        let u = unit_at(b, 0, be);
        if 0xD800 <= u < 0xDC00 && b.len() >= 4 && 0xDC00 <= unit_at(b, 2, be) < 0xE000 {
            seq![((0x10000 + (u - 0xD800) * 0x400 + (unit_at(b, 2, be) - 0xDC00)) as u32) as char]
                + utf16_decode(b.subrange(4, b.len() as int), be)
        } else if 0xD800 <= u < 0xE000 {
            seq![REPLACEMENT] + utf16_decode(b.subrange(2, b.len() as int), be)
        } else {
            seq![u as char] + utf16_decode(b.subrange(2, b.len() as int), be)
        }
    }
}

/// The bytes begin with the UTF-16 big-endian byte-order mark.
pub open spec fn has_bom16_be(b: Seq<u8>) -> bool {
    b.len() >= 2 && b[0] == 0xFE && b[1] == 0xFF
}

/// The bytes begin with a UTF-16 byte-order mark, little- or big-endian.
pub open spec fn has_bom16(b: Seq<u8>) -> bool {
    (b.len() >= 2 && b[0] == 0xFF && b[1] == 0xFE) || has_bom16_be(b)
}

/// The glyphs of UTF-16 bytes: after a byte-order mark in its byte order,
/// little-endian where there is none.
pub open spec fn utf16_text(b: Seq<u8>) -> Seq<char> {
    if has_bom16(b) {
        utf16_decode(b.subrange(2, b.len() as int), has_bom16_be(b))
    } else {
        utf16_decode(b, false)
    }
}

/// The bytes begin with the UTF-8 signature.
pub open spec fn has_sig8(b: Seq<u8>) -> bool {
    b.len() >= 3 && b[0] == 0xEF && b[1] == 0xBB && b[2] == 0xBF
}

/// The bytes after a UTF-8 signature, if there is one.
pub open spec fn body8(b: Seq<u8>) -> Seq<u8> {
    if has_sig8(b) { b.subrange(3, b.len() as int) } else { b }
}

/// The charset of a byte stream. The first test that holds decides:
/// a UTF-16 byte-order mark (CP 437 inside it when its text is wrapped art);
/// a UTF-8 signature; well-formed UTF-8, unwrapped up to two times while the
/// text reads as wrapped art; CP 437 whose glyphs are themselves wrapped art;
/// CP 437 when the upper-half bytes read as art; Windows-1252 otherwise.
pub open spec fn detect_spec(b: Seq<u8>) -> Charset {
    if has_bom16(b) {
        if wrapped(utf16_text(b)) {
            Charset::Cp437InUtf16
        } else {
            Charset::Utf16
        }
    } else if has_sig8(b) {
        Charset::Utf8Sig
    } else if valid_utf8(b) {
        let s = decode_utf8(b);
        if all_latin1(s) && wrapped(reinterpret_text(s)) {
            Charset::Cp437InCp437InUtf8
        } else if wrapped(s) {
            Charset::Cp437InUtf8
        } else {
            Charset::Utf8
        }
    } else if wrapped(cp437_text(b)) {
        Charset::Cp437InCp437
    } else if cp437_evidence(latin1_text(b)) {
        Charset::Cp437
    } else {
        Charset::Windows1252
    }
}

/// UTF-8 decoding that gives U+FFFD for ill-formed sequences.
pub open spec fn utf8_text(b: Seq<u8>) -> Seq<char> {
    if valid_utf8(b) {
        decode_utf8(b)
    } else {
        utf8_lossy_of(b)
    }
}

/// The glyphs of a byte stream under a charset: the outer container is
/// decoded first, then each nesting level reads the glyphs as CP 437 indices once more.
pub open spec fn decode_spec(b: Seq<u8>, cs: Charset) -> Seq<char> {
    match cs {
        Charset::Utf16 => utf16_text(b),
        Charset::Cp437InUtf16 => reinterpret_text(utf16_text(b)),
        Charset::Utf8Sig => utf8_text(body8(b)),
        Charset::Utf8 => utf8_text(b),
        Charset::Cp437InUtf8 => reinterpret_text(utf8_text(b)),
        Charset::Cp437InCp437InUtf8 => reinterpret_text(reinterpret_text(utf8_text(b))),
        Charset::Cp437 => cp437_text(b),
        Charset::Cp437Strict => cp437_text(b),
        Charset::Cp437InCp437 => reinterpret_text(cp437_text(b)),
        Charset::Windows1252 => win1252_text(b),
    }
}

/// A byte that strict CP 437 refuses: a control byte other than tab, line
/// feed and carriage return.
pub open spec fn strict_invalid(x: u8) -> bool {
    (x < 0x20 && x != 0x09 && x != 0x0A && x != 0x0D) || x == 0x7F
}


/// Decodes bytes under CP 437.
fn cp437_all(b: &[u8]) -> (r: Vec<char>)
    ensures
        r@ == cp437_text(b@),
{
    let mut out: Vec<char> = Vec::new();
    let n = b.len();
    for i in 0..n
        invariant
            n == b@.len(),
            out@ == cp437_text(b@.take(i as int)),
    {
        out.push(cp437_char(b[i]));
        assert(out@ =~= cp437_text(b@.take(i + 1)));
    }
    assert(b@.take(n as int) =~= b@);
    out
}

/// Decodes bytes under Windows-1252.
fn win1252_all(b: &[u8]) -> (r: Vec<char>)
    ensures
        r@ == win1252_text(b@),
{
    let mut out: Vec<char> = Vec::new();
    let n = b.len();
    for i in 0..n
        invariant
            n == b@.len(),
            out@ == win1252_text(b@.take(i as int)),
    {
        out.push(win1252_char(b[i]));
        assert(out@ =~= win1252_text(b@.take(i + 1)));
    }
    assert(b@.take(n as int) =~= b@);
    out
}

/// Reads bytes as Latin-1 codepoints.
fn latin1_all(b: &[u8]) -> (r: Vec<char>)
    ensures
        r@ == latin1_text(b@),
{
    let mut out: Vec<char> = Vec::new();
    let n = b.len();
    for i in 0..n
        invariant
            n == b@.len(),
            out@ == latin1_text(b@.take(i as int)),
    {
        out.push(b[i] as char);
        assert(out@ =~= latin1_text(b@.take(i + 1)));
    }
    assert(b@.take(n as int) =~= b@);
    out
}

/// Reads every glyph below 0x100 once more as a CP 437 index.
fn reinterpret_all(s: &Vec<char>) -> (r: Vec<char>)
    ensures
        r@ == reinterpret_text(s@),
{
    let mut out: Vec<char> = Vec::new();
    let n = s.len();
    for i in 0..n
        invariant
            n == s@.len(),
            out@ == reinterpret_text(s@.take(i as int)),
    {
        let c = s[i];
        let v = c as u32;
        if v < 0x100 {
            out.push(cp437_char(v as u8));
        } else {
            out.push(c);
        }
        assert(out@ =~= reinterpret_text(s@.take(i + 1)));
    }
    assert(s@.take(n as int) =~= s@);
    out
}

/// Tests that every glyph is below 0x100.
fn latin1_only(s: &Vec<char>) -> (r: bool)
    ensures
        r == all_latin1(s@),
{
    let n = s.len();
    for i in 0..n
        invariant
            n == s@.len(),
            forall|k: int| 0 <= k < i ==> (#[trigger] s@[k] as u32) < 0x100,
    {
        if s[i] as u32 >= 0x100 {
            return false;
        }
    }
    true
}

/// Tests a text for evidence of CP 437 art in its upper-half codepoints.
fn has_cp437_evidence(s: &Vec<char>) -> (r: bool)
    ensures
        r == cp437_evidence(s@),
{
    let mut art: usize = 0;
    let mut high: usize = 0;
    let n = s.len();
    for i in 0..n
        invariant
            n == s@.len(),
            art == art_count(s@.take(i as int)),
            high == high_count(s@.take(i as int)),
            art <= high <= i,
    {
        assert(s@.take(i + 1).drop_last() =~= s@.take(i as int));
        let v = s[i] as u32;
        if 0x80 <= v && v <= 0xFF {
            high = high + 1;
        }
        if 0xB0 <= v && v <= 0xDF {
            art = art + 1;
        }
    }
    assert(s@.take(n as int) =~= s@);
    art >= MIN_EVIDENCE && art > high - art
}

/// Tests a text for wrapped CP 437 art.
fn is_wrapped(s: &Vec<char>) -> (r: bool)
    ensures
        r == wrapped(s@),
{
    latin1_only(s) && has_cp437_evidence(s)
}

/// Reads the UTF-16 code unit at byte offset `i`.
fn read_unit(b: &[u8], i: usize, be: bool) -> (u: u32)
    requires
        i + 1 < b@.len(),
    ensures
        u == unit_at(b@, i as int, be),
        u < 0x10000,
{
    if be {
        256 * (b[i] as u32) + b[i + 1] as u32
    } else {
        b[i] as u32 + 256 * (b[i + 1] as u32)
    }
}

/// Decodes UTF-16 from byte offset `start` on, big-endian when `be`.
fn utf16_all(b: &[u8], start: usize, be: bool) -> (r: Vec<char>)
    requires
        start <= b@.len(),
    ensures
        r@ == utf16_decode(b@.subrange(start as int, b@.len() as int), be),
{
    let n = b.len();
    let mut out: Vec<char> = Vec::new();
    let mut i: usize = start;
    while i < n
        invariant
            n == b@.len(),
            start <= i <= n,
            out@ + utf16_decode(b@.subrange(i as int, n as int), be)
                == utf16_decode(b@.subrange(start as int, n as int), be),
        decreases n - i,
    {
        let ghost rest = b@.subrange(i as int, n as int);
        if n - i == 1 {
            out.push(REPLACEMENT);
            assert(b@.subrange(n as int, n as int) =~= Seq::<u8>::empty());
            assert(out@ =~= out@.drop_last() + utf16_decode(rest, be));
            i = n;
        } else {
            let u = read_unit(b, i, be);
            assert(u == unit_at(rest, 0, be));
            let mut paired = false;
            if 0xD800 <= u && u < 0xDC00 && n - i >= 4 {
                let u2 = read_unit(b, i + 2, be);
                assert(u2 == unit_at(rest, 2, be));
                if 0xDC00 <= u2 && u2 < 0xE000 {
                    let v = 0x10000 + (u - 0xD800) * 0x400 + (u2 - 0xDC00);
                    let c = scalar_char(v);
                    match c {
                        Some(ch) => out.push(ch),
                        None => out.push(REPLACEMENT),
                    }
                    assert(rest.subrange(4, rest.len() as int) =~= b@.subrange(i + 4, n as int));
                    i = i + 4;
                    paired = true;
                }
            }
            if !paired {
                if 0xD800 <= u && u < 0xE000 {
                    out.push(REPLACEMENT);
                } else {
                    match scalar_char(u) {
                        Some(ch) => out.push(ch),
                        None => out.push(REPLACEMENT),
                    }
                }
                assert(rest.subrange(2, rest.len() as int) =~= b@.subrange(i + 2, n as int));
                i = i + 2;
            }
        }
    }
    assert(b@.subrange(n as int, n as int) =~= Seq::<u8>::empty());
    assert(out@ + Seq::<char>::empty() =~= out@);
    out
}


/// Detects the charset of a byte stream. Total: every stream, the empty one
/// included, gets exactly one charset.
pub fn detect(b: &[u8]) -> (r: Charset)
    ensures
        r == detect_spec(b@),
{
    let n = b.len();
    if n >= 2 && ((b[0] == 0xFF && b[1] == 0xFE) || (b[0] == 0xFE && b[1] == 0xFF)) {
        let t = utf16_all(b, 2, b[0] == 0xFE);
        if is_wrapped(&t) {
            Charset::Cp437InUtf16
        } else {
            Charset::Utf16
        }
    } else if n >= 3 && b[0] == 0xEF && b[1] == 0xBB && b[2] == 0xBF {
        Charset::Utf8Sig
    } else if utf8_valid(b) {
        let s = utf8_lossy(b);
        if latin1_only(&s) && is_wrapped(&reinterpret_all(&s)) {
            Charset::Cp437InCp437InUtf8
        } else if is_wrapped(&s) {
            Charset::Cp437InUtf8
        } else {
            Charset::Utf8
        }
    } else if is_wrapped(&cp437_all(b)) {
        Charset::Cp437InCp437
    } else if has_cp437_evidence(&latin1_all(b)) {
        Charset::Cp437
    } else {
        Charset::Windows1252
    }
}

/// Tests for a byte that strict CP 437 refuses.
fn find_strict_invalid(b: &[u8]) -> (r: bool)
    ensures
        r == exists|i: int| 0 <= i < b@.len() && strict_invalid(#[trigger] b@[i]),
{
    let n = b.len();
    for i in 0..n
        invariant
            n == b@.len(),
            forall|k: int| 0 <= k < i ==> !strict_invalid(#[trigger] b@[k]),
    {
        let x = b[i];
        if (x < 0x20 && x != 0x09 && x != 0x0A && x != 0x0D) || x == 0x7F {
            assert(strict_invalid(b@[i as int]));
            return true;
        }
    }
    false
}

/// Decodes a byte stream under a charset, removing a leading byte-order mark
/// or signature where the charset has one. Only strict CP 437 can fail: it
/// refuses a stream that holds a control byte other than tab, line feed and
/// carriage return. Every other decode consumes the whole stream and gives
/// U+FFFD for each unit it cannot decode.
pub fn decode(b: &[u8], cs: Charset) -> (r: Result<Vec<char>, DecodeError>)
    ensures
        r is Err <==> (cs == Charset::Cp437Strict
            && exists|i: int| 0 <= i < b@.len() && strict_invalid(#[trigger] b@[i])),
        r is Err ==> r == Err::<Vec<char>, DecodeError>(DecodeError::InvalidSequence),
        r is Ok ==> r->Ok_0@ == decode_spec(b@, cs),
{
    let n = b.len();
    match cs {
        Charset::Utf16 | Charset::Cp437InUtf16 => {
            let bom = n >= 2 && ((b[0] == 0xFF && b[1] == 0xFE) || (b[0] == 0xFE && b[1] == 0xFF));
            let start: usize = if bom { 2 } else { 0 };
            assert(b@.subrange(0, n as int) =~= b@);
            let t = utf16_all(b, start, bom && b[0] == 0xFE);
            if cs == Charset::Utf16 {
                Ok(t)
            } else {
                Ok(reinterpret_all(&t))
            }
        },
        Charset::Utf8Sig => {
            if n >= 3 && b[0] == 0xEF && b[1] == 0xBB && b[2] == 0xBF {
                let rest = vstd::slice::slice_subrange(b, 3, n);
                Ok(utf8_lossy(rest))
            } else {
                Ok(utf8_lossy(b))
            }
        },
        Charset::Utf8 => Ok(utf8_lossy(b)),
        Charset::Cp437InUtf8 => Ok(reinterpret_all(&utf8_lossy(b))),
        Charset::Cp437InCp437InUtf8 => Ok(reinterpret_all(&reinterpret_all(&utf8_lossy(b)))),
        Charset::Cp437 => Ok(cp437_all(b)),
        Charset::Cp437Strict => {
            if find_strict_invalid(b) {
                Err(DecodeError::InvalidSequence)
            } else {
                Ok(cp437_all(b))
            }
        },
        Charset::Cp437InCp437 => Ok(reinterpret_all(&cp437_all(b))),
        Charset::Windows1252 => Ok(win1252_all(b)),
    }
}

} // verus!

verus! {

/// Detection is total and gives the empty stream a charset, UTF-8, under
/// which it decodes to no glyphs.
pub proof fn lemma_detect_empty()
    ensures
        detect_spec(Seq::empty()) == Charset::Utf8,
        decode_spec(Seq::empty(), Charset::Utf8) == Seq::<char>::empty(),
{
    let e = Seq::<u8>::empty();
    assert(valid_utf8(e));
    assert(decode_utf8(e) =~= Seq::<char>::empty());
    assert(art_count(Seq::<char>::empty()) == 0);
}

/// Glyphs re-encoded under CP 437: `None` when one is outside the table.
pub open spec fn cp437_encoded(s: Seq<char>) -> Option<Seq<u8>> {
    if forall|i: int| 0 <= i < s.len() ==> (#[trigger] cp437_inverse(s[i])) is Some {
        Some(s.map_values(|c: char| cp437_inverse(c)->Some_0))
    } else {
        None
    }
}

/// Encodes glyphs under the CP 437 table.
pub fn encode_cp437(s: &Vec<char>) -> (r: Option<Vec<u8>>)
    ensures
        r is None <==> cp437_encoded(s@) is None,
        r is Some ==> cp437_encoded(s@) == Some(r->Some_0@),
{
    let mut out: Vec<u8> = Vec::new();
    let n = s.len();
    for i in 0..n
        invariant
            n == s@.len(),
            forall|k: int| 0 <= k < i ==> (#[trigger] cp437_inverse(s@[k])) is Some,
            out@ == s@.take(i as int).map_values(|c: char| cp437_inverse(c)->Some_0),
    {
        match cp437_byte(s[i]) {
            Some(x) => out.push(x),
            None => {
                return None;
            },
        }
        assert(out@ =~= s@.take(i + 1).map_values(|c: char| cp437_inverse(c)->Some_0));
    }
    assert(s@.take(n as int) =~= s@);
    Some(out)
}

/// Decoding bytes under CP 437 and re-encoding the glyphs under the same
/// table gives the bytes back.
pub proof fn lemma_cp437_round_trip(b: Seq<u8>)
    ensures
        cp437_encoded(cp437_text(b)) == Some(b),
{
    let s = cp437_text(b);
    assert forall|i: int| 0 <= i < s.len() implies (#[trigger] cp437_inverse(s[i])) is Some by {
        lemma_cp437_round_trip_byte(b[i]);
    }
    assert forall|i: int| 0 <= i < s.len() implies s.map_values(|c: char| cp437_inverse(c)->Some_0)[i] == b[i] by {
        lemma_cp437_round_trip_byte(b[i]);
    }
    assert(s.map_values(|c: char| cp437_inverse(c)->Some_0) =~= b);
}

} // verus!
