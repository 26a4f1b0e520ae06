use vstd::prelude::*;

use crate::protocol::SyncServerInfo;
use crate::text::{chars_of, digit_char, digit_to_char, push_char, push_str};
use base64::Engine;
use vstd::string::{StringExecFns, StringSliceAdditionalSpecFns};

verus! {

/// Modulus that reduces a token's leading number to six decimal digits.
pub const CODE_MODULUS: u32 = 1_000_000;

/// Number of hex characters of a token that the connect code is taken from.
pub const CODE_HEX_CHARS: usize = 8;

/// The value of a hexadecimal digit, if `c` is one.
pub open spec fn hex_digit_value(c: char) -> Option<nat> {
    if '0' <= c && c <= '9' {
        Some((c as nat - '0' as nat) as nat)
    } else if 'a' <= c && c <= 'f' {
        Some((c as nat - 'a' as nat + 10) as nat)
    } else if 'A' <= c && c <= 'F' {
        Some((c as nat - 'A' as nat + 10) as nat)
    } else {
        None
    }
}

pub open spec fn all_hex(s: Seq<char>) -> bool {
    forall|i: int| 0 <= i < s.len() ==> (#[trigger] hex_digit_value(s[i])) is Some
}

/// The number that a sequence of hex digits denotes, most significant first.
pub open spec fn hex_number(s: Seq<char>) -> nat
    decreases s.len(),
{
    if s.len() == 0 {
        0
    } else {
        hex_number(s.drop_last()) * 16 + hex_digit_value(s.last()).unwrap_or(0)
    }
}

/// Unsigned 32-bit base-16 parsing: an optional `+` followed by one or more
/// hex digits whose value fits in 32 bits.
pub open spec fn parse_hex_u32(s: Seq<char>) -> Option<nat> {
    let digits = if s.len() > 0 && s[0] == '+' { s.drop_first() } else { s };
    if digits.len() > 0 && all_hex(digits) && hex_number(digits) <= u32::MAX {
        Some(hex_number(digits))
    } else {
        None
    }
}

/// A token with every `-` taken out.
pub open spec fn without_dashes(s: Seq<char>) -> Seq<char>
    decreases s.len(),
{
    if s.len() == 0 {
        s
    } else {
        let rest = without_dashes(s.drop_last());
        if s.last() == '-' {
            rest
        } else {
            rest.push(s.last())
        }
    }
}

/// The leading (at most) eight characters.
pub open spec fn leading_hex(s: Seq<char>) -> Seq<char> {
    if s.len() >= CODE_HEX_CHARS { s.subrange(0, CODE_HEX_CHARS as int) } else { s }
}

/// The number a token's connect code writes: its leading eight hex characters
/// (dashes removed) read as an unsigned 32-bit number, or 0 where they do not
/// parse, reduced modulo one million.
pub open spec fn connect_code_value(token: Seq<char>) -> nat {
    match parse_hex_u32(leading_hex(without_dashes(token))) {
        Some(v) => v % (CODE_MODULUS as nat),
        None => 0,
    }
}

/// `n` written in exactly six decimal digits, zero-padded.
pub open spec fn six_digits(n: nat) -> Seq<char> {
    seq![
        digit_char(n / 100000 % 10),
        digit_char(n / 10000 % 10),
        digit_char(n / 1000 % 10),
        digit_char(n / 100 % 10),
        digit_char(n / 10 % 10),
        digit_char(n % 10),
    ]
}

/// The six-digit connect code of a token.
pub open spec fn connect_code(token: Seq<char>) -> Seq<char> {
    six_digits(connect_code_value(token))
}

pub open spec fn is_decimal_digit(c: char) -> bool {
    '0' <= c && c <= '9'
}

/// Whether a presented credential authenticates against a session token:
/// it is the token itself or the token's connect code, character for character.
pub open spec fn token_accepted(presented: Seq<char>, token: Seq<char>) -> bool {
    presented == token || presented == connect_code(token)
}

fn hex_value_of(c: char) -> (r: Option<u32>)
    ensures
        r matches Some(v) ==> hex_digit_value(c) == Some(v as nat),
        r is None ==> hex_digit_value(c) is None,
{
    if '0' <= c && c <= '9' {
        Some((c as u32) - ('0' as u32))
    } else if 'a' <= c && c <= 'f' {
        Some((c as u32) - ('a' as u32) + 10)
    } else if 'A' <= c && c <= 'F' {
        Some((c as u32) - ('A' as u32) + 10)
    } else {
        None
    }
}

proof fn lemma_hex_number_bound(s: Seq<char>)
    requires
        all_hex(s),
    ensures
        hex_number(s) < pow16(s.len()),
    decreases s.len(),
{
    if s.len() > 0 {
        let init = s.drop_last();
        assert forall|i: int| 0 <= i < init.len() implies (#[trigger] hex_digit_value(init[i])) is Some by {
            assert(init[i] == s[i]);
        }
        lemma_hex_number_bound(init);
        assert(hex_digit_value(s[s.len() - 1]) is Some);
        let d = hex_digit_value(s.last()).unwrap_or(0);
        assert(d < 16);
        assert(hex_number(s) == hex_number(init) * 16 + d);
        assert(pow16(s.len()) == pow16(init.len()) * 16);
        assert(hex_number(init) * 16 + d < pow16(init.len()) * 16) by (nonlinear_arith)
            requires
                hex_number(init) < pow16(init.len()),
                d < 16,
        ;
    }
}

pub open spec fn pow16(n: nat) -> nat
    decreases n,
{
    if n == 0 { 1 } else { pow16((n - 1) as nat) * 16 }
}

/// `s[start..end]` read as hex digits, if every character is one.
fn parse_hex_digits(s: &Vec<char>, start: usize, end: usize) -> (r: Option<u32>)
    requires
        start <= end <= s.len(),
        end - start <= CODE_HEX_CHARS,
    ensures
        r matches Some(v) ==> all_hex(s@.subrange(start as int, end as int)) && v as nat == hex_number(s@.subrange(start as int, end as int)),
        r is None ==> !all_hex(s@.subrange(start as int, end as int)),
{
    let mut acc: u32 = 0;
    let mut i: usize = start;
    assert(pow16(0) == 1);
    while i < end
        invariant
            start <= i <= end <= s.len(),
            end - start <= CODE_HEX_CHARS,
            all_hex(s@.subrange(start as int, i as int)),
            acc as nat == hex_number(s@.subrange(start as int, i as int)),
        decreases end - i,
    {
        let ghost done = s@.subrange(start as int, i as int);
        let ghost next = s@.subrange(start as int, i + 1);
        assert(next.drop_last() == done);
        match hex_value_of(s[i]) {
            None => {
                assert(next[i - start] == s@[i as int]);
                assert(!all_hex(s@.subrange(start as int, end as int))) by {
                    assert(s@.subrange(start as int, end as int)[i - start] == s@[i as int]);
                }
                return None;
            },
            Some(d) => {
                assert forall|k: int| 0 <= k < next.len() implies (#[trigger] hex_digit_value(next[k])) is Some by {
                    if k < done.len() {
                        assert(next[k] == done[k]);
                    }
                }
                proof {
                    lemma_hex_number_bound(next);
                    lemma_pow16_le(next.len(), CODE_HEX_CHARS as nat);
                }
                proof { lemma_pow16_8(); }
                acc = acc * 16 + d;
                i += 1;
            },
        }
    }
    Some(acc)
}

proof fn lemma_pow16_le(a: nat, b: nat)
    requires
        a <= b,
    ensures
        pow16(a) <= pow16(b),
    decreases b,
{
    if a < b {
        lemma_pow16_le(a, (b - 1) as nat);
    }
}

proof fn lemma_pow16_8()
    ensures
        pow16(8) == 0x1_0000_0000nat,
{
    assert(pow16(0) == 1);
    assert(pow16(1) == 16);
    assert(pow16(2) == 256);
    assert(pow16(3) == 4096);
    assert(pow16(4) == 65536);
    assert(pow16(5) == 1048576);
    assert(pow16(6) == 16777216);
    assert(pow16(7) == 268435456);
}

/// Writes a number below one million as six zero-padded decimal digits.
fn six_digit_string(n: u32) -> (r: String)
    requires
        n < CODE_MODULUS,
    ensures
        r@ == six_digits(n as nat),
{
    let mut out = String::new();
    push_char(&mut out, digit_to_char(n / 100000 % 10));
    push_char(&mut out, digit_to_char(n / 10000 % 10));
    push_char(&mut out, digit_to_char(n / 1000 % 10));
    push_char(&mut out, digit_to_char(n / 100 % 10));
    push_char(&mut out, digit_to_char(n / 10 % 10));
    push_char(&mut out, digit_to_char(n % 10));
    assert(out@ =~= six_digits(n as nat));
    out
}

/// Derives the six-digit connect code of a session token: the leading eight
/// hex characters (dashes removed) as an unsigned 32-bit number, modulo one
/// million, zero-padded; a token whose leading characters are not hex gives
/// `000000`.
pub fn token_to_connect_code(token: &str) -> (r: String)
    ensures
        r@ == connect_code(token@),
        r@.len() == 6,
        forall|i: int| 0 <= i < 6 ==> is_decimal_digit(#[trigger] r@[i]),
{
    let chars = chars_of(token);
    let mut clean: Vec<char> = Vec::new();
    let mut i: usize = 0;
    while i < chars.len()
        invariant
            i <= chars.len(),
            chars@ == token@,
            clean@ == without_dashes(chars@.subrange(0, i as int)),
        decreases chars.len() - i,
    {
        assert(chars@.subrange(0, i + 1).drop_last() == chars@.subrange(0, i as int));
        if chars[i] != '-' {
            clean.push(chars[i]);
        }
        i += 1;
    }
    assert(chars@.subrange(0, chars.len() as int) == chars@);
    let end: usize = if clean.len() >= CODE_HEX_CHARS { CODE_HEX_CHARS } else { clean.len() };
    let ghost lead = leading_hex(clean@);
    assert(lead == clean@.subrange(0, end as int));
    let start: usize = if end > 0 && clean[0] == '+' { 1 } else { 0 };
    proof {
        if start == 1 {
            assert(lead.drop_first() == clean@.subrange(1, end as int));
        } else {
            assert(lead == clean@.subrange(0, end as int));
        }
    }
    let parsed = if start < end { parse_hex_digits(&clean, start, end) } else { None };
    let value: u32 = match parsed {
        Some(v) => v % CODE_MODULUS,
        None => 0,
    };
    let r = six_digit_string(value);
    proof {
        let n = value as nat;
        assert(n / 100000 % 10 < 10 && n / 10000 % 10 < 10 && n / 1000 % 10 < 10);
        assert(n / 100 % 10 < 10 && n / 10 % 10 < 10 && n % 10 < 10);
    }
    r
}

/// Whether `request_token` authenticates against `server_token`: it is the
/// token itself or its connect code, by exact match.
pub fn validate_token(request_token: &str, server_token: &str) -> (r: bool)
    ensures
        r == token_accepted(request_token@, server_token@),
{
    let presented = request_token.to_owned();
    if presented == server_token.to_owned() {
        return true;
    }
    presented == token_to_connect_code(server_token)
}

/// The session token and its connect code both authenticate, and nothing
/// else does unless it equals one of the two.
pub proof fn lemma_token_and_code_accepted(token: Seq<char>, other: Seq<char>)
    ensures
        token_accepted(token, token),
        token_accepted(connect_code(token), token),
        connect_code(token).len() == 6,
        other != token && other != connect_code(token) ==> !token_accepted(other, token),
{
}

/// Smallest width and height, in pixels, of the rendered pairing QR code.
pub const QR_MIN_PIXELS: u32 = 256;

/// Whether `qrcode` can encode `data` as a QR code (at its default error
/// correction level, in the smallest version that holds it).
pub uninterp spec fn qr_fits(data: Seq<u8>) -> bool;

/// The PNG that `qrcode` renders for `data` into an `image` grey-level
/// buffer of at least `min_px` pixels a side, written by `image`; `None`
/// where writing the PNG fails.
pub uninterp spec fn qr_png_of(data: Seq<u8>, min_px: u32) -> Option<Seq<u8>>;

/// The base64 digit of a six-bit value.
pub open spec fn base64_char(n: nat) -> char {
    if n < 26 {
        ((65 + n) as u8) as char
    } else if n < 52 {
        ((97 + n - 26) as u8) as char
    } else if n < 62 {
        ((48 + n - 52) as u8) as char
    } else if n == 62 {
        '+'
    } else {
        '/'
    }
}

/// Standard base64 with padding: each three bytes become four digits; a
/// final one or two bytes become two or three digits and `=` padding.
pub open spec fn base64_standard(b: Seq<u8>) -> Seq<char>
    decreases b.len(),
{
    if b.len() == 0 {
        Seq::empty()
    } else if b.len() == 1 {
        seq![base64_char(b[0] as nat / 4), base64_char((b[0] as nat % 4) * 16), '=', '=']
    } else if b.len() == 2 {
        seq![
            base64_char(b[0] as nat / 4),
            base64_char((b[0] as nat % 4) * 16 + b[1] as nat / 16),
            base64_char((b[1] as nat % 16) * 4),
            '=',
        ]
    } else {
        seq![
            base64_char(b[0] as nat / 4),
            base64_char((b[0] as nat % 4) * 16 + b[1] as nat / 16),
            base64_char((b[1] as nat % 16) * 4 + b[2] as nat / 64),
            base64_char(b[2] as nat % 64),
        ] + base64_standard(b.subrange(3, b.len() as int))
    }
}

/// A lowercase hex digit.
pub open spec fn hex_char(n: nat) -> char {
    if n < 10 { digit_char(n) } else { ((87 + n) as u8) as char }
}

/// Two lowercase hex digits per byte, in order.
pub open spec fn bytes_hex(b: Seq<u8>) -> Seq<char>
    decreases b.len(),
{
    if b.len() == 0 {
        Seq::empty()
    } else {
        bytes_hex(b.drop_last()) + seq![hex_char(b.last() as nat / 16), hex_char(b.last() as nat % 16)]
    }
}

/// Random bytes with the version-4 and RFC 4122 variant bits set.
pub open spec fn v4_bytes(b: Seq<u8>) -> Seq<u8> {
    b.update(6, (b[6] & 0x0f) | 0x40).update(8, (b[8] & 0x3f) | 0x80)
}

/// The hyphenated lowercase text of the version-4 UUID made from 16
/// random bytes.
pub open spec fn uuid_v4_text(b: Seq<u8>) -> Seq<char> {
    let h = bytes_hex(v4_bytes(b));
    h.subrange(0, 8) + seq!['-'] + h.subrange(8, 12) + seq!['-'] + h.subrange(12, 16) + seq!['-']
        + h.subrange(16, 20) + seq!['-'] + h.subrange(20, 32)
}

#[verifier::external_type_specification]
#[verifier::external_body]
pub struct ExQrCode(qrcode::QrCode);

/// A QR code, with the bytes it encodes.
pub struct QrSymbol {
    code: qrcode::QrCode,
    data: Ghost<Seq<u8>>,
}

impl QrSymbol {
    pub closed spec fn data(&self) -> Seq<u8> {
        self.data@
    }
}

/// Relies on `getrandom::fill`: 16 bytes from the operating system's random
/// source, or its error where that source fails.
#[verifier::external_body]
fn random_bytes() -> (r: Result<[u8; 16], String>) {
    let mut bytes = [0u8; 16];
    match getrandom::fill(&mut bytes) {
        Ok(()) => Ok(bytes),
        Err(e) => Err(e.to_string()),
    }
}

/// Relies on `uuid::Builder::from_random_bytes` and the `Display` of
/// `uuid::Uuid`: sets the version and variant bits and writes the UUID
/// hyphenated in lowercase.
#[verifier::external_body]
fn uuid_v4_of(bytes: [u8; 16]) -> (r: String)
    ensures
        r@ == uuid_v4_text(bytes@),
{
    uuid::Builder::from_random_bytes(bytes).into_uuid().to_string()
}

/// Relies on `qrcode::QrCode::new`: encodes bytes as a QR code, or says why
/// they do not fit.
#[verifier::external_body]
fn qr_encode(data: &[u8]) -> (r: Result<QrSymbol, String>)
    ensures
        r is Ok <==> qr_fits(data@),
        r matches Ok(q) ==> q.data() == data@,
{
    match qrcode::QrCode::new(data) {
        Ok(code) => Ok(QrSymbol { code, data: Ghost(data@) }),
        Err(e) => Err(e.to_string()),
    }
}

/// Relies on `qrcode::QrCode::render` into an `image` grey-level buffer of
/// at least `min_px` pixels a side, and on `image::ImageBuffer::write_to`
/// to write it as PNG.
#[verifier::external_body]
fn qr_png(q: &QrSymbol, min_px: u32) -> (r: Result<Vec<u8>, String>)
    requires
        min_px <= 1024,
    ensures
        r is Ok <==> qr_png_of(q.data(), min_px) is Some,
        r matches Ok(png) ==> qr_png_of(q.data(), min_px) == Some(png@),
{
    let image = q.code.render::<image::Luma<u8>>().min_dimensions(min_px, min_px).build();
    let mut buffer: Vec<u8> = Vec::new();
    image
        .write_to(&mut std::io::Cursor::new(&mut buffer), image::ImageFormat::Png)
        .map_err(|e| e.to_string())?;
    Ok(buffer)
}

/// Relies on `base64::engine::general_purpose::STANDARD.encode`.
#[verifier::external_body]
fn base64_encode(bytes: &Vec<u8>) -> (r: String)
    ensures
        r@ == base64_standard(bytes@),
{
    base64::engine::general_purpose::STANDARD.encode(bytes)
}

pub open spec fn token_error(detail: Seq<char>) -> Seq<char> {
    "Failed to generate session token: "@ + detail
}

/// A fresh session token: the text of a random version-4 UUID; an error
/// where the random source fails.
pub fn new_session_token() -> (r: Result<String, String>)
    ensures
        r matches Ok(t) ==> exists|b: Seq<u8>| b.len() == 16 && t@ == #[trigger] uuid_v4_text(b),
        r matches Err(m) ==> exists|d: Seq<char>| m@ == #[trigger] token_error(d),
{
    match random_bytes() {
        Ok(bytes) => {
            let t = uuid_v4_of(bytes);
            assert(bytes@.len() == 16);
            Ok(t)
        },
        Err(detail) => {
            let mut m = String::from_str("Failed to generate session token: ");
            push_str(&mut m, detail.as_str());
            assert(m@ == token_error(detail@));
            Err(m)
        },
    }
}

pub open spec fn qr_create_error(detail: Seq<char>) -> Seq<char> {
    "Failed to create QR code: "@ + detail
}

pub open spec fn qr_encode_error(detail: Seq<char>) -> Seq<char> {
    "Failed to encode QR code: "@ + detail
}

/// Renders `data` as a QR code PNG of at least `QR_MIN_PIXELS` a side and
/// returns the PNG in standard base64. It fails where the data does not
/// fit a QR code, or where writing the PNG fails.
pub fn generate_qr_code(data: &str) -> (r: Result<String, String>)
    ensures
        r is Ok <==> qr_fits(data.spec_bytes()) && qr_png_of(data.spec_bytes(), QR_MIN_PIXELS) is Some,
        r matches Ok(s) ==> s@ == base64_standard(qr_png_of(data.spec_bytes(), QR_MIN_PIXELS)->0),
        !qr_fits(data.spec_bytes()) ==> (r matches Err(m) && exists|d: Seq<char>| m@ == #[trigger] qr_create_error(d)),
        qr_fits(data.spec_bytes()) && qr_png_of(data.spec_bytes(), QR_MIN_PIXELS) is None ==> (r matches Err(m) && exists|d: Seq<char>| m@ == #[trigger] qr_encode_error(d)),
{
    let code = match qr_encode(data.as_bytes()) {
        Ok(c) => c,
        Err(detail) => {
            let mut m = String::from_str("Failed to create QR code: ");
            push_str(&mut m, detail.as_str());
            assert(m@ == qr_create_error(detail@));
            return Err(m);
        },
    };
    match qr_png(&code, QR_MIN_PIXELS) {
        Ok(png) => Ok(base64_encode(&png)),
        Err(detail) => {
            let mut m = String::from_str("Failed to encode QR code: ");
            push_str(&mut m, detail.as_str());
            assert(m@ == qr_encode_error(detail@));
            Err(m)
        },
    }
}

/// What a started server reports: where it is, its token, the QR image,
/// and the token's connect code.
pub fn server_info(ip: String, port: u16, token: String, qr_code_base64: String) -> (r: SyncServerInfo)
    ensures
        r.ip == ip,
        r.port == port,
        r.token == token,
        r.qr_code_base64 == qr_code_base64,
        r.connect_code@ == connect_code(token@),
{
    let connect_code = token_to_connect_code(token.as_str());
    SyncServerInfo { ip, port, token, qr_code_base64, connect_code }
}

} // verus!
