//! Compiling a textual partition identifier into its binary form.
//!
//! The identifier is written as 36 characters in five hyphen-separated
//! groups of hex digits (`8-4-4-4-12`). Its binary form is 16 bytes with
//! a mixed-endian layout: the first three groups are stored with their
//! bytes reversed (little-endian), the last two groups in textual order.
//! Decoding is total over well-formed literals and rejects anything
//! else, so that a misconfigured identifier can never reach the runtime
//! pipeline silently.

use vstd::prelude::*;

verus! {

/// A 128-bit unique partition identifier in its canonical binary form.
#[derive(Debug, PartialEq, Eq)]
pub struct Guid {
    pub bytes: Vec<u8>,
}

impl Guid {
    /// The binary form is exactly 16 bytes.
    pub open spec fn wf(&self) -> bool {
        self.bytes@.len() == 16
    }
}

/// Why a literal failed to decode.
#[derive(Clone, Copy, Debug, PartialEq, Eq, Structural)]
pub enum GuidParseError {
    /// The literal is not exactly 36 characters long.
    BadLength,
    /// A hyphen is missing from one of the four fixed group boundaries.
    BadSeparator,
    /// A character in a digit position is not a hexadecimal digit.
    BadDigit,
}

/// The four fixed hyphen positions of the `8-4-4-4-12` layout.
pub open spec fn is_separator_index(i: int) -> bool {
    i == 8 || i == 13 || i == 18 || i == 23
}

/// ASCII hexadecimal digit, either case.
pub open spec fn is_hex_digit(c: u8) -> bool {
    (48 <= c && c <= 57) || (97 <= c && c <= 102) || (65 <= c && c <= 70)
}

/// Numeric value of a hexadecimal digit.
pub open spec fn hex_val_spec(c: u8) -> u8 {
    if 48 <= c && c <= 57 {
        (c - 48) as u8
    } else if 97 <= c && c <= 102 {
        (c - 97 + 10) as u8
    } else {
        (c - 65 + 10) as u8
    }
}

/// The byte written as the digit pair `hi lo`.
pub open spec fn hex_byte_spec(hi: u8, lo: u8) -> u8 {
    (hex_val_spec(hi) * 16 + hex_val_spec(lo)) as u8
}

/// All four group boundaries carry a hyphen.
pub open spec fn separators_ok(s: Seq<u8>) -> bool {
    s.len() == 36 && s[8] == 45 && s[13] == 45 && s[18] == 45 && s[23] == 45
}

/// Every non-hyphen position carries a hexadecimal digit.
pub open spec fn digits_ok(s: Seq<u8>) -> bool {
    forall|i: int| 0 <= i < 36 && !is_separator_index(i) ==> is_hex_digit(#[trigger] s[i])
}

/// A well-formed 36-character hyphenated identifier literal.
pub open spec fn valid_literal(s: Seq<u8>) -> bool {
    s.len() == 36 && separators_ok(s) && digits_ok(s)
}

/// A well-formed literal whose letter digits are all lower case: the
/// form that [`encode_spec`] produces.
pub open spec fn canonical_literal(s: Seq<u8>) -> bool {
    valid_literal(s) && forall|i: int| 0 <= i < 36 && !is_separator_index(i) ==> !(65
        <= #[trigger] s[i] && s[i] <= 70)
}

/// The byte encoded at the digit pair `(hi, lo)` of a literal.
pub open spec fn byte_at(s: Seq<u8>, hi: int, lo: int) -> u8 {
    hex_byte_spec(s[hi], s[lo])
}

/// The 16-byte binary form of a literal: the first three groups with
/// bytes reversed, the last two in textual order.
pub open spec fn decode_spec(s: Seq<u8>) -> Seq<u8> {
    seq![
        byte_at(s, 6, 7),
        byte_at(s, 4, 5),
        byte_at(s, 2, 3),
        byte_at(s, 0, 1),
        byte_at(s, 11, 12),
        byte_at(s, 9, 10),
        byte_at(s, 16, 17),
        byte_at(s, 14, 15),
        byte_at(s, 19, 20),
        byte_at(s, 21, 22),
        byte_at(s, 24, 25),
        byte_at(s, 26, 27),
        byte_at(s, 28, 29),
        byte_at(s, 30, 31),
        byte_at(s, 32, 33),
        byte_at(s, 34, 35),
    ]
}

/// The lower-case digit character for a value below 16.
pub open spec fn hex_char(v: u8) -> u8 {
    if v < 10 {
        (48 + v) as u8
    } else {
        (97 + (v - 10)) as u8
    }
}

/// The two digit characters of one byte.
pub open spec fn enc_byte(b: u8) -> Seq<u8> {
    seq![hex_char(b / 16), hex_char(b % 16)]
}

/// The canonical 36-character text form of a 16-byte binary identifier,
/// inverting the mixed-endian layout of [`decode_spec`].
pub open spec fn encode_spec(g: Seq<u8>) -> Seq<u8> {
    enc_byte(g[3]) + enc_byte(g[2]) + enc_byte(g[1]) + enc_byte(g[0]) + seq![45] + enc_byte(
        g[5],
    ) + enc_byte(g[4]) + seq![45] + enc_byte(g[7]) + enc_byte(g[6]) + seq![45] + enc_byte(
        g[8],
    ) + enc_byte(g[9]) + seq![45] + enc_byte(g[10]) + enc_byte(g[11]) + enc_byte(g[12])
        + enc_byte(g[13]) + enc_byte(g[14]) + enc_byte(g[15])
}

/// Whether one character is a hexadecimal digit.
fn is_hex(c: u8) -> (r: bool)
    ensures
        r == is_hex_digit(c),
{
    (48 <= c && c <= 57) || (97 <= c && c <= 102) || (65 <= c && c <= 70)
}

/// Numeric value of one hexadecimal digit.
fn hex_val(c: u8) -> (r: u8)
    requires
        is_hex_digit(c),
    ensures
        r == hex_val_spec(c),
{
    if 48 <= c && c <= 57 {
        c - 48
    } else if 97 <= c && c <= 102 {
        c - 97 + 10
    } else {
        c - 65 + 10
    }
}

/// The byte written as the digit pair `hi lo`.
fn hex_byte(hi: u8, lo: u8) -> (r: u8)
    requires
        is_hex_digit(hi),
        is_hex_digit(lo),
    ensures
        r == hex_byte_spec(hi, lo),
{
    hex_val(hi) * 16 + hex_val(lo)
}

impl Guid {
    /// Decode a hyphenated identifier literal into its binary form.
    ///
    /// Succeeds exactly on well-formed literals, and reports which of
    /// the three shape constraints failed otherwise: length first, then
    /// the hyphen positions, then the digit positions.
    pub fn parse(text: &[u8]) -> (r: Result<Guid, GuidParseError>)
        ensures
            r is Ok <==> valid_literal(text@),
            r matches Ok(g) ==> g.wf() && g.bytes@ == decode_spec(text@),
            r == Err::<Guid, GuidParseError>(GuidParseError::BadLength) <==> text@.len() != 36,
            r == Err::<Guid, GuidParseError>(GuidParseError::BadSeparator) <==> text@.len() == 36
                && !separators_ok(text@),
            r == Err::<Guid, GuidParseError>(GuidParseError::BadDigit) <==> text@.len() == 36
                && separators_ok(text@) && !digits_ok(text@),
    {
        if text.len() != 36 {
            return Err(GuidParseError::BadLength);
        }
        if text[8] != 45 || text[13] != 45 || text[18] != 45 || text[23] != 45 {
            return Err(GuidParseError::BadSeparator);
        }
        let mut i: usize = 0;
        while i < 36
            invariant
                text@.len() == 36,
                separators_ok(text@),
                i <= 36,
                forall|j: int| 0 <= j < i && !is_separator_index(j) ==> is_hex_digit(
                    #[trigger] text@[j],
                ),
            decreases 36 - i,
        {
            if i != 8 && i != 13 && i != 18 && i != 23 {
                if !is_hex(text[i]) {
                    return Err(GuidParseError::BadDigit);
                }
            }
            i += 1;
        }
        let bytes: Vec<u8> = vec![
            hex_byte(text[6], text[7]),
            hex_byte(text[4], text[5]),
            hex_byte(text[2], text[3]),
            hex_byte(text[0], text[1]),
            hex_byte(text[11], text[12]),
            hex_byte(text[9], text[10]),
            hex_byte(text[16], text[17]),
            hex_byte(text[14], text[15]),
            hex_byte(text[19], text[20]),
            hex_byte(text[21], text[22]),
            hex_byte(text[24], text[25]),
            hex_byte(text[26], text[27]),
            hex_byte(text[28], text[29]),
            hex_byte(text[30], text[31]),
            hex_byte(text[32], text[33]),
            hex_byte(text[34], text[35]),
        ];
        proof {
            assert(bytes@ =~= decode_spec(text@));
        }
        Ok(Guid { bytes })
    }

    /// The lower-case digit character for a value below 16.
    fn hex_char_x(v: u8) -> (r: u8)
        requires
            v < 16,
        ensures
            r == hex_char(v),
    {
        if v < 10 {
            48 + v
        } else {
            97 + (v - 10)
        }
    }

    /// Append the two digit characters of one byte.
    fn push_hex(out: &mut Vec<u8>, b: u8)
        ensures
            final(out)@ == old(out)@ + enc_byte(b),
    {
        out.push(Self::hex_char_x(b / 16));
        out.push(Self::hex_char_x(b % 16));
        proof {
            assert(out@ =~= old(out)@ + enc_byte(b));
        }
    }

    /// Re-encode the binary form into its canonical lower-case literal.
    pub fn encode(&self) -> (r: Vec<u8>)
        requires
            self.wf(),
        ensures
            r@ == encode_spec(self.bytes@),
    {
        let mut out: Vec<u8> = Vec::new();
        Self::push_hex(&mut out, self.bytes[3]);
        Self::push_hex(&mut out, self.bytes[2]);
        Self::push_hex(&mut out, self.bytes[1]);
        Self::push_hex(&mut out, self.bytes[0]);
        out.push(45);
        Self::push_hex(&mut out, self.bytes[5]);
        Self::push_hex(&mut out, self.bytes[4]);
        out.push(45);
        Self::push_hex(&mut out, self.bytes[7]);
        Self::push_hex(&mut out, self.bytes[6]);
        out.push(45);
        Self::push_hex(&mut out, self.bytes[8]);
        Self::push_hex(&mut out, self.bytes[9]);
        out.push(45);
        Self::push_hex(&mut out, self.bytes[10]);
        Self::push_hex(&mut out, self.bytes[11]);
        Self::push_hex(&mut out, self.bytes[12]);
        Self::push_hex(&mut out, self.bytes[13]);
        Self::push_hex(&mut out, self.bytes[14]);
        Self::push_hex(&mut out, self.bytes[15]);
        proof {
            assert(out@ =~= encode_spec(self.bytes@));
        }
        out
    }
}

/// One digit survives the value/character round trip when it is not an
/// upper-case letter.
proof fn lemma_digit_round_trip(c: u8)
    requires
        is_hex_digit(c),
        !(65 <= c && c <= 70),
    ensures
        hex_char(hex_val_spec(c)) == c,
{
}

/// One digit pair survives decoding to a byte and re-encoding.
proof fn lemma_pair_round_trip(hi: u8, lo: u8)
    requires
        is_hex_digit(hi),
        is_hex_digit(lo),
        !(65 <= hi && hi <= 70),
        !(65 <= lo && lo <= 70),
    ensures
        enc_byte(hex_byte_spec(hi, lo)) == seq![hi, lo],
{
    let b = hex_byte_spec(hi, lo);
    assert(b / 16 == hex_val_spec(hi) && b % 16 == hex_val_spec(lo)) by (nonlinear_arith)
        requires
            b == hex_val_spec(hi) * 16 + hex_val_spec(lo),
            hex_val_spec(hi) < 16,
            hex_val_spec(lo) < 16,
    ;
    lemma_digit_round_trip(hi);
    lemma_digit_round_trip(lo);
    assert(enc_byte(b) =~= seq![hi, lo]);
}

/// Re-encoding a binary identifier yields a canonical literal, and
/// decoding that literal restores the same sixteen bytes.
#[verifier::rlimit(100)]
pub proof fn lemma_encode_decode(g: Seq<u8>)
    requires
        g.len() == 16,
    ensures
        canonical_literal(encode_spec(g)),
        decode_spec(encode_spec(g)) == g,
{
    let es = encode_spec(g);
    assert forall|v: u8| v < 16 implies is_hex_digit(#[trigger] hex_char(v)) && !(65 <= hex_char(v)
        && hex_char(v) <= 70) && hex_val_spec(hex_char(v)) == v by {}
    assert forall|b: u8| hex_byte_spec(#[trigger] hex_char(b / 16), hex_char(b % 16)) == b by {
        assert(hex_val_spec(hex_char(b / 16)) == b / 16 && hex_val_spec(hex_char(b % 16)) == b
            % 16);
    }
    assert forall|i: int| 0 <= i < 36 && !is_separator_index(i) implies is_hex_digit(
        #[trigger] es[i],
    ) && !(65 <= es[i] && es[i] <= 70) by {}
    assert(decode_spec(es) =~= g);
}

/// Round trip: decoding a canonical literal and re-encoding the binary
/// form yields the original literal unchanged.
#[verifier::rlimit(100)]
pub proof fn lemma_round_trip(s: Seq<u8>)
    requires
        canonical_literal(s),
    ensures
        encode_spec(decode_spec(s)) == s,
{
    let d = decode_spec(s);
    lemma_pair_round_trip(s[0], s[1]);
    lemma_pair_round_trip(s[2], s[3]);
    lemma_pair_round_trip(s[4], s[5]);
    lemma_pair_round_trip(s[6], s[7]);
    lemma_pair_round_trip(s[9], s[10]);
    lemma_pair_round_trip(s[11], s[12]);
    lemma_pair_round_trip(s[14], s[15]);
    lemma_pair_round_trip(s[16], s[17]);
    lemma_pair_round_trip(s[19], s[20]);
    lemma_pair_round_trip(s[21], s[22]);
    lemma_pair_round_trip(s[24], s[25]);
    lemma_pair_round_trip(s[26], s[27]);
    lemma_pair_round_trip(s[28], s[29]);
    lemma_pair_round_trip(s[30], s[31]);
    lemma_pair_round_trip(s[32], s[33]);
    lemma_pair_round_trip(s[34], s[35]);
    assert(enc_byte(d[3]) == seq![s[0], s[1]] && enc_byte(d[2]) == seq![s[2], s[3]] && enc_byte(
        d[1],
    ) == seq![s[4], s[5]] && enc_byte(d[0]) == seq![s[6], s[7]]);
    assert(enc_byte(d[5]) == seq![s[9], s[10]] && enc_byte(d[4]) == seq![s[11], s[12]]);
    assert(enc_byte(d[7]) == seq![s[14], s[15]] && enc_byte(d[6]) == seq![s[16], s[17]]);
    assert(enc_byte(d[8]) == seq![s[19], s[20]] && enc_byte(d[9]) == seq![s[21], s[22]]);
    assert(enc_byte(d[10]) == seq![s[24], s[25]] && enc_byte(d[11]) == seq![s[26], s[27]]
        && enc_byte(d[12]) == seq![s[28], s[29]] && enc_byte(d[13]) == seq![s[30], s[31]]
        && enc_byte(d[14]) == seq![s[32], s[33]] && enc_byte(d[15]) == seq![s[34], s[35]]);
    assert(encode_spec(d) =~= s);
}

} // verus!
