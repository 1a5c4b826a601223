//! Token encoding and decoding for counting and splitting tokens.
//!
//! Three byte-level encoders approximate the OpenAI tokenizer families:
//! [`Cl100KEncoder`] keeps ASCII characters as their code and maps every
//! byte of a non-ASCII character to `256 + byte`; [`P50KEncoder`] and
//! [`R50KEncoder`] map every UTF-8 byte to its value.

use crate::chat_loaders::ascii_lower;
use crate::errors::ChainError;
use crate::text::str_chars;
use vstd::prelude::*;
use vstd::utf8::*;

verus! {

broadcast use vstd::seq_lib::group_seq_properties;

/// The text that `String::from_utf8_lossy` makes of `bytes`.
pub uninterp spec fn lossy_utf8(bytes: Seq<u8>) -> Seq<char>;

/// Turns bytes into text with `String::from_utf8_lossy`.
///
/// Claimed of std: the result is determined by the bytes (named
/// `lossy_utf8`), and for valid UTF-8 it is the text those bytes encode.
/// How invalid sequences become replacement characters is left unstated.
#[verifier::external_body]
fn text_from_bytes_lossy(bytes: &[u8]) -> (s: String)
    ensures
        s@ == lossy_utf8(bytes@),
        valid_utf8(bytes@) ==> s@ == decode_utf8(bytes@),
{
    String::from_utf8_lossy(bytes).to_string()
}

/// An encoder between text and integer tokens.
pub trait TokenEncoder {
    /// What encoding `text` gives: its tokens, or the error.
    spec fn encoding(&self, text: Seq<char>) -> Result<Seq<u32>, ChainError>;

    /// What decoding `tokens` gives: the text, or the error.
    spec fn decoding(&self, tokens: Seq<u32>) -> Result<Seq<char>, ChainError>;

    /// Encodes `text` into tokens.
    fn encode(&self, text: &str) -> (r: Result<Vec<u32>, ChainError>)
        ensures
            match r {
                Ok(t) => self.encoding(text@) == Ok::<Seq<u32>, ChainError>(t@),
                Err(e) => self.encoding(text@) == Err::<Seq<u32>, ChainError>(e),
            };

    /// Decodes tokens back into text.
    fn decode(&self, tokens: &[u32]) -> (r: Result<String, ChainError>)
        ensures
            match r {
                Ok(s) => self.decoding(tokens@) == Ok::<Seq<char>, ChainError>(s@),
                Err(e) => self.decoding(tokens@) == Err::<Seq<char>, ChainError>(e),
            };

    /// The number of tokens `text` encodes to.
    fn get_token_count(&self, text: &str) -> (r: Result<usize, ChainError>)
        ensures
            match r {
                Ok(n) => self.encoding(text@) matches Ok(t) && n == t.len(),
                Err(e) => self.encoding(text@) == Err::<Seq<u32>, ChainError>(e),
            },
    {
        match self.encode(text) {
            Ok(t) => Ok(t.len()),
            Err(e) => Err(e),
        }
    }
}

/// The Cl100K token of one UTF-8 byte: ASCII bytes (whole characters) keep
/// their value, the bytes of non-ASCII characters (all `>= 0x80`) become
/// `256 + byte`.
pub open spec fn cl100k_token(b: u8) -> u32 {
    if b < 128 {
        b as u32
    } else {
        (256 + b) as u32
    }
}

/// The Cl100K tokens of a text.
pub open spec fn cl100k_tokens(text: Seq<char>) -> Seq<u32> {
    encode_utf8(text).map_values(|b: u8| cl100k_token(b))
}

/// The bytes that Cl100K decoding keeps: each token below 256, as a byte.
pub open spec fn cl100k_kept_bytes(tokens: Seq<u32>) -> Seq<u8>
    decreases tokens.len(),
{
    if tokens.len() == 0 {
        Seq::empty()
    } else {
        let rest = cl100k_kept_bytes(tokens.drop_last());
        if tokens.last() < 256 {
            rest.push(tokens.last() as u8)
        } else {
            rest
        }
    }
}

/// The ASCII characters of a text, in order.
pub open spec fn ascii_only(text: Seq<char>) -> Seq<char> {
    text.filter(|c: char| (c as u32) < 128)
}

/// The byte-level tokens of a text (P50K and R50K).
pub open spec fn byte_tokens(text: Seq<char>) -> Seq<u32> {
    encode_utf8(text).map_values(|b: u8| b as u32)
}

/// The low byte of each token (what P50K and R50K decoding reads).
pub open spec fn token_low_bytes(tokens: Seq<u32>) -> Seq<u8> {
    tokens.map_values(|t: u32| (t % 256) as u8)
}

/// The tokens of a string slice's UTF-8 bytes: Cl100K tokens when
/// `ascii_split`, otherwise each byte's value.
fn widen_bytes(text: &str, ascii_split: bool) -> (out: Vec<u32>)
    ensures
        ascii_split ==> out@ == cl100k_tokens(text@),
        !ascii_split ==> out@ == byte_tokens(text@),
{
    let b = text.as_bytes();
    let mut out: Vec<u32> = Vec::new();
    let mut i: usize = 0;
    while i < b.len()
        invariant
            b@ == encode_utf8(text@),
            i <= b@.len(),
            out@.len() == i,
            forall|k: int| 0 <= k < i ==> #[trigger] out@[k] == (if ascii_split {
                cl100k_token(b@[k])
            } else {
                b@[k] as u32
            }),
        decreases b@.len() - i,
    {
        let x = b[i];
        let t: u32 = if ascii_split && x >= 128 {
            256 + x as u32
        } else {
            x as u32
        };
        out.push(t);
        i += 1;
    }
    if ascii_split {
        assert(out@ =~= cl100k_tokens(text@));
    } else {
        assert(out@ =~= byte_tokens(text@));
    }
    out
}

/// Keeping the bytes below 128 of an encoding gives the encoding of the
/// ASCII characters.
proof fn lemma_cl100k_round_trip(text: Seq<char>)
    ensures
        cl100k_kept_bytes(cl100k_tokens(text)) == encode_utf8(ascii_only(text)),
    decreases text.len(),
{
    if text.len() == 0 {
        assert(cl100k_tokens(text) =~= Seq::<u32>::empty());
        assert(ascii_only(text) =~= Seq::<char>::empty());
    } else {
        let init = text.drop_last();
        let c = text.last();
        lemma_cl100k_round_trip(init);
        crate::text::lemma_encode_concat(init, seq![c]);
        assert(text =~= init + seq![c]);
        let e = encode_scalar(c as u32);
        assert(encode_utf8(seq![c]) =~= e) by {
            assert(seq![c].drop_first() =~= Seq::<char>::empty());
            assert(encode_utf8(Seq::<char>::empty()) =~= Seq::<u8>::empty());
        }
        lemma_kept_append(cl100k_tokens(init), e.map_values(|b: u8| cl100k_token(b)));
        assert(cl100k_tokens(text) =~= cl100k_tokens(init) + e.map_values(|b: u8| cl100k_token(b)));
        assert(ascii_only(text) =~= if (c as u32) < 128 { ascii_only(init).push(c) } else { ascii_only(init) }) by {
            reveal(Seq::filter);
            assert(text.drop_last() =~= init);
        }
        lemma_scalar_kept(c);
        if (c as u32) < 128 {
            crate::text::lemma_encode_concat(ascii_only(init), seq![c]);
            assert(ascii_only(init).push(c) =~= ascii_only(init) + seq![c]);
        } else {
            assert(ascii_only(init) + Seq::<char>::empty() =~= ascii_only(init));
        }
    }
}

/// Keeping bytes distributes over concatenation.
proof fn lemma_kept_append(a: Seq<u32>, b: Seq<u32>)
    ensures
        cl100k_kept_bytes(a + b) == cl100k_kept_bytes(a) + cl100k_kept_bytes(b),
    decreases b.len(),
{
    if b.len() == 0 {
        assert(a + b =~= a);
        assert(cl100k_kept_bytes(a) + Seq::<u8>::empty() =~= cl100k_kept_bytes(a));
    } else {
        lemma_kept_append(a, b.drop_last());
        assert((a + b).drop_last() =~= a + b.drop_last());
        assert((a + b).last() == b.last());
        if b.last() < 256 {
            assert(cl100k_kept_bytes(a) + cl100k_kept_bytes(b.drop_last()).push(b.last() as u8)
                =~= (cl100k_kept_bytes(a) + cl100k_kept_bytes(b.drop_last())).push(b.last() as u8));
        }
    }
}

/// The bytes kept of one character's tokens: its encoding when ASCII,
/// nothing otherwise.
proof fn lemma_scalar_kept(c: char)
    ensures
        cl100k_kept_bytes(encode_scalar(c as u32).map_values(|b: u8| cl100k_token(b)))
            == if (c as u32) < 128 { encode_scalar(c as u32) } else { Seq::<u8>::empty() },
{
    let e = encode_scalar(c as u32);
    let m = e.map_values(|b: u8| cl100k_token(b));
    let u = c as u32;
    assert(is_scalar(u)) by {
        vstd::utf8::char_is_scalar(c);
    }
    if u < 128 {
        assert(has_width_1_encoding(u));
        assert((u & 0x7F) as u8 == u) by (bit_vector)
            requires
                u < 128,
        ;
        assert(m.len() == 1);
        assert(m.drop_last() =~= Seq::<u32>::empty());
        assert(cl100k_kept_bytes(Seq::<u32>::empty()) =~= Seq::<u8>::empty());
        assert(e =~= seq![u as u8]);
        assert(m.last() == u);
        assert(cl100k_kept_bytes(m) =~= seq![u as u8]);
    } else {
        assert(forall|i: int| 0 <= i < e.len() ==> #[trigger] e[i] >= 0x80) by {
            if has_width_2_encoding(u) {
                assert(0xC0 | ((u >> 6) & 0x1F) as u8 >= 0x80) by (bit_vector);
                assert(0x80 | (u & 0x3F) as u8 >= 0x80) by (bit_vector);
            } else if has_width_3_encoding(u) {
                assert(0xE0 | ((u >> 12) & 0x0F) as u8 >= 0x80) by (bit_vector);
                assert(0x80 | ((u >> 6) & 0x3F) as u8 >= 0x80) by (bit_vector);
                assert(0x80 | (u & 0x3F) as u8 >= 0x80) by (bit_vector);
            } else {
                assert(0xF0 | ((u >> 18) & 0x7) as u8 >= 0x80) by (bit_vector);
                assert(0x80 | ((u >> 12) & 0x3F) as u8 >= 0x80) by (bit_vector);
                assert(0x80 | ((u >> 6) & 0x3F) as u8 >= 0x80) by (bit_vector);
                assert(0x80 | (u & 0x3F) as u8 >= 0x80) by (bit_vector);
            }
        }
        lemma_none_kept(m);
    }
}

/// Tokens of 256 and above are all dropped.
proof fn lemma_none_kept(m: Seq<u32>)
    requires
        forall|i: int| 0 <= i < m.len() ==> #[trigger] m[i] >= 256,
    ensures
        cl100k_kept_bytes(m) == Seq::<u8>::empty(),
    decreases m.len(),
{
    if m.len() > 0 {
        lemma_none_kept(m.drop_last());
    }
}

/// Collects the low byte of each token.
fn low_bytes(tokens: &[u32], keep_all: bool) -> (out: Vec<u8>)
    ensures
        keep_all ==> out@ == token_low_bytes(tokens@),
        !keep_all ==> out@ == cl100k_kept_bytes(tokens@),
{
    let mut out: Vec<u8> = Vec::new();
    let mut i: usize = 0;
    while i < tokens.len()
        invariant
            i <= tokens@.len(),
            keep_all ==> out@ == token_low_bytes(tokens@.take(i as int)),
            !keep_all ==> out@ == cl100k_kept_bytes(tokens@.take(i as int)),
        decreases tokens@.len() - i,
    {
        let t = tokens[i];
        proof {
            assert(tokens@.take(i + 1).drop_last() =~= tokens@.take(i as int));
            assert(token_low_bytes(tokens@.take(i + 1)) =~= token_low_bytes(tokens@.take(i as int)).push((t % 256) as u8));
        }
        if keep_all {
            out.push((t % 256) as u8);
        } else if t < 256 {
            out.push(t as u8);
        }
        i += 1;
    }
    assert(tokens@.take(tokens@.len() as int) =~= tokens@);
    out
}

/// An encoder that approximates the `cl100k_base` tokenizer.
#[derive(Debug, Clone)]
pub struct Cl100KEncoder;

impl Cl100KEncoder {
    /// Creates a new [`Cl100KEncoder`].
    pub fn new() -> (res: Self) {
        Cl100KEncoder
    }
}

impl TokenEncoder for Cl100KEncoder {
    open spec fn encoding(&self, text: Seq<char>) -> Result<Seq<u32>, ChainError> {
        Ok(cl100k_tokens(text))
    }

    open spec fn decoding(&self, tokens: Seq<u32>) -> Result<Seq<char>, ChainError> {
        Ok(lossy_utf8(cl100k_kept_bytes(tokens)))
    }

    /// ASCII characters become their code; each byte of a non-ASCII
    /// character becomes `256 + byte`.
    fn encode(&self, text: &str) -> (r: Result<Vec<u32>, ChainError>)
        ensures
            r matches Ok(t) && t@ == cl100k_tokens(text@),
    {
        Ok(widen_bytes(text, true))
    }

    /// Keeps the tokens below 256 as bytes and reads them as UTF-8, lossily.
    /// Decoding what `encode` produced gives back the ASCII characters.
    fn decode(&self, tokens: &[u32]) -> (r: Result<String, ChainError>)
        ensures
            r matches Ok(s) && s@ == lossy_utf8(cl100k_kept_bytes(tokens@)),
            valid_utf8(cl100k_kept_bytes(tokens@)) ==> (r matches Ok(s) && s@ == decode_utf8(cl100k_kept_bytes(tokens@))),
            forall|text: Seq<char>| tokens@ == cl100k_tokens(text) ==> (r matches Ok(s) && s@ == ascii_only(text)),
    {
        let bytes = low_bytes(tokens, false);
        let s = text_from_bytes_lossy(bytes.as_slice());
        proof {
            assert forall|text: Seq<char>| tokens@ == cl100k_tokens(text) implies s@ == ascii_only(text) by {
                lemma_cl100k_round_trip(text);
                encode_utf8_valid_utf8(ascii_only(text));
                encode_utf8_decode_utf8(ascii_only(text));
            }
        }
        Ok(s)
    }
}

/// Byte tokens read back as bytes give the text they encode.
proof fn lemma_byte_round_trip(text: Seq<char>)
    ensures
        token_low_bytes(byte_tokens(text)) == encode_utf8(text),
        valid_utf8(encode_utf8(text)),
        decode_utf8(encode_utf8(text)) == text,
{
    assert(token_low_bytes(byte_tokens(text)) =~= encode_utf8(text));
    encode_utf8_valid_utf8(text);
    encode_utf8_decode_utf8(text);
}

/// An encoder that approximates the `p50k_base` tokenizer: one token per
/// UTF-8 byte.
#[derive(Debug, Clone)]
pub struct P50KEncoder;

impl P50KEncoder {
    /// Creates a new [`P50KEncoder`].
    pub fn new() -> (res: Self) {
        P50KEncoder
    }
}

impl TokenEncoder for P50KEncoder {
    open spec fn encoding(&self, text: Seq<char>) -> Result<Seq<u32>, ChainError> {
        Ok(byte_tokens(text))
    }

    open spec fn decoding(&self, tokens: Seq<u32>) -> Result<Seq<char>, ChainError> {
        Ok(lossy_utf8(token_low_bytes(tokens)))
    }

    /// Each UTF-8 byte becomes a token.
    fn encode(&self, text: &str) -> (r: Result<Vec<u32>, ChainError>)
        ensures
            r matches Ok(t) && t@ == byte_tokens(text@),
    {
        Ok(widen_bytes(text, false))
    }

    /// Reads the low byte of each token as UTF-8, lossily. Decoding what
    /// `encode` produced gives back the text.
    fn decode(&self, tokens: &[u32]) -> (r: Result<String, ChainError>)
        ensures
            r matches Ok(s) && s@ == lossy_utf8(token_low_bytes(tokens@)),
            valid_utf8(token_low_bytes(tokens@)) ==> (r matches Ok(s) && s@ == decode_utf8(token_low_bytes(tokens@))),
            forall|text: Seq<char>| tokens@ == byte_tokens(text) ==> (r matches Ok(s) && s@ == text),
    {
        let bytes = low_bytes(tokens, true);
        let s = text_from_bytes_lossy(bytes.as_slice());
        proof {
            assert forall|text: Seq<char>| tokens@ == byte_tokens(text) implies s@ == text by {
                lemma_byte_round_trip(text);
            }
        }
        Ok(s)
    }
}

/// An encoder that approximates the `r50k_base` tokenizer: one token per
/// UTF-8 byte.
#[derive(Debug, Clone)]
pub struct R50KEncoder;

impl R50KEncoder {
    /// Creates a new [`R50KEncoder`].
    pub fn new() -> (res: Self) {
        R50KEncoder
    }
}

impl TokenEncoder for R50KEncoder {
    open spec fn encoding(&self, text: Seq<char>) -> Result<Seq<u32>, ChainError> {
        Ok(byte_tokens(text))
    }

    open spec fn decoding(&self, tokens: Seq<u32>) -> Result<Seq<char>, ChainError> {
        Ok(lossy_utf8(token_low_bytes(tokens)))
    }

    /// Each UTF-8 byte becomes a token.
    fn encode(&self, text: &str) -> (r: Result<Vec<u32>, ChainError>)
        ensures
            r matches Ok(t) && t@ == byte_tokens(text@),
    {
        Ok(widen_bytes(text, false))
    }

    /// Reads the low byte of each token as UTF-8, lossily. Decoding what
    /// `encode` produced gives back the text.
    fn decode(&self, tokens: &[u32]) -> (r: Result<String, ChainError>)
        ensures
            r matches Ok(s) && s@ == lossy_utf8(token_low_bytes(tokens@)),
            valid_utf8(token_low_bytes(tokens@)) ==> (r matches Ok(s) && s@ == decode_utf8(token_low_bytes(tokens@))),
            forall|text: Seq<char>| tokens@ == byte_tokens(text) ==> (r matches Ok(s) && s@ == text),
    {
        let bytes = low_bytes(tokens, true);
        let s = text_from_bytes_lossy(bytes.as_slice());
        proof {
            assert forall|text: Seq<char>| tokens@ == byte_tokens(text) implies s@ == text by {
                lemma_byte_round_trip(text);
            }
        }
        Ok(s)
    }
}

/// The encoder families a model name can select.
#[derive(Debug, Clone, Copy, PartialEq, Eq, Structural)]
pub enum EncoderFamily {
    /// `cl100k_base`.
    Cl100K,
    /// `p50k_base`.
    P50K,
    /// `r50k_base`.
    R50K,
}

/// `needle` occurs in `hay` at `i` once ASCII letters of `hay` are
/// lower-cased.
pub open spec fn lower_matches_at(hay: Seq<char>, needle: Seq<char>, i: int) -> bool {
    0 <= i && i + needle.len() <= hay.len()
        && forall|j: int| 0 <= j < needle.len() ==> ascii_lower(#[trigger] hay[i + j]) == needle[j]
}

/// `needle` occurs somewhere in the lower-cased `hay`.
pub open spec fn lower_contains(hay: Seq<char>, needle: Seq<char>) -> bool {
    exists|i: int| lower_matches_at(hay, needle, i)
}

/// Whether the lower-cased `hay` contains `needle` (a lower-case word).
fn lower_contains_exec(hay: &[char], needle: &str) -> (r: bool)
    ensures
        r == lower_contains(hay@, needle@),
{
    let nd = str_chars(needle);
    if nd.len() == 0 {
        assert(lower_matches_at(hay@, needle@, 0));
        return true;
    }
    if nd.len() > hay.len() {
        proof {
            assert forall|i: int| !lower_matches_at(hay@, needle@, i) by {}
        }
        return false;
    }
    let mut i: usize = 0;
    while nd.len() <= hay.len() - i
        invariant
            nd@ == needle@,
            1 <= nd@.len() <= hay@.len(),
            i <= hay@.len(),
            forall|k: int| 0 <= k < i ==> !lower_matches_at(hay@, needle@, k),
        decreases hay@.len() - i,
    {
        let mut j: usize = 0;
        let mut ok = true;
        while j < nd.len()
            invariant
                nd@ == needle@,
                i + nd@.len() <= hay@.len(),
                i + nd.len() <= hay.len(),
                j <= nd@.len(),
                ok == forall|m: int| 0 <= m < j ==> ascii_lower(#[trigger] hay@[i + m]) == nd@[m],
            decreases nd@.len() - j,
        {
            let h = hay[i + j];
            let e = nd[j];
            let c = h as u32;
            let d = e as u32;
            let lc: u32 = if 65 <= c && c <= 90 {
                c + 32
            } else {
                c
            };
            proof {
                assert(ascii_lower(h) as u32 == lc);
                if lc == d {
                    let a = ascii_lower(h);
                    char_u32_cast(a, lc);
                    char_u32_cast(e, d);
                    assert(a == e);
                }
            }
            if lc != d {
                ok = false;
            }
            j += 1;
        }
        if ok {
            assert(lower_matches_at(hay@, needle@, i as int));
            return true;
        }
        i += 1;
    }
    proof {
        assert forall|k: int| !lower_matches_at(hay@, needle@, k) by {
            if 0 <= k && k + needle@.len() <= hay@.len() {
                assert(k < i);
            }
        }
    }
    false
}

/// The encoder family for a model name: names containing `gpt-4`, `gpt-3.5`
/// or `gpt-4o` (ignoring case) use Cl100K, other names containing `gpt-3`
/// use P50K, and every other name uses R50K.
pub open spec fn encoder_family(model: Seq<char>) -> EncoderFamily {
    if lower_contains(model, "gpt-4"@) || lower_contains(model, "gpt-3.5"@) || lower_contains(model, "gpt-4o"@) {
        EncoderFamily::Cl100K
    } else if lower_contains(model, "gpt-3"@) {
        EncoderFamily::P50K
    } else {
        EncoderFamily::R50K
    }
}

/// Chooses the encoder family for a model name.
pub fn encoder_family_for_model(model: &str) -> (r: EncoderFamily)
    ensures
        r == encoder_family(model@),
{
    let m = str_chars(model);
    if lower_contains_exec(m.as_slice(), "gpt-4") || lower_contains_exec(m.as_slice(), "gpt-3.5")
        || lower_contains_exec(m.as_slice(), "gpt-4o") {
        EncoderFamily::Cl100K
    } else if lower_contains_exec(m.as_slice(), "gpt-3") {
        EncoderFamily::P50K
    } else {
        EncoderFamily::R50K
    }
}

/// Returns the encoder that a model name selects (see [`encoder_family`]).
pub fn get_encoder_for_model(model: &str) -> Box<dyn TokenEncoder> {
    let f = encoder_family_for_model(model);
    let r: Box<dyn TokenEncoder> = match f {
        EncoderFamily::Cl100K => Box::new(Cl100KEncoder),
        EncoderFamily::P50K => Box::new(P50KEncoder),
        EncoderFamily::R50K => Box::new(R50KEncoder),
    };
    r
}

} // verus!
