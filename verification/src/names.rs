//! The textual shapes the module accepts: names, secret references, and the
//! random identifiers it hands out itself.
//!
//! Every accepted text is ASCII, so the shapes are stated over characters and
//! checked over bytes.
use vstd::prelude::*;
use vstd::utf8::{
    char_is_scalar, encode_scalar, encode_utf8, encode_utf8_decode_utf8, is_ascii_chars,
    is_ascii_chars_encode_utf8, leading_byte_width_2, leading_byte_width_3, leading_byte_width_4,
};

verus! {

/// An ASCII letter or digit.
pub open spec fn ascii_alphanumeric(c: char) -> bool {
    ||| 'a' <= c <= 'z'
    ||| 'A' <= c <= 'Z'
    ||| '0' <= c <= '9'
}

/// A character that may occur in a queue, kind, key, caller or failure code.
pub open spec fn name_char(c: char) -> bool {
    ascii_alphanumeric(c) || c == '.' || c == '_' || c == '-' || c == ':' || c == '/'
}

/// A character that may occur in a secret reference.
pub open spec fn reference_char(c: char) -> bool {
    ascii_alphanumeric(c) || c == '.' || c == '_' || c == '-' || c == '/'
}

/// A character of the URL-safe base64 alphabet.
pub open spec fn token_char(c: char) -> bool {
    ascii_alphanumeric(c) || c == '-' || c == '_'
}

/// A nonempty text of at most `maximum` name characters.
pub open spec fn is_name(text: Seq<char>, maximum: nat) -> bool {
    &&& 0 < text.len() <= maximum
    &&& forall|i: int| 0 <= i < text.len() ==> name_char(#[trigger] text[i])
}

/// `text[from..to]` is one of the pieces between slashes, or between a slash
/// and an end of the text.
pub open spec fn is_segment(text: Seq<char>, from: int, to: int) -> bool {
    &&& 0 <= from <= to <= text.len()
    &&& from == 0 || text[from - 1] == '/'
    &&& to == text.len() || text[to] == '/'
    &&& forall|i: int| from <= i < to ==> text[i] != '/'
}

/// A relative slash-separated path: no empty segment, no `.` and no `..`.
pub open spec fn is_secret_reference(text: Seq<char>) -> bool {
    &&& 0 < text.len() <= 256
    &&& forall|i: int| 0 <= i < text.len() ==> reference_char(#[trigger] text[i])
    &&& forall|from: int, to: int| #[trigger]
        is_segment(text, from, to) ==> is_plain_segment(text.subrange(from, to))
}

/// A segment that stands for itself: not empty, not `.` and not `..`.
pub open spec fn is_plain_segment(segment: Seq<char>) -> bool {
    &&& segment.len() > 0
    &&& segment != seq!['.']
    &&& segment != seq!['.', '.']
}

/// `prefix` followed by exactly `encoded_length` token characters.
pub open spec fn is_random_value(text: Seq<char>, prefix: Seq<char>, encoded_length: nat) -> bool {
    &&& text.len() == prefix.len() + encoded_length
    &&& prefix.is_prefix_of(text)
    &&& forall|i: int| prefix.len() <= i < text.len() ==> token_char(#[trigger] text[i])
}

/// The shape of a job identifier.
pub open spec fn is_job_id(text: Seq<char>) -> bool {
    is_random_value(text, "job_"@, 24)
}

/// The shape of a lease token.
pub open spec fn is_lease_token(text: Seq<char>) -> bool {
    is_random_value(text, "job_lease_"@, 43)
}

/// `value` is one of `values`.
pub open spec fn has_text(values: Seq<String>, value: Seq<char>) -> bool {
    exists|i: int| 0 <= i < values.len() && (#[trigger] values[i])@ == value
}

/// No character outside ASCII has an ASCII byte first in its encoding.
proof fn lemma_wide_scalar(c: u32)
    by (bit_vector)
    requires
        c > 0x7f,
        c <= 0x10ffff,
    ensures
        c <= 0x7ff ==> leading_byte_width_2(c) >= 0x80,
        0x7ff < c && c <= 0xffff ==> leading_byte_width_3(c) >= 0x80,
        0xffff < c ==> leading_byte_width_4(c) >= 0x80,
{
}

/// A character whose encoding starts with an ASCII byte is that ASCII character.
proof fn lemma_first_byte(c: char)
    ensures
        encode_scalar(c as u32).len() > 0,
        encode_scalar(c as u32)[0] < 0x80 ==> '\0' <= c <= '\u{7f}',
{
    char_is_scalar(c);
    if c as u32 > 0x7f {
        lemma_wide_scalar(c as u32);
    }
}

/// A text whose bytes are all ASCII is a text whose characters are all ASCII.
pub proof fn lemma_ascii_bytes(text: Seq<char>)
    requires
        forall|i: int| 0 <= i < encode_utf8(text).len() ==> #[trigger] encode_utf8(text)[i] < 0x80,
    ensures
        is_ascii_chars(text),
    decreases text.len(),
{
    if text.len() > 0 {
        let first = encode_scalar(text[0] as u32);
        let rest = encode_utf8(text.drop_first());
        assert(encode_utf8(text) == first + rest);
        lemma_first_byte(text[0]);
        assert(first[0] == encode_utf8(text)[0]);
        assert forall|i: int| 0 <= i < rest.len() implies #[trigger] rest[i] < 0x80 by {
            assert(rest[i] == encode_utf8(text)[first.len() + i]);
        }
        lemma_ascii_bytes(text.drop_first());
        assert forall|i: int| 0 <= i < text.len() implies '\0' <= #[trigger] text[i] <= '\u{7f}' by {
            if i > 0 {
                assert(text[i] == text.drop_first()[i - 1]);
            }
        }
    }
}

/// What the bytes of an ASCII text are.
pub proof fn lemma_ascii_chars(text: Seq<char>)
    requires
        is_ascii_chars(text),
    ensures
        encode_utf8(text).len() == text.len(),
        forall|i: int|
            0 <= i < text.len() ==> #[trigger] encode_utf8(text)[i] == text[i] as u8
                && encode_utf8(text)[i] as char == text[i],
{
    is_ascii_chars_encode_utf8(text);
    assert forall|i: int| 0 <= i < text.len() implies #[trigger] encode_utf8(text)[i] == text[i] as u8
        && encode_utf8(text)[i] as char == text[i] by {
        let _ = text[i];
    }
}

/// Distinct texts have distinct bytes.
pub proof fn lemma_bytes_identify(left: Seq<char>, right: Seq<char>)
    requires
        encode_utf8(left) == encode_utf8(right),
    ensures
        left == right,
{
    encode_utf8_decode_utf8(left);
    encode_utf8_decode_utf8(right);
}

/// The three alphabets that texts are checked against.
#[derive(Clone, Copy)]
enum Alphabet {
    Name,
    Reference,
    Token,
}

impl Alphabet {
    spec fn has(self, c: char) -> bool {
        match self {
            Alphabet::Name => name_char(c),
            Alphabet::Reference => reference_char(c),
            Alphabet::Token => token_char(c),
        }
    }

    /// The byte encodes one character of the alphabet.
    spec fn has_byte(self, byte: u8) -> bool {
        byte < 0x80 && self.has(byte as char)
    }

    spec fn spells(self, text: Seq<char>) -> bool {
        forall|i: int| 0 <= i < text.len() ==> self.has(#[trigger] text[i])
    }

    spec fn spells_bytes(self, bytes: Seq<u8>) -> bool {
        forall|i: int| 0 <= i < bytes.len() ==> self.has_byte(#[trigger] bytes[i])
    }

    /// A text is spelled in an alphabet exactly if its bytes are.
    proof fn lemma_spells(self, text: Seq<char>)
        ensures
            self.spells_bytes(encode_utf8(text)) <==> self.spells(text),
            self.spells(text) ==> is_ascii_chars(text) && encode_utf8(text).len() == text.len(),
    {
        let bytes = encode_utf8(text);
        if self.spells_bytes(bytes) {
            assert forall|i: int| 0 <= i < bytes.len() implies #[trigger] bytes[i] < 0x80 by {
                assert(self.has_byte(bytes[i]));
            }
            lemma_ascii_bytes(text);
            lemma_ascii_chars(text);
            assert forall|i: int| 0 <= i < text.len() implies self.has(#[trigger] text[i]) by {
                assert(self.has_byte(bytes[i]));
            }
        }
        if self.spells(text) {
            assert forall|i: int| 0 <= i < text.len() implies '\0' <= #[trigger] text[i] <= '\u{7f}' by {
                assert(self.has(text[i]));
            }
            lemma_ascii_chars(text);
            assert forall|i: int| 0 <= i < bytes.len() implies self.has_byte(#[trigger] bytes[i]) by {
                assert(self.has(text[i]));
            }
        }
    }

    fn contains_byte(self, byte: u8) -> (r: bool)
        ensures
            r == self.has_byte(byte),
    {
        if byte >= 0x80 {
            return false;
        }
        let c = byte as char;
        let alphanumeric = ('a' <= c && c <= 'z') || ('A' <= c && c <= 'Z') || ('0' <= c && c
            <= '9');
        match self {
            Alphabet::Name => alphanumeric || c == '.' || c == '_' || c == '-' || c == ':' || c
                == '/',
            Alphabet::Reference => alphanumeric || c == '.' || c == '_' || c == '-' || c == '/',
            Alphabet::Token => alphanumeric || c == '-' || c == '_',
        }
    }

    /// Whether the bytes from `start` on are all of the alphabet.
    fn accepts(self, bytes: &[u8], start: usize) -> (r: bool)
        requires
            start <= bytes.len(),
        ensures
            r == self.spells_bytes(bytes@.skip(start as int)),
    {
        let mut i: usize = start;
        while i < bytes.len()
            invariant
                start <= i <= bytes.len(),
                forall|j: int| start <= j < i ==> self.has_byte(#[trigger] bytes@[j]),
            decreases bytes.len() - i,
        {
            if !self.contains_byte(bytes[i]) {
                assert(bytes@.skip(start as int)[i - start] == bytes@[i as int]);
                return false;
            }
            i = i + 1;
        }
        true
    }
}

/// Whether `value` is a name of at most `maximum` bytes.
pub fn valid_name(value: &str, maximum: usize) -> (r: bool)
    ensures
        r == is_name(value@, maximum as nat),
{
    let bytes = value.as_bytes();
    proof {
        Alphabet::Name.lemma_spells(value@);
        assert(bytes@.skip(0) == bytes@);
        assert(is_name(value@, maximum as nat) == (0 < value@.len() <= maximum
            && Alphabet::Name.spells(value@)));
        assert(value@.len() == 0 ==> encode_utf8(value@).len() == 0);
    }
    bytes.len() > 0 && bytes.len() <= maximum && Alphabet::Name.accepts(bytes, 0)
}

/// Whether `reference` is a relative path that the secrets module may resolve.
pub fn valid_secret_reference(reference: &str) -> (r: bool)
    ensures
        r == is_secret_reference(reference@),
{
    let bytes = reference.as_bytes();
    let ghost text = reference@;
    proof {
        Alphabet::Reference.lemma_spells(text);
        assert(bytes@.skip(0) == bytes@);
        assert(is_secret_reference(text) ==> Alphabet::Reference.spells(text));
        assert(text.len() == 0 ==> encode_utf8(text).len() == 0);
    }
    if bytes.len() == 0 || bytes.len() > 256 || !Alphabet::Reference.accepts(bytes, 0) {
        return false;
    }
    proof {
        lemma_ascii_chars(text);
    }
    let mut from: usize = 0;
    let mut i: usize = 0;
    while i <= bytes.len()
        invariant
            0 < bytes.len() <= 256,
            bytes@ == encode_utf8(text),
            bytes@.len() == text.len(),
            forall|j: int|
                0 <= j < text.len() ==> #[trigger] bytes@[j] as char == text[j] && bytes@[j] < 0x80,
            Alphabet::Reference.spells(text),
            text == reference@,
            i <= bytes.len() + 1,
            i <= bytes.len() ==> from <= i,
            i <= bytes.len() ==> from == 0 || text[from - 1] == '/',
            i <= bytes.len() ==> forall|j: int| from <= j < i ==> text[j] != '/',
            forall|a: int, b: int| #[trigger]
                is_segment(text, a, b) && b < i ==> is_plain_segment(text.subrange(a, b)),
        decreases bytes.len() + 1 - i,
    {
        assert(i < bytes.len() ==> bytes@[i as int] as char == text[i as int]);
        if i == bytes.len() || bytes[i] as char == '/' {
            let ghost segment = text.subrange(from as int, i as int);
            assert(is_segment(text, from as int, i as int));
            if i == from {
                assert(segment.len() == 0);
                return false;
            }
            assert(bytes@[from as int] as char == text[from as int]);
            if i - from == 1 && bytes[from] as char == '.' {
                assert(segment == seq!['.']);
                return false;
            }
            if i - from == 2 && bytes[from] as char == '.' && bytes[from + 1] as char == '.' {
                assert(bytes@[from + 1] as char == text[from + 1]);
                assert(segment == seq!['.', '.']);
                return false;
            }
            proof {
                assert(is_plain_segment(segment)) by {
                    if segment == seq!['.'] {
                        assert(segment.len() == 1 && segment[0] == '.');
                    }
                    if segment == seq!['.', '.'] {
                        assert(segment.len() == 2 && segment[0] == '.' && segment[1] == '.');
                        assert(bytes@[from + 1] as char == text[from + 1]);
                    }
                }
                assert forall|a: int, b: int| #[trigger] is_segment(text, a, b) && b
                    <= i implies is_plain_segment(text.subrange(a, b)) by {
                    if b == i {
                        assert(a == from as int) by {
                            if a < from {
                                assert(text[from - 1] == '/');
                            }
                            if a > from {
                                assert(text[a - 1] == '/');
                            }
                        }
                    }
                }
            }
            from = i + 1;
        }
        i = i + 1;
    }
    assert forall|a: int, b: int| #[trigger] is_segment(text, a, b) implies is_plain_segment(
        text.subrange(a, b),
    ) by {
        assert(b < i);
    }
    true
}

/// The bytes of two texts in a row are their bytes in a row.
pub proof fn lemma_concat_bytes(left: Seq<char>, right: Seq<char>)
    ensures
        encode_utf8(left + right) == encode_utf8(left) + encode_utf8(right),
    decreases left.len(),
{
    if left.len() == 0 {
        assert(left + right == right);
    } else {
        assert((left + right).drop_first() == left.drop_first() + right);
        lemma_concat_bytes(left.drop_first(), right);
    }
}

/// Whether `value` is `prefix` followed by `encoded_length` token characters.
pub fn valid_random_value(value: &str, prefix: &str, encoded_length: usize) -> (r: bool)
    ensures
        r == is_random_value(value@, prefix@, encoded_length as nat),
{
    let bytes = value.as_bytes();
    let start = prefix.as_bytes();
    proof {
        if is_random_value(value@, prefix@, encoded_length as nat) {
            let tail = value@.skip(prefix@.len() as int);
            assert(value@ == prefix@ + tail);
            assert(Alphabet::Token.spells(tail));
            Alphabet::Token.lemma_spells(tail);
            lemma_concat_bytes(prefix@, tail);
            assert(bytes@.skip(start@.len() as int) == encode_utf8(tail));
            assert(bytes@.take(start@.len() as int) == start@);
        }
    }
    if bytes.len() < start.len() || bytes.len() - start.len() != encoded_length {
        return false;
    }
    let mut i: usize = 0;
    while i < start.len()
        invariant
            i <= start.len() <= bytes.len(),
            forall|j: int| 0 <= j < i ==> #[trigger] bytes@[j] == start@[j],
            is_random_value(value@, prefix@, encoded_length as nat) ==> bytes@.take(
                start@.len() as int,
            ) == start@,
        decreases start.len() - i,
    {
        if bytes[i] != start[i] {
            assert(bytes@.take(start@.len() as int)[i as int] == bytes@[i as int]);
            return false;
        }
        i = i + 1;
    }
    let accepted = Alphabet::Token.accepts(bytes, start.len());
    proof {
        if accepted {
            let rest = bytes@.skip(start@.len() as int);
            let tail = Seq::new(rest.len(), |j: int| rest[j] as char);
            assert forall|j: int| 0 <= j < tail.len() implies Alphabet::Token.has(#[trigger] tail[j]) by {
                assert(Alphabet::Token.has_byte(rest[j]));
            }
            Alphabet::Token.lemma_spells(tail);
            lemma_ascii_chars(tail);
            assert(encode_utf8(tail) == rest) by {
                assert forall|j: int| 0 <= j < rest.len() implies #[trigger] encode_utf8(tail)[j]
                    == rest[j] by {
                    assert(Alphabet::Token.has_byte(rest[j]));
                }
            }
            lemma_concat_bytes(prefix@, tail);
            assert(bytes@ == start@ + rest);
            lemma_bytes_identify(value@, prefix@ + tail);
        }
    }
    accepted
}

/// Whether `value` has the shape of a job identifier.
pub fn valid_job_id(value: &str) -> (r: bool)
    ensures
        r == is_job_id(value@),
{
    valid_random_value(value, "job_", 24)
}

/// Whether `value` has the shape of a lease token.
pub fn valid_lease_token(value: &str) -> (r: bool)
    ensures
        r == is_lease_token(value@),
{
    valid_random_value(value, "job_lease_", 43)
}

/// Whether two texts are the same.
pub fn same_text(left: &str, right: &str) -> (r: bool)
    ensures
        r == (left@ == right@),
{
    let left_bytes = left.as_bytes();
    let right_bytes = right.as_bytes();
    if left_bytes.len() != right_bytes.len() {
        return false;
    }
    let mut i: usize = 0;
    while i < left_bytes.len()
        invariant
            i <= left_bytes.len() == right_bytes.len(),
            left_bytes@ == encode_utf8(left@),
            right_bytes@ == encode_utf8(right@),
            forall|j: int| 0 <= j < i ==> #[trigger] left_bytes@[j] == right_bytes@[j],
        decreases left_bytes.len() - i,
    {
        if left_bytes[i] != right_bytes[i] {
            return false;
        }
        i = i + 1;
    }
    proof {
        assert(left_bytes@ == right_bytes@);
        lemma_bytes_identify(left@, right@);
    }
    true
}

/// Whether `value` occurs in `values`.
pub fn contains_text(values: &Vec<String>, value: &str) -> (r: bool)
    ensures
        r == has_text(values@, value@),
{
    let mut i: usize = 0;
    while i < values.len()
        invariant
            i <= values.len(),
            forall|j: int| 0 <= j < i ==> (#[trigger] values@[j])@ != value@,
        decreases values.len() - i,
    {
        if same_text(values[i].as_str(), value) {
            return true;
        }
        i = i + 1;
    }
    false
}

} // verus!
