//! Mnemonic backup of a 32-byte private key: one word per byte, taken from a
//! list of 256 four-character words `"0000"` to `"00ff"` (the word of byte
//! `b` is `"00"` followed by the two lower-case hex digits of `b`).

use vstd::prelude::*;

use crate::error::{bytes_result, Error, ErrorView};
use crate::text::{concat_str, is_white_space, is_word, join, lemma_split_join, push_char, split_whitespace, split_whitespace_words, string_from, views, StringCharLen};

verus! {

broadcast use vstd::seq_lib::group_seq_properties;

/// Number of words (and bytes) in a mnemonic.
pub const MNEMONIC_LEN: usize = 32;

/// The lower-case hex digit of `d` (`0 <= d < 16`).
pub open spec fn hex_digit(d: int) -> char {
    if d < 10 {
        (48 + d) as char
    } else {
        (87 + d) as char
    }
}

/// The value of a lower-case hex digit, or `None` for any other character.
pub open spec fn hex_value(c: char) -> Option<int> {
    if '0' <= c && c <= '9' {
        Some(c as int - 48)
    } else if 'a' <= c && c <= 'f' {
        Some(c as int - 87)
    } else {
        None
    }
}

/// The word of the word list at index `b`.
pub open spec fn mnemonic_word(b: u8) -> Seq<char> {
    seq!['0', '0', hex_digit(b as int / 16), hex_digit(b as int % 16)]
}

/// The index of `w` in the word list, or `None` if `w` is not in it.
pub open spec fn word_index(w: Seq<char>) -> Option<u8> {
    if w.len() == 4 && w[0] == '0' && w[1] == '0' && hex_value(w[2]) is Some && hex_value(
        w[3],
    ) is Some {
        Some((hex_value(w[2])->0 * 16 + hex_value(w[3])->0) as u8)
    } else {
        None
    }
}

/// `word_index` is exactly the position in the word list.
pub proof fn lemma_word_index(w: Seq<char>, b: u8)
    ensures
        word_index(w) == Some(b) <==> mnemonic_word(b) == w,
{
    let hi = b as int / 16;
    let lo = b as int % 16;
    assert(hex_value(hex_digit(hi)) == Some(hi));
    assert(hex_value(hex_digit(lo)) == Some(lo));
    if word_index(w) == Some(b) {
        let v2 = hex_value(w[2])->0;
        let v3 = hex_value(w[3])->0;
        assert(0 <= v2 < 16 && 0 <= v3 < 16);
        assert(v2 * 16 + v3 == b as int);
        assert(v2 == hi && v3 == lo);
        assert(hex_digit(v2) == w[2]);
        assert(hex_digit(v3) == w[3]);
        assert(mnemonic_word(b) =~= w);
    }
    if mnemonic_word(b) == w {
        assert(w[2] == hex_digit(hi));
        assert(w[3] == hex_digit(lo));
        assert(hi * 16 + lo == b as int);
    }
}

/// Every word of the list is a word: non-empty and free of whitespace.
proof fn lemma_mnemonic_word_is_word(b: u8)
    ensures
        is_word(mnemonic_word(b)),
{
    let w = mnemonic_word(b);
    assert forall|i: int| 0 <= i < w.len() implies !is_white_space(#[trigger] w[i]) by {
        assert(w[i] == '0' || w[i] == hex_digit(b as int / 16) || w[i] == hex_digit(b as int % 16));
    }
}

/// The words of the first `k` bytes.
pub open spec fn mnemonic_words(bytes: Seq<u8>, k: int) -> Seq<Seq<char>> {
    bytes.take(k).map_values(|b: u8| mnemonic_word(b))
}

/// The mnemonic of a byte string: the words of its first 32 bytes, joined by
/// single spaces.
pub open spec fn mnemonic_of(bytes: Seq<u8>) -> Seq<char> {
    let n = if bytes.len() < 32 {
        bytes.len() as int
    } else {
        32
    };
    join(bytes.take(n).map_values(|b: u8| mnemonic_word(b)), seq![' '])
}

/// The first word of `words` that is not in the word list, if any.
pub open spec fn first_invalid_word(words: Seq<Seq<char>>) -> Option<int> {
    if exists|i: int| 0 <= i < words.len() && word_index(#[trigger] words[i]) is None {
        Some(
            choose|i: int|
                0 <= i < words.len() && word_index(#[trigger] words[i]) is None && forall|j: int|
                    0 <= j < i ==> word_index(#[trigger] words[j]) is Some,
        )
    } else {
        None
    }
}

/// What decoding a mnemonic gives: the bytes of its 32 words, or the error
/// for a wrong word count, or for the first word not in the list.
pub open spec fn mnemonic_decoding(m: Seq<char>) -> Result<Seq<u8>, ErrorView> {
    let words = split_whitespace(m);
    if words.len() != 32 {
        Err(ErrorView::Identity("Mnemonic must be 32 words"@))
    } else {
        match first_invalid_word(words) {
            Some(i) => Err(ErrorView::Identity("Invalid word: "@ + words[i])),
            None => Ok(words.map_values(|w: Seq<char>| word_index(w)->0)),
        }
    }
}

/// The lower-case hex digit of `d`.
fn hex_char(d: u8) -> (c: char)
    requires
        d < 16,
    ensures
        c == hex_digit(d as int),
{
    if d < 10 {
        (48u8 + d) as char
    } else {
        (87u8 + d) as char
    }
}

/// The value of a lower-case hex digit.
fn hex_char_value(c: char) -> (v: Option<u8>)
    ensures
        match hex_value(c) {
            Some(x) => v == Some(x as u8),
            None => v is None,
        },
        v matches Some(x) ==> x < 16,
{
    if '0' <= c && c <= '9' {
        Some(((c as u32) - 48) as u8)
    } else if 'a' <= c && c <= 'f' {
        Some(((c as u32) - 87) as u8)
    } else {
        None
    }
}

/// The word at index `b` of the word list.
fn word_of_byte(b: u8) -> (w: String)
    ensures
        w@ == mnemonic_word(b),
{
    let mut w = String::new();
    push_char(&mut w, '0');
    push_char(&mut w, '0');
    push_char(&mut w, hex_char(b / 16));
    push_char(&mut w, hex_char(b % 16));
    assert(w@ =~= mnemonic_word(b));
    w
}

/// The index of a word in the word list.
fn byte_of_word(w: &String) -> (r: Option<u8>)
    ensures
        r == word_index(w@),
{
    let s = w.as_str();
    if s.unicode_len() != 4 {
        return None;
    }
    let c0 = s.get_char(0);
    let c1 = s.get_char(1);
    if c0 != '0' || c1 != '0' {
        return None;
    }
    match (hex_char_value(s.get_char(2)), hex_char_value(s.get_char(3))) {
        (Some(hi), Some(lo)) => Some(hi * 16 + lo),
        _ => None,
    }
}

/// Encodes the first 32 bytes of `bytes` as space-separated mnemonic words.
pub fn bytes_to_mnemonic(bytes: &[u8]) -> (m: String)
    ensures
        m@ == mnemonic_of(bytes@),
{
    let n: usize = if bytes.len() < MNEMONIC_LEN {
        bytes.len()
    } else {
        MNEMONIC_LEN
    };
    let mut m = String::new();
    let mut i: usize = 0;
    while i < n
        invariant
            n <= bytes@.len(),
            n <= 32,
            i <= n,
            m@ == join(mnemonic_words(bytes@, i as int), seq![' ']),
        decreases n - i,
    {
        let w = word_of_byte(bytes[i]);
        let ghost before = m@;
        assert(mnemonic_words(bytes@, i + 1).drop_last() =~= mnemonic_words(bytes@, i as int));
        assert(mnemonic_words(bytes@, i + 1).last() == mnemonic_word(bytes@[i as int]));
        if i > 0 {
            proof {
                reveal_strlit(" ");
            }
            m = concat_str(m, " ");
            m = concat_str(m, w.as_str());
            assert(m@ =~= before + seq![' '] + w@);
        } else {
            m = concat_str(m, w.as_str());
            assert(mnemonic_words(bytes@, 1).len() == 1);
            assert(m@ =~= w@);
            assert(mnemonic_words(bytes@, 1)[0] == mnemonic_word(bytes@[0]));
        }
        i = i + 1;
    }
    m
}

/// Decodes a mnemonic of 32 whitespace-separated words back into bytes.
pub fn mnemonic_to_bytes(mnemonic: &str) -> (r: Result<Vec<u8>, Error>)
    ensures
        bytes_result(r) == mnemonic_decoding(mnemonic@),
{
    let words = split_whitespace_words(mnemonic);
    let ghost ws = views(words@);
    if words.len() != MNEMONIC_LEN {
        return Err(Error::Identity(string_from("Mnemonic must be 32 words")));
    }
    let mut bytes: Vec<u8> = Vec::with_capacity(MNEMONIC_LEN);
    let mut i: usize = 0;
    while i < words.len()
        invariant
            ws == views(words@),
            ws == split_whitespace(mnemonic@),
            ws.len() == 32,
            words@.len() == 32,
            i <= 32,
            bytes@.len() == i,
            forall|j: int| 0 <= j < i ==> word_index(#[trigger] ws[j]) == Some(bytes@[j]),
        decreases 32 - i,
    {
        assert(ws[i as int] == words@[i as int]@);
        match byte_of_word(&words[i]) {
            Some(b) => {
                bytes.push(b);
            },
            None => {
                let msg = concat_str(string_from("Invalid word: "), words[i].as_str());
                proof {
                    assert(exists|k: int| 0 <= k < ws.len() && word_index(#[trigger] ws[k]) is None)
                        by {
                        assert(word_index(ws[i as int]) is None);
                    }
                    let k = first_invalid_word(ws)->0;
                    assert(0 <= k < ws.len() && word_index(ws[k]) is None);
                    assert forall|j: int| 0 <= j < k implies word_index(#[trigger] ws[j]) is Some by {
                    }
                    if k < i {
                        assert(word_index(ws[k]) == Some(bytes@[k]));
                    }
                    if k > i {
                        assert(word_index(ws[i as int]) is Some);
                    }
                    assert(k == i);
                    assert(msg@ == "Invalid word: "@ + ws[i as int]);
                    assert(split_whitespace(mnemonic@) == ws);
                    assert(first_invalid_word(ws) == Some(i as int));
                    assert(mnemonic_decoding(mnemonic@) == Err::<Seq<u8>, ErrorView>(ErrorView::Identity(msg@)));
                }
                return Err(Error::Identity(msg));
            },
        }
        i = i + 1;
    }
    proof {
        assert(!exists|k: int| 0 <= k < ws.len() && word_index(#[trigger] ws[k]) is None) by {
            assert forall|k: int| 0 <= k < ws.len() implies word_index(#[trigger] ws[k]) is Some by {
                assert(word_index(ws[k]) == Some(bytes@[k]));
            }
        }
        assert(bytes@ =~= ws.map_values(|w: Seq<char>| word_index(w)->0));
    }
    Ok(bytes)
}

/// Round trip: the mnemonic of 32 bytes decodes to the same bytes.
pub proof fn lemma_mnemonic_roundtrip(bytes: Seq<u8>)
    requires
        bytes.len() == 32,
    ensures
        mnemonic_decoding(mnemonic_of(bytes)) == Ok::<Seq<u8>, ErrorView>(bytes),
{
    let ws = bytes.take(32).map_values(|b: u8| mnemonic_word(b));
    assert forall|i: int| 0 <= i < ws.len() implies is_word(#[trigger] ws[i]) by {
        lemma_mnemonic_word_is_word(bytes[i]);
    }
    lemma_split_join(ws);
    assert(split_whitespace(mnemonic_of(bytes)) == ws);
    assert forall|i: int| 0 <= i < ws.len() implies word_index(#[trigger] ws[i]) == Some(bytes[i]) by {
        lemma_word_index(ws[i], bytes[i]);
    }
    assert(first_invalid_word(ws) is None);
    assert(ws.map_values(|w: Seq<char>| word_index(w)->0) =~= bytes);
}

/// Canonical form: a mnemonic that decodes re-encodes to its words joined by
/// single spaces.
pub proof fn lemma_mnemonic_canonical(m: Seq<char>)
    requires
        mnemonic_decoding(m) is Ok,
    ensures
        mnemonic_of(mnemonic_decoding(m)->Ok_0) == join(split_whitespace(m), seq![' ']),
{
    let ws = split_whitespace(m);
    let bytes = mnemonic_decoding(m)->Ok_0;
    assert(first_invalid_word(ws) is None);
    assert forall|i: int| 0 <= i < ws.len() implies word_index(#[trigger] ws[i]) is Some by {
        if word_index(ws[i]) is None {
            assert(exists|k: int| 0 <= k < ws.len() && word_index(#[trigger] ws[k]) is None);
        }
    }
    assert(bytes.take(32) =~= bytes);
    assert forall|i: int| 0 <= i < ws.len() implies mnemonic_word(bytes[i]) == ws[i] by {
        lemma_word_index(ws[i], bytes[i]);
    }
    assert(bytes.take(32).map_values(|b: u8| mnemonic_word(b)) =~= ws);
}

} // verus!
