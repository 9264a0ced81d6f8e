//! Identifiers, digests, the clock and the tokenizer.

use vstd::prelude::*;
use crate::text::{chars_of, is_upper, lower_char, lower_text, string_of, to_lower_char};

verus! {

/// The SHA-256 digest of `data`.
pub uninterp spec fn sha256(data: Seq<u8>) -> Seq<u8>;

/// One lower-case hexadecimal digit.
pub open spec fn hex_digit(n: int) -> char {
    if n < 10 {
        (48 + n) as char
    } else {
        (87 + n) as char
    }
}

/// Two lower-case hexadecimal digits for each byte, high nibble first.
pub open spec fn hex_text(data: Seq<u8>) -> Seq<char> {
    Seq::new(
        2 * data.len(),
        |i: int|
            if i % 2 == 0 {
                hex_digit(data[i / 2] as int / 16)
            } else {
                hex_digit(data[i / 2] as int % 16)
            },
    )
}

/// A lower-case hexadecimal digit.
pub open spec fn is_lower_hex(c: char) -> bool {
    ('0' <= c && c <= '9') || ('a' <= c && c <= 'f')
}

/// An ASCII letter or digit.
pub open spec fn is_ascii_alphanumeric(c: char) -> bool {
    ('a' <= c && c <= 'z') || ('A' <= c && c <= 'Z') || ('0' <= c && c <= '9')
}

/// The big-endian number held in the first eight bytes of `b`.
pub open spec fn be_u64(b: Seq<u8>) -> int {
    b[0] as int * 0x0100_0000_0000_0000 + b[1] as int * 0x0001_0000_0000_0000 + b[2] as int
        * 0x0000_0100_0000_0000 + b[3] as int * 0x0000_0001_0000_0000 + b[4] as int * 0x0100_0000
        + b[5] as int * 0x0001_0000 + b[6] as int * 0x0100 + b[7] as int
}

/// The lower-case hexadecimal SHA-256 digest of the UTF-8 bytes of `text`.
pub open spec fn sha256_hex_of(text: Seq<char>) -> Seq<char> {
    hex_text(sha256(vstd::utf8::encode_utf8(text)))
}

/// The number that orders `text` in the key space of the hash table.
pub open spec fn hash_of(text: Seq<char>) -> int {
    be_u64(sha256(vstd::utf8::encode_utf8(text)))
}

/// The same number in 64 bits.
pub open spec fn hash64(text: Seq<char>) -> u64 {
    hash_of(text) as u64
}

/// `Vec::shuffle` from `rand` on the places `0..n`, with the thread-local
/// generator: every place once, in an order of which nothing is known.
#[verifier::external_body]
pub(crate) fn shuffled_places(n: usize) -> (r: Vec<usize>)
    ensures
        r@.len() == n,
        r@.no_duplicates(),
        forall|i: int| 0 <= i < n ==> (#[trigger] r@[i]) < n,
{
    let mut places: Vec<usize> = (0..n).collect();
    rand::seq::SliceRandom::shuffle(&mut places[..], &mut rand::thread_rng());
    places
}

/// `Sha256::digest` from `sha2`: the digest depends on the bytes alone and is 32 bytes long.
#[verifier::external_body]
fn sha256_digest(data: &[u8]) -> (r: Vec<u8>)
    ensures
        r@ == sha256(data@),
        r@.len() == 32,
{
    <sha2::Sha256 as sha2::Digest>::digest(data).to_vec()
}

/// `hex::encode`: two lower-case digits per byte, in order. The text has to
/// fit the address space.
#[verifier::external_body]
fn hex_encode(data: &Vec<u8>) -> (r: String)
    requires
        2 * data.len() <= isize::MAX,
    ensures
        r@ == hex_text(data@),
{
    hex::encode(data)
}

/// `Rng::fill` on the thread-local generator of `rand`: `n` bytes, of which nothing else is known.
#[verifier::external_body]
fn random_bytes(n: usize) -> (r: Vec<u8>)
    requires
        n <= isize::MAX,
    ensures
        r@.len() == n,
{
    let mut raw = vec![0u8; n];
    rand::Rng::fill(&mut rand::thread_rng(), &mut raw[..]);
    raw
}

/// A date and time that names its offset from UTC as none: the text ends
/// with `+00:00`.
pub open spec fn says_utc(text: Seq<char>) -> bool {
    &&& text.len() >= 6
    &&& text.subrange(text.len() - 6, text.len() as int) == "+00:00"@
}

/// `DateTime::to_rfc3339` of `Utc::now()` from `chrono`: the current time as
/// RFC 3339 text. Of the moment nothing is claimed; of the text, that it
/// closes with the offset of UTC, which `to_rfc3339` writes as `+00:00`.
#[verifier::external_body]
pub fn now_iso() -> (r: String)
    ensures
        says_utc(r@),
{
    chrono::Utc::now().to_rfc3339()
}

/// `DateTime::timestamp_millis` of `Utc::now()` from `chrono`: the current time in
/// milliseconds, of which nothing is claimed.
#[verifier::external_body]
pub(crate) fn now_millis() -> (r: i64)
{
    chrono::Utc::now().timestamp_millis()
}

/// `Alphanumeric` sampled from the thread-local generator of `rand`: `len` characters,
/// each an ASCII letter or digit.
#[verifier::external_body]
pub fn random_token(len: usize) -> (r: String)
    requires
        len <= isize::MAX,
    ensures
        r@.len() == len,
        forall|i: int| 0 <= i < len ==> is_ascii_alphanumeric(#[trigger] r@[i]),
{
    rand::Rng::sample_iter(rand::thread_rng(), &rand::distributions::Alphanumeric)
        .take(len)
        .map(char::from)
        .collect()
}

/// The hexadecimal text of `n` bytes has `2 * n` lower-case hexadecimal digits.
pub proof fn hex_text_is_lower_hex(data: Seq<u8>)
    ensures
        hex_text(data).len() == 2 * data.len(),
        forall|i: int| 0 <= i < 2 * data.len() ==> is_lower_hex(#[trigger] hex_text(data)[i]),
{
    assert forall|i: int| 0 <= i < 2 * data.len() implies is_lower_hex(
        #[trigger] hex_text(data)[i],
    ) by {
        let b = data[i / 2] as int;
        assert(0 <= b / 16 < 16);
        assert(0 <= b % 16 < 16);
    }
}

/// `2 * bytes` lower-case hexadecimal digits drawn at random.
pub fn random_hex(bytes: usize) -> (r: String)
    requires
        2 * bytes <= isize::MAX,
    ensures
        r@.len() == 2 * bytes,
        forall|i: int| 0 <= i < 2 * bytes ==> is_lower_hex(#[trigger] r@[i]),
{
    let raw = random_bytes(bytes);
    proof {
        hex_text_is_lower_hex(raw@);
    }
    hex_encode(&raw)
}

/// The lower-case hexadecimal SHA-256 digest of `data`: sixty-four digits.
pub fn sha256_hex(data: &str) -> (r: String)
    ensures
        r@ == sha256_hex_of(data@),
        r@.len() == 64,
        forall|i: int| 0 <= i < 64 ==> is_lower_hex(#[trigger] r@[i]),
{
    let digest = sha256_digest(data.as_bytes());
    proof {
        hex_text_is_lower_hex(digest@);
    }
    hex_encode(&digest)
}

/// The first eight bytes of the SHA-256 digest of `data`, read big-endian.
pub fn hash_to_u64(data: &str) -> (r: u64)
    ensures
        r == hash_of(data@),
        r == hash64(data@),
{
    let d = sha256_digest(data.as_bytes());
    (d[0] as u64) * 0x0100_0000_0000_0000 + (d[1] as u64) * 0x0001_0000_0000_0000 + (d[2] as u64)
        * 0x0000_0100_0000_0000 + (d[3] as u64) * 0x0000_0001_0000_0000 + (d[4] as u64)
        * 0x0100_0000 + (d[5] as u64) * 0x0001_0000 + (d[6] as u64) * 0x0100 + (d[7] as u64)
}

/// The nearest to `n` of the numbers that fit 64 signed bits.
pub open spec fn clamped(n: int) -> i64 {
    if n > i64::MAX {
        i64::MAX
    } else if n < i64::MIN {
        i64::MIN
    } else {
        n as i64
    }
}

/// The nearest to `n` of the numbers that fit 64 signed bits.
pub fn clamp(n: i128) -> (r: i64)
    ensures
        r == clamped(n as int),
{
    if n > i64::MAX as i128 {
        i64::MAX
    } else if n < i64::MIN as i128 {
        i64::MIN
    } else {
        n as i64
    }
}

/// A character that belongs to a token: an ASCII letter or digit, `_` or `-`.
pub open spec fn is_token_char(c: char) -> bool {
    is_ascii_alphanumeric(c) || c == '_' || c == '-'
}

/// How many token characters `text` begins with.
pub open spec fn run_length(text: Seq<char>) -> nat
    decreases text.len(),
{
    if text.len() > 0 && is_token_char(text[0]) {
        1 + run_length(text.drop_first())
    } else {
        0
    }
}

/// The tokens of `text`: its maximal runs of token characters, lower-cased,
/// in order.
pub open spec fn tokens_of(text: Seq<char>) -> Seq<Seq<char>>
    decreases text.len(),
{
    if text.len() == 0 {
        Seq::empty()
    } else if !is_token_char(text[0]) {
        tokens_of(text.drop_first())
    } else {
        proof {
            lemma_run_length(text);
        }
        let run = run_length(text) as int;
        seq![lower_text(text.take(run))] + tokens_of(text.skip(run))
    }
}

/// The token characters of `text`, lower-cased, in order.
pub open spec fn token_chars(text: Seq<char>) -> Seq<char>
    decreases text.len(),
{
    if text.len() == 0 {
        Seq::empty()
    } else if is_token_char(text[0]) {
        seq![lower_char(text[0])] + token_chars(text.drop_first())
    } else {
        token_chars(text.drop_first())
    }
}

/// A token as the tokenizer makes them: not empty, of token characters, none upper-case.
pub open spec fn is_token(t: Seq<char>) -> bool {
    &&& t.len() > 0
    &&& forall|j: int| 0 <= j < t.len() ==> is_token_char(#[trigger] t[j]) && !is_upper(t[j])
}

/// The tokens that a scan from the left finds in `text` when `current`
/// holds the token it has begun.
spec fn tokens_after(text: Seq<char>, current: Seq<char>) -> Seq<Seq<char>>
    decreases text.len(),
{
    if text.len() == 0 {
        if current.len() > 0 {
            seq![current]
        } else {
            Seq::empty()
        }
    } else if is_token_char(text[0]) {
        tokens_after(text.drop_first(), current.push(lower_char(text[0])))
    } else if current.len() > 0 {
        seq![current] + tokens_after(text.drop_first(), Seq::empty())
    } else {
        tokens_after(text.drop_first(), Seq::empty())
    }
}

/// A run is no longer than the text, and not empty where the text begins
/// with a token character.
pub proof fn lemma_run_length(text: Seq<char>)
    ensures
        run_length(text) <= text.len(),
        text.len() > 0 && is_token_char(text[0]) ==> run_length(text) >= 1,
    decreases text.len(),
{
    if text.len() > 0 && is_token_char(text[0]) {
        lemma_run_length(text.drop_first());
    }
}

/// What a scan from the left finds, said by runs.
spec fn scanned(text: Seq<char>, current: Seq<char>) -> Seq<Seq<char>> {
    if run_length(text) == 0 {
        if current.len() > 0 {
            seq![current] + tokens_of(text)
        } else {
            tokens_of(text)
        }
    } else {
        seq![current + lower_text(text.take(run_length(text) as int))] + tokens_of(
            text.skip(run_length(text) as int),
        )
    }
}

/// A scan from the left finds the maximal runs.
proof fn lemma_scan_finds_runs(text: Seq<char>, current: Seq<char>)
    ensures
        tokens_after(text, current) == scanned(text, current),
    decreases text.len(),
{
    lemma_run_length(text);
    let none = Seq::<Seq<char>>::empty();
    let nothing = Seq::<char>::empty();
    if text.len() == 0 {
        assert(run_length(text) == 0);
        assert(tokens_of(text) =~= none);
        assert(seq![current] + none =~= seq![current]);
    } else if is_token_char(text[0]) {
        let rest = text.drop_first();
        let next = current.push(lower_char(text[0]));
        let run = run_length(text) as int;
        lemma_scan_finds_runs(rest, next);
        lemma_run_length(rest);
        assert(run == 1 + run_length(rest));
        assert(tokens_after(text, current) == tokens_after(rest, next));
        if run_length(rest) == 0 {
            assert(run == 1);
            assert(text.take(1) =~= seq![text[0]]);
            assert(lower_text(text.take(1)) =~= seq![lower_char(text[0])]);
            assert(current + lower_text(text.take(1)) =~= next);
            assert(text.skip(1) =~= rest);
            assert(scanned(rest, next) == seq![next] + tokens_of(rest));
            assert(scanned(text, current) == seq![next] + tokens_of(rest));
        } else {
            let inner = run_length(rest) as int;
            assert(rest.take(inner) =~= text.take(run).drop_first());
            assert(lower_text(text.take(run)) =~= seq![lower_char(text[0])] + lower_text(rest.take(inner)));
            assert(next + lower_text(rest.take(inner)) =~= current + lower_text(text.take(run)));
            assert(rest.skip(inner) =~= text.skip(run));
            assert(scanned(rest, next) == seq![next + lower_text(rest.take(inner))] + tokens_of(
                rest.skip(inner),
            ));
        }
    } else {
        let rest = text.drop_first();
        assert(run_length(text) == 0);
        assert(tokens_of(text) == tokens_of(rest));
        lemma_scan_finds_runs(rest, nothing);
        lemma_run_length(rest);
        assert(tokens_after(rest, nothing) == tokens_of(rest)) by {
            if run_length(rest) > 0 {
                let inner = run_length(rest) as int;
                assert(nothing + lower_text(rest.take(inner)) =~= lower_text(rest.take(inner)));
                assert(rest.len() > 0 && is_token_char(rest[0]));
            }
        }
        if current.len() > 0 {
            assert(tokens_after(text, current) == seq![current] + tokens_after(rest, nothing));
        } else {
            assert(tokens_after(text, current) == tokens_after(rest, nothing));
        }
    }
}

proof fn lemma_lower_token_char(c: char)
    requires
        is_token_char(c),
    ensures
        is_token_char(lower_char(c)),
        !is_upper(lower_char(c)),
{
}

proof fn lemma_tokens_after(text: Seq<char>, current: Seq<char>)
    requires
        forall|j: int| 0 <= j < current.len() ==> is_token_char(#[trigger] current[j]) && !is_upper(current[j]),
    ensures
        tokens_after(text, current).flatten() == current + token_chars(text),
        forall|i: int| 0 <= i < tokens_after(text, current).len() ==> is_token(#[trigger] tokens_after(text, current)[i]),
    decreases text.len(),
{
    broadcast use vstd::seq_lib::group_seq_properties;
    let empty = Seq::<char>::empty();
    if text.len() == 0 {
        if current.len() > 0 {
            assert(seq![current].flatten() =~= current) by {
                seq![current].lemma_flatten_one_element();
            }
        } else {
            assert(Seq::<Seq<char>>::empty().flatten() =~= empty);
        }
        assert(current + token_chars(text) =~= current);
    } else if is_token_char(text[0]) {
        let next = current.push(lower_char(text[0]));
        lemma_lower_token_char(text[0]);
        lemma_tokens_after(text.drop_first(), next);
        assert(next + token_chars(text.drop_first()) =~= current + token_chars(text));
    } else if current.len() > 0 {
        lemma_tokens_after(text.drop_first(), empty);
        let rest = tokens_after(text.drop_first(), empty);
        assert((seq![current] + rest).flatten() =~= current + rest.flatten()) by {
            vstd::seq_lib::lemma_flatten_concat(seq![current], rest);
            seq![current].lemma_flatten_one_element();
        }
        assert(empty + token_chars(text.drop_first()) =~= token_chars(text));
        assert forall|i: int| 0 <= i < tokens_after(text, current).len() implies is_token(
            #[trigger] tokens_after(text, current)[i],
        ) by {
            if i > 0 {
                assert(tokens_after(text, current)[i] == rest[i - 1]);
            }
        }
    } else {
        lemma_tokens_after(text.drop_first(), empty);
        assert(empty + token_chars(text.drop_first()) =~= token_chars(text));
        assert(current + token_chars(text) =~= token_chars(text));
    }
}

proof fn lemma_scan_from_start(text: Seq<char>)
    ensures
        tokens_after(text, Seq::empty()) == tokens_of(text),
{
    let nothing = Seq::<char>::empty();
    lemma_scan_finds_runs(text, nothing);
    lemma_run_length(text);
    if run_length(text) > 0 {
        let run = run_length(text) as int;
        assert(nothing + lower_text(text.take(run)) =~= lower_text(text.take(run)));
        assert(text.len() > 0 && is_token_char(text[0]));
    }
}

/// The tokens of a text, joined, are its token characters in source order,
/// repeats kept; and every token is a non-empty lower-case run.
pub proof fn tokens_keep_source_order(text: Seq<char>)
    ensures
        tokens_of(text).flatten() == token_chars(text),
        forall|i: int| 0 <= i < tokens_of(text).len() ==> is_token(#[trigger] tokens_of(text)[i]),
{
    lemma_scan_from_start(text);
    lemma_tokens_after(text, Seq::empty());
    assert(Seq::<char>::empty() + token_chars(text) =~= token_chars(text));
}

/// `parts` one after another, a space between any two.
pub open spec fn joined(parts: Seq<Seq<char>>) -> Seq<char>
    decreases parts.len(),
{
    if parts.len() == 0 {
        Seq::empty()
    } else if parts.len() == 1 {
        parts[0]
    } else {
        parts[0] + seq![' '] + joined(parts.drop_first())
    }
}

/// A scan that meets a token takes it whole into the token it has begun.
proof fn lemma_scan_takes_token(t: Seq<char>, rest: Seq<char>, current: Seq<char>)
    requires
        forall|j: int| 0 <= j < t.len() ==> is_token_char(#[trigger] t[j]) && !is_upper(t[j]),
    ensures
        tokens_after(t + rest, current) == tokens_after(rest, current + t),
    decreases t.len(),
{
    if t.len() == 0 {
        assert(t + rest =~= rest);
        assert(current + t =~= current);
    } else {
        let text = t + rest;
        assert(text[0] == t[0]);
        assert(lower_char(t[0]) == t[0]);
        assert(text.drop_first() =~= t.drop_first() + rest);
        lemma_scan_takes_token(t.drop_first(), rest, current.push(t[0]));
        assert(current.push(t[0]) + t.drop_first() =~= current + t);
    }
}

/// Tokens that are joined by spaces and split again are the same tokens.
pub proof fn joined_tokens_split_as_before(parts: Seq<Seq<char>>)
    requires
        forall|i: int| 0 <= i < parts.len() ==> is_token(#[trigger] parts[i]),
    ensures
        tokens_of(joined(parts)) == parts,
    decreases parts.len(),
{
    let nothing = Seq::<char>::empty();
    let none = Seq::<Seq<char>>::empty();
    lemma_scan_from_start(joined(parts));
    if parts.len() == 0 {
        assert(parts =~= none);
    } else {
        let t = parts[0];
        assert(is_token(t));
        assert(nothing + t =~= t);
        if parts.len() == 1 {
            assert(t + nothing =~= t);
            lemma_scan_takes_token(t, nothing, nothing);
            assert(parts =~= seq![t]);
        } else {
            let rest = parts.drop_first();
            let tail = seq![' '] + joined(rest);
            assert(joined(parts) =~= t + tail);
            lemma_scan_takes_token(t, tail, nothing);
            assert(tail[0] == ' ');
            assert(tail.drop_first() =~= joined(rest));
            assert forall|i: int| 0 <= i < rest.len() implies is_token(#[trigger] rest[i]) by {
                assert(rest[i] == parts[i + 1]);
            }
            joined_tokens_split_as_before(rest);
            lemma_scan_from_start(joined(rest));
            assert(tokens_after(tail, t) == seq![t] + tokens_after(joined(rest), nothing));
            assert(seq![t] + rest =~= parts);
        }
    }
}

/// Tokenizing is stable: the tokens of a text, joined by spaces and
/// tokenized again, are the tokens of the text.
pub proof fn tokenizing_again_changes_nothing(text: Seq<char>)
    ensures
        tokens_of(joined(tokens_of(text))) == tokens_of(text),
{
    tokens_keep_source_order(text);
    joined_tokens_split_as_before(tokens_of(text));
}

/// Splits `text` at every character that is not a letter, digit, `_` or `-`,
/// lower-cases what is left and drops the empty pieces.
pub fn tokenize(text: &str) -> (tokens: Vec<String>)
    ensures
        tokens.deep_view() == tokens_of(text@),
{
    let chars = chars_of(text);
    let mut tokens: Vec<String> = Vec::new();
    let mut current: Vec<char> = Vec::new();
    let mut i: usize = 0;
    proof {
        lemma_scan_from_start(text@);
    }
    assert(chars@.skip(0) =~= chars@);
    assert(tokens.deep_view() + tokens_of(text@) =~= tokens_of(text@));
    while i < chars.len()
        invariant
            i <= chars.len(),
            chars@ == text@,
            tokens_of(text@) == tokens.deep_view() + tokens_after(chars@.skip(i as int), current@),
        decreases chars.len() - i,
    {
        let ch = chars[i];
        let ghost rest = chars@.skip(i as int);
        assert(rest.len() > 0 && rest[0] == ch);
        assert(rest.drop_first() =~= chars@.skip(i + 1));
        if ('a' <= ch && ch <= 'z') || ('A' <= ch && ch <= 'Z') || ('0' <= ch && ch <= '9')
            || ch == '_' || ch == '-' {
            current.push(to_lower_char(ch));
        } else if current.len() > 0 {
            let ghost before = tokens.deep_view();
            let ghost run = current@;
            let ghost later = tokens_after(rest.drop_first(), Seq::empty());
            tokens.push(string_of(&current));
            assert(tokens.deep_view() =~= before + seq![run]);
            assert(before + (seq![run] + later) =~= (before + seq![run]) + later);
            current = Vec::new();
            assert(current@ =~= Seq::<char>::empty());
        } else {
            assert(current@ =~= Seq::<char>::empty());
        }
        i += 1;
    }
    assert(chars@.skip(i as int) =~= Seq::<char>::empty());
    if current.len() > 0 {
        let ghost before = tokens.deep_view();
        tokens.push(string_of(&current));
        assert(tokens.deep_view() =~= before + seq![current@]);
    } else {
        assert(tokens.deep_view() + Seq::<Seq<char>>::empty() =~= tokens.deep_view());
    }
    tokens
}

} // verus!
