//! Small string utilities with character-level contracts.

use vstd::prelude::*;
use vstd::string::*;

verus! {

/// The characters of `text`, in order.
pub fn to_chars(text: &str) -> (out: Vec<char>)
    ensures
        out@ == text@,
{
    let mut out: Vec<char> = Vec::new();
    for c in it: text.chars()
        invariant
            it.seq() == text@,
            0 <= it.index() <= it.seq().len(),
            out@ =~= it.seq().subrange(0, it.index() as int),
    {
        out.push(c);
    }
    out
}

/// The character for the decimal digit `d`.
pub open spec fn digit_char(d: nat) -> char
    recommends
        d < 10,
{
    if d == 0 { '0' } else if d == 1 { '1' } else if d == 2 { '2' } else if d == 3 { '3' } else if d == 4 { '4' }
    else if d == 5 { '5' } else if d == 6 { '6' } else if d == 7 { '7' } else if d == 8 { '8' } else { '9' }
}

/// The decimal notation of `n`, without leading zeros.
pub open spec fn decimal(n: nat) -> Seq<char>
    decreases n,
{
    if n < 10 {
        seq![digit_char(n)]
    } else {
        decimal(n / 10).push(digit_char(n % 10))
    }
}

fn digit_text(d: u64) -> (out: &'static str)
    requires
        d < 10,
    ensures
        out@ == seq![digit_char(d as nat)],
{
    proof {
        reveal_strlit("0");
        reveal_strlit("1");
        reveal_strlit("2");
        reveal_strlit("3");
        reveal_strlit("4");
        reveal_strlit("5");
        reveal_strlit("6");
        reveal_strlit("7");
        reveal_strlit("8");
        reveal_strlit("9");
    }
    let out = if d == 0 { "0" } else if d == 1 { "1" } else if d == 2 { "2" } else if d == 3 { "3" } else if d == 4 { "4" }
    else if d == 5 { "5" } else if d == 6 { "6" } else if d == 7 { "7" } else if d == 8 { "8" } else { "9" };
    assert(out@ =~= seq![digit_char(d as nat)]);
    out
}

/// Writes `n` in decimal.
pub fn format_decimal(n: u64) -> (out: String)
    ensures
        out@ == decimal(n as nat),
    decreases n,
{
    if n < 10 {
        String::from_str(digit_text(n))
    } else {
        let head = format_decimal(n / 10);
        head.concat(digit_text(n % 10))
    }
}

/// Whether `text` begins with `prefix`.
pub fn starts_with(text: &str, prefix: &str) -> (out: bool)
    ensures
        out == prefix@.is_prefix_of(text@),
{
    let chars = to_chars(text);
    let wanted = to_chars(prefix);
    if wanted.len() > chars.len() {
        return false;
    }
    let mut i: usize = 0;
    while i < wanted.len()
        invariant
            i <= wanted.len() <= chars.len(),
            chars@ == text@,
            wanted@ == prefix@,
            forall|k: int| 0 <= k < i ==> chars@[k] == wanted@[k],
        decreases wanted.len() - i,
    {
        if chars[i] != wanted[i] {
            assert(text@.subrange(0, prefix@.len() as int)[i as int] != prefix@[i as int]);
            return false;
        }
        i += 1;
    }
    assert(text@.subrange(0, prefix@.len() as int) =~= prefix@);
    true
}

/// Whether `a` and `b` hold the same characters.
pub fn same_text(a: &str, b: &str) -> (out: bool)
    ensures
        out == (a@ == b@),
{
    let out = starts_with(a, b) && starts_with(b, a);
    proof {
        if out {
            assert(a@ =~= a@.subrange(0, b@.len() as int));
        }
        if a@ == b@ {
            assert(a@.subrange(0, a@.len() as int) =~= a@);
        }
    }
    out
}

/// Whether `text` ends with `suffix`.
pub fn ends_with(text: &str, suffix: &str) -> (out: bool)
    ensures
        out == suffix@.is_suffix_of(text@),
{
    let chars = to_chars(text);
    let wanted = to_chars(suffix);
    if wanted.len() > chars.len() {
        return false;
    }
    let offset: usize = chars.len() - wanted.len();
    let mut i: usize = 0;
    while i < wanted.len()
        invariant
            i <= wanted.len() <= chars.len(),
            offset == chars.len() - wanted.len(),
            chars@ == text@,
            wanted@ == suffix@,
            forall|k: int| 0 <= k < i ==> chars@[offset + k] == wanted@[k],
        decreases wanted.len() - i,
    {
        if chars[offset + i] != wanted[i] {
            assert(text@.subrange(text@.len() - suffix@.len(), text@.len() as int)[i as int]
                != suffix@[i as int]);
            return false;
        }
        i += 1;
    }
    assert(text@.subrange(text@.len() - suffix@.len(), text@.len() as int) =~= suffix@);
    true
}

/// How many times `c` stands at the start of `chars` before another character
/// or the end.
pub open spec fn leading_run(chars: Seq<char>, c: char) -> nat
    decreases chars.len(),
{
    if chars.len() > 0 && chars[0] == c {
        1 + leading_run(chars.drop_first(), c)
    } else {
        0
    }
}

/// `chars` without its leading run of `c`.
pub open spec fn without_leading(chars: Seq<char>, c: char) -> Seq<char> {
    chars.skip(leading_run(chars, c) as int)
}

/// A run of `c` at the start that is followed by another character, or by the
/// end, is the leading run.
pub proof fn lemma_leading_run_is(chars: Seq<char>, c: char, n: nat)
    requires
        n <= chars.len(),
        forall|k: int| 0 <= k < n ==> chars[k] == c,
        n < chars.len() ==> chars[n as int] != c,
    ensures
        leading_run(chars, c) == n,
    decreases n,
{
    if n > 0 {
        let rest = chars.drop_first();
        assert forall|k: int| 0 <= k < n - 1 implies rest[k] == c by {
            assert(rest[k] == chars[k + 1]);
        }
        if n - 1 < rest.len() {
            assert(rest[n - 1] == chars[n as int]);
        }
        lemma_leading_run_is(rest, c, (n - 1) as nat);
    }
}

/// Removes every `c` that stands at the start of `text`.
pub fn strip_leading(text: &str, c: char) -> (out: String)
    ensures
        out@ == without_leading(text@, c),
{
    let chars = to_chars(text);
    let mut n: usize = 0;
    while n < chars.len() && chars[n] == c
        invariant
            n <= chars.len(),
            chars@ == text@,
            forall|k: int| 0 <= k < n ==> chars@[k] == c,
        decreases chars.len() - n,
    {
        n += 1;
    }
    proof {
        lemma_leading_run_is(text@, c, n as nat);
    }
    let rest = text.substring_char(n, chars.len());
    rest.to_owned()
}

/// `a` followed by `b`.
pub fn concat(a: &str, b: &str) -> (out: String)
    ensures
        out@ == a@ + b@,
{
    String::from_str(a).concat(b)
}

/// The first `n` of `items`, with `separator` between each two of them.
pub open spec fn joined_first(items: Seq<Seq<char>>, separator: Seq<char>, n: nat) -> Seq<char>
    decreases n,
{
    if n == 0 || n > items.len() {
        Seq::empty()
    } else if n == 1 {
        items[0]
    } else {
        joined_first(items, separator, (n - 1) as nat) + separator + items[n - 1]
    }
}

/// `items`, with `separator` between each two of them.
pub open spec fn joined(items: Seq<Seq<char>>, separator: Seq<char>) -> Seq<char> {
    joined_first(items, separator, items.len())
}

/// The texts that a list of strings holds.
pub open spec fn texts(items: Seq<String>) -> Seq<Seq<char>> {
    Seq::new(items.len(), |i: int| items[i]@)
}

/// Writes `items` one after the other, with `separator` between each two of
/// them.
pub fn join(items: &Vec<String>, separator: &str) -> (out: String)
    ensures
        out@ == joined(texts(items@), separator@),
{
    let mut out = String::new();
    let mut i: usize = 0;
    while i < items.len()
        invariant
            i <= items.len(),
            out@ == joined_first(texts(items@), separator@, i as nat),
        decreases items.len() - i,
    {
        if i > 0 {
            out.append(separator);
        }
        out.append(items[i].as_str());
        assert(out@ =~= joined_first(texts(items@), separator@, (i + 1) as nat));
        i += 1;
    }
    out
}

#[verifier::external_type_specification]
#[verifier::external_body]
pub struct ExFromUtf8Error(std::string::FromUtf8Error);

/// The string that holds the single character `c`, made by `String::from`.
#[verifier::external_body]
pub(crate) fn string_of_char(c: char) -> (out: String)
    ensures
        out@ == seq![c],
{
    String::from(c)
}

/// Calls `String::from_utf8`, which hands the bytes back as a string where
/// they are valid UTF-8 and refuses them where they are not.
#[verifier::external_body]
pub(crate) fn string_from_utf8(bytes: Vec<u8>) -> (out: Result<String, std::string::FromUtf8Error>)
    ensures
        match out {
            Ok(text) => vstd::utf8::valid_utf8(bytes@) && vstd::utf8::encode_utf8(text@) == bytes@,
            Err(_) => !vstd::utf8::valid_utf8(bytes@),
        },
{
    String::from_utf8(bytes)
}

/// Decodes UTF-8 bytes.
pub fn decode(bytes: Vec<u8>) -> (out: Option<String>)
    ensures
        match out {
            Some(text) => vstd::utf8::valid_utf8(bytes@) && text@ == vstd::utf8::decode_utf8(bytes@),
            None => !vstd::utf8::valid_utf8(bytes@),
        },
{
    let ghost given = bytes@;
    match string_from_utf8(bytes) {
        Ok(text) => {
            proof {
                vstd::utf8::encode_utf8_decode_utf8(text@);
            }
            Some(text)
        },
        Err(_) => None,
    }
}

/// Encodes a string as UTF-8 bytes.
pub fn encode(text: &str) -> (out: Vec<u8>)
    ensures
        out@ == vstd::utf8::encode_utf8(text@),
{
    text.as_bytes_vec()
}

} // verus!
