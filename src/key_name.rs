use vstd::prelude::*;
use vstd::utf8::{decode_utf8, valid_utf8};
use crate::tree::ExtractedFile;

verus! {

/// ASCII alphanumerics and ASCII punctuation: together, the characters from `!` to `~`.
pub open spec fn is_printable(c: char) -> bool {
    '!' <= c <= '~'
}

/// Whether the key is valid UTF-8 whose every character is printable.
pub open spec fn is_printable_text(key: Seq<u8>) -> bool {
    valid_utf8(key) && forall|i: int|
        0 <= i < decode_utf8(key).len() ==> is_printable(#[trigger] decode_utf8(key)[i])
}

/// The lowercase hexadecimal digit of a value below sixteen.
pub open spec fn hex_digit(n: u8) -> char {
    if n < 10 {
        (n + 48) as char
    } else {
        (n + 87) as char
    }
}

/// Two lowercase hexadecimal digits per byte, in byte order.
pub open spec fn hex_of(key: Seq<u8>) -> Seq<char>
    decreases key.len(),
{
    if key.len() == 0 {
        seq![]
    } else {
        hex_of(key.drop_last()) + seq![hex_digit(key.last() / 16), hex_digit(key.last() % 16)]
    }
}

/// How a raw store key is shown: its text where it is printable text, else `0x` and its hex.
pub open spec fn display_name_of(key: Seq<u8>) -> Seq<char> {
    if is_printable_text(key) {
        decode_utf8(key)
    } else {
        seq!['0', 'x'] + hex_of(key)
    }
}

/// Relies on std::str::from_utf8: it accepts exactly the valid UTF-8 byte sequences and then
/// holds the characters they encode.
#[verifier::external_body]
fn utf8_text(bytes: &[u8]) -> (r: Option<&str>)
    ensures
        match r {
            Some(s) => valid_utf8(bytes@) && s@ == decode_utf8(bytes@),
            None => !valid_utf8(bytes@),
        },
{
    std::str::from_utf8(bytes).ok()
}

/// Relies on String::push: appends one character.
#[verifier::external_body]
fn push_char(s: &mut String, c: char)
    ensures
        final(s)@ == old(s)@.push(c),
{
    s.push(c)
}

fn hex_char(n: u8) -> (c: char)
    requires
        n < 16,
    ensures
        c == hex_digit(n),
{
    if n < 10 {
        (n + 48) as char
    } else {
        (n + 87) as char
    }
}

/// Whether every character of `s` is printable.
fn all_printable(s: &str) -> (r: bool)
    ensures
        r == forall|i: int| 0 <= i < s@.len() ==> is_printable(#[trigger] s@[i]),
{
    if !s.is_ascii() {
        proof {
            let j = choose|j: int| 0 <= j < s@.len() && !('\0' <= #[trigger] s@[j] <= '\u{7f}');
            assert(!is_printable(s@[j]));
        }
        return false;
    }
    let n = s.unicode_len();
    let mut i: usize = 0;
    while i < n
        invariant
            n == s@.len(),
            i <= n,
            s.is_ascii(),
            forall|j: int| 0 <= j < i ==> is_printable(#[trigger] s@[j]),
        decreases n - i,
    {
        let b = s.get_ascii(i);
        assert('\0' <= s@[i as int] <= '\u{7f}');
        if b < 33 || b > 126 {
            assert(!is_printable(s@[i as int]));
            return false;
        }
        i = i + 1;
    }
    true
}

/// `0x` followed by two lowercase hexadecimal digits per byte.
fn hex_name(key: &[u8]) -> (r: String)
    ensures
        r@ == seq!['0', 'x'] + hex_of(key@),
{
    let mut r = String::new();
    push_char(&mut r, '0');
    push_char(&mut r, 'x');
    let mut i: usize = 0;
    while i < key.len()
        invariant
            i <= key@.len(),
            r@ == seq!['0', 'x'] + hex_of(key@.subrange(0, i as int)),
        decreases key.len() - i,
    {
        let b = key[i];
        push_char(&mut r, hex_char(b / 16));
        push_char(&mut r, hex_char(b % 16));
        proof {
            let next = key@.subrange(0, i + 1);
            assert(next.drop_last() =~= key@.subrange(0, i as int));
            assert(next.last() == b);
        }
        i = i + 1;
    }
    assert(key@.subrange(0, key@.len() as int) =~= key@);
    r
}

/// The display form of a raw store key. Never fails: a key that is not printable text is shown
/// in hexadecimal.
pub fn display_name(key: &[u8]) -> (r: String)
    ensures
        r@ == display_name_of(key@),
{
    match utf8_text(key) {
        Some(text) => {
            if all_printable(text) {
                return text.to_owned();
            }
        },
        None => {},
    }
    hex_name(key)
}

/// One record per store entry, in the order given: the key's display form and the byte
/// length of its value.
pub fn key_records(entries: &Vec<(Vec<u8>, usize)>) -> (r: Vec<ExtractedFile>)
    ensures
        r@.len() == entries@.len(),
        forall|i: int|
            0 <= i < entries@.len() ==> (#[trigger] r@[i]).name@ == display_name_of(
                entries@[i].0@,
            ) && r@[i].size == entries@[i].1,
{
    let mut r: Vec<ExtractedFile> = Vec::new();
    let mut i: usize = 0;
    while i < entries.len()
        invariant
            i <= entries@.len(),
            r@.len() == i,
            forall|j: int|
                0 <= j < i ==> (#[trigger] r@[j]).name@ == display_name_of(entries@[j].0@)
                    && r@[j].size == entries@[j].1,
        decreases entries.len() - i,
    {
        let (key, size) = &entries[i];
        let name = display_name(key.as_slice());
        r.push(ExtractedFile { name, size: *size });
        i = i + 1;
    }
    r
}

} // verus!
