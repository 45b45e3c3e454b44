//! Small helpers on strings and characters.

use vstd::prelude::*;
use vstd::string::StringExecFns;

verus! {

/// `String::push`. Trusted: the character is appended to the end of the string.
pub assume_specification[ String::push ](s: &mut String, c: char)
    ensures
        final(s)@ == old(s)@.push(c),
;

/// The characters of `s`, in order.
pub fn to_chars(s: &str) -> (r: Vec<char>)
    ensures
        r@ == s@,
{
    let mut r: Vec<char> = Vec::new();
    for c in it: s.chars()
        invariant
            r@ == it.seq().take(it.index()),
            it.seq() == s@,
    {
        r.push(c);
    }
    r
}

/// The string made of the characters `v[from..to]`.
pub fn from_chars(v: &Vec<char>, from: usize, to: usize) -> (r: String)
    requires
        from <= to <= v.len(),
    ensures
        r@ == v@.subrange(from as int, to as int),
{
    let mut r = String::new();
    let mut i: usize = from;
    while i < to
        invariant
            from <= i <= to <= v.len(),
            r@ == v@.subrange(from as int, i as int),
        decreases to - i,
    {
        r.push(v[i]);
        i += 1;
    }
    r
}

/// Whether two strings hold the same characters.
pub fn str_eq(a: &str, b: &str) -> (r: bool)
    ensures
        r == (a@ == b@),
{
    let x = a.as_bytes();
    let y = b.as_bytes();
    proof {
        vstd::utf8::encode_utf8_decode_utf8(a@);
        vstd::utf8::encode_utf8_decode_utf8(b@);
    }
    if x.len() != y.len() {
        return false;
    }
    let mut i: usize = 0;
    while i < x.len()
        invariant
            i <= x.len(),
            x.len() == y.len(),
            x@ == vstd::utf8::encode_utf8(a@),
            y@ == vstd::utf8::encode_utf8(b@),
            forall|j: int| 0 <= j < i ==> x@[j] == y@[j],
        decreases x.len() - i,
    {
        if x[i] != y[i] {
            return false;
        }
        i += 1;
    }
    assert(x@ =~= y@);
    true
}

/// The views of a sequence of strings.
pub open spec fn views(v: Seq<String>) -> Seq<Seq<char>> {
    Seq::new(v.len(), |i: int| v[i]@)
}

/// The view of an optional string.
pub open spec fn opt_view(o: Option<String>) -> Option<Seq<char>> {
    match o {
        Some(s) => Some(s@),
        None => None,
    }
}

/// `s` with every `from` turned into `to`.
pub open spec fn replaced(s: Seq<char>, from: char, to: char) -> Seq<char> {
    Seq::new(s.len(), |i: int| if s[i] == from { to } else { s[i] })
}

/// A copy of `s` in which every `from` is `to`.
pub fn replace_char(s: &str, from: char, to: char) -> (r: String)
    ensures
        r@ == replaced(s@, from, to),
{
    let mut r = String::new();
    for c in it: s.chars()
        invariant
            it.seq() == s@,
            r@ == replaced(s@, from, to).take(it.index()),
    {
        r.push(if c == from { to } else { c });
    }
    r
}

/// A copy of a list of strings.
pub fn copy_strings(v: &Vec<String>) -> (r: Vec<String>)
    ensures
        views(r@) == views(v@),
{
    let mut r: Vec<String> = Vec::new();
    let mut i: usize = 0;
    while i < v.len()
        invariant
            i <= v.len(),
            r.len() == i,
            forall|j: int| 0 <= j < i ==> r@[j]@ == v@[j]@,
        decreases v.len() - i,
    {
        r.push(v[i].clone());
        i += 1;
    }
    assert(views(r@) =~= views(v@));
    r
}

/// A copy of an optional string.
pub fn copy_opt_string(o: &Option<String>) -> (r: Option<String>)
    ensures
        opt_view(r) == opt_view(*o),
{
    match o {
        Some(s) => Some(s.clone()),
        None => None,
    }
}

/// `a` followed by `b`.
pub fn joined(a: &str, b: &str) -> (r: String)
    ensures
        r@ == a@ + b@,
{
    let mut r = a.to_owned();
    r.append(b);
    r
}

/// The first place from `from` on at which `s` holds `c`; the length of `s` if there is none.
pub open spec fn find_char(s: Seq<char>, c: char, from: int) -> int
    decreases s.len() - from,
{
    if from < 0 || from >= s.len() {
        s.len() as int
    } else if s[from] == c {
        from
    } else {
        find_char(s, c, from + 1)
    }
}

/// `find_char` lies between `from` and the length, and nothing before it is `c`.
pub proof fn lemma_find_char(s: Seq<char>, c: char, from: int)
    requires
        0 <= from <= s.len(),
    ensures
        from <= find_char(s, c, from) <= s.len(),
        find_char(s, c, from) < s.len() ==> s[find_char(s, c, from)] == c,
        forall|j: int| from <= j < find_char(s, c, from) ==> s[j] != c,
    decreases s.len() - from,
{
    if from < s.len() && s[from] != c {
        lemma_find_char(s, c, from + 1);
    }
}

/// The first place from `from` on at which `v` holds `c`; the length of `v` if there is none.
pub fn index_of(v: &Vec<char>, c: char, from: usize) -> (r: usize)
    requires
        from <= v.len(),
    ensures
        r as int == find_char(v@, c, from as int),
        from <= r <= v.len(),
{
    let mut i: usize = from;
    while i < v.len()
        invariant
            from <= i <= v.len(),
            find_char(v@, c, from as int) == find_char(v@, c, i as int),
        decreases v.len() - i,
    {
        if v[i] == c {
            return i;
        }
        i += 1;
    }
    i
}

/// The character of a digit below sixteen, in lower case.
pub open spec fn digit_of(d: int) -> char {
    if d == 0 {
        '0'
    } else if d == 1 {
        '1'
    } else if d == 2 {
        '2'
    } else if d == 3 {
        '3'
    } else if d == 4 {
        '4'
    } else if d == 5 {
        '5'
    } else if d == 6 {
        '6'
    } else if d == 7 {
        '7'
    } else if d == 8 {
        '8'
    } else if d == 9 {
        '9'
    } else if d == 10 {
        'a'
    } else if d == 11 {
        'b'
    } else if d == 12 {
        'c'
    } else if d == 13 {
        'd'
    } else if d == 14 {
        'e'
    } else {
        'f'
    }
}

/// The character of a digit below sixteen, in lower case.
pub fn digit_char(d: u8) -> (r: char)
    requires
        d < 16,
    ensures
        r == digit_of(d as int),
{
    match d {
        0 => '0',
        1 => '1',
        2 => '2',
        3 => '3',
        4 => '4',
        5 => '5',
        6 => '6',
        7 => '7',
        8 => '8',
        9 => '9',
        10 => 'a',
        11 => 'b',
        12 => 'c',
        13 => 'd',
        14 => 'e',
        _ => 'f',
    }
}

/// A number written to the base 10, without leading zeros.
pub open spec fn decimal_of(n: nat) -> Seq<char>
    decreases n,
{
    if n < 10 {
        seq![digit_of(n as int)]
    } else {
        decimal_of(n / 10).push(digit_of((n % 10) as int))
    }
}

/// Writes a number to the base 10.
pub fn decimal(n: u64) -> (r: String)
    ensures
        r@ == decimal_of(n as nat),
    decreases n,
{
    if n < 10 {
        let mut r = String::new();
        r.push(digit_char(n as u8));
        r
    } else {
        let mut r = decimal(n / 10);
        r.push(digit_char((n % 10) as u8));
        r
    }
}

/// A number written to the base 16 in lower case, without leading zeros.
pub open spec fn hex_of(n: nat) -> Seq<char>
    decreases n,
{
    if n < 16 {
        seq![digit_of(n as int)]
    } else {
        hex_of(n / 16).push(digit_of((n % 16) as int))
    }
}

/// Bytes written as two lower-case hexadecimal digits each.
pub open spec fn hex_bytes_of(bytes: Seq<u8>) -> Seq<char>
    decreases bytes.len(),
{
    if bytes.len() == 0 {
        Seq::empty()
    } else {
        hex_bytes_of(bytes.drop_last()).push(digit_of(bytes.last() as int / 16)).push(
            digit_of(bytes.last() as int % 16),
        )
    }
}

/// Writes bytes as two lower-case hexadecimal digits each.
pub fn hex_bytes(bytes: &Vec<u8>) -> (r: String)
    ensures
        r@ == hex_bytes_of(bytes@),
{
    let mut r = String::new();
    let mut i: usize = 0;
    while i < bytes.len()
        invariant
            i <= bytes.len(),
            r@ == hex_bytes_of(bytes@.take(i as int)),
        decreases bytes.len() - i,
    {
        let b = bytes[i];
        r.push(digit_char(b / 16));
        r.push(digit_char(b % 16));
        proof {
            assert(bytes@.take(i + 1).drop_last() =~= bytes@.take(i as int));
        }
        i += 1;
    }
    proof {
        assert(bytes@.take(i as int) =~= bytes@);
    }
    r
}

/// Calls `String::from_utf8`. Trusted: bytes that are valid UTF-8 give the
/// string that has them as its UTF-8 form, and other bytes give nothing.
#[verifier::external_body]
pub(crate) fn string_from_utf8(bytes: Vec<u8>) -> (r: Option<String>)
    ensures
        match r {
            Some(s) => vstd::utf8::valid_utf8(bytes@) && vstd::utf8::encode_utf8(s@) == bytes@,
            None => !vstd::utf8::valid_utf8(bytes@),
        },
{
    String::from_utf8(bytes).ok()
}

/// The text that a request came with: its bytes where they are valid
/// UTF-8, and nothing where they are not.
pub open spec fn text_of_bytes(bytes: Seq<u8>) -> Seq<char> {
    if vstd::utf8::valid_utf8(bytes) {
        vstd::utf8::decode_utf8(bytes)
    } else {
        Seq::empty()
    }
}

/// The text that a request came with.
pub fn request_text(body: Vec<u8>) -> (r: String)
    ensures
        r@ == text_of_bytes(body@),
{
    match string_from_utf8(body) {
        Some(s) => {
            proof {
                vstd::utf8::encode_utf8_decode_utf8(s@);
            }
            s
        },
        None => String::new(),
    }
}

} // verus!
