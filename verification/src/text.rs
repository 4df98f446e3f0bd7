//! Character-sequence utilities: conversion between strings and character
//! vectors, substring search, replacement, case folding, decimal numbers.
use vstd::prelude::*;

verus! {

/// What `str::to_lowercase` makes of a character sequence (full Unicode
/// lower-casing, as std's tables define it).
pub uninterp spec fn lowercase(s: Seq<char>) -> Seq<char>;

/// Appends one character to a `String` (std `String::push`).
#[verifier::external_body]
pub(crate) fn push_char(s: &mut String, c: char)
    ensures
        final(s)@ == old(s)@.push(c),
{
    s.push(c);
}

/// std `str::to_lowercase`: the contract names the result `lowercase(s@)`
/// and says nothing more of it.
#[verifier::external_body]
pub(crate) fn to_lower(s: &str) -> (r: String)
    ensures
        r@ == lowercase(s@),
{
    s.to_lowercase()
}

/// The characters of a string slice, in order.
pub fn chars_of(s: &str) -> (v: Vec<char>)
    ensures
        v@ == s@,
{
    let mut v: Vec<char> = Vec::new();
    for c in it: s.chars()
        invariant
            v@ == it.seq().take(it.index() as int),
            it.seq() == s@,
    {
        v.push(c);
    }
    v
}

/// A `String` holding exactly the given characters.
pub fn string_of(v: &Vec<char>) -> (s: String)
    ensures
        s@ == v@,
{
    let mut s = String::new();
    let mut i: usize = 0;
    while i < v.len()
        invariant
            i <= v.len(),
            s@ == v@.take(i as int),
        decreases v.len() - i,
    {
        push_char(&mut s, v[i]);
        i += 1;
        assert(s@ =~= v@.take(i as int));
    }
    assert(v@.take(v.len() as int) =~= v@);
    s
}

/// Lower-cased characters of `s` (std `to_lowercase`).
pub fn lower_chars(s: &str) -> (v: Vec<char>)
    ensures
        v@ == lowercase(s@),
{
    let l = to_lower(s);
    chars_of(l.as_str())
}

/// `needle` occurs in `hay` starting at position `i`.
pub open spec fn occurs_at(hay: Seq<char>, needle: Seq<char>, i: int) -> bool {
    &&& 0 <= i
    &&& i + needle.len() <= hay.len()
    &&& hay.subrange(i, i + needle.len()) == needle
}

/// `needle` is a contiguous part of `hay` (`str::contains` with a string pattern).
pub open spec fn has_sub(hay: Seq<char>, needle: Seq<char>) -> bool {
    exists|i: int| occurs_at(hay, needle, i)
}

/// `prefix` begins `s`.
pub open spec fn has_prefix(s: Seq<char>, prefix: Seq<char>) -> bool {
    occurs_at(s, prefix, 0)
}

/// `suffix` ends `s`.
pub open spec fn has_suffix(s: Seq<char>, suffix: Seq<char>) -> bool {
    suffix.len() <= s.len() && occurs_at(s, suffix, s.len() - suffix.len())
}

/// Whether `needle` occurs in `hay` at position `i`.
pub fn matches_at(hay: &Vec<char>, needle: &Vec<char>, i: usize) -> (r: bool)
    ensures
        r == occurs_at(hay@, needle@, i as int),
{
    if i > hay.len() || needle.len() > hay.len() - i {
        return false;
    }
    let mut k: usize = 0;
    while k < needle.len()
        invariant
            i + needle.len() <= hay.len(),
            k <= needle.len(),
            forall|j: int| 0 <= j < k ==> hay@[i + j] == needle@[j],
        decreases needle.len() - k,
    {
        if hay[i + k] != needle[k] {
            assert(hay@.subrange(i as int, i + needle.len())[k as int] != needle@[k as int]);
            return false;
        }
        k += 1;
    }
    assert(hay@.subrange(i as int, i + needle.len()) =~= needle@);
    true
}

/// Whether `needle` occurs anywhere in `hay`.
pub fn contains_seq(hay: &Vec<char>, needle: &Vec<char>) -> (r: bool)
    ensures
        r == has_sub(hay@, needle@),
{
    if needle.len() == 0 {
        assert(hay@.subrange(0, 0) =~= needle@);
        assert(occurs_at(hay@, needle@, 0));
        return true;
    }
    if needle.len() > hay.len() {
        assert forall|j: int| !occurs_at(hay@, needle@, j) by {}
        return false;
    }
    let last = hay.len() - needle.len();
    let mut i: usize = 0;
    while i <= last
        invariant
            last + needle.len() == hay.len(),
            needle.len() >= 1,
            forall|j: int| 0 <= j < i ==> !occurs_at(hay@, needle@, j),
        decreases last + 1 - i,
    {
        if matches_at(hay, needle, i) {
            return true;
        }
        i += 1;
    }
    assert forall|j: int| !occurs_at(hay@, needle@, j) by {
        if 0 <= j < i {
        }
    }
    false
}

/// Whether `s` begins with `prefix`.
pub fn starts_with_seq(s: &Vec<char>, prefix: &Vec<char>) -> (r: bool)
    ensures
        r == has_prefix(s@, prefix@),
{
    matches_at(s, prefix, 0)
}

/// Whether `s` ends with `suffix`.
pub fn ends_with_seq(s: &Vec<char>, suffix: &Vec<char>) -> (r: bool)
    ensures
        r == has_suffix(s@, suffix@),
{
    if suffix.len() > s.len() {
        return false;
    }
    matches_at(s, suffix, s.len() - suffix.len())
}

/// Case-insensitive containment: whether `hay.to_lowercase()` contains the
/// already lower-cased needle.
pub fn contains_lower(hay: &str, needle_lower: &Vec<char>) -> (r: bool)
    ensures
        r == has_sub(lowercase(hay@), needle_lower@),
{
    let h = lower_chars(hay);
    contains_seq(&h, needle_lower)
}

/// Left-to-right replacement of every non-overlapping occurrence of a
/// non-empty `from` by `to` (`str::replace`).
pub open spec fn replaced(s: Seq<char>, from: Seq<char>, to: Seq<char>) -> Seq<char>
    decreases s.len(),
{
    if from.len() == 0 || s.len() < from.len() {
        s
    } else if s.subrange(0, from.len() as int) == from {
        to + replaced(s.subrange(from.len() as int, s.len() as int), from, to)
    } else {
        seq![s[0]] + replaced(s.subrange(1, s.len() as int), from, to)
    }
}

/// Every non-overlapping occurrence of `from`, scanned left to right, is
/// replaced by `to`.
pub fn replace_all(s: &Vec<char>, from: &Vec<char>, to: &Vec<char>) -> (r: Vec<char>)
    requires
        from.len() > 0,
    ensures
        r@ == replaced(s@, from@, to@),
{
    let mut out: Vec<char> = Vec::new();
    let mut i: usize = 0;
    assert(s@.subrange(0, s.len() as int) =~= s@);
    assert(out@ + s@ =~= s@);
    while i < s.len()
        invariant
            from.len() > 0,
            i <= s.len(),
            out@ + replaced(s@.subrange(i as int, s.len() as int), from@, to@) == replaced(
                s@,
                from@,
                to@,
            ),
        decreases s.len() - i,
    {
        let ghost rest = s@.subrange(i as int, s.len() as int);
        if matches_at(s, from, i) {
            assert(rest.subrange(0, from.len() as int) =~= from@);
            assert(rest.subrange(from.len() as int, rest.len() as int) =~= s@.subrange(
                i + from.len(),
                s.len() as int,
            ));
            let mut k: usize = 0;
            let ghost out0 = out@;
            while k < to.len()
                invariant
                    k <= to.len(),
                    out@ == out0 + to@.take(k as int),
                decreases to.len() - k,
            {
                out.push(to[k]);
                k += 1;
                assert(out@ =~= out0 + to@.take(k as int));
            }
            assert(to@.take(to.len() as int) =~= to@);
            assert(out0 + (to@ + replaced(s@.subrange(i + from.len(), s.len() as int), from@, to@))
                =~= out@ + replaced(s@.subrange(i + from.len(), s.len() as int), from@, to@));
            i = i + from.len();
        } else {
            proof {
                if rest.len() >= from@.len() {
                    assert(rest.subrange(0, from.len() as int) =~= s@.subrange(
                        i as int,
                        i + from.len(),
                    ));
                    assert(rest.subrange(0, from.len() as int) != from@);
                }
            }
            assert(rest.subrange(1, rest.len() as int) =~= s@.subrange(i + 1, s.len() as int));
            let ghost out0 = out@;
            out.push(s[i]);
            assert(out0 + (seq![s@[i as int]] + replaced(s@.subrange(i + 1, s.len() as int), from@, to@))
                =~= out@ + replaced(s@.subrange(i + 1, s.len() as int), from@, to@));
            i = i + 1;
        }
    }
    assert(s@.subrange(s.len() as int, s.len() as int) =~= Seq::<char>::empty());
    assert(out@ + Seq::<char>::empty() =~= out@);
    out
}

/// The character of a decimal digit value.
pub open spec fn digit_char(d: nat) -> char {
    if d == 0 { '0' }
    else if d == 1 { '1' }
    else if d == 2 { '2' }
    else if d == 3 { '3' }
    else if d == 4 { '4' }
    else if d == 5 { '5' }
    else if d == 6 { '6' }
    else if d == 7 { '7' }
    else if d == 8 { '8' }
    else { '9' }
}

/// Decimal representation of a natural number, without leading zeros.
pub open spec fn decimal(n: nat) -> Seq<char>
    decreases n,
{
    if n < 10 {
        seq![digit_char(n)]
    } else {
        decimal(n / 10).push(digit_char(n % 10))
    }
}

fn digit_of(d: u64) -> (c: char)
    requires
        d < 10,
    ensures
        c == digit_char(d as nat),
{
    if d == 0 { '0' }
    else if d == 1 { '1' }
    else if d == 2 { '2' }
    else if d == 3 { '3' }
    else if d == 4 { '4' }
    else if d == 5 { '5' }
    else if d == 6 { '6' }
    else if d == 7 { '7' }
    else if d == 8 { '8' }
    else { '9' }
}

/// Appends the decimal digits of `n`.
pub fn push_decimal(out: &mut Vec<char>, n: u64)
    ensures
        final(out)@ == old(out)@ + decimal(n as nat),
    decreases n,
{
    if n >= 10 {
        push_decimal(out, n / 10);
        out.push(digit_of(n % 10));
        assert(final(out)@ =~= old(out)@ + decimal(n as nat));
    } else {
        out.push(digit_of(n));
        assert(final(out)@ =~= old(out)@ + decimal(n as nat));
    }
}

/// `n.to_string()` for an unsigned integer.
pub fn decimal_string(n: u64) -> (s: String)
    ensures
        s@ == decimal(n as nat),
{
    let mut v: Vec<char> = Vec::new();
    push_decimal(&mut v, n);
    assert(v@ =~= decimal(n as nat));
    string_of(&v)
}

/// An ASCII decimal digit.
pub open spec fn is_digit(c: char) -> bool {
    '0' <= c && c <= '9'
}

/// Value of a sequence of decimal digits (most significant first).
pub open spec fn digits_value(d: Seq<char>) -> nat
    decreases d.len(),
{
    if d.len() == 0 {
        0
    } else {
        digits_value(d.drop_last()) * 10 + ((d.last() as u32 - '0' as u32) as nat)
    }
}

/// A non-empty run of decimal digits.
pub open spec fn all_digits(d: Seq<char>) -> bool {
    d.len() > 0 && forall|i: int| 0 <= i < d.len() ==> is_digit(#[trigger] d[i])
}

/// The digits after an optional leading `+` (what std's unsigned `from_str`
/// reads).
pub open spec fn unsigned_body(s: Seq<char>) -> Seq<char> {
    if s.len() > 0 && s[0] == '+' {
        s.subrange(1, s.len() as int)
    } else {
        s
    }
}

/// What `str::parse::<uN>()` gives back, for a type whose largest value is
/// `max`: the value when the text is an optional `+` then one or more digits
/// whose value does not exceed `max`, otherwise nothing.
pub open spec fn parsed_unsigned(s: Seq<char>, max: nat) -> Option<nat> {
    let d = unsigned_body(s);
    if all_digits(d) && digits_value(d) <= max {
        Some(digits_value(d))
    } else {
        None
    }
}

proof fn lemma_digit_char_value(k: nat)
    requires
        k < 10,
    ensures
        is_digit(digit_char(k)),
        ((digit_char(k) as u32 - '0' as u32) as nat) == k,
{
    if k == 0 {} else if k == 1 {} else if k == 2 {} else if k == 3 {} else if k == 4 {}
    else if k == 5 {} else if k == 6 {} else if k == 7 {} else if k == 8 {} else {}
}

proof fn lemma_decimal_digits(n: nat)
    ensures
        all_digits(decimal(n)),
        digits_value(decimal(n)) == n,
        decimal(n)[0] != '+',
    decreases n,
{
    if n < 10 {
        lemma_digit_char_value(n);
        assert(decimal(n) == seq![digit_char(n)]);
        assert(decimal(n).drop_last() =~= Seq::<char>::empty());
        assert(decimal(n).last() == digit_char(n));
        assert(digits_value(decimal(n).drop_last()) == 0);
    } else {
        lemma_decimal_digits(n / 10);
        lemma_digit_char_value(n % 10);
        let p = decimal(n / 10);
        let d = decimal(n);
        assert(d == p.push(digit_char(n % 10)));
        assert(d.drop_last() =~= p);
        assert(d[0] == p[0]);
        assert forall|i: int| 0 <= i < d.len() implies is_digit(#[trigger] d[i]) by {
            if i < p.len() {
                assert(d[i] == p[i]);
            }
        }
        assert(d.last() == digit_char(n % 10));
        assert(digits_value(d) == digits_value(p) * 10 + n % 10);
        assert((n / 10) * 10 + n % 10 == n) by (nonlinear_arith);
    }
}

/// Writing a number in decimal and reading it back as an unsigned number
/// gives the number again, whenever it fits the type read.
pub proof fn law_decimal_reads_back(n: nat, max: nat)
    requires
        n <= max,
    ensures
        parsed_unsigned(decimal(n), max) == Some(n),
{
    lemma_decimal_digits(n);
    assert(unsigned_body(decimal(n)) == decimal(n));
}

/// Reading a signed 32-bit number gives back the number written in decimal,
/// with a leading `-` for a negative one, over the whole range of the type.
pub proof fn law_signed_decimal_reads_back(n: nat)
    ensures
        n <= 0x7fff_ffff ==> parsed_i32(decimal(n)) == Some(n as int),
        1 <= n <= 0x8000_0000 ==> parsed_i32(seq!['-'] + decimal(n)) == Some(-(n as int)),
{
    lemma_decimal_digits(n);
    assert(unsigned_body(decimal(n)) == decimal(n));
    let m = seq!['-'] + decimal(n);
    assert(m[0] == '-');
    assert(m.subrange(1, m.len() as int) =~= decimal(n));
    assert(decimal(n)[0] != '-') by {
        assert(is_digit(decimal(n)[0]));
    }
}

proof fn lemma_digits_value_monotone(d: Seq<char>, k: int)
    requires
        0 <= k <= d.len(),
        forall|i: int| 0 <= i < d.len() ==> is_digit(#[trigger] d[i]),
    ensures
        digits_value(d.take(k)) <= digits_value(d),
    decreases d.len() - k,
{
    if k < d.len() {
        lemma_digits_value_monotone(d, k + 1);
        assert(d.take(k + 1).drop_last() =~= d.take(k));
    } else {
        assert(d.take(k) =~= d);
    }
}

/// Value of the digits `d[start..]`, or `None` when one of them is not a digit,
/// there are none, or the value exceeds `max`.
fn digits_capped(d: &Vec<char>, start: usize, max: u64) -> (r: Option<u64>)
    requires
        start <= d.len(),
    ensures
        ({
            let body = d@.subrange(start as int, d.len() as int);
            match r {
                Some(v) => all_digits(body) && digits_value(body) == v && v <= max,
                None => !(all_digits(body) && digits_value(body) <= max),
            }
        }),
{
    let ghost body = d@.subrange(start as int, d.len() as int);
    if start == d.len() {
        return None;
    }
    let mut acc: u64 = 0;
    let mut i: usize = start;
    while i < d.len()
        invariant
            start < d.len(),
            start <= i <= d.len(),
            body == d@.subrange(start as int, d.len() as int),
            forall|j: int| 0 <= j < i - start ==> is_digit(#[trigger] body[j]),
            acc as nat == digits_value(body.take(i - start)),
            acc <= max,
        decreases d.len() - i,
    {
        let c = d[i];
        if !('0' <= c && c <= '9') {
            assert(!is_digit(body[i - start]));
            return None;
        }
        let dv: u64 = (c as u32 - '0' as u32) as u64;
        assert(body.take(i - start + 1).drop_last() =~= body.take(i - start));
        assert(body.take(i - start + 1).last() == c);
        if dv > max || acc > (max - dv) / 10 {
            proof {
                assert(digits_value(body.take(i - start + 1)) == acc * 10 + dv);
                assert(acc * 10 + dv > max) by (nonlinear_arith)
                    requires dv > max || acc > (max - dv) / 10, dv <= 9;
                if all_digits(body) {
                    lemma_digits_value_monotone(body, i - start + 1);
                }
            }
            return None;
        }
        assert(acc * 10 + dv <= max) by (nonlinear_arith)
            requires acc <= (max - dv) / 10, dv <= max;
        acc = acc * 10 + dv;
        i += 1;
    }
    assert(body.take(i - start) =~= body);
    Some(acc)
}

} // verus!

verus! {

/// An exact copy of a vector of copyable elements.
pub fn copy_vec<T: Copy>(v: &Vec<T>) -> (r: Vec<T>)
    ensures
        r@ == v@,
{
    let mut r: Vec<T> = Vec::new();
    let mut i: usize = 0;
    while i < v.len()
        invariant
            i <= v.len(),
            r@ == v@.take(i as int),
        decreases v.len() - i,
    {
        r.push(v[i]);
        i += 1;
        assert(r@ =~= v@.take(i as int));
    }
    assert(v@.take(v.len() as int) =~= v@);
    r
}

/// An exact copy of a vector of strings.
pub fn copy_strings(v: &Vec<String>) -> (r: Vec<String>)
    ensures
        r@ == v@,
{
    let mut r: Vec<String> = Vec::new();
    let mut i: usize = 0;
    while i < v.len()
        invariant
            i <= v.len(),
            r@ == v@.take(i as int),
        decreases v.len() - i,
    {
        r.push(v[i].clone());
        i += 1;
        assert(r@ =~= v@.take(i as int));
    }
    assert(v@.take(v.len() as int) =~= v@);
    r
}

/// ASCII upper-case letters map to lower case; every other character is kept
/// (`char::to_ascii_lowercase`).
pub open spec fn ascii_lower(c: char) -> char {
    if 'A' <= c && c <= 'Z' {
        ((c as u32) + 32) as char
    } else {
        c
    }
}

/// `c.to_ascii_lowercase()`.
pub fn ascii_lower_char(c: char) -> (r: char)
    ensures
        r == ascii_lower(c),
{
    if 'A' <= c && c <= 'Z' {
        let b: u8 = (c as u32 + 32) as u8;
        assert(b as u32 == c as u32 + 32);
        b as char
    } else {
        c
    }
}

} // verus!

verus! {

/// A file path in the form used as a key: back-slashes become forward
/// slashes and ASCII letters are lower-cased, so two spellings of one
/// Windows path give one key.
pub open spec fn normalized_path(p: Seq<char>) -> Seq<char> {
    p.map_values(|c: char| ascii_lower(if c == '\\' { '/' } else { c }))
}

/// The key form of a file path (see `normalized_path`).
pub fn normalized_path_string(file_path: &str) -> (k: String)
    ensures
        k@ == normalized_path(file_path@),
{
    let cs = chars_of(file_path);
    let mut out: Vec<char> = Vec::new();
    let mut i: usize = 0;
    while i < cs.len()
        invariant
            i <= cs.len(),
            cs@ == file_path@,
            out@ == normalized_path(cs@.take(i as int)),
        decreases cs.len() - i,
    {
        let c = cs[i];
        let c2 = if c == '\\' { '/' } else { c };
        out.push(ascii_lower_char(c2));
        i += 1;
        assert(out@ =~= normalized_path(cs@.take(i as int)));
    }
    assert(cs@.take(cs.len() as int) =~= cs@);
    string_of(&out)
}

/// Normalizing a key again changes nothing, and two spellings of a path
/// that differ only in ASCII case and in the kind of slash give one key.
pub proof fn law_normalized_path_stable(p: Seq<char>, q: Seq<char>)
    requires
        p.len() == q.len(),
        forall|i: int| 0 <= i < p.len() ==> ascii_lower(if p[i] == '\\' { '/' } else { p[i] }) == ascii_lower(
            if q[i] == '\\' { '/' } else { q[i] },
        ),
    ensures
        normalized_path(normalized_path(p)) == normalized_path(p),
        normalized_path(p) == normalized_path(q),
{
    assert(normalized_path(normalized_path(p)) =~= normalized_path(p));
    assert(normalized_path(p) =~= normalized_path(q));
}

} // verus!

verus! {

/// `a`, then `sep`, then `b`, as one string.
pub fn joined(a: &str, sep: &str, b: &str) -> (r: String)
    ensures
        r@ == a@ + sep@ + b@,
{
    let mut r = a.to_owned();
    r.append(sep);
    r.append(b);
    r
}

/// `a` followed by `b`.
pub fn concat(a: &str, b: &str) -> (r: String)
    ensures
        r@ == a@ + b@,
{
    let mut r = a.to_owned();
    r.append(b);
    r
}

/// `c` occurs in `s`.
pub open spec fn has_char(s: Seq<char>, c: char) -> bool {
    exists|i: int| 0 <= i < s.len() && s[i] == c
}

/// Whether `c` occurs in `s`.
pub fn contains_char(s: &str, c: char) -> (b: bool)
    ensures
        b == has_char(s@, c),
{
    let v = chars_of(s);
    let mut i: usize = 0;
    while i < v.len()
        invariant
            v@ == s@,
            i <= v.len(),
            forall|j: int| 0 <= j < i ==> v@[j] != c,
        decreases v.len() - i,
    {
        if v[i] == c {
            return true;
        }
        i += 1;
    }
    false
}

} // verus!

verus! {

/// `s.parse::<u32>()`.
pub fn parse_u32(s: &str) -> (r: Option<u32>)
    ensures
        match r {
            Some(v) => parsed_unsigned(s@, u32::MAX as nat) == Some(v as nat),
            None => parsed_unsigned(s@, u32::MAX as nat) is None,
        },
{
    let v = chars_of(s);
    let start: usize = if v.len() > 0 && v[0] == '+' { 1 } else { 0 };
    assert(v@.subrange(start as int, v@.len() as int) =~= unsigned_body(s@));
    match digits_capped(&v, start, 0xffff_ffffu64) {
        Some(x) => Some(x as u32),
        None => None,
    }
}

/// `s.parse::<usize>()`.
pub fn parse_usize(s: &str) -> (r: Option<usize>)
    ensures
        match r {
            Some(v) => parsed_unsigned(s@, usize::MAX as nat) == Some(v as nat),
            None => parsed_unsigned(s@, usize::MAX as nat) is None,
        },
{
    let v = chars_of(s);
    let start: usize = if v.len() > 0 && v[0] == '+' { 1 } else { 0 };
    assert(v@.subrange(start as int, v@.len() as int) =~= unsigned_body(s@));
    match digits_capped(&v, start, usize::MAX as u64) {
        Some(x) => Some(x as usize),
        None => None,
    }
}

/// What `str::parse::<i32>()` gives back: an optional sign then one or more
/// digits whose value fits in `i32`.
pub open spec fn parsed_i32(s: Seq<char>) -> Option<int> {
    if s.len() > 0 && s[0] == '-' {
        let d = s.subrange(1, s.len() as int);
        if all_digits(d) && digits_value(d) <= 0x8000_0000 {
            Some(-(digits_value(d) as int))
        } else {
            None
        }
    } else {
        match parsed_unsigned(s, 0x7fff_ffff) {
            Some(v) => Some(v as int),
            None => None,
        }
    }
}

/// `s.parse::<i32>()`.
pub fn parse_i32(s: &str) -> (r: Option<i32>)
    ensures
        match r {
            Some(v) => parsed_i32(s@) == Some(v as int),
            None => parsed_i32(s@) is None,
        },
{
    let v = chars_of(s);
    if v.len() > 0 && v[0] == '-' {
        match digits_capped(&v, 1, 0x8000_0000u64) {
            Some(x) => {
                let neg: i64 = 0i64 - (x as i64);
                Some(neg as i32)
            },
            None => None,
        }
    } else {
        let start: usize = if v.len() > 0 && v[0] == '+' { 1 } else { 0 };
        assert(v@.subrange(start as int, v@.len() as int) =~= unsigned_body(s@));
        match digits_capped(&v, start, 0x7fff_ffffu64) {
            Some(x) => Some(x as i32),
            None => None,
        }
    }
}

} // verus!

verus! {

/// Where `s` splits into exactly two parts at `:`: the single colon's
/// position, when `s` holds exactly one colon.
pub open spec fn single_colon_at(s: Seq<char>, i: int) -> bool {
    0 <= i < s.len() && s[i] == ':' && forall|j: int| 0 <= j < s.len() && j != i ==> s[j] != ':'
}

/// The two parts of `s` around its only colon, if it has exactly one
/// (`s.split(':')` yields exactly two pieces).
pub open spec fn split_once_colon(s: Seq<char>) -> Option<(Seq<char>, Seq<char>)> {
    if exists|i: int| single_colon_at(s, i) {
        let i = choose|i: int| single_colon_at(s, i);
        Some((s.subrange(0, i), s.subrange(i + 1, s.len() as int)))
    } else {
        None
    }
}

/// The two parts of `s` around its only colon (see `split_once_colon`).
pub fn split_single_colon(s: &str) -> (r: Option<(String, String)>)
    ensures
        match r {
            Some((a, b)) => split_once_colon(s@) == Some((a@, b@)),
            None => split_once_colon(s@) is None,
        },
{
    let v = chars_of(s);
    let mut pos: Option<usize> = None;
    let mut i: usize = 0;
    while i < v.len()
        invariant
            v@ == s@,
            i <= v.len(),
            match pos {
                Some(p) => p < i && v@[p as int] == ':' && forall|j: int| 0 <= j < i && j != p ==> v@[j] != ':',
                None => forall|j: int| 0 <= j < i ==> v@[j] != ':',
            },
        decreases v.len() - i,
    {
        if v[i] == ':' {
            match pos {
                Some(p) => {
                    proof {
                        assert forall|k: int| !single_colon_at(s@, k) by {
                            if single_colon_at(s@, k) {
                                if k != p {
                                    assert(s@[p as int] != ':');
                                } else {
                                    assert(s@[i as int] != ':');
                                }
                            }
                        }
                    }
                    return None;
                },
                None => {
                    pos = Some(i);
                },
            }
        }
        i += 1;
    }
    match pos {
        Some(p) => {
            proof {
                assert(single_colon_at(s@, p as int));
                let k = choose|k: int| single_colon_at(s@, k);
                if k != p {
                    assert(s@[k] != ':');
                }
            }
            let mut a: Vec<char> = Vec::new();
            let mut b: Vec<char> = Vec::new();
            let mut k: usize = 0;
            while k < v.len()
                invariant
                    p < v.len(),
                    k <= v.len(),
                    a@ == v@.subrange(0, if k < p { k as int } else { p as int }),
                    b@ == if k <= p { Seq::<char>::empty() } else { v@.subrange(p + 1, k as int) },
                decreases v.len() - k,
            {
                if k < p {
                    a.push(v[k]);
                } else if k > p {
                    b.push(v[k]);
                }
                k += 1;
                assert(a@ =~= v@.subrange(0, if k < p { k as int } else { p as int }));
                assert(b@ =~= if k <= p { Seq::<char>::empty() } else { v@.subrange(p + 1, k as int) });
            }
            Some((string_of(&a), string_of(&b)))
        },
        None => {
            proof {
                assert forall|k: int| !single_colon_at(s@, k) by {
                    if single_colon_at(s@, k) {
                        assert(v@[k] != ':');
                    }
                }
            }
            None
        },
    }
}

} // verus!

verus! {

/// `c` has the Unicode `White_Space` property (what std's
/// `char::is_whitespace` tests): tab, line feed, vertical tab, form feed,
/// carriage return, space, next line, no-break space, Ogham space mark, the
/// spaces U+2000 to U+200A, line and paragraph separators, narrow no-break
/// space, medium mathematical space and ideographic space.
pub open spec fn whitespace(c: char) -> bool {
    let u = c as u32;
    (0x09 <= u && u <= 0x0D) || u == 0x20 || u == 0x85 || u == 0xA0 || u == 0x1680 || (0x2000 <= u && u <= 0x200A)
        || u == 0x2028 || u == 0x2029 || u == 0x202F || u == 0x205F || u == 0x3000
}

/// Whether `c` is white space (see `whitespace`).
pub fn is_whitespace_char(c: char) -> (b: bool)
    ensures
        b == whitespace(c),
{
    let u = c as u32;
    (0x09 <= u && u <= 0x0D) || u == 0x20 || u == 0x85 || u == 0xA0 || u == 0x1680 || (0x2000 <= u && u <= 0x200A)
        || u == 0x2028 || u == 0x2029 || u == 0x202F || u == 0x205F || u == 0x3000
}

/// `s` without its leading white space.
pub open spec fn trim_start(s: Seq<char>) -> Seq<char>
    decreases s.len(),
{
    if s.len() > 0 && whitespace(s[0]) {
        trim_start(s.subrange(1, s.len() as int))
    } else {
        s
    }
}

/// `s` without its trailing white space.
pub open spec fn trim_end(s: Seq<char>) -> Seq<char>
    decreases s.len(),
{
    if s.len() > 0 && whitespace(s.last()) {
        trim_end(s.drop_last())
    } else {
        s
    }
}

/// `s` without leading and trailing white space (`str::trim`).
pub open spec fn trimmed(s: Seq<char>) -> Seq<char> {
    trim_end(trim_start(s))
}

/// The characters of `s.trim()`.
pub fn trimmed_chars(s: &str) -> (v: Vec<char>)
    ensures
        v@ == trimmed(s@),
{
    let cs = chars_of(s);
    let n = cs.len();
    let mut i: usize = 0;
    assert(cs@.subrange(0, n as int) =~= cs@);
    while i < n && is_whitespace_char(cs[i])
        invariant
            n == cs@.len(),
            i <= n,
            cs@ == s@,
            trim_start(s@) == trim_start(cs@.subrange(i as int, n as int)),
        decreases n - i,
    {
        assert(cs@.subrange(i as int, n as int).subrange(1, (n - i) as int) =~= cs@.subrange(i + 1, n as int));
        i += 1;
    }
    let ghost start = cs@.subrange(i as int, n as int);
    assert(trim_start(s@) == start);
    let mut j: usize = n;
    assert(start.subrange(0, (j - i) as int) =~= start);
    while j > i && is_whitespace_char(cs[j - 1])
        invariant
            n == cs@.len(),
            i <= j <= n,
            start == cs@.subrange(i as int, n as int),
            trim_end(start) == trim_end(cs@.subrange(i as int, j as int)),
        decreases j,
    {
        assert(cs@.subrange(i as int, j as int).drop_last() =~= cs@.subrange(i as int, j - 1));
        j -= 1;
    }
    let mut v: Vec<char> = Vec::new();
    let mut k: usize = i;
    while k < j
        invariant
            i <= k <= j,
            j <= n,
            n == cs@.len(),
            v@ == cs@.subrange(i as int, k as int),
        decreases j - k,
    {
        v.push(cs[k]);
        k += 1;
        assert(v@ =~= cs@.subrange(i as int, k as int));
    }
    v
}

} // verus!
