//! Character-level text operations with exact specifications.
//!
//! Every function here states its result over `Seq<char>` views, so the
//! parsers and command builders elsewhere in the crate can be specified in
//! terms of these definitions.
use vstd::prelude::*;
use vstd::string::*;

verus! {

/// The view of a vector of owned strings.
pub open spec fn strs(v: Seq<String>) -> Seq<Seq<char>> {
    v.map_values(|s: String| s@)
}

/// The view of a slice of borrowed strings.
pub open spec fn strs_ref(v: Seq<&str>) -> Seq<Seq<char>> {
    v.map_values(|s: &str| s@)
}

pub open spec fn is_prefix(p: Seq<char>, s: Seq<char>) -> bool {
    p.len() <= s.len() && s.subrange(0, p.len() as int) == p
}

pub open spec fn is_suffix(p: Seq<char>, s: Seq<char>) -> bool {
    p.len() <= s.len() && s.subrange(s.len() - p.len(), s.len() as int) == p
}

/// `needle` occurs in `s` starting at position `i`.
pub open spec fn occurs_at(s: Seq<char>, needle: Seq<char>, i: int) -> bool {
    0 <= i && i + needle.len() <= s.len() && s.subrange(i, i + needle.len()) == needle
}

pub open spec fn contains(s: Seq<char>, needle: Seq<char>) -> bool {
    exists|i: int| occurs_at(s, needle, i)
}

pub open spec fn is_hex_digit(c: char) -> bool {
    is_digit(c) || ('a' <= c && c <= 'f') || ('A' <= c && c <= 'F')
}

pub open spec fn hex_digit_value(c: char) -> nat {
    if is_digit(c) {
        ((c as u32) - ('0' as u32)) as nat
    } else if 'a' <= c && c <= 'f' {
        ((c as u32) - ('a' as u32) + 10) as nat
    } else {
        ((c as u32) - ('A' as u32) + 10) as nat
    }
}

pub open spec fn all_hex(s: Seq<char>) -> bool {
    forall|i: int| 0 <= i < s.len() ==> is_hex_digit(#[trigger] s[i])
}

/// Value of a string of hexadecimal digits.
pub open spec fn hex_value(s: Seq<char>) -> nat
    decreases s.len(),
{
    if s.len() == 0 {
        0
    } else {
        hex_value(s.drop_last()) * 16 + hex_digit_value(s.last())
    }
}

/// What `u16::from_str_radix(s, 16)` accepts: an optional `+` and at least
/// one hexadecimal digit, with a value that fits.
pub open spec fn parse_hex_u16(s: Seq<char>) -> Option<u16> {
    let d = if s.len() > 0 && s[0] == '+' { s.drop_first() } else { s };
    if d.len() > 0 && all_hex(d) && hex_value(d) <= u16::MAX {
        Some(hex_value(d) as u16)
    } else {
        None
    }
}

/// A line without the `\r` of a `\r\n` ending.
pub open spec fn strip_cr(l: Seq<char>) -> Seq<char> {
    if l.len() > 0 && l.last() == '\r' {
        l.drop_last()
    } else {
        l
    }
}

/// `str::lines`: pieces between `\n`, a `\r` before the `\n` dropped, with no
/// empty piece after a final `\n` and no lines at all in empty text.
pub open spec fn lines(s: Seq<char>) -> Seq<Seq<char>> {
    let parts = split(s, seq!['\n']);
    if s.len() == 0 {
        seq![]
    } else if s.last() == '\n' {
        parts.drop_last().map_values(|l: Seq<char>| strip_cr(l))
    } else {
        parts.drop_last().map_values(|l: Seq<char>| strip_cr(l)).push(parts.last())
    }
}

/// The length of the first run of non-whitespace characters.
pub open spec fn word_len(s: Seq<char>) -> nat
    decreases s.len(),
{
    if s.len() > 0 && !is_ws(s[0]) {
        1 + word_len(s.drop_first())
    } else {
        0
    }
}

/// `s.split_whitespace().next()`, or empty text when there is no word.
pub open spec fn first_word(s: Seq<char>) -> Seq<char> {
    let t = s.subrange(trim_start_len(s) as int, s.len() as int);
    t.subrange(0, word_len(t) as int)
}

/// The last position of `c` in `s`.
pub open spec fn last_index_of(s: Seq<char>, c: char) -> Option<int> {
    if exists|i: int| 0 <= i < s.len() && s[i] == c {
        Some(choose|i: int| 0 <= i < s.len() && s[i] == c && forall|j: int| i < j < s.len() ==> s[j] != c)
    } else {
        None
    }
}

/// The first position at or after `i` where `needle` occurs in `s`.
pub open spec fn find_from(s: Seq<char>, needle: Seq<char>, i: int) -> Option<int>
    decreases s.len() + 1 - i,
{
    if i < 0 || i > s.len() {
        None
    } else if occurs_at(s, needle, i) {
        Some(i)
    } else {
        find_from(s, needle, i + 1)
    }
}

/// The first position where `needle` occurs in `s`.
pub open spec fn first_occ(s: Seq<char>, needle: Seq<char>) -> Option<int> {
    find_from(s, needle, 0)
}

/// `s.split_once(sep)`: the text before and after the first `sep`.
pub open spec fn split_once(s: Seq<char>, sep: Seq<char>) -> Option<(Seq<char>, Seq<char>)> {
    match first_occ(s, sep) {
        Some(i) => Some((s.subrange(0, i), s.subrange(i + sep.len(), s.len() as int))),
        None => None,
    }
}

/// `s.split(sep).next()`: the text before the first `sep`, or all of `s`.
pub open spec fn before_first(s: Seq<char>, sep: Seq<char>) -> Seq<char> {
    match split_once(s, sep) {
        Some(p) => p.0,
        None => s,
    }
}

pub open spec fn is_digit(c: char) -> bool {
    '0' <= c && c <= '9'
}

pub open spec fn is_ascii_alnum(c: char) -> bool {
    is_digit(c) || ('a' <= c && c <= 'z') || ('A' <= c && c <= 'Z')
}

pub open spec fn ascii_lower(c: char) -> char {
    if 'A' <= c && c <= 'Z' {
        ((c as u32) + 32) as char
    } else {
        c
    }
}

pub open spec fn ascii_upper(c: char) -> char {
    if 'a' <= c && c <= 'z' {
        ((c as u32) - 32) as char
    } else {
        c
    }
}

pub open spec fn lower(s: Seq<char>) -> Seq<char> {
    s.map_values(|c: char| ascii_lower(c))
}

pub open spec fn upper(s: Seq<char>) -> Seq<char> {
    s.map_values(|c: char| ascii_upper(c))
}

/// Unicode White_Space, as used by `char::is_whitespace`.
pub open spec fn is_ws(c: char) -> bool {
    ||| c == ' ' || c == '\t' || c == '\n' || c == '\r'
    ||| c == '\u{0B}' || c == '\u{0C}' || c == '\u{85}' || c == '\u{A0}'
    ||| c == '\u{1680}' || ('\u{2000}' <= c && c <= '\u{200A}')
    ||| c == '\u{2028}' || c == '\u{2029}' || c == '\u{202F}' || c == '\u{205F}'
    ||| c == '\u{3000}'
}

/// Value of a string of decimal digits.
pub open spec fn digits_value(s: Seq<char>) -> nat
    decreases s.len(),
{
    if s.len() == 0 {
        0
    } else {
        digits_value(s.drop_last()) * 10 + ((s.last() as u32) - ('0' as u32)) as nat
    }
}

pub open spec fn all_digits(s: Seq<char>) -> bool {
    forall|i: int| 0 <= i < s.len() ==> is_digit(#[trigger] s[i])
}

/// What `str::parse::<u32>` accepts: an optional `+` and at least one digit,
/// with a value that fits.
pub open spec fn parse_u32(s: Seq<char>) -> Option<u32> {
    let d = if s.len() > 0 && s[0] == '+' { s.drop_first() } else { s };
    if d.len() > 0 && all_digits(d) && digits_value(d) <= u32::MAX {
        Some(digits_value(d) as u32)
    } else {
        None
    }
}

/// What `str::parse::<u64>` accepts.
pub open spec fn parse_u64(s: Seq<char>) -> Option<u64> {
    let d = if s.len() > 0 && s[0] == '+' { s.drop_first() } else { s };
    if d.len() > 0 && all_digits(d) && digits_value(d) <= u64::MAX {
        Some(digits_value(d) as u64)
    } else {
        None
    }
}

pub open spec fn digit_char(d: nat) -> char {
    (('0' as u32) + d) as char
}

/// Decimal rendering of a natural number, as `to_string` gives it.
pub open spec fn nat_str(n: nat) -> Seq<char>
    decreases n,
{
    if n < 10 {
        seq![digit_char(n)]
    } else {
        nat_str(n / 10).push(digit_char(n % 10))
    }
}

/// Splits `s` at every character of `seps`, keeping empty pieces, as
/// `str::split` does with a set of separator characters.
pub open spec fn split(s: Seq<char>, seps: Seq<char>) -> Seq<Seq<char>>
    decreases s.len(),
{
    if s.len() == 0 {
        seq![Seq::<char>::empty()]
    } else {
        let prior = split(s.drop_last(), seps);
        if seps.contains(s.last()) {
            prior.push(Seq::<char>::empty())
        } else {
            prior.update(prior.len() - 1, prior.last().push(s.last()))
        }
    }
}

/// Splits `s` at every character that is not a digit (`split(|c| !c.is_ascii_digit())`).
pub open spec fn split_non_digits(s: Seq<char>) -> Seq<Seq<char>>
    decreases s.len(),
{
    if s.len() == 0 {
        seq![Seq::<char>::empty()]
    } else {
        let prior = split_non_digits(s.drop_last());
        if !is_digit(s.last()) {
            prior.push(Seq::<char>::empty())
        } else {
            prior.update(prior.len() - 1, prior.last().push(s.last()))
        }
    }
}

pub open spec fn trim_start_len(s: Seq<char>) -> nat
    decreases s.len(),
{
    if s.len() > 0 && is_ws(s[0]) {
        1 + trim_start_len(s.drop_first())
    } else {
        0
    }
}

pub open spec fn trim_end_len(s: Seq<char>) -> nat
    decreases s.len(),
{
    if s.len() > 0 && is_ws(s.last()) {
        1 + trim_end_len(s.drop_last())
    } else {
        0
    }
}

/// `str::trim`.
pub open spec fn trim(s: Seq<char>) -> Seq<char> {
    let a = trim_start_len(s);
    let t = s.subrange(a as int, s.len() as int);
    t.subrange(0, t.len() - trim_end_len(t))
}

/// `join(sep)` over a sequence of pieces.
pub open spec fn join(pieces: Seq<Seq<char>>, sep: Seq<char>) -> Seq<char>
    decreases pieces.len(),
{
    if pieces.len() == 0 {
        Seq::empty()
    } else if pieces.len() == 1 {
        pieces[0]
    } else {
        join(pieces.drop_last(), sep) + sep + pieces.last()
    }
}

proof fn lemma_trim_start_len_bound(s: Seq<char>)
    ensures
        trim_start_len(s) <= s.len(),
        forall|j: int| 0 <= j < trim_start_len(s) ==> is_ws(#[trigger] s[j]),
        trim_start_len(s) < s.len() ==> !is_ws(s[trim_start_len(s) as int]),
    decreases s.len(),
{
    if s.len() > 0 && is_ws(s[0]) {
        lemma_trim_start_len_bound(s.drop_first());
        assert forall|j: int| 0 <= j < trim_start_len(s) implies is_ws(#[trigger] s[j]) by {
            if j > 0 {
                assert(s[j] == s.drop_first()[j - 1]);
            }
        }
        if trim_start_len(s) < s.len() {
            assert(s[trim_start_len(s) as int] == s.drop_first()[trim_start_len(s.drop_first()) as int]);
        }
    }
}

proof fn lemma_trim_end_len_bound(s: Seq<char>)
    ensures
        trim_end_len(s) <= s.len(),
    decreases s.len(),
{
    if s.len() > 0 && is_ws(s.last()) {
        lemma_trim_end_len_bound(s.drop_last());
    }
}

/// The characters of a string slice, in order.
pub fn chars_of(s: &str) -> (v: Vec<char>)
    ensures
        v@ == s@,
{
    broadcast use vstd::string::group_string_axioms;
    let mut v: Vec<char> = Vec::new();
    for c in it: s.chars()
        invariant
            v@ == it.seq().take(it.index() as int),
            it.seq() == s@,
    {
        v.push(c);
    }
    v
}

/// Whether `needle` occurs in `hay` at position `i`.
pub fn matches_at(hay: &Vec<char>, needle: &Vec<char>, i: usize) -> (b: bool)
    ensures
        b == occurs_at(hay@, needle@, i as int),
{
    if i > hay.len() || needle.len() > hay.len() - i {
        return false;
    }
    let mut k: usize = 0;
    while k < needle.len()
        invariant
            i + needle.len() <= hay.len(),
            k <= needle.len(),
            forall|j: int| 0 <= j < k ==> hay@[i + j] == needle@[j],
        decreases needle.len() - k,
    {
        if hay[i + k] != needle[k] {
            assert(hay@.subrange(i as int, i + needle.len())[k as int] != needle@[k as int]);
            return false;
        }
        k = k + 1;
    }
    assert(hay@.subrange(i as int, i + needle.len()) =~= needle@);
    true
}

/// The first position at which `needle` occurs in `hay`.
pub fn find_chars(hay: &Vec<char>, needle: &Vec<char>) -> (r: Option<usize>)
    ensures
        match r {
            Some(i) => occurs_at(hay@, needle@, i as int) && forall|j: int|
                0 <= j < i ==> !occurs_at(hay@, needle@, j),
            None => !contains(hay@, needle@),
        },
{
    let mut i: usize = 0;
    loop
        invariant
            i <= hay.len(),
            forall|j: int| 0 <= j < i ==> !occurs_at(hay@, needle@, j),
        decreases hay.len() - i,
    {
        if matches_at(hay, needle, i) {
            return Some(i);
        }
        if i == hay.len() {
            assert forall|j: int| !occurs_at(hay@, needle@, j) by {
                if 0 <= j && j <= i {
                }
            }
            return None;
        }
        i = i + 1;
    }
}

pub fn contains_chars(hay: &Vec<char>, needle: &Vec<char>) -> (b: bool)
    ensures
        b == contains(hay@, needle@),
{
    find_chars(hay, needle).is_some()
}

/// `str::contains` for a string needle.
pub fn contains_str(s: &str, needle: &str) -> (b: bool)
    ensures
        b == contains(s@, needle@),
{
    let h = chars_of(s);
    let n = chars_of(needle);
    contains_chars(&h, &n)
}

/// The first position of `needle` in `s`, in characters.
pub fn find_str(s: &str, needle: &str) -> (r: Option<usize>)
    ensures
        match r {
            Some(i) => occurs_at(s@, needle@, i as int) && forall|j: int|
                0 <= j < i ==> !occurs_at(s@, needle@, j),
            None => !contains(s@, needle@),
        },
{
    let h = chars_of(s);
    let n = chars_of(needle);
    find_chars(&h, &n)
}

proof fn lemma_find_from(s: Seq<char>, needle: Seq<char>, k: int, i: int)
    requires
        0 <= k <= i,
        occurs_at(s, needle, i),
        forall|j: int| 0 <= j < i ==> !occurs_at(s, needle, j),
    ensures
        find_from(s, needle, k) == Some(i),
    decreases i - k,
{
    if k < i {
        lemma_find_from(s, needle, k + 1, i);
    }
}

proof fn lemma_find_none(s: Seq<char>, needle: Seq<char>, k: int)
    requires
        0 <= k,
        !contains(s, needle),
    ensures
        find_from(s, needle, k) is None,
    decreases s.len() + 1 - k,
{
    if k <= s.len() {
        assert(!occurs_at(s, needle, k));
        lemma_find_none(s, needle, k + 1);
    }
}

/// The first position of `needle` in `s`, as `first_occ` states it.
pub fn first_position(s: &str, needle: &str) -> (r: Option<usize>)
    ensures
        match r {
            Some(i) => first_occ(s@, needle@) == Some(i as int) && i + needle@.len() <= s@.len(),
            None => first_occ(s@, needle@) is None,
        },
{
    let r = find_str(s, needle);
    proof {
        match r {
            Some(i) => lemma_find_from(s@, needle@, 0, i as int),
            None => lemma_find_none(s@, needle@, 0),
        }
    }
    r
}

/// `s.split_once(sep)`.
pub fn split_once_str(s: &str, sep: &str) -> (r: Option<(String, String)>)
    ensures
        match r {
            Some(p) => split_once(s@, sep@) == Some((p.0@, p.1@)),
            None => split_once(s@, sep@) is None,
        },
{
    match first_position(s, sep) {
        Some(i) => {
            let n = s.unicode_len();
            let a = substring(s, 0, i);
            let b = substring(s, i + sep.unicode_len(), n);
            Some((a, b))
        },
        None => None,
    }
}

/// `s.split(sep).next()`: the text before the first `sep`, or all of `s`.
pub fn before_first_str(s: &str, sep: &str) -> (r: String)
    ensures
        r@ == before_first(s@, sep@),
{
    match split_once_str(s, sep) {
        Some(p) => p.0,
        None => String::from_str(s),
    }
}

/// `u16::from_str_radix(s, 16)` on the characters `c[from..to]`.
pub fn parse_hex_u16_range(c: &Vec<char>, from: usize, to: usize) -> (r: Option<u16>)
    requires
        from <= to <= c.len(),
    ensures
        r == parse_hex_u16(c@.subrange(from as int, to as int)),
{
    let ghost s = c@.subrange(from as int, to as int);
    let start = if from < to && c[from] == '+' { from + 1 } else { from };
    let ghost d = c@.subrange(start as int, to as int);
    proof {
        if from < to && c@[from as int] == '+' {
            assert(s.drop_first() =~= d);
        } else {
            assert(s =~= d);
        }
    }
    assert((if s.len() > 0 && s[0] == '+' { s.drop_first() } else { s }) == d);
    if start == to {
        return None;
    }
    let mut acc: u32 = 0;
    let mut i: usize = start;
    while i < to
        invariant
            start <= i <= to <= c.len(),
            d == c@.subrange(start as int, to as int),
            s == c@.subrange(from as int, to as int),
            (if s.len() > 0 && s[0] == '+' { s.drop_first() } else { s }) == d,
            forall|j: int| 0 <= j < i - start ==> is_hex_digit(#[trigger] d[j]),
            acc == hex_value(d.take(i - start)),
            acc <= 0xffff,
        decreases to - i,
    {
        let x = c[i];
        assert(d[i - start] == x);
        assert(d.take(i - start + 1).drop_last() =~= d.take(i - start));
        let v: u32 = if '0' <= x && x <= '9' {
            x as u32 - '0' as u32
        } else if 'a' <= x && x <= 'f' {
            x as u32 - 'a' as u32 + 10
        } else if 'A' <= x && x <= 'F' {
            x as u32 - 'A' as u32 + 10
        } else {
            assert(!is_hex_digit(d[i - start]));
            return None;
        };
        acc = acc * 16 + v;
        i = i + 1;
        if acc > 0xffff {
            proof {
                lemma_hex_take(d, i - start);
            }
            return None;
        }
    }
    assert(d.take(to - start) =~= d);
    Some(acc as u16)
}

/// What `u32::from_str_radix(s, 16)` accepts: an optional `+` and at least
/// one hexadecimal digit, with a value that fits.
pub open spec fn parse_hex_u32(s: Seq<char>) -> Option<u32> {
    let d = if s.len() > 0 && s[0] == '+' { s.drop_first() } else { s };
    if d.len() > 0 && all_hex(d) && hex_value(d) <= u32::MAX {
        Some(hex_value(d) as u32)
    } else {
        None
    }
}

/// `u32::from_str_radix(&c[from..to], 16).ok()`.
pub fn parse_hex_u32_range(c: &Vec<char>, from: usize, to: usize) -> (r: Option<u32>)
    requires
        from <= to <= c.len(),
    ensures
        r == parse_hex_u32(c@.subrange(from as int, to as int)),
{
    let ghost s = c@.subrange(from as int, to as int);
    let start = if from < to && c[from] == '+' { from + 1 } else { from };
    let ghost d = c@.subrange(start as int, to as int);
    proof {
        if from < to && c@[from as int] == '+' {
            assert(s.drop_first() =~= d);
        } else {
            assert(s =~= d);
        }
    }
    assert((if s.len() > 0 && s[0] == '+' { s.drop_first() } else { s }) == d);
    if start == to {
        return None;
    }
    let mut acc: u64 = 0;
    let mut i: usize = start;
    while i < to
        invariant
            start <= i <= to <= c.len(),
            d == c@.subrange(start as int, to as int),
            s == c@.subrange(from as int, to as int),
            (if s.len() > 0 && s[0] == '+' { s.drop_first() } else { s }) == d,
            forall|j: int| 0 <= j < i - start ==> is_hex_digit(#[trigger] d[j]),
            acc == hex_value(d.take(i - start)),
            acc <= 0xffff_ffff,
        decreases to - i,
    {
        let x = c[i];
        assert(d[i - start] == x);
        assert(d.take(i - start + 1).drop_last() =~= d.take(i - start));
        let v: u64 = if '0' <= x && x <= '9' {
            x as u64 - '0' as u64
        } else if 'a' <= x && x <= 'f' {
            x as u64 - 'a' as u64 + 10
        } else if 'A' <= x && x <= 'F' {
            x as u64 - 'A' as u64 + 10
        } else {
            assert(!is_hex_digit(d[i - start]));
            return None;
        };
        acc = acc * 16 + v;
        i = i + 1;
        if acc > 0xffff_ffff {
            proof {
                lemma_hex_take(d, i - start);
            }
            return None;
        }
    }
    assert(d.take(to - start) =~= d);
    Some(acc as u32)
}

proof fn lemma_hex_take(s: Seq<char>, k: int)
    requires
        0 <= k <= s.len(),
    ensures
        hex_value(s.take(k)) <= hex_value(s),
    decreases s.len(),
{
    if k < s.len() {
        assert(s.drop_last().take(k) =~= s.take(k));
        lemma_hex_take(s.drop_last(), k);
    } else {
        assert(s.take(k) =~= s);
    }
}

/// `str::lines`.
pub fn lines_of(s: &str) -> (r: Vec<String>)
    ensures
        strs(r@) == lines(s@),
{
    let parts = split_str(s, &['\n']);
    assert(['\n']@ =~= seq!['\n']);
    let n = s.unicode_len();
    let mut r: Vec<String> = Vec::new();
    if n == 0 {
        return r;
    }
    let last = s.get_char(n - 1);
    let mut i: usize = 0;
    while i + 1 < parts.len()
        invariant
            i + 1 <= parts.len(),
            strs(parts@) == split(s@, seq!['\n']),
            strs(r@) == strs(parts@).take(i as int).map_values(|l: Seq<char>| strip_cr(l)),
        decreases parts.len() - i,
    {
        let p = parts[i].as_str();
        let k = p.unicode_len();
        let line = if k > 0 && p.get_char(k - 1) == '\r' {
            substring(p, 0, k - 1)
        } else {
            String::from_str(p)
        };
        let ghost before = r@;
        r.push(line);
        assert(strs(r@) =~= strs(before).push(strip_cr(parts@[i as int]@)));
        assert(strs(parts@).take(i + 1).map_values(|l: Seq<char>| strip_cr(l)) =~= strs(parts@).take(
            i as int,
        ).map_values(|l: Seq<char>| strip_cr(l)).push(strip_cr(parts@[i as int]@)));
        i = i + 1;
    }
    assert(strs(parts@).take(i as int) =~= strs(parts@).drop_last());
    if last != '\n' {
        let ghost before = r@;
        r.push(String::from_str(parts[i].as_str()));
        assert(strs(r@) =~= strs(before).push(strs(parts@).last()));
    }
    r
}

/// `s.split_whitespace().next()`, or empty text when there is no word.
pub fn first_word_str(s: &str) -> (r: String)
    ensures
        r@ == first_word(s@),
{
    let c = chars_of(s);
    let mut a: usize = 0;
    assert(s@.subrange(0, s@.len() as int) =~= s@);
    while a < c.len() && is_ws_char(c[a])
        invariant
            a <= c.len(),
            c@ == s@,
            trim_start_len(s@) == a + trim_start_len(s@.subrange(a as int, s@.len() as int)),
        decreases c.len() - a,
    {
        assert(s@.subrange(a as int, s@.len() as int).drop_first() =~= s@.subrange(a + 1, s@.len() as int));
        a = a + 1;
    }
    proof {
        let t = s@.subrange(a as int, s@.len() as int);
        if a < c.len() {
            assert(t[0] == c@[a as int]);
        }
        assert(trim_start_len(t) == 0);
    }
    let mut b: usize = a;
    while b < c.len() && !is_ws_char(c[b])
        invariant
            a <= b <= c.len(),
            c@ == s@,
            word_len(s@.subrange(a as int, s@.len() as int)) == (b - a) + word_len(s@.subrange(b as int, s@.len() as int)),
        decreases c.len() - b,
    {
        assert(s@.subrange(b as int, s@.len() as int).drop_first() =~= s@.subrange(b + 1, s@.len() as int));
        b = b + 1;
    }
    proof {
        let t = s@.subrange(b as int, s@.len() as int);
        if b < c.len() {
            assert(t[0] == c@[b as int]);
        }
        assert(word_len(t) == 0);
        assert(s@.subrange(a as int, s@.len() as int).subrange(0, (b - a) as int) =~= s@.subrange(a as int, b as int));
    }
    substring(s, a, b)
}

/// The last position of `c` in `s`.
pub fn last_index_of_char(s: &str, c: char) -> (r: Option<usize>)
    ensures
        match r {
            Some(i) => last_index_of(s@, c) == Some(i as int) && i < s@.len(),
            None => last_index_of(s@, c) is None,
        },
{
    let v = chars_of(s);
    let mut i: usize = v.len();
    while i > 0
        invariant
            i <= v.len(),
            v@ == s@,
            forall|j: int| i <= j < v.len() ==> v@[j] != c,
        decreases i,
    {
        if v[i - 1] == c {
            let k = i - 1;
            proof {
                assert(exists|j: int| 0 <= j < s@.len() && s@[j] == c);
                let w = choose|j: int| 0 <= j < s@.len() && s@[j] == c && forall|m: int| j < m < s@.len() ==> s@[m] != c;
                assert(0 <= w < s@.len() && s@[w] == c && forall|m: int| w < m < s@.len() ==> s@[m] != c) by {
                    assert(0 <= k < s@.len() && s@[k as int] == c && forall|m: int| k < m < s@.len() ==> s@[m] != c);
                }
                if w < k {
                    assert(s@[k as int] != c);
                } else if w > k {
                    assert(s@[w] != c);
                }
            }
            return Some(k);
        }
        i = i - 1;
    }
    None
}

/// The lowercase letter for an uppercase ASCII letter, as text.
fn lowered_letter(c: char) -> (s: &'static str)
    requires
        'A' <= c <= 'Z',
    ensures
        s@ == seq![ascii_lower(c)],
{
    proof {
        reveal_strlit("a");
        reveal_strlit("b");
        reveal_strlit("c");
        reveal_strlit("d");
        reveal_strlit("e");
        reveal_strlit("f");
        reveal_strlit("g");
        reveal_strlit("h");
        reveal_strlit("i");
        reveal_strlit("j");
        reveal_strlit("k");
        reveal_strlit("l");
        reveal_strlit("m");
        reveal_strlit("n");
        reveal_strlit("o");
        reveal_strlit("p");
        reveal_strlit("q");
        reveal_strlit("r");
        reveal_strlit("s");
        reveal_strlit("t");
        reveal_strlit("u");
        reveal_strlit("v");
        reveal_strlit("w");
        reveal_strlit("x");
        reveal_strlit("y");
        reveal_strlit("z");
    }
    let s = match c {
        'A' => "a",
        'B' => "b",
        'C' => "c",
        'D' => "d",
        'E' => "e",
        'F' => "f",
        'G' => "g",
        'H' => "h",
        'I' => "i",
        'J' => "j",
        'K' => "k",
        'L' => "l",
        'M' => "m",
        'N' => "n",
        'O' => "o",
        'P' => "p",
        'Q' => "q",
        'R' => "r",
        'S' => "s",
        'T' => "t",
        'U' => "u",
        'V' => "v",
        'W' => "w",
        'X' => "x",
        'Y' => "y",
        'Z' => "z",
        _ => "z",
    };
    assert(s@ =~= seq![ascii_lower(c)]);
    s
}

/// `str::to_ascii_lowercase`.
pub fn lower_string(s: &str) -> (r: String)
    ensures
        r@ == lower(s@),
{
    let n = s.unicode_len();
    let mut r = String::new();
    let mut i: usize = 0;
    while i < n
        invariant
            i <= n,
            n == s@.len(),
            r@ == lower(s@.take(i as int)),
        decreases n - i,
    {
        let c = s.get_char(i);
        if 'A' <= c && c <= 'Z' {
            r.append(lowered_letter(c));
        } else {
            r.append(s.substring_char(i, i + 1));
        }
        assert(lower(s@.take(i + 1)) =~= lower(s@.take(i as int)).push(ascii_lower(c)));
        i = i + 1;
    }
    assert(s@.take(n as int) =~= s@);
    r
}

/// `a` sorts before `b`: the order of `str`, which for UTF-8 is the order of code points.
pub open spec fn lex_lt(a: Seq<char>, b: Seq<char>) -> bool
    decreases a.len(),
{
    if a.len() == 0 {
        b.len() > 0
    } else if b.len() == 0 {
        false
    } else if a[0] != b[0] {
        a[0] < b[0]
    } else {
        lex_lt(a.drop_first(), b.drop_first())
    }
}

pub proof fn lemma_lex_trichotomy(a: Seq<char>, b: Seq<char>)
    ensures
        lex_lt(a, b) || a == b || lex_lt(b, a),
        !(lex_lt(a, b) && lex_lt(b, a)),
        !(lex_lt(a, b) && a == b),
    decreases a.len(),
{
    if a.len() > 0 && b.len() > 0 && a[0] == b[0] {
        lemma_lex_trichotomy(a.drop_first(), b.drop_first());
        if a.drop_first() == b.drop_first() {
            assert(a =~= seq![a[0]] + a.drop_first());
            assert(b =~= seq![b[0]] + b.drop_first());
        }
    } else if a.len() == 0 && b.len() == 0 {
        assert(a =~= b);
    }
}

pub proof fn lemma_lex_transitive(a: Seq<char>, b: Seq<char>, c: Seq<char>)
    requires
        lex_lt(a, b),
        lex_lt(b, c),
    ensures
        lex_lt(a, c),
    decreases a.len(),
{
    if a.len() > 0 && b.len() > 0 && c.len() > 0 && a[0] == b[0] && b[0] == c[0] {
        lemma_lex_transitive(a.drop_first(), b.drop_first(), c.drop_first());
    }
}

/// `a < b` for strings.
pub fn str_lt(a: &str, b: &str) -> (r: bool)
    ensures
        r == lex_lt(a@, b@),
{
    let x = chars_of(a);
    let y = chars_of(b);
    let mut i: usize = 0;
    assert(a@.subrange(0, a@.len() as int) =~= a@);
    assert(b@.subrange(0, b@.len() as int) =~= b@);
    while i < x.len() && i < y.len() && x[i] == y[i]
        invariant
            i <= x.len(),
            i <= y.len(),
            x@ == a@,
            y@ == b@,
            lex_lt(a@, b@) == lex_lt(a@.subrange(i as int, a@.len() as int), b@.subrange(i as int, b@.len() as int)),
        decreases x.len() - i,
    {
        assert(a@.subrange(i as int, a@.len() as int).drop_first() =~= a@.subrange(i + 1, a@.len() as int));
        assert(b@.subrange(i as int, b@.len() as int).drop_first() =~= b@.subrange(i + 1, b@.len() as int));
        i = i + 1;
    }
    proof {
        let ra = a@.subrange(i as int, a@.len() as int);
        let rb = b@.subrange(i as int, b@.len() as int);
        if i < x.len() && i < y.len() {
            assert(ra[0] == x@[i as int]);
            assert(rb[0] == y@[i as int]);
        }
    }
    if i == x.len() {
        i < y.len()
    } else if i == y.len() {
        false
    } else {
        x[i] < y[i]
    }
}

/// The characters of `s` with ASCII letters raised.
pub fn upper_chars(s: &str) -> (v: Vec<char>)
    ensures
        v@ == upper(s@),
{
    let c = chars_of(s);
    let mut v: Vec<char> = Vec::new();
    let mut i: usize = 0;
    while i < c.len()
        invariant
            i <= c.len(),
            c@ == s@,
            v@ == upper(c@.take(i as int)),
        decreases c.len() - i,
    {
        let x = c[i];
        let y = if 'a' <= x && x <= 'z' {
            char_from_u32(x as u32 - 32)
        } else {
            x
        };
        v.push(y);
        assert(upper(c@.take(i + 1)) =~= upper(c@.take(i as int)).push(ascii_upper(x)));
        i = i + 1;
    }
    assert(c@.take(c.len() as int) =~= c@);
    v
}

/// `str::starts_with`.
pub fn starts_with(s: &str, p: &str) -> (b: bool)
    ensures
        b == is_prefix(p@, s@),
{
    let h = chars_of(s);
    let n = chars_of(p);
    matches_at(&h, &n, 0)
}

/// `str::ends_with`.
pub fn ends_with(s: &str, p: &str) -> (b: bool)
    ensures
        b == is_suffix(p@, s@),
{
    let h = chars_of(s);
    let n = chars_of(p);
    if n.len() > h.len() {
        return false;
    }
    matches_at(&h, &n, h.len() - n.len())
}

/// Equality of two string slices.
pub fn eq_str(a: &str, b: &str) -> (r: bool)
    ensures
        r == (a@ == b@),
{
    let x = chars_of(a);
    let y = chars_of(b);
    if x.len() != y.len() {
        return false;
    }
    let r = matches_at(&x, &y, 0);
    assert(x@.subrange(0, y@.len() as int) =~= x@);
    r
}

/// The characters of `s` with ASCII letters lowered.
pub fn lower_chars(s: &str) -> (v: Vec<char>)
    ensures
        v@ == lower(s@),
{
    let c = chars_of(s);
    let mut v: Vec<char> = Vec::new();
    let mut i: usize = 0;
    while i < c.len()
        invariant
            i <= c.len(),
            c@ == s@,
            v@ == lower(c@.take(i as int)),
        decreases c.len() - i,
    {
        let x = c[i];
        let y = if 'A' <= x && x <= 'Z' {
            char_from_u32(x as u32 + 32)
        } else {
            x
        };
        v.push(y);
        assert(lower(c@.take(i + 1)) =~= lower(c@.take(i as int)).push(ascii_lower(x)));
        i = i + 1;
    }
    assert(c@.take(c.len() as int) =~= c@);
    v
}

/// Converts a code point that is known to be a letter back into a `char`.
fn char_from_u32(u: u32) -> (c: char)
    requires
        ('a' as u32) <= u <= ('z' as u32) || ('A' as u32) <= u <= ('Z' as u32),
    ensures
        c == u as char,
{
    let r = if u == 97 { 'a' } else if u == 98 { 'b' } else if u == 99 { 'c' } else if u == 100 { 'd' }
    else if u == 101 { 'e' } else if u == 102 { 'f' } else if u == 103 { 'g' } else if u == 104 { 'h' }
    else if u == 105 { 'i' } else if u == 106 { 'j' } else if u == 107 { 'k' } else if u == 108 { 'l' }
    else if u == 109 { 'm' } else if u == 110 { 'n' } else if u == 111 { 'o' } else if u == 112 { 'p' }
    else if u == 113 { 'q' } else if u == 114 { 'r' } else if u == 115 { 's' } else if u == 116 { 't' }
    else if u == 117 { 'u' } else if u == 118 { 'v' } else if u == 119 { 'w' } else if u == 120 { 'x' }
    else if u == 121 { 'y' } else if u == 122 { 'z' } else if u == 65 { 'A' } else if u == 66 { 'B' }
    else if u == 67 { 'C' } else if u == 68 { 'D' } else if u == 69 { 'E' } else if u == 70 { 'F' }
    else if u == 71 { 'G' } else if u == 72 { 'H' } else if u == 73 { 'I' } else if u == 74 { 'J' }
    else if u == 75 { 'K' } else if u == 76 { 'L' } else if u == 77 { 'M' } else if u == 78 { 'N' }
    else if u == 79 { 'O' } else if u == 80 { 'P' } else if u == 81 { 'Q' } else if u == 82 { 'R' }
    else if u == 83 { 'S' } else if u == 84 { 'T' } else if u == 85 { 'U' } else if u == 86 { 'V' }
    else if u == 87 { 'W' } else if u == 88 { 'X' } else if u == 89 { 'Y' } else { 'Z' };
    r
}

proof fn lemma_digits_take(s: Seq<char>, k: int)
    requires
        all_digits(s),
        0 <= k <= s.len(),
    ensures
        digits_value(s.take(k)) <= digits_value(s),
    decreases s.len(),
{
    if k < s.len() {
        assert(s.drop_last().take(k) =~= s.take(k));
        lemma_digits_take(s.drop_last(), k);
    } else {
        assert(s.take(k) =~= s);
    }
}

/// Value of the digits `c[from..to]`, when it fits in a `u64`.
fn digits_u64(c: &Vec<char>, from: usize, to: usize) -> (r: Option<u64>)
    requires
        from <= to <= c.len(),
        all_digits(c@.subrange(from as int, to as int)),
    ensures
        match r {
            Some(v) => v == digits_value(c@.subrange(from as int, to as int)),
            None => digits_value(c@.subrange(from as int, to as int)) > u64::MAX,
        },
{
    let ghost d = c@.subrange(from as int, to as int);
    let mut acc: u128 = 0;
    let mut i: usize = from;
    while i < to
        invariant
            from <= i <= to <= c.len(),
            d == c@.subrange(from as int, to as int),
            all_digits(d),
            acc == digits_value(d.take(i - from)),
            acc <= u64::MAX,
        decreases to - i,
    {
        let x = c[i];
        assert(d[i - from] == x);
        let digit: u128 = (x as u32 - '0' as u32) as u128;
        assert(d.take(i - from + 1).drop_last() =~= d.take(i - from));
        acc = acc * 10 + digit;
        i = i + 1;
        if acc > 0xffff_ffff_ffff_ffffu128 {
            proof {
                lemma_digits_take(d, i - from);
            }
            return None;
        }
    }
    assert(d.take(to - from) =~= d);
    Some(acc as u64)
}

/// Whether every character of `c[from..to]` is a decimal digit.
fn all_digits_range(c: &Vec<char>, from: usize, to: usize) -> (b: bool)
    requires
        from <= to <= c.len(),
    ensures
        b == all_digits(c@.subrange(from as int, to as int)),
{
    let mut i: usize = from;
    while i < to
        invariant
            from <= i <= to <= c.len(),
            forall|j: int| from <= j < i ==> is_digit(#[trigger] c@[j]),
        decreases to - i,
    {
        if !('0' <= c[i] && c[i] <= '9') {
            assert(!is_digit(c@.subrange(from as int, to as int)[i - from]));
            return false;
        }
        i = i + 1;
    }
    assert forall|j: int| 0 <= j < to - from implies is_digit(#[trigger] c@.subrange(from as int, to as int)[j]) by {
        assert(c@.subrange(from as int, to as int)[j] == c@[from + j]);
    }
    true
}

/// `str::parse::<u64>` on the characters `c[from..to]`.
pub fn parse_u64_range(c: &Vec<char>, from: usize, to: usize) -> (r: Option<u64>)
    requires
        from <= to <= c.len(),
    ensures
        r == parse_u64(c@.subrange(from as int, to as int)),
{
    let ghost s = c@.subrange(from as int, to as int);
    let start = if from < to && c[from] == '+' { from + 1 } else { from };
    proof {
        if from < to && c@[from as int] == '+' {
            assert(s.drop_first() =~= c@.subrange(start as int, to as int));
        }
    }
    if start == to || !all_digits_range(c, start, to) {
        return None;
    }
    digits_u64(c, start, to)
}

/// `str::parse::<u32>` on the characters `c[from..to]`.
pub fn parse_u32_range(c: &Vec<char>, from: usize, to: usize) -> (r: Option<u32>)
    requires
        from <= to <= c.len(),
    ensures
        r == parse_u32(c@.subrange(from as int, to as int)),
{
    match parse_u64_range(c, from, to) {
        Some(v) => {
            if v <= 0xffff_ffffu64 {
                Some(v as u32)
            } else {
                None
            }
        },
        None => None,
    }
}

/// `str::parse::<u32>`.
pub fn parse_u32_str(s: &str) -> (r: Option<u32>)
    ensures
        r == parse_u32(s@),
{
    let c = chars_of(s);
    assert(c@.subrange(0, c@.len() as int) =~= c@);
    parse_u32_range(&c, 0, c.len())
}

/// `str::parse::<u64>`.
pub fn parse_u64_str(s: &str) -> (r: Option<u64>)
    ensures
        r == parse_u64(s@),
{
    let c = chars_of(s);
    assert(c@.subrange(0, c@.len() as int) =~= c@);
    parse_u64_range(&c, 0, c.len())
}

fn digit_string(d: u64) -> (r: String)
    requires
        d < 10,
    ensures
        r@ == seq![digit_char(d as nat)],
{
    proof {
        reveal_strlit("0");
        reveal_strlit("1");
        reveal_strlit("2");
        reveal_strlit("3");
        reveal_strlit("4");
        reveal_strlit("5");
        reveal_strlit("6");
        reveal_strlit("7");
        reveal_strlit("8");
        reveal_strlit("9");
    }
    let r = if d == 0 {
        String::from_str("0")
    } else if d == 1 {
        String::from_str("1")
    } else if d == 2 {
        String::from_str("2")
    } else if d == 3 {
        String::from_str("3")
    } else if d == 4 {
        String::from_str("4")
    } else if d == 5 {
        String::from_str("5")
    } else if d == 6 {
        String::from_str("6")
    } else if d == 7 {
        String::from_str("7")
    } else if d == 8 {
        String::from_str("8")
    } else {
        String::from_str("9")
    };
    assert(r@ =~= seq![digit_char(d as nat)]);
    r
}

/// Decimal rendering of `n`, as `to_string` gives it.
pub fn u64_to_string(n: u64) -> (r: String)
    ensures
        r@ == nat_str(n as nat),
    decreases n,
{
    if n < 10 {
        digit_string(n)
    } else {
        let mut r = u64_to_string(n / 10);
        let d = digit_string(n % 10);
        r.append(d.as_str());
        assert(r@ =~= nat_str(n as nat));
        r
    }
}

/// Decimal rendering of `n`.
pub fn u32_to_string(n: u32) -> (r: String)
    ensures
        r@ == nat_str(n as nat),
{
    u64_to_string(n as u64)
}

/// Whether `c` is one of `set`.
pub fn char_in(c: char, set: &[char]) -> (b: bool)
    ensures
        b == set@.contains(c),
{
    let mut i: usize = 0;
    while i < set.len()
        invariant
            i <= set.len(),
            forall|j: int| 0 <= j < i ==> set@[j] != c,
        decreases set.len() - i,
    {
        if set[i] == c {
            assert(set@[i as int] == c);
            return true;
        }
        i = i + 1;
    }
    false
}

/// A copy of the characters `s[from..to]`.
pub fn substring(s: &str, from: usize, to: usize) -> (r: String)
    requires
        from <= to <= s@.len(),
    ensures
        r@ == s@.subrange(from as int, to as int),
{
    String::from_str(s.substring_char(from, to))
}

/// `str::split` with a set of separator characters.
pub fn split_str(s: &str, seps: &[char]) -> (v: Vec<String>)
    ensures
        strs(v@) == split(s@, seps@),
        v@.len() >= 1,
{
    let c = chars_of(s);
    let mut pieces: Vec<String> = Vec::new();
    let mut start: usize = 0;
    let mut i: usize = 0;
    assert(c@.take(0) =~= Seq::<char>::empty());
    assert(strs(pieces@).push(c@.subrange(0, 0)) =~= seq![Seq::<char>::empty()]);
    while i < c.len()
        invariant
            c@ == s@,
            start <= i <= c.len(),
            split(c@.take(i as int), seps@) == strs(pieces@).push(c@.subrange(start as int, i as int)),
        decreases c.len() - i,
    {
        let ghost prior = split(c@.take(i as int), seps@);
        assert(c@.take(i + 1).drop_last() =~= c@.take(i as int));
        assert(c@.take(i + 1).last() == c@[i as int]);
        if char_in(c[i], seps) {
            let piece = substring(s, start, i);
            pieces.push(piece);
            start = i + 1;
            assert(strs(pieces@) =~= strs(pieces@.drop_last()).push(piece@));
            assert(c@.subrange(start as int, i + 1) =~= Seq::<char>::empty());
        } else {
            assert(c@.subrange(start as int, i + 1) =~= c@.subrange(start as int, i as int).push(c@[i as int]));
            assert(split(c@.take(i + 1), seps@) =~= strs(pieces@).push(c@.subrange(start as int, i + 1)));
        }
        i = i + 1;
    }
    let last = substring(s, start, c.len());
    pieces.push(last);
    assert(c@.take(c.len() as int) =~= c@);
    assert(strs(pieces@) =~= strs(pieces@.drop_last()).push(last@));
    pieces
}

/// `str::split(|c| !c.is_ascii_digit())`.
pub fn split_non_digit_str(s: &str) -> (v: Vec<String>)
    ensures
        strs(v@) == split_non_digits(s@),
        v@.len() >= 1,
{
    let c = chars_of(s);
    let mut pieces: Vec<String> = Vec::new();
    let mut start: usize = 0;
    let mut i: usize = 0;
    assert(c@.take(0) =~= Seq::<char>::empty());
    assert(strs(pieces@).push(c@.subrange(0, 0)) =~= seq![Seq::<char>::empty()]);
    while i < c.len()
        invariant
            c@ == s@,
            start <= i <= c.len(),
            split_non_digits(c@.take(i as int)) == strs(pieces@).push(c@.subrange(start as int, i as int)),
        decreases c.len() - i,
    {
        assert(c@.take(i + 1).drop_last() =~= c@.take(i as int));
        assert(c@.take(i + 1).last() == c@[i as int]);
        if !('0' <= c[i] && c[i] <= '9') {
            let piece = substring(s, start, i);
            pieces.push(piece);
            start = i + 1;
            assert(strs(pieces@) =~= strs(pieces@.drop_last()).push(piece@));
            assert(c@.subrange(start as int, i + 1) =~= Seq::<char>::empty());
        } else {
            assert(c@.subrange(start as int, i + 1) =~= c@.subrange(start as int, i as int).push(c@[i as int]));
            assert(split_non_digits(c@.take(i + 1)) =~= strs(pieces@).push(c@.subrange(start as int, i + 1)));
        }
        i = i + 1;
    }
    let last = substring(s, start, c.len());
    pieces.push(last);
    assert(c@.take(c.len() as int) =~= c@);
    assert(strs(pieces@) =~= strs(pieces@.drop_last()).push(last@));
    pieces
}

/// `char::is_whitespace`.
pub fn is_ws_char(c: char) -> (b: bool)
    ensures
        b == is_ws(c),
{
    c == ' ' || c == '\t' || c == '\n' || c == '\r' || c == '\u{0B}' || c == '\u{0C}'
        || c == '\u{85}' || c == '\u{A0}' || c == '\u{1680}' || ('\u{2000}' <= c && c <= '\u{200A}')
        || c == '\u{2028}' || c == '\u{2029}' || c == '\u{202F}' || c == '\u{205F}'
        || c == '\u{3000}'
}

proof fn lemma_trim_start_exact(s: Seq<char>, a: int)
    requires
        0 <= a <= s.len(),
        forall|j: int| 0 <= j < a ==> is_ws(#[trigger] s[j]),
        a == s.len() || !is_ws(s[a]),
    ensures
        trim_start_len(s) == a,
    decreases a,
{
    if a > 0 {
        assert forall|j: int| 0 <= j < a - 1 implies is_ws(#[trigger] s.drop_first()[j]) by {
            assert(s.drop_first()[j] == s[j + 1]);
        }
        if a - 1 < s.drop_first().len() {
            assert(s.drop_first()[a - 1] == s[a]);
        }
        lemma_trim_start_exact(s.drop_first(), a - 1);
    }
}

proof fn lemma_trim_end_exact(s: Seq<char>, b: int)
    requires
        0 <= b <= s.len(),
        forall|j: int| b <= j < s.len() ==> is_ws(#[trigger] s[j]),
        b == 0 || !is_ws(s[b - 1]),
    ensures
        trim_end_len(s) == s.len() - b,
    decreases s.len() - b,
{
    if b < s.len() {
        assert forall|j: int| b <= j < s.drop_last().len() implies is_ws(#[trigger] s.drop_last()[j]) by {
            assert(s.drop_last()[j] == s[j]);
        }
        if b > 0 {
            assert(s.drop_last()[b - 1] == s[b - 1]);
        }
        lemma_trim_end_exact(s.drop_last(), b);
    }
}

/// `str::trim`, as a copy.
pub fn trim_str(s: &str) -> (r: String)
    ensures
        r@ == trim(s@),
{
    let c = chars_of(s);
    let mut a: usize = 0;
    assert(s@.subrange(0, s@.len() as int) =~= s@);
    while a < c.len() && is_ws_char(c[a])
        invariant
            a <= c.len(),
            forall|j: int| 0 <= j < a ==> is_ws(#[trigger] c@[j]),
        decreases c.len() - a,
    {
        a = a + 1;
    }
    let mut b: usize = c.len();
    while b > a && is_ws_char(c[b - 1])
        invariant
            a <= b <= c.len(),
            forall|j: int| b <= j < c.len() ==> is_ws(#[trigger] c@[j]),
        decreases b,
    {
        b = b - 1;
    }
    proof {
        lemma_trim_start_exact(s@, a as int);
        let t = s@.subrange(a as int, s@.len() as int);
        assert forall|j: int| b - a <= j < t.len() implies is_ws(#[trigger] t[j]) by {
            assert(t[j] == c@[a + j]);
        }
        if b > a {
            assert(t[b - a - 1] == c@[b - 1]);
        }
        lemma_trim_end_exact(t, b - a);
        assert(t.subrange(0, t.len() - trim_end_len(t)) =~= s@.subrange(a as int, b as int));
    }
    substring(s, a, b)
}

/// The concatenation of two strings.
pub fn concat(a: &str, b: &str) -> (r: String)
    ensures
        r@ == a@ + b@,
{
    let mut r = String::from_str(a);
    r.append(b);
    r
}

/// The concatenation of three strings.
pub fn concat3(a: &str, b: &str, c: &str) -> (r: String)
    ensures
        r@ == a@ + b@ + c@,
{
    let mut r = String::from_str(a);
    r.append(b);
    r.append(c);
    r
}

/// `pieces.join(sep)`.
pub fn join_strings(pieces: &Vec<String>, sep: &str) -> (r: String)
    ensures
        r@ == join(strs(pieces@), sep@),
{
    let mut r = String::new();
    let mut i: usize = 0;
    while i < pieces.len()
        invariant
            i <= pieces.len(),
            r@ == join(strs(pieces@.take(i as int)), sep@),
        decreases pieces.len() - i,
    {
        assert(strs(pieces@.take(i + 1)).drop_last() =~= strs(pieces@.take(i as int)));
        if i > 0 {
            r.append(sep);
        }
        r.append(pieces[i].as_str());
        proof {
            if i == 0 {
                assert(strs(pieces@.take(1)) =~= seq![pieces@[0]@]);
            }
        }
        i = i + 1;
    }
    assert(pieces@.take(pieces.len() as int) =~= pieces@);
    r
}

} // verus!
