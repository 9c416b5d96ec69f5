//! Character-level helpers on strings.

use vstd::prelude::*;

verus! {

/// Appends one character to a string (std `String::push`).
#[verifier::external_body]
pub(crate) fn push_char(s: &mut String, c: char)
    ensures
        final(s)@ == old(s)@.push(c),
{
    s.push(c);
}

/// The characters of `s`, in order.
pub fn chars_of(s: &str) -> (res: Vec<char>)
    ensures
        res@ == s@,
{
    let mut res: Vec<char> = Vec::new();
    for c in it: s.chars()
        invariant
            res@ == it.seq().take(it.index()),
    {
        res.push(c);
    }
    res
}

/// Whether two strings hold the same characters.
pub fn str_eq(a: &str, b: &str) -> (res: bool)
    ensures
        res == (a@ == b@),
{
    let x = chars_of(a);
    let y = chars_of(b);
    if x.len() != y.len() {
        return false;
    }
    let mut i: usize = 0;
    while i < x.len()
        invariant
            x@ == a@,
            y@ == b@,
            x.len() == y.len(),
            i <= x.len(),
            forall|j: int| 0 <= j < i ==> x@[j] == y@[j],
        decreases x.len() - i,
    {
        if x[i] != y[i] {
            return false;
        }
        i = i + 1;
    }
    assert(x@ =~= y@);
    true
}

/// The characters `from..to` of `chars`, as a string.
pub fn string_from_chars(chars: &Vec<char>, from: usize, to: usize) -> (res: String)
    requires
        from <= to <= chars.len(),
    ensures
        res@ == chars@.subrange(from as int, to as int),
{
    let mut res = String::new();
    let mut i = from;
    while i < to
        invariant
            from <= i <= to <= chars.len(),
            res@ == chars@.subrange(from as int, i as int),
        decreases to - i,
    {
        push_char(&mut res, chars[i]);
        assert(chars@.subrange(from as int, i + 1) =~= chars@.subrange(from as int, i as int).push(chars@[i as int]));
        i = i + 1;
    }
    res
}

/// White space as `char::is_whitespace` defines it (the Unicode `White_Space` property).
pub open spec fn is_white_space(c: char) -> bool {
    ('\u{9}' <= c && c <= '\u{d}') || c == ' ' || c == '\u{85}' || c == '\u{a0}' || c == '\u{1680}'
        || ('\u{2000}' <= c && c <= '\u{200a}') || c == '\u{2028}' || c == '\u{2029}' || c == '\u{202f}'
        || c == '\u{205f}' || c == '\u{3000}'
}

pub fn white_space(c: char) -> (res: bool)
    ensures
        res == is_white_space(c),
{
    ('\u{9}' <= c && c <= '\u{d}') || c == ' ' || c == '\u{85}' || c == '\u{a0}' || c == '\u{1680}'
        || ('\u{2000}' <= c && c <= '\u{200a}') || c == '\u{2028}' || c == '\u{2029}' || c == '\u{202f}'
        || c == '\u{205f}' || c == '\u{3000}'
}

/// `s` without its leading white space.
pub open spec fn trim_start(s: Seq<char>) -> Seq<char>
    decreases s.len(),
{
    if s.len() > 0 && is_white_space(s[0]) {
        trim_start(s.drop_first())
    } else {
        s
    }
}

/// `s` without its trailing white space.
pub open spec fn trim_end(s: Seq<char>) -> Seq<char>
    decreases s.len(),
{
    if s.len() > 0 && is_white_space(s.last()) {
        trim_end(s.drop_last())
    } else {
        s
    }
}

/// `s` without leading and trailing white space (`str::trim`).
pub open spec fn trim(s: Seq<char>) -> Seq<char> {
    trim_end(trim_start(s))
}

/// `s` without its trailing carriage returns and line feeds.
pub open spec fn trim_line_end(s: Seq<char>) -> Seq<char>
    decreases s.len(),
{
    if s.len() > 0 && (s.last() == '\r' || s.last() == '\n') {
        trim_line_end(s.drop_last())
    } else {
        s
    }
}

/// The characters `from..to` of `chars` without leading and trailing white space.
pub fn trimmed(chars: &Vec<char>, from: usize, to: usize) -> (res: String)
    requires
        from <= to <= chars.len(),
    ensures
        res@ == trim(chars@.subrange(from as int, to as int)),
{
    let ghost s = chars@.subrange(from as int, to as int);
    let mut i = from;
    while i < to && white_space(chars[i])
        invariant
            from <= i <= to <= chars.len(),
            trim_start(s) == trim_start(chars@.subrange(i as int, to as int)),
        decreases to - i,
    {
        assert(chars@.subrange(i as int, to as int).drop_first() =~= chars@.subrange(i + 1, to as int));
        i = i + 1;
    }
    assert(trim_start(s) == chars@.subrange(i as int, to as int));
    let mut j = to;
    while j > i && white_space(chars[j - 1])
        invariant
            from <= i <= j <= to <= chars.len(),
            trim(s) == trim_end(chars@.subrange(i as int, j as int)),
        decreases j - i,
    {
        assert(chars@.subrange(i as int, j as int).drop_last() =~= chars@.subrange(i as int, j - 1));
        j = j - 1;
    }
    string_from_chars(chars, i, j)
}

/// `c` in lower case when it is an ASCII capital letter.
pub open spec fn ascii_lower(c: char) -> char {
    if 'A' <= c && c <= 'Z' {
        ((c as u8) + 32) as char
    } else {
        c
    }
}

/// The string `s` with ASCII capitals lowered (`str::to_ascii_lowercase`).
pub open spec fn ascii_lowercase(s: Seq<char>) -> Seq<char> {
    s.map_values(|c: char| ascii_lower(c))
}

/// The ASCII lower-case form of `s`.
pub fn to_ascii_lowercase(s: &str) -> (res: String)
    ensures
        res@ == ascii_lowercase(s@),
{
    let chars = chars_of(s);
    let mut res = String::new();
    let mut i: usize = 0;
    while i < chars.len()
        invariant
            chars@ == s@,
            i <= chars.len(),
            res@ == ascii_lowercase(chars@.take(i as int)),
        decreases chars.len() - i,
    {
        let c = chars[i];
        let lower = if 'A' <= c && c <= 'Z' {
            ((c as u8) + 32) as char
        } else {
            c
        };
        push_char(&mut res, lower);
        assert(ascii_lowercase(chars@.take(i + 1)) =~= ascii_lowercase(chars@.take(i as int)).push(ascii_lower(c)));
        i = i + 1;
    }
    assert(chars@.take(chars.len() as int) =~= chars@);
    res
}

/// The digit character for `d < 10`.
pub open spec fn digit_char(d: nat) -> char {
    (d + 48) as char
}

/// The decimal digits of `n`, most significant first, without leading zeros.
pub open spec fn decimal(n: nat) -> Seq<char>
    decreases n,
{
    if n < 10 {
        seq![digit_char(n)]
    } else {
        decimal(n / 10).push(digit_char(n % 10))
    }
}

/// The decimal form of an integer, with a leading `-` when negative.
pub open spec fn signed_decimal(n: int) -> Seq<char> {
    if n < 0 {
        seq!['-'] + decimal((-n) as nat)
    } else {
        decimal(n as nat)
    }
}

/// Appends the decimal digits of `n` to `out`.
pub fn push_decimal(n: u64, out: &mut Vec<char>)
    ensures
        final(out)@ == old(out)@ + decimal(n as nat),
    decreases n,
{
    if n >= 10 {
        push_decimal(n / 10, out);
    }
    let d = (n % 10) as u8;
    out.push((d + 48) as char);
}

/// The decimal form of `n` (as `i64::to_string` writes it).
pub fn signed_decimal_chars(n: i64) -> (res: Vec<char>)
    ensures
        res@ == signed_decimal(n as int),
{
    let mut out: Vec<char> = Vec::new();
    if n < 0 {
        out.push('-');
        let magnitude: u64 = ((-(n + 1)) as u64) + 1;
        push_decimal(magnitude, &mut out);
    } else {
        push_decimal(n as u64, &mut out);
    }
    out
}

pub open spec fn is_digit(c: char) -> bool {
    '0' <= c && c <= '9'
}

pub open spec fn digit_value(c: char) -> nat {
    ((c as u32) - 48) as nat
}

/// The number that a string of decimal digits denotes.
pub open spec fn digits_value(s: Seq<char>) -> nat
    decreases s.len(),
{
    if s.len() == 0 {
        0
    } else {
        digits_value(s.drop_last()) * 10 + digit_value(s.last())
    }
}

/// The digits of an unsigned integer literal: an optional leading `+` dropped.
pub open spec fn unsigned_digits(s: Seq<char>) -> Seq<char> {
    if s.len() > 0 && s[0] == '+' {
        s.drop_first()
    } else {
        s
    }
}

/// The value of an unsigned integer as `str::parse` reads one: an optional
/// `+`, then one or more decimal digits and nothing else.
pub open spec fn parse_unsigned(s: Seq<char>) -> Option<nat> {
    let d = unsigned_digits(s);
    if d.len() > 0 && (forall|i: int| 0 <= i < d.len() ==> is_digit(#[trigger] d[i])) {
        Some(digits_value(d))
    } else {
        None
    }
}

/// `str::parse::<usize>`: the unsigned integer, when it fits.
pub open spec fn parse_usize(s: Seq<char>) -> Option<usize> {
    match parse_unsigned(s) {
        Some(v) => if v <= usize::MAX {
            Some(v as usize)
        } else {
            None
        },
        None => None,
    }
}

/// A prefix of a string of digits denotes no more than the whole string.
proof fn lemma_digits_value_prefix(s: Seq<char>, i: int)
    requires
        0 <= i <= s.len(),
    ensures
        digits_value(s.take(i)) <= digits_value(s),
    decreases s.len() - i,
{
    if i < s.len() {
        lemma_digits_value_prefix(s.drop_last(), i);
        assert(s.drop_last().take(i) =~= s.take(i));
    } else {
        assert(s.take(i) =~= s);
    }
}

/// Reads an unsigned integer that fits a `usize`, as `str::parse::<usize>` does.
pub fn parse_usize_chars(s: &Vec<char>) -> (res: Option<usize>)
    ensures
        res == parse_usize(s@),
{
    let mut start: usize = 0;
    if s.len() > 0 && s[0] == '+' {
        start = 1;
    }
    let ghost d = unsigned_digits(s@);
    assert(d =~= s@.subrange(start as int, s@.len() as int));
    if start >= s.len() {
        return None;
    }
    let mut acc: usize = 0;
    let mut i = start;
    while i < s.len()
        invariant
            d == unsigned_digits(s@),
            d =~= s@.subrange(start as int, s@.len() as int),
            start < s.len(),
            start <= i <= s.len(),
            forall|k: int| 0 <= k < i - start ==> is_digit(#[trigger] d[k]),
            acc as nat == digits_value(d.take(i - start)),
        decreases s.len() - i,
    {
        let c = s[i];
        assert(d[i - start] == c);
        if !('0' <= c && c <= '9') {
            assert(!is_digit(d[i - start]));
            return None;
        }
        let digit = (c as u32 - 48) as usize;
        assert(d.take(i - start + 1).drop_last() =~= d.take(i - start));
        assert(digits_value(d.take(i - start + 1)) == digits_value(d.take(i - start)) * 10 + digit);
        if acc > (usize::MAX - digit) / 10 {
            proof {
                let k = i - start + 1;
                lemma_digits_value_prefix(d, k);
                assert(acc * 10 + digit > usize::MAX) by (nonlinear_arith)
                    requires
                        acc > (usize::MAX - digit) / 10,
                        digit <= 9,
                ;
            }
            return None;
        }
        acc = acc * 10 + digit;
        i = i + 1;
    }
    assert(d.take(d.len() as int) =~= d);
    Some(acc)
}

/// The decimal form of `n` is a non-empty string of digits that denotes `n`.
pub proof fn lemma_decimal(n: nat)
    ensures
        decimal(n).len() > 0,
        forall|i: int| 0 <= i < decimal(n).len() ==> is_digit(#[trigger] decimal(n)[i]),
        digits_value(decimal(n)) == n,
    decreases n,
{
    if n < 10 {
        assert(decimal(n).drop_last() =~= Seq::<char>::empty());
        assert(digits_value(Seq::<char>::empty()) == 0);
    } else {
        lemma_decimal(n / 10);
        let d = decimal(n);
        assert(d.drop_last() =~= decimal(n / 10));
        assert(d.last() == digit_char(n % 10));
        assert(digits_value(d) == digits_value(decimal(n / 10)) * 10 + digit_value(digit_char(n % 10)));
        assert((n / 10) * 10 + n % 10 == n);
        assert forall|i: int| 0 <= i < d.len() implies is_digit(#[trigger] d[i]) by {
            if i < d.len() - 1 {
                assert(d[i] == decimal(n / 10)[i]);
            }
        }
    }
}

/// Reading back the decimal form of a `usize` gives the number.
pub proof fn lemma_parse_decimal(n: nat)
    requires
        n <= usize::MAX,
    ensures
        parse_usize(decimal(n)) == Some(n as usize),
{
    lemma_decimal(n);
    let d = decimal(n);
    assert(is_digit(d[0]));
    assert(unsigned_digits(d) == d);
}

/// A string that starts and ends with characters other than white space is its own trim.
pub proof fn lemma_trim_unchanged(s: Seq<char>)
    requires
        s.len() > 0,
        !is_white_space(s[0]),
        !is_white_space(s.last()),
    ensures
        trim(s) == s,
{
}

/// Trimming a space followed by a decimal number gives the number.
pub proof fn lemma_trim_space_decimal(n: nat)
    ensures
        trim(seq![' '] + decimal(n)) == decimal(n),
{
    lemma_decimal(n);
    let d = decimal(n);
    let s = seq![' '] + d;
    assert(is_white_space(s[0]));
    assert(s.drop_first() =~= d);
    assert(is_digit(d[0]));
    assert(is_digit(d.last()));
    lemma_trim_unchanged(d);
}

/// The position of the first `c` in `s`.
pub open spec fn find_char(s: Seq<char>, c: char) -> Option<int>
    decreases s.len(),
{
    if s.len() == 0 {
        None
    } else if s[0] == c {
        Some(0)
    } else {
        match find_char(s.drop_first(), c) {
            Some(k) => Some(k + 1),
            None => None,
        }
    }
}

/// Where the first `c` stands, found by a scan that met no `c` before `i`.
pub proof fn lemma_find_char(s: Seq<char>, c: char, i: int)
    requires
        0 <= i <= s.len(),
        forall|j: int| 0 <= j < i ==> s[j] != c,
    ensures
        i < s.len() && s[i] == c ==> find_char(s, c) == Some(i),
        i == s.len() ==> find_char(s, c) is None,
    decreases i,
{
    if i > 0 {
        lemma_find_char(s.drop_first(), c, i - 1);
    }
}

/// The position of the first `c` in `chars`.
pub fn find_char_exec(chars: &Vec<char>, c: char) -> (res: Option<usize>)
    ensures
        match res {
            Some(k) => k < chars.len() && find_char(chars@, c) == Some(k as int),
            None => find_char(chars@, c) is None,
        },
{
    let mut i: usize = 0;
    while i < chars.len()
        invariant
            i <= chars.len(),
            forall|j: int| 0 <= j < i ==> chars@[j] != c,
        decreases chars.len() - i,
    {
        if chars[i] == c {
            proof {
                lemma_find_char(chars@, c, i as int);
            }
            return Some(i);
        }
        i = i + 1;
    }
    proof {
        lemma_find_char(chars@, c, i as int);
    }
    None
}

/// Whether the characters `from..to` of `chars` spell `lit`.
pub fn chars_match(chars: &Vec<char>, from: usize, to: usize, lit: &str) -> (res: bool)
    requires
        from <= to <= chars.len(),
    ensures
        res == (chars@.subrange(from as int, to as int) == lit@),
{
    let l = chars_of(lit);
    if to - from != l.len() {
        return false;
    }
    let mut i: usize = 0;
    while i < l.len()
        invariant
            from <= to <= chars.len(),
            to - from == l.len(),
            l@ == lit@,
            i <= l.len(),
            forall|j: int| 0 <= j < i ==> chars@[from + j] == l@[j],
        decreases l.len() - i,
    {
        if chars[from + i] != l[i] {
            assert(chars@.subrange(from as int, to as int)[i as int] != lit@[i as int]);
            return false;
        }
        i = i + 1;
    }
    assert(chars@.subrange(from as int, to as int) =~= lit@);
    true
}

/// An owned copy of `s`.
pub fn owned(s: &str) -> (res: String)
    ensures
        res@ == s@,
{
    s.to_owned()
}

} // verus!
