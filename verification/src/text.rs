//! Text building: numbers in decimal and hexadecimal, and conversions between
//! strings and sequences of characters.
use vstd::prelude::*;
use vstd::string::*;
#[allow(unused_imports)]
use vstd::utf8::{decode_utf8, valid_utf8};

verus! {

/// `String::push` appends one character to the end of the string.
pub assume_specification[ String::push ](s: &mut String, c: char)
    ensures
        final(s)@ == old(s)@.push(c),
;

/// The character of a digit below sixteen, in lower case.
pub open spec fn digit_char(d: int) -> char {
    if d < 10 {
        (('0' as int) + d) as char
    } else {
        (('a' as int) + d - 10) as char
    }
}

/// `n` written in base `base` without leading zeros; zero is one `0`.
pub open spec fn digits(n: nat, base: nat) -> Seq<char>
    decreases n,
{
    if base < 2 || n < base {
        seq![digit_char(n as int)]
    } else {
        proof {
            assert(n / base < n) by (nonlinear_arith)
                requires
                    n >= base,
                    base >= 2,
            ;
        }
        digits(n / base, base).push(digit_char((n % base) as int))
    }
}

/// `n` in decimal.
pub open spec fn dec(n: nat) -> Seq<char> {
    digits(n, 10)
}

/// `n` in lower-case hexadecimal.
pub open spec fn hex(n: nat) -> Seq<char> {
    digits(n, 16)
}

/// A signed number in decimal, with a minus sign where it is negative.
pub open spec fn signed_dec(n: int) -> Seq<char> {
    if n < 0 {
        seq!['-'] + dec((-n) as nat)
    } else {
        dec(n as nat)
    }
}

/// `s` filled up with zeros on the left to at least `width` characters.
pub open spec fn zero_padded(s: Seq<char>, width: nat) -> Seq<char> {
    if s.len() >= width {
        s
    } else {
        Seq::new((width - s.len()) as nat, |i: int| '0') + s
    }
}

proof fn lemma_digits_step(n: nat, base: nat)
    requires
        2 <= base <= 16,
    ensures
        digits(n, base).len() > 0,
        n >= base ==> digits(n, base) == digits(n / base, base).push(
            digit_char((n % base) as int),
        ),
        n < base ==> digits(n, base) == seq![digit_char(n as int)],
{
}

/// The character of `d` in base sixteen.
pub fn digit(d: u8) -> (c: char)
    requires
        d < 16,
    ensures
        c == digit_char(d as int),
{
    if d < 10 {
        (0x30 + d) as char
    } else {
        (0x61 + (d - 10)) as char
    }
}

/// Appends `n` in base `base`.
fn push_digits(s: &mut String, n: u64, base: u64)
    requires
        2 <= base <= 16,
    ensures
        final(s)@ == old(s)@ + digits(n as nat, base as nat),
    decreases n,
{
    if n >= base {
        assert(n / base < n) by (nonlinear_arith)
            requires
                n >= base,
                base >= 2,
        ;
        push_digits(s, n / base, base);
    }
    let d: u8 = (n % base) as u8;
    let ghost before = s@;
    s.push(digit(d));
    proof {
        lemma_digits_step(n as nat, base as nat);
        if n >= base {
            assert(s@ =~= old(s)@ + digits(n as nat, base as nat));
        } else {
            assert(n % base == n) by (nonlinear_arith)
                requires
                    0 <= n < base,
            ;
            assert(s@ =~= old(s)@ + digits(n as nat, base as nat));
        }
    }
}

/// Appends `n` in decimal.
pub fn push_dec(s: &mut String, n: u64)
    ensures
        final(s)@ == old(s)@ + dec(n as nat),
{
    push_digits(s, n, 10);
}

/// Appends `n` in decimal, with a minus sign where it is negative.
pub fn push_signed(s: &mut String, n: i64)
    ensures
        final(s)@ == old(s)@ + signed_dec(n as int),
{
    if n < 0 {
        s.push('-');
        let magnitude: u64 = (-(n as i128)) as u64;
        push_digits(s, magnitude, 10);
        assert(s@ =~= old(s)@ + signed_dec(n as int));
    } else {
        push_digits(s, n as u64, 10);
    }
}

/// Appends `n` in base `base`, filled up with zeros to `width` characters.
fn push_padded(s: &mut String, n: u64, base: u64, width: usize)
    requires
        2 <= base <= 16,
    ensures
        final(s)@ == old(s)@ + zero_padded(digits(n as nat, base as nat), width as nat),
{
    let mut number: String = String::new();
    push_digits(&mut number, n, base);
    assert(number@ =~= digits(n as nat, base as nat));
    let len: usize = number.as_str().unicode_len();
    let mut i: usize = len;
    while i < width
        invariant
            number@ == digits(n as nat, base as nat),
            len == number@.len(),
            len <= i,
            i <= width || i == len,
            s@ == old(s)@ + Seq::new((i - len) as nat, |k: int| '0'),
        decreases width - i,
    {
        s.push('0');
        i = i + 1;
        assert(s@ =~= old(s)@ + Seq::new((i - len) as nat, |k: int| '0'));
    }
    s.append(number.as_str());
    assert(s@ =~= old(s)@ + zero_padded(digits(n as nat, base as nat), width as nat));
}

/// Appends `n` in decimal, at least `width` digits wide.
pub fn push_dec_padded(s: &mut String, n: u64, width: usize)
    ensures
        final(s)@ == old(s)@ + zero_padded(dec(n as nat), width as nat),
{
    push_padded(s, n, 10, width);
}

/// Appends `n` in lower-case hexadecimal, at least `width` digits wide.
pub fn push_hex_padded(s: &mut String, n: u64, width: usize)
    ensures
        final(s)@ == old(s)@ + zero_padded(hex(n as nat), width as nat),
{
    push_padded(s, n, 16, width);
}

/// Appends `n` in lower-case hexadecimal.
pub fn push_hex(s: &mut String, n: u64)
    ensures
        final(s)@ == old(s)@ + hex(n as nat),
{
    push_digits(s, n, 16);
}

/// `n` in decimal.
pub fn dec_text(n: u64) -> (s: String)
    ensures
        s@ == dec(n as nat),
{
    let mut s: String = String::new();
    push_dec(&mut s, n);
    assert(s@ =~= dec(n as nat));
    s
}

/// `n` in decimal, with a minus sign where it is negative.
pub fn signed_text(n: i64) -> (s: String)
    ensures
        s@ == signed_dec(n as int),
{
    let mut s: String = String::new();
    push_signed(&mut s, n);
    assert(s@ =~= signed_dec(n as int));
    s
}

/// The characters of `s`, one by one.
pub fn chars_of(s: &str) -> (chars: Vec<char>)
    ensures
        chars@ == s@,
{
    let mut chars: Vec<char> = Vec::new();
    for c in it: s.chars()
        invariant
            chars@ == it.seq().take(it.index() as int),
            it.seq() == s@,
    {
        chars.push(c);
        assert(chars@ =~= it.seq().take(it.index() as int + 1));
    }
    assert(chars@ =~= s@);
    chars
}

/// The string made of `chars`.
pub fn string_of(chars: &[char]) -> (s: String)
    ensures
        s@ == chars@,
{
    let mut s: String = String::new();
    let mut i: usize = 0;
    while i < chars.len()
        invariant
            i <= chars@.len(),
            s@ == chars@.take(i as int),
        decreases chars@.len() - i,
    {
        s.push(chars[i]);
        i = i + 1;
        assert(s@ =~= chars@.take(i as int));
    }
    assert(s@ =~= chars@);
    s
}

/// Whether two strings hold the same characters.
pub fn same(a: &str, b: &str) -> (r: bool)
    ensures
        r == (a@ == b@),
{
    let x: String = a.to_owned();
    let y: String = b.to_owned();
    x == y
}

/// What `{:?}` prints for a string: the string in quotes, with the characters escaped that would
/// not print as themselves.
pub uninterp spec fn quoted(s: Seq<char>) -> Seq<char>;

/// Formats a string with `{:?}`, that is by the `Debug` impl of `str`. What is escaped, and how,
/// is fixed by the characters alone; nothing more is said of it here.
#[verifier::external_body]
fn debug_text(s: &str) -> (t: String)
    ensures
        t@ == quoted(s@),
{
    format!("{:?}", s)
}

/// Appends `s` in quotes, as `{:?}` prints it.
pub fn push_quoted(t: &mut String, s: &str)
    ensures
        final(t)@ == old(t)@ + quoted(s@),
{
    let q: String = debug_text(s);
    t.append(q.as_str());
}

/// `str::from_utf8` reads bytes as text: it succeeds on valid UTF-8 alone, and then gives the
/// characters that the bytes encode.
#[verifier::external_body]
fn utf8_text(bytes: &[u8]) -> (text: Option<&str>)
    ensures
        text is Some <==> valid_utf8(bytes@),
        text matches Some(s) ==> s@ == decode_utf8(bytes@),
{
    match std::str::from_utf8(bytes) {
        Ok(s) => Some(s),
        Err(_) => None,
    }
}

/// The characters that `bytes` encode, where they are valid UTF-8.
pub fn decode(bytes: &[u8]) -> (chars: Option<Vec<char>>)
    ensures
        chars is Some <==> valid_utf8(bytes@),
        chars matches Some(c) ==> c@ == decode_utf8(bytes@),
{
    match utf8_text(bytes) {
        Some(s) => Some(chars_of(s)),
        None => None,
    }
}

/// The characters with the Unicode property `White_Space`.
pub open spec fn white(c: char) -> bool {
    '\u{9}' <= c <= '\u{d}' || c == ' ' || c == '\u{85}' || c == '\u{a0}' || c == '\u{1680}'
        || '\u{2000}' <= c <= '\u{200a}' || c == '\u{2028}' || c == '\u{2029}' || c == '\u{202f}'
        || c == '\u{205f}' || c == '\u{3000}'
}

pub fn is_white(c: char) -> (r: bool)
    ensures
        r == white(c),
{
    ('\u{9}' <= c && c <= '\u{d}') || c == ' ' || c == '\u{85}' || c == '\u{a0}' || c == '\u{1680}'
        || ('\u{2000}' <= c && c <= '\u{200a}') || c == '\u{2028}' || c == '\u{2029}'
        || c == '\u{202f}' || c == '\u{205f}' || c == '\u{3000}'
}

/// `s` without its leading white space.
pub open spec fn trim_start(s: Seq<char>) -> Seq<char>
    decreases s.len(),
{
    if s.len() > 0 && white(s[0]) {
        trim_start(s.skip(1))
    } else {
        s
    }
}

/// `s` without its trailing white space.
pub open spec fn trim_end(s: Seq<char>) -> Seq<char>
    decreases s.len(),
{
    if s.len() > 0 && white(s.last()) {
        trim_end(s.drop_last())
    } else {
        s
    }
}

/// `s` without white space at either end.
pub open spec fn trim(s: Seq<char>) -> Seq<char> {
    trim_end(trim_start(s))
}

/// The longest prefix of `s` in which `stop` holds of no character.
pub open spec fn until(s: Seq<char>, stop: spec_fn(char) -> bool) -> Seq<char>
    decreases s.len(),
{
    if s.len() == 0 || stop(s[0]) {
        Seq::empty()
    } else {
        seq![s[0]] + until(s.skip(1), stop)
    }
}

/// The first word of `s`: what stands before the next white space.
pub open spec fn word(s: Seq<char>) -> Seq<char> {
    until(trim_start(s), |c: char| white(c))
}

/// What follows the first word of `s`.
pub open spec fn after_word(s: Seq<char>) -> Seq<char> {
    trim_start(s).skip(word(s).len() as int)
}

/// The index behind the white space that starts at `from`.
pub fn skip_white(chars: &[char], from: usize) -> (i: usize)
    requires
        from <= chars@.len(),
    ensures
        from <= i <= chars@.len(),
        trim_start(chars@.skip(from as int)) == chars@.skip(i as int),
{
    let mut i: usize = from;
    while i < chars.len() && is_white(chars[i])
        invariant
            from <= i <= chars@.len(),
            trim_start(chars@.skip(from as int)) == trim_start(chars@.skip(i as int)),
        decreases chars@.len() - i,
    {
        assert(chars@.skip(i as int).skip(1) =~= chars@.skip(i + 1));
        i = i + 1;
    }
    i
}

/// The index of the first white space at or behind `from`, or the end.
pub fn word_end(chars: &[char], from: usize) -> (i: usize)
    requires
        from <= chars@.len(),
    ensures
        from <= i <= chars@.len(),
        until(chars@.skip(from as int), |c: char| white(c)) == chars@.subrange(
            from as int,
            i as int,
        ),
{
    let ghost stop = |c: char| white(c);
    let mut i: usize = from;
    while i < chars.len() && !is_white(chars[i])
        invariant
            from <= i <= chars@.len(),
            stop == (|c: char| white(c)),
            until(chars@.skip(from as int), stop) == chars@.subrange(from as int, i as int) + until(
                chars@.skip(i as int),
                stop,
            ),
        decreases chars@.len() - i,
    {
        proof {
            let here = chars@.skip(i as int);
            assert(here.skip(1) =~= chars@.skip(i + 1));
            assert(until(here, stop) == seq![here[0]] + until(here.skip(1), stop));
            assert(chars@.subrange(from as int, i + 1) =~= chars@.subrange(from as int, i as int)
                + seq![here[0]]);
            assert(chars@.subrange(from as int, i as int) + (seq![here[0]] + until(
                here.skip(1),
                stop,
            )) =~= chars@.subrange(from as int, i + 1) + until(here.skip(1), stop));
        }
        i = i + 1;
    }
    assert(chars@.subrange(from as int, i as int) + Seq::<char>::empty() =~= chars@.subrange(
        from as int,
        i as int,
    ));
    i
}

/// The index of the first `c` at or behind `from`, or the end.
pub fn find_char(chars: &[char], from: usize, c: char) -> (i: usize)
    requires
        from <= chars@.len(),
    ensures
        from <= i <= chars@.len(),
        forall|k: int| from <= k < i ==> chars@[k] != c,
        i < chars@.len() ==> chars@[i as int] == c,
{
    let mut i: usize = from;
    while i < chars.len() && chars[i] != c
        invariant
            from <= i <= chars@.len(),
            forall|k: int| from <= k < i ==> chars@[k] != c,
        decreases chars@.len() - i,
    {
        i = i + 1;
    }
    i
}

/// A run without `stop` followed by a stop or the end is what `until` gives.
pub proof fn lemma_until(s: Seq<char>, stop: spec_fn(char) -> bool, n: int)
    requires
        0 <= n <= s.len(),
        forall|k: int| 0 <= k < n ==> !stop(#[trigger] s[k]),
        n < s.len() ==> stop(s[n]),
    ensures
        until(s, stop) == s.take(n),
    decreases n,
{
    if n > 0 {
        assert(!stop(s[0]));
        assert forall|k: int| 0 <= k < n - 1 implies !stop(#[trigger] s.skip(1)[k]) by {
            assert(!stop(s[k + 1]));
        }
        lemma_until(s.skip(1), stop, n - 1);
        assert(s.take(n) =~= seq![s[0]] + s.skip(1).take(n - 1));
    } else {
        assert(s.take(0) =~= Seq::<char>::empty());
    }
}

/// The characters from `from` to `to`, as a string.
pub fn string_between(chars: &[char], from: usize, to: usize) -> (s: String)
    requires
        from <= to <= chars@.len(),
    ensures
        s@ == chars@.subrange(from as int, to as int),
{
    let mut s: String = String::new();
    let mut i: usize = from;
    while i < to
        invariant
            from <= i <= to <= chars@.len(),
            s@ == chars@.subrange(from as int, i as int),
        decreases to - i,
    {
        s.push(chars[i]);
        i = i + 1;
        assert(s@ =~= chars@.subrange(from as int, i as int));
    }
    s
}


/// A decimal digit.
pub open spec fn is_digit_char(c: char) -> bool {
    '0' <= c <= '9'
}

/// Why a text is no number.
#[derive(Clone, Copy, Debug, PartialEq, Eq, Structural)]
pub enum ParseError {
    Empty,
    InvalidDigit,
    TooLarge,
}

impl ParseError {
    pub open spec fn says(self) -> Seq<char> {
        match self {
            ParseError::Empty => "cannot parse integer from empty string"@,
            ParseError::InvalidDigit => "invalid digit found in string"@,
            ParseError::TooLarge => "number too large to fit in target type"@,
        }
    }

    pub fn text(self) -> (s: &'static str)
        ensures
            s@ == self.says(),
    {
        match self {
            ParseError::Empty => "cannot parse integer from empty string",
            ParseError::InvalidDigit => "invalid digit found in string",
            ParseError::TooLarge => "number too large to fit in target type",
        }
    }
}

/// What comes of reading digits behind a number that was read so far. The first thing that is
/// wrong counts.
pub open spec fn read_digits(s: Seq<char>, so_far: nat, max: nat) -> std::result::Result<
    nat,
    ParseError,
>
    decreases s.len(),
{
    if s.len() == 0 {
        Ok(so_far)
    } else if !is_digit_char(s[0]) {
        Err(ParseError::InvalidDigit)
    } else {
        let n = so_far * 10 + (s[0] as nat - '0' as nat) as nat;
        if n > max {
            Err(ParseError::TooLarge)
        } else {
            read_digits(s.skip(1), n, max)
        }
    }
}

/// The number that a text stands for: digits, with a plus sign in front or without.
pub open spec fn parsed(s: Seq<char>, max: nat) -> std::result::Result<nat, ParseError> {
    if s.len() == 0 {
        Err(ParseError::Empty)
    } else if s[0] == '+' {
        if s.len() == 1 {
            Err(ParseError::InvalidDigit)
        } else {
            read_digits(s.skip(1), 0, max)
        }
    } else {
        read_digits(s, 0, max)
    }
}

proof fn lemma_read_push(s: Seq<char>, c: char, so_far: nat, max: nat)
    requires
        is_digit_char(c),
    ensures
        read_digits(s.push(c), so_far, max) == match read_digits(s, so_far, max) {
            Ok(n) => {
                let m = n * 10 + (c as nat - '0' as nat) as nat;
                if m > max {
                    Err(ParseError::TooLarge)
                } else {
                    Ok(m)
                }
            },
            Err(e) => Err(e),
        },
    decreases s.len(),
{
    if s.len() == 0 {
        assert(s.push(c).skip(1) =~= Seq::<char>::empty());
        reveal_with_fuel(read_digits, 2);
    } else {
        assert(s.push(c)[0] == s[0]);
        assert(s.push(c).skip(1) =~= s.skip(1).push(c));
        if is_digit_char(s[0]) {
            let n = so_far * 10 + (s[0] as nat - '0' as nat) as nat;
            lemma_read_push(s.skip(1), c, n, max);
        }
    }
}

proof fn lemma_read_back(n: nat, max: nat)
    requires
        n <= max,
    ensures
        read_digits(dec(n), 0, max) == Ok::<nat, ParseError>(n),
        dec(n).len() > 0,
        is_digit_char(dec(n)[0]),
        is_digit_char(dec(n).last()),
    decreases n,
{
    lemma_digits_step(n, 10);
    if n < 10 {
        reveal_with_fuel(read_digits, 2);
        assert(dec(n).skip(1) =~= Seq::<char>::empty());
    } else {
        lemma_read_back(n / 10, max);
        let d = digit_char((n % 10) as int);
        assert(is_digit_char(d));
        lemma_read_push(dec(n / 10), d, 0, max);
        assert(dec(n)[0] == dec(n / 10)[0]);
    }
}

/// A number that was written in decimal is read back as it was, alone or at the end of a line.
pub proof fn a_number_is_read_back(n: nat, max: nat)
    requires
        n <= max,
    ensures
        parsed(dec(n), max) == Ok::<nat, ParseError>(n),
        trim(dec(n) + seq!['\n']) == dec(n),
{
    lemma_read_back(n, max);
    let line = dec(n) + seq!['\n'];
    assert(line[0] == dec(n)[0]);
    assert(trim_start(line) == line);
    assert(line.drop_last() =~= dec(n));
    reveal_with_fuel(trim_end, 3);
}

/// Reads a number that is at most `max` from the characters between two places.
pub fn parse_between(chars: &[char], from: usize, to: usize, max: u64) -> (r: std::result::Result<
    u64,
    ParseError,
>)
    requires
        from <= to <= chars@.len(),
    ensures
        match (r, parsed(chars@.subrange(from as int, to as int), max as nat)) {
            (Ok(n), Ok(m)) => n == m && n <= max,
            (Err(e), Err(f)) => e == f,
            _ => false,
        },
{
    let ghost whole = chars@.subrange(from as int, to as int);
    if from == to {
        return Err(ParseError::Empty);
    }
    let mut i: usize = from;
    if chars[from] == '+' {
        i = i + 1;
        if i == to {
            return Err(ParseError::InvalidDigit);
        }
    }
    let mut n: u64 = 0;
    assert(chars@.subrange(i as int, to as int) =~= if whole[0] == '+' {
        whole.skip(1)
    } else {
        whole
    });
    while i < to
        invariant
            from <= i <= to <= chars@.len(),
            whole == chars@.subrange(from as int, to as int),
            n <= max,
            parsed(whole, max as nat) == read_digits(
                chars@.subrange(i as int, to as int),
                n as nat,
                max as nat,
            ),
        decreases to - i,
    {
        let c: char = chars[i];
        let ghost here = chars@.subrange(i as int, to as int);
        assert(here[0] == c);
        assert(here.skip(1) =~= chars@.subrange(i + 1, to as int));
        if !('0' <= c && c <= '9') {
            return Err(ParseError::InvalidDigit);
        }
        let d: u64 = (c as u32 - 0x30) as u64;
        if n > u64::MAX / 10 {
            return Err(ParseError::TooLarge);
        }
        if n * 10 > u64::MAX - d {
            return Err(ParseError::TooLarge);
        }
        let next: u64 = n * 10 + d;
        if next > max {
            return Err(ParseError::TooLarge);
        }
        n = next;
        i = i + 1;
    }
    assert(chars@.subrange(i as int, to as int) =~= Seq::<char>::empty());
    Ok(n)
}

/// `s` without white space at either end, as the bounds of what is left.
pub fn trim_bounds(chars: &[char]) -> (r: (usize, usize))
    ensures
        r.0 <= r.1 <= chars@.len(),
        trim(chars@) == chars@.subrange(r.0 as int, r.1 as int),
{
    assert(chars@.skip(0) =~= chars@);
    let from: usize = skip_white(chars, 0);
    let mut to: usize = chars.len();
    assert(chars@.skip(from as int) =~= chars@.subrange(from as int, to as int));
    while to > from && is_white(chars[to - 1])
        invariant
            from <= to <= chars@.len(),
            trim(chars@) == trim_end(chars@.subrange(from as int, to as int)),
        decreases to,
    {
        assert(chars@.subrange(from as int, to as int).drop_last() =~= chars@.subrange(
            from as int,
            to - 1,
        ));
        to = to - 1;
    }
    (from, to)
}

} // verus!
