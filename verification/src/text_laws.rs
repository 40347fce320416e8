//! What holds of numbers and words in texts.
use vstd::prelude::*;

#[allow(unused_imports)]
use crate::text::{
    after_word, dec, digits, hex, parsed, read_digits, signed_dec, trim, trim_end, trim_start,
    until, white, word, zero_padded, ParseError,
};

verus! {

/// A number grows by a digit at its end when it is multiplied by its base. A digit below ten is
/// itself; the six above it are the letters from `a` to `f`. A minus sign stands before a number
/// below zero and before no other.
pub proof fn numbers_are_written_digit_by_digit(n: nat, d: nat)
    ensures
        n > 0 && d < 10 ==> dec(n * 10 + d) == dec(n).push(('0' as int + d) as char),
        d < 10 ==> dec(d) == seq![('0' as int + d) as char],
        d < 10 ==> hex(d) == seq![('0' as int + d) as char],
        10 <= d < 16 ==> hex(d) == seq![('a' as int + d - 10) as char],
        n > 0 && d < 16 ==> hex(n * 16 + d) == hex(n) + hex(d),
        signed_dec(n as int) == dec(n),
        n > 0 ==> signed_dec(-n) == seq!['-'] + dec(n),
{
    if n > 0 && d < 10 {
        assert((n * 10 + d) / 10 == n && (n * 10 + d) % 10 == d);
    }
    if n > 0 && d < 16 {
        assert((n * 16 + d) / 16 == n && (n * 16 + d) % 16 == d);
        assert(hex(n * 16 + d) =~= hex(n) + hex(d));
    }
}

/// A text that is filled up keeps its end, has zeros before it and nothing else, and is as long as
/// asked for or as it was.
pub proof fn filling_up_adds_zeros_in_front(s: Seq<char>, width: nat)
    ensures
        zero_padded(s, width).len() == if s.len() < width {
            width
        } else {
            s.len()
        },
        s == zero_padded(s, width).skip(zero_padded(s, width).len() - s.len()),
        forall|i: int|
            0 <= i < zero_padded(s, width).len() - s.len() ==> #[trigger] zero_padded(s, width)[i]
                == '0',
{
    assert(s =~= zero_padded(s, width).skip(zero_padded(s, width).len() - s.len()));
}

/// White space is the tab and what follows it up to the carriage return, the space, and the blanks
/// and separators that Unicode lists beyond ASCII.
pub proof fn white_space(c: char)
    ensures
        (c as u32) < 0x80 ==> (white(c) <==> c == '\t' || c == '\n' || c as u32 == 0xb || c as u32
            == 0xc || c == '\r' || c == ' '),
        c as u32 >= 0x80 ==> (white(c) <==> c as u32 == 0x85 || c as u32 == 0xa0 || c as u32
            == 0x1680 || 0x2000 <= c as u32 <= 0x200a || c as u32 == 0x2028 || c as u32 == 0x2029
            || c as u32 == 0x202f || c as u32 == 0x205f || c as u32 == 0x3000),
{
}

/// Trimming takes white space from both ends and nothing else.
pub proof fn trimming_takes_only_white_space(s: Seq<char>) -> (r: (int, int))
    ensures
        0 <= r.0 <= r.1 <= s.len(),
        trim(s) == s.subrange(r.0, r.1),
        forall|i: int| 0 <= i < r.0 ==> white(#[trigger] s[i]),
        forall|i: int| r.1 <= i < s.len() ==> white(#[trigger] s[i]),
        trim(s).len() > 0 ==> !white(trim(s)[0]) && !white(trim(s).last()),
{
    let a = lemma_trim_start(s);
    let t = s.skip(a);
    let b = lemma_trim_end(t);
    assert(t.take(b) =~= s.subrange(a, a + b));
    assert forall|i: int| a + b <= i < s.len() implies white(#[trigger] s[i]) by {
        assert(t[i - a] == s[i]);
    }
    (a, a + b)
}

proof fn lemma_trim_start(s: Seq<char>) -> (a: int)
    ensures
        0 <= a <= s.len(),
        trim_start(s) == s.skip(a),
        forall|i: int| 0 <= i < a ==> white(#[trigger] s[i]),
        a < s.len() ==> !white(s[a]),
    decreases s.len(),
{
    if s.len() > 0 && white(s[0]) {
        let b = lemma_trim_start(s.skip(1));
        assert(s.skip(1).skip(b) =~= s.skip(b + 1));
        assert forall|i: int| 0 <= i < b + 1 implies white(#[trigger] s[i]) by {
            if i > 0 {
                assert(s.skip(1)[i - 1] == s[i]);
            }
        }
        b + 1
    } else {
        assert(s.skip(0) =~= s);
        0
    }
}

proof fn lemma_trim_end(s: Seq<char>) -> (b: int)
    ensures
        0 <= b <= s.len(),
        trim_end(s) == s.take(b),
        forall|i: int| b <= i < s.len() ==> white(#[trigger] s[i]),
        b > 0 ==> !white(s[b - 1]),
        trim_end(s).len() > 0 ==> trim_end(s)[0] == s[0],
    decreases s.len(),
{
    if s.len() > 0 && white(s.last()) {
        let b = lemma_trim_end(s.drop_last());
        assert(s.drop_last().take(b) =~= s.take(b));
        assert forall|i: int| b <= i < s.len() implies white(#[trigger] s[i]) by {
            if i < s.len() - 1 {
                assert(s.drop_last()[i] == s[i]);
            }
        }
        b
    } else {
        assert(s.take(s.len() as int) =~= s);
        s.len() as int
    }
}

/// Behind white space comes a word and behind it the rest; a word holds no white space, and the
/// rest is empty or begins with some.
pub proof fn a_word_ends_at_white_space(s: Seq<char>) -> (a: int)
    ensures
        0 <= a <= s.len(),
        forall|i: int| 0 <= i < a ==> white(#[trigger] s[i]),
        s.skip(a) == word(s) + after_word(s),
        forall|i: int| 0 <= i < word(s).len() ==> !white(#[trigger] word(s)[i]),
        after_word(s).len() > 0 ==> white(after_word(s)[0]),
        word(s).len() == 0 ==> a == s.len(),
{
    let a = lemma_trim_start(s);
    let t = s.skip(a);
    let n = lemma_run(t);
    assert(word(s) =~= t.take(n));
    assert(t =~= t.take(n) + t.skip(n));
    assert forall|i: int| 0 <= i < word(s).len() implies !white(#[trigger] word(s)[i]) by {
        assert(t[i] == word(s)[i]);
    }
    a
}

proof fn lemma_run(s: Seq<char>) -> (n: int)
    ensures
        0 <= n <= s.len(),
        until(s, |c: char| white(c)) == s.take(n),
        forall|i: int| 0 <= i < n ==> !white(#[trigger] s[i]),
        n < s.len() ==> white(s[n]),
    decreases s.len(),
{
    let stop = |c: char| white(c);
    if s.len() == 0 || white(s[0]) {
        assert(s.take(0) =~= Seq::<char>::empty());
        0
    } else {
        let n = lemma_run(s.skip(1));
        assert(s.take(n + 1) =~= seq![s[0]] + s.skip(1).take(n));
        assert forall|i: int| 0 <= i < n + 1 implies !white(#[trigger] s[i]) by {
            if i > 0 {
                assert(s.skip(1)[i - 1] == s[i]);
            }
        }
        n + 1
    }
}

/// A text is a number exactly where it is digits alone, with one plus sign before them or without,
/// that do not come to more than the maximum. An empty text is none, one with anything else in it
/// is none, and each digit counts ten times what the next one counts.
pub proof fn a_number_is_made_of_digits(s: Seq<char>, c: char, max: nat)
    ensures
        parsed(s, max) == Err::<nat, ParseError>(ParseError::Empty) <==> s.len() == 0,
        parsed(s, max) matches Ok(n) ==> n <= max,
        parsed(s, max) is Ok ==> forall|i: int|
            0 <= i < s.len() ==> '0' <= #[trigger] s[i] <= '9' || i == 0 && s[i] == '+',
        s.len() > 0 && s[0] != '+' ==> parsed(seq!['+'] + s, max) == parsed(s, max),
        '0' <= c <= '9' && c as int - '0' as int <= max ==> parsed(seq![c], max) == Ok::<
            nat,
            ParseError,
        >((c as int - '0' as int) as nat),
        '0' <= c <= '9' ==> (parsed(s, max) matches Ok(n) ==> parsed(s.push(c), max) == (if n * 10
            + (c as int - '0' as int) <= max {
            Ok::<nat, ParseError>((n * 10 + (c as int - '0' as int)) as nat)
        } else {
            Err(ParseError::TooLarge)
        })),
        !('0' <= c <= '9') && c != '+' ==> parsed(seq![c] + s, max) == Err::<nat, ParseError>(
            ParseError::InvalidDigit,
        ),
        !('0' <= c <= '9') && (s.len() > 0 || c != '+') ==> (parsed(s, max) is Ok ==> parsed(
            s.push(c),
            max,
        ) == Err::<nat, ParseError>(ParseError::InvalidDigit)),
        parsed(seq!['+'], max) == Err::<nat, ParseError>(ParseError::InvalidDigit),
{
    if s.len() > 0 {
        let body = if s[0] == '+' {
            s.skip(1)
        } else {
            s
        };
        lemma_read(body, c, 0, max);
        assert((seq!['+'] + s).skip(1) =~= s);
        if parsed(s, max) is Ok {
            assert forall|i: int| 0 <= i < s.len() implies '0' <= #[trigger] s[i] <= '9' || i == 0
                && s[i] == '+' by {
                if s[0] == '+' {
                    if i > 0 {
                        assert(body[i - 1] == s[i]);
                    }
                } else {
                    assert(body[i] == s[i]);
                }
            }
            assert(s.push(c)[0] == s[0]);
            assert(s.push(c).skip(1) =~= s.skip(1).push(c));
        }
    }
    let one = seq![c];
    assert(one.skip(1) =~= Seq::<char>::empty());
    reveal_with_fuel(read_digits, 2);
    assert((one + s)[0] == c);
}

proof fn lemma_read(s: Seq<char>, c: char, so_far: nat, max: nat)
    requires
        so_far <= max,
    ensures
        read_digits(s, so_far, max) != Err::<nat, ParseError>(ParseError::Empty),
        read_digits(s, so_far, max) matches Ok(n) ==> n <= max,
        read_digits(s, so_far, max) is Ok ==> forall|i: int|
            0 <= i < s.len() ==> '0' <= #[trigger] s[i] <= '9',
        read_digits(s, so_far, max) matches Ok(n) ==> read_digits(s.push(c), so_far, max) == (
        if '0' <= c <= '9' {
            let m = n * 10 + (c as nat - '0' as nat) as nat;
            if m > max {
                Err::<nat, ParseError>(ParseError::TooLarge)
            } else {
                Ok::<nat, ParseError>(m)
            }
        } else {
            Err::<nat, ParseError>(ParseError::InvalidDigit)
        }),
    decreases s.len(),
{
    if s.len() == 0 {
        assert(s.push(c).skip(1) =~= Seq::<char>::empty());
        reveal_with_fuel(read_digits, 2);
    } else {
        assert(s.push(c)[0] == s[0]);
        assert(s.push(c).skip(1) =~= s.skip(1).push(c));
        if '0' <= s[0] <= '9' {
            let n = so_far * 10 + (s[0] as nat - '0' as nat) as nat;
            if n <= max {
                lemma_read(s.skip(1), c, n, max);
                assert forall|i: int|
                    read_digits(s, so_far, max) is Ok && 0 <= i < s.len() implies '0' <= #[trigger] s[i]
                    <= '9' by {
                    if i > 0 {
                        assert(s.skip(1)[i - 1] == s[i]);
                    }
                }
            }
        }
    }
}

/// Each reason has words of its own.
pub proof fn why_a_text_is_no_number()
    ensures
        ParseError::Empty.says() == "cannot parse integer from empty string"@,
        ParseError::InvalidDigit.says() == "invalid digit found in string"@,
        ParseError::TooLarge.says() == "number too large to fit in target type"@,
{
}

} // verus!
