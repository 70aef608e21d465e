//! Numbers and lines as text.

use vstd::prelude::*;

verus! {

/// The digit of value `d`: `0` to `9`, then `a` to `f`.
pub open spec fn digit(d: nat) -> char {
    if d < 10 {
        ('0' as int + d) as char
    } else {
        ('a' as int + d - 10) as char
    }
}

/// `n` in base `base`, most significant digit first, without leading zeros.
pub open spec fn numeral(n: nat, base: nat) -> Seq<char>
    decreases n,
{
    if n < base || base < 2 {
        seq![digit(n)]
    } else {
        proof {
            lemma_quotient_is_smaller(n, base);
        }
        numeral(n / base, base).push(digit(n % base))
    }
}

/// Dividing by a base makes a number of two digits or more smaller.
pub proof fn lemma_quotient_is_smaller(n: nat, base: nat)
    requires
        base <= n,
        base >= 2,
    ensures
        n / base < n,
{
    assert(n / base < n) by (nonlinear_arith)
        requires
            n >= base,
            base >= 2,
    ;
}

/// `n` in base ten.
pub open spec fn decimal(n: nat) -> Seq<char> {
    numeral(n, 10)
}

/// `n` in base sixteen, in lower case.
pub open spec fn hexadecimal(n: nat) -> Seq<char> {
    numeral(n, 16)
}

/// The text of one digit.
fn digit_text(d: u64) -> (text: &'static str)
    requires
        d < 16,
    ensures
        text@ == seq![digit(d as nat)],
{
    proof {
        reveal_strlit("0");
        reveal_strlit("1");
        reveal_strlit("2");
        reveal_strlit("3");
        reveal_strlit("4");
        reveal_strlit("5");
        reveal_strlit("6");
        reveal_strlit("7");
        reveal_strlit("8");
        reveal_strlit("9");
        reveal_strlit("a");
        reveal_strlit("b");
        reveal_strlit("c");
        reveal_strlit("d");
        reveal_strlit("e");
        reveal_strlit("f");
    }
    match d {
        0 => "0",
        1 => "1",
        2 => "2",
        3 => "3",
        4 => "4",
        5 => "5",
        6 => "6",
        7 => "7",
        8 => "8",
        9 => "9",
        10 => "a",
        11 => "b",
        12 => "c",
        13 => "d",
        14 => "e",
        _ => "f",
    }
}

/// `n` written in base `base`.
fn numeral_text(n: u64, base: u64) -> (text: String)
    requires
        2 <= base <= 16,
    ensures
        text@ == numeral(n as nat, base as nat),
    decreases n,
{
    if n < base {
        digit_text(n).to_owned()
    } else {
        proof {
            lemma_quotient_is_smaller(n as nat, base as nat);
        }
        let mut text = numeral_text(n / base, base);
        text.append(digit_text(n % base));
        assert(text@ == numeral((n / base) as nat, base as nat).push(digit((n % base) as nat)));
        text
    }
}

/// `n` written in base ten.
pub fn decimal_text(n: u64) -> (text: String)
    ensures
        text@ == decimal(n as nat),
{
    numeral_text(n, 10)
}

/// `n` written in base sixteen, in lower case.
pub fn hexadecimal_text(n: u64) -> (text: String)
    ensures
        text@ == hexadecimal(n as nat),
{
    numeral_text(n, 16)
}

/// The number that a decimal digit stands for.
pub open spec fn digit_value(c: char) -> int {
    c as int - '0' as int
}

pub open spec fn is_decimal_digit(c: char) -> bool {
    '0' <= c <= '9'
}

/// Whether `s` is made of decimal digits.
pub open spec fn all_digits(s: Seq<char>) -> bool {
    forall|i: int| 0 <= i < s.len() ==> is_decimal_digit(#[trigger] s[i])
}

/// The number that decimal digits spell, most significant first.
pub open spec fn decimal_value(s: Seq<char>) -> int
    decreases s.len(),
{
    if s.len() == 0 {
        0
    } else {
        decimal_value(s.drop_last()) * 10 + digit_value(s.last())
    }
}

/// The digits of a numeral: what follows an optional plus sign.
pub open spec fn unsigned_digits(s: Seq<char>) -> Seq<char> {
    if s.len() > 0 && s[0] == '+' {
        s.skip(1)
    } else {
        s
    }
}

/// The number below 65536 that `s` spells: decimal digits, at least one, after an
/// optional plus sign.
pub open spec fn parsed_u16(s: Seq<char>) -> Option<u16> {
    let digits = unsigned_digits(s);
    if digits.len() > 0 && all_digits(digits) && decimal_value(digits)
        < 0x1_0000 {
        Some(decimal_value(digits) as u16)
    } else {
        None
    }
}

/// Decimal digits spell no negative number, and a longer numeral no smaller one.
proof fn lemma_decimal_value_grows(s: Seq<char>, n: int)
    requires
        all_digits(s),
        0 <= n <= s.len(),
    ensures
        0 <= decimal_value(s.take(n)) <= decimal_value(s),
    decreases s.len(),
{
    if s.len() > 0 {
        assert(is_decimal_digit(s.last()));
        if n < s.len() {
            assert(all_digits(s.drop_last()));
            lemma_decimal_value_grows(s.drop_last(), n);
            assert(s.drop_last().take(n) =~= s.take(n));
        } else {
            assert(all_digits(s.drop_last()));
            lemma_decimal_value_grows(s.drop_last(), n - 1);
            assert(s.take(n) =~= s);
        }
    }
}

/// Reads a number below 65536 in base ten.
pub fn parse_u16(s: &[char]) -> (parsed: Option<u16>)
    ensures
        parsed == parsed_u16(s@),
{
    let start: usize = if s.len() > 0 && s[0] == '+' {
        1
    } else {
        0
    };
    let ghost digits = unsigned_digits(s@);
    assert(digits =~= s@.skip(start as int));
    if start == s.len() {
        return None;
    }
    let mut value: u32 = 0;
    let mut i: usize = start;
    while i < s.len()
        invariant
            start <= i <= s.len(),
            digits == unsigned_digits(s@),
            digits == s@.skip(start as int),
            digits.len() > 0,
            value < 0x1_0000,
            forall|k: int| 0 <= k < i - start ==> is_decimal_digit(#[trigger] digits[k]),
            value == decimal_value(digits.take(i - start)),
        decreases s.len() - i,
    {
        let c: char = s[i];
        assert(c == digits[i - start]);
        if c < '0' || c > '9' {
            assert(!all_digits(digits));
            return None;
        }
        let ghost longer = digits.take(i - start + 1);
        assert(longer.drop_last() =~= digits.take(i - start));
        value = value * 10 + (c as u32 - '0' as u32);
        assert(value == decimal_value(longer));
        if value >= 0x1_0000 {
            proof {
                if all_digits(digits) {
                    lemma_decimal_value_grows(digits, i - start + 1);
                }
            }
            return None;
        }
        i = i + 1;
    }
    assert(digits.take(s.len() - start) =~= digits);
    Some(value as u16)
}

/// Writing a number in base ten and reading it back gives the number.
pub proof fn law_decimal_reads_back(n: nat)
    ensures
        decimal(n).len() > 0,
        all_digits(decimal(n)),
        decimal_value(decimal(n)) == n,
        n < 0x1_0000 ==> parsed_u16(decimal(n)) == Some(n as u16),
    decreases n,
{
    if n < 10 {
        assert(decimal(n).drop_last() =~= Seq::<char>::empty());
        assert(decimal_value(decimal(n)) == decimal_value(decimal(n).drop_last()) * 10
            + digit_value(digit(n)));
    } else {
        let higher = decimal(n / 10);
        law_decimal_reads_back(n / 10);
        assert(decimal(n) == higher.push(digit(n % 10)));
        assert(decimal(n).drop_last() =~= higher);
        assert forall|k: int| 0 <= k < decimal(n).len() implies is_decimal_digit(
            #[trigger] decimal(n)[k],
        ) by {
            if k < higher.len() {
                assert(decimal(n)[k] == higher[k]);
            }
        }
    }
    assert(decimal(n)[0] != '+') by {
        assert(is_decimal_digit(decimal(n)[0]));
    }
}

/// The number that digits of a base up to sixteen spell, most significant first.
pub open spec fn numeral_value(s: Seq<char>, base: nat) -> int
    decreases s.len(),
{
    if s.len() == 0 {
        0
    } else {
        let d = s.last();
        numeral_value(s.drop_last(), base) * base + if is_decimal_digit(d) {
            digit_value(d)
        } else {
            d as int - 'a' as int + 10
        }
    }
}

/// Writing a number in a base and evaluating its digits gives the number, so that
/// different numbers are written differently.
pub proof fn law_numeral_reads_back(n: nat, base: nat)
    requires
        2 <= base <= 16,
    ensures
        numeral_value(numeral(n, base), base) == n,
    decreases n,
{
    let written = numeral(n, base);
    if n < base {
        assert(written.drop_last() =~= Seq::<char>::empty());
        assert(numeral_value(written.drop_last(), base) == 0);
        assert(0 * base == 0);
    } else {
        lemma_quotient_is_smaller(n, base);
        law_numeral_reads_back(n / base, base);
        assert(written.drop_last() =~= numeral(n / base, base));
        assert(written.last() == digit(n % base));
        assert(n == (n / base) * base + n % base) by (nonlinear_arith)
            requires
                base >= 2,
        ;
        assert(n % base < base) by (nonlinear_arith)
            requires
                base >= 2,
        ;
    }
}

/// The characters with the Unicode property White_Space.
pub open spec fn white_space(c: char) -> bool {
    let n = c as u32;
    ||| 0x09 <= n <= 0x0d
    ||| n == 0x20
    ||| n == 0x85
    ||| n == 0xa0
    ||| n == 0x1680
    ||| 0x2000 <= n <= 0x200a
    ||| 0x2028 <= n <= 0x2029
    ||| n == 0x202f
    ||| n == 0x205f
    ||| n == 0x3000
}

/// Whether `c` is white space.
pub fn is_white_space(c: char) -> (is: bool)
    ensures
        is == white_space(c),
{
    let n: u32 = c as u32;
    (0x09 <= n && n <= 0x0d) || n == 0x20 || n == 0x85 || n == 0xa0 || n == 0x1680 || (0x2000 <= n
        && n <= 0x200a) || n == 0x2028 || n == 0x2029 || n == 0x202f || n == 0x205f || n == 0x3000
}

/// `s` without its leading white space.
pub open spec fn trimmed_start(s: Seq<char>) -> Seq<char>
    decreases s.len(),
{
    if s.len() > 0 && white_space(s[0]) {
        trimmed_start(s.skip(1))
    } else {
        s
    }
}

/// `s` without its trailing white space.
pub open spec fn trimmed_end(s: Seq<char>) -> Seq<char>
    decreases s.len(),
{
    if s.len() > 0 && white_space(s.last()) {
        trimmed_end(s.drop_last())
    } else {
        s
    }
}

/// `s` without white space at either end.
pub open spec fn trimmed(s: Seq<char>) -> Seq<char> {
    trimmed_end(trimmed_start(s))
}

/// The part of `s` before its first white space.
pub open spec fn until_white_space(s: Seq<char>) -> Seq<char>
    decreases s.len(),
{
    if s.len() == 0 || white_space(s[0]) {
        Seq::empty()
    } else {
        seq![s[0]] + until_white_space(s.skip(1))
    }
}

/// The first of the words that white space separates, empty if there is none.
pub open spec fn first_word(s: Seq<char>) -> Seq<char> {
    until_white_space(trimmed_start(s))
}

/// The position where leading white space ends.
fn skip_white_space(s: &[char], from: usize, to: usize) -> (start: usize)
    requires
        from <= to <= s.len(),
    ensures
        from <= start <= to,
        s@.subrange(start as int, to as int) == trimmed_start(s@.subrange(from as int, to as int)),
{
    let mut start = from;
    while start < to && is_white_space(s[start])
        invariant
            from <= start <= to <= s.len(),
            trimmed_start(s@.subrange(start as int, to as int)) == trimmed_start(
                s@.subrange(from as int, to as int),
            ),
        decreases to - start,
    {
        assert(s@.subrange(start as int, to as int).skip(1) =~= s@.subrange(
            start + 1,
            to as int,
        ));
        start = start + 1;
    }
    start
}

/// The range of `s` that is left when white space is cut off both ends.
pub fn trim_range(s: &[char], from: usize, to: usize) -> (range: (usize, usize))
    requires
        from <= to <= s.len(),
    ensures
        from <= range.0 <= range.1 <= to,
        s@.subrange(range.0 as int, range.1 as int) == trimmed(
            s@.subrange(from as int, to as int),
        ),
{
    let start = skip_white_space(s, from, to);
    let mut end = to;
    while end > start && is_white_space(s[end - 1])
        invariant
            from <= start <= end <= to <= s.len(),
            trimmed_end(s@.subrange(start as int, end as int)) == trimmed_end(
                s@.subrange(start as int, to as int),
            ),
        decreases end,
    {
        assert(s@.subrange(start as int, end as int).drop_last() =~= s@.subrange(
            start as int,
            end - 1,
        ));
        end = end - 1;
    }
    (start, end)
}

/// The range of the first word between two positions of `s`.
pub fn first_word_range(s: &[char], from: usize, to: usize) -> (range: (usize, usize))
    requires
        from <= to <= s.len(),
    ensures
        from <= range.0 <= range.1 <= to,
        s@.subrange(range.0 as int, range.1 as int) == first_word(
            s@.subrange(from as int, to as int),
        ),
{
    let start = skip_white_space(s, from, to);
    let mut end = start;
    while end < to && !is_white_space(s[end])
        invariant
            from <= start <= end <= to <= s.len(),
            s@.subrange(start as int, end as int) + until_white_space(
                s@.subrange(end as int, to as int),
            ) == until_white_space(s@.subrange(start as int, to as int)),
        decreases to - end,
    {
        let ghost rest = s@.subrange(end as int, to as int);
        assert(rest.skip(1) =~= s@.subrange(end + 1, to as int));
        assert(s@.subrange(start as int, end + 1) =~= s@.subrange(start as int, end as int)
            + seq![rest[0]]);
        assert(s@.subrange(start as int, end + 1) + until_white_space(rest.skip(1))
            =~= s@.subrange(start as int, end as int) + until_white_space(rest));
        end = end + 1;
    }
    assert(s@.subrange(start as int, end as int) + Seq::<char>::empty() =~= s@.subrange(
        start as int,
        end as int,
    ));
    (start, end)
}

/// The position of the first line feed in `s`, or its length if there is none.
pub open spec fn first_break(s: Seq<char>) -> nat
    decreases s.len(),
{
    if s.len() == 0 || s[0] == '\n' {
        0
    } else {
        1 + first_break(s.skip(1))
    }
}

/// `first_break` stays within the text.
pub proof fn lemma_first_break_bounds(s: Seq<char>)
    ensures
        first_break(s) <= s.len(),
    decreases s.len(),
{
    if s.len() > 0 && s[0] != '\n' {
        lemma_first_break_bounds(s.skip(1));
    }
}

/// The lines of a text: what line feeds separate.
pub open spec fn lines(s: Seq<char>) -> Seq<Seq<char>>
    decreases s.len(),
{
    let n = first_break(s);
    if n < s.len() {
        seq![s.take(n as int)] + lines(s.skip(n as int + 1))
    } else {
        seq![s]
    }
}

/// What follows `prefix` on the last line that begins with it.
pub open spec fn last_value(lines: Seq<Seq<char>>, prefix: Seq<char>) -> Option<Seq<char>>
    decreases lines.len(),
{
    if lines.len() == 0 {
        None
    } else if prefix.is_prefix_of(lines.last()) {
        Some(lines.last().skip(prefix.len() as int))
    } else {
        last_value(lines.drop_last(), prefix)
    }
}

/// Joining a text and one more line with a line feed adds that line to the lines of the
/// text.
pub proof fn lemma_lines_of_joined(text: Seq<char>, line: Seq<char>)
    requires
        first_break(line) == line.len(),
    ensures
        lines(text + seq!['\n'] + line) == lines(text).push(line),
    decreases text.len(),
{
    let joined = text + seq!['\n'] + line;
    let n = first_break(text);
    lemma_first_break_bounds(text);
    lemma_break_of_joined(text, seq!['\n'] + line);
    assert(joined =~= text + (seq!['\n'] + line));
    assert(joined.take(n as int) =~= text.take(n as int));
    if n < text.len() {
        let rest = text.skip(n as int + 1);
        assert(joined.skip(n as int + 1) =~= rest + seq!['\n'] + line);
        lemma_lines_of_joined(rest, line);
        assert(lines(joined) =~= seq![text.take(n as int)] + lines(rest).push(line));
        assert(lines(text).push(line) =~= seq![text.take(n as int)] + lines(rest).push(line));
    } else {
        assert(text.take(n as int) =~= text);
        assert(joined.skip(n as int + 1) =~= line);
        assert(lines(line) == seq![line]);
        assert(lines(joined) =~= seq![text] + lines(line));
        assert(lines(joined) =~= lines(text).push(line));
    }
}

/// The first line feed of a text stays the first when more text follows.
proof fn lemma_break_of_joined(text: Seq<char>, more: Seq<char>)
    requires
        more.len() > 0,
        more[0] == '\n',
    ensures
        first_break(text + more) == first_break(text),
    decreases text.len(),
{
    if text.len() > 0 && text[0] != '\n' {
        assert((text + more).skip(1) =~= text.skip(1) + more);
        lemma_break_of_joined(text.skip(1), more);
    }
}

/// The position of the first line feed at or after `from`, or the length of `s`.
pub fn line_end(s: &[char], from: usize) -> (end: usize)
    requires
        from <= s.len(),
    ensures
        from <= end <= s.len(),
        end - from == first_break(s@.skip(from as int)),
{
    let mut end = from;
    while end < s.len() && s[end] != '\n'
        invariant
            from <= end <= s.len(),
            end - from + first_break(s@.skip(end as int)) == first_break(s@.skip(from as int)),
        decreases s.len() - end,
    {
        assert(s@.skip(end as int).skip(1) =~= s@.skip(end + 1));
        end = end + 1;
    }
    end
}

/// Whether the part of `s` between two positions begins with `prefix`.
pub fn begins_with(s: &[char], from: usize, to: usize, prefix: &[char]) -> (begins: bool)
    requires
        from <= to <= s.len(),
    ensures
        begins == prefix@.is_prefix_of(s@.subrange(from as int, to as int)),
{
    let ghost part = s@.subrange(from as int, to as int);
    if prefix.len() > to - from {
        return false;
    }
    let mut i: usize = 0;
    while i < prefix.len()
        invariant
            from <= to <= s.len(),
            part == s@.subrange(from as int, to as int),
            prefix.len() <= to - from,
            i <= prefix.len(),
            forall|k: int| 0 <= k < i ==> prefix@[k] == #[trigger] part[k],
        decreases prefix.len() - i,
    {
        if prefix[i] != s[from + i] {
            assert(part[i as int] != prefix@[i as int]);
            assert(part.subrange(0, prefix@.len() as int)[i as int] != prefix@[i as int]);
            return false;
        }
        i = i + 1;
    }
    assert(prefix@ =~= part.subrange(0, prefix@.len() as int));
    true
}

/// The characters of a string.
pub fn to_chars(text: &str) -> (chars: Vec<char>)
    ensures
        chars@ == text@,
{
    let mut chars: Vec<char> = Vec::new();
    for c in it: text.chars()
        invariant
            chars@ == it.seq().take(it.index()),
            it.seq() == text@,
    {
        chars.push(c);
    }
    chars
}

/// Base ten is positional: a number below ten is its one digit, and a number of more
/// digits is what stands before its last digit, followed by that digit.
pub proof fn law_decimal_is_positional(higher: nat, last: nat)
    requires
        last < 10,
    ensures
        decimal(last) == seq![(48 + last) as char],
        higher > 0 ==> decimal(10 * higher + last) == decimal(higher) + decimal(last),
{
    if higher > 0 {
        let n = 10 * higher + last;
        assert(n / 10 == higher && n % 10 == last);
        assert(decimal(n) =~= decimal(higher) + decimal(last));
    }
}

/// Base sixteen is positional, with the digits `0` to `9` and `a` to `f`.
pub proof fn law_hexadecimal_is_positional(higher: nat, last: nat)
    requires
        last < 16,
    ensures
        last < 10 ==> hexadecimal(last) == seq![(48 + last) as char],
        last >= 10 ==> hexadecimal(last) == seq![(87 + last) as char],
        higher > 0 ==> hexadecimal(16 * higher + last) == hexadecimal(higher) + hexadecimal(last),
{
    if higher > 0 {
        let n = 16 * higher + last;
        assert(n / 16 == higher && n % 16 == last);
        assert(hexadecimal(n) =~= hexadecimal(higher) + hexadecimal(last));
    }
}

/// What is written is the number in its base, for every number.
pub proof fn law_numbers_are_written_in_their_base(n: u64, ten: String, sixteen: String)
    requires
        call_ensures(decimal_text, (n,), ten),
        call_ensures(hexadecimal_text, (n,), sixteen),
    ensures
        ten@ == decimal(n as nat),
        sixteen@ == hexadecimal(n as nat),
        decimal_value(ten@) == n,
        numeral_value(sixteen@, 16) == n,
{
    law_decimal_reads_back(n as nat);
    law_numeral_reads_back(n as nat, 16);
}

/// Numbers are read digit by digit. One character is a number if it is a digit, also after
/// a plus sign; one more digit multiplies what was read by ten and adds to it, as long as
/// the result is below 65536; and any other character, or an overflow, spoils the rest.
pub proof fn law_numbers_are_read_digit_by_digit(s: Seq<char>, c: char)
    ensures
        parsed_u16(Seq::empty()) is None,
        parsed_u16(seq!['+']) is None,
        s.len() == 0 || s == seq!['+'] ==> parsed_u16(s.push(c)) == if 48 <= c as int <= 57 {
            Some((c as int - 48) as u16)
        } else {
            None
        },
        s.len() > 0 && s != seq!['+'] ==> parsed_u16(s.push(c)) == match parsed_u16(s) {
            Some(value) => if 48 <= c as int <= 57 && value * 10 + (c as int - 48) < 65536 {
                Some((value * 10 + (c as int - 48)) as u16)
            } else {
                None
            },
            None => None,
        },
{
    let longer = s.push(c);
    let digits = unsigned_digits(longer);
    assert(unsigned_digits(seq!['+']).len() == 0);
    if s.len() == 0 || s == seq!['+'] {
        if s.len() == 0 && c == '+' {
            assert(digits.len() == 0);
        } else {
            assert(digits =~= seq![c]);
            assert(digits.drop_last() =~= Seq::<char>::empty());
            assert(decimal_value(digits.drop_last()) == 0);
            assert(decimal_value(digits) == digit_value(c));
            assert(digits[0] == c);
        }
    } else {
        let shorter = unsigned_digits(s);
        assert(digits =~= shorter.push(c));
        assert(digits.drop_last() =~= shorter);
        assert(shorter.len() > 0) by {
            if shorter.len() == 0 {
                assert(s =~= seq!['+']);
            }
        }
        assert(all_digits(digits) == (all_digits(shorter) && is_decimal_digit(c))) by {
            if all_digits(digits) {
                assert(is_decimal_digit(digits[digits.len() - 1]));
                assert forall|i: int| 0 <= i < shorter.len() implies is_decimal_digit(
                    #[trigger] shorter[i],
                ) by {
                    assert(shorter[i] == digits[i]);
                }
            }
        }
        assert(decimal_value(digits) == decimal_value(shorter) * 10 + digit_value(c));
        if all_digits(shorter) {
            lemma_decimal_value_grows(shorter, shorter.len() as int);
            assert(shorter.take(shorter.len() as int) =~= shorter);
        }
    }
}

/// What is read of characters is the number that they spell, and nothing of characters
/// that spell none.
pub proof fn law_ports_are_read_from_characters(s: &[char], parsed: Option<u16>)
    requires
        call_ensures(parse_u16, (s,), parsed),
    ensures
        parsed == parsed_u16(s@),
{
}

/// Cutting white space off the beginning leaves a suffix that does not begin with any, and
/// cuts nothing else.
proof fn lemma_trimmed_start(s: Seq<char>) -> (from: int)
    ensures
        0 <= from <= s.len(),
        trimmed_start(s) == s.skip(from),
        forall|k: int| 0 <= k < from ==> white_space(#[trigger] s[k]),
        from < s.len() ==> !white_space(s[from]),
    decreases s.len(),
{
    if s.len() > 0 && white_space(s[0]) {
        let rest = s.skip(1);
        let from = lemma_trimmed_start(rest);
        assert(rest.skip(from) =~= s.skip(from + 1));
        assert forall|k: int| 0 <= k < from + 1 implies white_space(#[trigger] s[k]) by {
            if k > 0 {
                assert(s[k] == rest[k - 1]);
            }
        }
        from + 1
    } else {
        assert(s.skip(0) =~= s);
        0
    }
}

/// Cutting white space off the end leaves a prefix that does not end in any, and cuts
/// nothing else.
proof fn lemma_trimmed_end(s: Seq<char>) -> (to: int)
    ensures
        0 <= to <= s.len(),
        trimmed_end(s) == s.take(to),
        forall|k: int| to <= k < s.len() ==> white_space(#[trigger] s[k]),
        to > 0 ==> !white_space(s[to - 1]),
    decreases s.len(),
{
    if s.len() > 0 && white_space(s.last()) {
        let rest = s.drop_last();
        let to = lemma_trimmed_end(rest);
        assert(rest.take(to) =~= s.take(to));
        assert forall|k: int| to <= k < s.len() implies white_space(#[trigger] s[k]) by {
            if k < rest.len() {
                assert(s[k] == rest[k]);
            }
        }
        to
    } else {
        assert(s.take(s.len() as int) =~= s);
        s.len() as int
    }
}

/// The part of a text before its first white space is the longest prefix without any.
proof fn lemma_until_white_space(s: Seq<char>) -> (to: int)
    ensures
        0 <= to <= s.len(),
        until_white_space(s) == s.take(to),
        forall|k: int| 0 <= k < to ==> !white_space(#[trigger] s[k]),
        to < s.len() ==> white_space(s[to]),
    decreases s.len(),
{
    if s.len() == 0 || white_space(s[0]) {
        assert(s.take(0) =~= Seq::<char>::empty());
        0
    } else {
        let rest = s.skip(1);
        let to = lemma_until_white_space(rest);
        assert(seq![s[0]] + rest.take(to) =~= s.take(to + 1));
        assert forall|k: int| 0 <= k < to + 1 implies !white_space(#[trigger] s[k]) by {
            if k > 0 {
                assert(s[k] == rest[k - 1]);
            }
        }
        to + 1
    }
}

/// Trimming takes white space off both ends and nothing else: what is left is a part of
/// the text that neither begins nor ends with white space, and what surrounds it is white
/// space only.
pub proof fn law_trimming_takes_only_white_space(s: Seq<char>)
    ensures
        exists|from: int, to: int|
            {
                &&& 0 <= from <= to <= s.len()
                &&& trimmed(s) == #[trigger] s.subrange(from, to)
                &&& forall|k: int| 0 <= k < from ==> white_space(#[trigger] s[k])
                &&& forall|k: int| to <= k < s.len() ==> white_space(#[trigger] s[k])
                &&& from < to ==> !white_space(s[from]) && !white_space(s[to - 1])
            },
{
    let from = lemma_trimmed_start(s);
    let rest = s.skip(from);
    let to = lemma_trimmed_end(rest);
    assert(rest.take(to) =~= s.subrange(from, from + to));
    assert forall|k: int| from + to <= k < s.len() implies white_space(#[trigger] s[k]) by {
        assert(s[k] == rest[k - from]);
    }
    if to > 0 {
        assert(rest[to - 1] == s[from + to - 1]);
    }
}

/// The first word is the first unbroken run of characters that are not white space: only
/// white space precedes it, none is in it, and white space or the end follows it. It is
/// empty only if the text is white space all through.
pub proof fn law_first_word_is_the_first_run(s: Seq<char>)
    ensures
        exists|from: int, to: int|
            {
                &&& 0 <= from <= to <= s.len()
                &&& first_word(s) == #[trigger] s.subrange(from, to)
                &&& forall|k: int| 0 <= k < from ==> white_space(#[trigger] s[k])
                &&& forall|k: int| from <= k < to ==> !white_space(#[trigger] s[k])
                &&& to < s.len() ==> white_space(s[to])
                &&& from == to ==> to == s.len()
            },
{
    let from = lemma_trimmed_start(s);
    let rest = s.skip(from);
    let to = lemma_until_white_space(rest);
    assert(rest.take(to) =~= s.subrange(from, from + to));
    assert forall|k: int| from <= k < from + to implies !white_space(#[trigger] s[k]) by {
        assert(s[k] == rest[k - from]);
    }
    if to < rest.len() {
        assert(rest[to] == s[from + to]);
    }
}

/// The ranges that are found in a text are its trimmed part and its first word.
pub proof fn law_ranges_hold_what_they_name(
    s: &[char],
    from: usize,
    to: usize,
    trim: (usize, usize),
    word: (usize, usize),
)
    requires
        from <= to <= s@.len(),
        call_ensures(trim_range, (s, from, to), trim),
        call_ensures(first_word_range, (s, from, to), word),
    ensures
        from <= trim.0 <= trim.1 <= to,
        from <= word.0 <= word.1 <= to,
        s@.subrange(trim.0 as int, trim.1 as int) == trimmed(s@.subrange(from as int, to as int)),
        s@.subrange(word.0 as int, word.1 as int) == first_word(
            s@.subrange(from as int, to as int),
        ),
{
}

/// A line ends at the first line feed from its beginning on, or else with the text.
pub proof fn law_line_ends_at_the_first_feed(s: &[char], from: usize, end: usize)
    requires
        from <= s@.len(),
        call_ensures(line_end, (s, from), end),
    ensures
        from <= end <= s@.len(),
        forall|k: int| from <= k < end ==> #[trigger] s@[k] != '\n',
        end < s@.len() ==> s@[end as int] == '\n',
{
    let rest = s@.skip(from as int);
    lemma_first_break_is_the_first(rest);
    assert forall|k: int| from <= k < end implies #[trigger] s@[k] != '\n' by {
        assert(s@[k] == rest[k - from]);
    }
    if end < s@.len() {
        assert(s@[end as int] == rest[end - from]);
    }
}

/// `first_break` is the position of the first line feed, or the length.
pub proof fn lemma_first_break_is_the_first(s: Seq<char>)
    ensures
        first_break(s) <= s.len(),
        forall|k: int| 0 <= k < first_break(s) ==> #[trigger] s[k] != '\n',
        first_break(s) < s.len() ==> s[first_break(s) as int] == '\n',
    decreases s.len(),
{
    if s.len() > 0 && s[0] != '\n' {
        let rest = s.skip(1);
        lemma_first_break_is_the_first(rest);
        assert forall|k: int| 0 <= k < first_break(s) implies #[trigger] s[k] != '\n' by {
            if k > 0 {
                assert(s[k] == rest[k - 1]);
            }
        }
        if first_break(s) < s.len() {
            assert(s[first_break(s) as int] == rest[first_break(rest) as int]);
        }
    }
}

/// A part of a text begins with a prefix if it is at least as long and has the same
/// characters, one by one.
pub proof fn law_prefix_is_compared_in_full(
    s: &[char],
    from: usize,
    to: usize,
    prefix: &[char],
    begins: bool,
)
    requires
        from <= to <= s@.len(),
        call_ensures(begins_with, (s, from, to, prefix), begins),
    ensures
        begins <==> prefix@.len() <= to - from && forall|k: int|
            0 <= k < prefix@.len() ==> #[trigger] prefix@[k] == s@[from + k],
{
    let part = s@.subrange(from as int, to as int);
    if prefix@.len() <= to - from {
        assert forall|k: int| 0 <= k < prefix@.len() implies part.subrange(
            0,
            prefix@.len() as int,
        )[k] == #[trigger] s@[from + k] by {}
        if begins {
            assert forall|k: int| 0 <= k < prefix@.len() implies #[trigger] prefix@[k] == s@[from
                + k] by {
                assert(prefix@[k] == part.subrange(0, prefix@.len() as int)[k]);
            }
        } else if forall|k: int|
            0 <= k < prefix@.len() ==> #[trigger] prefix@[k] == s@[from + k] {
            assert(prefix@ =~= part.subrange(0, prefix@.len() as int));
        }
    }
}

/// The characters of a string are all of its characters, in their order; and white space
/// is what the Unicode property says.
pub proof fn law_characters_are_those_of_the_string(
    text: &str,
    chars: Vec<char>,
    c: char,
    space: bool,
)
    requires
        call_ensures(to_chars, (text,), chars),
        call_ensures(is_white_space, (c,), space),
    ensures
        chars@ == text@,
        space == white_space(c),
{
}

} // verus!
