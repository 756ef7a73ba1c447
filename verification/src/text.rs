//! Text building blocks: numbers in decimal, padding, joining, trimming and
//! the few searches that the rest of the library needs.
//!
//! A text is modelled as the sequence of its characters.
use vstd::prelude::*;
use vstd::string::{StrSliceExecFns, StringExecFns};

verus! {

/// `n` spaces.
pub open spec fn spaces(n: nat) -> Seq<char> {
    Seq::new(n, |i: int| ' ')
}

/// `unit` written `n` times.
pub open spec fn repeated(unit: Seq<char>, n: nat) -> Seq<char>
    decreases n,
{
    if n == 0 {
        Seq::empty()
    } else {
        repeated(unit, (n - 1) as nat) + unit
    }
}

/// `text` followed by as many spaces as bring it to `width` characters.
pub open spec fn padded(text: Seq<char>, width: nat) -> Seq<char> {
    text + spaces(if text.len() < width { (width - text.len()) as nat } else { 0 })
}

/// `text` preceded by as many spaces as bring it to `width` characters.
pub open spec fn right_aligned(text: Seq<char>, width: nat) -> Seq<char> {
    spaces(if text.len() < width { (width - text.len()) as nat } else { 0 }) + text
}

pub open spec fn digit_char(d: int) -> char {
    if d == 0 {
        '0'
    } else if d == 1 {
        '1'
    } else if d == 2 {
        '2'
    } else if d == 3 {
        '3'
    } else if d == 4 {
        '4'
    } else if d == 5 {
        '5'
    } else if d == 6 {
        '6'
    } else if d == 7 {
        '7'
    } else if d == 8 {
        '8'
    } else {
        '9'
    }
}

/// The decimal digits of `n`, most significant first.
pub open spec fn decimal(n: nat) -> Seq<char>
    decreases n,
{
    if n < 10 {
        seq![digit_char(n as int)]
    } else {
        decimal(n / 10).push(digit_char((n % 10) as int))
    }
}

/// `decimal`, with a leading minus for numbers below zero.
pub open spec fn signed_decimal(n: int) -> Seq<char> {
    if n < 0 {
        seq!['-'] + decimal((-n) as nat)
    } else {
        decimal(n as nat)
    }
}

/// A number written with at least two digits.
pub open spec fn two_digits(n: nat) -> Seq<char> {
    if n < 10 {
        seq!['0'] + decimal(n)
    } else {
        decimal(n)
    }
}

/// A number written with at least `width` digits.
pub open spec fn zero_padded(n: nat, width: nat) -> Seq<char> {
    let digits = decimal(n);
    let missing = if digits.len() < width {
        (width - digits.len()) as nat
    } else {
        0
    };
    Seq::new(missing, |i: int| '0') + digits
}

/// `parts` one after the other, with `sep` between neighbours.
pub open spec fn joined(parts: Seq<Seq<char>>, sep: Seq<char>) -> Seq<char>
    decreases parts.len(),
{
    if parts.len() == 0 {
        Seq::empty()
    } else if parts.len() == 1 {
        parts[0]
    } else {
        joined(parts.drop_last(), sep) + sep + parts.last()
    }
}

/// The views of a list of strings.
pub open spec fn texts(parts: Seq<String>) -> Seq<Seq<char>> {
    parts.map_values(|s: String| s@)
}

/// Characters with the Unicode `White_Space` property.
pub open spec fn is_white_space(c: char) -> bool {
    ||| '\u{9}' <= c <= '\u{d}'
    ||| c == ' '
    ||| c == '\u{85}'
    ||| c == '\u{a0}'
    ||| c == '\u{1680}'
    ||| '\u{2000}' <= c <= '\u{200a}'
    ||| c == '\u{2028}'
    ||| c == '\u{2029}'
    ||| c == '\u{202f}'
    ||| c == '\u{205f}'
    ||| c == '\u{3000}'
}

/// `s` without the white space that it starts with.
pub open spec fn trimmed_start(s: Seq<char>) -> Seq<char>
    decreases s.len(),
{
    if s.len() > 0 && is_white_space(s[0]) {
        trimmed_start(s.drop_first())
    } else {
        s
    }
}

/// `s` without the white space that it ends with.
pub open spec fn trimmed_end(s: Seq<char>) -> Seq<char>
    decreases s.len(),
{
    if s.len() > 0 && is_white_space(s.last()) {
        trimmed_end(s.drop_last())
    } else {
        s
    }
}

/// `s` without leading and trailing white space.
pub open spec fn trimmed(s: Seq<char>) -> Seq<char> {
    trimmed_end(trimmed_start(s))
}

/// `needle` stands in `s` at position `at`.
pub open spec fn occurs_at(s: Seq<char>, needle: Seq<char>, at: int) -> bool {
    0 <= at <= s.len() - needle.len() && s.subrange(at, at + needle.len()) == needle
}

/// `needle` stands somewhere in `s`.
pub open spec fn contains_text(s: Seq<char>, needle: Seq<char>) -> bool {
    exists|at: int| #[trigger] occurs_at(s, needle, at)
}

/// An ASCII capital letter in lower case; every other character unchanged.
pub open spec fn ascii_lower(c: char) -> char {
    if 'A' <= c <= 'Z' {
        (c as u32 + 32) as char
    } else {
        c
    }
}

/// `s` with its ASCII capital letters in lower case.
pub open spec fn ascii_lowercased(s: Seq<char>) -> Seq<char> {
    s.map_values(|c: char| ascii_lower(c))
}

pub fn push_spaces(out: &mut String, n: usize)
    ensures
        final(out)@ == old(out)@ + spaces(n as nat),
{
    let ghost start = out@;
    let mut i: usize = 0;
    while i < n
        invariant
            i <= n,
            out@ == start + spaces(i as nat),
        decreases n - i,
    {
        out.append(" ");
        proof {
            reveal_strlit(" ");
            assert(start + spaces((i + 1) as nat) =~= start + spaces(i as nat) + " "@);
        }
        i = i + 1;
    }
}

pub fn push_repeated(out: &mut String, unit: &str, n: usize)
    ensures
        final(out)@ == old(out)@ + repeated(unit@, n as nat),
{
    let ghost start = out@;
    let mut i: usize = 0;
    proof {
        assert(start + repeated(unit@, 0) =~= start);
    }
    while i < n
        invariant
            i <= n,
            out@ == start + repeated(unit@, i as nat),
        decreases n - i,
    {
        out.append(unit);
        i = i + 1;
        proof {
            assert(start + repeated(unit@, i as nat) =~= start + repeated(unit@, (i - 1) as nat)
                + unit@);
        }
    }
}

pub fn push_padded(out: &mut String, text: &str, width: usize)
    ensures
        final(out)@ == old(out)@ + padded(text@, width as nat),
{
    let ghost start = out@;
    out.append(text);
    let len: usize = text.unicode_len();
    if len < width {
        push_spaces(out, width - len);
    }
    proof {
        assert(out@ =~= start + padded(text@, width as nat));
    }
}

pub fn push_right_aligned(out: &mut String, text: &str, width: usize)
    ensures
        final(out)@ == old(out)@ + right_aligned(text@, width as nat),
{
    let ghost start = out@;
    let len: usize = text.unicode_len();
    if len < width {
        push_spaces(out, width - len);
    }
    out.append(text);
    proof {
        assert(out@ =~= start + right_aligned(text@, width as nat));
    }
}

fn digit_text(d: u64) -> (text: &'static str)
    requires
        d < 10,
    ensures
        text@ == seq![digit_char(d as int)],
{
    proof {
        reveal_strlit("0");
        reveal_strlit("1");
        reveal_strlit("2");
        reveal_strlit("3");
        reveal_strlit("4");
        reveal_strlit("5");
        reveal_strlit("6");
        reveal_strlit("7");
        reveal_strlit("8");
        reveal_strlit("9");
    }
    if d == 0 {
        "0"
    } else if d == 1 {
        "1"
    } else if d == 2 {
        "2"
    } else if d == 3 {
        "3"
    } else if d == 4 {
        "4"
    } else if d == 5 {
        "5"
    } else if d == 6 {
        "6"
    } else if d == 7 {
        "7"
    } else if d == 8 {
        "8"
    } else {
        "9"
    }
}

pub fn push_decimal(out: &mut String, n: u64)
    ensures
        final(out)@ == old(out)@ + decimal(n as nat),
    decreases n,
{
    let ghost start = out@;
    if n >= 10 {
        push_decimal(out, n / 10);
        let ghost mid = out@;
        out.append(digit_text(n % 10));
        proof {
            assert(out@ =~= start + decimal(n as nat));
        }
    } else {
        out.append(digit_text(n));
    }
}

pub fn push_signed(out: &mut String, n: i64)
    ensures
        final(out)@ == old(out)@ + signed_decimal(n as int),
{
    let ghost start = out@;
    if n < 0 {
        out.append("-");
        let magnitude: u64 = (-(n as i128)) as u64;
        push_decimal(out, magnitude);
        proof {
            reveal_strlit("-");
            assert(out@ =~= start + signed_decimal(n as int));
        }
    } else {
        push_decimal(out, n as u64);
    }
}

pub fn push_two_digits(out: &mut String, n: u64)
    ensures
        final(out)@ == old(out)@ + two_digits(n as nat),
{
    let ghost start = out@;
    if n < 10 {
        out.append("0");
    }
    push_decimal(out, n);
    proof {
        reveal_strlit("0");
        assert(out@ =~= start + two_digits(n as nat));
    }
}

/// `n` in decimal.
pub fn decimal_text(n: u64) -> (out: String)
    ensures
        out@ == decimal(n as nat),
{
    let mut out = String::new();
    push_decimal(&mut out, n);
    proof {
        assert(out@ =~= decimal(n as nat));
    }
    out
}

fn white_space(c: char) -> (b: bool)
    ensures
        b == is_white_space(c),
{
    ('\u{9}' <= c && c <= '\u{d}') || c == ' ' || c == '\u{85}' || c == '\u{a0}' || c == '\u{1680}'
        || ('\u{2000}' <= c && c <= '\u{200a}') || c == '\u{2028}' || c == '\u{2029}' || c
        == '\u{202f}' || c == '\u{205f}' || c == '\u{3000}'
}

proof fn lemma_trimmed_start(s: Seq<char>, from: int)
    requires
        0 <= from <= s.len(),
        forall|i: int| 0 <= i < from ==> is_white_space(#[trigger] s[i]),
        from < s.len() ==> !is_white_space(s[from]),
    ensures
        trimmed_start(s) == s.subrange(from, s.len() as int),
    decreases from,
{
    if from == 0 {
        assert(s.subrange(0, s.len() as int) =~= s);
    } else {
        let rest = s.drop_first();
        assert forall|i: int| 0 <= i < from - 1 implies is_white_space(#[trigger] rest[i]) by {
            assert(rest[i] == s[i + 1]);
        }
        lemma_trimmed_start(rest, from - 1);
        assert(is_white_space(s[0]));
        assert(rest.subrange(from - 1, rest.len() as int) =~= s.subrange(from, s.len() as int));
    }
}

proof fn lemma_trimmed_end(s: Seq<char>, to: int)
    requires
        0 <= to <= s.len(),
        forall|i: int| to <= i < s.len() ==> is_white_space(#[trigger] s[i]),
        to > 0 ==> !is_white_space(s[to - 1]),
    ensures
        trimmed_end(s) == s.subrange(0, to),
    decreases s.len() - to,
{
    if to == s.len() {
        assert(s.subrange(0, to) =~= s);
    } else {
        let rest = s.drop_last();
        assert(is_white_space(s[s.len() - 1]));
        lemma_trimmed_end(rest, to);
        assert(rest.subrange(0, to) =~= s.subrange(0, to));
    }
}

/// `s` without leading and trailing white space.
pub fn trim(s: &str) -> (out: &str)
    ensures
        out@ == trimmed(s@),
{
    let n: usize = s.unicode_len();
    let mut from: usize = 0;
    while from < n && white_space(s.get_char(from))
        invariant
            from <= n,
            n == s@.len(),
            forall|i: int| 0 <= i < from ==> is_white_space(#[trigger] s@[i]),
        ensures
            from <= n,
            forall|i: int| 0 <= i < from ==> is_white_space(#[trigger] s@[i]),
            from < n ==> !is_white_space(s@[from as int]),
        decreases n - from,
    {
        from = from + 1;
    }
    let mut to: usize = n;
    while from < to && white_space(s.get_char(to - 1))
        invariant
            from <= to <= n,
            n == s@.len(),
            forall|i: int| to <= i < n ==> is_white_space(#[trigger] s@[i]),
        ensures
            from <= to <= n,
            forall|i: int| to <= i < n ==> is_white_space(#[trigger] s@[i]),
            from < to ==> !is_white_space(s@[to - 1]),
        decreases to - from,
    {
        to = to - 1;
    }
    proof {
        lemma_trimmed_start(s@, from as int);
        let rest = s@.subrange(from as int, n as int);
        assert forall|i: int| to - from <= i < rest.len() implies is_white_space(
            #[trigger] rest[i],
        ) by {
            assert(rest[i] == s@[i + from]);
        }
        lemma_trimmed_end(rest, to - from);
        assert(rest.subrange(0, to - from) =~= s@.subrange(from as int, to as int));
    }
    s.substring_char(from, to)
}

/// Whether two texts are the same.
pub fn same_text(a: &str, b: &str) -> (same: bool)
    ensures
        same == (a@ == b@),
{
    let n: usize = a.unicode_len();
    if n != b.unicode_len() {
        return false;
    }
    let mut i: usize = 0;
    while i < n
        invariant
            i <= n,
            n == a@.len(),
            n == b@.len(),
            forall|k: int| 0 <= k < i ==> a@[k] == b@[k],
        decreases n - i,
    {
        if a.get_char(i) != b.get_char(i) {
            return false;
        }
        i = i + 1;
    }
    proof {
        assert(a@ =~= b@);
    }
    true
}

/// Whether `c` stands in `s`.
pub fn contains_char(s: &str, c: char) -> (found: bool)
    ensures
        found == s@.contains(c),
{
    let n: usize = s.unicode_len();
    let mut i: usize = 0;
    while i < n
        invariant
            i <= n,
            n == s@.len(),
            forall|k: int| 0 <= k < i ==> s@[k] != c,
        decreases n - i,
    {
        if s.get_char(i) == c {
            return true;
        }
        i = i + 1;
    }
    false
}

/// Whether `needle` stands in `s`.
pub fn contains(s: &str, needle: &str) -> (found: bool)
    ensures
        found == contains_text(s@, needle@),
{
    let n: usize = s.unicode_len();
    let m: usize = needle.unicode_len();
    if n < m {
        return false;
    }
    let mut at: usize = 0;
    while at <= n - m
        invariant
            at <= n - m + 1,
            m <= n,
            n == s@.len(),
            m == needle@.len(),
            forall|k: int| 0 <= k < at ==> !#[trigger] occurs_at(s@, needle@, k),
        decreases n - m + 1 - at,
    {
        if same_text(s.substring_char(at, at + m), needle) {
            proof {
                assert(occurs_at(s@, needle@, at as int));
            }
            return true;
        }
        if at == n - m {
            return false;
        }
        at = at + 1;
    }
    false
}

fn lower(c: char) -> (out: char)
    ensures
        out == ascii_lower(c),
{
    if 'A' <= c && c <= 'Z' {
        let code: u8 = c as u8;
        (code + 32) as char
    } else {
        c
    }
}

/// Whether two texts are the same but for the case of ASCII letters.
pub fn same_ignoring_ascii_case(a: &str, b: &str) -> (same: bool)
    ensures
        same == (ascii_lowercased(a@) == ascii_lowercased(b@)),
{
    let n: usize = a.unicode_len();
    if n != b.unicode_len() {
        proof {
            assert(ascii_lowercased(a@).len() == a@.len());
            assert(ascii_lowercased(b@).len() == b@.len());
        }
        return false;
    }
    let mut i: usize = 0;
    while i < n
        invariant
            i <= n,
            n == a@.len(),
            n == b@.len(),
            forall|k: int| 0 <= k < i ==> ascii_lower(a@[k]) == ascii_lower(b@[k]),
        decreases n - i,
    {
        if lower(a.get_char(i)) != lower(b.get_char(i)) {
            proof {
                assert(ascii_lowercased(a@)[i as int] != ascii_lowercased(b@)[i as int]);
            }
            return false;
        }
        i = i + 1;
    }
    proof {
        assert(ascii_lowercased(a@) =~= ascii_lowercased(b@));
    }
    true
}

/// `parts` one after the other, with `sep` between neighbours.
pub fn join(parts: &Vec<String>, sep: &str) -> (out: String)
    ensures
        out@ == joined(texts(parts@), sep@),
{
    let mut out = String::new();
    let mut i: usize = 0;
    let ghost all = texts(parts@);
    proof {
        assert(all.take(0) =~= Seq::<Seq<char>>::empty());
        assert(out@ =~= joined(all.take(0), sep@));
    }
    while i < parts.len()
        invariant
            i <= parts.len(),
            all == texts(parts@),
            out@ == joined(all.take(i as int), sep@),
        decreases parts.len() - i,
    {
        if i > 0 {
            out.append(sep);
        }
        out.append(parts[i].as_str());
        proof {
            let next = all.take(i + 1);
            assert(next.drop_last() =~= all.take(i as int));
            assert(next.last() == parts@[i as int]@);
            if i == 0 {
                assert(out@ =~= next[0]);
            }
        }
        i = i + 1;
    }
    proof {
        assert(all.take(parts.len() as int) =~= all);
    }
    out
}

// ---- Numbers in text ----

pub open spec fn is_digit(c: char) -> bool {
    '0' <= c <= '9'
}

pub open spec fn digit_value(c: char) -> int {
    c as u32 - '0' as u32
}

pub open spec fn all_digits(s: Seq<char>) -> bool {
    forall|i: int| 0 <= i < s.len() ==> is_digit(#[trigger] s[i])
}

/// The number that a run of decimal digits stands for.
pub open spec fn number_of(s: Seq<char>) -> int
    decreases s.len(),
{
    if s.len() == 0 {
        0
    } else {
        10 * number_of(s.drop_last()) + digit_value(s.last())
    }
}

/// `s` without a plus sign in front.
pub open spec fn unsigned_part(s: Seq<char>) -> Seq<char> {
    if s.len() > 0 && s[0] == '+' {
        s.drop_first()
    } else {
        s
    }
}

/// `s` reads as an unsigned 64-bit number: digits, at least one, perhaps after
/// a plus sign, and not too large.
pub open spec fn reads_as_u64(s: Seq<char>) -> bool {
    let digits = unsigned_part(s);
    digits.len() > 0 && all_digits(digits) && number_of(digits) <= u64::MAX
}

proof fn lemma_number_grows(s: Seq<char>, k: int)
    requires
        0 <= k <= s.len(),
        all_digits(s),
    ensures
        0 <= number_of(s.take(k)) <= number_of(s),
    decreases s.len(),
{
    if s.len() == 0 {
        assert(s.take(k) =~= s);
    } else {
        let rest = s.drop_last();
        assert(is_digit(s[s.len() - 1]));
        assert(all_digits(rest)) by {
            assert forall|i: int| 0 <= i < rest.len() implies is_digit(#[trigger] rest[i]) by {
                assert(rest[i] == s[i]);
            }
        }
        lemma_number_grows(rest, if k < s.len() {
            k
        } else {
            0
        });
        if k == s.len() {
            assert(s.take(k) =~= s);
            lemma_number_grows(rest, rest.len() as int);
        } else {
            assert(s.take(k) =~= rest.take(k));
        }
    }
}

pub(crate) proof fn lemma_number_is_natural(s: Seq<char>)
    ensures
        all_digits(s) ==> number_of(s) >= 0,
{
    if all_digits(s) {
        lemma_number_grows(s, 0);
    }
}

/// The unsigned number that `s` reads as.
pub fn parse_u64(s: &str) -> (number: Option<u64>)
    ensures
        number is Some <==> reads_as_u64(s@),
        number matches Some(n) ==> n == number_of(unsigned_part(s@)),
{
    let len: usize = s.unicode_len();
    let from: usize = if len > 0 && s.get_char(0) == '+' {
        1
    } else {
        0
    };
    let ghost digits = unsigned_part(s@);
    proof {
        assert(digits =~= s@.subrange(from as int, len as int));
    }
    if from == len {
        return None;
    }
    let mut value: u64 = 0;
    let mut i: usize = from;
    proof {
        assert(digits.take(0) =~= Seq::empty());
    }
    while i < len
        invariant
            from <= i <= len,
            len == s@.len(),
            digits == s@.subrange(from as int, len as int),
            digits == unsigned_part(s@),
            value == number_of(digits.take(i - from)),
            all_digits(digits.take(i - from)),
        decreases len - i,
    {
        let c = s.get_char(i);
        let ghost next = digits.take(i + 1 - from);
        proof {
            assert(next.drop_last() =~= digits.take(i - from));
            assert(next.last() == c);
            assert(digits[i - from] == c);
        }
        if c < '0' || '9' < c {
            return None;
        }
        let d: u64 = (c as u32 - '0' as u32) as u64;
        proof {
            assert forall|k: int| 0 <= k < next.len() implies is_digit(#[trigger] next[k]) by {
                if k < i - from {
                    assert(next[k] == digits.take(i - from)[k]);
                }
            }
            if all_digits(digits) {
                lemma_number_grows(digits, i + 1 - from);
            }
        }
        if value > (u64::MAX - d) / 10 {
            return None;
        }
        value = value * 10 + d;
        i = i + 1;
    }
    proof {
        assert(digits.take(len - from) =~= digits);
    }
    Some(value)
}

// ---- Segments ----

/// `s` cut at every `sep`.
pub open spec fn segments(s: Seq<char>, sep: char) -> Seq<Seq<char>>
    decreases s.len(),
{
    if s.len() == 0 {
        seq![s]
    } else {
        let before = segments(s.drop_last(), sep);
        if s.last() == sep {
            before.push(Seq::empty())
        } else {
            before.drop_last().push(before.last().push(s.last()))
        }
    }
}

// ---- Laws ----

/// The digits of a number stand for it, and it has no more of them than it
/// needs.
pub proof fn digits_stand_for_their_number(n: nat)
    ensures
        all_digits(decimal(n)),
        number_of(decimal(n)) == n,
        decimal(n).len() > 0,
        decimal(n).len() > 1 ==> decimal(n)[0] != '0',
    decreases n,
{
    if n >= 10 {
        digits_stand_for_their_number(n / 10);
        let rest = decimal(n / 10);
        assert(decimal(n).drop_last() =~= rest);
        assert(digit_value(digit_char((n % 10) as int)) == n % 10);
        assert(decimal(n).last() == digit_char((n % 10) as int));
        assert(number_of(decimal(n)) == 10 * number_of(rest) + n % 10);
        assert(rest.len() == 1 ==> n / 10 < 10) by {
            if n / 10 >= 10 {
                assert(decimal((n / 10) / 10).len() > 0) by {
                    digits_stand_for_their_number((n / 10) / 10);
                }
            }
        }
        assert forall|i: int| 0 <= i < decimal(n).len() implies is_digit(#[trigger] decimal(n)[i]) by {
            if i < rest.len() {
                assert(decimal(n)[i] == rest[i]);
            }
        }
    } else {
        assert(decimal(n).drop_last() =~= Seq::empty());
        assert(digit_value(digit_char(n as int)) == n);
        assert(decimal(n).last() == digit_char(n as int));
        assert(number_of(Seq::<char>::empty()) == 0);
    }
}

/// Padding adds blanks only: behind the text, or in front of it, up to the
/// width.
pub proof fn padding_adds_blanks(text: Seq<char>, width: nat)
    ensures
        padded(text, width).len() == (if text.len() < width {
            width
        } else {
            text.len()
        }),
        padded(text, width).take(text.len() as int) == text,
        right_aligned(text, width).len() == padded(text, width).len(),
        right_aligned(text, width).skip(right_aligned(text, width).len() - text.len()) == text,
        forall|i: int|
            text.len() <= i < padded(text, width).len() ==> #[trigger] padded(text, width)[i] == ' ',
{
    assert(padded(text, width).take(text.len() as int) =~= text);
    assert(right_aligned(text, width).skip(right_aligned(text, width).len() - text.len()) =~= text);
}

} // verus!
