//! Character-level building blocks shared by the rest of the crate.
//!
//! Strings are read once into a `Vec<char>` so that every later step works by
//! index, and are built back one character at a time.
use vstd::prelude::*;

verus! {

/// `String::push` appends the character to the end of the string and
/// changes nothing else of it.
pub assume_specification[ String::push ](s: &mut String, c: char)
    ensures
        final(s)@ == old(s)@.push(c),
;

/// Whether `pattern` occurs in `text` starting at index `at`.
pub open spec fn occurs_at(text: Seq<char>, pattern: Seq<char>, at: int) -> bool {
    &&& 0 <= at
    &&& at + pattern.len() <= text.len()
    &&& text.subrange(at, at + pattern.len()) == pattern
}

/// The least index at which `pattern` occurs in `text`, if it occurs at all.
pub open spec fn first_occurrence(text: Seq<char>, pattern: Seq<char>) -> Option<int> {
    if exists|at: int| occurs_at(text, pattern, at) {
        Some(choose|at: int| is_first_occurrence(text, pattern, at))
    } else {
        None
    }
}

/// `pattern` occurs at `at` and nowhere before it.
pub open spec fn is_first_occurrence(text: Seq<char>, pattern: Seq<char>, at: int) -> bool {
    &&& occurs_at(text, pattern, at)
    &&& forall|earlier: int| 0 <= earlier < at ==> !occurs_at(text, pattern, earlier)
}

/// An occurrence with none before it is the first occurrence.
pub proof fn lemma_first_occurrence_is(text: Seq<char>, pattern: Seq<char>, at: int)
    requires
        is_first_occurrence(text, pattern, at),
    ensures
        first_occurrence(text, pattern) == Some(at),
{
    let chosen = choose|at: int| is_first_occurrence(text, pattern, at);
    assert(is_first_occurrence(text, pattern, chosen));
    if chosen < at {
        assert(!occurs_at(text, pattern, chosen));
    }
    if at < chosen {
        assert(!occurs_at(text, pattern, at));
    }
}

/// A text in which the pattern occurs has a first occurrence, and it satisfies
/// `is_first_occurrence`.
pub proof fn lemma_first_occurrence_exists(text: Seq<char>, pattern: Seq<char>, at: int)
    requires
        occurs_at(text, pattern, at),
    ensures
        first_occurrence(text, pattern) is Some,
        is_first_occurrence(text, pattern, first_occurrence(text, pattern)->0),
        first_occurrence(text, pattern)->0 <= at,
    decreases at,
{
    if exists|earlier: int| 0 <= earlier < at && occurs_at(text, pattern, earlier) {
        let earlier = choose|earlier: int| 0 <= earlier < at && occurs_at(text, pattern, earlier);
        lemma_first_occurrence_exists(text, pattern, earlier);
    } else {
        assert(is_first_occurrence(text, pattern, at));
        lemma_first_occurrence_is(text, pattern, at);
    }
}

/// The characters of a string slice, in order.
pub fn chars_of(s: &str) -> (chars: Vec<char>)
    ensures
        chars@ == s@,
{
    let mut chars: Vec<char> = Vec::new();
    for c in it: s.chars()
        invariant
            it.seq() == s@,
            chars@ == s@.take(it.index() as int),
    {
        chars.push(c);
    }
    chars
}

/// The string made of `chars[from..to]`.
pub fn string_of(chars: &Vec<char>, from: usize, to: usize) -> (s: String)
    requires
        from <= to <= chars.len(),
    ensures
        s@ == chars@.subrange(from as int, to as int),
{
    let mut s = String::new();
    let mut i: usize = from;
    while i < to
        invariant
            from <= i <= to <= chars.len(),
            s@ == chars@.subrange(from as int, i as int),
        decreases to - i,
    {
        s.push(chars[i]);
        i += 1;
    }
    s
}

/// Tests whether `pattern` occurs in `text` at index `at`.
pub fn occurs_at_index(text: &Vec<char>, pattern: &Vec<char>, at: usize) -> (found: bool)
    ensures
        found == occurs_at(text@, pattern@, at as int),
{
    if pattern.len() > text.len() || at > text.len() - pattern.len() {
        return false;
    }
    let mut k: usize = 0;
    while k < pattern.len()
        invariant
            at + pattern.len() <= text.len(),
            k <= pattern.len(),
            forall|j: int| 0 <= j < k ==> text@[at + j] == pattern@[j],
        decreases pattern.len() - k,
    {
        if text[at + k] != pattern[k] {
            assert(text@.subrange(at as int, at + pattern.len())[k as int] != pattern@[k as int]);
            return false;
        }
        k += 1;
    }
    assert(text@.subrange(at as int, at + pattern.len()) =~= pattern@);
    true
}

/// The greatest index at which `c` stands in `text`, if it stands anywhere.
pub open spec fn last_index_of(text: Seq<char>, c: char) -> Option<int>
    decreases text.len(),
{
    if text.len() == 0 {
        None
    } else if text.last() == c {
        Some(text.len() - 1)
    } else {
        last_index_of(text.drop_last(), c)
    }
}

/// What `last_index_of` finds is an index of `c` with no `c` after it, and it
/// finds nothing only where there is no `c`.
pub proof fn lemma_last_index_of(text: Seq<char>, c: char)
    ensures
        match last_index_of(text, c) {
            Some(at) => 0 <= at < text.len() && text[at] == c && forall|later: int|
                at < later < text.len() ==> text[later] != c,
            None => forall|i: int| 0 <= i < text.len() ==> text[i] != c,
        },
    decreases text.len(),
{
    if text.len() > 0 && text.last() != c {
        let shorter = text.drop_last();
        lemma_last_index_of(shorter, c);
        assert forall|i: int| 0 <= i < shorter.len() implies shorter[i] == text[i] by {}
    }
}

/// Finds the last `c` in `chars[..end]`.
pub fn find_last(chars: &Vec<char>, end: usize, c: char) -> (found: Option<usize>)
    requires
        end <= chars.len(),
    ensures
        found matches Some(at) ==> at < end && last_index_of(chars@.take(end as int), c) == Some(
            at as int,
        ),
        found is None ==> last_index_of(chars@.take(end as int), c) is None,
{
    let mut i: usize = end;
    while i > 0
        invariant
            i <= end <= chars.len(),
            last_index_of(chars@.take(end as int), c) == last_index_of(chars@.take(i as int), c),
        decreases i,
    {
        assert(chars@.take(i as int).drop_last() =~= chars@.take(i - 1));
        if chars[i - 1] == c {
            return Some(i - 1);
        }
        i -= 1;
    }
    None
}

/// Whether the characters are exactly those of `literal`.
pub fn text_is(chars: &Vec<char>, literal: &str) -> (same: bool)
    ensures
        same == (chars@ == literal@),
{
    let other = chars_of(literal);
    if chars.len() != other.len() {
        return false;
    }
    let mut i: usize = 0;
    while i < chars.len()
        invariant
            i <= chars.len(),
            chars.len() == other.len(),
            other@ == literal@,
            forall|j: int| 0 <= j < i ==> chars@[j] == other@[j],
        decreases chars.len() - i,
    {
        if chars[i] != other[i] {
            assert(chars@[i as int] != other@[i as int]);
            return false;
        }
        i += 1;
    }
    assert(chars@ =~= other@);
    true
}

/// Whether `pattern` occurs somewhere in `text`.
pub open spec fn contains_text(text: Seq<char>, pattern: Seq<char>) -> bool {
    exists|at: int| occurs_at(text, pattern, at)
}

/// Tests whether `pattern` occurs somewhere in `text`.
pub fn contains(text: &str, pattern: &str) -> (found: bool)
    ensures
        found == contains_text(text@, pattern@),
{
    let chars = chars_of(text);
    let wanted = chars_of(pattern);
    if wanted.len() > chars.len() {
        return false;
    }
    let last = chars.len() - wanted.len();
    let mut i: usize = 0;
    while i < last
        invariant
            i <= last,
            last == chars.len() - wanted.len(),
            chars@ == text@,
            wanted@ == pattern@,
            forall|j: int| 0 <= j < i ==> !occurs_at(chars@, wanted@, j),
        decreases last - i,
    {
        if occurs_at_index(&chars, &wanted, i) {
            return true;
        }
        i += 1;
    }
    occurs_at_index(&chars, &wanted, last)
}

/// The text with every space turned into an underscore.
pub open spec fn underscored(text: Seq<char>) -> Seq<char> {
    text.map_values(
        |c: char|
            if c == ' ' {
                '_'
            } else {
                c
            },
    )
}

/// Appends `text` to `out` with every space turned into an underscore.
pub fn push_underscored(out: &mut String, text: &str)
    ensures
        final(out)@ == old(out)@ + underscored(text@),
{
    let chars = chars_of(text);
    let mut i: usize = 0;
    while i < chars.len()
        invariant
            i <= chars.len(),
            chars@ == text@,
            out@ == old(out)@ + underscored(chars@.take(i as int)),
        decreases chars.len() - i,
    {
        let c = chars[i];
        out.push(if c == ' ' {
            '_'
        } else {
            c
        });
        assert(out@ =~= old(out)@ + underscored(chars@.take(i + 1)));
        i += 1;
    }
    assert(chars@.take(chars.len() as int) =~= chars@);
}

/// The character that writes a digit below ten.
pub open spec fn digit_char(digit: nat) -> char {
    (('0' as u8) + digit) as char
}

/// The decimal notation of a natural number, without leading zeros.
pub open spec fn decimal(n: nat) -> Seq<char>
    decreases n,
{
    if n < 10 {
        seq![digit_char(n)]
    } else {
        decimal(n / 10).push(digit_char(n % 10))
    }
}

/// The decimal notation of an integer, with `-` before a negative one.
pub open spec fn signed_decimal(i: int) -> Seq<char> {
    if i < 0 {
        seq!['-'] + decimal((-i) as nat)
    } else {
        decimal(i as nat)
    }
}

/// Appends the decimal notation of `n` to `out`.
pub fn push_decimal(out: &mut String, n: u64)
    ensures
        final(out)@ == old(out)@ + decimal(n as nat),
{
    let mut low: Vec<char> = Vec::new();
    let mut rest: u64 = n;
    while rest >= 10
        invariant
            decimal(n as nat) == decimal(rest as nat) + low@.reverse(),
        decreases rest,
    {
        let digit: u8 = (rest % 10) as u8;
        let ghost before = low@;
        low.push((('0' as u8) + digit) as char);
        proof {
            assert(low@.reverse() =~= seq![digit_char((rest % 10) as nat)] + before.reverse());
            assert(decimal(rest as nat) + before.reverse() =~= decimal((rest / 10) as nat)
                + low@.reverse());
        }
        rest = rest / 10;
    }
    let ghost start = out@;
    out.push((('0' as u8) + (rest as u8)) as char);
    let mut i: usize = low.len();
    while i > 0
        invariant
            i <= low.len(),
            out@ == start + decimal(rest as nat) + low@.reverse().take(low.len() - i),
        decreases i,
    {
        out.push(low[i - 1]);
        assert(out@ =~= start + decimal(rest as nat) + low@.reverse().take(low.len() - (i - 1)));
        i -= 1;
    }
    assert(low@.reverse().take(low.len() as int) =~= low@.reverse());
    assert(out@ =~= start + decimal(n as nat));
}

/// Appends the decimal notation of `i` to `out`.
pub fn push_signed_decimal(out: &mut String, i: i32)
    ensures
        final(out)@ == old(out)@ + signed_decimal(i as int),
{
    if i < 0 {
        out.push('-');
        let magnitude: u64 = (-(i as i64)) as u64;
        push_decimal(out, magnitude);
        assert(out@ =~= old(out)@ + signed_decimal(i as int));
    } else {
        push_decimal(out, i as u64);
    }
}

/// The value of a decimal digit.
pub open spec fn digit_of(c: char) -> Option<nat> {
    if '0' <= c <= '9' {
        Some((c as u32 - '0' as u32) as nat)
    } else {
        None
    }
}

/// The number written by the decimal digits of `text`, read from left to
/// right with every other character skipped; 0 where there is no digit.
pub open spec fn digits_value(text: Seq<char>) -> nat
    decreases text.len(),
{
    if text.len() == 0 {
        0
    } else {
        match digit_of(text.last()) {
            Some(digit) => 10 * digits_value(text.drop_last()) + digit,
            None => digits_value(text.drop_last()),
        }
    }
}

/// Reading more of a text never makes the number smaller.
pub proof fn lemma_digits_value_grows(text: Seq<char>, shorter: int, longer: int)
    requires
        0 <= shorter <= longer <= text.len(),
    ensures
        digits_value(text.take(shorter)) <= digits_value(text.take(longer)),
    decreases longer - shorter,
{
    if shorter < longer {
        lemma_digits_value_grows(text, shorter, longer - 1);
        assert(text.take(longer).drop_last() =~= text.take(longer - 1));
    }
}

/// Whether every character is a decimal digit.
pub open spec fn all_digits(text: Seq<char>) -> bool {
    forall|i: int| 0 <= i < text.len() ==> digit_of(#[trigger] text[i]) is Some
}

/// The text without its sign, where it begins with `+` or `-`.
pub open spec fn unsigned_part(text: Seq<char>) -> Seq<char> {
    if text.len() > 0 && (text[0] == '-' || text[0] == '+') {
        text.skip(1)
    } else {
        text
    }
}

/// The integer that a text writes in decimal: an optional `+` or `-`, then
/// one digit or more and nothing else.
pub open spec fn parse_int(text: Seq<char>) -> Option<int> {
    let digits = unsigned_part(text);
    if digits.len() == 0 || !all_digits(digits) {
        None
    } else if text[0] == '-' {
        Some(-(digits_value(digits) as int))
    } else {
        Some(digits_value(digits) as int)
    }
}

/// The `i32` that a text writes in decimal, if it writes an integer and that
/// integer is in range.
pub open spec fn parse_i32_text(text: Seq<char>) -> Option<i32> {
    match parse_int(text) {
        Some(value) => if i32::MIN <= value <= i32::MAX {
            Some(value as i32)
        } else {
            None
        },
        None => None,
    }
}

/// The number that the digits write, if there is a digit, there are only
/// digits, and the number is no greater than `limit`.
pub open spec fn bounded_number(digits: Seq<char>, limit: nat) -> Option<nat> {
    if digits.len() > 0 && all_digits(digits) && digits_value(digits) <= limit {
        Some(digits_value(digits))
    } else {
        None
    }
}

/// Reads `chars[start..]` as a number no greater than `limit`. The limit
/// leaves room for one more digit, so that the number can be found too large
/// without overflow.
pub fn read_number(chars: &Vec<char>, start: usize, limit: u64) -> (number: Option<u64>)
    requires
        start <= chars.len(),
        limit * 10 + 9 <= u64::MAX,
    ensures
        match number {
            Some(value) => bounded_number(chars@.skip(start as int), limit as nat) == Some(
                value as nat,
            ),
            None => bounded_number(chars@.skip(start as int), limit as nat) is None,
        },
{
    let n = chars.len();
    let ghost digits = chars@.skip(start as int);
    if start == n {
        return None;
    }
    let mut value: u64 = 0;
    let mut too_large = false;
    let mut i: usize = start;
    while i < n
        invariant
            start <= i <= n,
            n == chars.len(),
            limit * 10 + 9 <= u64::MAX,
            digits == chars@.skip(start as int),
            all_digits(digits.take(i - start)),
            !too_large ==> value <= limit && value == digits_value(digits.take(i - start)),
            too_large ==> digits_value(digits.take(i - start)) > limit,
        decreases n - i,
    {
        let c = chars[i];
        proof {
            assert(digits.take(i + 1 - start).drop_last() =~= digits.take(i - start));
            assert(digits.take(i + 1 - start).last() == c);
            lemma_digits_value_grows(digits, i - start, i + 1 - start);
        }
        if !(c >= '0' && c <= '9') {
            assert(digit_of(digits[i - start]) is None);
            return None;
        }
        if !too_large {
            value = value * 10 + ((c as u32 - '0' as u32) as u64);
            if value > limit {
                too_large = true;
            }
        }
        assert(all_digits(digits.take(i + 1 - start))) by {
            assert forall|j: int| 0 <= j < i + 1 - start implies digit_of(
                #[trigger] digits.take(i + 1 - start)[j],
            ) is Some by {
                if j < i - start {
                    assert(digits.take(i - start)[j] == digits.take(i + 1 - start)[j]);
                }
            }
        }
        i += 1;
    }
    assert(digits.take(n - start) =~= digits);
    if too_large {
        None
    } else {
        Some(value)
    }
}

/// Reads a decimal `i32`: an optional sign, then digits only.
pub fn parse_i32(text: &str) -> (parsed: Option<i32>)
    ensures
        parsed == parse_i32_text(text@),
{
    let chars = chars_of(text);
    let n = chars.len();
    let signed = n > 0 && (chars[0] == '-' || chars[0] == '+');
    let negative = n > 0 && chars[0] == '-';
    let start: usize = if signed {
        1
    } else {
        0
    };
    assert(unsigned_part(text@) == chars@.skip(start as int));
    if negative {
        match read_number(&chars, start, 2147483648) {
            Some(magnitude) => Some((-(magnitude as i64)) as i32),
            None => None,
        }
    } else {
        match read_number(&chars, start, 2147483647) {
            Some(magnitude) => Some(magnitude as i32),
            None => None,
        }
    }
}

/// The `u32` that a text writes in decimal: an optional `+`, then one digit
/// or more and nothing else, the number being in range.
pub open spec fn parse_u32_text(text: Seq<char>) -> Option<u32> {
    let digits = if text.len() > 0 && text[0] == '+' {
        text.skip(1)
    } else {
        text
    };
    match bounded_number(digits, u32::MAX as nat) {
        Some(value) => Some(value as u32),
        None => None,
    }
}

/// Reads a decimal `u32`: an optional `+`, then digits only.
pub fn parse_u32(text: &str) -> (parsed: Option<u32>)
    ensures
        parsed == parse_u32_text(text@),
{
    let chars = chars_of(text);
    let start: usize = if chars.len() > 0 && chars[0] == '+' {
        1
    } else {
        0
    };
    assert(chars@.skip(0) =~= chars@);
    match read_number(&chars, start, 4294967295) {
        Some(value) => Some(value as u32),
        None => None,
    }
}

} // verus!
