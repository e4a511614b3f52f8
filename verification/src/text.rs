//! Character-level helpers: white space, prefixes and suffixes, decimal
//! numbers, and concatenation.

use vstd::prelude::*;

verus! {

/// Unicode white space (the `White_Space` property).
pub open spec fn is_white(c: char) -> bool {
    let n = c as u32;
    ||| 0x9 <= n <= 0xd
    ||| n == 0x20
    ||| n == 0x85
    ||| n == 0xa0
    ||| n == 0x1680
    ||| 0x2000 <= n <= 0x200a
    ||| n == 0x2028
    ||| n == 0x2029
    ||| n == 0x202f
    ||| n == 0x205f
    ||| n == 0x3000
}

/// Whether `c` is white space.
pub fn white(c: char) -> (r: bool)
    ensures
        r == is_white(c),
{
    let n: u32 = c as u32;
    (0x9 <= n && n <= 0xd) || n == 0x20 || n == 0x85 || n == 0xa0 || n == 0x1680 || (0x2000 <= n
        && n <= 0x200a) || n == 0x2028 || n == 0x2029 || n == 0x202f || n == 0x205f || n == 0x3000
}

/// `s` without its leading white space.
pub open spec fn trim_start(s: Seq<char>) -> Seq<char>
    decreases s.len(),
{
    if s.len() > 0 && is_white(s[0]) {
        trim_start(s.skip(1))
    } else {
        s
    }
}

/// `s` without its trailing white space.
pub open spec fn trim_end(s: Seq<char>) -> Seq<char>
    decreases s.len(),
{
    if s.len() > 0 && is_white(s.last()) {
        trim_end(s.drop_last())
    } else {
        s
    }
}

/// `s` without white space at either end.
pub open spec fn trim(s: Seq<char>) -> Seq<char> {
    trim_end(trim_start(s))
}

/// A text of white space alone, or of nothing.
pub open spec fn is_blank(s: Seq<char>) -> bool {
    forall|i: int| 0 <= i < s.len() ==> is_white(#[trigger] s[i])
}

proof fn lemma_trim_start_keeps_rest(s: Seq<char>, from: int)
    requires
        0 <= from <= s.len(),
        forall|i: int| 0 <= i < from ==> is_white(#[trigger] s[i]),
        from < s.len() ==> !is_white(s[from]),
    ensures
        trim_start(s) == s.skip(from),
    decreases from,
{
    if from == 0 {
        assert(s.skip(0) =~= s);
    } else {
        let t = s.skip(1);
        assert forall|i: int| 0 <= i < from - 1 implies is_white(#[trigger] t[i]) by {
            assert(t[i] == s[i + 1]);
        }
        lemma_trim_start_keeps_rest(t, from - 1);
        assert(t.skip(from - 1) =~= s.skip(from));
    }
}

proof fn lemma_trim_end_keeps_rest(s: Seq<char>, to: int)
    requires
        0 <= to <= s.len(),
        forall|i: int| to <= i < s.len() ==> is_white(#[trigger] s[i]),
        to > 0 ==> !is_white(s[to - 1]),
    ensures
        trim_end(s) == s.take(to),
    decreases s.len() - to,
{
    if to == s.len() {
        assert(s.take(to) =~= s);
    } else {
        let t = s.drop_last();
        assert(is_white(s[s.len() - 1]));
        assert forall|i: int| to <= i < t.len() implies is_white(#[trigger] t[i]) by {
            assert(t[i] == s[i]);
        }
        if to > 0 {
            assert(t[to - 1] == s[to - 1]);
        }
        lemma_trim_end_keeps_rest(t, to);
        assert(t.take(to) =~= s.take(to));
    }
}

/// A text trims to nothing exactly when it is blank, and what is left of any
/// other text begins and ends with a character that is not white space.
pub proof fn lemma_trim_blank(s: Seq<char>)
    ensures
        (trim(s).len() == 0) == is_blank(s),
        trim(s).len() > 0 ==> !is_white(trim(s)[0]) && !is_white(trim(s).last()),
        trim(trim(s)) == trim(s),
{
    let from = first_not_white(s, 0);
    lemma_first_not_white(s, 0);
    lemma_trim_start_keeps_rest(s, from);
    let rest = s.skip(from);
    if from == s.len() {
        assert(trim_end(rest) =~= rest);
    } else {
        let to = last_not_white(rest, rest.len() as int);
        lemma_last_not_white(rest, rest.len() as int);
        assert(rest[0] == s[from]);
        assert(to > 0) by {
            if to == 0 {
                assert(is_white(rest[0]));
            }
        }
        lemma_trim_end_keeps_rest(rest, to);
        let kept = rest.take(to);
        assert(kept[0] == rest[0]);
        assert(kept.last() == rest[to - 1]);
        assert(!is_blank(s)) by {
            assert(!is_white(s[from]));
        }
        lemma_trim_start_keeps_rest(kept, 0);
        assert(kept.skip(0) =~= kept);
        lemma_trim_end_keeps_rest(kept, to);
        assert(kept.take(to) =~= kept);
    }
}

spec fn first_not_white(s: Seq<char>, from: int) -> int
    decreases s.len() - from,
{
    if 0 <= from < s.len() && is_white(s[from]) {
        first_not_white(s, from + 1)
    } else {
        from
    }
}

proof fn lemma_first_not_white(s: Seq<char>, from: int)
    requires
        0 <= from <= s.len(),
    ensures
        from <= first_not_white(s, from) <= s.len(),
        forall|i: int| from <= i < first_not_white(s, from) ==> is_white(#[trigger] s[i]),
        first_not_white(s, from) < s.len() ==> !is_white(s[first_not_white(s, from)]),
    decreases s.len() - from,
{
    if from < s.len() && is_white(s[from]) {
        lemma_first_not_white(s, from + 1);
    }
}

spec fn last_not_white(s: Seq<char>, to: int) -> int
    decreases to,
{
    if 0 < to <= s.len() && is_white(s[to - 1]) {
        last_not_white(s, to - 1)
    } else {
        to
    }
}

proof fn lemma_last_not_white(s: Seq<char>, to: int)
    requires
        0 <= to <= s.len(),
    ensures
        0 <= last_not_white(s, to) <= to,
        forall|i: int| last_not_white(s, to) <= i < to ==> is_white(#[trigger] s[i]),
        last_not_white(s, to) > 0 ==> !is_white(s[last_not_white(s, to) - 1]),
    decreases to,
{
    if 0 < to && is_white(s[to - 1]) {
        lemma_last_not_white(s, to - 1);
    }
}

/// The characters of `s`, in order.
pub fn characters(s: &str) -> (r: Vec<char>)
    ensures
        r@ == s@,
{
    let n: usize = s.unicode_len();
    let mut out: Vec<char> = Vec::new();
    let mut it = s.chars();
    let mut i: usize = 0;
    while i < n
        invariant
            n == s@.len(),
            i <= n,
            out@ == s@.take(i as int),
            vstd::std_specs::iter::IteratorSpec::remaining(&it) == s@.skip(i as int),
        decreases n - i,
    {
        let next = it.next();
        match next {
            Some(c) => {
                proof {
                    assert(s@.skip(i as int)[0] == s@[i as int]);
                    assert(s@.skip(i as int).drop_first() =~= s@.skip(i as int + 1));
                    assert(s@.take(i as int).push(c) =~= s@.take(i as int + 1));
                }
                out.push(c);
            },
            None => {},
        }
        i = i + 1;
    }
    assert(s@.take(n as int) =~= s@);
    out
}

/// `str::trim`: `s` without the white space at its ends.
pub fn trimmed(s: &str) -> (r: String)
    ensures
        r@ == trim(s@),
{
    let chars = characters(s);
    let n: usize = chars.len();
    let mut from: usize = 0;
    while from < n && white(chars[from])
        invariant
            n == chars@.len(),
            from <= n,
            forall|i: int| 0 <= i < from ==> is_white(#[trigger] chars@[i]),
        decreases n - from,
    {
        from = from + 1;
    }
    let mut to: usize = n;
    while to > from && white(chars[to - 1])
        invariant
            n == chars@.len(),
            from <= to <= n,
            forall|i: int| to <= i < n ==> is_white(#[trigger] chars@[i]),
        decreases to,
    {
        to = to - 1;
    }
    proof {
        lemma_trim_start_keeps_rest(s@, from as int);
        let rest = s@.skip(from as int);
        assert forall|i: int| to - from <= i < rest.len() implies is_white(#[trigger] rest[i]) by {
            assert(rest[i] == s@[i + from]);
        }
        if to > from {
            assert(rest[to - from - 1] == s@[to - 1]);
        }
        lemma_trim_end_keeps_rest(rest, to - from);
        assert(rest.take(to - from) =~= s@.subrange(from as int, to as int));
    }
    s.substring_char(from, to).to_owned()
}

/// Whether trimming `s` leaves nothing.
pub fn blank(s: &str) -> (r: bool)
    ensures
        r == is_blank(s@),
{
    let chars = characters(s);
    let mut i: usize = 0;
    while i < chars.len()
        invariant
            i <= chars@.len(),
            chars@ == s@,
            forall|k: int| 0 <= k < i ==> is_white(#[trigger] s@[k]),
        decreases chars@.len() - i,
    {
        if !white(chars[i]) {
            assert(!is_white(s@[i as int]));
            return false;
        }
        i = i + 1;
    }
    true
}

/// Whether two texts hold the same characters.
pub fn same_text(a: &str, b: &str) -> (r: bool)
    ensures
        r == (a@ == b@),
{
    a.to_owned() == b.to_owned()
}

/// Whether an optional text is there and holds the characters of `b`.
pub fn is_text(a: &Option<String>, b: &str) -> (r: bool)
    ensures
        r == (a matches Some(t) && t@ == b@),
{
    match a {
        Some(t) => same_text(t.as_str(), b),
        None => false,
    }
}

/// Whether `s` begins with `prefix`.
pub open spec fn has_prefix(s: Seq<char>, prefix: Seq<char>) -> bool {
    prefix.len() <= s.len() && s.take(prefix.len() as int) == prefix
}

/// Whether `s` begins with `prefix`.
pub fn starts_with(s: &str, prefix: &str) -> (r: bool)
    ensures
        r == has_prefix(s@, prefix@),
{
    let n: usize = prefix.unicode_len();
    if s.unicode_len() < n {
        return false;
    }
    proof {
        assert(s@.subrange(0, n as int) =~= s@.take(n as int));
    }
    same_text(s.substring_char(0, n), prefix)
}

/// The ASCII lower case of a character; other characters are their own.
pub open spec fn ascii_lower(c: char) -> char {
    if 'A' <= c <= 'Z' {
        ((c as u32) + 32) as char
    } else {
        c
    }
}

/// Whether the ASCII lower case of `s` ends with `suffix`.
pub open spec fn has_suffix_ignoring_case(s: Seq<char>, suffix: Seq<char>) -> bool {
    &&& suffix.len() <= s.len()
    &&& forall|i: int|
        0 <= i < suffix.len() ==> ascii_lower(s[s.len() - suffix.len() + i]) == #[trigger] suffix[i]
}

fn lower(c: char) -> (r: char)
    ensures
        r == ascii_lower(c),
{
    if 'A' <= c && c <= 'Z' {
        let n: u8 = c as u8;
        (n + 32) as char
    } else {
        c
    }
}

/// Whether the ASCII lower case of `s` ends with `suffix`.
pub fn ends_with_ignoring_case(s: &str, suffix: &str) -> (r: bool)
    ensures
        r == has_suffix_ignoring_case(s@, suffix@),
{
    let chars = characters(s);
    let end = characters(suffix);
    if chars.len() < end.len() {
        return false;
    }
    let total: usize = chars.len();
    let from: usize = total - end.len();
    let mut i: usize = 0;
    while i < end.len()
        invariant
            total == chars@.len(),
            chars@ == s@,
            end@ == suffix@,
            from == chars@.len() - end@.len(),
            i <= end@.len(),
            forall|k: int| 0 <= k < i ==> ascii_lower(s@[from + k]) == #[trigger] suffix@[k],
        decreases end@.len() - i,
    {
        if lower(chars[from + i]) != end[i] {
            assert(ascii_lower(s@[s@.len() - suffix@.len() + i]) != suffix@[i as int]);
            return false;
        }
        i = i + 1;
    }
    true
}

/// The decimal digit `d`.
pub open spec fn digit(d: nat) -> char {
    (('0' as u32) + d) as char
}

/// The decimal notation of `n`, without leading zeros.
pub open spec fn decimal(n: nat) -> Seq<char>
    decreases n,
{
    if n < 10 {
        seq![digit(n)]
    } else {
        decimal(n / 10).push(digit(n % 10))
    }
}

fn digit_text(d: u64) -> (r: &'static str)
    requires
        d < 10,
    ensures
        r@ == seq![digit(d as nat)],
{
    proof {
        reveal_strlit("0");
        reveal_strlit("1");
        reveal_strlit("2");
        reveal_strlit("3");
        reveal_strlit("4");
        reveal_strlit("5");
        reveal_strlit("6");
        reveal_strlit("7");
        reveal_strlit("8");
        reveal_strlit("9");
    }
    if d == 0 {
        "0"
    } else if d == 1 {
        "1"
    } else if d == 2 {
        "2"
    } else if d == 3 {
        "3"
    } else if d == 4 {
        "4"
    } else if d == 5 {
        "5"
    } else if d == 6 {
        "6"
    } else if d == 7 {
        "7"
    } else if d == 8 {
        "8"
    } else {
        "9"
    }
}

/// `n` in decimal notation.
pub fn decimal_text(n: u64) -> (r: String)
    ensures
        r@ == decimal(n as nat),
    decreases n,
{
    if n < 10 {
        digit_text(n).to_owned()
    } else {
        let mut head = decimal_text(n / 10);
        let last = digit_text(n % 10);
        head.append(last);
        assert(decimal((n / 10) as nat) + seq![digit((n % 10) as nat)] =~= decimal(n as nat));
        head
    }
}

/// Whether every character of `s` is a decimal digit.
pub open spec fn all_digits(s: Seq<char>) -> bool {
    forall|i: int| 0 <= i < s.len() ==> '0' <= #[trigger] s[i] <= '9'
}

/// The number that the digits `s` denote.
pub open spec fn digits_value(s: Seq<char>) -> nat
    decreases s.len(),
{
    if s.len() == 0 {
        0
    } else {
        digits_value(s.drop_last()) * 10 + (s.last() as nat - '0' as nat) as nat
    }
}

/// The digits of a number in the notation that an unsigned integer is parsed
/// from: one optional plus sign before them.
pub open spec fn unsigned_digits(s: Seq<char>) -> Seq<char> {
    if s.len() > 0 && s[0] == '+' {
        s.skip(1)
    } else {
        s
    }
}

/// The unsigned number that `s` denotes, if it denotes one of at most `max`.
pub open spec fn parsed_number(s: Seq<char>, max: nat) -> Option<nat> {
    let digits = unsigned_digits(s);
    if digits.len() > 0 && all_digits(digits) && digits_value(digits) <= max {
        Some(digits_value(digits))
    } else {
        None
    }
}

proof fn lemma_digits_value_grows(s: Seq<char>, n: int)
    requires
        0 <= n <= s.len(),
        all_digits(s),
    ensures
        digits_value(s.take(n)) <= digits_value(s),
    decreases s.len() - n,
{
    if n == s.len() {
        assert(s.take(n) =~= s);
    } else {
        let t = s.drop_last();
        assert forall|i: int| 0 <= i < t.len() implies '0' <= #[trigger] t[i] <= '9' by {
            assert(t[i] == s[i]);
        }
        lemma_digits_value_grows(t, n);
        assert(t.take(n) =~= s.take(n));
    }
}

/// Parse `s` as a `u64`, as `str::parse` does.
pub fn parse_u64(s: &str) -> (r: Option<u64>)
    ensures
        match r {
            Some(n) => parsed_number(s@, u64::MAX as nat) == Some(n as nat),
            None => parsed_number(s@, u64::MAX as nat) is None,
        },
{
    let chars = characters(s);
    let n: usize = chars.len();
    let from: usize = if n > 0 && chars[0] == '+' {
        1
    } else {
        0
    };
    let ghost digits = unsigned_digits(s@);
    assert(digits =~= s@.skip(from as int));
    if from == n {
        return None;
    }
    let mut value: u64 = 0;
    let mut i: usize = from;
    while i < n
        invariant
            chars@ == s@,
            n == s@.len(),
            from <= i <= n,
            digits == s@.skip(from as int),
            digits == unsigned_digits(s@),
            forall|k: int| 0 <= k < i - from ==> '0' <= #[trigger] digits[k] <= '9',
            value == digits_value(digits.take(i - from)),
        decreases n - i,
    {
        let c = chars[i];
        assert(c == digits[i - from]);
        if c < '0' || '9' < c {
            assert(!all_digits(digits));
            return None;
        }
        let d: u64 = (c as u32 - '0' as u32) as u64;
        proof {
            let longer = digits.take(i - from + 1);
            assert(longer.drop_last() =~= digits.take(i - from));
            assert(longer.last() == c);
            if all_digits(digits) {
                lemma_digits_value_grows(digits, i - from + 1);
            }
        }
        match value.checked_mul(10) {
            Some(tens) => match tens.checked_add(d) {
                Some(sum) => {
                    value = sum;
                },
                None => {
                    return None;
                },
            },
            None => {
                return None;
            },
        }
        i = i + 1;
    }
    assert(digits.take(n - from) =~= digits);
    Some(value)
}

/// `a` followed by `b`.
pub fn join2(a: &str, b: &str) -> (r: String)
    ensures
        r@ == a@ + b@,
{
    let mut s = a.to_owned();
    s.append(b);
    s
}

/// The three texts, one after the other.
pub fn join3(a: &str, b: &str, c: &str) -> (r: String)
    ensures
        r@ == a@ + b@ + c@,
{
    let mut s = a.to_owned();
    s.append(b);
    s.append(c);
    s
}

/// The four texts, one after the other.
pub fn join4(a: &str, b: &str, c: &str, d: &str) -> (r: String)
    ensures
        r@ == a@ + b@ + c@ + d@,
{
    let mut s = join3(a, b, c);
    s.append(d);
    s
}

/// The five texts, one after the other.
pub fn join5(a: &str, b: &str, c: &str, d: &str, e: &str) -> (r: String)
    ensures
        r@ == a@ + b@ + c@ + d@ + e@,
{
    let mut s = join3(a, b, c);
    s.append(d);
    s.append(e);
    s
}

/// The six texts, one after the other.
pub fn join6(a: &str, b: &str, c: &str, d: &str, e: &str, f: &str) -> (r: String)
    ensures
        r@ == a@ + b@ + c@ + d@ + e@ + f@,
{
    let mut s = join5(a, b, c, d, e);
    s.append(f);
    s
}

/// The seven texts, one after the other.
pub fn join7(a: &str, b: &str, c: &str, d: &str, e: &str, f: &str, g: &str) -> (r: String)
    ensures
        r@ == a@ + b@ + c@ + d@ + e@ + f@ + g@,
{
    let mut s = join5(a, b, c, d, e);
    s.append(f);
    s.append(g);
    s
}

/// Whether `needle` occurs in `s`.
pub open spec fn occurs_in(needle: Seq<char>, s: Seq<char>) -> bool {
    exists|at: int|
        0 <= at && at + needle.len() <= s.len() && #[trigger] s.subrange(at, at + needle.len())
            == needle
}

/// Whether `needle` occurs in `s`.
pub fn contains(s: &str, needle: &str) -> (r: bool)
    ensures
        r == occurs_in(needle@, s@),
{
    let n: usize = s.unicode_len();
    let m: usize = needle.unicode_len();
    if n < m {
        return false;
    }
    let mut at: usize = 0;
    while at <= n - m
        invariant
            n == s@.len(),
            m == needle@.len(),
            m <= n,
            at <= n - m + 1,
            forall|k: int| 0 <= k < at ==> #[trigger] s@.subrange(k, k + m) != needle@,
        decreases n - at + 1,
    {
        if same_text(s.substring_char(at, at + m), needle) {
            return true;
        }
        if at == n - m {
            return false;
        }
        at = at + 1;
    }
    false
}

/// Trimming takes away white space at the two ends, and nothing else: what is left is a
/// part of the text, with only white space before and behind it.
pub proof fn lemma_trim_takes_only_white_ends(s: Seq<char>)
    ensures
        exists|from: int, to: int|
            0 <= from <= to <= s.len() && trim(s) == #[trigger] s.subrange(from, to) && is_blank(
                s.take(from),
            ) && is_blank(s.skip(to)),
{
    let from = first_not_white(s, 0);
    lemma_first_not_white(s, 0);
    lemma_trim_start_keeps_rest(s, from);
    let rest = s.skip(from);
    let to = last_not_white(rest, rest.len() as int);
    lemma_last_not_white(rest, rest.len() as int);
    lemma_trim_end_keeps_rest(rest, to);
    assert(rest.take(to) =~= s.subrange(from, from + to));
    assert forall|i: int| 0 <= i < s.take(from).len() implies is_white(
        #[trigger] s.take(from)[i],
    ) by {
        assert(is_white(s[i]));
    }
    assert forall|i: int| 0 <= i < s.skip(from + to).len() implies is_white(
        #[trigger] s.skip(from + to)[i],
    ) by {
        assert(is_white(rest[to + i]));
    }
}

/// A number in decimal notation is made of digits, and denotes the number.
pub proof fn lemma_number_is_read_back(n: nat)
    ensures
        decimal(n).len() > 0,
        all_digits(decimal(n)),
        digits_value(decimal(n)) == n,
        parsed_number(decimal(n), n) == Some(n),
    decreases n,
{
    reveal_with_fuel(digits_value, 2);
    let text = decimal(n);
    if n < 10 {
        assert(text.last() == digit(n));
        assert(text.drop_last() =~= Seq::<char>::empty());
    } else {
        lemma_number_is_read_back(n / 10);
        assert(text.drop_last() =~= decimal(n / 10));
        assert(text.last() == digit(n % 10));
        assert forall|i: int| 0 <= i < text.len() implies '0' <= #[trigger] text[i] <= '9' by {
            if i < text.len() - 1 {
                assert(text[i] == decimal(n / 10)[i]);
            }
        }
    }
    assert('0' <= text[0] <= '9');
    assert(unsigned_digits(text) == text);
}

/// Different numbers are written differently.
pub proof fn lemma_numbers_are_told_apart(a: nat, b: nat)
    requires
        decimal(a) == decimal(b),
    ensures
        a == b,
{
    lemma_number_is_read_back(a);
    lemma_number_is_read_back(b);
}

/// A text begins with each of its beginnings, and holds whatever it was put together from.
pub proof fn lemma_text_holds_its_parts(before: Seq<char>, part: Seq<char>, behind: Seq<char>)
    ensures
        has_prefix(part + behind, part),
        occurs_in(part, before + part + behind),
        has_prefix(before, part) ==> before.len() >= part.len() && occurs_in(part, before),
{
    assert((part + behind).take(part.len() as int) =~= part);
    let whole = before + part + behind;
    let at = before.len() as int;
    assert(whole.subrange(at, at + part.len()) =~= part);
    if has_prefix(before, part) {
        let start: int = 0;
        assert(before.subrange(start, start + part.len()) =~= part);
    }
}

} // verus!
