//! Text handling over sequences of characters.

use vstd::prelude::*;
use vstd::string::StrSliceExecFns;
use vstd::string::StringExecFns;

verus! {

/// The characters of a string, one by one.
pub fn chars_of(s: &str) -> (r: Vec<char>)
    ensures
        r@ == s@,
{
    let mut out: Vec<char> = Vec::new();
    for c in it: s.chars()
        invariant
            it.seq() == s@,
            out@ == it.seq().take(it.index() as int),
    {
        out.push(c);
    }
    assert(s@.take(s@.len() as int) == s@);
    out
}

/// Whether the characters at `at` are those of `part`.
pub open spec fn stands_at(s: Seq<char>, at: int, part: Seq<char>) -> bool {
    0 <= at && at + part.len() <= s.len() && s.subrange(at, at + part.len()) == part
}

/// Whether `part` occurs in `s`.
pub open spec fn occurs(s: Seq<char>, part: Seq<char>) -> bool {
    exists|at: int| stands_at(s, at, part)
}

/// Whether the characters at `at` are those of `part`.
fn matches_at(s: &Vec<char>, at: usize, part: &Vec<char>) -> (r: bool)
    ensures
        r == stands_at(s@, at as int, part@),
{
    if at > s.len() || s.len() - at < part.len() {
        return false;
    }
    let mut i: usize = 0;
    while i < part.len()
        invariant
            i <= part.len(),
            at + part.len() <= s.len(),
            forall|k: int| 0 <= k < i ==> s@[at + k] == part@[k],
        decreases part.len() - i,
    {
        if s[at + i] != part[i] {
            assert(s@.subrange(at as int, at + part.len())[i as int] != part@[i as int]);
            return false;
        }
        i = i + 1;
    }
    assert(s@.subrange(at as int, at + part.len()) =~= part@);
    true
}

/// Whether `part` occurs in `s`.
pub fn contains_text(s: &str, part: &str) -> (r: bool)
    ensures
        r == occurs(s@, part@),
{
    let hay = chars_of(s);
    let needle = chars_of(part);
    let mut at: usize = 0;
    while at < hay.len()
        invariant
            at <= hay.len(),
            hay@ == s@,
            needle@ == part@,
            forall|k: int| 0 <= k < at ==> !stands_at(s@, k, part@),
        decreases hay.len() - at,
    {
        if matches_at(&hay, at, &needle) {
            return true;
        }
        at = at + 1;
    }
    let last = matches_at(&hay, at, &needle);
    assert(forall|k: int| k > s@.len() ==> !stands_at(s@, k, part@));
    last
}

/// Whether `s` begins with `part`.
pub fn begins_with(s: &str, part: &str) -> (r: bool)
    ensures
        r == stands_at(s@, 0, part@),
{
    matches_at(&chars_of(s), 0, &chars_of(part))
}

/// Whether `s` ends with `part`.
pub fn ends_with(s: &str, part: &str) -> (r: bool)
    ensures
        r == stands_at(s@, s@.len() - part@.len(), part@),
{
    let whole = chars_of(s);
    let end = chars_of(part);
    if whole.len() < end.len() {
        return false;
    }
    matches_at(&whole, whole.len() - end.len(), &end)
}

/// Whether two strings hold the same characters.
pub fn same_text(a: &str, b: &str) -> (r: bool)
    ensures
        r == (a@ == b@),
{
    let x = chars_of(a);
    let y = chars_of(b);
    if x.len() != y.len() {
        return false;
    }
    let r = matches_at(&x, 0, &y);
    assert(a@.subrange(0, a@.len() as int) =~= a@);
    r
}

/// The position of the first `c` in `s`, or the length of `s` where there is none.
pub open spec fn position_of(s: Seq<char>, c: char) -> int
    decreases s.len(),
{
    if s.len() == 0 || s[0] == c {
        0
    } else {
        1 + position_of(s.skip(1), c)
    }
}

/// The position of the first `c` is the one that no other `c` precedes.
pub proof fn lemma_position_of(s: Seq<char>, c: char, at: int)
    requires
        0 <= at <= s.len(),
        at < s.len() ==> s[at] == c,
        forall|k: int| 0 <= k < at ==> s[k] != c,
    ensures
        position_of(s, c) == at,
    decreases s.len(),
{
    if s.len() > 0 && s[0] != c {
        assert forall|k: int| 0 <= k < at - 1 implies s.skip(1)[k] != c by {
            assert(s.skip(1)[k] == s[k + 1]);
        }
        lemma_position_of(s.skip(1), c, at - 1);
    }
}

/// What a position of a character means.
pub proof fn lemma_position_bounds(s: Seq<char>, c: char)
    ensures
        0 <= position_of(s, c) <= s.len(),
        position_of(s, c) < s.len() ==> s[position_of(s, c)] == c,
        forall|k: int| 0 <= k < position_of(s, c) ==> s[k] != c,
    decreases s.len(),
{
    if s.len() > 0 && s[0] != c {
        lemma_position_bounds(s.skip(1), c);
        assert forall|k: int| 0 <= k < position_of(s, c) implies s[k] != c by {
            if k > 0 {
                assert(s.skip(1)[k - 1] == s[k]);
            }
        }
    }
}

/// The first position of `c` from `from` on, or the length of the text.
fn find_from(s: &Vec<char>, c: char, from: usize) -> (r: usize)
    requires
        from <= s.len(),
    ensures
        from <= r <= s.len(),
        r == from + position_of(s@.skip(from as int), c),
{
    let mut i: usize = from;
    while i < s.len() && s[i] != c
        invariant
            from <= i <= s.len(),
            forall|k: int| from <= k < i ==> s@[k] != c,
        decreases s.len() - i,
    {
        i = i + 1;
    }
    proof {
        lemma_position_of(s@.skip(from as int), c, i - from);
    }
    i
}

/// Whether `c` occurs in `s`.
pub fn contains_char(s: &str, c: char) -> (r: bool)
    ensures
        r == s@.contains(c),
{
    let v = chars_of(s);
    let at = find_from(&v, c, 0);
    proof {
        assert(s@.skip(0) =~= s@);
        lemma_position_bounds(s@, c);
        if s@.contains(c) {
            let k = choose|k: int| 0 <= k < s@.len() && s@[k] == c;
            assert(s@[k] == c);
        }
    }
    at < v.len()
}

/// The text before the first `c` and the text behind it, where there is a `c`.
pub open spec fn divided(s: Seq<char>, c: char) -> Option<(Seq<char>, Seq<char>)> {
    let at = position_of(s, c);
    if at < s.len() {
        Some((s.take(at), s.skip(at + 1)))
    } else {
        None
    }
}

/// The characters of the two halves of a divided text.
pub open spec fn halves_of(r: Option<(&str, &str)>) -> Option<(Seq<char>, Seq<char>)> {
    match r {
        Some((a, b)) => Some((a@, b@)),
        None => None,
    }
}

/// Divides a text at the first `c`.
pub fn split_once<'a>(s: &'a str, c: char) -> (r: Option<(&'a str, &'a str)>)
    ensures
        halves_of(r) == divided(s@, c),
{
    let v = chars_of(s);
    let at = find_from(&v, c, 0);
    proof {
        assert(s@.skip(0) =~= s@);
    }
    if at < v.len() {
        let a = s.substring_char(0, at);
        let b = s.substring_char(at + 1, v.len());
        assert(a@ =~= s@.take(at as int));
        assert(b@ =~= s@.skip(at + 1));
        Some((a, b))
    } else {
        None
    }
}

/// The parts of a text between the occurrences of `c`.
pub open spec fn split_parts(s: Seq<char>, c: char) -> Seq<Seq<char>>
    decreases s.len(),
    when 0 <= position_of(s, c) <= s.len()
{
    let at = position_of(s, c);
    if at < s.len() {
        seq![s.take(at)] + split_parts(s.skip(at + 1), c)
    } else {
        seq![s]
    }
}

/// A character other than the one that a text is split at stays in some part.
pub proof fn lemma_split_keeps(s: Seq<char>, c: char, k: int)
    requires
        0 <= k < s.len(),
        s[k] != c,
    ensures
        exists|i: int|
            0 <= i < split_parts(s, c).len() && (#[trigger] split_parts(s, c)[i]).contains(s[k]),
    decreases s.len(),
{
    lemma_position_bounds(s, c);
    let at = position_of(s, c);
    let parts = split_parts(s, c);
    if at == s.len() {
        assert(parts[0] == s);
        assert(s.contains(s[k]));
    } else if k < at {
        assert(parts[0] == s.take(at));
        assert(s.take(at)[k] == s[k]);
        assert(parts[0].contains(s[k]));
    } else {
        let rest = s.skip(at + 1);
        lemma_position_bounds(rest, c);
        assert(rest[k - at - 1] == s[k]);
        lemma_split_keeps(rest, c, k - at - 1);
        let i = choose|i: int|
            0 <= i < split_parts(rest, c).len() && (#[trigger] split_parts(rest, c)[i]).contains(
                s[k],
            );
        assert(parts == seq![s.take(at)] + split_parts(rest, c));
        assert(parts[i + 1] == split_parts(rest, c)[i]);
    }
}

/// A text without `c` is its only part.
pub proof fn lemma_split_alone(s: Seq<char>, c: char)
    requires
        !s.contains(c),
    ensures
        split_parts(s, c) == seq![s],
{
    lemma_position_bounds(s, c);
    if position_of(s, c) < s.len() {
        assert(s[position_of(s, c)] == c);
    }
}

/// A text without `c`, then `c`, then another text: the parts are the first text
/// and those of the other.
pub proof fn lemma_split_at(a: Seq<char>, c: char, b: Seq<char>)
    requires
        !a.contains(c),
    ensures
        split_parts(a + seq![c] + b, c) == seq![a] + split_parts(b, c),
{
    let s = a + seq![c] + b;
    assert forall|k: int| 0 <= k < a.len() implies s[k] != c by {
        assert(s[k] == a[k]);
        assert(a.contains(a[k]));
    }
    lemma_position_of(s, c, a.len() as int);
    lemma_position_bounds(b, c);
    assert(s.take(a.len() as int) =~= a);
    assert(s.skip(a.len() as int + 1) =~= b);
}

/// The texts of a vector of strings.
pub open spec fn texts(v: Seq<String>) -> Seq<Seq<char>> {
    v.map_values(|s: String| s@)
}

/// The parts of a text between the occurrences of `c`.
pub fn split_text(s: &str, c: char) -> (r: Vec<String>)
    ensures
        texts(r@) == split_parts(s@, c),
{
    let v = chars_of(s);
    let mut out: Vec<String> = Vec::new();
    let mut from: usize = 0;
    let mut at = find_from(&v, c, 0);
    proof {
        assert(s@.skip(0) =~= s@);
        lemma_position_bounds(s@, c);
    }
    while at < v.len()
        invariant
            v@ == s@,
            from <= at <= v.len(),
            at == from + position_of(s@.skip(from as int), c),
            texts(out@) + split_parts(s@.skip(from as int), c) == split_parts(s@, c),
        decreases v.len() - from,
    {
        let ghost rest = s@.skip(from as int);
        let ghost before = texts(out@);
        let part = s.substring_char(from, at).to_string();
        proof {
            lemma_position_bounds(rest, c);
            assert(rest.take(at - from) =~= part@);
            assert(rest.skip(at - from + 1) =~= s@.skip(at + 1));
        }
        out.push(part);
        assert(texts(out@) =~= before.push(part@));
        from = at + 1;
        at = find_from(&v, c, from);
        proof {
            lemma_position_bounds(s@.skip(from as int), c);
            assert(texts(out@) + split_parts(s@.skip(from as int), c) =~= before + split_parts(
                rest,
                c,
            ));
        }
    }
    let ghost rest = s@.skip(from as int);
    let ghost before = texts(out@);
    let part = s.substring_char(from, v.len()).to_string();
    proof {
        lemma_position_bounds(rest, c);
        assert(part@ =~= rest);
    }
    out.push(part);
    assert(texts(out@) =~= before + seq![rest]);
    out
}

/// Whether a character has the Unicode property White_Space.
pub open spec fn is_white(c: char) -> bool {
    let n = c as u32;
    ||| 0x09 <= n <= 0x0d
    ||| n == 0x20
    ||| n == 0x85
    ||| n == 0xa0
    ||| n == 0x1680
    ||| 0x2000 <= n <= 0x200a
    ||| n == 0x2028
    ||| n == 0x2029
    ||| n == 0x202f
    ||| n == 0x205f
    ||| n == 0x3000
}

/// Whether a character has the Unicode property White_Space.
pub fn is_white_char(c: char) -> (r: bool)
    ensures
        r == is_white(c),
{
    let n: u32 = c as u32;
    (0x09 <= n && n <= 0x0d) || n == 0x20 || n == 0x85 || n == 0xa0 || n == 0x1680 || (0x2000 <= n
        && n <= 0x200a) || n == 0x2028 || n == 0x2029 || n == 0x202f || n == 0x205f || n == 0x3000
}

/// `s` without the white space at its start.
pub open spec fn trimmed_front(s: Seq<char>) -> Seq<char>
    decreases s.len(),
{
    if s.len() > 0 && is_white(s[0]) {
        trimmed_front(s.skip(1))
    } else {
        s
    }
}

/// `s` without the white space at its end.
pub open spec fn trimmed_back(s: Seq<char>) -> Seq<char>
    decreases s.len(),
{
    if s.len() > 0 && is_white(s.last()) {
        trimmed_back(s.drop_last())
    } else {
        s
    }
}

/// `s` without the white space at its start and its end.
pub open spec fn trimmed(s: Seq<char>) -> Seq<char> {
    trimmed_back(trimmed_front(s))
}

/// `s` without the white space at its start and its end.
pub fn trim(s: &str) -> (r: &str)
    ensures
        r@ == trimmed(s@),
{
    let v = chars_of(s);
    let mut from: usize = 0;
    assert(s@.skip(0) =~= s@);
    while from < v.len() && is_white_char(v[from])
        invariant
            v@ == s@,
            from <= v.len(),
            trimmed_front(s@) == trimmed_front(s@.skip(from as int)),
        decreases v.len() - from,
    {
        assert(s@.skip(from as int).skip(1) =~= s@.skip(from + 1));
        from = from + 1;
    }
    let ghost front = s@.skip(from as int);
    let mut to: usize = v.len();
    assert(s@.subrange(from as int, to as int) =~= front);
    while to > from && is_white_char(v[to - 1])
        invariant
            v@ == s@,
            from <= to <= v.len(),
            trimmed_back(front) == trimmed_back(s@.subrange(from as int, to as int)),
        decreases to,
    {
        assert(s@.subrange(from as int, to as int).drop_last() =~= s@.subrange(
            from as int,
            to - 1,
        ));
        to = to - 1;
    }
    s.substring_char(from, to)
}

/// Whether a character is a decimal digit.
pub open spec fn is_digit(c: char) -> bool {
    '0' <= c <= '9'
}

/// The number that decimal digits denote.
pub open spec fn digits_value(s: Seq<char>) -> nat
    decreases s.len(),
{
    if s.len() == 0 {
        0
    } else {
        digits_value(s.drop_last()) * 10 + (s.last() as u32 - '0' as u32) as nat
    }
}

/// `s` without a leading plus sign.
pub open spec fn unsigned_part(s: Seq<char>) -> Seq<char> {
    if s.len() > 0 && s[0] == '+' {
        s.skip(1)
    } else {
        s
    }
}

/// The number that `s` denotes: an optional plus sign and one or more decimal
/// digits, with a value of at most `max`.
pub open spec fn parsed_number(s: Seq<char>, max: nat) -> Option<nat> {
    let d = unsigned_part(s);
    if d.len() > 0 && (forall|i: int| 0 <= i < d.len() ==> is_digit(#[trigger] d[i]))
        && digits_value(d) <= max {
        Some(digits_value(d))
    } else {
        None
    }
}

proof fn lemma_digits_grow(s: Seq<char>, n: int)
    requires
        0 <= n <= s.len(),
        forall|i: int| 0 <= i < s.len() ==> is_digit(#[trigger] s[i]),
    ensures
        digits_value(s.take(n)) <= digits_value(s),
    decreases s.len() - n,
{
    if n == s.len() {
        assert(s.take(n) =~= s);
    } else {
        assert(s.take(n + 1).drop_last() =~= s.take(n));
        lemma_digits_grow(s, n + 1);
    }
}

/// The number behind an optional number of characters.
pub open spec fn nat_of(r: Option<u64>) -> Option<nat> {
    match r {
        Some(n) => Some(n as nat),
        None => None,
    }
}

/// Reads a number of at most `max`.
pub fn parse_number(s: &str, max: u64) -> (r: Option<u64>)
    ensures
        nat_of(r) == parsed_number(s@, max as nat),
{
    let v = chars_of(s);
    let start: usize = if v.len() > 0 && v[0] == '+' {
        1
    } else {
        0
    };
    let ghost d = unsigned_part(s@);
    assert(d =~= s@.skip(start as int));
    if v.len() == start {
        return None;
    }
    let mut value: u64 = 0;
    let mut i: usize = start;
    while i < v.len()
        invariant
            v@ == s@,
            start <= i <= v.len(),
            start < v.len(),
            d == s@.skip(start as int),
            d == unsigned_part(s@),
            value <= max,
            value as nat == digits_value(d.take(i - start)),
            forall|k: int| 0 <= k < i - start ==> is_digit(#[trigger] d[k]),
        decreases v.len() - i,
    {
        let c: char = v[i];
        let ghost at = i - start;
        assert(d[at] == c);
        if c < '0' || c > '9' {
            return None;
        }
        let digit: u64 = (c as u32 - '0' as u32) as u64;
        proof {
            assert(d.take(at + 1).drop_last() =~= d.take(at));
            assert(digits_value(d.take(at + 1)) == value * 10 + digit);
            if value * 10 + digit > max && (forall|k: int|
                0 <= k < d.len() ==> is_digit(#[trigger] d[k])) {
                lemma_digits_grow(d, at + 1);
            }
        }
        if value > max / 10 || digit > max - value * 10 {
            return None;
        }
        value = value * 10 + digit;
        i = i + 1;
    }
    assert(d.take(d.len() as int) =~= d);
    Some(value)
}

/// The decimal digit for a number below ten.
pub open spec fn digit_char(n: nat) -> char {
    ('0' as u32 + n) as char
}

/// A number in decimal digits, without leading zeros.
pub open spec fn decimal(n: nat) -> Seq<char>
    decreases n,
{
    if n < 10 {
        seq![digit_char(n)]
    } else {
        decimal(n / 10).push(digit_char(n % 10))
    }
}

/// An integer in decimal digits, with a minus sign where it is negative.
pub open spec fn signed_decimal(n: int) -> Seq<char> {
    if n < 0 {
        seq!['-'] + decimal((-n) as nat)
    } else {
        decimal(n as nat)
    }
}

/// What is written in decimal digits reads back as the same number.
pub proof fn law_decimal_reads_back(n: nat, max: nat)
    requires
        n <= max,
    ensures
        parsed_number(decimal(n), max) == Some(n),
{
    lemma_decimal(n);
    assert(is_digit(decimal(n)[0]));
}

/// The digits of a number and its value.
pub proof fn lemma_decimal(n: nat)
    ensures
        decimal(n).len() > 0,
        forall|i: int| 0 <= i < decimal(n).len() ==> is_digit(#[trigger] decimal(n)[i]),
        digits_value(decimal(n)) == n,
    decreases n,
{
    if n < 10 {
        reveal_with_fuel(digits_value, 2);
        assert(decimal(n).drop_last() =~= Seq::empty());
    } else {
        lemma_decimal(n / 10);
        assert(decimal(n).drop_last() =~= decimal(n / 10));
    }
}

/// The decimal digit for a number below ten, as text.
fn digit_text(n: u64) -> (r: &'static str)
    requires
        n < 10,
    ensures
        r@ == seq![digit_char(n as nat)],
{
    proof {
        reveal_strlit("0");
        reveal_strlit("1");
        reveal_strlit("2");
        reveal_strlit("3");
        reveal_strlit("4");
        reveal_strlit("5");
        reveal_strlit("6");
        reveal_strlit("7");
        reveal_strlit("8");
        reveal_strlit("9");
    }
    let r: &'static str = match n {
        0 => "0",
        1 => "1",
        2 => "2",
        3 => "3",
        4 => "4",
        5 => "5",
        6 => "6",
        7 => "7",
        8 => "8",
        _ => "9",
    };
    assert(r@ =~= seq![digit_char(n as nat)]);
    r
}

/// Appends a number in decimal digits.
pub fn push_decimal(out: &mut String, n: u64)
    ensures
        final(out)@ == old(out)@ + decimal(n as nat),
    decreases n,
{
    if n >= 10 {
        push_decimal(out, n / 10);
    }
    out.append(digit_text(n % 10));
    assert(out@ =~= old(out)@ + decimal(n as nat));
}

/// A number in decimal digits.
pub fn decimal_text(n: u64) -> (r: String)
    ensures
        r@ == decimal(n as nat),
{
    let mut out = String::new();
    push_decimal(&mut out, n);
    assert(out@ =~= decimal(n as nat));
    out
}

/// Appends an integer in decimal digits.
pub fn push_signed(out: &mut String, n: i64)
    ensures
        final(out)@ == old(out)@ + signed_decimal(n as int),
{
    if n < 0 {
        proof {
            reveal_strlit("-");
            assert("-"@ =~= seq!['-']);
        }
        out.append("-");
        push_decimal(out, (-(n as i128)) as u64);
        assert(out@ =~= old(out)@ + signed_decimal(n as int));
    } else {
        push_decimal(out, n as u64);
    }
}

/// What `str::to_lowercase` returns.
pub uninterp spec fn lowercase(s: Seq<char>) -> Seq<char>;

/// Whether a text holds ASCII characters only.
pub open spec fn is_ascii_text(s: Seq<char>) -> bool {
    forall|i: int| 0 <= i < s.len() ==> (#[trigger] s[i] as u32) < 0x80
}

/// An ASCII character with a capital letter made small.
pub open spec fn small_letter(c: char) -> char {
    if 'A' <= c <= 'Z' {
        (c as u32 + 32) as char
    } else {
        c
    }
}

/// A text with its capital ASCII letters made small.
pub open spec fn small_letters(s: Seq<char>) -> Seq<char> {
    s.map_values(|c: char| small_letter(c))
}

/// A text in small letters. Where all characters are ASCII, these are the
/// letters a to z.
pub open spec fn lowered(s: Seq<char>) -> Seq<char> {
    if is_ascii_text(s) {
        small_letters(s)
    } else {
        lowercase(s)
    }
}

/// Calls `str::to_lowercase` of the standard library. Taken on trust: the result
/// depends on the text alone, and for a text of ASCII characters it is the text
/// with the letters A to Z replaced by a to z.
#[verifier::external_body]
pub(crate) fn to_lower(s: &str) -> (r: String)
    ensures
        r@ == lowercase(s@),
        is_ascii_text(s@) ==> r@ == small_letters(s@),
{
    s.to_lowercase()
}

/// Two texts, one behind the other.
pub fn joined(a: &str, b: &str) -> (r: String)
    ensures
        r@ == a@ + b@,
{
    let mut out = a.to_string();
    out.append(b);
    out
}

} // verus!
