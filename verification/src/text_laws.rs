//! What searching, dividing and reading of texts means.

use vstd::prelude::*;

use crate::order::in_order;
use crate::order::lemma_precedes_total;
use crate::order::precedes;
use crate::text::decimal;
use crate::text::digits_value;
use crate::text::divided;
use crate::text::is_ascii_text;
use crate::text::is_digit;
use crate::text::is_white;
use crate::text::lemma_decimal;
use crate::text::lemma_position_bounds;
use crate::text::lemma_position_of;
use crate::text::lemma_split_alone;
use crate::text::lemma_split_at;
use crate::text::lowered;
use crate::text::occurs;
use crate::text::parsed_number;
use crate::text::position_of;
use crate::text::signed_decimal;
use crate::text::split_parts;
use crate::text::stands_at;
use crate::text::trimmed;
use crate::text::trimmed_back;
use crate::text::trimmed_front;

verus! {

/// A text occurs in another if and only if that is made of it with something before
/// and something behind.
pub proof fn law_occurs(s: Seq<char>, part: Seq<char>)
    ensures
        occurs(s, part) <==> exists|a: Seq<char>, b: Seq<char>| s == #[trigger] (a + part + b),
{
    if occurs(s, part) {
        let at = choose|at: int| stands_at(s, at, part);
        let a = s.take(at);
        let b = s.skip(at + part.len());
        assert(s =~= a + part + b);
    }
    if exists|a: Seq<char>, b: Seq<char>| s == #[trigger] (a + part + b) {
        let (a, b) = choose|a: Seq<char>, b: Seq<char>| s == #[trigger] (a + part + b);
        assert(s.subrange(a.len() as int, a.len() as int + part.len()) =~= part);
        assert(stands_at(s, a.len() as int, part));
    }
}

/// A text is divided at the first occurrence of a character, and not at all where
/// there is none.
pub proof fn law_divided(a: Seq<char>, c: char, b: Seq<char>)
    requires
        !a.contains(c),
    ensures
        divided(a + seq![c] + b, c) == Some((a, b)),
        divided(a, c) is None,
{
    let s = a + seq![c] + b;
    assert forall|k: int| 0 <= k < a.len() implies s[k] != c by {
        assert(a.contains(a[k]));
        assert(s[k] == a[k]);
    }
    lemma_position_of(s, c, a.len() as int);
    assert(s.take(a.len() as int) =~= a);
    assert(s.skip(a.len() as int + 1) =~= b);
    lemma_position_bounds(a, c);
    if position_of(a, c) < a.len() {
        assert(a.contains(a[position_of(a, c)]));
    }
}

/// Texts with a character between each two.
pub open spec fn rejoined(parts: Seq<Seq<char>>, c: char) -> Seq<char>
    decreases parts.len(),
{
    if parts.len() == 0 {
        Seq::empty()
    } else if parts.len() == 1 {
        parts[0]
    } else {
        parts[0] + seq![c] + rejoined(parts.skip(1), c)
    }
}

/// Splitting undoes joining: parts that do not hold the character come back.
pub proof fn law_split_undoes_join(parts: Seq<Seq<char>>, c: char)
    requires
        parts.len() > 0,
        forall|i: int| 0 <= i < parts.len() ==> !(#[trigger] parts[i]).contains(c),
    ensures
        split_parts(rejoined(parts, c), c) == parts,
    decreases parts.len(),
{
    assert(!parts[0].contains(c));
    if parts.len() == 1 {
        lemma_split_alone(parts[0], c);
        assert(seq![parts[0]] =~= parts);
    } else {
        let rest = parts.skip(1);
        assert forall|i: int| 0 <= i < rest.len() implies !(#[trigger] rest[i]).contains(c) by {
            assert(rest[i] == parts[i + 1]);
        }
        law_split_undoes_join(rest, c);
        lemma_split_at(parts[0], c, rejoined(rest, c));
        assert(seq![parts[0]] + rest =~= parts);
    }
}

/// Joining undoes splitting, and no part holds the character.
pub proof fn law_join_undoes_split(s: Seq<char>, c: char)
    ensures
        split_parts(s, c).len() > 0,
        rejoined(split_parts(s, c), c) == s,
        forall|i: int|
            0 <= i < split_parts(s, c).len() ==> !(#[trigger] split_parts(s, c)[i]).contains(c),
    decreases s.len(),
{
    let at = position_of(s, c);
    lemma_position_bounds(s, c);
    if at < s.len() {
        let a = s.take(at);
        let rest = s.skip(at + 1);
        law_join_undoes_split(rest, c);
        lemma_position_bounds(rest, c);
        let parts = split_parts(s, c);
        assert(parts == seq![a] + split_parts(rest, c));
        assert(parts.skip(1) =~= split_parts(rest, c));
        assert(s =~= a + seq![c] + rest);
        assert forall|i: int| 0 <= i < parts.len() implies !(#[trigger] parts[i]).contains(c) by {
            if i > 0 {
                assert(parts[i] == split_parts(rest, c)[i - 1]);
            }
        }
    } else {
        assert(split_parts(s, c) =~= seq![s]);
    }
}

/// Whether all characters of a text are white space.
pub open spec fn is_blank(s: Seq<char>) -> bool {
    forall|i: int| 0 <= i < s.len() ==> is_white(#[trigger] s[i])
}

/// Whether a text neither begins nor ends with white space.
pub open spec fn is_trim(s: Seq<char>) -> bool {
    s.len() > 0 ==> !is_white(s[0]) && !is_white(s.last())
}

proof fn lemma_front(w: Seq<char>, t: Seq<char>)
    requires
        is_blank(w),
        t.len() > 0 ==> !is_white(t[0]),
    ensures
        trimmed_front(w + t) == t,
    decreases w.len(),
{
    let s = w + t;
    if w.len() > 0 {
        assert(s[0] == w[0]);
        assert(is_white(w[0]));
        assert(s.skip(1) =~= w.skip(1) + t);
        assert(is_blank(w.skip(1)));
        lemma_front(w.skip(1), t);
    } else {
        assert(s =~= t);
    }
}

proof fn lemma_back(t: Seq<char>, w: Seq<char>)
    requires
        is_blank(w),
        t.len() > 0 ==> !is_white(t.last()),
    ensures
        trimmed_back(t + w) == t,
    decreases w.len(),
{
    let s = t + w;
    if w.len() > 0 {
        assert(s.last() == w.last());
        assert(is_white(w.last()));
        assert(s.drop_last() =~= t + w.drop_last());
        assert(is_blank(w.drop_last()));
        lemma_back(t, w.drop_last());
    } else {
        assert(s =~= t);
    }
}

/// Trimming takes the white space at both ends away and nothing else. White space
/// are the space, the characters from tab to carriage return, and those beyond
/// ASCII that Unicode names so.
pub proof fn law_trimmed(front: Seq<char>, t: Seq<char>, back: Seq<char>, c: char)
    requires
        is_blank(front),
        is_trim(t),
        is_blank(back),
    ensures
        trimmed(front + t + back) == t,
        (c as u32) < 0x80 ==> (is_white(c) <==> c == ' ' || c == '\t' || c == '\n' || c == '\r'
            || c as u32 == 0x0b || c as u32 == 0x0c),
        (c as u32) >= 0x80 ==> (is_white(c) <==> {
            let n = c as u32;
            n == 0x85 || n == 0xa0 || n == 0x1680 || 0x2000 <= n <= 0x200a || 0x2028 <= n <= 0x2029
                || n == 0x202f || n == 0x205f || n == 0x3000
        }),
{
    if t.len() > 0 {
        let s = t + back;
        assert(s[0] == t[0]);
        assert(front + t + back =~= front + s);
        lemma_front(front, s);
        lemma_back(t, back);
    } else {
        let w = front + back;
        assert(front + t + back =~= w + t);
        assert forall|i: int| 0 <= i < w.len() implies is_white(#[trigger] w[i]) by {
            if i < front.len() {
                assert(w[i] == front[i]);
            } else {
                assert(w[i] == back[i - front.len()]);
            }
        }
        lemma_front(w, t);
        assert(trimmed_front(front + t + back) =~= t);
        assert(trimmed_back(t) =~= t);
    }
}

/// Ten to the power `n`.
pub open spec fn ten_to(n: nat) -> nat
    decreases n,
{
    if n == 0 {
        1
    } else {
        10 * ten_to((n - 1) as nat)
    }
}

/// The number that decimal digits denote by their places.
pub open spec fn by_place(s: Seq<char>) -> nat
    decreases s.len(),
{
    if s.len() == 0 {
        0
    } else {
        (s[0] as u32 - 48) as nat * ten_to((s.len() - 1) as nat) + by_place(s.skip(1))
    }
}

proof fn lemma_by_place_push(s: Seq<char>, c: char)
    requires
        forall|i: int| 0 <= i < s.len() ==> '0' <= #[trigger] s[i] <= '9',
        '0' <= c <= '9',
    ensures
        by_place(s.push(c)) == by_place(s) * 10 + (c as u32 - 48),
    decreases s.len(),
{
    let t = s.push(c);
    if s.len() == 0 {
        assert(t.skip(1) =~= Seq::empty());
        assert(by_place(t.skip(1)) == 0);
        assert(ten_to(0) == 1);
        assert(by_place(t) == (c as u32 - 48) as nat * 1 + 0);
    } else {
        assert(t.skip(1) =~= s.skip(1).push(c));
        assert forall|i: int| 0 <= i < s.skip(1).len() implies '0' <= #[trigger] s.skip(1)[i]
            <= '9' by {
            assert(s.skip(1)[i] == s[i + 1]);
        }
        lemma_by_place_push(s.skip(1), c);
        assert(t[0] == s[0]);
        let d = (s[0] as u32 - 48) as nat;
        let w = ten_to((s.len() - 1) as nat);
        assert(ten_to(s.len()) == 10 * w);
        assert(d * (10 * w) == d * w * 10) by (nonlinear_arith);
    }
}

proof fn lemma_digits_by_place(s: Seq<char>)
    requires
        forall|i: int| 0 <= i < s.len() ==> '0' <= #[trigger] s[i] <= '9',
    ensures
        digits_value(s) == by_place(s),
    decreases s.len(),
{
    if s.len() > 0 {
        lemma_digits_by_place(s.drop_last());
        assert(s.drop_last().push(s.last()) =~= s);
        lemma_by_place_push(s.drop_last(), s.last());
    }
}

/// What is read as a number, and when: digits, with a plus sign before them or
/// without, whose value by their places is not too large. Nothing else is.
pub proof fn law_numbers(s: Seq<char>, max: nat)
    ensures
        ({
            let digits = s.len() > 0 && forall|i: int|
                0 <= i < s.len() ==> '0' <= #[trigger] s[i] <= '9';
            &&& digits ==> parsed_number(s, max) == (if by_place(s) <= max {
                Some(by_place(s))
            } else {
                None
            })
            &&& digits ==> parsed_number(seq!['+'] + s, max) == parsed_number(s, max)
            &&& !digits ==> parsed_number(seq!['+'] + s, max) is None
            &&& !digits && !(s.len() > 0 && s[0] == '+') ==> parsed_number(s, max) is None
        }),
{
    let plus = seq!['+'] + s;
    assert(plus.skip(1) =~= s);
    if forall|i: int| 0 <= i < s.len() ==> '0' <= #[trigger] s[i] <= '9' {
        lemma_digits_by_place(s);
        if s.len() > 0 {
            assert('0' <= s[0] <= '9');
            assert(forall|i: int| 0 <= i < s.len() ==> is_digit(#[trigger] s[i]));
        }
    } else {
        let i = choose|i: int| 0 <= i < s.len() && !('0' <= #[trigger] s[i] <= '9');
        assert(!is_digit(s[i]));
    }
}

/// Numbers are written in digits without leading zeros, and have the value that
/// their places say.
pub proof fn law_decimal(n: nat)
    ensures
        decimal(n).len() > 0,
        forall|i: int| 0 <= i < decimal(n).len() ==> '0' <= #[trigger] decimal(n)[i] <= '9',
        by_place(decimal(n)) == n,
        n > 0 ==> decimal(n)[0] != '0',
        signed_decimal(n as int) == decimal(n),
        n > 0 ==> signed_decimal(-(n as int)) == seq!['-'] + decimal(n),
    decreases n,
{
    lemma_decimal(n);
    assert forall|i: int| 0 <= i < decimal(n).len() implies '0' <= #[trigger] decimal(n)[i]
        <= '9' by {
        assert(is_digit(decimal(n)[i]));
    }
    lemma_digits_by_place(decimal(n));
    if n >= 10 {
        law_decimal(n / 10);
        assert(decimal(n)[0] == decimal(n / 10)[0]);
    }
}

/// In a text of ASCII characters, each capital letter becomes the small letter 32
/// places behind it, and all others stay.
pub proof fn law_small_letters(s: Seq<char>, i: int)
    requires
        forall|k: int| 0 <= k < s.len() ==> (#[trigger] s[k] as u32) < 0x80,
        0 <= i < s.len(),
    ensures
        lowered(s).len() == s.len(),
        65 <= s[i] as u32 <= 90 ==> lowered(s)[i] as u32 == s[i] as u32 + 32,
        !(65 <= s[i] as u32 <= 90) ==> lowered(s)[i] == s[i],
{
    assert(is_ascii_text(s));
}

/// Texts are ordered by the first character in which they differ, and a text stands
/// before those that go on behind it.
pub proof fn law_alphabetical(p: Seq<char>, a: char, x: Seq<char>, b: char, y: Seq<char>)
    requires
        a < b,
    ensures
        precedes(p + seq![a] + x, p + seq![b] + y),
        !precedes(p + seq![b] + y, p + seq![a] + x),
        precedes(p, p + x),
        x.len() > 0 ==> !precedes(p + x, p),
    decreases p.len(),
{
    let s = p + seq![a] + x;
    let t = p + seq![b] + y;
    let u = p + x;
    if p.len() > 0 {
        law_alphabetical(p.skip(1), a, x, b, y);
        assert(s.skip(1) =~= p.skip(1) + seq![a] + x);
        assert(t.skip(1) =~= p.skip(1) + seq![b] + y);
        assert(u.skip(1) =~= p.skip(1) + x);
        assert(s[0] == p[0] && t[0] == p[0]);
        assert(u[0] == p[0]);
    } else {
        assert(s[0] == a && t[0] == b);
    }
    lemma_precedes_total(s, t);
}

/// In a list that is in order, no text stands before one that precedes it, unless they
/// are the same.
pub proof fn law_order(s: Seq<Seq<char>>, i: int, j: int)
    requires
        in_order(s),
        0 <= i < j < s.len(),
    ensures
        precedes(s[i], s[j]),
        precedes(s[j], s[i]) ==> s[i] == s[j],
{
    lemma_precedes_total(s[i], s[j]);
}

/// A list in which every text precedes the ones behind it is in order.
pub proof fn law_what_is_in_order(s: Seq<Seq<char>>)
    requires
        forall|i: int, j: int| 0 <= i < j < s.len() ==> precedes(#[trigger] s[i], #[trigger] s[j]),
    ensures
        in_order(s),
{
}

} // verus!
