//! Which texts are IP addresses, and of which numbers.

use vstd::prelude::*;

use crate::addr::IpAddr;
use crate::addr_laws::dotted;
use crate::addr_laws::law_dotted_reads_back;
use crate::addr_laws::lemma_ipv4_chars;
use crate::addr_text::double_at;
use crate::addr_text::group_of;
use crate::addr_text::groups_of;
use crate::addr_text::groups_value;
use crate::addr_text::hex_digit;
use crate::addr_text::hex_value;
use crate::addr_text::ip_of;
use crate::addr_text::ipv4_of;
use crate::addr_text::octet_of;
use crate::addr_text::side_of;
use crate::text::decimal;
use crate::text::digit_char;
use crate::text::digits_value;
use crate::text::is_digit;
use crate::text::split_parts;
use crate::text_laws::law_join_undoes_split;
use crate::text_laws::law_split_undoes_join;
use crate::text_laws::rejoined;

verus! {

/// Digits without a leading zero are those of their number.
proof fn lemma_digits_are_decimal(s: Seq<char>)
    requires
        s.len() > 0,
        forall|i: int| 0 <= i < s.len() ==> is_digit(#[trigger] s[i]),
        s[0] != '0' || s.len() == 1,
    ensures
        decimal(digits_value(s)) == s,
        s[0] != '0' ==> digits_value(s) > 0,
    decreases s.len(),
{
    let t = s.drop_last();
    let d = (s.last() as u32 - '0' as u32) as nat;
    assert(is_digit(s.last()));
    assert(digit_char(d) == s.last());
    if s.len() == 1 {
        assert(t =~= Seq::empty());
        assert(digits_value(t) == 0);
        assert(seq![s[0]] =~= s);
    } else {
        assert forall|i: int| 0 <= i < t.len() implies is_digit(#[trigger] t[i]) by {
            assert(t[i] == s[i]);
        }
        lemma_digits_are_decimal(t);
        let v = digits_value(t);
        assert((v * 10 + d) / 10 == v && (v * 10 + d) % 10 == d);
        assert(t.push(s.last()) =~= s);
    }
}

/// The texts of IPv4 addresses are those with four octets in decimal between periods,
/// and no others.
pub proof fn law_ipv4_texts(s: Seq<char>)
    ensures
        ip_of(s) matches Some(IpAddr::V4(x)) ==> exists|a: u8, b: u8, c: u8, d: u8|
            s == #[trigger] dotted(a, b, c, d) && x == a * 0x100_0000 + b * 0x1_0000 + c * 0x100
                + d,
        forall|a: u8, b: u8, c: u8, d: u8|
            s == #[trigger] dotted(a, b, c, d) ==> ip_of(s) == Some(
                IpAddr::V4((a * 0x100_0000 + b * 0x1_0000 + c * 0x100 + d) as u32),
            ),
{
    assert forall|a: u8, b: u8, c: u8, d: u8| s == #[trigger] dotted(a, b, c, d) implies ip_of(s)
        == Some(IpAddr::V4((a * 0x100_0000 + b * 0x1_0000 + c * 0x100 + d) as u32)) by {
        law_dotted_reads_back(a, b, c, d);
    }
    if let Some(IpAddr::V4(x)) = ip_of(s) {
        let p = split_parts(s, '.');
        law_join_undoes_split(s, '.');
        lemma_octet_is_decimal(p[0]);
        lemma_octet_is_decimal(p[1]);
        lemma_octet_is_decimal(p[2]);
        lemma_octet_is_decimal(p[3]);
        let a = octet_of(p[0])->0 as u8;
        let b = octet_of(p[1])->0 as u8;
        let c = octet_of(p[2])->0 as u8;
        let d = octet_of(p[3])->0 as u8;
        assert(rejoined(p, '.') =~= dotted(a, b, c, d)) by {
            assert(p.skip(1).skip(1) =~= p.skip(2));
            assert(p.skip(2).skip(1) =~= p.skip(3));
            assert(rejoined(p.skip(3), '.') == p[3]);
            assert(rejoined(p.skip(2), '.') == p[2] + seq!['.'] + rejoined(p.skip(3), '.'));
            assert(rejoined(p.skip(1), '.') == p[1] + seq!['.'] + rejoined(p.skip(2), '.'));
        }
        assert(s == dotted(a, b, c, d));
    }
}

proof fn lemma_octet_is_decimal(s: Seq<char>)
    requires
        octet_of(s) is Some,
    ensures
        octet_of(s)->0 <= 255,
        s == decimal(octet_of(s)->0),
{
    lemma_digits_are_decimal(s);
}

/// The sixteen digits, in small letters or capital ones.
pub proof fn law_hexadecimal_digits(c: char)
    ensures
        48 <= c as u32 <= 57 ==> hex_digit(c) == Some((c as u32 - 48) as nat),
        97 <= c as u32 <= 102 ==> hex_digit(c) == Some((c as u32 - 87) as nat),
        65 <= c as u32 <= 70 ==> hex_digit(c) == Some((c as u32 - 55) as nat),
        hex_digit(c) is Some <==> 48 <= c as u32 <= 57 || 97 <= c as u32 <= 102 || 65 <= c as u32
            <= 70,
{
}

/// A group is one to four hexadecimal digits, whose value is by their places.
pub proof fn law_groups(s: Seq<char>)
    ensures
        group_of(s) is Some <==> 1 <= s.len() <= 4 && forall|i: int|
            0 <= i < s.len() ==> hex_digit(#[trigger] s[i]) is Some,
        group_of(s) matches Some(g) ==> ({
            let d = |i: int| hex_digit(s[i])->0;
            &&& s.len() == 1 ==> g == d(0)
            &&& s.len() == 2 ==> g == d(0) * 16 + d(1)
            &&& s.len() == 3 ==> g == d(0) * 256 + d(1) * 16 + d(2)
            &&& s.len() == 4 ==> g == d(0) * 4096 + d(1) * 256 + d(2) * 16 + d(3)
        }),
{
    lemma_hex_all(s);
    if group_of(s) is Some {
        reveal_with_fuel(hex_value, 5);
        let t = s.drop_last();
        assert(s.len() > 1 ==> t.last() == s[s.len() - 2]);
        assert(s.len() > 2 ==> t.drop_last().last() == s[s.len() - 3]);
        assert(s.len() > 3 ==> t.drop_last().drop_last().last() == s[s.len() - 4]);
    }
}

proof fn lemma_hex_all(s: Seq<char>)
    ensures
        hex_value(s) is Some <==> forall|i: int|
            0 <= i < s.len() ==> hex_digit(#[trigger] s[i]) is Some,
    decreases s.len(),
{
    if s.len() > 0 {
        let t = s.drop_last();
        lemma_hex_all(t);
        if hex_value(s) is Some {
            assert forall|i: int| 0 <= i < s.len() implies hex_digit(#[trigger] s[i]) is Some by {
                if i < t.len() {
                    assert(t[i] == s[i]);
                }
            }
        }
        if forall|i: int| 0 <= i < s.len() ==> hex_digit(#[trigger] s[i]) is Some {
            assert forall|i: int| 0 <= i < t.len() implies hex_digit(#[trigger] t[i]) is Some by {
                assert(t[i] == s[i]);
            }
            assert(hex_digit(s[s.len() - 1]) is Some);
        }
    }
}

/// The number of an IPv6 address weighs its groups by their places.
pub proof fn law_groups_by_place(
    a: nat,
    b: nat,
    c: nat,
    d: nat,
    e: nat,
    f: nat,
    g: nat,
    h: nat,
)
    ensures
        groups_value(seq![a, b, c, d, e, f, g, h]) == a * 0x1_0000_0000_0000_0000_0000_0000_0000
            + b * 0x1_0000_0000_0000_0000_0000_0000 + c * 0x1_0000_0000_0000_0000_0000 + d
            * 0x1_0000_0000_0000_0000 + e * 0x1_0000_0000_0000 + f * 0x1_0000_0000 + g * 0x1_0000
            + h,
{
    let s = seq![a, b, c, d, e, f, g, h];
    reveal_with_fuel(groups_value, 2);
    assert(s.drop_last() =~= seq![a, b, c, d, e, f, g]);
    assert(seq![a, b, c, d, e, f, g].drop_last() =~= seq![a, b, c, d, e, f]);
    assert(seq![a, b, c, d, e, f].drop_last() =~= seq![a, b, c, d, e]);
    assert(seq![a, b, c, d, e].drop_last() =~= seq![a, b, c, d]);
    assert(seq![a, b, c, d].drop_last() =~= seq![a, b, c]);
    assert(seq![a, b, c].drop_last() =~= seq![a, b]);
    assert(seq![a, b].drop_last() =~= seq![a]);
    assert(seq![a].drop_last() =~= Seq::empty());
    assert(groups_value(seq![a]) == a);
    assert(groups_value(seq![a, b]) == a * 0x1_0000 + b);
    assert(groups_value(seq![a, b, c]) == a * 0x1_0000_0000 + b * 0x1_0000 + c);
    assert(groups_value(seq![a, b, c, d]) == groups_value(seq![a, b, c]) * 0x1_0000 + d);
    assert(groups_value(seq![a, b, c, d, e]) == groups_value(seq![a, b, c, d]) * 0x1_0000 + e);
    assert(groups_value(seq![a, b, c, d, e, f]) == groups_value(seq![a, b, c, d, e]) * 0x1_0000
        + f);
    assert(groups_value(seq![a, b, c, d, e, f, g]) == groups_value(seq![a, b, c, d, e, f])
        * 0x1_0000 + g);
    assert(groups_value(s) == groups_value(seq![a, b, c, d, e, f, g]) * 0x1_0000 + h);
}

/// Whether each part is a group.
pub open spec fn are_groups(parts: Seq<Seq<char>>) -> bool {
    forall|i: int| 0 <= i < parts.len() ==> group_of(#[trigger] parts[i]) is Some
}

/// The numbers of groups.
pub open spec fn group_numbers(parts: Seq<Seq<char>>) -> Seq<nat> {
    parts.map_values(|p: Seq<char>| group_of(p)->0)
}

/// Whether no part is empty or holds a colon.
pub open spec fn are_parts(parts: Seq<Seq<char>>) -> bool {
    forall|i: int|
        0 <= i < parts.len() ==> (#[trigger] parts[i]).len() > 0 && !parts[i].contains(':')
}

proof fn lemma_group_is_part(p: Seq<char>)
    requires
        group_of(p) is Some,
    ensures
        p.len() > 0,
        !p.contains(':'),
{
    law_groups(p);
    assert forall|i: int| 0 <= i < p.len() implies p[i] != ':' by {
        assert(hex_digit(p[i]) is Some);
    }
}

proof fn lemma_groups_of(parts: Seq<Seq<char>>, embedded: bool)
    requires
        are_groups(parts),
    ensures
        groups_of(parts, embedded) == Some(group_numbers(parts)),
    decreases parts.len(),
{
    if parts.len() > 0 {
        let t = parts.drop_last();
        assert forall|i: int| 0 <= i < t.len() implies group_of(#[trigger] t[i]) is Some by {
            assert(t[i] == parts[i]);
        }
        lemma_groups_of(t, false);
        assert(group_of(parts[parts.len() - 1]) is Some);
        assert(group_numbers(parts) =~= group_numbers(t).push(group_of(parts.last())->0));
    } else {
        assert(group_numbers(parts) =~= Seq::empty());
    }
}

/// Parts joined by colons begin and end with no colon and hold no double colon.
proof fn lemma_no_double_in_join(parts: Seq<Seq<char>>)
    requires
        parts.len() > 0,
        are_parts(parts),
    ensures
        ({
            let s = rejoined(parts, ':');
            &&& s.len() > 0
            &&& s[0] != ':'
            &&& s.last() != ':'
            &&& forall|i: int| 0 <= i < s.len() - 1 ==> !(#[trigger] s[i] == ':' && s[i + 1] == ':')
        }),
    decreases parts.len(),
{
    let s = rejoined(parts, ':');
    let p = parts[0];
    assert(p.len() > 0 && !p.contains(':'));
    if parts.len() > 1 {
        let rest = parts.skip(1);
        assert forall|i: int| 0 <= i < rest.len() implies (#[trigger] rest[i]).len() > 0
            && !rest[i].contains(':') by {
            assert(rest[i] == parts[i + 1]);
        }
        lemma_no_double_in_join(rest);
        let r = rejoined(rest, ':');
        let n = p.len() as int;
        assert(s == p + seq![':'] + r);
        assert(s.last() == r.last());
        assert forall|i: int| 0 <= i < s.len() - 1 implies !(#[trigger] s[i] == ':' && s[i + 1]
            == ':') by {
            if i < n {
                assert(s[i] == p[i]);
                assert(p.contains(p[i]));
            } else if i == n {
                assert(s[i + 1] == r[0]);
            } else {
                assert(s[i] == r[i - n - 1] && s[i + 1] == r[i - n]);
            }
        }
        assert(p.contains(p[0]));
    } else {
        assert(p.contains(p[0]) && p.contains(p.last()));
        assert forall|i: int| 0 <= i < s.len() - 1 implies !(#[trigger] s[i] == ':' && s[i + 1]
            == ':') by {
            assert(p.contains(p[i]));
        }
    }
}

proof fn lemma_double_none(s: Seq<char>)
    requires
        forall|i: int| 0 <= i < s.len() - 1 ==> !(#[trigger] s[i] == ':' && s[i + 1] == ':'),
    ensures
        double_at(s) >= s.len(),
    decreases s.len(),
{
    if s.len() >= 2 {
        assert(!(s[0] == ':' && s[1] == ':'));
        let t = s.skip(1);
        assert forall|i: int| 0 <= i < t.len() - 1 implies !(#[trigger] t[i] == ':' && t[i + 1]
            == ':') by {
            assert(t[i] == s[i + 1] && t[i + 1] == s[i + 2]);
        }
        lemma_double_none(t);
    }
}

proof fn lemma_double_found(a: Seq<char>, b: Seq<char>)
    requires
        forall|i: int| 0 <= i < a.len() - 1 ==> !(#[trigger] a[i] == ':' && a[i + 1] == ':'),
        a.len() > 0 ==> a.last() != ':',
    ensures
        double_at(a + seq![':', ':'] + b) == a.len(),
    decreases a.len(),
{
    let s = a + seq![':', ':'] + b;
    if a.len() > 0 {
        if a.len() > 1 {
            assert(!(a[0] == ':' && a[1] == ':'));
            assert(s[0] == a[0] && s[1] == a[1]);
        } else {
            assert(s[0] == a[0]);
        }
        let t = a.skip(1);
        assert forall|i: int| 0 <= i < t.len() - 1 implies !(#[trigger] t[i] == ':' && t[i + 1]
            == ':') by {
            assert(t[i] == a[i + 1] && t[i + 1] == a[i + 2]);
        }
        lemma_double_found(t, b);
        assert(s.skip(1) =~= t + seq![':', ':'] + b);
    } else {
        assert(s[0] == ':' && s[1] == ':');
    }
}

/// A text with a colon is no IPv4 address.
proof fn lemma_colon_is_not_ipv4(s: Seq<char>, i: int)
    requires
        0 <= i < s.len(),
        s[i] == ':',
    ensures
        ipv4_of(s) is None,
{
    if ipv4_of(s) is Some {
        lemma_ipv4_chars(s);
        assert(is_digit(s[i]) || s[i] == '.');
    }
}

/// Groups between colons are an IPv6 address if and only if there are eight of them,
/// whose number then weighs each by its place.
pub proof fn law_ipv6_in_full(parts: Seq<Seq<char>>)
    requires
        are_groups(parts),
        parts.len() >= 2,
    ensures
        parts.len() == 8 ==> ip_of(rejoined(parts, ':')) == Some(
            IpAddr::V6(groups_value(group_numbers(parts)) as u128),
        ),
        parts.len() != 8 ==> ip_of(rejoined(parts, ':')) is None,
{
    assert forall|i: int| 0 <= i < parts.len() implies (#[trigger] parts[i]).len() > 0
        && !parts[i].contains(':') by {
        lemma_group_is_part(parts[i]);
    }
    let s = rejoined(parts, ':');
    lemma_no_double_in_join(parts);
    lemma_double_none(s);
    law_split_undoes_join(parts, ':');
    lemma_groups_of(parts, true);
    assert(s[parts[0].len() as int] == ':');
    lemma_colon_is_not_ipv4(s, parts[0].len() as int);
}

/// Groups joined by colons, where there may be none.
pub open spec fn side_text(parts: Seq<Seq<char>>) -> Seq<char> {
    rejoined(parts, ':')
}

proof fn lemma_side(parts: Seq<Seq<char>>, embedded: bool)
    requires
        are_groups(parts),
    ensures
        side_of(side_text(parts), embedded) == Some(group_numbers(parts)),
        ({
            let s = side_text(parts);
            &&& s.len() > 0 ==> s.last() != ':'
            &&& forall|i: int| 0 <= i < s.len() - 1 ==> !(#[trigger] s[i] == ':' && s[i + 1] == ':')
        }),
{
    if parts.len() > 0 {
        assert forall|i: int| 0 <= i < parts.len() implies (#[trigger] parts[i]).len() > 0
            && !parts[i].contains(':') by {
            lemma_group_is_part(parts[i]);
        }
        lemma_no_double_in_join(parts);
        law_split_undoes_join(parts, ':');
        lemma_groups_of(parts, embedded);
    } else {
        assert(group_numbers(parts) =~= Seq::empty());
    }
}

/// A double colon between groups stands for as many groups of zero as are missing
/// from eight, of which there must be one at least.
pub proof fn law_ipv6_in_short(a: Seq<Seq<char>>, b: Seq<Seq<char>>)
    requires
        are_groups(a),
        are_groups(b),
    ensures
        ({
            let s = side_text(a) + seq![':', ':'] + side_text(b);
            &&& a.len() + b.len() <= 7 ==> ip_of(s) == Some(
                IpAddr::V6(
                    groups_value(
                        group_numbers(a) + Seq::new(
                            (8 - a.len() - b.len()) as nat,
                            |i: int| 0nat,
                        ) + group_numbers(b),
                    ) as u128,
                ),
            )
            &&& a.len() + b.len() > 7 ==> ip_of(s) is None
        }),
{
    let left = side_text(a);
    let right = side_text(b);
    let s = left + seq![':', ':'] + right;
    lemma_side(a, false);
    lemma_side(b, true);
    lemma_double_found(left, right);
    assert(s.take(left.len() as int) =~= left);
    assert(s.skip(left.len() as int + 2) =~= right);
    assert(s[left.len() as int] == ':');
    lemma_colon_is_not_ipv4(s, left.len() as int);
}

/// An IPv4 address at the end of an IPv6 address stands for its last two groups.
pub proof fn law_ipv4_at_the_end(parts: Seq<Seq<char>>, v4: Seq<char>, x: u32)
    requires
        are_groups(parts),
        parts.len() == 6,
        ip_of(v4) == Some(IpAddr::V4(x)),
    ensures
        ip_of(rejoined(parts.push(v4), ':')) == Some(
            IpAddr::V6(
                groups_value(
                    group_numbers(parts).push((x / 0x1_0000) as nat).push((x % 0x1_0000) as nat),
                ) as u128,
            ),
        ),
{
    let all = parts.push(v4);
    let s = rejoined(all, ':');
    lemma_ipv4_chars(v4);
    assert(ipv4_of(v4) == Some(x as nat)) by {
        law_ipv4_texts(v4);
        let (a, b, c, d) = choose|a: u8, b: u8, c: u8, d: u8|
            v4 == #[trigger] dotted(a, b, c, d) && x == a * 0x100_0000 + b * 0x1_0000 + c * 0x100
                + d;
        lemma_dotted_value(a, b, c, d);
    }
    assert(v4.len() > 4) by {
        law_join_undoes_split(v4, '.');
        lemma_ipv4_is_long(v4);
    }
    assert forall|i: int| 0 <= i < all.len() implies (#[trigger] all[i]).len() > 0
        && !all[i].contains(':') by {
        if i < 6 {
            assert(all[i] == parts[i]);
            lemma_group_is_part(parts[i]);
        } else {
            assert forall|k: int| 0 <= k < v4.len() implies v4[k] != ':' by {
                assert(is_digit(v4[k]) || v4[k] == '.');
            }
        }
    }
    lemma_no_double_in_join(all);
    lemma_double_none(s);
    law_split_undoes_join(all, ':');
    lemma_groups_of(parts, false);
    assert(all.drop_last() =~= parts);
    assert(all.last() == v4);
    assert(group_of(v4) is None);
    assert(s[all[0].len() as int] == ':');
    lemma_colon_is_not_ipv4(s, all[0].len() as int);
}

proof fn lemma_dotted_value(a: u8, b: u8, c: u8, d: u8)
    ensures
        ipv4_of(dotted(a, b, c, d)) == Some(
            (a * 0x100_0000 + b * 0x1_0000 + c * 0x100 + d) as nat,
        ),
{
    law_dotted_reads_back(a, b, c, d);
    let s = dotted(a, b, c, d);
    let p = split_parts(s, '.');
    lemma_octet_is_decimal(p[0]);
    lemma_octet_is_decimal(p[1]);
    lemma_octet_is_decimal(p[2]);
    lemma_octet_is_decimal(p[3]);
}

/// Four octets and three periods have more than four characters.
proof fn lemma_ipv4_is_long(s: Seq<char>)
    requires
        ipv4_of(s) is Some,
    ensures
        s.len() > 4,
{
    let p = split_parts(s, '.');
    law_join_undoes_split(s, '.');
    assert(p[0].len() > 0 && p[1].len() > 0 && p[2].len() > 0 && p[3].len() > 0);
    assert(p.skip(1).skip(1) =~= p.skip(2));
    assert(p.skip(2).skip(1) =~= p.skip(3));
    assert(rejoined(p.skip(3), '.') == p[3]);
    assert(rejoined(p.skip(2), '.') == p[2] + seq!['.'] + rejoined(p.skip(3), '.'));
    assert(rejoined(p.skip(1), '.') == p[1] + seq!['.'] + rejoined(p.skip(2), '.'));
}

/// Where a part is neither a group nor an IPv4 address at the end, the whole is no
/// address.
pub proof fn law_other_parts_are_refused(parts: Seq<Seq<char>>, k: int)
    requires
        are_parts(parts),
        0 <= k < parts.len(),
        group_of(parts[k]) is None,
        k == parts.len() - 1 ==> ipv4_of(parts[k]) is None,
        parts.len() >= 2,
    ensures
        ip_of(rejoined(parts, ':')) is None,
{
    let s = rejoined(parts, ':');
    lemma_no_double_in_join(parts);
    lemma_double_none(s);
    law_split_undoes_join(parts, ':');
    lemma_bad_part(parts, k, true);
    assert(s[parts[0].len() as int] == ':');
    lemma_colon_is_not_ipv4(s, parts[0].len() as int);
}

proof fn lemma_bad_part(parts: Seq<Seq<char>>, k: int, embedded: bool)
    requires
        0 <= k < parts.len(),
        group_of(parts[k]) is None,
        k == parts.len() - 1 && embedded ==> ipv4_of(parts[k]) is None,
    ensures
        groups_of(parts, embedded) is None,
    decreases parts.len(),
{
    if k < parts.len() - 1 {
        assert(parts.drop_last()[k] == parts[k]);
        lemma_bad_part(parts.drop_last(), k, false);
    }
}

} // verus!
