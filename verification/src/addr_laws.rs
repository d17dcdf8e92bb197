//! Properties of addresses in text.

use vstd::prelude::*;

use crate::addr::IpAddr;
use crate::addr_text::double_at;
use crate::addr_text::group_of;
use crate::addr_text::groups_of;
use crate::addr_text::hex_digit;
use crate::addr_text::hex_value;
use crate::addr_text::ip_of;
use crate::addr_text::ipv4_of;
use crate::addr_text::ipv6_groups;
use crate::addr_text::octet_of;
use crate::addr_text::side_of;
use crate::text::decimal;
use crate::text::is_digit;
use crate::text::law_decimal_reads_back;
use crate::text::lemma_decimal;
use crate::text::lemma_split_alone;
use crate::text::lemma_split_at;
use crate::text::lemma_split_keeps;
use crate::text::split_parts;

verus! {

/// Four octets in decimal, with periods between them.
pub open spec fn dotted(a: u8, b: u8, c: u8, d: u8) -> Seq<char> {
    decimal(a as nat) + seq!['.'] + (decimal(b as nat) + seq!['.'] + (decimal(c as nat) + seq!['.']
        + decimal(d as nat)))
}

/// An octet in decimal is read as that octet.
proof fn lemma_octet(a: u8)
    ensures
        octet_of(decimal(a as nat)) == Some(a as nat),
        !decimal(a as nat).contains('.'),
{
    let s = decimal(a as nat);
    reveal_with_fuel(decimal, 4);
    lemma_decimal(a as nat);
    law_decimal_reads_back(a as nat, 255);
    assert(is_digit(s[0]));
    assert forall|i: int| 0 <= i < s.len() implies s[i] != '.' by {
        assert(is_digit(s[i]));
    }
}

/// An IPv4 address in dotted form is read as that address.
pub proof fn law_dotted_reads_back(a: u8, b: u8, c: u8, d: u8)
    ensures
        ip_of(dotted(a, b, c, d)) == Some(
            IpAddr::V4((a * 0x100_0000 + b * 0x1_0000 + c * 0x100 + d) as u32),
        ),
        ipv4_of(dotted(a, b, c, d)) is Some,
{
    lemma_octet(a);
    lemma_octet(b);
    lemma_octet(c);
    lemma_octet(d);
    let s3 = decimal(d as nat);
    let s2 = decimal(c as nat) + seq!['.'] + s3;
    let s1 = decimal(b as nat) + seq!['.'] + s2;
    lemma_split_alone(s3, '.');
    lemma_split_at(decimal(c as nat), '.', s3);
    lemma_split_at(decimal(b as nat), '.', s2);
    lemma_split_at(decimal(a as nat), '.', s1);
    assert(split_parts(dotted(a, b, c, d), '.') =~= seq![
        decimal(a as nat),
        decimal(b as nat),
        decimal(c as nat),
        decimal(d as nat),
    ]);
}

/// Whether a character can stand in an address.
pub open spec fn is_address_char(c: char) -> bool {
    hex_digit(c) is Some || c == ':' || c == '.'
}

/// An IPv4 address is made of digits and periods.
pub proof fn lemma_ipv4_chars(s: Seq<char>)
    requires
        ipv4_of(s) is Some,
    ensures
        forall|i: int| 0 <= i < s.len() ==> is_digit(#[trigger] s[i]) || s[i] == '.',
{
    let parts = split_parts(s, '.');
    assert forall|i: int| 0 <= i < s.len() implies is_digit(#[trigger] s[i]) || s[i] == '.' by {
        if s[i] != '.' {
            lemma_split_keeps(s, '.', i);
            let k = choose|k: int| 0 <= k < parts.len() && (#[trigger] parts[k]).contains(s[i]);
            assert(octet_of(parts[k]) is Some);
            let j = choose|j: int| 0 <= j < parts[k].len() && parts[k][j] == s[i];
            assert(is_digit(parts[k][j]));
        }
    }
}

/// A hexadecimal number is made of hexadecimal digits.
proof fn lemma_hex_chars(s: Seq<char>)
    requires
        hex_value(s) is Some,
    ensures
        forall|i: int| 0 <= i < s.len() ==> hex_digit(#[trigger] s[i]) is Some,
    decreases s.len(),
{
    if s.len() > 0 {
        lemma_hex_chars(s.drop_last());
        assert forall|i: int| 0 <= i < s.len() implies hex_digit(#[trigger] s[i]) is Some by {
            if i < s.len() - 1 {
                assert(s[i] == s.drop_last()[i]);
            }
        }
    }
}

/// Groups are made of the characters of addresses.
proof fn lemma_group_chars(parts: Seq<Seq<char>>, embedded: bool, k: int, i: int)
    requires
        groups_of(parts, embedded) is Some,
        0 <= k < parts.len(),
        0 <= i < parts[k].len(),
    ensures
        is_address_char(parts[k][i]),
    decreases parts.len(),
{
    if k == parts.len() - 1 {
        if group_of(parts[k]) is Some {
            lemma_hex_chars(parts[k]);
        } else {
            lemma_ipv4_chars(parts[k]);
        }
    } else {
        assert(parts.drop_last()[k] == parts[k]);
        lemma_group_chars(parts.drop_last(), false, k, i);
    }
}

/// What stands beside a double colon is made of the characters of addresses.
proof fn lemma_side_chars(s: Seq<char>, embedded: bool)
    requires
        side_of(s, embedded) is Some,
    ensures
        forall|i: int| 0 <= i < s.len() ==> is_address_char(#[trigger] s[i]),
{
    let parts = split_parts(s, ':');
    assert forall|i: int| 0 <= i < s.len() implies is_address_char(#[trigger] s[i]) by {
        if s[i] != ':' {
            lemma_split_keeps(s, ':', i);
            let k = choose|k: int| 0 <= k < parts.len() && (#[trigger] parts[k]).contains(s[i]);
            let j = choose|j: int| 0 <= j < parts[k].len() && parts[k][j] == s[i];
            lemma_group_chars(parts, embedded, k, j);
        }
    }
}

/// A double colon is two colons.
proof fn lemma_double_at(s: Seq<char>)
    requires
        double_at(s) < s.len(),
    ensures
        double_at(s) + 2 <= s.len(),
        s[double_at(s) as int] == ':',
        s[double_at(s) as int + 1] == ':',
    decreases s.len(),
{
    if !(s[0] == ':' && s[1] == ':') {
        lemma_double_at(s.skip(1));
    }
}

/// An IPv6 address is made of the characters of addresses.
pub proof fn lemma_ipv6_chars(s: Seq<char>)
    requires
        ipv6_groups(s) is Some,
    ensures
        forall|i: int| 0 <= i < s.len() ==> is_address_char(#[trigger] s[i]),
{
    let at = double_at(s) as int;
    if at < s.len() {
        lemma_double_at(s);
        lemma_side_chars(s.take(at), false);
        lemma_side_chars(s.skip(at + 2), true);
        assert forall|i: int| 0 <= i < s.len() implies is_address_char(#[trigger] s[i]) by {
            if i < at {
                assert(s[i] == s.take(at)[i]);
            } else if i >= at + 2 {
                assert(s[i] == s.skip(at + 2)[i - at - 2]);
            }
        }
    } else {
        lemma_side_chars(s, true);
    }
}

} // verus!
