//! IP addresses in their textual forms.

use vstd::prelude::*;
use vstd::string::StrSliceExecFns;

use crate::addr::IpAddr;
use crate::text::chars_of;
use crate::text::parse_number;
use crate::text::parsed_number;
use crate::text::split_parts;
use crate::text::split_text;
use crate::text::texts;

verus! {

/// The number that a decimal octet denotes: up to three digits, without a
/// leading zero, of at most 255.
pub open spec fn octet_of(s: Seq<char>) -> Option<nat> {
    if s.len() > 3 || s.len() == 0 || s[0] == '+' || (s[0] == '0' && s.len() > 1) {
        None
    } else {
        parsed_number(s, 255)
    }
}

/// The number that an IPv4 address in dotted form denotes: four octets between
/// periods.
pub open spec fn ipv4_of(s: Seq<char>) -> Option<nat> {
    let parts = split_parts(s, '.');
    if parts.len() == 4 && octet_of(parts[0]) is Some && octet_of(parts[1]) is Some && octet_of(
        parts[2],
    ) is Some && octet_of(parts[3]) is Some {
        Some(
            octet_of(parts[0])->0 * 0x100_0000 + octet_of(parts[1])->0 * 0x1_0000 + octet_of(
                parts[2],
            )->0 * 0x100 + octet_of(parts[3])->0,
        )
    } else {
        None
    }
}

/// The number that a hexadecimal digit denotes.
pub open spec fn hex_digit(c: char) -> Option<nat> {
    if '0' <= c <= '9' {
        Some((c as u32 - '0' as u32) as nat)
    } else if 'a' <= c <= 'f' {
        Some((c as u32 - 'a' as u32 + 10) as nat)
    } else if 'A' <= c <= 'F' {
        Some((c as u32 - 'A' as u32 + 10) as nat)
    } else {
        None
    }
}

/// The number that hexadecimal digits denote.
pub open spec fn hex_value(s: Seq<char>) -> Option<nat>
    decreases s.len(),
{
    if s.len() == 0 {
        Some(0)
    } else {
        match (hex_value(s.drop_last()), hex_digit(s.last())) {
            (Some(high), Some(low)) => Some(high * 16 + low),
            _ => None,
        }
    }
}

/// The number that a group of an IPv6 address denotes: one to four hexadecimal
/// digits.
pub open spec fn group_of(s: Seq<char>) -> Option<nat> {
    if 1 <= s.len() <= 4 {
        hex_value(s)
    } else {
        None
    }
}

/// The numbers that a run of groups denotes. Where `embedded` holds, the last
/// part may be an IPv4 address, which stands for two groups.
pub open spec fn groups_of(parts: Seq<Seq<char>>, embedded: bool) -> Option<Seq<nat>>
    decreases parts.len(),
{
    if parts.len() == 0 {
        Some(Seq::empty())
    } else {
        match (groups_of(parts.drop_last(), false), group_of(parts.last())) {
            (Some(g), Some(x)) => Some(g.push(x)),
            (Some(g), None) => match ipv4_of(parts.last()) {
                Some(x) if embedded => Some(g.push(x / 0x1_0000).push(x % 0x1_0000)),
                _ => None,
            },
            (None, _) => None,
        }
    }
}

/// The numbers that the groups on one side of a double colon denote. There may
/// be none.
pub open spec fn side_of(s: Seq<char>, embedded: bool) -> Option<Seq<nat>> {
    if s.len() == 0 {
        Some(Seq::empty())
    } else {
        groups_of(split_parts(s, ':'), embedded)
    }
}

/// Where the first double colon of a text stands; its length or more, where
/// there is none.
pub open spec fn double_at(s: Seq<char>) -> nat
    decreases s.len(),
{
    if s.len() < 2 {
        2
    } else if s[0] == ':' && s[1] == ':' {
        0
    } else {
        1 + double_at(s.skip(1))
    }
}

/// The eight groups of an IPv6 address. A double colon stands for one or more
/// groups of zero, and an IPv4 address may stand at the end.
pub open spec fn ipv6_groups(s: Seq<char>) -> Option<Seq<nat>> {
    let at = double_at(s) as int;
    if at < s.len() {
        match (side_of(s.take(at), false), side_of(s.skip(at + 2), true)) {
            (Some(a), Some(b)) => if a.len() + b.len() <= 7 {
                Some(a + Seq::new((8 - a.len() - b.len()) as nat, |i: int| 0nat) + b)
            } else {
                None
            },
            _ => None,
        }
    } else {
        match side_of(s, true) {
            Some(g) if g.len() == 8 => Some(g),
            _ => None,
        }
    }
}

/// The number whose groups of sixteen bits are `g`.
pub open spec fn groups_value(g: Seq<nat>) -> nat
    decreases g.len(),
{
    if g.len() == 0 {
        0
    } else {
        groups_value(g.drop_last()) * 0x1_0000 + g.last()
    }
}

/// The address that a text denotes.
pub open spec fn ip_of(s: Seq<char>) -> Option<IpAddr> {
    match ipv4_of(s) {
        Some(x) => Some(IpAddr::V4(x as u32)),
        None => match ipv6_groups(s) {
            Some(g) => Some(IpAddr::V6(groups_value(g) as u128)),
            None => None,
        },
    }
}

/// Reads a decimal octet.
fn read_octet(s: &str) -> (r: Option<u8>)
    ensures
        match r {
            Some(x) => octet_of(s@) == Some(x as nat),
            None => octet_of(s@) is None,
        },
{
    let v = chars_of(s);
    if v.len() > 3 || v.len() == 0 {
        return None;
    }
    if v[0] == '+' || (v[0] == '0' && v.len() > 1) {
        return None;
    }
    match parse_number(s, 255) {
        Some(x) => Some(x as u8),
        None => None,
    }
}

/// Reads an IPv4 address.
fn read_ipv4(s: &str) -> (r: Option<u32>)
    ensures
        match r {
            Some(x) => ipv4_of(s@) == Some(x as nat),
            None => ipv4_of(s@) is None,
        },
{
    let parts = split_text(s, '.');
    let ghost p = split_parts(s@, '.');
    if parts.len() != 4 {
        assert(texts(parts@).len() == parts@.len());
        return None;
    }
    assert(p[0] == parts@[0]@ && p[1] == parts@[1]@ && p[2] == parts@[2]@ && p[3] == parts@[3]@);
    let a = read_octet(parts[0].as_str());
    let b = read_octet(parts[1].as_str());
    let c = read_octet(parts[2].as_str());
    let d = read_octet(parts[3].as_str());
    match (a, b, c, d) {
        (Some(a), Some(b), Some(c), Some(d)) => {
            Some(a as u32 * 0x100_0000 + b as u32 * 0x1_0000 + c as u32 * 0x100 + d as u32)
        },
        _ => None,
    }
}

/// Reads a hexadecimal digit.
fn read_hex_digit(c: char) -> (r: Option<u16>)
    ensures
        match r {
            Some(x) => hex_digit(c) == Some(x as nat) && x < 16,
            None => hex_digit(c) is None,
        },
{
    if c >= '0' && c <= '9' {
        Some((c as u32 - '0' as u32) as u16)
    } else if c >= 'a' && c <= 'f' {
        Some((c as u32 - 'a' as u32 + 10) as u16)
    } else if c >= 'A' && c <= 'F' {
        Some((c as u32 - 'A' as u32 + 10) as u16)
    } else {
        None
    }
}

/// Digits behind a character that is none do not make a number.
proof fn lemma_hex_prefix(s: Seq<char>, n: int)
    requires
        0 <= n <= s.len(),
        hex_value(s.take(n)) is None,
    ensures
        hex_value(s) is None,
    decreases s.len() - n,
{
    if n < s.len() {
        assert(s.take(n + 1).drop_last() =~= s.take(n));
        lemma_hex_prefix(s, n + 1);
    } else {
        assert(s.take(n) =~= s);
    }
}

/// Reads a group of an IPv6 address.
fn read_group(s: &str) -> (r: Option<u16>)
    ensures
        match r {
            Some(x) => group_of(s@) == Some(x as nat),
            None => group_of(s@) is None,
        },
{
    let v = chars_of(s);
    if v.len() == 0 || v.len() > 4 {
        return None;
    }
    let mut value: u16 = 0;
    let mut i: usize = 0;
    while i < v.len()
        invariant
            v@ == s@,
            i <= v.len() <= 4,
            hex_value(s@.take(i as int)) == Some(value as nat),
            i == 0 ==> value == 0,
            i <= 1 ==> value < 0x10,
            i <= 2 ==> value < 0x100,
            i <= 3 ==> value < 0x1000,
        decreases v.len() - i,
    {
        proof {
            assert(s@.take(i + 1).drop_last() =~= s@.take(i as int));
        }
        match read_hex_digit(v[i]) {
            Some(x) => {
                value = value * 16 + x;
            },
            None => {
                proof {
                    lemma_hex_prefix(s@, i + 1);
                }
                return None;
            },
        }
        i = i + 1;
    }
    assert(s@.take(s@.len() as int) =~= s@);
    Some(value)
}

/// The numbers in a vector.
pub open spec fn numbers(v: Seq<u16>) -> Seq<nat> {
    v.map_values(|x: u16| x as nat)
}

/// Groups behind a part that is none are none.
proof fn lemma_groups_prefix(parts: Seq<Seq<char>>, n: int, embedded: bool)
    requires
        0 <= n < parts.len(),
        groups_of(parts.take(n), false) is None,
    ensures
        groups_of(parts, embedded) is None,
    decreases parts.len() - n,
{
    let init = parts.drop_last();
    if n == init.len() {
        assert(parts.take(n) =~= init);
    } else {
        assert(init.take(n) =~= parts.take(n));
        lemma_groups_prefix(init, n, false);
    }
}

/// Reads the groups on one side of a double colon.
fn read_side(s: &str, embedded: bool) -> (r: Option<Vec<u16>>)
    ensures
        match r {
            Some(v) => side_of(s@, embedded) == Some(numbers(v@)),
            None => side_of(s@, embedded) is None,
        },
{
    let mut out: Vec<u16> = Vec::new();
    if s.is_empty() {
        assert(numbers(out@) =~= Seq::<nat>::empty());
        return Some(out);
    }
    let parts = split_text(s, ':');
    let ghost p = split_parts(s@, ':');
    assert(texts(parts@).len() == parts@.len());
    let mut i: usize = 0;
    while i < parts.len()
        invariant
            s@.len() > 0,
            p == split_parts(s@, ':'),
            p == texts(parts@),
            p.len() == parts@.len(),
            i <= parts.len(),
            i < parts.len() ==> groups_of(p.take(i as int), false) == Some(numbers(out@)),
            i == parts.len() ==> groups_of(p, embedded) == Some(numbers(out@)),
            parts.len() == 0 ==> out@.len() == 0,
        decreases parts.len() - i,
    {
        let part = parts[i].as_str();
        let last: bool = i + 1 == parts.len();
        let ghost upto = p.take(i + 1);
        let ghost before = numbers(out@);
        proof {
            assert(upto.drop_last() =~= p.take(i as int));
            assert(upto.last() == part@);
            if last {
                assert(upto =~= p);
            }
        }
        match read_group(part) {
            Some(x) => {
                out.push(x);
                assert(numbers(out@) =~= before.push(x as nat));
            },
            None => {
                if !last || !embedded {
                    proof {
                        if !last {
                            lemma_groups_prefix(p, i + 1, embedded);
                        }
                    }
                    return None;
                }
                match read_ipv4(part) {
                    Some(x) => {
                        let high: u16 = (x / 0x1_0000) as u16;
                        let low: u16 = (x % 0x1_0000) as u16;
                        out.push(high);
                        out.push(low);
                        assert(numbers(out@) =~= before.push(high as nat).push(low as nat));
                    },
                    None => {
                        return None;
                    },
                }
            },
        }
        i = i + 1;
    }
    Some(out)
}

/// Where the first double colon of a text stands, if there is one.
fn find_double(s: &str) -> (r: Option<usize>)
    ensures
        match r {
            Some(at) => at == double_at(s@) && at + 2 <= s@.len(),
            None => double_at(s@) >= s@.len(),
        },
{
    let v = chars_of(s);
    let mut i: usize = 0;
    assert(s@.skip(0) =~= s@);
    while i < v.len() && v.len() - i >= 2
        invariant
            v@ == s@,
            i <= v.len(),
            double_at(s@) == i + double_at(s@.skip(i as int)),
        decreases v.len() - i,
    {
        if v[i] == ':' && v[i + 1] == ':' {
            return Some(i);
        }
        assert(s@.skip(i as int).skip(1) =~= s@.skip(i + 1));
        i = i + 1;
    }
    None
}

/// Numbers below the size of a group make a number below the span of the groups.
proof fn lemma_groups_value(g: Seq<u16>)
    requires
        g.len() <= 8,
    ensures
        g.len() == 0 ==> groups_value(numbers(g)) == 0,
        g.len() <= 1 ==> groups_value(numbers(g)) < 0x1_0000,
        g.len() <= 2 ==> groups_value(numbers(g)) < 0x1_0000_0000,
        g.len() <= 3 ==> groups_value(numbers(g)) < 0x1_0000_0000_0000,
        g.len() <= 4 ==> groups_value(numbers(g)) < 0x1_0000_0000_0000_0000,
        g.len() <= 5 ==> groups_value(numbers(g)) < 0x1_0000_0000_0000_0000_0000,
        g.len() <= 6 ==> groups_value(numbers(g)) < 0x1_0000_0000_0000_0000_0000_0000,
        g.len() <= 7 ==> groups_value(numbers(g)) < 0x1_0000_0000_0000_0000_0000_0000_0000,
        groups_value(numbers(g)) <= u128::MAX,
    decreases g.len(),
{
    if g.len() > 0 {
        lemma_groups_value(g.drop_last());
        assert(numbers(g).drop_last() =~= numbers(g.drop_last()));
    }
}

/// The number whose groups of sixteen bits are `g`.
fn join_groups(g: &Vec<u16>) -> (r: u128)
    requires
        g@.len() <= 8,
    ensures
        r == groups_value(numbers(g@)),
{
    let mut value: u128 = 0;
    let mut i: usize = 0;
    assert(numbers(g@.take(0)) =~= Seq::<nat>::empty());
    while i < g.len()
        invariant
            i <= g.len() <= 8,
            value == groups_value(numbers(g@.take(i as int))),
        decreases g.len() - i,
    {
        proof {
            let next = g@.take(i + 1);
            assert(next.drop_last() =~= g@.take(i as int));
            assert(numbers(next).drop_last() =~= numbers(g@.take(i as int)));
            lemma_groups_value(next);
        }
        value = value * 0x1_0000 + g[i] as u128;
        i = i + 1;
    }
    assert(g@.take(g@.len() as int) =~= g@);
    value
}

/// Reads an IPv6 address.
fn read_ipv6(s: &str) -> (r: Option<u128>)
    ensures
        match r {
            Some(x) => ipv6_groups(s@) is Some && x == groups_value(ipv6_groups(s@)->0),
            None => ipv6_groups(s@) is None,
        },
{
    match find_double(s) {
        Some(at) => {
            let n: usize = chars_of(s).len();
            let front = s.substring_char(0, at);
            let back = s.substring_char(at + 2, n);
            assert(front@ =~= s@.take(at as int));
            assert(back@ =~= s@.skip(at + 2));
            let a = match read_side(front, false) {
                Some(a) => a,
                None => {
                    return None;
                },
            };
            let b = match read_side(back, true) {
                Some(b) => b,
                None => {
                    return None;
                },
            };
            if a.len() > 7 || b.len() > 7 - a.len() {
                return None;
            }
            let mut all: Vec<u16> = Vec::new();
            let mut i: usize = 0;
            while i < a.len()
                invariant
                    i <= a.len(),
                    all@ == a@.take(i as int),
                decreases a.len() - i,
            {
                all.push(a[i]);
                i = i + 1;
            }
            let zeros: usize = 8 - a.len() - b.len();
            i = 0;
            while i < zeros
                invariant
                    i <= zeros,
                    all@ == a@ + Seq::new(i as nat, |k: int| 0u16),
                decreases zeros - i,
            {
                all.push(0);
                i = i + 1;
            }
            i = 0;
            while i < b.len()
                invariant
                    i <= b.len(),
                    all@ == a@ + Seq::new(zeros as nat, |k: int| 0u16) + b@.take(i as int),
                decreases b.len() - i,
            {
                all.push(b[i]);
                i = i + 1;
            }
            assert(numbers(all@) =~= numbers(a@) + Seq::new(zeros as nat, |k: int| 0nat) + numbers(
                b@,
            ));
            Some(join_groups(&all))
        },
        None => match read_side(s, true) {
            Some(g) => {
                if g.len() == 8 {
                    Some(join_groups(&g))
                } else {
                    None
                }
            },
            None => None,
        },
    }
}

impl IpAddr {
    /// Reads an address of either family.
    pub fn parse(s: &str) -> (r: Option<IpAddr>)
        ensures
            r == ip_of(s@),
    {
        match read_ipv4(s) {
            Some(x) => Some(IpAddr::V4(x)),
            None => match read_ipv6(s) {
                Some(x) => Some(IpAddr::V6(x)),
                None => None,
            },
        }
    }
}

} // verus!
