//! Deciding whether a hostname denotes a loopback address.

use crate::text::{
    all_digits, chars_of, decimal_value, ends_with, lower, parse_u16, same_text, slice_of, split,
    split_on, to_lower, trim_chars, trimmed, views,
};
use vstd::prelude::*;

verus! {

/// The names and addresses that are loopback as they stand.
pub open spec fn loopback_names() -> Seq<Seq<char>> {
    seq![
        "localhost"@,
        "127.0.0.1"@,
        "0.0.0.0"@,
        "::1"@,
        "[::1]"@,
        "::ffff:127.0.0.1"@,
        "[::ffff:127.0.0.1]"@,
    ]
}

/// `s` without the brackets at its two ends.
pub open spec fn strip_brackets(s: Seq<char>) -> Seq<char> {
    trim_chars(s, '[', ']')
}

/// One part of a dotted IPv4 address: one to three ASCII digits, without a
/// leading zero unless the part is `0` itself, with a value of at most 255.
pub open spec fn is_octet_text(s: Seq<char>) -> bool {
    &&& 1 <= s.len() <= 3
    &&& all_digits(s)
    &&& (s.len() > 1 ==> s[0] != '0')
    &&& decimal_value(s) <= 255
}

/// The four octets of a dotted IPv4 address.
#[verifier::opaque]
pub open spec fn ipv4_octets(s: Seq<char>) -> Option<Seq<nat>> {
    let parts = split_on(s, '.');
    if parts.len() == 4 && (forall|i: int| 0 <= i < 4 ==> is_octet_text(#[trigger] parts[i])) {
        Some(Seq::new(4, |i: int| decimal_value(parts[i])))
    } else {
        None
    }
}

/// The value of a hexadecimal digit of either case.
pub open spec fn hex_digit_value(c: char) -> Option<nat> {
    if '0' <= c && c <= '9' {
        Some((c as u8 - '0' as u8) as nat)
    } else if 'a' <= c && c <= 'f' {
        Some((c as u8 - 'a' as u8 + 10) as nat)
    } else if 'A' <= c && c <= 'F' {
        Some((c as u8 - 'A' as u8 + 10) as nat)
    } else {
        None
    }
}

/// Every character of `s` is a hexadecimal digit.
pub open spec fn all_hex(s: Seq<char>) -> bool {
    forall|i: int| 0 <= i < s.len() ==> hex_digit_value(#[trigger] s[i]) is Some
}

/// The number that a run of hexadecimal digits denotes.
pub open spec fn hex_value(s: Seq<char>) -> nat
    decreases s.len(),
{
    if s.len() == 0 {
        0
    } else {
        hex_value(s.drop_last()) * 16 + hex_digit_value(s.last()).unwrap_or(0)
    }
}

/// One group of an IPv6 address: one to four hexadecimal digits.
pub open spec fn is_hex_group(s: Seq<char>) -> bool {
    1 <= s.len() <= 4 && all_hex(s)
}

/// The 16-bit groups that a `:`-separated list denotes. Every part is a
/// hexadecimal group, except that the last one may be a dotted IPv4 address
/// where `allow_v4` holds; such an address stands for two groups.
#[verifier::opaque]
pub open spec fn group_list(t: Seq<char>, allow_v4: bool) -> Option<Seq<nat>> {
    let parts = split_on(t, ':');
    let n = parts.len() as int;
    if n >= 1 && (forall|i: int| 0 <= i < n - 1 ==> is_hex_group(#[trigger] parts[i])) {
        let front = Seq::new((n - 1) as nat, |i: int| hex_value(parts[i]));
        if is_hex_group(parts[n - 1]) {
            Some(front.push(hex_value(parts[n - 1])))
        } else if allow_v4 {
            match ipv4_octets(parts[n - 1]) {
                Some(o) => Some(front.push(o[0] * 256 + o[1]).push(o[2] * 256 + o[3])),
                None => None,
            }
        } else {
            None
        }
    } else {
        None
    }
}

/// The groups as natural numbers.
pub open spec fn nats(g: Seq<u16>) -> Seq<nat> {
    Seq::new(g.len(), |i: int| g[i] as nat)
}

/// Two colons stand at positions `i` and `i + 1`.
pub open spec fn double_colon_at(s: Seq<char>, i: int) -> bool {
    0 <= i && i + 1 < s.len() && s[i] == ':' && s[i + 1] == ':'
}

/// The position of the first `::` in `s`.
#[verifier::opaque]
pub open spec fn first_double_colon(s: Seq<char>) -> Option<int> {
    if exists|i: int| double_colon_at(s, i) {
        Some(
            choose|i: int|
                double_colon_at(s, i) && forall|j: int| 0 <= j < i ==> !double_colon_at(s, j),
        )
    } else {
        None
    }
}

/// The groups of a list that may be empty.
pub open spec fn group_list_or_none(t: Seq<char>, allow_v4: bool) -> Option<Seq<nat>> {
    if t.len() == 0 {
        Some(Seq::<nat>::empty())
    } else {
        group_list(t, allow_v4)
    }
}

/// The groups of an address whose `::` stands at position `i`: the groups
/// before it, then as many zeros as make eight, then the groups after it.
pub open spec fn ipv6_compressed(s: Seq<char>, i: int) -> Option<Seq<nat>> {
    match (group_list_or_none(s.take(i), false), group_list_or_none(s.skip(i + 2), true)) {
        (Some(head), Some(tail)) => {
            if head.len() + tail.len() <= 7 {
                Some(
                    head + Seq::new((8 - head.len() - tail.len()) as nat, |k: int| 0nat) + tail,
                )
            } else {
                None
            }
        },
        _ => None,
    }
}

/// The groups of an address without `::`, which lists all eight.
pub open spec fn ipv6_full(s: Seq<char>) -> Option<Seq<nat>> {
    match group_list(s, true) {
        Some(g) => if g.len() == 8 {
            Some(g)
        } else {
            None
        },
        None => None,
    }
}

/// The eight groups of an IPv6 address in its text form. Without `::` the
/// text lists all eight; `::` stands once for one or more groups of zeros,
/// and an IPv4 address may only end what follows it.
pub open spec fn ipv6_groups(s: Seq<char>) -> Option<Seq<nat>> {
    match first_double_colon(s) {
        Some(i) => ipv6_compressed(s, i),
        None => ipv6_full(s),
    }
}

/// The text is an IPv4 address in the block `127.0.0.0/8`.
pub open spec fn is_ipv4_loopback_text(s: Seq<char>) -> bool {
    ipv4_octets(s) matches Some(o) && o[0] == 127
}

/// The text is an IPv6 address equal to `::1`.
pub open spec fn is_ipv6_loopback_text(s: Seq<char>) -> bool {
    ipv6_groups(s) matches Some(g) && g == seq![0nat, 0nat, 0nat, 0nat, 0nat, 0nat, 0nat, 1nat]
}

/// Whether a hostname denotes a loopback address, without regard to ASCII
/// case: it is one of the fixed names, or ends in `.localhost`, or is, once
/// the brackets at its ends are taken off, an IPv4 address that begins with
/// 127 or the IPv6 loopback address.
pub open spec fn is_loopback(host: Seq<char>) -> bool {
    let h = lower(host);
    ||| loopback_names().contains(h)
    ||| ".localhost"@.is_suffix_of(h)
    ||| is_ipv4_loopback_text(strip_brackets(h))
    ||| is_ipv6_loopback_text(strip_brackets(h))
}

/// Reads one part of a dotted IPv4 address.
fn octet_of(p: &Vec<char>) -> (r: Option<u8>)
    ensures
        r is Some <==> is_octet_text(p@),
        r matches Some(n) ==> n == decimal_value(p@),
{
    if p.len() < 1 || p.len() > 3 {
        return None;
    }
    if p.len() > 1 && p[0] == '0' {
        return None;
    }
    match parse_u16(p) {
        Some(n) => {
            if n <= 255 {
                Some(n as u8)
            } else {
                None
            }
        },
        None => {
            proof {
                if all_digits(p@) {
                    lemma_three_digits_small(p@);
                }
            }
            None
        },
    }
}

/// Up to three digits cannot spell more than 999.
proof fn lemma_three_digits_small(s: Seq<char>)
    requires
        s.len() <= 3,
        all_digits(s),
    ensures
        decimal_value(s) <= 999,
{
    reveal_with_fuel(decimal_value, 4);
    if s.len() >= 1 {
        let a = s.drop_last();
        assert(crate::text::is_digit(s[s.len() - 1]));
        if a.len() >= 1 {
            let b = a.drop_last();
            assert(a.last() == s[s.len() - 2]);
            assert(crate::text::is_digit(s[s.len() - 2]));
            if b.len() >= 1 {
                assert(b.last() == s[s.len() - 3]);
                assert(crate::text::is_digit(s[s.len() - 3]));
                assert(b.drop_last().len() == 0);
            }
        }
    }
}

/// Reads a dotted IPv4 address.
fn ipv4_of(v: &Vec<char>) -> (r: Option<[u8; 4]>)
    ensures
        match r {
            Some(o) => ipv4_octets(v@) == Some(
                seq![o@[0] as nat, o@[1] as nat, o@[2] as nat, o@[3] as nat],
            ),
            None => ipv4_octets(v@) is None,
        },
{
    reveal(ipv4_octets);
    let parts = split(v, '.');
    if parts.len() != 4 {
        return None;
    }
    let ghost all = views(parts@);
    assert(all[0] == parts@[0]@ && all[1] == parts@[1]@ && all[2] == parts@[2]@ && all[3]
        == parts@[3]@);
    let a = octet_of(&parts[0]);
    let b = octet_of(&parts[1]);
    let c = octet_of(&parts[2]);
    let d = octet_of(&parts[3]);
    match (a, b, c, d) {
        (Some(a), Some(b), Some(c), Some(d)) => {
            let o: [u8; 4] = [a, b, c, d];
            assert(ipv4_octets(v@).unwrap() =~= seq![
                o@[0] as nat,
                o@[1] as nat,
                o@[2] as nat,
                o@[3] as nat,
            ]);
            Some(o)
        },
        _ => None,
    }
}

/// Reads one hexadecimal group.
fn hex_group_of(p: &Vec<char>) -> (r: Option<u16>)
    ensures
        r is Some <==> is_hex_group(p@),
        r matches Some(n) ==> n == hex_value(p@),
{
    if p.len() < 1 || p.len() > 4 {
        return None;
    }
    let mut acc: u32 = 0;
    let mut i: usize = 0;
    assert(p@.take(0).len() == 0);
    while i < p.len()
        invariant
            i <= p.len() <= 4,
            all_hex(p@.take(i as int)),
            acc == hex_value(p@.take(i as int)),
            i == 0 ==> acc == 0,
            i == 1 ==> acc < 16,
            i == 2 ==> acc < 256,
            i == 3 ==> acc < 4096,
            i == 4 ==> acc < 65536,
        decreases p.len() - i,
    {
        let c = p[i];
        assert(p@.take(i + 1).drop_last() == p@.take(i as int));
        let d: u32 = if '0' <= c && c <= '9' {
            (c as u8 - '0' as u8) as u32
        } else if 'a' <= c && c <= 'f' {
            (c as u8 - 'a' as u8 + 10) as u32
        } else if 'A' <= c && c <= 'F' {
            (c as u8 - 'A' as u8 + 10) as u32
        } else {
            assert(hex_digit_value(p@[i as int]) is None);
            return None;
        };
        assert(all_hex(p@.take(i + 1))) by {
            assert forall|k: int| 0 <= k < i + 1 implies hex_digit_value(
                #[trigger] p@.take(i + 1)[k],
            ) is Some by {
                if k < i {
                    assert(p@.take(i as int)[k] == p@[k]);
                }
            }
        }
        acc = acc * 16 + d;
        i += 1;
    }
    assert(p@ == p@.take(p.len() as int));
    Some(acc as u16)
}

/// Reads a `:`-separated list of groups.
fn group_list_of(t: &Vec<char>, allow_v4: bool) -> (r: Option<Vec<u16>>)
    ensures
        match r {
            Some(g) => group_list(t@, allow_v4) == Some(nats(g@)),
            None => group_list(t@, allow_v4) is None,
        },
{
    reveal(group_list);
    let parts = split(t, ':');
    let n = parts.len();
    proof {
        crate::text::lemma_split_has_pieces(t@, ':');
    }
    let ghost all = views(parts@);
    let mut out: Vec<u16> = Vec::new();
    let mut i: usize = 0;
    while i < n - 1
        invariant
            1 <= n == parts.len(),
            i + 1 <= n,
            all == views(parts@),
            all == split_on(t@, ':'),
            out@.len() == i,
            forall|k: int| 0 <= k < i ==> is_hex_group(#[trigger] all[k]),
            forall|k: int| 0 <= k < i ==> out@[k] == hex_value(#[trigger] all[k]),
        decreases n - i,
    {
        assert(all[i as int] == parts@[i as int]@);
        match hex_group_of(&parts[i]) {
            Some(g) => {
                out.push(g);
            },
            None => {
                proof {
                    reveal(group_list);
                    assert(!is_hex_group(all[i as int]));
                }
                return None;
            },
        }
        i += 1;
    }
    assert(all[n - 1] == parts@[n - 1]@);
    let ghost front = Seq::new((n - 1) as nat, |k: int| hex_value(all[k]));
    assert(nats(out@) =~= front);
    match hex_group_of(&parts[n - 1]) {
        Some(g) => {
            out.push(g);
            assert(nats(out@) =~= front.push(
                hex_value(all[n - 1]),
            ));
            Some(out)
        },
        None => {
            if !allow_v4 {
                return None;
            }
            match ipv4_of(&parts[n - 1]) {
                Some(o) => {
                    let hi: u16 = (o[0] as u16) * 256 + (o[1] as u16);
                    let lo: u16 = (o[2] as u16) * 256 + (o[3] as u16);
                    out.push(hi);
                    out.push(lo);
                    assert(nats(out@) =~= front.push(
                        hi as nat,
                    ).push(lo as nat));
                    Some(out)
                },
                None => None,
            }
        },
    }
}

/// Finds the first `::`.
fn find_double_colon(v: &Vec<char>) -> (r: Option<usize>)
    ensures
        match r {
            Some(i) => first_double_colon(v@) == Some(i as int) && i + 2 <= v.len(),
            None => first_double_colon(v@) is None,
        },
{
    reveal(first_double_colon);
    if v.len() < 2 {
        assert forall|j: int| !double_colon_at(v@, j) by {}
        return None;
    }
    let mut i: usize = 0;
    while i < v.len() - 1
        invariant
            v.len() >= 2,
            i <= v.len() - 1,
            forall|j: int| 0 <= j < i ==> !double_colon_at(v@, j),
        decreases v.len() - i,
    {
        if v[i] == ':' && v[i + 1] == ':' {
            reveal(first_double_colon);
            assert(double_colon_at(v@, i as int));
            let ghost pick = choose|k: int|
                double_colon_at(v@, k) && forall|j: int| 0 <= j < k ==> !double_colon_at(v@, j);
            assert(pick == i) by {
                if pick < i {
                    assert(!double_colon_at(v@, pick));
                }
                if pick > i {
                    assert(!double_colon_at(v@, i as int));
                }
            }
            return Some(i);
        }
        i += 1;
    }
    assert forall|j: int| !double_colon_at(v@, j) by {
        if 0 <= j < i {
        }
    }
    None
}

/// Reads the groups of a list that may be empty.
fn group_list_or_none_of(t: &Vec<char>, allow_v4: bool) -> (r: Option<Vec<u16>>)
    ensures
        match r {
            Some(g) => group_list_or_none(t@, allow_v4) == Some(nats(g@)),
            None => group_list_or_none(t@, allow_v4) is None,
        },
{
    if t.len() == 0 {
        let g: Vec<u16> = Vec::new();
        assert(nats(g@) =~= Seq::<nat>::empty());
        Some(g)
    } else {
        group_list_of(t, allow_v4)
    }
}

/// Reads an IPv6 address whose `::` stands at position `i`.
fn ipv6_compressed_of(v: &Vec<char>, i: usize) -> (r: Option<Vec<u16>>)
    requires
        i + 2 <= v.len(),
    ensures
        match r {
            Some(g) => ipv6_compressed(v@, i as int) == Some(nats(g@)) && g@.len() == 8,
            None => ipv6_compressed(v@, i as int) is None,
        },
{
    let head_text = slice_of(v, 0, i);
    let tail_text = slice_of(v, i + 2, v.len());
    assert(head_text@ == v@.take(i as int));
    assert(tail_text@ == v@.skip(i + 2));
    let head = group_list_or_none_of(&head_text, false);
    let tail = group_list_or_none_of(&tail_text, true);
    match (head, tail) {
        (Some(head), Some(tail)) => {
            if head.len() > 7 || tail.len() > 7 - head.len() {
                return None;
            }
            Some(spread(head, &tail))
        },
        _ => None,
    }
}

/// Reads an IPv6 address.
fn ipv6_of(v: &Vec<char>) -> (r: Option<Vec<u16>>)
    ensures
        match r {
            Some(g) => ipv6_groups(v@) == Some(nats(g@)) && g@.len() == 8,
            None => ipv6_groups(v@) is None,
        },
{
    match find_double_colon(v) {
        Some(i) => ipv6_compressed_of(v, i),
        None => {
            match group_list_of(v, true) {
                Some(g) => {
                    if g.len() == 8 {
                        Some(g)
                    } else {
                        None
                    }
                },
                None => None,
            }
        },
    }
}

/// Puts as many zero groups between `head` and `tail` as make eight in all.
fn spread(head: Vec<u16>, tail: &Vec<u16>) -> (r: Vec<u16>)
    requires
        head@.len() + tail@.len() <= 7,
    ensures
        nats(r@) == nats(head@) + Seq::new(
            (8 - head@.len() - tail@.len()) as nat,
            |k: int| 0nat,
        ) + nats(tail@),
        r@.len() == 8,
{
    let ghost hs = head@;
    let gap: usize = 8 - head.len() - tail.len();
    let mut out = head;
    let mut i: usize = 0;
    while i < gap
        invariant
            i <= gap,
            out@ == hs + Seq::new(i as nat, |k: int| 0u16),
        decreases gap - i,
    {
        out.push(0);
        assert(out@ =~= hs + Seq::new((i + 1) as nat, |k: int| 0u16));
        i += 1;
    }
    let mut j: usize = 0;
    while j < tail.len()
        invariant
            j <= tail.len(),
            out@ == hs + Seq::new(gap as nat, |k: int| 0u16) + tail@.take(j as int),
        decreases tail.len() - j,
    {
        out.push(tail[j]);
        assert(tail@.take(j + 1) == tail@.take(j as int).push(tail@[j as int]));
        assert(out@ =~= hs + Seq::new(gap as nat, |k: int| 0u16) + tail@.take(j + 1));
        j += 1;
    }
    assert(tail@ == tail@.take(tail.len() as int));
    assert(nats(out@) =~= nats(hs) + Seq::new(gap as nat, |k: int| 0nat) + nats(tail@));
    out
}

/// Whether the text is an IPv6 address equal to `::1`.
fn is_ipv6_loopback(v: &Vec<char>) -> (r: bool)
    ensures
        r == is_ipv6_loopback_text(v@),
{
    let ghost one = seq![0nat, 0nat, 0nat, 0nat, 0nat, 0nat, 0nat, 1nat];
    match ipv6_of(v) {
        Some(g) => {
            let ghost gs = nats(g@);
            let r = g[0] == 0 && g[1] == 0 && g[2] == 0 && g[3] == 0 && g[4] == 0 && g[5] == 0
                && g[6] == 0 && g[7] == 1;
            assert(r == (gs == one)) by {
                if r {
                    assert(gs =~= one);
                } else {
                    assert(gs[0] == g@[0] && gs[1] == g@[1] && gs[2] == g@[2] && gs[3] == g@[3]
                        && gs[4] == g@[4] && gs[5] == g@[5] && gs[6] == g@[6] && gs[7] == g@[7]);
                }
            }
            r
        },
        None => false,
    }
}

/// Whether the lower-case text is one of the fixed loopback names.
fn is_loopback_name(h: &Vec<char>) -> (r: bool)
    ensures
        r == loopback_names().contains(h@),
{
    let names: [&str; 7] = [
        "localhost",
        "127.0.0.1",
        "0.0.0.0",
        "::1",
        "[::1]",
        "::ffff:127.0.0.1",
        "[::ffff:127.0.0.1]",
    ];
    let ghost all = loopback_names();
    let mut i: usize = 0;
    while i < 7
        invariant
            i <= 7,
            all == loopback_names(),
            forall|k: int| 0 <= k < 7 ==> (#[trigger] names@[k])@ == all[k],
            forall|k: int| 0 <= k < i ==> all[k] != h@,
        decreases 7 - i,
    {
        let name = chars_of(names[i]);
        if same_text(h, &name) {
            assert(all[i as int] == h@);
            return true;
        }
        i += 1;
    }
    false
}

/// Whether a hostname denotes a loopback address.
pub fn is_loopback_hostname(hostname: &str) -> (r: bool)
    ensures
        r == is_loopback(hostname@),
{
    let h = to_lower(&chars_of(hostname));
    if is_loopback_name(&h) {
        return true;
    }
    if ends_with(&h, &chars_of(".localhost")) {
        return true;
    }
    let bare = trimmed(&h, '[', ']');
    match ipv4_of(&bare) {
        Some(o) => {
            if o[0] == 127 {
                return true;
            }
        },
        None => {},
    }
    is_ipv6_loopback(&bare)
}

} // verus!
