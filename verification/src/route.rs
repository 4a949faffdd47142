//! Deriving a route from the hostname of an initial URL, and building the
//! cloud hostname that a loopback request is sent to.

use crate::text::{
    all_digits, chars_of, decimal_digits, decimal_value, ends_with, format_u32, is_digit, is_lower,
    join, join_range, keep_non_empty, lemma_decimal_round_trip, lemma_lower_keeps,
    lemma_split_concat, lemma_split_plain, lower, non_empty, parse_u16, slice_of, split, split_on,
    starts_with, string_of, to_lower, views,
};
use crate::types::{ProxyRoute, RouteView};
use vstd::prelude::*;
use vstd::string::StringExecFns;

verus! {

/// The recognized cloud domain suffixes, in the order in which they are tried.
pub open spec fn cmux_domains() -> Seq<Seq<char>> {
    seq![
        "cmux.app"@,
        "cmux.sh"@,
        "cmux.dev"@,
        "cmux.local"@,
        "cmux.localhost"@,
        "autobuild.app"@,
    ]
}

/// A route as the data model asks for it: identifier and scope are not empty
/// and the suffix is one of the recognized ones.
pub open spec fn valid_route(r: RouteView) -> bool {
    &&& r.morph_id.len() > 0
    &&& r.scope.len() > 0
    &&& cmux_domains().contains(r.domain_suffix)
}

/// The number of ASCII digits that `s` begins with.
pub open spec fn digit_run(s: Seq<char>) -> nat
    decreases s.len(),
{
    if s.len() > 0 && is_digit(s[0]) {
        1 + digit_run(s.drop_first())
    } else {
        0
    }
}

/// A text that reads as a port: ASCII digits with a value of at most 65535.
pub open spec fn is_port_text(s: Seq<char>) -> bool {
    s.len() > 0 && all_digits(s) && decimal_value(s) <= 65535
}

/// The identifier in a lower-case hostname of the shape
/// `port-<digits>-morphvm-<id>.http.cloud.morph.so`, where `<digits>` and
/// `<id>` are not empty.
pub open spec fn morph_host_id(h: Seq<char>) -> Option<Seq<char>> {
    let head = "port-"@;
    let tail = ".http.cloud.morph.so"@;
    let mark = "-morphvm-"@;
    if head.is_prefix_of(h) && tail.is_suffix_of(h.skip(head.len() as int)) {
        let x = h.subrange(head.len() as int, h.len() - tail.len());
        let k = digit_run(x);
        if k > 0 && mark.is_prefix_of(x.skip(k as int)) && x.len() > k + mark.len() {
            Some(x.skip((k + mark.len()) as int))
        } else {
            None
        }
    } else {
        None
    }
}

/// The route in a lower-case hostname of the shape
/// `cmux-<id>-<scope>-<port>.<domain>`. What stands between `cmux-` and the
/// domain is cut at `-`, empty pieces are dropped, and at least three pieces
/// must remain: the last one a port, the one before it the scope, and the
/// others, joined by `-` again, the identifier.
pub open spec fn cmux_host_route(h: Seq<char>, domain: Seq<char>) -> Option<RouteView> {
    let tail = seq!['.'] + domain;
    let head = "cmux-"@;
    if tail.is_suffix_of(h) && head.is_prefix_of(h.take(h.len() - tail.len())) {
        let pieces = non_empty(split_on(h.subrange(head.len() as int, h.len() - tail.len()), '-'));
        let n = pieces.len() as int;
        if n >= 3 && is_port_text(pieces[n - 1]) {
            Some(
                RouteView {
                    morph_id: join(pieces.take(n - 2), '-'),
                    scope: pieces[n - 2],
                    domain_suffix: domain,
                },
            )
        } else {
            None
        }
    } else {
        None
    }
}

/// The first route that one of `domains`, tried in order, gives for `h`.
pub open spec fn first_cmux_route(h: Seq<char>, domains: Seq<Seq<char>>) -> Option<RouteView>
    decreases domains.len(),
{
    if domains.len() == 0 {
        None
    } else {
        match cmux_host_route(h, domains[0]) {
            Some(r) => Some(r),
            None => first_cmux_route(h, domains.drop_first()),
        }
    }
}

/// The route that a lower-case hostname stands for: the morph pattern is
/// tried first, then the cmux pattern over the recognized domains.
pub open spec fn host_route(h: Seq<char>) -> Option<RouteView> {
    match morph_host_id(h) {
        Some(id) => Some(RouteView { morph_id: id, scope: "base"@, domain_suffix: "cmux.app"@ }),
        None => first_cmux_route(h, cmux_domains()),
    }
}

/// The hostname `cmux-{morph_id}-{scope}-{port}.{domain_suffix}`.
pub open spec fn cmux_host(r: RouteView, port: u16) -> Seq<char> {
    "cmux-"@ + r.morph_id + seq!['-'] + r.scope + seq!['-'] + decimal_digits(port as nat) + seq![
        '.',
    ] + r.domain_suffix
}

/// If the first `k` characters of `s` are digits and the next one, if any, is
/// not, then `s` begins with exactly `k` digits.
pub proof fn lemma_digit_run(s: Seq<char>, k: int)
    requires
        0 <= k <= s.len(),
        all_digits(s.take(k)),
        k == s.len() || !is_digit(s[k]),
    ensures
        digit_run(s) == k,
    decreases k,
{
    if k > 0 {
        assert(s.take(k)[0] == s[0]);
        let rest = s.drop_first().take(k - 1);
        assert forall|i: int| 0 <= i < k - 1 implies is_digit(#[trigger] rest[i]) by {
            assert(s.take(k)[i + 1] == s[i + 1]);
        }
        lemma_digit_run(s.drop_first(), k - 1);
    }
}

/// Counts the ASCII digits that `v` has from position `from` on.
fn count_digits(v: &Vec<char>, from: usize) -> (k: usize)
    requires
        from <= v.len(),
    ensures
        k == digit_run(v@.skip(from as int)),
        from + k <= v.len(),
{
    let ghost s = v@.skip(from as int);
    let mut i: usize = from;
    assert(s.take(0).len() == 0);
    while i < v.len() && '0' <= v[i] && v[i] <= '9'
        invariant
            from <= i <= v.len(),
            s == v@.skip(from as int),
            all_digits(s.take(i - from)),
        decreases v.len() - i,
    {
        let ghost seen = s.take(i + 1 - from);
        assert forall|j: int| 0 <= j < i + 1 - from implies is_digit(#[trigger] seen[j]) by {
            if j < i - from {
                assert(s.take(i - from)[j] == s[j]);
            }
        }
        i += 1;
    }
    proof {
        lemma_digit_run(s, i - from);
    }
    i - from
}

/// Reads the morph pattern off a lower-case hostname.
fn morph_id_of(h: &Vec<char>) -> (r: Option<Vec<char>>)
    ensures
        match r {
            Some(id) => morph_host_id(h@) == Some(id@),
            None => morph_host_id(h@) is None,
        },
{
    let head = chars_of("port-");
    let tail = chars_of(".http.cloud.morph.so");
    let mark = chars_of("-morphvm-");
    if !starts_with(h, &head) {
        return None;
    }
    let rest = slice_of(h, head.len(), h.len());
    assert(rest@ == h@.skip(head@.len() as int));
    if !ends_with(&rest, &tail) {
        return None;
    }
    let x = slice_of(h, head.len(), h.len() - tail.len());
    let k = count_digits(&x, 0);
    assert(x@.skip(0) == x@);
    if k == 0 {
        return None;
    }
    let after = slice_of(&x, k, x.len());
    assert(after@ == x@.skip(k as int));
    if !starts_with(&after, &mark) {
        return None;
    }
    if x.len() <= k + mark.len() {
        return None;
    }
    let id = slice_of(&x, k + mark.len(), x.len());
    assert(id@ == x@.skip(k + mark@.len()));
    Some(id)
}

/// Reads the cmux pattern off a lower-case hostname for one domain.
fn cmux_route_of(h: &Vec<char>, domain: &str) -> (r: Option<ProxyRoute>)
    ensures
        match r {
            Some(route) => cmux_host_route(h@, domain@) == Some(route@),
            None => cmux_host_route(h@, domain@) is None,
        },
{
    let head = chars_of("cmux-");
    let name = chars_of(domain);
    let mut tail: Vec<char> = Vec::new();
    tail.push('.');
    let mut i: usize = 0;
    while i < name.len()
        invariant
            i <= name.len(),
            tail@ == seq!['.'] + name@.take(i as int),
        decreases name.len() - i,
    {
        tail.push(name[i]);
        assert(name@.take(i + 1) == name@.take(i as int).push(name@[i as int]));
        i += 1;
    }
    assert(name@ == name@.take(name.len() as int));
    if !ends_with(h, &tail) {
        return None;
    }
    let sub = slice_of(h, 0, h.len() - tail.len());
    assert(sub@ == h@.take(h@.len() - tail@.len()));
    if !starts_with(&sub, &head) {
        return None;
    }
    let rest = slice_of(h, head.len(), h.len() - tail.len());
    let pieces = keep_non_empty(split(&rest, '-'));
    let n = pieces.len();
    if n < 3 {
        return None;
    }
    let ghost all = views(pieces@);
    assert(all[n - 1] == pieces@[n - 1]@);
    assert(all[n - 2] == pieces@[n - 2]@);
    if parse_u16(&pieces[n - 1]).is_none() {
        return None;
    }
    let morph = join_range(&pieces, 0, n - 2, '-');
    assert(all.subrange(0, n - 2) == all.take(n - 2));
    Some(
        ProxyRoute {
            morph_id: string_of(&morph),
            scope: string_of(&pieces[n - 2]),
            domain_suffix: string_of(&name),
        },
    )
}

/// The route that a hostname stands for, without regard to ASCII case.
pub fn derive_route_from_host(host: &str) -> (r: Option<ProxyRoute>)
    ensures
        match r {
            Some(route) => host_route(lower(host@)) == Some(route@),
            None => host_route(lower(host@)) is None,
        },
{
    let h = to_lower(&chars_of(host));
    match morph_id_of(&h) {
        Some(id) => {
            return Some(
                ProxyRoute {
                    morph_id: string_of(&id),
                    scope: String::from_str("base"),
                    domain_suffix: String::from_str("cmux.app"),
                },
            );
        },
        None => {},
    }
    let domains: [&str; 6] = [
        "cmux.app",
        "cmux.sh",
        "cmux.dev",
        "cmux.local",
        "cmux.localhost",
        "autobuild.app",
    ];
    let ghost all = cmux_domains();
    let mut i: usize = 0;
    assert(all.skip(0) == all);
    while i < 6
        invariant
            i <= 6,
            all == cmux_domains(),
            h@ == lower(host@),
            morph_host_id(h@) is None,
            forall|k: int| 0 <= k < 6 ==> (#[trigger] domains@[k])@ == all[k],
            first_cmux_route(h@, all) == first_cmux_route(h@, all.skip(i as int)),
        decreases 6 - i,
    {
        assert(all.skip(i as int).drop_first() == all.skip(i + 1));
        assert(all.skip(i as int)[0] == (domains@[i as int])@);
        match cmux_route_of(&h, domains[i]) {
            Some(route) => {
                return Some(route);
            },
            None => {},
        }
        i += 1;
    }
    None
}

/// Builds the hostname `cmux-{morph_id}-{scope}-{port}.{domain_suffix}`.
pub fn build_cmux_host(route: &ProxyRoute, port: u16) -> (host: String)
    ensures
        host@ == cmux_host(route@, port),
{
    let mut host = String::from_str("cmux-");
    host.append(route.morph_id.as_str());
    host.push('-');
    host.append(route.scope.as_str());
    host.push('-');
    let digits = string_of(&format_u32(port as u32));
    host.append(digits.as_str());
    host.push('.');
    host.append(route.domain_suffix.as_str());
    host
}

/// Joining pieces none of which is empty gives a text that is not empty,
/// unless there are no pieces.
pub proof fn lemma_join_not_empty(pieces: Seq<Seq<char>>, sep: char)
    requires
        pieces.len() > 0,
        forall|i: int| 0 <= i < pieces.len() ==> (#[trigger] pieces[i]).len() > 0,
    ensures
        join(pieces, sep).len() > 0,
    decreases pieces.len(),
{
    if pieces.len() > 1 {
        assert(pieces.last() == pieces[pieces.len() - 1]);
    } else {
        assert(pieces[0].len() > 0);
    }
}

/// Every route that a hostname stands for is valid: identifier and scope are
/// not empty and the suffix is a recognized one.
pub proof fn lemma_host_route_valid(h: Seq<char>)
    ensures
        host_route(h) matches Some(r) ==> valid_route(r),
{
    reveal_strlit("base");
    let all = cmux_domains();
    assert(all[0] == "cmux.app"@);
    if morph_host_id(h) is None {
        lemma_first_cmux_route_valid(h, all, 0);
        assert(all.skip(0) == all);
    }
}

/// The same for the cmux pattern over the domains from position `from` on.
proof fn lemma_first_cmux_route_valid(h: Seq<char>, domains: Seq<Seq<char>>, from: int)
    requires
        0 <= from <= domains.len(),
    ensures
        first_cmux_route(h, domains.skip(from)) matches Some(r) ==> r.morph_id.len() > 0
            && r.scope.len() > 0 && domains.contains(r.domain_suffix),
    decreases domains.len() - from,
{
    let rest = domains.skip(from);
    if rest.len() > 0 {
        assert(rest[0] == domains[from]);
        assert(rest.drop_first() == domains.skip(from + 1));
        match cmux_host_route(h, rest[0]) {
            Some(r) => {
                let tail = seq!['.'] + rest[0];
                let text = h.subrange("cmux-"@.len() as int, h.len() - tail.len());
                let cut = split_on(text, '-');
                let keep = |p: Seq<char>| p.len() > 0;
                let pieces = non_empty(cut);
                let n = pieces.len() as int;
                assert forall|i: int| 0 <= i < n implies (#[trigger] pieces[i]).len() > 0 by {
                    cut.lemma_filter_pred(keep, i);
                }
                let front = pieces.take(n - 2);
                assert forall|i: int| 0 <= i < n - 2 implies (#[trigger] front[i]).len() > 0 by {
                    assert(front[i] == pieces[i]);
                }
                lemma_join_not_empty(pieces.take(n - 2), '-');
                assert(pieces[n - 2].len() > 0);
            },
            None => {
                lemma_first_cmux_route_valid(h, domains, from + 1);
            },
        }
    }
}

/// No recognized domain lies at the end of a hostname that ends in another.
proof fn lemma_other_domain(x: Seq<char>, d: Seq<char>, e: Seq<char>)
    requires
        cmux_domains().contains(d),
        cmux_domains().contains(e),
        d != e,
    ensures
        !(seq!['.'] + e).is_suffix_of(x + seq!['.'] + d),
{
    reveal_strlit("cmux.app");
    reveal_strlit("cmux.sh");
    reveal_strlit("cmux.dev");
    reveal_strlit("cmux.local");
    reveal_strlit("cmux.localhost");
    reveal_strlit("autobuild.app");
    let h = x + seq!['.'] + d;
    let t = seq!['.'] + e;
    if t.is_suffix_of(h) {
        let sub = h.subrange(h.len() - t.len(), h.len() as int);
        assert(t[t.len() - 1] == sub[t.len() - 1]);
        assert(t[t.len() - 5] == sub[t.len() - 5]);
        assert(h[h.len() - 1] == d[d.len() - 1]);
        assert(h[h.len() - 5] == d[d.len() - 5]);
        assert(t[t.len() - 1] == e[e.len() - 1]);
        assert(t[t.len() - 5] == e[e.len() - 5]);
        assert(false);
    }
}

/// The text that `cmux_host` puts between `cmux-` and the domain.
pub open spec fn cmux_label(r: RouteView, port: u16) -> Seq<char> {
    r.morph_id + seq!['-'] + r.scope + seq!['-'] + decimal_digits(port as nat)
}

/// A hostname built from a lower-case route has no capital letters.
proof fn lemma_cmux_host_is_lower(r: RouteView, port: u16)
    requires
        cmux_domains().contains(r.domain_suffix),
        is_lower(r.morph_id),
        is_lower(r.scope),
    ensures
        is_lower(cmux_host(r, port)),
        cmux_host(r, port) == "cmux-"@ + cmux_label(r, port) + seq!['.'] + r.domain_suffix,
        cmux_host(r, port)[0] == 'c',
{
    reveal_strlit("cmux-");
    reveal_strlit("cmux.app");
    reveal_strlit("cmux.sh");
    reveal_strlit("cmux.dev");
    reveal_strlit("cmux.local");
    reveal_strlit("cmux.localhost");
    reveal_strlit("autobuild.app");
    lemma_decimal_round_trip(port as nat);
    let digits = decimal_digits(port as nat);
    let d = r.domain_suffix;
    assert(is_lower(d));
    assert(is_lower(digits)) by {
        assert forall|i: int| 0 <= i < digits.len() implies !('A' <= #[trigger] digits[i]
            && digits[i] <= 'Z') by {
            assert(is_digit(digits[i]));
        }
    }
    let a = "cmux-"@ + r.morph_id;
    let b = a + seq!['-'] + r.scope;
    let c = b + seq!['-'] + digits;
    assert(is_lower(a));
    assert(is_lower(b));
    assert(is_lower(c));
    assert(cmux_host(r, port) == c + seq!['.'] + d);
    assert("cmux-"@ + cmux_label(r, port) == c);
}

/// A hostname that does not begin with `p` does not have the morph shape.
proof fn lemma_not_morph(h: Seq<char>)
    requires
        h.len() > 0,
        h[0] != 'p',
    ensures
        morph_host_id(h) is None,
{
    reveal_strlit("port-");
    let head = "port-"@;
    if head.is_prefix_of(h) {
        assert(h.subrange(0, head.len() as int)[0] == h[0]);
    }
}

/// The pieces of the label of a built hostname: those of the identifier, then
/// the scope, then the port.
proof fn lemma_label_pieces(r: RouteView, port: u16)
    requires
        r.scope.len() > 0,
        !r.scope.contains('-'),
    ensures
        non_empty(split_on(cmux_label(r, port), '-')) == non_empty(split_on(r.morph_id, '-'))
            + seq![r.scope] + seq![decimal_digits(port as nat)],
{
    let digits = decimal_digits(port as nat);
    lemma_decimal_round_trip(port as nat);
    let keep = |p: Seq<char>| p.len() > 0;
    let id_pieces = split_on(r.morph_id, '-');
    assert(!digits.contains('-')) by {
        if digits.contains('-') {
            let i = choose|i: int| 0 <= i < digits.len() && digits[i] == '-';
            assert(is_digit(digits[i]));
        }
    }
    lemma_split_plain(r.scope, '-');
    lemma_split_plain(digits, '-');
    lemma_split_concat(r.morph_id + seq!['-'] + r.scope, digits, '-');
    lemma_split_concat(r.morph_id, r.scope, '-');
    assert(split_on(cmux_label(r, port), '-') == id_pieces + seq![r.scope] + seq![digits]);
    Seq::filter_distributes_over_add(id_pieces + seq![r.scope], seq![digits], keep);
    Seq::filter_distributes_over_add(id_pieces, seq![r.scope], keep);
    assert(seq![r.scope].filter(keep) == seq![r.scope]) by {
        reveal_with_fuel(Seq::filter, 2);
        assert(seq![r.scope].drop_last().len() == 0);
    }
    assert(seq![digits].filter(keep) == seq![digits]) by {
        reveal_with_fuel(Seq::filter, 2);
        assert(seq![digits].drop_last().len() == 0);
    }
}

/// The route's own domain reads a built hostname back as the route.
proof fn lemma_own_domain(r: RouteView, port: u16)
    requires
        valid_route(r),
        !r.scope.contains('-'),
        join(non_empty(split_on(r.morph_id, '-')), '-') == r.morph_id,
    ensures
        cmux_host_route(
            "cmux-"@ + cmux_label(r, port) + seq!['.'] + r.domain_suffix,
            r.domain_suffix,
        ) == Some(r),
{
    reveal_strlit("cmux-");
    let head = "cmux-"@;
    let label = cmux_label(r, port);
    let d = r.domain_suffix;
    let tail = seq!['.'] + d;
    let h = head + label + seq!['.'] + d;
    let digits = decimal_digits(port as nat);
    lemma_decimal_round_trip(port as nat);
    lemma_label_pieces(r, port);
    let kept = non_empty(split_on(r.morph_id, '-'));
    let pieces = non_empty(split_on(label, '-'));
    assert(kept.len() > 0) by {
        if kept.len() == 0 {
            assert(join(kept, '-').len() == 0);
        }
    }
    let n = pieces.len() as int;
    assert(pieces[n - 1] == digits);
    assert(pieces[n - 2] == r.scope);
    assert(pieces.take(n - 2) == kept);
    assert(h.subrange(h.len() - tail.len(), h.len() as int) == tail);
    assert(h.take(h.len() - tail.len()) == head + label);
    assert((head + label).subrange(0, head.len() as int) == head);
    assert(h.subrange(head.len() as int, h.len() - tail.len()) == label);
}

/// A hostname built from a route reads back as that route, provided the
/// hostname spells the route without ambiguity: no capital letters, a scope
/// without `-`, and an identifier whose `-` stand singly between other
/// characters.
pub proof fn lemma_route_round_trip(r: RouteView, port: u16)
    requires
        valid_route(r),
        is_lower(r.morph_id),
        is_lower(r.scope),
        !r.scope.contains('-'),
        join(non_empty(split_on(r.morph_id, '-')), '-') == r.morph_id,
    ensures
        host_route(lower(cmux_host(r, port))) == Some(r),
{
    let h = cmux_host(r, port);
    let d = r.domain_suffix;
    lemma_cmux_host_is_lower(r, port);
    lemma_lower_keeps(h);
    lemma_not_morph(h);
    lemma_own_domain(r, port);
    let all = cmux_domains();
    let at = choose|i: int| 0 <= i < all.len() && all[i] == d;
    assert forall|i: int| 0 <= i < at && #[trigger] all[i] != d implies cmux_host_route(
        h,
        all[i],
    ) is None by {
        lemma_other_domain("cmux-"@ + cmux_label(r, port), d, all[i]);
    }
    lemma_first_cmux_route(h, all, at);
}

/// Where one domain gives a route and no other domain that is tried before it
/// does, that route is the first.
proof fn lemma_first_cmux_route(h: Seq<char>, domains: Seq<Seq<char>>, at: int)
    requires
        0 <= at < domains.len(),
        cmux_host_route(h, domains[at]) is Some,
        forall|i: int|
            0 <= i < at && #[trigger] domains[i] != domains[at] ==> cmux_host_route(h, domains[i])
                is None,
    ensures
        first_cmux_route(h, domains) == cmux_host_route(h, domains[at]),
    decreases at,
{
    if at > 0 && domains[0] != domains[at] {
        let later = domains.drop_first();
        assert(later[at - 1] == domains[at]);
        assert forall|i: int|
            0 <= i < at - 1 && #[trigger] later[i] != later[at - 1] implies cmux_host_route(
            h,
            later[i],
        ) is None by {
            assert(later[i] == domains[i + 1]);
        }
        lemma_first_cmux_route(h, later, at - 1);
    }
}

} // verus!
