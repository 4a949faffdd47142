//! Header maps: reading values, comma-separated tokens and the removal of
//! hop-by-hop headers.

use crate::text::{
    ascii_text, chars_of, is_lower, keep_non_empty, lower, non_empty, same_text, split, split_on,
    string_of, to_lower, trim_blanks, trimmed, views, visible_text,
};
use http::header::{HeaderName, HeaderValue};
use http::HeaderMap;
use vstd::prelude::*;

verus! {

/// A header value of the `http` crate, carried as an opaque value.
#[verifier::external_type_specification]
#[verifier::external_body]
pub struct ExHeaderValue(HeaderValue);

/// The header multimap of the `http` crate, carried as an opaque value.
#[verifier::external_type_specification]
#[verifier::external_body]
#[verifier::reject_recursive_types(T)]
pub struct ExHeaderMap<T>(HeaderMap<T>);

/// What a header map holds: under each header name, spelled in lower case,
/// the bytes of its values in the order in which they were added.
pub uninterp spec fn header_fields(m: HeaderMap) -> Map<Seq<char>, Seq<Seq<u8>>>;

/// The number of header names that a header map holds.
pub uninterp spec fn header_count(m: HeaderMap) -> nat;

/// The number of header names below which a header map always takes another
/// one. A map refuses an insertion only where its table of 32768 slots would
/// have to be doubled, and it doubles its table at the earliest when a fifth
/// of the slots is taken.
pub open spec fn header_room() -> nat {
    6554
}

/// `HeaderMap::keys_len` counts the header names that the map holds.
#[verifier::external_body]
fn header_keys_len(m: &HeaderMap) -> (r: usize)
    ensures
        r == header_count(*m),
{
    m.keys_len()
}

/// `HeaderMap::get` finds the first value of a header, matching the name
/// without regard to ASCII case; `HeaderValue::as_bytes` gives its bytes.
#[verifier::external_body]
pub(crate) fn header_get(m: &HeaderMap, name: &str) -> (r: Option<Vec<u8>>)
    ensures
        match r {
            Some(v) => header_value(header_fields(*m), name@) == Some(v@),
            None => header_value(header_fields(*m), name@) is None,
        },
{
    m.get(name).map(|v| v.as_bytes().to_vec())
}

/// `HeaderMap::contains_key` says whether a header has at least one value,
/// matching the name without regard to ASCII case.
#[verifier::external_body]
pub(crate) fn header_has(m: &HeaderMap, name: &str) -> (r: bool)
    ensures
        r == header_fields(*m).contains_key(lower(name@)),
{
    m.contains_key(name)
}

/// `HeaderMap::remove` takes all values of a header out, matching the name
/// without regard to ASCII case, and leaves every other header alone. The map
/// then holds one name less, or as many as before.
#[verifier::external_body]
pub(crate) fn header_remove(m: &mut HeaderMap, name: &str)
    ensures
        header_fields(*final(m)) == header_fields(*old(m)).remove(lower(name@)),
        header_count(*final(m)) <= header_count(*old(m)),
{
    m.remove(name);
}

/// The bytes that a header value may hold: all but the control characters,
/// of which the tab alone is allowed.
pub open spec fn is_value_byte(b: u8) -> bool {
    (b >= 32 && b != 127) || b == 9
}

/// Whether all bytes may stand in a header value.
pub open spec fn value_bytes_ok(bytes: Seq<u8>) -> bool {
    forall|i: int| 0 <= i < bytes.len() ==> is_value_byte(#[trigger] bytes[i])
}

/// `HeaderMap::try_insert` makes the given value the only value of a header.
/// The name goes through `HeaderName::from_bytes` and the value through
/// `HeaderValue::from_bytes`; where either refuses its input, or the map is
/// full, the map stays as it was and the answer is `false`.
/// `HeaderValue::from_bytes` refuses exactly the values that hold a byte
/// which is not allowed. `HeaderName::from_bytes` takes `host` and
/// `connection` in any case. `try_insert` fails only in `try_grow`, where a
/// table of 32768 slots would have to be doubled, and in `try_insert_entry`,
/// at 32768 entries; `try_reserve_one` doubles the table at the earliest
/// when a fifth of its slots is taken, so that a map with fewer than
/// [`header_room`] names always takes another one.
#[verifier::external_body]
pub(crate) fn header_set(m: &mut HeaderMap, name: &str, value: &Vec<u8>) -> (r: bool)
    ensures
        r ==> header_fields(*final(m)) == header_fields(*old(m)).insert(lower(name@), seq![value@]),
        !r ==> header_fields(*final(m)) == header_fields(*old(m)),
        !value_bytes_ok(value@) ==> !r,
        (lower(name@) == "host"@ || lower(name@) == "connection"@) && value_bytes_ok(value@)
            && header_count(*old(m)) < header_room() ==> r,
{
    match (HeaderName::from_bytes(name.as_bytes()), HeaderValue::from_bytes(value)) {
        (Ok(n), Ok(v)) => m.try_insert(n, v).is_ok(),
        _ => false,
    }
}

/// `HeaderMap::clone` makes a map that holds the same headers.
#[verifier::external_body]
pub(crate) fn header_copy(m: &HeaderMap) -> (r: HeaderMap)
    ensures
        header_fields(r) == header_fields(*m),
        header_count(r) == header_count(*m),
{
    m.clone()
}

/// The number of header names that a map holds.
pub fn header_names(headers: &HeaderMap) -> (r: usize)
    ensures
        r == header_count(*headers),
{
    header_keys_len(headers)
}

/// The first value of a header, looked up without regard to ASCII case.
pub open spec fn header_value(fields: Map<Seq<char>, Seq<Seq<u8>>>, name: Seq<char>) -> Option<
    Seq<u8>,
> {
    if fields.contains_key(lower(name)) && fields[lower(name)].len() > 0 {
        Some(fields[lower(name)][0])
    } else {
        None
    }
}

/// The first value of a header as text, where it is there and all its bytes
/// are visible ASCII.
pub open spec fn header_text(fields: Map<Seq<char>, Seq<Seq<u8>>>, name: Seq<char>) -> Option<
    Seq<char>,
> {
    match header_value(fields, name) {
        Some(v) => ascii_text(v),
        None => None,
    }
}

/// Each piece trimmed of blanks and lower-cased.
pub open spec fn tidy(pieces: Seq<Seq<char>>) -> Seq<Seq<char>> {
    Seq::new(pieces.len(), |i: int| lower(trim_blanks(pieces[i])))
}

/// The tokens of a comma-separated header value: the pieces between commas,
/// trimmed of blanks and lower-cased, without the empty ones.
pub open spec fn value_tokens(text: Seq<char>) -> Seq<Seq<char>> {
    non_empty(tidy(split_on(text, ',')))
}

/// The headers that apply to one hop only and are never forwarded.
pub open spec fn hop_by_hop_names() -> Seq<Seq<char>> {
    seq![
        "connection"@,
        "keep-alive"@,
        "proxy-authenticate"@,
        "proxy-authorization"@,
        "te"@,
        "trailers"@,
        "transfer-encoding"@,
        "upgrade"@,
        "proxy-connection"@,
    ]
}

/// The header names that the `Connection` header lists.
pub open spec fn connection_names(fields: Map<Seq<char>, Seq<Seq<u8>>>) -> Seq<Seq<char>> {
    match header_text(fields, "connection"@) {
        Some(text) => value_tokens(text),
        None => Seq::empty(),
    }
}

/// The headers that are left when the hop-by-hop headers, and those that the
/// `Connection` header lists, are taken out.
pub open spec fn stripped(fields: Map<Seq<char>, Seq<Seq<u8>>>) -> Map<Seq<char>, Seq<Seq<u8>>> {
    fields.remove_keys(hop_by_hop_names().to_set().union(connection_names(fields).to_set()))
}

/// The first value of a header.
pub fn first_value(headers: &HeaderMap, name: &str) -> (r: Option<Vec<u8>>)
    ensures
        match r {
            Some(v) => header_value(header_fields(*headers), name@) == Some(v@),
            None => header_value(header_fields(*headers), name@) is None,
        },
{
    header_get(headers, name)
}

/// The first value of a header as text.
pub fn text_value(headers: &HeaderMap, name: &str) -> (r: Option<Vec<char>>)
    ensures
        match r {
            Some(t) => header_text(header_fields(*headers), name@) == Some(t@),
            None => header_text(header_fields(*headers), name@) is None,
        },
{
    match header_get(headers, name) {
        Some(v) => visible_text(&v),
        None => None,
    }
}

/// The tokens of a comma-separated header value.
pub fn tokens_of(text: &Vec<char>) -> (r: Vec<Vec<char>>)
    ensures
        views(r@) == value_tokens(text@),
{
    let pieces = split(text, ',');
    let ghost all = views(pieces@);
    let mut tidied: Vec<Vec<char>> = Vec::new();
    let mut i: usize = 0;
    while i < pieces.len()
        invariant
            i <= pieces.len(),
            all == views(pieces@),
            tidied@.len() == i,
            forall|k: int| 0 <= k < i ==> (#[trigger] tidied@[k])@ == lower(trim_blanks(all[k])),
        decreases pieces.len() - i,
    {
        assert(all[i as int] == pieces@[i as int]@);
        tidied.push(to_lower(&trimmed(&pieces[i], ' ', '\t')));
        i += 1;
    }
    assert(views(tidied@) =~= tidy(all));
    keep_non_empty(tidied)
}

/// Whether `token` is among the tokens.
pub fn has_token(tokens: &Vec<Vec<char>>, token: &str) -> (r: bool)
    ensures
        r == views(tokens@).contains(token@),
{
    let wanted = chars_of(token);
    let ghost all = views(tokens@);
    let mut i: usize = 0;
    while i < tokens.len()
        invariant
            i <= tokens.len(),
            all == views(tokens@),
            wanted@ == token@,
            forall|k: int| 0 <= k < i ==> all[k] != token@,
        decreases tokens.len() - i,
    {
        assert(all[i as int] == tokens@[i as int]@);
        if same_text(&tokens[i], &wanted) {
            return true;
        }
        i += 1;
    }
    false
}

/// Lower-casing a text twice is lower-casing it once.
pub proof fn lemma_lower_twice(s: Seq<char>)
    ensures
        lower(lower(s)) == lower(s),
        is_lower(lower(s)),
{
    assert(lower(lower(s)) =~= lower(s));
}

/// Every token of a header value is in lower case.
pub proof fn lemma_tokens_are_lower(text: Seq<char>, i: int)
    requires
        0 <= i < value_tokens(text).len(),
    ensures
        lower(value_tokens(text)[i]) == value_tokens(text)[i],
{
    let tidied = tidy(split_on(text, ','));
    let keep = |p: Seq<char>| p.len() > 0;
    let token = value_tokens(text)[i];
    tidied.lemma_filter_contains_rev(keep, token);
    let k = choose|k: int| 0 <= k < tidied.len() && tidied[k] == token;
    lemma_lower_twice(trim_blanks(split_on(text, ',')[k]));
}

/// Each name lower-cased.
pub open spec fn lowered(names: Seq<Seq<char>>) -> Seq<Seq<char>> {
    Seq::new(names.len(), |i: int| lower(names[i]))
}

/// Takes every listed header out of the map. The names are matched without
/// regard to ASCII case.
pub fn remove_headers(headers: &mut HeaderMap, names: &Vec<Vec<char>>)
    ensures
        header_fields(*final(headers)) == header_fields(*old(headers)).remove_keys(
            lowered(views(names@)).to_set(),
        ),
{
    let ghost all = lowered(views(names@));
    let ghost before = header_fields(*headers);
    let mut i: usize = 0;
    assert(before.remove_keys(all.take(0).to_set()) =~= before);
    while i < names.len()
        invariant
            i <= names.len(),
            all == lowered(views(names@)),
            header_fields(*headers) == before.remove_keys(all.take(i as int).to_set()),
        decreases names.len() - i,
    {
        let name = string_of(&names[i]);
        assert(lower(name@) == all[i as int]);
        header_remove(headers, name.as_str());
        proof {
            let short = all.take(i as int);
            let long = all.take(i + 1);
            let done = short.to_set();
            let next = long.to_set();
            assert(next =~= done.insert(all[i as int])) by {
                assert forall|k: Seq<char>| next.contains(k) <==> done.insert(
                    all[i as int],
                ).contains(k) by {
                    if long.contains(k) {
                        let j = choose|j: int| 0 <= j < long.len() && long[j] == k;
                        if j < i {
                            assert(short[j] == k);
                        }
                    }
                    if short.contains(k) {
                        let j = choose|j: int| 0 <= j < short.len() && short[j] == k;
                        assert(long[j] == k);
                    }
                    if k == all[i as int] {
                        assert(long[i as int] == k);
                    }
                }
            }
            assert(before.remove_keys(done).remove(all[i as int]) =~= before.remove_keys(next));
        }
        i += 1;
    }
    assert(all == all.take(names.len() as int));
}

/// Lower-casing leaves names that are in lower case as they are.
pub proof fn lemma_lowered_keeps(names: Seq<Seq<char>>)
    requires
        forall|i: int| 0 <= i < names.len() ==> lower(#[trigger] names[i]) == names[i],
    ensures
        lowered(names) == names,
{
    assert(lowered(names) =~= names);
}

/// The hop-by-hop header names.
fn hop_by_hop_list() -> (r: Vec<Vec<char>>)
    ensures
        views(r@) == hop_by_hop_names(),
        forall|i: int| 0 <= i < r@.len() ==> lower(#[trigger] views(r@)[i]) == views(r@)[i],
{
    let mut r: Vec<Vec<char>> = Vec::new();
    r.push(chars_of("connection"));
    r.push(chars_of("keep-alive"));
    r.push(chars_of("proxy-authenticate"));
    r.push(chars_of("proxy-authorization"));
    r.push(chars_of("te"));
    r.push(chars_of("trailers"));
    r.push(chars_of("transfer-encoding"));
    r.push(chars_of("upgrade"));
    r.push(chars_of("proxy-connection"));
    assert(views(r@) =~= hop_by_hop_names());
    proof {
        lemma_hop_names_are_lower();
    }
    r
}

/// The hop-by-hop header names are in lower case.
pub proof fn lemma_hop_names_are_lower()
    ensures
        forall|i: int|
            0 <= i < hop_by_hop_names().len() ==> lower(#[trigger] hop_by_hop_names()[i])
                == hop_by_hop_names()[i],
{
    reveal_strlit("connection");
    reveal_strlit("keep-alive");
    reveal_strlit("proxy-authenticate");
    reveal_strlit("proxy-authorization");
    reveal_strlit("te");
    reveal_strlit("trailers");
    reveal_strlit("transfer-encoding");
    reveal_strlit("upgrade");
    reveal_strlit("proxy-connection");
    let names = hop_by_hop_names();
    assert forall|i: int| 0 <= i < names.len() implies lower(#[trigger] names[i]) == names[i] by {
        assert(is_lower(names[i]));
        assert(lower(names[i]) =~= names[i]);
    }
}

/// Takes the hop-by-hop headers out of the map, and with them every header
/// that the `Connection` header lists.
pub fn strip_hop_by_hop_headers(headers: &mut HeaderMap)
    ensures
        header_fields(*final(headers)) == stripped(header_fields(*old(headers))),
{
    let ghost before = header_fields(*headers);
    let listed: Vec<Vec<char>> = match text_value(headers, "connection") {
        Some(text) => tokens_of(&text),
        None => Vec::new(),
    };
    assert(views(listed@) =~= connection_names(before));
    assert forall|i: int| 0 <= i < listed@.len() implies lower(#[trigger] views(listed@)[i])
        == views(listed@)[i] by {
        let text = header_text(before, "connection"@)->0;
        lemma_tokens_are_lower(text, i);
    }
    let hops = hop_by_hop_list();
    proof {
        lemma_lowered_keeps(views(hops@));
        lemma_lowered_keeps(views(listed@));
    }
    remove_headers(headers, &hops);
    remove_headers(headers, &listed);
    assert(before.remove_keys(hop_by_hop_names().to_set()).remove_keys(views(listed@).to_set())
        =~= stripped(before));
}

/// Taking the hop-by-hop headers out a second time changes nothing.
pub proof fn lemma_strip_twice(fields: Map<Seq<char>, Seq<Seq<u8>>>)
    ensures
        stripped(stripped(fields)) == stripped(fields),
{
    reveal_strlit("connection");
    lemma_hop_names_are_lower();
    let once = stripped(fields);
    let names = hop_by_hop_names();
    assert(names[0] == "connection"@);
    assert(names.to_set().contains("connection"@));
    assert(lower("connection"@) == "connection"@);
    assert(!once.contains_key("connection"@));
    assert(connection_names(once) == Seq::<Seq<char>>::empty());
    assert(connection_names(once).to_set() =~= Set::<Seq<char>>::empty());
    assert(stripped(once) =~= once);
}

} // verus!
