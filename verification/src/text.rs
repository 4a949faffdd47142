//! Character-level helpers shared by the hostname, route and header parsers.
//!
//! Text is modelled as `Seq<char>`; executable code works on `Vec<char>` so
//! that positions are character positions throughout.

use vstd::prelude::*;

verus! {

/// ASCII lower-casing of one character: `A`..`Z` map to `a`..`z`, everything
/// else is left alone.
pub open spec fn lower_char(c: char) -> char {
    if 'A' <= c && c <= 'Z' {
        ((c as u8) + 32) as char
    } else {
        c
    }
}

/// ASCII lower-casing of a whole text.
pub open spec fn lower(s: Seq<char>) -> Seq<char> {
    Seq::new(s.len(), |i: int| lower_char(s[i]))
}

/// A text that ASCII lower-casing leaves unchanged.
pub open spec fn is_lower(s: Seq<char>) -> bool {
    forall|i: int| 0 <= i < s.len() ==> !('A' <= #[trigger] s[i] && s[i] <= 'Z')
}

/// `true` for the ten ASCII digits.
pub open spec fn is_digit(c: char) -> bool {
    '0' <= c && c <= '9'
}

/// Every character of `s` is an ASCII digit.
pub open spec fn all_digits(s: Seq<char>) -> bool {
    forall|i: int| 0 <= i < s.len() ==> is_digit(#[trigger] s[i])
}

/// The number that a run of ASCII digits denotes in base ten.
pub open spec fn decimal_value(s: Seq<char>) -> nat
    decreases s.len(),
{
    if s.len() == 0 {
        0
    } else {
        decimal_value(s.drop_last()) * 10 + (s.last() as u8 - '0' as u8) as nat
    }
}

/// The character for a digit value below ten.
pub open spec fn digit_char(d: nat) -> char {
    ((d % 10) as u8 + '0' as u8) as char
}

/// The shortest base-ten spelling of `n`.
pub open spec fn decimal_digits(n: nat) -> Seq<char>
    decreases n,
{
    if n < 10 {
        seq![digit_char(n)]
    } else {
        decimal_digits(n / 10).push(digit_char(n % 10))
    }
}

/// The pieces of `s` between occurrences of `sep`. A text without `sep` is one
/// piece; `k` separators always give `k + 1` pieces, some possibly empty.
pub open spec fn split_on(s: Seq<char>, sep: char) -> Seq<Seq<char>>
    decreases s.len(),
{
    if s.len() == 0 {
        seq![Seq::<char>::empty()]
    } else {
        let before = split_on(s.drop_last(), sep);
        if s.last() == sep {
            before.push(Seq::<char>::empty())
        } else {
            before.update(before.len() - 1, before.last().push(s.last()))
        }
    }
}

/// The pieces that are not empty, in order.
pub open spec fn non_empty(pieces: Seq<Seq<char>>) -> Seq<Seq<char>> {
    pieces.filter(|p: Seq<char>| p.len() > 0)
}

/// The pieces written one after another with `sep` between neighbours.
pub open spec fn join(pieces: Seq<Seq<char>>, sep: char) -> Seq<char>
    decreases pieces.len(),
{
    if pieces.len() == 0 {
        Seq::<char>::empty()
    } else if pieces.len() == 1 {
        pieces[0]
    } else {
        join(pieces.drop_last(), sep).push(sep) + pieces.last()
    }
}

/// The text of an optional string.
pub open spec fn text_of(s: Option<String>) -> Option<Seq<char>> {
    match s {
        Some(t) => Some(t@),
        None => None,
    }
}

/// The views of a vector of character vectors.
pub open spec fn views(v: Seq<Vec<char>>) -> Seq<Seq<char>> {
    Seq::new(v.len(), |i: int| v[i]@)
}

/// `c` stands at position `i` of `s` and nowhere before it.
pub open spec fn is_first_at(s: Seq<char>, c: char, i: int) -> bool {
    0 <= i < s.len() && s[i] == c && !s.take(i).contains(c)
}

/// `c` stands at position `i` of `s` and nowhere behind it.
pub open spec fn is_last_at(s: Seq<char>, c: char, i: int) -> bool {
    0 <= i < s.len() && s[i] == c && !s.skip(i + 1).contains(c)
}

/// The position of the first `c` in `s`, if there is one.
pub open spec fn first_index(s: Seq<char>, c: char) -> Option<int> {
    if s.contains(c) {
        Some(choose|i: int| is_first_at(s, c, i))
    } else {
        None
    }
}

/// The position of the last `c` in `s`, if there is one.
pub open spec fn last_index(s: Seq<char>, c: char) -> Option<int> {
    if s.contains(c) {
        Some(choose|i: int| is_last_at(s, c, i))
    } else {
        None
    }
}

/// The number of characters equal to `a` or `b` that `s` begins with.
pub open spec fn leading_run(s: Seq<char>, a: char, b: char) -> nat
    decreases s.len(),
{
    if s.len() > 0 && (s[0] == a || s[0] == b) {
        1 + leading_run(s.drop_first(), a, b)
    } else {
        0
    }
}

/// The number of characters equal to `a` or `b` that `s` ends with.
pub open spec fn trailing_run(s: Seq<char>, a: char, b: char) -> nat
    decreases s.len(),
{
    if s.len() > 0 && (s.last() == a || s.last() == b) {
        1 + trailing_run(s.drop_last(), a, b)
    } else {
        0
    }
}

/// `s` without the characters equal to `a` or `b` at its two ends.
pub open spec fn trim_chars(s: Seq<char>, a: char, b: char) -> Seq<char> {
    let rest = s.skip(leading_run(s, a, b) as int);
    rest.take(rest.len() - trailing_run(rest, a, b))
}

/// `s` without the spaces and tabs at its two ends.
pub open spec fn trim_blanks(s: Seq<char>) -> Seq<char> {
    trim_chars(s, ' ', '\t')
}

/// `true` for the bytes of visible ASCII text: the printable characters, the
/// space and the tab.
pub open spec fn is_visible_byte(b: u8) -> bool {
    (32 <= b && b < 127) || b == 9
}

/// The text that bytes spell, where all of them are visible ASCII.
pub open spec fn ascii_text(bytes: Seq<u8>) -> Option<Seq<char>> {
    if forall|i: int| 0 <= i < bytes.len() ==> is_visible_byte(#[trigger] bytes[i]) {
        Some(Seq::new(bytes.len(), |i: int| bytes[i] as char))
    } else {
        None
    }
}

/// Executable counterpart of [`lower_char`].
pub fn to_lower_char(c: char) -> (r: char)
    ensures
        r == lower_char(c),
{
    if 'A' <= c && c <= 'Z' {
        ((c as u8) + 32) as char
    } else {
        c
    }
}

/// The characters of a string slice, in order.
pub fn chars_of(s: &str) -> (v: Vec<char>)
    ensures
        v@ == s@,
{
    let mut v: Vec<char> = Vec::new();
    for c in it: s.chars()
        invariant
            it.seq() == s@,
            v@ == s@.take(it.index() as int),
    {
        v.push(c);
    }
    v
}

/// `String::push` appends the given character to the end of the string.
pub assume_specification[ String::push ](s: &mut String, c: char)
    ensures
        final(s)@ == old(s)@.push(c),
;

/// The string made of the given characters, in order.
pub fn string_of(v: &Vec<char>) -> (s: String)
    ensures
        s@ == v@,
{
    let mut s = String::new();
    let mut i: usize = 0;
    while i < v.len()
        invariant
            i <= v.len(),
            s@ == v@.take(i as int),
        decreases v.len() - i,
    {
        s.push(v[i]);
        i += 1;
    }
    s
}

/// Whether two string slices hold the same text.
pub fn str_eq(a: &str, b: &str) -> (r: bool)
    ensures
        r == (a@ == b@),
{
    same_text(&chars_of(a), &chars_of(b))
}

/// ASCII lower-cases every character.
pub fn to_lower(v: &Vec<char>) -> (r: Vec<char>)
    ensures
        r@ == lower(v@),
{
    let mut r: Vec<char> = Vec::new();
    let mut i: usize = 0;
    while i < v.len()
        invariant
            i <= v.len(),
            r@ == lower(v@).take(i as int),
        decreases v.len() - i,
    {
        r.push(to_lower_char(v[i]));
        i += 1;
    }
    r
}

/// Whether two character vectors hold the same text.
pub fn same_text(a: &Vec<char>, b: &Vec<char>) -> (r: bool)
    ensures
        r == (a@ == b@),
{
    if a.len() != b.len() {
        return false;
    }
    let mut i: usize = 0;
    while i < a.len()
        invariant
            i <= a.len(),
            a.len() == b.len(),
            a@.take(i as int) == b@.take(i as int),
        decreases a.len() - i,
    {
        if a[i] != b[i] {
            return false;
        }
        assert(a@.take(i + 1) == a@.take(i as int).push(a@[i as int]));
        assert(b@.take(i + 1) == b@.take(i as int).push(b@[i as int]));
        i += 1;
    }
    assert(a@ == a@.take(a.len() as int));
    assert(b@ == b@.take(b.len() as int));
    true
}

/// Whether `v` begins with `p`.
pub fn starts_with(v: &Vec<char>, p: &Vec<char>) -> (r: bool)
    ensures
        r == p@.is_prefix_of(v@),
{
    if p.len() > v.len() {
        return false;
    }
    let mut i: usize = 0;
    while i < p.len()
        invariant
            i <= p.len(),
            p.len() <= v.len(),
            v@.take(i as int) == p@.take(i as int),
        decreases p.len() - i,
    {
        if v[i] != p[i] {
            assert(v@.subrange(0, p@.len() as int)[i as int] != p@[i as int]);
            return false;
        }
        assert(v@.take(i + 1) == v@.take(i as int).push(v@[i as int]));
        assert(p@.take(i + 1) == p@.take(i as int).push(p@[i as int]));
        i += 1;
    }
    assert(p@ == p@.take(p.len() as int));
    true
}

/// Whether `v` ends with `p`.
pub fn ends_with(v: &Vec<char>, p: &Vec<char>) -> (r: bool)
    ensures
        r == p@.is_suffix_of(v@),
{
    if p.len() > v.len() {
        return false;
    }
    let off: usize = v.len() - p.len();
    let mut i: usize = 0;
    while i < p.len()
        invariant
            i <= p.len(),
            p.len() <= v.len(),
            off == v.len() - p.len(),
            v@.subrange(off as int, off + i) == p@.take(i as int),
        decreases p.len() - i,
    {
        if v[off + i] != p[i] {
            assert(v@.subrange(off as int, v@.len() as int)[i as int] != p@[i as int]);
            return false;
        }
        assert(v@.subrange(off as int, off + i + 1) == v@.subrange(off as int, off + i).push(
            v@[off + i],
        ));
        assert(p@.take(i + 1) == p@.take(i as int).push(p@[i as int]));
        i += 1;
    }
    assert(p@ == p@.take(p.len() as int));
    true
}

/// A copy of the characters at positions `from..to`.
pub fn slice_of(v: &Vec<char>, from: usize, to: usize) -> (r: Vec<char>)
    requires
        from <= to <= v.len(),
    ensures
        r@ == v@.subrange(from as int, to as int),
{
    let mut r: Vec<char> = Vec::new();
    let mut i: usize = from;
    while i < to
        invariant
            from <= i <= to,
            to <= v.len(),
            r@ == v@.subrange(from as int, i as int),
        decreases to - i,
    {
        r.push(v[i]);
        assert(v@.subrange(from as int, i + 1) == v@.subrange(from as int, i as int).push(
            v@[i as int],
        ));
        i += 1;
    }
    r
}

/// The first `c` stands at `i`.
pub proof fn lemma_first_index(s: Seq<char>, c: char, i: int)
    requires
        0 <= i < s.len(),
        s[i] == c,
        !s.take(i).contains(c),
    ensures
        first_index(s, c) == Some(i),
{
    assert(s.contains(c));
    assert(is_first_at(s, c, i));
    let j = first_index(s, c)->0;
    assert(is_first_at(s, c, j));
    if j < i {
        assert(s.take(i)[j] == c);
        assert(s.take(i).contains(c));
    }
    if i < j {
        assert(s.take(j)[i] == c);
        assert(s.take(j).contains(c));
    }
    assert(i == j);
}

/// The last `c` stands at `i`.
pub proof fn lemma_last_index(s: Seq<char>, c: char, i: int)
    requires
        0 <= i < s.len(),
        s[i] == c,
        !s.skip(i + 1).contains(c),
    ensures
        last_index(s, c) == Some(i),
{
    assert(s.contains(c));
    assert(is_last_at(s, c, i));
    let j = last_index(s, c)->0;
    assert(is_last_at(s, c, j));
    if j < i {
        assert(s.skip(j + 1)[i - j - 1] == c);
        assert(s.skip(j + 1).contains(c));
    }
    if i < j {
        assert(s.skip(i + 1)[j - i - 1] == c);
        assert(s.skip(i + 1).contains(c));
    }
    assert(i == j);
}

/// The position of the first `c` in `v`.
pub fn find_char(v: &Vec<char>, c: char) -> (r: Option<usize>)
    ensures
        match r {
            Some(i) => first_index(v@, c) == Some(i as int) && i < v.len(),
            None => first_index(v@, c) is None,
        },
{
    let mut i: usize = 0;
    while i < v.len()
        invariant
            i <= v.len(),
            !v@.take(i as int).contains(c),
        decreases v.len() - i,
    {
        if v[i] == c {
            proof {
                lemma_first_index(v@, c, i as int);
            }
            return Some(i);
        }
        assert(!v@.take(i + 1).contains(c)) by {
            let t = v@.take(i + 1);
            if t.contains(c) {
                let k = choose|k: int| 0 <= k < t.len() && t[k] == c;
                assert(v@.take(i as int)[k] == c);
            }
        }
        i += 1;
    }
    assert(v@ == v@.take(v.len() as int));
    None
}

/// The position of the last `c` in `v`.
pub fn find_last_char(v: &Vec<char>, c: char) -> (r: Option<usize>)
    ensures
        match r {
            Some(i) => last_index(v@, c) == Some(i as int) && i < v.len(),
            None => last_index(v@, c) is None,
        },
{
    let mut i: usize = v.len();
    assert(v@.skip(v.len() as int).len() == 0);
    while i > 0
        invariant
            i <= v.len(),
            !v@.skip(i as int).contains(c),
        decreases i,
    {
        if v[i - 1] == c {
            proof {
                lemma_last_index(v@, c, i - 1);
            }
            return Some(i - 1);
        }
        assert(!v@.skip(i - 1).contains(c)) by {
            let t = v@.skip(i - 1);
            let u = v@.skip(i as int);
            if t.contains(c) {
                let k = choose|k: int| 0 <= k < t.len() && t[k] == c;
                if k == 0 {
                    assert(t[0] == v@[i - 1]);
                } else {
                    assert(u[k - 1] == t[k]);
                    assert(u.contains(c));
                }
            }
        }
        i -= 1;
    }
    assert(v@ == v@.skip(0));
    None
}

/// If the first `k` characters of `s` are `a` or `b` and the next one, if any,
/// is neither, then `s` begins with a run of exactly `k`.
pub proof fn lemma_leading_run(s: Seq<char>, a: char, b: char, k: int)
    requires
        0 <= k <= s.len(),
        forall|i: int| 0 <= i < k ==> (#[trigger] s[i] == a || s[i] == b),
        k == s.len() || !(s[k] == a || s[k] == b),
    ensures
        leading_run(s, a, b) == k,
    decreases k,
{
    if k > 0 {
        assert(s[0] == a || s[0] == b);
        assert forall|i: int| 0 <= i < k - 1 implies (#[trigger] s.drop_first()[i] == a
            || s.drop_first()[i] == b) by {
            assert(s[i + 1] == a || s[i + 1] == b);
        }
        lemma_leading_run(s.drop_first(), a, b, k - 1);
    }
}

/// The same from the other end.
pub proof fn lemma_trailing_run(s: Seq<char>, a: char, b: char, k: int)
    requires
        0 <= k <= s.len(),
        forall|i: int| s.len() - k <= i < s.len() ==> (#[trigger] s[i] == a || s[i] == b),
        k == s.len() || !(s[s.len() - k - 1] == a || s[s.len() - k - 1] == b),
    ensures
        trailing_run(s, a, b) == k,
    decreases k,
{
    if k > 0 {
        assert(s[s.len() - 1] == a || s[s.len() - 1] == b);
        assert forall|i: int| s.drop_last().len() - (k - 1) <= i < s.drop_last().len() implies (
        #[trigger] s.drop_last()[i] == a || s.drop_last()[i] == b) by {
            assert(s[i] == a || s[i] == b);
        }
        lemma_trailing_run(s.drop_last(), a, b, k - 1);
    }
}

/// Takes the characters equal to `a` or `b` off the two ends.
pub fn trimmed(v: &Vec<char>, a: char, b: char) -> (r: Vec<char>)
    ensures
        r@ == trim_chars(v@, a, b),
{
    let mut from: usize = 0;
    while from < v.len() && (v[from] == a || v[from] == b)
        invariant
            from <= v.len(),
            forall|i: int| 0 <= i < from ==> (#[trigger] v@[i] == a || v@[i] == b),
        decreases v.len() - from,
    {
        from += 1;
    }
    proof {
        lemma_leading_run(v@, a, b, from as int);
    }
    let ghost rest = v@.skip(from as int);
    let mut to: usize = v.len();
    while to > from && (v[to - 1] == a || v[to - 1] == b)
        invariant
            from <= to <= v.len(),
            rest == v@.skip(from as int),
            forall|i: int|
                to - from <= i < rest.len() ==> (#[trigger] rest[i] == a || rest[i] == b),
        decreases to,
    {
        to -= 1;
    }
    proof {
        lemma_trailing_run(rest, a, b, v.len() - to);
    }
    let r = slice_of(v, from, to);
    assert(r@ == rest.take(rest.len() - trailing_run(rest, a, b)));
    r
}

/// Reads bytes as text, where all of them are visible ASCII.
pub fn visible_text(bytes: &Vec<u8>) -> (r: Option<Vec<char>>)
    ensures
        match r {
            Some(t) => ascii_text(bytes@) == Some(t@),
            None => ascii_text(bytes@) is None,
        },
{
    let mut t: Vec<char> = Vec::new();
    let mut i: usize = 0;
    while i < bytes.len()
        invariant
            i <= bytes.len(),
            t@.len() == i,
            forall|k: int| 0 <= k < i ==> is_visible_byte(#[trigger] bytes@[k]),
            forall|k: int| 0 <= k < i ==> t@[k] == bytes@[k] as char,
        decreases bytes.len() - i,
    {
        let b = bytes[i];
        if !((32 <= b && b < 127) || b == 9) {
            assert(!is_visible_byte(bytes@[i as int]));
            return None;
        }
        t.push(b as char);
        i += 1;
    }
    assert(t@ =~= Seq::new(bytes@.len(), |k: int| bytes@[k] as char));
    Some(t)
}

/// The pieces of `v` between occurrences of `sep`.
pub fn split(v: &Vec<char>, sep: char) -> (r: Vec<Vec<char>>)
    ensures
        views(r@) == split_on(v@, sep),
{
    let mut done: Vec<Vec<char>> = Vec::new();
    let mut cur: Vec<char> = Vec::new();
    let mut i: usize = 0;
    assert(views(done@).push(cur@) == split_on(v@.take(0), sep));
    while i < v.len()
        invariant
            i <= v.len(),
            views(done@).push(cur@) == split_on(v@.take(i as int), sep),
        decreases v.len() - i,
    {
        let ghost before = split_on(v@.take(i as int), sep);
        assert(v@.take(i + 1).drop_last() == v@.take(i as int));
        if v[i] == sep {
            let ghost old_done = views(done@);
            done.push(cur);
            cur = Vec::new();
            assert(views(done@) == old_done.push(done@.last()@));
        } else {
            cur.push(v[i]);
            assert(views(done@).push(cur@) == before.update(
                before.len() - 1,
                before.last().push(v@[i as int]),
            ));
        }
        i += 1;
    }
    assert(v@ == v@.take(v.len() as int));
    let ghost old_done = views(done@);
    done.push(cur);
    assert(views(done@) == old_done.push(done@.last()@));
    done
}

/// Drops the empty pieces.
pub fn keep_non_empty(pieces: Vec<Vec<char>>) -> (r: Vec<Vec<char>>)
    ensures
        views(r@) == non_empty(views(pieces@)),
{
    let ghost all = views(pieces@);
    let ghost keep = |p: Seq<char>| p.len() > 0;
    let mut r: Vec<Vec<char>> = Vec::new();
    let mut i: usize = 0;
    assert(all.take(0).filter(keep) == Seq::<Seq<char>>::empty());
    while i < pieces.len()
        invariant
            i <= pieces.len(),
            all == views(pieces@),
            keep == |p: Seq<char>| p.len() > 0,
            views(r@) == all.take(i as int).filter(keep),
        decreases pieces.len() - i,
    {
        proof {
            assert(all.take(i + 1).drop_last() == all.take(i as int));
            reveal_with_fuel(Seq::filter, 2);
        }
        if pieces[i].len() > 0 {
            let ghost old_r = views(r@);
            r.push(pieces[i].clone());
            assert(r@.last()@ == pieces@[i as int]@);
            assert(views(r@) == old_r.push(all[i as int]));
        }
        i += 1;
    }
    assert(all == all.take(pieces.len() as int));
    r
}

/// Writes the pieces `from..to` one after another with `sep` between neighbours.
pub fn join_range(pieces: &Vec<Vec<char>>, from: usize, to: usize, sep: char) -> (r: Vec<char>)
    requires
        from <= to <= pieces.len(),
    ensures
        r@ == join(views(pieces@).subrange(from as int, to as int), sep),
{
    let ghost all = views(pieces@);
    let mut r: Vec<char> = Vec::new();
    let mut i: usize = from;
    assert(all.subrange(from as int, from as int).len() == 0);
    while i < to
        invariant
            from <= i <= to,
            to <= pieces.len(),
            all == views(pieces@),
            r@ == join(all.subrange(from as int, i as int), sep),
        decreases to - i,
    {
        let ghost upto = all.subrange(from as int, i + 1);
        assert(upto.drop_last() == all.subrange(from as int, i as int));
        assert(upto.last() == pieces@[i as int]@);
        if i > from {
            r.push(sep);
        }
        let ghost head = r@;
        let piece = &pieces[i];
        let mut k: usize = 0;
        while k < piece.len()
            invariant
                k <= piece.len(),
                r@ == head + piece@.take(k as int),
            decreases piece.len() - k,
        {
            r.push(piece[k]);
            assert(piece@.take(k + 1) == piece@.take(k as int).push(piece@[k as int]));
            k += 1;
        }
        assert(piece@ == piece@.take(piece.len() as int));
        assert(head + piece@ == join(upto, sep)) by {
            if i == from {
                assert(upto.len() == 1);
                assert(head == Seq::<char>::empty());
                assert(head + piece@ == piece@);
            }
        }
        i += 1;
    }
    r
}

/// Reads a port number: one or more ASCII digits whose value is at most 65535.
pub fn parse_u16(v: &Vec<char>) -> (r: Option<u16>)
    ensures
        r is Some <==> v@.len() > 0 && all_digits(v@) && decimal_value(v@) <= 65535,
        r matches Some(n) ==> n == decimal_value(v@),
{
    if v.len() == 0 {
        return None;
    }
    let mut acc: u32 = 0;
    let mut i: usize = 0;
    assert(v@.take(0).len() == 0);
    while i < v.len()
        invariant
            i <= v.len(),
            all_digits(v@.take(i as int)),
            acc == decimal_value(v@.take(i as int)),
            acc <= 65535,
        decreases v.len() - i,
    {
        let c = v[i];
        assert(v@.take(i + 1).drop_last() == v@.take(i as int));
        if !('0' <= c && c <= '9') {
            assert(!is_digit(v@[i as int]));
            return None;
        }
        let d: u32 = (c as u8 - '0' as u8) as u32;
        let next: u32 = acc * 10 + d;
        assert(all_digits(v@.take(i + 1))) by {
            assert forall|k: int| 0 <= k < i + 1 implies is_digit(#[trigger] v@.take(i + 1)[k]) by {
                if k < i {
                    assert(v@.take(i as int)[k] == v@[k]);
                }
            }
        }
        if next > 65535 {
            proof {
                lemma_decimal_value_grows(v@, i + 1);
            }
            return None;
        }
        acc = next;
        i += 1;
    }
    assert(v@ == v@.take(v.len() as int));
    Some(acc as u16)
}

/// Adding a character to the last piece adds it to the joined text.
proof fn lemma_join_grows(pieces: Seq<Seq<char>>, sep: char, c: char)
    requires
        pieces.len() > 0,
    ensures
        join(pieces.update(pieces.len() - 1, pieces.last().push(c)), sep) == join(
            pieces,
            sep,
        ).push(c),
{
    let grown = pieces.update(pieces.len() - 1, pieces.last().push(c));
    if pieces.len() > 1 {
        assert(grown.drop_last() == pieces.drop_last());
        assert(join(pieces.drop_last(), sep).push(sep) + pieces.last().push(c) == (join(
            pieces.drop_last(),
            sep,
        ).push(sep) + pieces.last()).push(c));
    }
}

/// Cutting a text and joining the pieces again gives the text back, and no
/// piece holds the separator: the pieces are what stands between its
/// occurrences.
pub proof fn lemma_split_join(s: Seq<char>, sep: char)
    ensures
        split_on(s, sep).len() > 0,
        join(split_on(s, sep), sep) == s,
        forall|i: int|
            0 <= i < split_on(s, sep).len() ==> !(#[trigger] split_on(s, sep)[i]).contains(sep),
    decreases s.len(),
{
    let pieces = split_on(s, sep);
    if s.len() == 0 {
        assert(pieces[0] == Seq::<char>::empty());
    } else {
        let before = split_on(s.drop_last(), sep);
        lemma_split_join(s.drop_last(), sep);
        assert(s.drop_last().push(s.last()) == s);
        if s.last() == sep {
            assert(pieces.drop_last() == before);
            assert(join(before, sep).push(sep) + Seq::<char>::empty() == join(before, sep).push(
                sep,
            ));
            assert forall|i: int| 0 <= i < pieces.len() implies !(#[trigger] pieces[i]).contains(
                sep,
            ) by {
                if i < before.len() {
                    assert(pieces[i] == before[i]);
                }
            }
        } else {
            lemma_join_grows(before, sep, s.last());
            assert forall|i: int| 0 <= i < pieces.len() implies !(#[trigger] pieces[i]).contains(
                sep,
            ) by {
                if i < before.len() - 1 {
                    assert(pieces[i] == before[i]);
                } else {
                    let grown = before.last().push(s.last());
                    assert(pieces[i] == grown);
                    if grown.contains(sep) {
                        let k = choose|k: int| 0 <= k < grown.len() && grown[k] == sep;
                        if k < before.last().len() {
                            assert(before.last()[k] == sep);
                            assert(before[before.len() - 1].contains(sep));
                        }
                    }
                }
            }
        }
    }
}

/// Cutting a text that has a separator between `a` and `b` gives the pieces of
/// `a` followed by the pieces of `b`.
pub proof fn lemma_split_concat(a: Seq<char>, b: Seq<char>, sep: char)
    ensures
        split_on(a + seq![sep] + b, sep) == split_on(a, sep) + split_on(b, sep),
    decreases b.len(),
{
    let whole = a + seq![sep] + b;
    if b.len() == 0 {
        assert(whole.drop_last() == a);
        assert(split_on(b, sep) == seq![Seq::<char>::empty()]);
        assert(split_on(a, sep).push(Seq::<char>::empty()) == split_on(a, sep) + split_on(b, sep));
    } else {
        lemma_split_concat(a, b.drop_last(), sep);
        lemma_split_has_pieces(b.drop_last(), sep);
        assert(whole.drop_last() == a + seq![sep] + b.drop_last());
        assert(whole.last() == b.last());
        let x = split_on(a, sep);
        let y = split_on(b.drop_last(), sep);
        if b.last() == sep {
            assert((x + y).push(Seq::<char>::empty()) == x + y.push(Seq::<char>::empty()));
        } else {
            assert((x + y).update((x + y).len() - 1, (x + y).last().push(b.last())) == x + y.update(
                y.len() - 1,
                y.last().push(b.last()),
            ));
        }
    }
}

/// Cutting always gives at least one piece.
pub proof fn lemma_split_has_pieces(s: Seq<char>, sep: char)
    ensures
        split_on(s, sep).len() > 0,
    decreases s.len(),
{
    if s.len() > 0 {
        lemma_split_has_pieces(s.drop_last(), sep);
    }
}

/// A text without the separator is its own single piece.
pub proof fn lemma_split_plain(s: Seq<char>, sep: char)
    requires
        !s.contains(sep),
    ensures
        split_on(s, sep) == seq![s],
    decreases s.len(),
{
    if s.len() > 0 {
        assert(s.last() == s[s.len() - 1]);
        assert forall|i: int| 0 <= i < s.drop_last().len() implies s.drop_last()[i] != sep by {
            assert(s.drop_last()[i] == s[i]);
        }
        lemma_split_plain(s.drop_last(), sep);
        assert(seq![s.drop_last()].update(0, s.drop_last().push(s.last())) == seq![s]) by {
            assert(s.drop_last().push(s.last()) == s);
        }
    } else {
        assert(s == Seq::<char>::empty());
    }
}

/// ASCII lower-casing leaves a text without capital letters as it is.
pub proof fn lemma_lower_keeps(s: Seq<char>)
    requires
        is_lower(s),
    ensures
        lower(s) == s,
{
    assert(lower(s) =~= s);
}

/// The value of a digit run never drops when more digits follow.
pub proof fn lemma_decimal_value_grows(s: Seq<char>, k: int)
    requires
        0 <= k <= s.len(),
    ensures
        decimal_value(s.take(k)) <= decimal_value(s),
    decreases s.len() - k,
{
    if k == s.len() {
        assert(s.take(k) == s);
    } else {
        lemma_decimal_value_grows(s, k + 1);
        assert(s.take(k + 1).drop_last() == s.take(k));
    }
}

/// The base-ten spelling of `n`.
pub fn format_u32(n: u32) -> (r: Vec<char>)
    ensures
        r@ == decimal_digits(n as nat),
    decreases n,
{
    if n < 10 {
        let mut r: Vec<char> = Vec::new();
        r.push((n as u8 + '0' as u8) as char);
        assert(r@ == seq![digit_char(n as nat)]);
        r
    } else {
        let mut r = format_u32(n / 10);
        r.push(((n % 10) as u8 + '0' as u8) as char);
        r
    }
}

/// A base-ten spelling is a non-empty run of digits that reads back as the
/// number it was made from.
pub proof fn lemma_decimal_round_trip(n: nat)
    ensures
        decimal_digits(n).len() > 0,
        all_digits(decimal_digits(n)),
        decimal_value(decimal_digits(n)) == n,
    decreases n,
{
    if n < 10 {
        let s = decimal_digits(n);
        assert(s.drop_last().len() == 0);
        assert(decimal_value(s.drop_last()) == 0);
    } else {
        lemma_decimal_round_trip(n / 10);
        let s = decimal_digits(n);
        assert(s.drop_last() == decimal_digits(n / 10));
        assert(s.last() == digit_char(n % 10));
    }
}

} // verus!
