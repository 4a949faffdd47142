//! The addresses that a server listens on: put in order, without repeats, and
//! without addresses that the unspecified IPv4 address of the same port
//! covers.

use crate::text::{chars_of, same_text};
use vstd::prelude::*;
use vstd::seq_lib::lemma_multiset_commutative;
use vstd::utf8::char_u32_cast;

verus! {

/// Mathematical model of a [`ListenAddr`].
pub struct ListenView {
    pub ip: Seq<char>,
    pub is_v4: bool,
    pub port: u16,
}

/// A socket address to listen on: the IP address as text, whether it is an
/// IPv4 address, and the port.
#[derive(Debug, Clone)]
pub struct ListenAddr {
    pub ip: String,
    pub is_v4: bool,
    pub port: u16,
}

impl View for ListenAddr {
    type V = ListenView;

    open spec fn view(&self) -> ListenView {
        ListenView { ip: self.ip@, is_v4: self.is_v4, port: self.port }
    }
}

impl ListenAddr {
    /// A copy that denotes the same address.
    pub fn duplicate(&self) -> (r: ListenAddr)
        ensures
            r@ == self@,
    {
        ListenAddr { ip: self.ip.clone(), is_v4: self.is_v4, port: self.port }
    }
}

/// The models of a sequence of addresses.
pub open spec fn listen_views(s: Seq<ListenAddr>) -> Seq<ListenView> {
    Seq::new(s.len(), |i: int| s[i]@)
}

/// `a` stands before `b`, or is equal to it, in the order of the dictionary
/// by code points.
pub open spec fn text_le(a: Seq<char>, b: Seq<char>) -> bool
    decreases a.len(),
{
    if a.len() == 0 {
        true
    } else if b.len() == 0 {
        false
    } else if a[0] != b[0] {
        (a[0] as u32) < (b[0] as u32)
    } else {
        text_le(a.drop_first(), b.drop_first())
    }
}

/// `a` stands before `b`, or at its place: by the port first, then by the
/// text of the address.
pub open spec fn listen_le(a: ListenView, b: ListenView) -> bool {
    a.port < b.port || (a.port == b.port && text_le(a.ip, b.ip))
}

/// The number of addresses at the front of `s` that stand before `x` or at
/// its place.
pub open spec fn run_before(s: Seq<ListenView>, x: ListenView) -> nat
    decreases s.len(),
{
    if s.len() > 0 && listen_le(s[0], x) {
        1 + run_before(s.drop_first(), x)
    } else {
        0
    }
}

/// The addresses in order; those that stand at the same place keep the order
/// in which they came.
pub open spec fn in_order(s: Seq<ListenView>) -> Seq<ListenView>
    decreases s.len(),
{
    if s.len() == 0 {
        s
    } else {
        let sorted = in_order(s.drop_last());
        sorted.insert(run_before(sorted, s.last()) as int, s.last())
    }
}

/// The addresses without those that repeat the one before them.
pub open spec fn without_repeats(s: Seq<ListenView>) -> Seq<ListenView>
    decreases s.len(),
{
    if s.len() == 0 {
        s
    } else {
        let before = without_repeats(s.drop_last());
        if before.len() > 0 && before.last() == s.last() {
            before
        } else {
            before.push(s.last())
        }
    }
}

/// The unspecified IPv4 address, which covers every IPv4 address.
pub open spec fn is_any_v4(a: ListenView) -> bool {
    a.is_v4 && a.ip == "0.0.0.0"@
}

/// The addresses that are left when each address is taken in turn: the
/// unspecified IPv4 address drives out the IPv4 addresses of its port that
/// were taken before it, and no address is taken whose port an unspecified
/// IPv4 address, taken before it, covers.
pub open spec fn without_covered(s: Seq<ListenView>) -> Seq<ListenView>
    decreases s.len(),
{
    if s.len() == 0 {
        s
    } else {
        let taken = without_covered(s.drop_last());
        let x = s.last();
        if is_any_v4(x) {
            taken.filter(|e: ListenView| !(e.is_v4 && e.port == x.port)).push(x)
        } else if exists|i: int|
            0 <= i < taken.len() && is_any_v4(#[trigger] taken[i]) && taken[i].port == x.port {
            taken
        } else {
            taken.push(x)
        }
    }
}

/// The addresses that a server binds: in order, each once, and none that
/// another one covers.
pub open spec fn deduped(s: Seq<ListenView>) -> Seq<ListenView> {
    without_covered(without_repeats(in_order(s)))
}

/// Whether each address stands before those that follow it, or at their
/// place.
pub open spec fn is_in_order(s: Seq<ListenView>) -> bool {
    forall|i: int, j: int| 0 <= i < j < s.len() ==> listen_le(#[trigger] s[i], #[trigger] s[j])
}

/// Of two texts one stands before the other, or at its place.
pub proof fn lemma_text_le_total(a: Seq<char>, b: Seq<char>)
    ensures
        text_le(a, b) || text_le(b, a),
    decreases a.len(),
{
    if a.len() > 0 && b.len() > 0 {
        if a[0] == b[0] {
            lemma_text_le_total(a.drop_first(), b.drop_first());
        } else {
            char_u32_cast(a[0], a[0] as u32);
            char_u32_cast(b[0], b[0] as u32);
        }
    }
}

/// The order of texts carries over a text in the middle.
pub proof fn lemma_text_le_transitive(a: Seq<char>, b: Seq<char>, c: Seq<char>)
    requires
        text_le(a, b),
        text_le(b, c),
    ensures
        text_le(a, c),
    decreases a.len(),
{
    if a.len() > 0 && a[0] == b[0] && b[0] == c[0] {
        lemma_text_le_transitive(a.drop_first(), b.drop_first(), c.drop_first());
    }
}

/// The run of addresses before `x` is a prefix, and the address behind it
/// does not stand before `x`.
pub proof fn lemma_run_before(s: Seq<ListenView>, x: ListenView)
    ensures
        run_before(s, x) <= s.len(),
        forall|i: int| 0 <= i < run_before(s, x) ==> listen_le(#[trigger] s[i], x),
        run_before(s, x) < s.len() ==> !listen_le(s[run_before(s, x) as int], x),
    decreases s.len(),
{
    if s.len() > 0 && listen_le(s[0], x) {
        let rest = s.drop_first();
        lemma_run_before(rest, x);
        assert forall|i: int| 0 <= i < run_before(s, x) implies listen_le(#[trigger] s[i], x) by {
            if i > 0 {
                assert(rest[i - 1] == s[i]);
            }
        }
        if run_before(s, x) < s.len() {
            assert(rest[run_before(rest, x) as int] == s[run_before(s, x) as int]);
        }
    }
}

/// Addresses that have been put in order are in order, and they are exactly
/// the addresses that went in.
pub proof fn lemma_in_order(s: Seq<ListenView>)
    ensures
        is_in_order(in_order(s)),
        in_order(s).to_multiset() == s.to_multiset(),
        in_order(s).len() == s.len(),
    decreases s.len(),
{
    broadcast use vstd::seq_lib::group_to_multiset_ensures;

    if s.len() > 0 {
        let x = s.last();
        let sorted = in_order(s.drop_last());
        lemma_in_order(s.drop_last());
        lemma_run_before(sorted, x);
        let pos = run_before(sorted, x) as int;
        let out = sorted.insert(pos, x);
        assert forall|i: int, j: int| 0 <= i < j < out.len() implies listen_le(
            #[trigger] out[i],
            #[trigger] out[j],
        ) by {
            if j < pos {
                assert(out[i] == sorted[i] && out[j] == sorted[j]);
            } else if j == pos {
                assert(out[i] == sorted[i]);
            } else if i < pos {
                assert(out[i] == sorted[i] && out[j] == sorted[j - 1]);
            } else if i == pos {
                let y = sorted[pos];
                let z = sorted[j - 1];
                assert(out[j] == z);
                lemma_text_le_total(x.ip, y.ip);
                if pos < j - 1 {
                    assert(listen_le(y, z));
                    if x.port == y.port && y.port == z.port {
                        lemma_text_le_transitive(x.ip, y.ip, z.ip);
                    }
                }
            } else {
                assert(out[i] == sorted[i - 1] && out[j] == sorted[j - 1]);
            }
        }
        let front = sorted.subrange(0, pos);
        let back = sorted.subrange(pos, sorted.len() as int);
        assert(sorted =~= front + back);
        lemma_multiset_commutative(front, back);
        lemma_multiset_commutative(front.push(x), back);
        assert(out =~= front.push(x) + back);
        assert(s =~= s.drop_last().push(x));
        assert(out.to_multiset() =~= s.to_multiset());
    }
}

/// Compares two texts in the order of the dictionary.
fn text_before(a: &Vec<char>, b: &Vec<char>) -> (r: bool)
    ensures
        r == text_le(a@, b@),
{
    let mut i: usize = 0;
    assert(a@.skip(0) == a@ && b@.skip(0) == b@);
    while i < a.len() && i < b.len()
        invariant
            i <= a.len(),
            i <= b.len(),
            text_le(a@, b@) == text_le(a@.skip(i as int), b@.skip(i as int)),
        decreases a.len() - i,
    {
        let ghost ra = a@.skip(i as int);
        let ghost rb = b@.skip(i as int);
        assert(ra[0] == a@[i as int] && rb[0] == b@[i as int]);
        assert(ra.drop_first() == a@.skip(i + 1) && rb.drop_first() == b@.skip(i + 1));
        if a[i] != b[i] {
            return (a[i] as u32) < (b[i] as u32);
        }
        i += 1;
    }
    i == a.len()
}

/// Whether `a` stands before `b` or at its place.
fn listen_before(a: &ListenAddr, b: &ListenAddr) -> (r: bool)
    ensures
        r == listen_le(a@, b@),
{
    a.port < b.port || (a.port == b.port && text_before(
        &chars_of(a.ip.as_str()),
        &chars_of(b.ip.as_str()),
    ))
}

/// Whether two addresses are the same.
fn same_listen(a: &ListenAddr, b: &ListenAddr) -> (r: bool)
    ensures
        r == (a@ == b@),
{
    let r = a.port == b.port && a.is_v4 == b.is_v4 && same_text(
        &chars_of(a.ip.as_str()),
        &chars_of(b.ip.as_str()),
    );
    r
}

/// Whether an address is the unspecified IPv4 address.
fn is_unspecified_v4(a: &ListenAddr) -> (r: bool)
    ensures
        r == is_any_v4(a@),
{
    a.is_v4 && same_text(&chars_of(a.ip.as_str()), &chars_of("0.0.0.0"))
}

/// Puts addresses in order: by the port, then by the text of the address.
/// The result holds exactly the addresses that went in, and those that stand
/// at the same place keep the order in which they came.
pub fn sort_listens(listens: &Vec<ListenAddr>) -> (r: Vec<ListenAddr>)
    ensures
        listen_views(r@) == in_order(listen_views(listens@)),
        is_in_order(listen_views(r@)),
        listen_views(r@).to_multiset() == listen_views(listens@).to_multiset(),
{
    let ghost all = listen_views(listens@);
    proof {
        lemma_in_order(all);
    }
    let mut out: Vec<ListenAddr> = Vec::new();
    let mut i: usize = 0;
    assert(all.take(0).len() == 0);
    assert(listen_views(out@) =~= in_order(all.take(0)));
    while i < listens.len()
        invariant
            i <= listens.len(),
            all == listen_views(listens@),
            listen_views(out@) == in_order(all.take(i as int)),
        decreases listens.len() - i,
    {
        let item = listens[i].duplicate();
        assert(item@ == all[i as int]);
        let ghost sorted = listen_views(out@);
        let mut pos: usize = 0;
        assert(sorted.skip(0) == sorted);
        while pos < out.len() && listen_before(&out[pos], &item)
            invariant
                pos <= out@.len(),
                sorted == listen_views(out@),
                run_before(sorted, item@) == pos + run_before(sorted.skip(pos as int), item@),
            decreases out@.len() - pos,
        {
            assert(sorted.skip(pos as int)[0] == out@[pos as int]@);
            assert(sorted.skip(pos as int).drop_first() == sorted.skip(pos + 1));
            pos += 1;
        }
        assert(run_before(sorted.skip(pos as int), item@) == 0) by {
            if pos < out@.len() {
                assert(sorted.skip(pos as int)[0] == out@[pos as int]@);
            }
        }
        out.insert(pos, item);
        assert(all.take(i + 1).drop_last() == all.take(i as int));
        assert(listen_views(out@) =~= sorted.insert(pos as int, all[i as int]));
        i += 1;
    }
    assert(all.take(listens.len() as int) == all);
    out
}

/// Drops the addresses that repeat the one before them.
pub fn drop_repeats(listens: &Vec<ListenAddr>) -> (r: Vec<ListenAddr>)
    ensures
        listen_views(r@) == without_repeats(listen_views(listens@)),
{
    let ghost all = listen_views(listens@);
    let mut out: Vec<ListenAddr> = Vec::new();
    let mut i: usize = 0;
    assert(all.take(0).len() == 0);
    assert(listen_views(out@) =~= without_repeats(all.take(0)));
    while i < listens.len()
        invariant
            i <= listens.len(),
            all == listen_views(listens@),
            listen_views(out@) == without_repeats(all.take(i as int)),
        decreases listens.len() - i,
    {
        assert(all.take(i + 1).drop_last() == all.take(i as int));
        assert(listens@[i as int]@ == all[i as int]);
        let ghost before = listen_views(out@);
        let repeats = out.len() > 0 && same_listen(&out[out.len() - 1], &listens[i]);
        assert(out@.len() > 0 ==> before.last() == out@[out@.len() - 1]@);
        if !repeats {
            out.push(listens[i].duplicate());
            assert(listen_views(out@) =~= before.push(all[i as int]));
        }
        i += 1;
    }
    assert(all.take(listens.len() as int) == all);
    out
}

/// Takes each address in turn, as [`without_covered`] says.
pub fn drop_covered(listens: &Vec<ListenAddr>) -> (r: Vec<ListenAddr>)
    ensures
        listen_views(r@) == without_covered(listen_views(listens@)),
{
    let ghost all = listen_views(listens@);
    let mut out: Vec<ListenAddr> = Vec::new();
    let mut i: usize = 0;
    assert(all.take(0).len() == 0);
    assert(listen_views(out@) =~= without_covered(all.take(0)));
    while i < listens.len()
        invariant
            i <= listens.len(),
            all == listen_views(listens@),
            listen_views(out@) == without_covered(all.take(i as int)),
        decreases listens.len() - i,
    {
        assert(all.take(i + 1).drop_last() == all.take(i as int));
        let x = &listens[i];
        assert(x@ == all[i as int]);
        let ghost taken = listen_views(out@);
        if is_unspecified_v4(x) {
            let ghost keep = |e: ListenView| !(e.is_v4 && e.port == x@.port);
            let mut kept: Vec<ListenAddr> = Vec::new();
            let mut k: usize = 0;
            assert(taken.take(0).filter(keep) =~= Seq::<ListenView>::empty());
            while k < out.len()
                invariant
                    k <= out.len(),
                    taken == listen_views(out@),
                    keep == |e: ListenView| !(e.is_v4 && e.port == x@.port),
                    listen_views(kept@) == taken.take(k as int).filter(keep),
                decreases out.len() - k,
            {
                proof {
                    assert(taken.take(k + 1).drop_last() == taken.take(k as int));
                    reveal_with_fuel(Seq::filter, 2);
                }
                assert(taken[k as int] == out@[k as int]@);
                if !(out[k].is_v4 && out[k].port == x.port) {
                    let ghost old_kept = listen_views(kept@);
                    kept.push(out[k].duplicate());
                    assert(listen_views(kept@) =~= old_kept.push(taken[k as int]));
                }
                k += 1;
            }
            assert(taken.take(out.len() as int) == taken);
            let ghost filtered = listen_views(kept@);
            kept.push(x.duplicate());
            assert(listen_views(kept@) =~= filtered.push(x@));
            out = kept;
        } else {
            let mut covered = false;
            let mut k: usize = 0;
            while k < out.len() && !covered
                invariant
                    k <= out.len(),
                    taken == listen_views(out@),
                    covered ==> exists|j: int|
                        0 <= j < taken.len() && is_any_v4(#[trigger] taken[j]) && taken[j].port
                            == x@.port,
                    !covered ==> forall|j: int|
                        0 <= j < k ==> !(is_any_v4(#[trigger] taken[j]) && taken[j].port
                            == x@.port),
                decreases out.len() - k + (if covered {
                    0int
                } else {
                    1int
                }),
            {
                assert(taken[k as int] == out@[k as int]@);
                if is_unspecified_v4(&out[k]) && out[k].port == x.port {
                    covered = true;
                } else {
                    k += 1;
                }
            }
            if !covered {
                out.push(x.duplicate());
                assert(listen_views(out@) =~= taken.push(x@));
            }
        }
        i += 1;
    }
    assert(all.take(listens.len() as int) == all);
    out
}

/// What a server does with the addresses it was given.
#[derive(Debug, Clone)]
pub enum Launch {
    /// There is no address to listen on: the server does not start.
    Refuse,
    /// The server listens on one address.
    Single(ListenAddr),
    /// The server listens on several addresses.
    Multi(Vec<ListenAddr>),
}

/// Decides how a server starts: on the addresses that it binds, if there are
/// any.
pub fn plan_launch(listens: Vec<ListenAddr>) -> (launch: Launch)
    ensures
        match launch {
            Launch::Refuse => deduped(listen_views(listens@)).len() == 0,
            Launch::Single(addr) => deduped(listen_views(listens@)) == seq![addr@],
            Launch::Multi(addrs) => addrs@.len() > 1 && listen_views(addrs@) == deduped(
                listen_views(listens@),
            ),
        },
{
    let mut addrs = dedupe_listens(listens);
    if addrs.len() == 0 {
        Launch::Refuse
    } else if addrs.len() == 1 {
        let addr = addrs.remove(0);
        assert(deduped(listen_views(listens@)) =~= seq![addr@]);
        Launch::Single(addr)
    } else {
        Launch::Multi(addrs)
    }
}

/// The directory of the static files, unless serving them is switched off.
pub fn static_root(disable_static: bool, web_root: String) -> (r: Option<String>)
    ensures
        r == if disable_static {
            None
        } else {
            Some(web_root)
        },
{
    if disable_static {
        None
    } else {
        Some(web_root)
    }
}

/// The addresses that a server binds.
pub fn dedupe_listens(listens: Vec<ListenAddr>) -> (r: Vec<ListenAddr>)
    ensures
        listen_views(r@) == deduped(listen_views(listens@)),
{
    drop_covered(&drop_repeats(&sort_listens(&listens)))
}

} // verus!
