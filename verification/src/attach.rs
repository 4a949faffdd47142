//! The address at which the chat client attaches to a sandbox.

use crate::text::{chars_of, lemma_trailing_run, slice_of, starts_with, string_of, trailing_run};
use vstd::prelude::*;
use vstd::string::{StringExecFns, StrSliceExecFns};
use vstd::utf8::encode_utf8;

verus! {

/// `s` with every occurrence of `from` replaced by `to`. The occurrences are
/// found from left to right and do not overlap.
pub open spec fn replaced(s: Seq<char>, from: Seq<char>, to: Seq<char>) -> Seq<char>
    decreases s.len(),
{
    if from.len() == 0 || s.len() < from.len() {
        s
    } else if from.is_prefix_of(s) {
        to + replaced(s.skip(from.len() as int), from, to)
    } else {
        seq![s[0]] + replaced(s.skip(1), from, to)
    }
}

/// `s` without the characters equal to `c` at its end.
pub open spec fn without_trailing(s: Seq<char>, c: char) -> Seq<char> {
    s.take(s.len() - trailing_run(s, c, c))
}

/// The base address as a web socket address: `http://` and `https://` become
/// `ws://` and `wss://`, and the slashes at the end go.
pub open spec fn socket_base(base_url: Seq<char>) -> Seq<char> {
    without_trailing(
        replaced(replaced(base_url, "http://"@, "ws://"@), "https://"@, "wss://"@),
        '/',
    )
}

/// The bytes that a form carries as they are.
pub open spec fn is_form_safe(b: u8) -> bool {
    b == 42 || b == 45 || b == 46 || b == 95 || (48 <= b && b <= 57) || (65 <= b && b <= 90) || (97
        <= b && b <= 122)
}

/// The upper-case hexadecimal digit for a value below sixteen.
pub open spec fn upper_hex_char(n: nat) -> char {
    if n < 10 {
        (n as u8 + 48) as char
    } else {
        ((n - 10) as u8 + 65) as char
    }
}

/// What a form spells for one byte: the byte itself where it is safe, `+`
/// for a space, and else `%` with two upper-case hexadecimal digits.
pub open spec fn form_byte(b: u8) -> Seq<char> {
    if is_form_safe(b) {
        seq![b as char]
    } else if b == 32 {
        seq!['+']
    } else {
        seq!['%', upper_hex_char((b / 16) as nat), upper_hex_char((b % 16) as nat)]
    }
}

/// Bytes as a form spells them.
pub open spec fn form_encoded(bytes: Seq<u8>) -> Seq<char>
    decreases bytes.len(),
{
    if bytes.len() == 0 {
        Seq::<char>::empty()
    } else {
        form_encoded(bytes.drop_last()) + form_byte(bytes.last())
    }
}

/// `form_urlencoded::byte_serialize` spells bytes as a form does: letters,
/// digits and `*`, `-`, `.`, `_` stay, a space becomes `+`, and every other
/// byte becomes `%` with its two upper-case hexadecimal digits.
#[verifier::external_body]
fn form_encode(input: &Vec<u8>) -> (r: String)
    ensures
        r@ == form_encoded(input@),
{
    url::form_urlencoded::byte_serialize(input).collect()
}

/// Replaces every occurrence of `from` by `to`.
fn replace_all(text: &Vec<char>, from: &Vec<char>, to: &Vec<char>) -> (r: Vec<char>)
    requires
        from@.len() > 0,
    ensures
        r@ == replaced(text@, from@, to@),
{
    let mut out: Vec<char> = Vec::new();
    let mut i: usize = 0;
    assert(text@.skip(0) == text@);
    while i < text.len()
        invariant
            i <= text.len(),
            from@.len() > 0,
            out@ + replaced(text@.skip(i as int), from@, to@) == replaced(text@, from@, to@),
        decreases text.len() - i,
    {
        let ghost rest = text@.skip(i as int);
        let ghost before = out@;
        let tail = slice_of(text, i, text.len());
        assert(tail@ == rest);
        if starts_with(&tail, from) {
            let mut k: usize = 0;
            while k < to.len()
                invariant
                    k <= to.len(),
                    out@ == before + to@.take(k as int),
                decreases to.len() - k,
            {
                out.push(to[k]);
                assert(to@.take(k + 1) == to@.take(k as int).push(to@[k as int]));
                k += 1;
            }
            assert(to@.take(to.len() as int) == to@);
            assert(rest.skip(from@.len() as int) == text@.skip(i + from@.len()));
            assert(before + to@ + replaced(rest.skip(from@.len() as int), from@, to@) == before + (
            to@ + replaced(rest.skip(from@.len() as int), from@, to@)));
            i += from.len();
        } else {
            out.push(text[i]);
            assert(rest.skip(1) == text@.skip(i + 1));
            proof {
                if rest.len() >= from@.len() {
                    assert(before.push(rest[0]) + replaced(rest.skip(1), from@, to@) == before + (
                    seq![rest[0]] + replaced(rest.skip(1), from@, to@)));
                } else {
                    assert(before.push(rest[0]) + rest.skip(1) == before + rest);
                }
            }
            i += 1;
        }
    }
    assert(text@.skip(i as int).len() == 0);
    assert(out@ + replaced(text@.skip(i as int), from@, to@) == out@);
    out
}

/// The base address as a web socket address.
pub fn websocket_base(base_url: &str) -> (r: String)
    ensures
        r@ == socket_base(base_url@),
{
    proof {
        reveal_strlit("http://");
        reveal_strlit("https://");
    }
    let plain = replace_all(&chars_of(base_url), &chars_of("http://"), &chars_of("ws://"));
    let both = replace_all(&plain, &chars_of("https://"), &chars_of("wss://"));
    let mut to: usize = both.len();
    while to > 0 && both[to - 1] == '/'
        invariant
            to <= both.len(),
            forall|i: int| to <= i < both.len() ==> #[trigger] both@[i] == '/',
        decreases to,
    {
        to -= 1;
    }
    proof {
        lemma_trailing_run(both@, '/', '/', both.len() - to);
    }
    let kept = slice_of(&both, 0, to);
    assert(kept@ == both@.take(to as int));
    string_of(&kept)
}

/// The address at which a chat attaches to a sandbox and has it run a
/// command.
pub open spec fn attach_text(base_url: Seq<char>, sandbox_id: Seq<char>, command: Seq<char>) -> Seq<
    char,
> {
    socket_base(base_url) + "/sandboxes/"@ + sandbox_id
        + "/attach?cols=80&rows=24&tty=false&command="@ + form_encoded(encode_utf8(command))
}

/// Builds the address at which a chat attaches to a sandbox.
pub fn attach_url(base_url: &str, sandbox_id: &str, command: &str) -> (r: String)
    ensures
        r@ == attach_text(base_url@, sandbox_id@, command@),
{
    let mut r = websocket_base(base_url);
    r.append("/sandboxes/");
    r.append(sandbox_id);
    r.append("/attach?cols=80&rows=24&tty=false&command=");
    let encoded = form_encode(&command.as_bytes_vec());
    r.append(encoded.as_str());
    r
}

} // verus!
