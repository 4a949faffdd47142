//! Filesystem templates for sandboxes: their names on disk, their metadata
//! and the order in which they are listed.

use crate::registry::{hex_text, random_bytes};
use crate::text::{chars_of, find_last_char, last_index, same_text, slice_of, string_of, text_of};
use vstd::prelude::*;
use vstd::seq_lib::lemma_multiset_commutative;
use vstd::string::StringExecFns;

verus! {

/// Mathematical model of a [`TemplateMetadata`] and of a [`TemplateSummary`].
pub struct TemplateView {
    pub id: Seq<char>,
    pub name: Seq<char>,
    pub description: Option<Seq<char>>,
    pub size_bytes: u64,
    pub created_at: i64,
}

/// What is stored beside the archive of a template. `created_at` counts
/// milliseconds since the Unix epoch.
#[derive(Debug, Clone)]
pub struct TemplateMetadata {
    pub id: String,
    pub name: String,
    pub description: Option<String>,
    pub size_bytes: u64,
    pub created_at: i64,
}

impl View for TemplateMetadata {
    type V = TemplateView;

    open spec fn view(&self) -> TemplateView {
        TemplateView {
            id: self.id@,
            name: self.name@,
            description: text_of(self.description),
            size_bytes: self.size_bytes,
            created_at: self.created_at,
        }
    }
}

/// What a listing says of a template.
#[derive(Debug, Clone)]
pub struct TemplateSummary {
    pub id: String,
    pub name: String,
    pub description: Option<String>,
    pub size_bytes: u64,
    pub created_at: i64,
}

impl View for TemplateSummary {
    type V = TemplateView;

    open spec fn view(&self) -> TemplateView {
        TemplateView {
            id: self.id@,
            name: self.name@,
            description: text_of(self.description),
            size_bytes: self.size_bytes,
            created_at: self.created_at,
        }
    }
}

impl TemplateMetadata {
    /// The summary that carries the same data.
    pub fn into_summary(self) -> (r: TemplateSummary)
        ensures
            r@ == self@,
    {
        TemplateSummary {
            id: self.id,
            name: self.name,
            description: self.description,
            size_bytes: self.size_bytes,
            created_at: self.created_at,
        }
    }

    /// The same metadata under a new name.
    pub fn renamed(self, new_name: &str) -> (r: TemplateMetadata)
        ensures
            r@ == (TemplateView { name: new_name@, ..self@ }),
    {
        TemplateMetadata {
            id: self.id,
            name: String::from_str(new_name),
            description: self.description,
            size_bytes: self.size_bytes,
            created_at: self.created_at,
        }
    }
}

/// Whether a character is a decimal digit or one of the letters `a` to `f`.
pub open spec fn is_lower_hex(c: char) -> bool {
    ('0' <= c && c <= '9') || ('a' <= c && c <= 'f')
}

/// Whether a text has the hyphenated form of an identifier: 36 characters,
/// of which the four at the places 8, 13, 18 and 23 are hyphens and all others
/// are lower-case hexadecimal digits.
pub open spec fn is_hyphenated_id(s: Seq<char>) -> bool {
    &&& s.len() == 36
    &&& forall|i: int|
        0 <= i < 36 ==> if i == 8 || i == 13 || i == 18 || i == 23 {
            #[trigger] s[i] == '-'
        } else {
            is_lower_hex(#[trigger] s[i])
        }
}

/// Sixteen bytes marked as a random identifier: the upper half of byte 6
/// says that the identifier is random, and the two upper bits of byte 8 say
/// how it is laid out.
pub open spec fn marked_random(bytes: Seq<u8>) -> Seq<u8> {
    bytes.update(6, (bytes[6] & 0x0f) | 0x40).update(8, (bytes[8] & 0x3f) | 0x80)
}

/// Sixteen bytes in the hyphenated form: lower-case hexadecimal digits in
/// groups of 8, 4, 4, 4 and 12, with hyphens between the groups.
pub open spec fn hyphenated(bytes: Seq<u8>) -> Seq<char> {
    hex_text(bytes.subrange(0, 4)) + seq!['-'] + hex_text(bytes.subrange(4, 6)) + seq!['-']
        + hex_text(bytes.subrange(6, 8)) + seq!['-'] + hex_text(bytes.subrange(8, 10)) + seq!['-']
        + hex_text(bytes.subrange(10, 16))
}

/// The identifier that sixteen random bytes make.
pub open spec fn session_id_of(bytes: Seq<u8>) -> Seq<char> {
    hyphenated(marked_random(bytes))
}

/// `uuid::Builder::from_random_bytes` takes the sixteen bytes as they are
/// but for the marks in bytes 6 and 8; `Uuid::to_string` spells an identifier
/// in the hyphenated form with lower-case digits.
#[verifier::external_body]
fn uuid_text(bytes: &Vec<u8>) -> (r: String)
    requires
        bytes@.len() == 16,
    ensures
        r@ == session_id_of(bytes@),
{
    let mut raw = [0u8; 16];
    raw.copy_from_slice(bytes);
    uuid::Builder::from_random_bytes(raw).into_uuid().to_string()
}

/// Hexadecimal text has two lower-case digits for each byte.
pub proof fn lemma_hex_text(bytes: Seq<u8>)
    ensures
        hex_text(bytes).len() == 2 * bytes.len(),
        forall|i: int| 0 <= i < hex_text(bytes).len() ==> is_lower_hex(#[trigger] hex_text(bytes)[i]),
    decreases bytes.len(),
{
    if bytes.len() > 0 {
        lemma_hex_text(bytes.drop_last());
    }
}

/// The hyphenated form of sixteen bytes has the shape of an identifier.
pub proof fn lemma_hyphenated(bytes: Seq<u8>)
    requires
        bytes.len() == 16,
    ensures
        is_hyphenated_id(hyphenated(bytes)),
        hyphenated(bytes).take(8) == hex_text(bytes.subrange(0, 4)),
{
    let a = hex_text(bytes.subrange(0, 4));
    let b = hex_text(bytes.subrange(4, 6));
    let c = hex_text(bytes.subrange(6, 8));
    let d = hex_text(bytes.subrange(8, 10));
    let e = hex_text(bytes.subrange(10, 16));
    lemma_hex_text(bytes.subrange(0, 4));
    lemma_hex_text(bytes.subrange(4, 6));
    lemma_hex_text(bytes.subrange(6, 8));
    lemma_hex_text(bytes.subrange(8, 10));
    lemma_hex_text(bytes.subrange(10, 16));
    let s = hyphenated(bytes);
    assert(s.len() == 36);
    assert forall|i: int| 0 <= i < 36 implies if i == 8 || i == 13 || i == 18 || i == 23 {
        #[trigger] s[i] == '-'
    } else {
        is_lower_hex(#[trigger] s[i])
    } by {
        if i < 8 {
            assert(s[i] == a[i]);
        } else if i == 8 {
        } else if i < 13 {
            assert(s[i] == b[i - 9]);
        } else if i == 13 {
        } else if i < 18 {
            assert(s[i] == c[i - 14]);
        } else if i == 18 {
        } else if i < 23 {
            assert(s[i] == d[i - 19]);
        } else if i == 23 {
        } else {
            assert(s[i] == e[i - 24]);
        }
    }
    assert(s.take(8) =~= a);
}

/// The identifier that sixteen random bytes make.
pub fn session_id_from(bytes: &Vec<u8>) -> (r: String)
    requires
        bytes@.len() == 16,
    ensures
        r@ == session_id_of(bytes@),
        is_hyphenated_id(r@),
{
    proof {
        lemma_hyphenated(marked_random(bytes@));
    }
    uuid_text(bytes)
}

/// A fresh session identifier, in the hyphenated form; nothing where the
/// random source fails.
pub fn new_session_id() -> (r: Option<String>)
    ensures
        r matches Some(id) ==> is_hyphenated_id(id@) && exists|bytes: Seq<u8>|
            bytes.len() == 16 && id@ == #[trigger] session_id_of(bytes),
{
    match random_bytes(16) {
        Some(bytes) => Some(session_id_from(&bytes)),
        None => None,
    }
}

/// The template identifier `tpl_` and the first eight characters of `text`.
pub fn template_id_from(text: &str) -> (r: String)
    requires
        text@.len() >= 8,
    ensures
        r@ == "tpl_"@ + text@.take(8),
{
    let all = chars_of(text);
    let head = slice_of(&all, 0, 8);
    let mut r = String::from_str("tpl_");
    let tail = string_of(&head);
    r.append(tail.as_str());
    r
}

/// The file name of a template's archive.
pub open spec fn archive_name(id: Seq<char>) -> Seq<char> {
    id + ".tar.gz"@
}

/// The file name of a template's metadata.
pub open spec fn metadata_name(id: Seq<char>) -> Seq<char> {
    id + ".json"@
}

/// The path of `name` within the directory `dir`, with `/` between
/// directories. A name that begins with `/` is a path by itself, and no `/`
/// is put behind a directory that is empty or ends with one.
pub open spec fn joined(dir: Seq<char>, name: Seq<char>) -> Seq<char> {
    if name.len() > 0 && name[0] == '/' {
        name
    } else if dir.len() == 0 || dir.last() == '/' {
        dir + name
    } else {
        dir + seq!['/'] + name
    }
}

/// The path of `name` within the directory `dir`.
pub fn join_path(dir: &str, name: &str) -> (r: String)
    ensures
        r@ == joined(dir@, name@),
{
    let d = chars_of(dir);
    let n = chars_of(name);
    if n.len() > 0 && n[0] == '/' {
        return String::from_str(name);
    }
    let mut r = String::from_str(dir);
    if d.len() > 0 && d[d.len() - 1] != '/' {
        r.push('/');
    }
    r.append(name);
    assert(r@ =~= joined(dir@, name@));
    r
}

/// The extension of a file name: what follows its last dot, unless that dot
/// is its first character.
pub open spec fn extension_of(file_name: Seq<char>) -> Option<Seq<char>> {
    match last_index(file_name, '.') {
        Some(i) => if i > 0 {
            Some(file_name.skip(i + 1))
        } else {
            None
        },
        None => None,
    }
}

/// The extension of a file name.
pub fn file_extension(file_name: &str) -> (r: Option<String>)
    ensures
        text_of(r) == extension_of(file_name@),
{
    let name = chars_of(file_name);
    match find_last_char(&name, '.') {
        Some(i) => {
            if i > 0 {
                let ext = slice_of(&name, i + 1, name.len());
                assert(ext@ == name@.skip(i + 1));
                Some(string_of(&ext))
            } else {
                None
            }
        },
        None => None,
    }
}

/// Whether a file in the templates directory holds metadata.
pub fn is_metadata_file(file_name: &str) -> (r: bool)
    ensures
        r == (extension_of(file_name@) == Some("json"@)),
{
    match file_extension(file_name) {
        Some(ext) => same_text(&chars_of(ext.as_str()), &chars_of("json")),
        None => false,
    }
}

/// The store of templates in one directory.
pub struct TemplateStore {
    templates_dir: String,
}

impl TemplateStore {
    /// The directory of this store.
    pub closed spec fn dir(&self) -> Seq<char> {
        self.templates_dir@
    }

    /// A store for the given directory.
    pub fn new(templates_dir: String) -> (store: TemplateStore)
        ensures
            store.dir() == templates_dir@,
    {
        TemplateStore { templates_dir: templates_dir }
    }

    /// A fresh template identifier: `tpl_` and the first eight digits of a
    /// random identifier; nothing where the random source fails.
    pub fn generate_id() -> (r: Option<String>)
        ensures
            r matches Some(id) ==> {
                &&& id@.len() == 12
                &&& id@.take(4) == "tpl_"@
                &&& forall|i: int| 4 <= i < 12 ==> is_lower_hex(#[trigger] id@[i])
                &&& exists|bytes: Seq<u8>|
                    bytes.len() == 16 && id@ == "tpl_"@ + (#[trigger] session_id_of(bytes)).take(8)
            },
    {
        proof {
            reveal_strlit("tpl_");
        }
        let text = match new_session_id() {
            Some(text) => text,
            None => {
                return None;
            },
        };
        let r = template_id_from(text.as_str());
        assert(r@.take(4) =~= "tpl_"@);
        assert forall|i: int| 4 <= i < 12 implies is_lower_hex(#[trigger] r@[i]) by {
            assert(r@[i] == text@[i - 4]);
        }
        Some(r)
    }

    /// The path of a template's archive.
    pub fn template_archive_path(&self, id: &str) -> (r: String)
        ensures
            r@ == joined(self.dir(), archive_name(id@)),
    {
        let mut name = String::from_str(id);
        name.append(".tar.gz");
        join_path(self.templates_dir.as_str(), name.as_str())
    }

    /// The path of a template's metadata.
    pub fn template_metadata_path(&self, id: &str) -> (r: String)
        ensures
            r@ == joined(self.dir(), metadata_name(id@)),
    {
        let mut name = String::from_str(id);
        name.append(".json");
        join_path(self.templates_dir.as_str(), name.as_str())
    }

    /// The directory of this store.
    pub fn templates_dir(&self) -> (r: &str)
        ensures
            r@ == self.dir(),
    {
        self.templates_dir.as_str()
    }
}

/// The number of templates at the front of `s` that are at least as new as
/// `created_at`.
pub open spec fn newer_run(s: Seq<TemplateView>, created_at: i64) -> nat
    decreases s.len(),
{
    if s.len() > 0 && s[0].created_at >= created_at {
        1 + newer_run(s.drop_first(), created_at)
    } else {
        0
    }
}

/// The templates in the order of a listing: newest first, and those of equal
/// age in the order in which they came.
pub open spec fn newest_first(s: Seq<TemplateView>) -> Seq<TemplateView>
    decreases s.len(),
{
    if s.len() == 0 {
        s
    } else {
        let sorted = newest_first(s.drop_last());
        sorted.insert(newer_run(sorted, s.last().created_at) as int, s.last())
    }
}

/// No template stands before a newer one.
pub open spec fn is_newest_first(s: Seq<TemplateView>) -> bool {
    forall|i: int, j: int| 0 <= i < j < s.len() ==> s[i].created_at >= s[j].created_at
}

/// The models of a sequence of summaries.
pub open spec fn summary_views(s: Seq<TemplateSummary>) -> Seq<TemplateView> {
    Seq::new(s.len(), |i: int| s[i]@)
}

/// The run of newer templates is a prefix, and what follows it is older.
pub proof fn lemma_newer_run(s: Seq<TemplateView>, created_at: i64)
    ensures
        newer_run(s, created_at) <= s.len(),
        forall|i: int| 0 <= i < newer_run(s, created_at) ==> s[i].created_at >= created_at,
        newer_run(s, created_at) < s.len() ==> s[newer_run(s, created_at) as int].created_at
            < created_at,
    decreases s.len(),
{
    if s.len() > 0 && s[0].created_at >= created_at {
        let rest = s.drop_first();
        lemma_newer_run(rest, created_at);
        assert forall|i: int| 0 <= i < newer_run(s, created_at) implies s[i].created_at
            >= created_at by {
            if i > 0 {
                assert(rest[i - 1] == s[i]);
            }
        }
        if newer_run(s, created_at) < s.len() {
            assert(rest[newer_run(rest, created_at) as int] == s[newer_run(s, created_at) as int]);
        }
    }
}

/// A listing is in order and holds exactly the templates that went in.
pub proof fn lemma_newest_first(s: Seq<TemplateView>)
    ensures
        is_newest_first(newest_first(s)),
        newest_first(s).to_multiset() == s.to_multiset(),
        newest_first(s).len() == s.len(),
    decreases s.len(),
{
    broadcast use vstd::seq_lib::group_to_multiset_ensures;

    if s.len() > 0 {
        let x = s.last();
        let sorted = newest_first(s.drop_last());
        lemma_newest_first(s.drop_last());
        lemma_newer_run(sorted, x.created_at);
        let pos = newer_run(sorted, x.created_at) as int;
        let out = sorted.insert(pos, x);
        assert forall|i: int, j: int| 0 <= i < j < out.len() implies out[i].created_at
            >= out[j].created_at by {
            if j < pos {
                assert(out[i] == sorted[i] && out[j] == sorted[j]);
            } else if j == pos {
                assert(out[i] == sorted[i]);
            } else if i < pos {
                assert(out[i] == sorted[i] && out[j] == sorted[j - 1]);
                if pos < sorted.len() {
                    assert(sorted[pos].created_at >= sorted[j - 1].created_at || pos == j - 1);
                }
            } else if i == pos {
                assert(out[j] == sorted[j - 1]);
                assert(sorted[pos].created_at >= sorted[j - 1].created_at || pos == j - 1);
            } else {
                assert(out[i] == sorted[i - 1] && out[j] == sorted[j - 1]);
            }
        }
        let front = sorted.subrange(0, pos);
        let back = sorted.subrange(pos, sorted.len() as int);
        assert(sorted =~= front + back);
        lemma_multiset_commutative(front, back);
        lemma_multiset_commutative(front.push(x), back);
        assert(s =~= s.drop_last().push(x));
        assert(out.to_multiset() =~= s.to_multiset());
    }
}

/// Puts summaries in the order of a listing: the newest first, and those of
/// the same time in the order in which they came. The result holds exactly
/// the summaries that went in.
pub fn sort_newest_first(items: Vec<TemplateSummary>) -> (r: Vec<TemplateSummary>)
    ensures
        summary_views(r@) == newest_first(summary_views(items@)),
        is_newest_first(summary_views(r@)),
        summary_views(r@).to_multiset() == summary_views(items@).to_multiset(),
{
    let ghost all = summary_views(items@);
    proof {
        lemma_newest_first(all);
    }
    let mut rest = items;
    let mut out: Vec<TemplateSummary> = Vec::new();
    let ghost mut done: int = 0;
    assert(all.take(0).len() == 0);
    assert(summary_views(out@) =~= newest_first(all.take(0)));
    // Turning the items round lets them be taken off the end in their order.
    let mut queue: Vec<TemplateSummary> = Vec::new();
    while rest.len() > 0
        invariant
            queue@.len() + rest@.len() == all.len(),
            forall|k: int| 0 <= k < rest@.len() ==> (#[trigger] rest@[k])@ == all[k],
            forall|k: int|
                0 <= k < queue@.len() ==> (#[trigger] queue@[k])@ == all[all.len() - 1 - k],
        decreases rest@.len(),
    {
        let item = rest.pop().unwrap();
        queue.push(item);
    }
    while queue.len() > 0
        invariant
            0 <= done <= all.len(),
            queue@.len() + done == all.len(),
            forall|k: int|
                0 <= k < queue@.len() ==> (#[trigger] queue@[k])@ == all[all.len() - 1 - k],
            summary_views(out@) == newest_first(all.take(done)),
        decreases queue@.len(),
    {
        let item = queue.pop().unwrap();
        assert(item@ == all[done]);
        let ghost sorted = summary_views(out@);
        let mut pos: usize = 0;
        assert(sorted.skip(0) == sorted);
        while pos < out.len() && out[pos].created_at >= item.created_at
            invariant
                pos <= out@.len(),
                sorted == summary_views(out@),
                newer_run(sorted, item.created_at) == pos + newer_run(
                    sorted.skip(pos as int),
                    item.created_at,
                ),
            decreases out@.len() - pos,
        {
            assert(sorted.skip(pos as int)[0] == out@[pos as int]@);
            assert(sorted.skip(pos as int).drop_first() == sorted.skip(pos + 1));
            pos += 1;
        }
        assert(newer_run(sorted.skip(pos as int), item.created_at) == 0) by {
            if pos < out@.len() {
                assert(sorted.skip(pos as int)[0] == out@[pos as int]@);
            }
        }
        out.insert(pos, item);
        proof {
            assert(all.take(done + 1).drop_last() == all.take(done));
            assert(summary_views(out@) =~= sorted.insert(pos as int, all[done]));
            done = done + 1;
        }
    }
    assert(all.take(all.len() as int) == all);
    out
}

} // verus!
