//! Finding objects in the content-addressed store that nothing refers to.
//!
//! The live set is every 40-character lowercase hexadecimal string that
//! appears in any text column, plus the hashes of the agent jars the server
//! derives on request. A stranger hex string only keeps an extra object on
//! disk; it never costs a live one.

use crate::text::{chars_of, push_str, string_from_chars};
use vstd::prelude::*;

verus! {

/// Objects younger than this many seconds are never collected: a file may
/// be uploaded already and not yet attached to a build.
pub const MIN_AGE_SECS: u64 = 7 * 24 * 60 * 60;

/// How many orphan names a report lists for a human to look over.
pub const SAMPLE_LIMIT: usize = 20;

/// A lowercase hexadecimal digit.
pub open spec fn is_lower_hex(c: char) -> bool {
    ('0' <= c <= '9') || ('a' <= c <= 'f')
}

/// The name of a stored object: exactly forty lowercase hexadecimal digits.
pub open spec fn is_sha1_spec(s: Seq<char>) -> bool {
    s.len() == 40 && forall|i: int| 0 <= i < s.len() ==> is_lower_hex(#[trigger] s[i])
}

fn is_sha1_chars(s: &[char]) -> (r: bool)
    ensures
        r == is_sha1_spec(s@),
{
    if s.len() != 40 {
        return false;
    }
    let mut i: usize = 0;
    while i < s.len()
        invariant
            s@.len() == 40,
            i <= 40,
            forall|k: int| 0 <= k < i ==> is_lower_hex(#[trigger] s@[k]),
        decreases 40 - i,
    {
        let c = s[i];
        if !(('0' <= c && c <= '9') || ('a' <= c && c <= 'f')) {
            assert(!is_lower_hex(s@[i as int]));
            return false;
        }
        i = i + 1;
    }
    true
}

/// Whether a file name names a stored object.
pub fn is_sha1(name: &str) -> (r: bool)
    ensures
        r == is_sha1_spec(name@),
{
    let c = chars_of(name);
    is_sha1_chars(c.as_slice())
}

/// `s` with every `"` doubled.
pub open spec fn escape_quotes(s: Seq<char>) -> Seq<char>
    decreases s.len(),
{
    if s.len() == 0 {
        Seq::empty()
    } else if s.last() == '"' {
        escape_quotes(s.drop_last()) + seq!['"', '"']
    } else {
        escape_quotes(s.drop_last()).push(s.last())
    }
}

/// A SQL identifier in double quotes, inner quotes doubled.
pub open spec fn quote_ident_spec(s: Seq<char>) -> Seq<char> {
    seq!['"'] + escape_quotes(s) + seq!['"']
}

/// Every `"` in `e` is one of an adjacent pair: read as the inside of a
/// quoted SQL identifier, `e` never ends the identifier early.
pub open spec fn quotes_paired(e: Seq<char>) -> bool
    decreases e.len(),
{
    if e.len() == 0 {
        true
    } else if e.last() == '"' {
        e.len() >= 2 && e[e.len() - 2] == '"' && quotes_paired(e.take(e.len() - 2))
    } else {
        quotes_paired(e.drop_last())
    }
}

proof fn lemma_escape_len(s: Seq<char>)
    ensures
        escape_quotes(s).len() >= s.len(),
    decreases s.len(),
{
    if s.len() > 0 {
        lemma_escape_len(s.drop_last());
    }
}

/// Inside a quoted identifier every quote is doubled, so the identifier
/// ends at its closing quote and nowhere before.
pub proof fn lemma_quote_ident_closes_once(s: Seq<char>)
    ensures
        quotes_paired(escape_quotes(s)),
        quote_ident_spec(s) == seq!['"'] + escape_quotes(s) + seq!['"'],
    decreases s.len(),
{
    if s.len() > 0 {
        lemma_quote_ident_closes_once(s.drop_last());
        let e = escape_quotes(s);
        let r = escape_quotes(s.drop_last());
        if s.last() == '"' {
            assert(e.take(e.len() - 2) =~= r);
        } else {
            assert(e.drop_last() =~= r);
        }
    }
}

/// Different identifiers are quoted differently.
pub proof fn lemma_quote_ident_injective(a: Seq<char>, b: Seq<char>)
    requires
        quote_ident_spec(a) == quote_ident_spec(b),
    ensures
        a == b,
    decreases a.len() + b.len(),
{
    let ea = escape_quotes(a);
    let eb = escape_quotes(b);
    assert(ea =~= quote_ident_spec(a).subrange(1, quote_ident_spec(a).len() - 1));
    assert(eb =~= quote_ident_spec(b).subrange(1, quote_ident_spec(b).len() - 1));
    lemma_escape_injective(a, b);
}

proof fn lemma_escape_injective(a: Seq<char>, b: Seq<char>)
    requires
        escape_quotes(a) == escape_quotes(b),
    ensures
        a == b,
    decreases a.len() + b.len(),
{
    lemma_escape_len(a);
    lemma_escape_len(b);
    if a.len() == 0 || b.len() == 0 {
        if a.len() > 0 {
            lemma_escape_len(a);
            assert(escape_quotes(a).len() > 0);
        }
        if b.len() > 0 {
            assert(escape_quotes(b).len() > 0);
        }
        assert(a =~= b);
    } else {
        let e = escape_quotes(a);
        let ra = escape_quotes(a.drop_last());
        let rb = escape_quotes(b.drop_last());
        if a.last() == '"' {
            assert(e.last() == '"');
            if b.last() != '"' {
                assert(escape_quotes(b).last() == b.last());
            }
            assert(e.take(e.len() - 2) =~= ra);
            assert(escape_quotes(b).take(e.len() - 2) =~= rb);
        } else {
            assert(e.last() == a.last());
            if b.last() == '"' {
                assert(escape_quotes(b).last() == '"');
            }
            assert(e.drop_last() =~= ra);
            assert(escape_quotes(b).drop_last() =~= rb);
        }
        lemma_escape_injective(a.drop_last(), b.drop_last());
        assert(a =~= a.drop_last().push(a.last()));
        assert(b =~= b.drop_last().push(b.last()));
    }
}

/// Quotes an identifier for SQL text.
pub fn quote_ident(name: &str) -> (r: String)
    ensures
        r@ == quote_ident_spec(name@),
{
    let s = chars_of(name);
    let mut out: Vec<char> = Vec::new();
    out.push('"');
    let mut i: usize = 0;
    while i < s.len()
        invariant
            i <= s@.len(),
            out@ == seq!['"'] + escape_quotes(s@.take(i as int)),
        decreases s.len() - i,
    {
        proof {
            assert(s@.take(i + 1).drop_last() =~= s@.take(i as int));
        }
        if s[i] == '"' {
            out.push('"');
            out.push('"');
        } else {
            out.push(s[i]);
        }
        i = i + 1;
    }
    out.push('"');
    assert(s@.take(s@.len() as int) =~= s@);
    assert(out@ =~= quote_ident_spec(s@));
    string_from_chars(out.as_slice())
}

/// The query that lists the object names mentioned in one text column:
/// every match of forty lowercase hexadecimal digits. The table and column
/// names come from `information_schema`, and are quoted all the same:
/// pasting them into SQL unquoted would be an injection.
pub open spec fn column_scan_sql_spec(table: Seq<char>, column: Seq<char>) -> Seq<char> {
    let t = quote_ident_spec(table);
    let c = quote_ident_spec(column);
    "SELECT DISTINCT m[1] AS sha1\n               FROM "@ + t + ", LATERAL regexp_matches("@ + t
        + "."@ + c + ", '[0-9a-f]{40}', 'g') AS m"@
}

/// The query that lists the object names mentioned in a column.
pub fn column_scan_sql(table: &str, column: &str) -> (r: String)
    ensures
        r@ == column_scan_sql_spec(table@, column@),
{
    let t = quote_ident(table);
    let c = quote_ident(column);
    let mut out: Vec<char> = Vec::new();
    push_str(&mut out, "SELECT DISTINCT m[1] AS sha1\n               FROM ");
    push_str(&mut out, t.as_str());
    push_str(&mut out, ", LATERAL regexp_matches(");
    push_str(&mut out, t.as_str());
    push_str(&mut out, ".");
    push_str(&mut out, c.as_str());
    push_str(&mut out, ", '[0-9a-f]{40}', 'g') AS m");
    string_from_chars(out.as_slice())
}

/// What a walk over the store saw of one directory entry.
#[derive(Clone, Debug)]
pub struct StoreEntry {
    /// The file name.
    pub name: String,
    /// The full path, as the walk spells it.
    pub path: String,
    pub is_file: bool,
    /// `Some((age, size))` when the metadata was readable: the whole seconds
    /// since the last modification (`None` when unknown or in the future),
    /// and the size in bytes.
    pub meta: Option<(Option<u64>, u64)>,
}

/// The result of a pass over the store.
#[derive(Clone, Debug)]
pub struct Report {
    pub orphan_count: u64,
    pub orphan_bytes: u64,
    pub deleted: bool,
    /// The first orphan names, at most `SAMPLE_LIMIT` of them.
    pub sample: Vec<String>,
}

/// Whether `name` occurs in the live set.
pub open spec fn is_live(live: Seq<String>, name: Seq<char>) -> bool {
    exists|k: int| 0 <= k < live.len() && (#[trigger] live[k])@ == name
}

/// An entry that is a collectable object: a file named like an object,
/// not live, with readable metadata and known to be at least
/// `MIN_AGE_SECS` old.
pub open spec fn is_orphan(e: StoreEntry, live: Seq<String>) -> bool {
    &&& e.is_file
    &&& is_sha1_spec(e.name@)
    &&& !is_live(live, e.name@)
    &&& e.meta matches Some((age, _)) && age matches Some(a) && a >= MIN_AGE_SECS
}

/// The orphans among `entries`, in walk order.
pub open spec fn orphans(entries: Seq<StoreEntry>, live: Seq<String>) -> Seq<StoreEntry>
    decreases entries.len(),
{
    if entries.len() == 0 {
        Seq::empty()
    } else if is_orphan(entries.last(), live) {
        orphans(entries.drop_last(), live).push(entries.last())
    } else {
        orphans(entries.drop_last(), live)
    }
}

/// What the collector lists is exactly the entries that are orphans: every
/// listed object is a regular file with an object's name, referenced by
/// nothing live and at least `MIN_AGE_SECS` old, and every such entry is
/// listed. A live or young object is never deleted.
pub proof fn lemma_orphans_exactly(entries: Seq<StoreEntry>, live: Seq<String>)
    ensures
        forall|k: int|
            0 <= k < orphans(entries, live).len() ==> is_orphan(
                #[trigger] orphans(entries, live)[k],
                live,
            ) && entries.contains(orphans(entries, live)[k]),
        forall|j: int|
            0 <= j < entries.len() && is_orphan(#[trigger] entries[j], live) ==> orphans(
                entries,
                live,
            ).contains(entries[j]),
    decreases entries.len(),
{
    if entries.len() > 0 {
        let rest = entries.drop_last();
        lemma_orphans_exactly(rest, live);
        let o = orphans(entries, live);
        let ro = orphans(rest, live);
        assert forall|k: int| 0 <= k < o.len() implies is_orphan(#[trigger] o[k], live)
            && entries.contains(o[k]) by {
            if k < ro.len() {
                assert(o[k] == ro[k]);
                let j = choose|j: int| 0 <= j < rest.len() && rest[j] == ro[k];
                assert(entries[j] == rest[j]);
            } else {
                assert(o[k] == entries.last());
                assert(entries[entries.len() - 1] == entries.last());
            }
        }
        assert forall|j: int| 0 <= j < entries.len() && is_orphan(#[trigger] entries[j], live) implies o.contains(
            entries[j],
        ) by {
            if j < rest.len() {
                assert(rest[j] == entries[j]);
                let k = choose|k: int| 0 <= k < ro.len() && ro[k] == rest[j];
                assert(o[k] == ro[k]);
            } else {
                assert(o[o.len() - 1] == entries.last());
            }
        }
    }
}

/// The total size of the entries that carry one.
pub open spec fn total_size(entries: Seq<StoreEntry>) -> nat
    decreases entries.len(),
{
    if entries.len() == 0 {
        0
    } else {
        total_size(entries.drop_last()) + match entries.last().meta {
            Some((_, size)) => size as nat,
            None => 0,
        }
    }
}

proof fn lemma_orphans_le(entries: Seq<StoreEntry>, live: Seq<String>)
    ensures
        total_size(orphans(entries, live)) <= total_size(entries),
        orphans(entries, live).len() <= entries.len(),
    decreases entries.len(),
{
    if entries.len() > 0 {
        lemma_orphans_le(entries.drop_last(), live);
        let o = orphans(entries.drop_last(), live);
        if is_orphan(entries.last(), live) {
            assert(o.push(entries.last()).drop_last() =~= o);
        }
    }
}

fn live_contains(live: &[String], name: &String) -> (r: bool)
    ensures
        r == is_live(live@, name@),
{
    let mut i: usize = 0;
    while i < live.len()
        invariant
            i <= live@.len(),
            forall|k: int| 0 <= k < i ==> (#[trigger] live@[k])@ != name@,
        decreases live.len() - i,
    {
        if live[i] == *name {
            assert(live@[i as int]@ == name@);
            return true;
        }
        i = i + 1;
    }
    false
}

/// Classifies the entries of a store walk against the live set. Returns the
/// report and the paths of the orphans, in walk order; `delete` is only
/// recorded in the report.
pub fn collect_orphans(entries: &[StoreEntry], live: &[String], delete: bool) -> (r: (
    Report,
    Vec<String>,
))
    requires
        total_size(orphans(entries@, live@)) <= u64::MAX,
    ensures
        ({
            let o = orphans(entries@, live@);
            &&& r.0.orphan_count == o.len()
            &&& r.0.orphan_bytes == total_size(o)
            &&& r.0.deleted == delete
            &&& r.0.sample@.len() == (if o.len() < SAMPLE_LIMIT {
                o.len()
            } else {
                SAMPLE_LIMIT as nat
            })
            &&& forall|k: int| 0 <= k < r.0.sample@.len() ==> #[trigger] r.0.sample@[k]@ == o[k].name@
            &&& r.1@.len() == o.len()
            &&& forall|k: int| 0 <= k < o.len() ==> #[trigger] r.1@[k]@ == o[k].path@
        }),
{
    let mut count: u64 = 0;
    let mut bytes: u64 = 0;
    let mut sample: Vec<String> = Vec::new();
    let mut paths: Vec<String> = Vec::new();
    let mut i: usize = 0;
    while i < entries.len()
        invariant
            i <= entries@.len(),
            total_size(orphans(entries@, live@)) <= u64::MAX,
            ({
                let o = orphans(entries@.take(i as int), live@);
                &&& count == o.len()
                &&& bytes == total_size(o)
                &&& sample@.len() == (if o.len() < SAMPLE_LIMIT {
                    o.len()
                } else {
                    SAMPLE_LIMIT as nat
                })
                &&& forall|k: int| 0 <= k < sample@.len() ==> #[trigger] sample@[k]@ == o[k].name@
                &&& paths@.len() == o.len()
                &&& forall|k: int| 0 <= k < o.len() ==> #[trigger] paths@[k]@ == o[k].path@
            }),
        decreases entries.len() - i,
    {
        let ghost before = entries@.take(i as int);
        proof {
            assert(entries@.take(i + 1).drop_last() =~= before);
            assert(entries@.take(i + 1).last() == entries@[i as int]);
            lemma_orphans_le(entries@.take(i + 1), live@);
            lemma_orphans_prefix(entries@, live@, i + 1);
        }
        let e = &entries[i];
        let mut take = false;
        if e.is_file {
            let name = chars_of(e.name.as_str());
            if is_sha1_chars(name.as_slice()) && !live_contains(live, &e.name) {
                match e.meta {
                    Some((Some(age), _)) => {
                        take = age >= MIN_AGE_SECS;
                    },
                    _ => {},
                }
            }
        }
        assert(take == is_orphan(entries@[i as int], live@));
        if take {
            let size = match e.meta {
                Some((_, s)) => s,
                None => 0,
            };
            let ghost o = orphans(before, live@);
            assert(orphans(entries@.take(i + 1), live@) == o.push(entries@[i as int]));
            assert(o.push(entries@[i as int]).drop_last() =~= o);
            assert(total_size(o.push(entries@[i as int])) == bytes + size);
            count = count + 1;
            bytes = bytes + size;
            if sample.len() < SAMPLE_LIMIT {
                sample.push(e.name.clone());
            }
            paths.push(e.path.clone());
            proof {
                let o2 = o.push(entries@[i as int]);
                assert(o2.drop_last() =~= o);
                assert forall|k: int| 0 <= k < sample@.len() implies #[trigger] sample@[k]@ == o2[k].name@ by {
                    if k < o.len() {
                        assert(o2[k] == o[k]);
                    }
                }
                assert forall|k: int| 0 <= k < o2.len() implies #[trigger] paths@[k]@ == o2[k].path@ by {
                    if k < o.len() {
                        assert(o2[k] == o[k]);
                    }
                }
            }
        }
        i = i + 1;
    }
    assert(entries@.take(entries@.len() as int) =~= entries@);
    (Report { orphan_count: count, orphan_bytes: bytes, deleted: delete, sample }, paths)
}

proof fn lemma_orphans_prefix(entries: Seq<StoreEntry>, live: Seq<String>, i: int)
    requires
        0 <= i <= entries.len(),
    ensures
        total_size(orphans(entries.take(i), live)) <= total_size(orphans(entries, live)),
    decreases entries.len() - i,
{
    if i < entries.len() {
        lemma_orphans_prefix(entries, live, i + 1);
        let next = entries.take(i + 1);
        assert(next.drop_last() =~= entries.take(i));
        let o = orphans(entries.take(i), live);
        if is_orphan(next.last(), live) {
            assert(o.push(next.last()).drop_last() =~= o);
        }
    } else {
        assert(entries.take(i) =~= entries);
    }
}

} // verus!
