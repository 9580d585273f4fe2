//! The content-addressed store: an object lives at
//! `files/{sha1[0..2]}/{sha1[2..4]}/{sha1}` under the data directory, so
//! the same content is kept once however many builds use it.
//!
//! Paths are POSIX paths held as strings; joining follows `Path::join` on
//! Unix.

use crate::digest::{hex_spec, sha1_digest, sha1_hex};
use crate::text::{
    ascii_lower, ascii_lower_exec, chars_of, push_chars, push_str, string_from_chars, sub_chars,
};
use vstd::prelude::*;

verus! {

/// `base.join(part)` for POSIX paths: an absolute `part` replaces `base`;
/// otherwise a separator is put between them unless `base` is empty or
/// already ends in one.
pub open spec fn join_spec(base: Seq<char>, part: Seq<char>) -> Seq<char> {
    if part.len() > 0 && part[0] == '/' {
        part
    } else if base.len() == 0 || base.last() == '/' {
        base + part
    } else {
        base + seq!['/'] + part
    }
}

/// Joins a path and a part.
pub fn path_join(base: &[char], part: &[char]) -> (r: Vec<char>)
    ensures
        r@ == join_spec(base@, part@),
{
    let mut out: Vec<char> = Vec::new();
    if part.len() > 0 && part[0] == '/' {
        push_chars(&mut out, part);
        return out;
    }
    push_chars(&mut out, base);
    if !(base.len() == 0 || base[base.len() - 1] == '/') {
        out.push('/');
    }
    push_chars(&mut out, part);
    out
}

/// How many bytes UTF-8 spends on `c`.
pub open spec fn utf8_width(c: char) -> nat {
    let n = c as u32;
    if n < 0x80 {
        1
    } else if n < 0x800 {
        2
    } else if n < 0x10000 {
        3
    } else {
        4
    }
}

/// How many bytes UTF-8 spends on the first `k` characters of `s`.
pub open spec fn utf8_prefix_len(s: Seq<char>, k: int) -> nat
    decreases k,
{
    if k <= 0 {
        0
    } else {
        utf8_prefix_len(s, k - 1) + utf8_width(s[k - 1])
    }
}

/// Whether byte offset `b` of `s` falls between two characters, and after
/// which character count.
pub open spec fn boundary_at(s: Seq<char>, b: nat, k: int) -> bool {
    0 <= k <= s.len() && utf8_prefix_len(s, k) == b
}

/// A name the store can split into its two directory levels: byte offsets
/// 2 and 4 fall between characters (which also makes it at least four bytes
/// long). Byte slicing of any other name panics.
pub open spec fn addressable(s: Seq<char>) -> bool {
    (exists|k: int| boundary_at(s, 2, k)) && (exists|k: int| boundary_at(s, 4, k))
}

proof fn lemma_prefix_mono(s: Seq<char>, i: int, j: int)
    requires
        0 <= i <= j,
    ensures
        utf8_prefix_len(s, i) + (j - i) <= utf8_prefix_len(s, j),
    decreases j - i,
{
    if i < j {
        lemma_prefix_mono(s, i, j - 1);
    }
}

/// The character count after which byte offset `b` falls.
fn boundary_index(s: &[char], b: usize) -> (k: usize)
    requires
        exists|k: int| boundary_at(s@, b as nat, k),
        b <= 4,
    ensures
        boundary_at(s@, b as nat, k as int),
{
    let ghost w = choose|k: int| boundary_at(s@, b as nat, k);
    let mut k: usize = 0;
    let mut acc: usize = 0;
    while acc < b
        invariant
            boundary_at(s@, b as nat, w),
            k <= w,
            acc == utf8_prefix_len(s@, k as int),
            b <= 4,
        decreases b - acc,
    {
        proof {
            if k == w {
                assert(false);
            }
            lemma_prefix_mono(s@, k as int, w);
        }
        let c = s[k];
        let n = c as u32;
        let width: usize = if n < 0x80 {
            1
        } else if n < 0x800 {
            2
        } else if n < 0x10000 {
            3
        } else {
            4
        };
        acc = acc + width;
        k = k + 1;
        proof {
            if k < w {
                lemma_prefix_mono(s@, k as int, w);
            } else if k > w {
                lemma_prefix_mono(s@, w, k as int);
            }
        }
    }
    proof {
        if k < w {
            lemma_prefix_mono(s@, k as int, w);
            lemma_prefix_mono(s@, k as int + 1, w);
            lemma_strict(s@, k as int, w);
        }
    }
    k
}

proof fn lemma_strict(s: Seq<char>, i: int, j: int)
    requires
        0 <= i < j,
    ensures
        utf8_prefix_len(s, i) < utf8_prefix_len(s, j),
    decreases j - i,
{
    if i + 1 < j {
        lemma_strict(s, i, j - 1);
    }
}

/// Where the store keeps objects.
#[derive(Clone, Debug)]
pub struct FileStore {
    pub root: String,
}

/// The outcome of storing content: its name and size.
#[derive(Clone, Debug)]
pub struct StoredFile {
    pub sha1: String,
    pub size: u64,
}

/// The path of the object named `sha1` under `root`.
pub open spec fn object_path_spec(root: Seq<char>, sha1: Seq<char>) -> Seq<char> {
    let k2 = choose|k: int| boundary_at(sha1, 2, k);
    let k4 = choose|k: int| boundary_at(sha1, 4, k);
    join_spec(
        join_spec(join_spec(root, sha1.subrange(0, k2)), sha1.subrange(k2, k4)),
        sha1,
    )
}

proof fn lemma_join_ends_with_part(base: Seq<char>, part: Seq<char>)
    requires
        part.len() > 0,
        part[0] != '/',
    ensures
        join_spec(base, part).len() >= part.len(),
        join_spec(base, part).subrange(
            join_spec(base, part).len() - part.len(),
            join_spec(base, part).len() as int,
        ) == part,
{
    let j = join_spec(base, part);
    assert(j.subrange(j.len() - part.len(), j.len() as int) =~= part);
}

/// Objects with different names never share a path: the path ends with the
/// name itself. (Names that start with `/` or differ in length aside, which
/// no object name does.)
pub proof fn lemma_object_paths_distinct(root: Seq<char>, a: Seq<char>, b: Seq<char>)
    requires
        addressable(a),
        addressable(b),
        a.len() == b.len(),
        a.len() > 0,
        a[0] != '/',
        b[0] != '/',
        object_path_spec(root, a) == object_path_spec(root, b),
    ensures
        a == b,
{
    let ka2 = choose|k: int| boundary_at(a, 2, k);
    let ka4 = choose|k: int| boundary_at(a, 4, k);
    let kb2 = choose|k: int| boundary_at(b, 2, k);
    let kb4 = choose|k: int| boundary_at(b, 4, k);
    lemma_join_ends_with_part(
        join_spec(join_spec(root, a.subrange(0, ka2)), a.subrange(ka2, ka4)),
        a,
    );
    lemma_join_ends_with_part(
        join_spec(join_spec(root, b.subrange(0, kb2)), b.subrange(kb2, kb4)),
        b,
    );
}

proof fn lemma_boundary_unique(s: Seq<char>, b: nat, i: int, j: int)
    requires
        boundary_at(s, b, i),
        boundary_at(s, b, j),
    ensures
        i == j,
{
    if i < j {
        lemma_strict(s, i, j);
    } else if j < i {
        lemma_strict(s, j, i);
    }
}

impl FileStore {
    /// The store under a data directory: its `files` subdirectory.
    pub fn new(data_dir: &str) -> (r: FileStore)
        ensures
            r.root@ == join_spec(data_dir@, "files"@),
    {
        let d = chars_of(data_dir);
        let f = chars_of("files");
        let root = path_join(d.as_slice(), f.as_slice());
        FileStore { root: string_from_chars(root.as_slice()) }
    }

    /// The path of the object named `sha1`.
    pub fn path_for(&self, sha1: &str) -> (r: String)
        requires
            addressable(sha1@),
        ensures
            r@ == object_path_spec(self.root@, sha1@),
    {
        let s = chars_of(sha1);
        let k2 = boundary_index(s.as_slice(), 2);
        let k4 = boundary_index(s.as_slice(), 4);
        proof {
            let c2 = choose|k: int| boundary_at(sha1@, 2, k);
            let c4 = choose|k: int| boundary_at(sha1@, 4, k);
            lemma_boundary_unique(sha1@, 2, k2 as int, c2);
            lemma_boundary_unique(sha1@, 4, k4 as int, c4);
            if k4 < k2 {
                lemma_strict(sha1@, k4 as int, k2 as int);
            }
        }
        let first = sub_chars(s.as_slice(), 0, k2);
        let second = sub_chars(s.as_slice(), k2, k4);
        let root = chars_of(self.root.as_str());
        let a = path_join(root.as_slice(), first.as_slice());
        let b = path_join(a.as_slice(), second.as_slice());
        let c = path_join(b.as_slice(), s.as_slice());
        string_from_chars(c.as_slice())
    }

    /// The temporary file an object is written to before it is renamed into
    /// place: the object path with the extension `tmp`.
    pub fn tmp_path_for(&self, sha1: &str) -> (r: String)
        requires
            addressable(sha1@),
            !sha1@.contains('.'),
        ensures
            r@ == object_path_spec(self.root@, sha1@) + ".tmp"@,
    {
        let p = self.path_for(sha1);
        let mut out = chars_of(p.as_str());
        push_str(&mut out, ".tmp");
        string_from_chars(out.as_slice())
    }

    /// The name and size under which `data` is stored.
    pub fn address(data: &[u8]) -> (r: StoredFile)
        ensures
            r.sha1@ == hex_spec(sha1_digest(data@)),
            r.sha1@.len() == 40,
            r.size == data@.len(),
    {
        let sha1 = sha1_hex(data);
        StoredFile { sha1, size: data.len() as u64 }
    }
}

/// Whether a write goes to disk: always when overwriting, otherwise only
/// when nothing is stored under the name yet.
pub fn should_write(overwrite: bool, already_stored: bool) -> (r: bool)
    ensures
        r == (overwrite || !already_stored),
{
    overwrite || !already_stored
}

/// Whether a download can be skipped: the expected name is known, the
/// caller does not ask to overwrite, and the object is already stored.
pub fn download_needed(expected: Option<&str>, overwrite: bool, already_stored: bool) -> (r: bool)
    ensures
        r == !(expected is Some && !overwrite && already_stored),
{
    !(expected.is_some() && !overwrite && already_stored)
}

/// `str::eq_ignore_ascii_case`.
pub open spec fn eq_ignore_ascii_case_spec(a: Seq<char>, b: Seq<char>) -> bool {
    a.len() == b.len() && forall|i: int| 0 <= i < a.len() ==> ascii_lower(#[trigger] a[i]) == ascii_lower(b[i])
}

/// Compares two strings, ignoring ASCII case.
pub fn eq_ignore_ascii_case(a: &str, b: &str) -> (r: bool)
    ensures
        r == eq_ignore_ascii_case_spec(a@, b@),
{
    let x = chars_of(a);
    let y = chars_of(b);
    if x.len() != y.len() {
        return false;
    }
    let mut i: usize = 0;
    while i < x.len()
        invariant
            x@ == a@,
            y@ == b@,
            x@.len() == y@.len(),
            i <= x@.len(),
            forall|k: int| 0 <= k < i ==> ascii_lower(#[trigger] x@[k]) == ascii_lower(y@[k]),
        decreases x.len() - i,
    {
        if ascii_lower_exec(x[i]) != ascii_lower_exec(y[i]) {
            return false;
        }
        i = i + 1;
    }
    true
}

/// Whether a download is what was asked for: when a name was expected, the
/// stored name must equal it up to ASCII case.
pub fn download_matches(expected: Option<&str>, stored: &StoredFile) -> (r: bool)
    ensures
        r == match expected {
            Some(e) => eq_ignore_ascii_case_spec(e@, stored.sha1@),
            None => true,
        },
{
    match expected {
        Some(e) => eq_ignore_ascii_case(e, stored.sha1.as_str()),
        None => true,
    }
}

} // verus!
