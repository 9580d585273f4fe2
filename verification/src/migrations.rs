//! The directory of schema migrations: where it is, which files in it are
//! migrations and their numbers, and the check that no number is used
//! twice. sqlx applies the first of two files with one number, stops at the
//! second with a version mismatch, and never applies anything after it.

use crate::store::{join_spec, path_join};
use crate::text::{chars_of, ends_with, find_char, first_index, has_suffix, parse_u32, parse_u32_spec, string_from_chars, sub_chars};
use vstd::prelude::*;

verus! {

/// The migrations directory of the package whose manifest directory is
/// `manifest_dir`.
pub fn migrations_dir(manifest_dir: &str) -> (r: String)
    ensures
        r@ == join_spec(manifest_dir@, "migrations"@),
{
    let base = chars_of(manifest_dir);
    let part = chars_of("migrations");
    let p = path_join(base.as_slice(), part.as_slice());
    string_from_chars(p.as_slice())
}

/// A file of the directory is a migration when its name ends in `.sql`.
pub open spec fn is_migration_file(name: Seq<char>) -> bool {
    has_suffix(name, ".sql"@)
}

/// The number a migration's name starts with: its first `_`-separated
/// piece, read as a `u32`.
pub open spec fn migration_version_spec(name: Seq<char>) -> Option<u32> {
    let head = match first_index(name, '_') {
        Some(i) => name.take(i),
        None => name,
    };
    parse_u32_spec(head)
}

/// Whether a file name is a migration's.
pub fn is_migration(name: &str) -> (r: bool)
    ensures
        r == is_migration_file(name@),
{
    let n = chars_of(name);
    let sql = chars_of(".sql");
    ends_with(n.as_slice(), sql.as_slice())
}

/// The number a migration's name starts with, if it starts with one.
pub fn migration_version(name: &str) -> (r: Option<u32>)
    ensures
        r == migration_version_spec(name@),
{
    let n = chars_of(name);
    let head = match find_char(n.as_slice(), '_') {
        Some(i) => sub_chars(n.as_slice(), 0, i),
        None => sub_chars(n.as_slice(), 0, n.len()),
    };
    assert(n@.subrange(0, n@.len() as int) =~= n@);
    parse_u32(head.as_slice())
}

/// The migrations among the files of the directory, in the order given,
/// with their numbers; or the first migration whose name does not start
/// with a number.
pub open spec fn scan_spec(names: Seq<String>) -> Result<Seq<(u32, Seq<char>)>, Seq<char>>
    decreases names.len(),
{
    if names.len() == 0 {
        Ok(Seq::empty())
    } else {
        match scan_spec(names.drop_last()) {
            Err(bad) => Err(bad),
            Ok(found) => {
                let n = names.last()@;
                if is_migration_file(n) {
                    match migration_version_spec(n) {
                        Some(v) => Ok(found.push((v, n))),
                        None => Err(n),
                    }
                } else {
                    Ok(found)
                }
            },
        }
    }
}

/// The views of numbered names.
pub open spec fn found_views(found: Seq<(u32, String)>) -> Seq<(u32, Seq<char>)> {
    found.map_values(|e: (u32, String)| (e.0, e.1@))
}

/// The migrations among the files, in the order given, with their numbers;
/// `Err` with the first migration whose name does not start with a number.
fn scan(file_names: &[String]) -> (r: Result<Vec<(u32, String)>, String>)
    ensures
        match r {
            Ok(found) => scan_spec(file_names@) == Ok::<Seq<(u32, Seq<char>)>, Seq<char>>(
                found_views(found@),
            ),
            Err(bad) => scan_spec(file_names@) == Err::<Seq<(u32, Seq<char>)>, Seq<char>>(bad@),
        },
{
    let mut found: Vec<(u32, String)> = Vec::new();
    let n = file_names.len();
    assert(file_names@.take(0) =~= Seq::<String>::empty());
    assert(found_views(found@) =~= Seq::<(u32, Seq<char>)>::empty());
    for i in 0..n
        invariant
            n == file_names@.len(),
            scan_spec(file_names@.take(i as int)) == Ok::<Seq<(u32, Seq<char>)>, Seq<char>>(
                found_views(found@),
            ),
    {
        proof {
            assert(file_names@.take(i as int + 1).drop_last() =~= file_names@.take(i as int));
        }
        let name = &file_names[i];
        if is_migration(name.as_str()) {
            match migration_version(name.as_str()) {
                Some(v) => {
                    let ghost before = found@;
                    found.push((v, name.clone()));
                    assert(found_views(found@) =~= found_views(before).push((v, name@)));
                },
                None => {
                    proof {
                        lemma_err_persists(file_names@, i as int + 1, name@);
                    }
                    return Err(name.clone());
                },
            }
        }
    }
    assert(file_names@.take(n as int) =~= file_names@);
    Ok(found)
}

/// `a` comes before `b`, or is `b`, in the order of strings: character by
/// character by code point, a prefix before what it begins.
pub open spec fn chars_le(a: Seq<char>, b: Seq<char>) -> bool
    decreases a.len(),
{
    if a.len() == 0 {
        true
    } else if b.len() == 0 {
        false
    } else if (a[0] as u32) != (b[0] as u32) {
        (a[0] as u32) < (b[0] as u32)
    } else {
        chars_le(a.drop_first(), b.drop_first())
    }
}

/// The order of numbered migrations: by number, then by name.
pub open spec fn entry_le(a: (u32, Seq<char>), b: (u32, Seq<char>)) -> bool {
    a.0 < b.0 || (a.0 == b.0 && chars_le(a.1, b.1))
}

/// The numbered migrations are in ascending order.
pub open spec fn sorted_entries(s: Seq<(u32, Seq<char>)>) -> bool {
    forall|i: int, j: int| 0 <= i < j < s.len() ==> entry_le(#[trigger] s[i], #[trigger] s[j])
}

/// The order of strings is total and transitive.
pub proof fn lemma_chars_le_order(a: Seq<char>, b: Seq<char>, c: Seq<char>)
    ensures
        chars_le(a, b) || chars_le(b, a),
        chars_le(a, b) && chars_le(b, c) ==> chars_le(a, c),
    decreases a.len(),
{
    if a.len() > 0 && b.len() > 0 && c.len() > 0 {
        lemma_chars_le_order(a.drop_first(), b.drop_first(), c.drop_first());
    } else if a.len() > 0 && b.len() > 0 {
        lemma_chars_le_order(a.drop_first(), b.drop_first(), c);
    }
}

/// Whether `a` comes before `b`, or is `b`, in the order of strings.
fn chars_le_exec(a: &[char], b: &[char]) -> (r: bool)
    ensures
        r == chars_le(a@, b@),
{
    let mut i: usize = 0;
    assert(a@.skip(0) =~= a@ && b@.skip(0) =~= b@);
    loop
        invariant
            i <= a@.len(),
            i <= b@.len(),
            chars_le(a@, b@) == chars_le(a@.skip(i as int), b@.skip(i as int)),
        decreases a@.len() - i,
    {
        if i == a.len() {
            return true;
        }
        if i == b.len() {
            return false;
        }
        let x = a[i];
        let y = b[i];
        assert(a@.skip(i as int)[0] == x && b@.skip(i as int)[0] == y);
        if (x as u32) != (y as u32) {
            return (x as u32) < (y as u32);
        }
        assert(a@.skip(i as int).drop_first() =~= a@.skip(i + 1));
        assert(b@.skip(i as int).drop_first() =~= b@.skip(i + 1));
        i = i + 1;
    }
}

fn entry_le_exec(a: &(u32, String), b: &(u32, String)) -> (r: bool)
    ensures
        r == entry_le((a.0, a.1@), (b.0, b.1@)),
{
    if a.0 != b.0 {
        return a.0 < b.0;
    }
    let x = chars_of(a.1.as_str());
    let y = chars_of(b.1.as_str());
    chars_le_exec(x.as_slice(), y.as_slice())
}

/// Numbered migrations in ascending order, by number and then by name: the
/// same entries, sorted.
pub fn sort_migrations(found: Vec<(u32, String)>) -> (r: Vec<(u32, String)>)
    ensures
        found_views(r@).to_multiset() == found_views(found@).to_multiset(),
        sorted_entries(found_views(r@)),
{
    let mut out: Vec<(u32, String)> = Vec::new();
    let n = found.len();
    assert(found_views(out@) =~= found_views(found@).take(0));
    for i in 0..n
        invariant
            n == found@.len(),
            found_views(out@).to_multiset() == found_views(found@).take(i as int).to_multiset(),
            sorted_entries(found_views(out@)),
    {
        let x = (found[i].0, found[i].1.clone());
        let ghost xv = (x.0, x.1@);
        let ghost ov = found_views(out@);
        let mut p: usize = 0;
        while p < out.len() && entry_le_exec(&out[p], &x)
            invariant
                p <= out@.len(),
                ov == found_views(out@),
                xv == (x.0, x.1@),
                forall|k: int| 0 <= k < p ==> entry_le(#[trigger] ov[k], xv),
            decreases out@.len() - p,
        {
            p = p + 1;
        }
        proof {
            if p < ov.len() {
                assert(!entry_le(ov[p as int], xv));
                assert forall|k: int| p <= k < ov.len() implies entry_le(xv, #[trigger] ov[k]) by {
                    lemma_chars_le_order(xv.1, ov[p as int].1, ov[k].1);
                    lemma_chars_le_order(ov[p as int].1, xv.1, ov[k].1);
                    if k > p {
                        assert(entry_le(ov[p as int], ov[k]));
                    }
                }
            }
        }
        out.insert(p, x);
        proof {
            let nv = found_views(out@);
            assert(nv =~= ov.insert(p as int, xv));
            assert forall|a: int, b: int| 0 <= a < b < nv.len() implies entry_le(#[trigger] nv[a], #[trigger] nv[b]) by {
                if a < p && b == p {
                } else if a == p && b > p {
                    assert(nv[b] == ov[b - 1]);
                } else if b < p {
                    assert(nv[a] == ov[a] && nv[b] == ov[b]);
                } else if a < p && b > p {
                    assert(nv[a] == ov[a] && nv[b] == ov[b - 1]);
                } else {
                    assert(nv[a] == ov[a - 1] && nv[b] == ov[b - 1]);
                }
            }
            vstd::seq_lib::to_multiset_insert(ov, p as int, xv);
            let fv = found_views(found@);
            assert(fv.take(i + 1) =~= fv.take(i as int).push(xv));
            vstd::seq_lib::to_multiset_build(fv.take(i as int), xv);
        }
    }
    assert(found_views(found@).take(n as int) =~= found_views(found@));
    out
}

/// The migrations among the files of the directory, with their numbers, in
/// ascending order of number and then name; `Err` with the first migration
/// whose name does not start with a number.
pub fn migrations(file_names: &[String]) -> (r: Result<Vec<(u32, String)>, String>)
    ensures
        match r {
            Ok(found) => scan_spec(file_names@) matches Ok(s) && found_views(found@).to_multiset()
                == s.to_multiset() && sorted_entries(found_views(found@)),
            Err(bad) => scan_spec(file_names@) == Err::<Seq<(u32, Seq<char>)>, Seq<char>>(bad@),
        },
{
    match scan(file_names) {
        Ok(found) => Ok(sort_migrations(found)),
        Err(bad) => Err(bad),
    }
}

proof fn lemma_err_persists(names: Seq<String>, j: int, bad: Seq<char>)
    requires
        0 <= j <= names.len(),
        scan_spec(names.take(j)) == Err::<Seq<(u32, Seq<char>)>, Seq<char>>(bad),
    ensures
        scan_spec(names) == Err::<Seq<(u32, Seq<char>)>, Seq<char>>(bad),
    decreases names.len() - j,
{
    if j == names.len() {
        assert(names.take(j) =~= names);
    } else {
        assert(names.take(j + 1).drop_last() =~= names.take(j));
        lemma_err_persists(names, j + 1, bad);
    }
}

/// Every migration read comes with the number its name starts with; an
/// error names a migration whose name starts with none.
pub proof fn lemma_scan_reads_numbers(names: Seq<String>)
    ensures
        scan_spec(names) matches Ok(found) ==> forall|k: int|
            0 <= k < found.len() ==> is_migration_file((#[trigger] found[k]).1)
                && migration_version_spec(found[k].1) == Some(found[k].0),
        scan_spec(names) matches Err(bad) ==> is_migration_file(bad) && migration_version_spec(bad) is None,
    decreases names.len(),
{
    if names.len() > 0 {
        lemma_scan_reads_numbers(names.drop_last());
        if let Ok(f) = scan_spec(names.drop_last()) {
            if let Ok(found) = scan_spec(names) {
                assert forall|k: int| 0 <= k < found.len() implies is_migration_file(
                    (#[trigger] found[k]).1,
                ) && migration_version_spec(found[k].1) == Some(found[k].0) by {
                    if k < f.len() {
                        assert(found[k] == f[k]);
                    }
                }
            }
        }
    }
}

/// No two migrations share a number.
pub open spec fn versions_unique_spec(found: Seq<(u32, String)>) -> bool {
    forall|i: int, j: int| 0 <= i < j < found.len() ==> #[trigger] found[i].0 != #[trigger] found[j].0
}

/// Whether no two migrations share a number.
pub fn versions_unique(found: &[(u32, String)]) -> (r: bool)
    ensures
        r == versions_unique_spec(found@),
{
    let n = found.len();
    let mut j: usize = 0;
    while j < n
        invariant
            n == found@.len(),
            j <= n,
            forall|a: int, b: int| 0 <= a < b < j ==> #[trigger] found@[a].0 != #[trigger] found@[b].0,
        decreases n - j,
    {
        let mut i: usize = 0;
        while i < j
            invariant
                n == found@.len(),
                i <= j < n,
                forall|a: int, b: int| 0 <= a < b < j ==> #[trigger] found@[a].0 != #[trigger] found@[b].0,
                forall|a: int| 0 <= a < i ==> #[trigger] found@[a].0 != found@[j as int].0,
            decreases j - i,
        {
            if found[i].0 == found[j].0 {
                return false;
            }
            i = i + 1;
        }
        j = j + 1;
    }
    true
}

/// The latest of the known migration numbers, or 0 where there are none.
pub fn latest_version(versions: &[i64]) -> (r: i64)
    ensures
        versions@.len() == 0 ==> r == 0,
        versions@.len() > 0 ==> versions@.contains(r) && forall|k: int|
            0 <= k < versions@.len() ==> #[trigger] versions@[k] <= r,
{
    if versions.len() == 0 {
        return 0;
    }
    let mut best: i64 = versions[0];
    let n = versions.len();
    for i in 1..n
        invariant
            n == versions@.len(),
            n > 0,
            versions@.contains(best),
            forall|k: int| 0 <= k < i ==> #[trigger] versions@[k] <= best,
    {
        if versions[i] > best {
            best = versions[i];
        }
    }
    best
}

} // verus!
