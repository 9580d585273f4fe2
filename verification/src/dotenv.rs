//! The `.env` file read at start-up: `KEY=VALUE` lines, without quoting
//! rules or escapes.

use crate::text::{
    is_ws, lemma_first_index, trim_end_spec, trim_start_spec,
    chars_of, find_char, split_char, split_spec, strip_leading, strip_leading_exec, strip_trailing,
    strip_trailing_exec, string_from_chars, sub_chars, trim, trim_spec, first_index,
};
use vstd::prelude::*;

verus! {

/// `s` without the double quotes around it (`str::trim_matches('"')`).
pub open spec fn strip_quotes(s: Seq<char>) -> Seq<char> {
    strip_leading(strip_trailing(s, '"'), seq!['"'])
}

/// The assignment a line makes, if any. Blank lines and lines that start
/// with `#` make none, nor do lines without `=`. The key is what precedes the
/// first `=`, trimmed; the value is what follows it, trimmed, with the
/// double quotes around it taken off.
pub open spec fn dotenv_line(line: Seq<char>) -> Option<(Seq<char>, Seq<char>)> {
    let t = trim_spec(line);
    if t.len() == 0 || t[0] == '#' {
        None
    } else {
        match first_index(t, '=') {
            None => None,
            Some(i) => Some(
                (
                    trim_spec(t.subrange(0, i)),
                    strip_quotes(trim_spec(t.subrange(i + 1, t.len() as int))),
                ),
            ),
        }
    }
}

/// The assignments the lines make, in order.
pub open spec fn dotenv_assignments(lines: Seq<Seq<char>>) -> Seq<(Seq<char>, Seq<char>)>
    decreases lines.len(),
{
    if lines.len() == 0 {
        Seq::empty()
    } else {
        let r = dotenv_assignments(lines.drop_last());
        match dotenv_line(lines.last()) {
            Some(kv) => r.push(kv),
            None => r,
        }
    }
}

/// The assignments a `.env` file makes, line by line. A trailing `\r` on a
/// line is whitespace and goes with the trimming.
pub open spec fn dotenv_spec(content: Seq<char>) -> Seq<(Seq<char>, Seq<char>)> {
    dotenv_assignments(split_spec(content, '\n'))
}

proof fn lemma_trim_unchanged(s: Seq<char>)
    requires
        s.len() > 0 ==> !is_ws(s[0]) && !is_ws(s.last()),
    ensures
        trim_spec(s) == s,
{
    assert(trim_start_spec(s) == s);
    assert(trim_end_spec(s) == s);
}

/// A line written as `KEY=VALUE` reads back as that assignment: for a key
/// that is not blank, has no `=` and does not start with `#`, and a key and
/// value with no whitespace at either end and no double quote at either end
/// of the value.
pub proof fn lemma_dotenv_line_round_trip(key: Seq<char>, value: Seq<char>)
    requires
        key.len() > 0,
        !is_ws(key[0]),
        !is_ws(key.last()),
        key[0] != '#',
        !key.contains('='),
        value.len() > 0 ==> !is_ws(value[0]) && !is_ws(value.last()) && value[0] != '"'
            && value.last() != '"',
    ensures
        dotenv_line(key + seq!['='] + value) == Some((key, value)),
{
    let line = key + seq!['='] + value;
    assert(line[0] == key[0]);
    assert(!is_ws('='));
    if value.len() > 0 {
        assert(line.last() == value.last());
    } else {
        assert(line.last() == '=');
    }
    lemma_trim_unchanged(line);
    assert forall|j: int| 0 <= j < key.len() implies line[j] != '=' by {
        assert(line[j] == key[j]);
    }
    assert(line[key.len() as int] == '=');
    lemma_first_index(line, '=', key.len() as int);
    assert(line.subrange(0, key.len() as int) =~= key);
    assert(line.subrange(key.len() as int + 1, line.len() as int) =~= value);
    lemma_trim_unchanged(key);
    lemma_trim_unchanged(value);
    assert(strip_trailing(value, '"') == value);
    if value.len() > 0 {
        assert(value.subrange(0, 1) != seq!['"']) by {
            assert(value.subrange(0, 1)[0] == value[0]);
        }
    }
    assert(strip_leading(value, seq!['"']) == value);
}

fn parse_line(line: &[char]) -> (r: Option<(String, String)>)
    ensures
        match r {
            Some(kv) => dotenv_line(line@) == Some((kv.0@, kv.1@)),
            None => dotenv_line(line@) is None,
        },
{
    let t = trim(line);
    if t.len() == 0 || t[0] == '#' {
        return None;
    }
    match find_char(t.as_slice(), '=') {
        None => None,
        Some(i) => {
            let k = sub_chars(t.as_slice(), 0, i);
            let v = sub_chars(t.as_slice(), i + 1, t.len());
            let key = trim(k.as_slice());
            let v1 = trim(v.as_slice());
            let v2 = strip_trailing_exec(v1.as_slice(), '"');
            let quote = vec!['"'];
            let v3 = strip_leading_exec(v2, quote.as_slice());
            assert(quote@ =~= seq!['"']);
            Some((string_from_chars(key.as_slice()), string_from_chars(v3.as_slice())))
        },
    }
}

/// The views of key/value pairs.
pub open spec fn pair_views(v: Seq<(String, String)>) -> Seq<(Seq<char>, Seq<char>)> {
    v.map_values(|p: (String, String)| (p.0@, p.1@))
}

/// The assignments a `.env` file makes, in order. Whether each is applied
/// (only where the variable is not already set) is the caller's business.
pub fn parse_dotenv(content: &str) -> (r: Vec<(String, String)>)
    ensures
        pair_views(r@) == dotenv_spec(content@),
{
    let cs = chars_of(content);
    let lines = split_char(cs.as_slice(), '\n');
    let ghost pieces = split_spec(cs@, '\n');
    let mut out: Vec<(String, String)> = Vec::new();
    let n = lines.len();
    for i in 0..n
        invariant
            n == lines@.len(),
            n == pieces.len(),
            pieces == split_spec(content@, '\n'),
            forall|k: int| 0 <= k < n ==> #[trigger] lines@[k]@ == pieces[k],
            pair_views(out@) == dotenv_assignments(pieces.take(i as int)),
    {
        proof {
            assert(pieces.take(i as int + 1).drop_last() =~= pieces.take(i as int));
        }
        match parse_line(lines[i].as_slice()) {
            Some(kv) => {
                out.push(kv);
            },
            None => {},
        }
        assert(pair_views(out@) =~= dotenv_assignments(pieces.take(i as int + 1)));
    }
    assert(pieces.take(n as int) =~= pieces);
    out
}

} // verus!
