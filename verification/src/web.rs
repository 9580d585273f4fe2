//! Decisions about the HTTP front: which origins cross-origin requests may
//! come from, and how large a request body may be.

use vstd::prelude::*;

verus! {

/// The largest request body the public API accepts, in bytes. The largest
/// upload there is a skin of 256 KiB; the admin API has no limit.
pub const PUBLIC_BODY_LIMIT: usize = 8 * 1024 * 1024;

/// Who may make cross-origin requests.
#[derive(Clone, Debug)]
pub enum CorsPolicy {
    /// Any origin: no list is configured, so local development keeps
    /// working. Production sets the list.
    Permissive,
    /// Only these origins.
    AllowList(Vec<String>),
}

/// A character that may stand in an HTTP header value: tab, or any
/// character from space up other than DEL. Characters beyond ASCII are
/// encoded as bytes from 0x80 up, which header values admit.
pub open spec fn header_char(c: char) -> bool {
    c == '\t' || (c as u32 >= 32 && c as u32 != 127)
}

/// The origin can be sent as a header value.
pub open spec fn is_header_value(s: Seq<char>) -> bool {
    forall|i: int| 0 <= i < s.len() ==> header_char(#[trigger] s[i])
}

/// The origins that can be used, in order; the others are skipped.
pub open spec fn usable_origins(origins: Seq<String>) -> Seq<Seq<char>>
    decreases origins.len(),
{
    if origins.len() == 0 {
        Seq::empty()
    } else {
        let r = usable_origins(origins.drop_last());
        if is_header_value(origins.last()@) {
            r.push(origins.last()@)
        } else {
            r
        }
    }
}

fn header_value_ok(s: &str) -> (r: bool)
    ensures
        r == is_header_value(s@),
{
    let cs = crate::text::chars_of(s);
    let n = cs.len();
    let mut i: usize = 0;
    while i < n
        invariant
            n == cs@.len(),
            cs@ == s@,
            i <= n,
            forall|k: int| 0 <= k < i ==> header_char(#[trigger] cs@[k]),
        decreases n - i,
    {
        let c = cs[i];
        let v = c as u32;
        if !(c == '\t' || (v >= 32 && v != 127)) {
            assert(!header_char(cs@[i as int]));
            return false;
        }
        i = i + 1;
    }
    true
}

/// The cross-origin policy for the configured origins: any origin when none
/// is configured, otherwise those of them that are valid header values.
pub fn cors_policy(allowed_origins: &[String]) -> (r: CorsPolicy)
    ensures
        allowed_origins@.len() == 0 ==> r is Permissive,
        allowed_origins@.len() > 0 ==> (r matches CorsPolicy::AllowList(list) && list@.map_values(
            |s: String| s@,
        ) == usable_origins(allowed_origins@)),
{
    if allowed_origins.len() == 0 {
        return CorsPolicy::Permissive;
    }
    let mut list: Vec<String> = Vec::new();
    let n = allowed_origins.len();
    for i in 0..n
        invariant
            n == allowed_origins@.len(),
            list@.map_values(|s: String| s@) == usable_origins(allowed_origins@.take(i as int)),
    {
        proof {
            assert(allowed_origins@.take(i as int + 1).drop_last() =~= allowed_origins@.take(i as int));
        }
        if header_value_ok(allowed_origins[i].as_str()) {
            list.push(allowed_origins[i].clone());
        }
        assert(list@.map_values(|s: String| s@) =~= usable_origins(allowed_origins@.take(i as int + 1)));
    }
    assert(allowed_origins@.take(n as int) =~= allowed_origins@);
    CorsPolicy::AllowList(list)
}

} // verus!
