//! Accounts: the sign-in methods that are on, the platforms a player has
//! linked, the Minecraft name a new player gets, one-time recovery codes
//! and the play time a session adds.
//!
//! Identifiers are the 128-bit values of the rows' UUIDs.

use crate::text::{chars_of, string_from_chars, trim, trim_spec};
use crate::time::{minutes_between, minutes_since, UtcTime};
use rand::Rng;
use vstd::prelude::*;

verus! {

/// How long the one-time code a launcher exchanges for its session tokens
/// lives, in minutes: it travels in a loopback redirect's URL, and the
/// shorter the window, the less an intercepted one is worth.
pub const LAUNCHER_CODE_TTL_MINS: i64 = 5;

/// How long a started passkey ceremony may take, in minutes.
pub const PASSKEY_STATE_TTL_MINS: i64 = 5;

/// How long an OAuth authorization code lives, in minutes.
pub const OAUTH_CODE_TTL_MINS: i64 = 10;

/// A sign-in method and the application keys it uses.
#[derive(Clone, Debug)]
pub struct AuthMethodRow {
    pub method: String,
    pub client_id: String,
    pub client_secret: String,
    pub enabled: bool,
}

/// Whether a sign-in method is on, given its row if there is one. A method
/// the table says nothing of is on: its row comes with a migration, and a
/// missing one means an older instance, not a ban.
pub fn method_enabled(row: Option<&AuthMethodRow>) -> (r: bool)
    ensures
        r == match row {
            Some(m) => m.enabled,
            None => true,
        },
{
    match row {
        Some(m) => m.enabled,
        None => true,
    }
}

/// What unlinking a platform came to.
#[derive(Clone, Copy, Debug, PartialEq, Eq, Structural)]
pub enum UnlinkResult {
    Removed,
    /// The platform the account was made with: it is never unlinked.
    Primary,
    NotLinked,
}

/// What unlinking a platform comes to, given whether the player has it
/// linked and, if so, whether it is the primary one. `Removed` is the one
/// outcome on which the link is deleted: the primary platform is where the
/// player's Minecraft UUID comes from.
pub fn unlink_outcome(linked_primary: Option<bool>) -> (r: UnlinkResult)
    ensures
        r == match linked_primary {
            None => UnlinkResult::NotLinked,
            Some(true) => UnlinkResult::Primary,
            Some(false) => UnlinkResult::Removed,
        },
{
    match linked_primary {
        None => UnlinkResult::NotLinked,
        Some(true) => UnlinkResult::Primary,
        Some(false) => UnlinkResult::Removed,
    }
}

/// A permission granted to a player or a role: everywhere (`server_id` is
/// `None`) or on one build's server only.
#[derive(Clone, Debug)]
pub struct PermissionGrant {
    pub permission: String,
    pub server_id: Option<u128>,
}

/// The permissions of a player or role from its grant rows: the bare names,
/// in order, for the clients that only check names, and the grants with
/// their scope.
pub fn grants_of(rows: &[(String, Option<u128>)]) -> (r: (Vec<String>, Vec<PermissionGrant>))
    ensures
        r.0@.len() == rows@.len(),
        r.1@.len() == rows@.len(),
        forall|i: int| 0 <= i < rows@.len() ==> #[trigger] r.0@[i] == rows@[i].0,
        forall|i: int|
            0 <= i < rows@.len() ==> (#[trigger] r.1@[i]).permission == rows@[i].0 && r.1@[i].server_id
                == rows@[i].1,
{
    let mut names: Vec<String> = Vec::new();
    let mut grants: Vec<PermissionGrant> = Vec::new();
    let n = rows.len();
    for i in 0..n
        invariant
            n == rows@.len(),
            names@.len() == i,
            grants@.len() == i,
            forall|k: int| 0 <= k < i ==> #[trigger] names@[k] == rows@[k].0,
            forall|k: int|
                0 <= k < i ==> (#[trigger] grants@[k]).permission == rows@[k].0 && grants@[k].server_id
                    == rows@[k].1,
    {
        names.push(rows[i].0.clone());
        grants.push(PermissionGrant { permission: rows[i].0.clone(), server_id: rows[i].1 });
    }
    (names, grants)
}

/// Counts shown on the admin dashboard.
#[derive(Clone, Copy, Debug, PartialEq, Eq, Structural)]
pub struct Stats {
    pub users: i64,
    pub servers: i64,
    pub builds: i64,
    pub total_playtime_secs: i64,
}

/// A character allowed in a Minecraft name: ASCII letters, digits, `_`.
pub open spec fn is_name_char(c: char) -> bool {
    ||| 'a' <= c <= 'z'
    ||| 'A' <= c <= 'Z'
    ||| '0' <= c <= '9'
    ||| c == '_'
}

/// The characters of `s` that a Minecraft name may hold, in order.
pub open spec fn name_chars(s: Seq<char>) -> Seq<char>
    decreases s.len(),
{
    if s.len() == 0 {
        Seq::empty()
    } else if is_name_char(s.last()) {
        name_chars(s.drop_last()).push(s.last())
    } else {
        name_chars(s.drop_last())
    }
}

/// At most the first `n` elements of `s`.
pub open spec fn at_most(s: Seq<char>, n: nat) -> Seq<char> {
    if s.len() <= n {
        s
    } else {
        s.take(n as int)
    }
}

/// The name a player's Discord name gives: its allowed characters, at most
/// fourteen of them, or `player` where none is left.
pub open spec fn username_base_spec(discord_username: Seq<char>) -> Seq<char> {
    let b = at_most(name_chars(discord_username), 14);
    if b.len() == 0 {
        "player"@
    } else {
        b
    }
}

/// The decimal digit for `d` below ten.
pub open spec fn digit_char(d: nat) -> char {
    ((48 + d) as u8) as char
}

/// `n` written in decimal, without leading zeros.
pub open spec fn decimal_spec(n: nat) -> Seq<char>
    decreases n,
{
    if n < 10 {
        seq![digit_char(n)]
    } else {
        decimal_spec(n / 10).push(digit_char(n % 10))
    }
}

/// The name tried at a given attempt: the base first, then the base cut so
/// that the attempt number fits after it within sixteen characters.
pub open spec fn username_candidate_spec(base: Seq<char>, attempt: nat) -> Seq<char> {
    if attempt == 0 {
        base
    } else {
        let suffix = decimal_spec(attempt);
        at_most(base, (16 - suffix.len()) as nat) + suffix
    }
}

/// How many names are tried before giving up.
pub const MAX_USERNAME_ATTEMPTS: u32 = 1000;

proof fn lemma_name_chars(s: Seq<char>)
    ensures
        name_chars(s).len() <= s.len(),
        forall|i: int| 0 <= i < name_chars(s).len() ==> is_name_char(#[trigger] name_chars(s)[i]),
    decreases s.len(),
{
    if s.len() > 0 {
        lemma_name_chars(s.drop_last());
    }
}

proof fn lemma_decimal(n: nat, k: nat)
    requires
        k >= 1,
        n < pow10(k),
    ensures
        decimal_spec(n).len() <= k,
        forall|i: int| 0 <= i < decimal_spec(n).len() ==> is_name_char(#[trigger] decimal_spec(n)[i]),
    decreases n,
{
    if n >= 10 {
        assert(k >= 2) by {
            if k == 1 {
                assert(pow10(1) == 10) by {
                    reveal_with_fuel(pow10, 2);
                }
            }
        }
        assert(n / 10 < pow10((k - 1) as nat)) by (nonlinear_arith)
            requires
                n < pow10(k),
                pow10(k) == 10 * pow10((k - 1) as nat),
        ;
        lemma_decimal(n / 10, (k - 1) as nat);
        assert(n % 10 < 10);
    }
}

/// Ten to the power `k`.
pub open spec fn pow10(k: nat) -> nat
    decreases k,
{
    if k == 0 {
        1
    } else {
        10 * pow10((k - 1) as nat)
    }
}

fn is_name_char_exec(c: char) -> (r: bool)
    ensures
        r == is_name_char(c),
{
    ('a' <= c && c <= 'z') || ('A' <= c && c <= 'Z') || ('0' <= c && c <= '9') || c == '_'
}

fn username_base(discord_username: &str) -> (r: Vec<char>)
    ensures
        r@ == username_base_spec(discord_username@),
{
    let s = chars_of(discord_username);
    let mut out: Vec<char> = Vec::new();
    let n = s.len();
    for i in 0..n
        invariant
            n == s@.len(),
            out@ == at_most(name_chars(s@.take(i as int)), 14),
    {
        proof {
            assert(s@.take(i as int + 1).drop_last() =~= s@.take(i as int));
        }
        let c = s[i];
        if is_name_char_exec(c) && out.len() < 14 {
            out.push(c);
        }
        proof {
            let old_names = name_chars(s@.take(i as int));
            let new_names = name_chars(s@.take(i as int + 1));
            if is_name_char(c) {
                assert(new_names == old_names.push(c));
                if old_names.len() >= 14 {
                    assert(new_names.take(14) =~= old_names.take(14));
                }
            }
        }
    }
    assert(s@.take(n as int) =~= s@);
    if out.len() == 0 {
        let p = chars_of("player");
        p
    } else {
        out
    }
}

fn digit_exec(d: u32) -> (r: char)
    requires
        d < 10,
    ensures
        r == digit_char(d as nat),
{
    let b: u8 = 48 + d as u8;
    b as char
}

fn decimal(n: u32) -> (r: Vec<char>)
    ensures
        r@ == decimal_spec(n as nat),
    decreases n,
{
    if n < 10 {
        vec![digit_exec(n)]
    } else {
        let mut v = decimal(n / 10);
        v.push(digit_exec(n % 10));
        v
    }
}

/// The Minecraft name tried for a new player at a given attempt, from their
/// Discord name. Whatever the input, it is at most sixteen characters, each
/// an ASCII letter, digit or `_`.
pub fn username_candidate(discord_username: &str, attempt: u32) -> (r: String)
    ensures
        r@ == username_candidate_spec(username_base_spec(discord_username@), attempt as nat),
        r@.len() <= 16,
        forall|i: int| 0 <= i < r@.len() ==> is_name_char(#[trigger] r@[i]),
{
    let base = username_base(discord_username);
    proof {
        lemma_name_chars(discord_username@);
        reveal_strlit("player");
        let b = at_most(name_chars(discord_username@), 14);
        assert forall|i: int| 0 <= i < b.len() implies is_name_char(#[trigger] b[i]) by {
            assert(b[i] == name_chars(discord_username@)[i]);
        }
    }
    if attempt == 0 {
        return string_from_chars(base.as_slice());
    }
    let suffix = decimal(attempt);
    proof {
        assert(pow10(10) == 10_000_000_000) by {
            reveal_with_fuel(pow10, 11);
        }
        lemma_decimal(attempt as nat, 10);
    }
    let room: usize = 16 - suffix.len();
    let keep: usize = if base.len() <= room {
        base.len()
    } else {
        room
    };
    let mut out: Vec<char> = Vec::new();
    let mut i: usize = 0;
    while i < keep
        invariant
            keep <= base@.len(),
            i <= keep,
            out@ == base@.take(i as int),
        decreases keep - i,
    {
        out.push(base[i]);
        i = i + 1;
        assert(out@ =~= base@.take(i as int));
    }
    let ghost cut = out@;
    assert(cut =~= at_most(base@, (16 - suffix@.len()) as nat));
    let mut j: usize = 0;
    while j < suffix.len()
        invariant
            j <= suffix@.len(),
            out@ == cut + suffix@.take(j as int),
        decreases suffix.len() - j,
    {
        out.push(suffix[j]);
        j = j + 1;
        assert(out@ =~= cut + suffix@.take(j as int));
    }
    assert(suffix@.take(suffix@.len() as int) =~= suffix@);
    proof {
        assert forall|k: int| 0 <= k < out@.len() implies is_name_char(#[trigger] out@[k]) by {
            if k < cut.len() {
                assert(out@[k] == base@[k]);
            } else {
                assert(out@[k] == suffix@[k - cut.len()]);
            }
        }
    }
    string_from_chars(out.as_slice())
}

/// The name a new player gets, given for each attempt whether its candidate
/// is taken (an attempt without an answer counts as taken): the first free
/// candidate among the first `MAX_USERNAME_ATTEMPTS`, searched from attempt
/// `k` on; `None` when every one of them is taken.
pub open spec fn username_search(name: Seq<char>, taken: Seq<bool>, k: nat) -> Option<Seq<char>>
    decreases MAX_USERNAME_ATTEMPTS - k,
{
    if k >= MAX_USERNAME_ATTEMPTS {
        None
    } else if k < taken.len() && !taken[k as int] {
        Some(username_candidate_spec(username_base_spec(name), k))
    } else {
        username_search(name, taken, k + 1)
    }
}

/// The answer for attempt `j` is there and says "taken".
pub open spec fn is_taken(taken: Seq<bool>, j: int) -> bool {
    0 <= j < taken.len() && taken[j]
}

proof fn lemma_search_skips_taken(name: Seq<char>, taken: Seq<bool>, s: nat, k: nat)
    requires
        s <= k,
        forall|j: int| s <= j < k ==> #[trigger] is_taken(taken, j),
    ensures
        k <= MAX_USERNAME_ATTEMPTS ==> username_search(name, taken, s) == username_search(name, taken, k),
    decreases k - s,
{
    if s < k {
        assert(is_taken(taken, s as int));
        lemma_search_skips_taken(name, taken, s + 1, k);
    }
}

/// The search ends on the first free candidate, or fails once all
/// `MAX_USERNAME_ATTEMPTS` candidates are taken.
pub proof fn lemma_search_is_first_free(name: Seq<char>, taken: Seq<bool>, k: nat)
    requires
        forall|j: int| 0 <= j < k ==> #[trigger] is_taken(taken, j),
    ensures
        k < MAX_USERNAME_ATTEMPTS && k < taken.len() && !taken[k as int] ==> username_search(name, taken, 0)
            == Some(username_candidate_spec(username_base_spec(name), k)),
        k == MAX_USERNAME_ATTEMPTS ==> username_search(name, taken, 0) is None,
{
    if k <= MAX_USERNAME_ATTEMPTS {
        lemma_search_skips_taken(name, taken, 0, k);
    }
}

/// What the search for a free name does next.
#[derive(Clone, Debug)]
pub enum UsernameStep {
    /// Ask whether this candidate is taken, then take the next step.
    Check(String),
    /// The candidate is free: use it.
    Use(String),
    /// All `MAX_USERNAME_ATTEMPTS` candidates are taken.
    Exhausted,
}

/// One step of the search for a free Minecraft name, once it is known
/// whether the candidate of `attempt` is taken: use it when free, else ask
/// about the next one, or give up after the last attempt. The search starts
/// by asking about `username_candidate(discord_username, 0)`.
pub fn username_step(discord_username: &str, attempt: u32, taken: bool) -> (r: UsernameStep)
    requires
        attempt < MAX_USERNAME_ATTEMPTS,
    ensures
        !taken ==> (r matches UsernameStep::Use(c) && c@ == username_candidate_spec(
            username_base_spec(discord_username@),
            attempt as nat,
        )),
        taken && attempt + 1 < MAX_USERNAME_ATTEMPTS ==> (r matches UsernameStep::Check(c) && c@
            == username_candidate_spec(username_base_spec(discord_username@), (attempt + 1) as nat)),
        taken && attempt + 1 == MAX_USERNAME_ATTEMPTS ==> r is Exhausted,
{
    if !taken {
        UsernameStep::Use(username_candidate(discord_username, attempt))
    } else if attempt + 1 < MAX_USERNAME_ATTEMPTS {
        UsernameStep::Check(username_candidate(discord_username, attempt + 1))
    } else {
        UsernameStep::Exhausted
    }
}

/// Following the steps is the search: a step on the answer for `attempt`
/// ends it as `username_search` from `attempt` does, or hands it on to the
/// next attempt.
pub proof fn lemma_step_follows_search(name: Seq<char>, taken: Seq<bool>, attempt: nat)
    requires
        attempt < MAX_USERNAME_ATTEMPTS,
        attempt < taken.len(),
    ensures
        !taken[attempt as int] ==> username_search(name, taken, attempt) == Some(
            username_candidate_spec(username_base_spec(name), attempt),
        ),
        taken[attempt as int] ==> username_search(name, taken, attempt) == username_search(
            name,
            taken,
            attempt + 1,
        ),
        attempt + 1 == MAX_USERNAME_ATTEMPTS ==> username_search(name, taken, attempt + 1) is None,
{
}

/// The value kept where a blank one was given: `None` for a missing or
/// whitespace-only string.
pub fn non_blank<'a>(o: Option<&'a str>) -> (r: Option<&'a str>)
    ensures
        r == match o {
            Some(s) => if trim_spec(s@).len() == 0 {
                None
            } else {
                Some(s)
            },
            None => None,
        },
{
    match o {
        Some(s) => {
            let cs = chars_of(s);
            let t = trim(cs.as_slice());
            if t.len() == 0 {
                None
            } else {
                Some(s)
            }
        },
        None => None,
    }
}

/// The minutes a finished game session adds to the player's day: whole
/// minutes since it started, at least one, as an `i32`.
pub fn session_minutes(now: UtcTime, started_at: UtcTime) -> (r: i32)
    requires
        now.valid(),
        started_at.valid(),
    ensures
        r == (if minutes_between(now, started_at) >= 1 {
            minutes_between(now, started_at)
        } else {
            1
        }) as i32,
{
    let m = minutes_since(now, started_at);
    let m = if m >= 1 {
        m
    } else {
        1
    };
    m as i32
}

/// How many recovery codes are issued at once: enough for a few sign-ins
/// before the domain is set up, few enough that they are kept with care.
pub const RECOVERY_CODE_COUNT: usize = 10;

/// The characters of a recovery code: no look-alikes, since 0/O and 1/l/I
/// get copied wrong from paper.
pub open spec fn code_alphabet() -> Seq<char> {
    "ABCDEFGHJKMNPQRSTUVWXYZ23456789"@
}

/// `xxxx-xxxx-xxxx` over the code alphabet: read out loud and copied from
/// paper.
pub open spec fn is_recovery_code(s: Seq<char>) -> bool {
    &&& s.len() == 14
    &&& s[4] == '-'
    &&& s[9] == '-'
    &&& forall|i: int| 0 <= i < 14 && i != 4 && i != 9 ==> code_alphabet().contains(#[trigger] s[i])
}

/// A number below `n` from `rand::thread_rng().gen_range(0..n)`.
///
/// The contract claims only that it lies in `0..n`, which `gen_range`
/// promises for a non-empty range; which number comes back is chance.
#[verifier::external_body]
fn random_below(n: usize) -> (r: usize)
    requires
        n > 0,
    ensures
        r < n,
{
    rand::thread_rng().gen_range(0..n)
}

/// The code spelled by twelve letters of the code alphabet, given by their
/// indices: four of them, a dash, four, a dash, four.
pub open spec fn code_of_draws(draws: Seq<usize>) -> Seq<char> {
    Seq::new(
        14,
        |i: int|
            if i == 4 || i == 9 {
                '-'
            } else {
                code_alphabet()[draws[i - i / 5] as int]
            },
    )
}

/// Twelve indices into the code alphabet.
pub open spec fn valid_draws(draws: Seq<usize>) -> bool {
    &&& draws.len() == 12
    &&& forall|j: int| 0 <= j < 12 ==> #[trigger] draws[j] < code_alphabet().len()
}

/// Every code spelled from valid draws has the shape of a recovery code.
pub proof fn lemma_drawn_code_is_recovery_code(draws: Seq<usize>)
    requires
        valid_draws(draws),
    ensures
        is_recovery_code(code_of_draws(draws)),
{
    reveal_strlit("ABCDEFGHJKMNPQRSTUVWXYZ23456789");
    let s = code_of_draws(draws);
    assert forall|i: int| 0 <= i < 14 && i != 4 && i != 9 implies code_alphabet().contains(
        #[trigger] s[i],
    ) by {
        let j = i - i / 5;
        assert(0 <= j < 12);
        assert(draws[j] < code_alphabet().len());
        assert(s[i] == code_alphabet()[draws[j] as int]);
    }
}

/// The recovery code spelled by twelve drawn indices into the code
/// alphabet, in order, with dashes after the fourth and the eighth.
pub fn code_from_draws(draws: &[usize]) -> (r: String)
    requires
        valid_draws(draws@),
    ensures
        r@ == code_of_draws(draws@),
        is_recovery_code(r@),
{
    let alphabet = chars_of("ABCDEFGHJKMNPQRSTUVWXYZ23456789");
    proof {
        reveal_strlit("ABCDEFGHJKMNPQRSTUVWXYZ23456789");
        lemma_drawn_code_is_recovery_code(draws@);
    }
    let mut out: Vec<char> = Vec::new();
    for i in 0..14usize
        invariant
            alphabet@ == code_alphabet(),
            alphabet@.len() == 31,
            valid_draws(draws@),
            out@.len() == i,
            forall|j: int| 0 <= j < i ==> #[trigger] out@[j] == code_of_draws(draws@)[j],
    {
        if i == 4 || i == 9 {
            out.push('-');
        } else {
            let k = draws[i - i / 5];
            out.push(alphabet[k]);
        }
    }
    assert(out@ =~= code_of_draws(draws@));
    string_from_chars(out.as_slice())
}

/// A fresh recovery code: twelve indices drawn at random below the size of
/// the code alphabet, spelled by `code_from_draws`. Which letters come out
/// is chance; that they are some valid draws' code is stated.
pub fn generate_code() -> (r: String)
    ensures
        is_recovery_code(r@),
        exists|draws: Seq<usize>| valid_draws(draws) && r@ == code_of_draws(draws),
{
    proof {
        reveal_strlit("ABCDEFGHJKMNPQRSTUVWXYZ23456789");
    }
    let mut draws: Vec<usize> = Vec::new();
    for j in 0..12usize
        invariant
            code_alphabet().len() == 31,
            draws@.len() == j,
            forall|k: int| 0 <= k < j ==> #[trigger] draws@[k] < 31,
    {
        draws.push(random_below(31));
    }
    let r = code_from_draws(draws.as_slice());
    assert(valid_draws(draws@));
    r
}

} // verus!
