//! Parent links of a hierarchy (roles inherit from roles, rule categories
//! nest in categories), and the guard that keeps it free of cycles: a role
//! may not inherit from its own descendant, nor a category become its own
//! descendant, or no tree could be drawn and no inheritance resolved.
//!
//! A hierarchy is the list of `(id, parent)` links, at most one per id.
//! Identifiers are the 128-bit values of the rows' UUIDs.

use vstd::prelude::*;

verus! {

/// The parent of `x`: that of the first link of `x`, `None` when there is
/// none or the link has no parent.
pub open spec fn parent(links: Seq<(u128, Option<u128>)>, x: u128) -> Option<u128>
    decreases links.len(),
{
    if links.len() == 0 {
        None
    } else if links[0].0 == x {
        links[0].1
    } else {
        parent(links.drop_first(), x)
    }
}

/// `x` has a link.
pub open spec fn linked(links: Seq<(u128, Option<u128>)>, x: u128) -> bool {
    exists|i: int| 0 <= i < links.len() && (#[trigger] links[i]).0 == x
}

/// The node `k` parent steps above `x` (`x` itself for `k == 0`), if the
/// chain is that long.
pub open spec fn ancestor(links: Seq<(u128, Option<u128>)>, x: u128, k: nat) -> Option<u128>
    decreases k,
{
    if k == 0 {
        Some(x)
    } else {
        match ancestor(links, x, (k - 1) as nat) {
            Some(y) => parent(links, y),
            None => None,
        }
    }
}

/// No node is its own proper ancestor.
pub open spec fn acyclic(links: Seq<(u128, Option<u128>)>) -> bool {
    forall|x: u128, k: nat| k >= 1 ==> #[trigger] ancestor(links, x, k) != Some(x)
}

/// The links after `id` is given the parent `p`.
pub open spec fn reparented(links: Seq<(u128, Option<u128>)>, id: u128, p: Option<u128>) -> Seq<(u128, Option<u128>)> {
    links.map_values(|e: (u128, Option<u128>)| if e.0 == id { (id, p) } else { e })
}

/// Whether making `new_parent` the parent of `id` is refused: `id` is
/// `new_parent` or one of its ancestors within as many steps as there are
/// links, or the chain above `new_parent` is longer than that, which only a
/// cycle already in the links makes it.
pub open spec fn would_cycle_spec(links: Seq<(u128, Option<u128>)>, id: u128, new_parent: u128) -> bool {
    ||| exists|k: nat| k <= links.len() && #[trigger] ancestor(links, new_parent, k) == Some(id)
    ||| ancestor(links, new_parent, (links.len() + 1) as nat) is Some
}

fn parent_exec(links: &[(u128, Option<u128>)], x: u128) -> (r: Option<u128>)
    ensures
        r == parent(links@, x),
{
    let n = links.len();
    let mut i: usize = 0;
    assert(links@.subrange(0, n as int) =~= links@);
    while i < n
        invariant
            n == links@.len(),
            i <= n,
            parent(links@, x) == parent(links@.subrange(i as int, n as int), x),
        decreases n - i,
    {
        assert(links@.subrange(i as int, n as int).drop_first() =~= links@.subrange(i + 1, n as int));
        if links[i].0 == x {
            return links[i].1;
        }
        i = i + 1;
    }
    None
}

proof fn lemma_none_stays_none(links: Seq<(u128, Option<u128>)>, x: u128, a: nat, b: nat)
    requires
        a <= b,
        ancestor(links, x, a) is None,
    ensures
        ancestor(links, x, b) is None,
    decreases b - a,
{
    if a < b {
        lemma_none_stays_none(links, x, a, (b - 1) as nat);
    }
}

/// Whether making `new_parent` the parent of `id` would close a cycle.
pub fn would_cycle(links: &[(u128, Option<u128>)], id: u128, new_parent: u128) -> (r: bool)
    ensures
        r == would_cycle_spec(links@, id, new_parent),
{
    let n = links.len();
    let limit: u128 = n as u128 + 1;
    let mut cur = new_parent;
    let mut s: u128 = 0;
    while s < limit
        invariant
            n == links@.len(),
            limit == n + 1,
            s <= limit,
            ancestor(links@, new_parent, s as nat) == Some(cur),
            forall|k: nat| k < s ==> #[trigger] ancestor(links@, new_parent, k) != Some(id),
        decreases limit - s,
    {
        if cur == id {
            assert(ancestor(links@, new_parent, s as nat) == Some(id));
            return true;
        }
        match parent_exec(links, cur) {
            None => {
                proof {
                    assert(ancestor(links@, new_parent, (s + 1) as nat) is None);
                    assert forall|k: nat| k <= links@.len() implies #[trigger] ancestor(
                        links@,
                        new_parent,
                        k,
                    ) != Some(id) by {
                        if k > s {
                            lemma_none_stays_none(links@, new_parent, (s + 1) as nat, k);
                        }
                    }
                    lemma_none_stays_none(links@, new_parent, (s + 1) as nat, (n + 1) as nat);
                }
                return false;
            },
            Some(q) => {
                cur = q;
            },
        }
        s = s + 1;
    }
    true
}

proof fn lemma_ancestor_compose(links: Seq<(u128, Option<u128>)>, x: u128, a: nat, b: nat)
    ensures
        ancestor(links, x, a + b) == match ancestor(links, x, a) {
            Some(y) => ancestor(links, y, b),
            None => None,
        },
    decreases b,
{
    if b > 0 {
        lemma_ancestor_compose(links, x, a, (b - 1) as nat);
        assert((a + b - 1) as nat == a + (b - 1) as nat);
        if ancestor(links, x, a) is None {
            lemma_none_stays_none(links, x, a, (a + b - 1) as nat);
        }
    }
}

proof fn lemma_parent_reparented(links: Seq<(u128, Option<u128>)>, id: u128, p: Option<u128>, x: u128)
    ensures
        parent(reparented(links, id, p), x) == (if x == id && linked(links, id) {
            p
        } else if x == id {
            None
        } else {
            parent(links, x)
        }),
    decreases links.len(),
{
    let r = reparented(links, id, p);
    if links.len() > 0 {
        let rest = links.drop_first();
        assert(r.drop_first() =~= reparented(rest, id, p));
        lemma_parent_reparented(rest, id, p, x);
        // `id` is linked in `links` exactly when it heads them or is linked
        // in the rest.
        if linked(rest, id) {
            let i = choose|i: int| 0 <= i < rest.len() && (#[trigger] rest[i]).0 == id;
            assert(links[i + 1] == rest[i]);
        }
        if links[0].0 != id && linked(links, id) {
            let i = choose|i: int| 0 <= i < links.len() && (#[trigger] links[i]).0 == id;
            assert(rest[i - 1] == links[i]);
        }
        if links[0].0 == id {
            assert(linked(links, id));
        }
    }
}

/// While a chain has not met `id`, the new links lead it exactly as the old
/// ones did.
proof fn lemma_same_until_id(links: Seq<(u128, Option<u128>)>, id: u128, p: Option<u128>, x: u128, k: nat)
    requires
        forall|i: nat| i < k ==> #[trigger] ancestor(reparented(links, id, p), x, i) != Some(id),
    ensures
        ancestor(reparented(links, id, p), x, k) == ancestor(links, x, k),
    decreases k,
{
    if k > 0 {
        lemma_same_until_id(links, id, p, x, (k - 1) as nat);
        let prev = ancestor(links, x, (k - 1) as nat);
        if let Some(y) = prev {
            assert(ancestor(reparented(links, id, p), x, (k - 1) as nat) != Some(id));
            lemma_parent_reparented(links, id, p, y);
        }
    }
}

/// Above the new parent, the new links lead a chain as the old ones did,
/// as long as the old chain never meets `id`.
proof fn lemma_chain_above_unchanged(links: Seq<(u128, Option<u128>)>, id: u128, p: Option<u128>, x: u128, m: nat)
    requires
        forall|j: nat| #[trigger] ancestor(links, x, j) != Some(id),
    ensures
        ancestor(reparented(links, id, p), x, m) == ancestor(links, x, m),
    decreases m,
{
    if m > 0 {
        lemma_chain_above_unchanged(links, id, p, x, (m - 1) as nat);
        if let Some(y) = ancestor(links, x, (m - 1) as nat) {
            assert(ancestor(links, x, (m - 1) as nat) != Some(id));
            lemma_parent_reparented(links, id, p, y);
        }
    }
}

proof fn lemma_in_links_or_stuck(links: Seq<(u128, Option<u128>)>, id: u128, p: Option<u128>, x: u128, i: nat, k: nat)
    requires
        i < k,
        ancestor(reparented(links, id, p), x, i) == Some(id),
        ancestor(reparented(links, id, p), x, k) is Some,
    ensures
        linked(links, id),
{
    let r = reparented(links, id, p);
    if !linked(links, id) {
        lemma_parent_reparented(links, id, p, id);
        assert(ancestor(r, x, i + 1) is None);
        lemma_none_stays_none(r, x, i + 1, k);
    }
}

/// Giving a node a new parent that the guard admits keeps a hierarchy free
/// of cycles.
pub proof fn lemma_guarded_reparent_keeps_acyclic(links: Seq<(u128, Option<u128>)>, id: u128, new_parent: u128)
    requires
        acyclic(links),
        !would_cycle_spec(links, id, new_parent),
    ensures
        acyclic(reparented(links, id, Some(new_parent))),
{
    let p = Some(new_parent);
    let r = reparented(links, id, p);
    // The old chain above the new parent never meets `id`.
    assert forall|m: nat| #[trigger] ancestor(links, new_parent, m) != Some(id) by {
        if m > links.len() {
            lemma_none_stays_none(links, new_parent, (links.len() + 1) as nat, m);
        }
    }
    assert forall|x: u128, k: nat| k >= 1 implies #[trigger] ancestor(r, x, k) != Some(x) by {
        if ancestor(r, x, k) == Some(x) {
            if forall|i: nat| i < k ==> #[trigger] ancestor(r, x, i) != Some(id) {
                lemma_same_until_id(links, id, p, x, k);
                assert(ancestor(links, x, k) == Some(x));
            } else {
                let i = choose|i: nat| i < k && #[trigger] ancestor(r, x, i) == Some(id);
                lemma_in_links_or_stuck(links, id, p, x, i, k);
                lemma_parent_reparented(links, id, p, id);
                // From `id` the new chain steps to the new parent and then
                // follows the old chain above it, which never meets `id`.
                assert(ancestor(r, id, 0) == Some(id));
                assert(parent(r, id) == Some(new_parent));
                assert(ancestor(r, id, 1) == Some(new_parent));
                lemma_ancestor_compose(r, id, 1, (k - 1) as nat);
                lemma_chain_above_unchanged(links, id, p, new_parent, (k - 1) as nat);
                assert(ancestor(r, id, k) != Some(id));
                // Yet going round the cycle from `x` leads back to `id`.
                lemma_ancestor_compose(r, x, i, k);
                lemma_ancestor_compose(r, x, k, i);
                assert(i + k == k + i);
            }
        }
    }
}

} // verus!
