//! The rulebook: categories, rules, the sanctions each rule allows, and
//! translations laid over the rulebook's own wording.
//!
//! Identifiers are the 128-bit values of the rows' UUIDs.

use crate::text::{chars_eq, chars_of, string_from_chars, trim, trim_spec};
use crate::time::UtcTime;
use vstd::prelude::*;

verus! {

#[derive(Clone, Debug)]
pub struct RuleCategoryRow {
    pub id: u128,
    pub parent_id: Option<u128>,
    pub server_id: Option<u128>,
    pub code: String,
    pub name: String,
    pub description: String,
    pub sort_order: i32,
    pub created_at: UtcTime,
    pub updated_at: UtcTime,
}

#[derive(Clone, Debug)]
pub struct RuleRow {
    pub id: u128,
    pub category_id: Option<u128>,
    pub server_id: Option<u128>,
    pub code: String,
    pub title: String,
    pub description: String,
    /// The wording used when punishing under this rule; empty means the
    /// punishment text is built from a template.
    pub punish_reason: String,
    pub sort_order: i32,
    pub created_at: UtcTime,
    pub updated_at: UtcTime,
}

/// One sanction a rule allows: a kind and the range of terms, in minutes.
#[derive(Clone, Debug)]
pub struct RuleSanctionRow {
    pub id: u128,
    pub rule_id: u128,
    /// `warn`, `mute`, `ban` or `server_ban`.
    pub kind: String,
    pub label: String,
    /// `None`: no lower bound.
    pub min_minutes: Option<i64>,
    /// `None`: anything up to "forever".
    pub max_minutes: Option<i64>,
    pub sort_order: i32,
}

/// A sanction as the rule editor sends it.
#[derive(Clone, Debug)]
pub struct SanctionInput {
    pub kind: String,
    pub label: String,
    pub min_minutes: Option<i64>,
    pub max_minutes: Option<i64>,
}

/// The kind of sanction that carries no term.
pub open spec fn is_warn(kind: Seq<char>) -> bool {
    kind == seq!['w', 'a', 'r', 'n']
}

fn is_warn_exec(kind: &String) -> (r: bool)
    ensures
        r == is_warn(kind@),
{
    let k = chars_of(kind.as_str());
    let w = vec!['w', 'a', 'r', 'n'];
    assert(w@ =~= seq!['w', 'a', 'r', 'n']);
    chars_eq(k.as_slice(), w.as_slice())
}

/// Whether a term (`None`: forever) is within what the sanction allows. A
/// warning has no term and admits any. Forever needs an open upper bound;
/// a finite term must lie within both bounds that are set.
pub open spec fn allows_spec(s: RuleSanctionRow, minutes: Option<i64>) -> bool {
    if is_warn(s.kind@) {
        true
    } else {
        match minutes {
            None => s.max_minutes is None,
            Some(v) => (s.min_minutes matches Some(min) ==> v >= min) && (s.max_minutes matches Some(
                max,
            ) ==> v <= max),
        }
    }
}

impl RuleSanctionRow {
    /// Whether a term is within what this sanction allows.
    pub fn allows(&self, minutes: Option<i64>) -> (r: bool)
        ensures
            r == allows_spec(*self, minutes),
    {
        if is_warn_exec(&self.kind) {
            return true;
        }
        match minutes {
            None => self.max_minutes.is_none(),
            Some(value) => {
                let above_min = match self.min_minutes {
                    Some(min) => value >= min,
                    None => true,
                };
                let below_max = match self.max_minutes {
                    Some(max) => value <= max,
                    None => true,
                };
                above_min && below_max
            },
        }
    }
}

/// A warning carries no term and admits any.
pub proof fn lemma_warning_admits_any_term(s: RuleSanctionRow, minutes: Option<i64>)
    requires
        is_warn(s.kind@),
    ensures
        allows_spec(s, minutes),
{
}

/// With no upper bound, every finite term at or above the lower bound (any
/// term, where there is none) is allowed, and so is forever.
pub proof fn lemma_open_upper_bound_admits(s: RuleSanctionRow, v: i64)
    requires
        s.max_minutes is None,
        s.min_minutes matches Some(min) ==> v >= min,
    ensures
        allows_spec(s, Some(v)),
        allows_spec(s, None),
{
}

/// Outside a warning, a term below the lower bound or above the upper one
/// is refused.
pub proof fn lemma_out_of_bounds_refused(s: RuleSanctionRow, v: i64)
    requires
        !is_warn(s.kind@),
        (s.min_minutes matches Some(min) && v < min) || (s.max_minutes matches Some(max) && v > max),
    ensures
        !allows_spec(s, Some(v)),
{
}

/// Outside a warning, forever is allowed exactly when no upper bound is
/// set.
pub proof fn lemma_forever_needs_open_bound(s: RuleSanctionRow)
    requires
        !is_warn(s.kind@),
    ensures
        allows_spec(s, None) <==> s.max_minutes is None,
{
}

/// The allowed terms form a range: a term between two allowed ones is
/// allowed, and where forever is allowed, so is every term longer than an
/// allowed one.
pub proof fn lemma_allowed_terms_are_a_range(s: RuleSanctionRow, a: i64, b: i64, v: i64)
    ensures
        allows_spec(s, Some(a)) && allows_spec(s, Some(b)) && a <= v <= b ==> allows_spec(s, Some(v)),
        allows_spec(s, None) && allows_spec(s, Some(a)) && a <= v ==> allows_spec(s, Some(v)),
{
}

/// A sanction row to insert for a rule.
#[derive(Clone, Debug)]
pub struct SanctionRecord {
    pub kind: String,
    pub label: String,
    pub min_minutes: Option<i64>,
    pub max_minutes: Option<i64>,
    pub sort_order: i32,
}

/// How a sanction from the editor is stored at position `index`: the label
/// trimmed, no bounds for a warning, and the position as its order.
pub open spec fn sanction_record_spec(item: SanctionInput, index: int) -> (Seq<char>, Seq<char>, Option<i64>, Option<i64>, i32) {
    (
        item.kind@,
        trim_spec(item.label@),
        if is_warn(item.kind@) {
            None
        } else {
            item.min_minutes
        },
        if is_warn(item.kind@) {
            None
        } else {
            item.max_minutes
        },
        index as i32,
    )
}

/// The rows that replace a rule's sanctions, one per item, in order.
pub fn sanction_records(items: &[SanctionInput]) -> (r: Vec<SanctionRecord>)
    ensures
        r@.len() == items@.len(),
        forall|k: int| 0 <= k < r@.len() ==> {
            let x = #[trigger] r@[k];
            (x.kind@, x.label@, x.min_minutes, x.max_minutes, x.sort_order)
                == sanction_record_spec(items@[k], k)
        },
{
    let mut out: Vec<SanctionRecord> = Vec::new();
    let mut i: usize = 0;
    while i < items.len()
        invariant
            i <= items@.len(),
            out@.len() == i,
            forall|k: int| 0 <= k < i ==> {
                let x = #[trigger] out@[k];
                (x.kind@, x.label@, x.min_minutes, x.max_minutes, x.sort_order)
                    == sanction_record_spec(items@[k], k)
            },
        decreases items.len() - i,
    {
        let item = &items[i];
        let warn = is_warn_exec(&item.kind);
        let label = trim(chars_of(item.label.as_str()).as_slice());
        out.push(
            SanctionRecord {
                kind: item.kind.clone(),
                label: string_from_chars(label.as_slice()),
                min_minutes: if warn {
                    None
                } else {
                    item.min_minutes
                },
                max_minutes: if warn {
                    None
                } else {
                    item.max_minutes
                },
                sort_order: i as i32,
            },
        );
        i = i + 1;
    }
    out
}

// ---------------------------------------------------------------------------
// Translations
// ---------------------------------------------------------------------------

#[derive(Clone, Debug)]
pub struct RuleTranslationRow {
    pub rule_id: u128,
    pub locale: String,
    pub title: String,
    pub description: String,
    pub punish_reason: String,
}

#[derive(Clone, Debug)]
pub struct CategoryTranslationRow {
    pub category_id: u128,
    pub locale: String,
    pub name: String,
    pub description: String,
}

#[derive(Clone, Debug)]
pub struct SanctionTranslationRow {
    pub sanction_id: u128,
    pub locale: String,
    pub label: String,
}

/// One language of one rule, as the editor sends it.
#[derive(Clone, Debug)]
pub struct TranslationInput {
    pub locale: String,
    pub title: String,
    pub description: String,
    /// The punishment wording in this language; a player reads it when banned.
    pub punish_reason: String,
}

/// A translation to store: every field trimmed.
#[derive(Clone, Debug)]
pub struct TranslationRecord {
    pub locale: String,
    pub title: String,
    pub description: String,
    pub punish_reason: String,
}

/// The translations worth storing, trimmed and in order: an item with a
/// blank title means "no translation" and is dropped, or it would hide the
/// rulebook's text behind an empty one.
pub open spec fn translation_records_spec(items: Seq<TranslationInput>) -> Seq<(Seq<char>, Seq<char>, Seq<char>, Seq<char>)>
    decreases items.len(),
{
    if items.len() == 0 {
        Seq::empty()
    } else {
        let rest = translation_records_spec(items.drop_last());
        let it = items.last();
        if trim_spec(it.title@).len() == 0 {
            rest
        } else {
            rest.push(
                (
                    trim_spec(it.locale@),
                    trim_spec(it.title@),
                    trim_spec(it.description@),
                    trim_spec(it.punish_reason@),
                ),
            )
        }
    }
}

/// The view of a stored translation.
pub open spec fn record_view(r: TranslationRecord) -> (Seq<char>, Seq<char>, Seq<char>, Seq<char>) {
    (r.locale@, r.title@, r.description@, r.punish_reason@)
}

/// The translations that replace a rule's (or, using title as name and
/// ignoring the punishment wording, a category's) set.
pub fn translation_records(items: &[TranslationInput]) -> (r: Vec<TranslationRecord>)
    ensures
        r@.len() == translation_records_spec(items@).len(),
        forall|k: int| 0 <= k < r@.len() ==> record_view(#[trigger] r@[k]) == translation_records_spec(items@)[k],
{
    let mut out: Vec<TranslationRecord> = Vec::new();
    let mut i: usize = 0;
    while i < items.len()
        invariant
            i <= items@.len(),
            out@.len() == translation_records_spec(items@.take(i as int)).len(),
            forall|k: int| 0 <= k < out@.len() ==> record_view(#[trigger] out@[k]) == translation_records_spec(items@.take(i as int))[k],
        decreases items.len() - i,
    {
        proof {
            assert(items@.take(i + 1).drop_last() =~= items@.take(i as int));
        }
        let item = &items[i];
        let title = trim(chars_of(item.title.as_str()).as_slice());
        if title.len() > 0 {
            let locale = trim(chars_of(item.locale.as_str()).as_slice());
            let description = trim(chars_of(item.description.as_str()).as_slice());
            let reason = trim(chars_of(item.punish_reason.as_str()).as_slice());
            out.push(
                TranslationRecord {
                    locale: string_from_chars(locale.as_slice()),
                    title: string_from_chars(title.as_slice()),
                    description: string_from_chars(description.as_slice()),
                    punish_reason: string_from_chars(reason.as_slice()),
                },
            );
        }
        i = i + 1;
    }
    assert(items@.take(items@.len() as int) =~= items@);
    out
}

/// The first translation of category `id`.
pub open spec fn find_category_tr(trs: Seq<CategoryTranslationRow>, id: u128) -> Option<CategoryTranslationRow>
    decreases trs.len(),
{
    if trs.len() == 0 {
        None
    } else if trs[0].category_id == id {
        Some(trs[0])
    } else {
        find_category_tr(trs.drop_first(), id)
    }
}

/// The first translation of rule `id`.
pub open spec fn find_rule_tr(trs: Seq<RuleTranslationRow>, id: u128) -> Option<RuleTranslationRow>
    decreases trs.len(),
{
    if trs.len() == 0 {
        None
    } else if trs[0].rule_id == id {
        Some(trs[0])
    } else {
        find_rule_tr(trs.drop_first(), id)
    }
}

/// The first translation of sanction `id`.
pub open spec fn find_sanction_tr(trs: Seq<SanctionTranslationRow>, id: u128) -> Option<SanctionTranslationRow>
    decreases trs.len(),
{
    if trs.len() == 0 {
        None
    } else if trs[0].sanction_id == id {
        Some(trs[0])
    } else {
        find_sanction_tr(trs.drop_first(), id)
    }
}

/// A category with its translation laid over it: the name is replaced, the
/// description only by a non-empty one.
pub open spec fn localized_category(c: RuleCategoryRow, tr: Option<CategoryTranslationRow>) -> RuleCategoryRow {
    match tr {
        None => c,
        Some(t) => RuleCategoryRow {
            name: t.name,
            description: if t.description@.len() > 0 {
                t.description
            } else {
                c.description
            },
            ..c
        },
    }
}

/// A rule with its translation laid over it: the title is replaced; the
/// text and the punishment wording only by non-empty ones.
pub open spec fn localized_rule(r: RuleRow, tr: Option<RuleTranslationRow>) -> RuleRow {
    match tr {
        None => r,
        Some(t) => RuleRow {
            title: t.title,
            description: if t.description@.len() > 0 {
                t.description
            } else {
                r.description
            },
            punish_reason: if t.punish_reason@.len() > 0 {
                t.punish_reason
            } else {
                r.punish_reason
            },
            ..r
        },
    }
}

/// A sanction with its translated label.
pub open spec fn localized_sanction(s: RuleSanctionRow, tr: Option<SanctionTranslationRow>) -> RuleSanctionRow {
    match tr {
        None => s,
        Some(t) => RuleSanctionRow { label: t.label, ..s },
    }
}

/// A translation never takes text away: with none the row stays as it was,
/// and a rule's text or punishment wording, or a category's description,
/// ends up empty only where the untranslated one was empty. The identity of the
/// row (id, code, order) never changes.
pub proof fn lemma_translation_keeps_text(
    c: RuleCategoryRow,
    ct: Option<CategoryTranslationRow>,
    r: RuleRow,
    rt: Option<RuleTranslationRow>,
)
    ensures
        ct is None ==> localized_category(c, ct) == c,
        rt is None ==> localized_rule(r, rt) == r,
        localized_category(c, ct).description@.len() == 0 ==> c.description@.len() == 0,
        localized_rule(r, rt).description@.len() == 0 ==> r.description@.len() == 0,
        localized_rule(r, rt).punish_reason@.len() == 0 ==> r.punish_reason@.len() == 0,
        localized_category(c, ct).id == c.id && localized_category(c, ct).code == c.code,
        localized_rule(r, rt).id == r.id && localized_rule(r, rt).code == r.code
            && localized_rule(r, rt).sort_order == r.sort_order,
{
}

fn find_category_exec(trs: &[CategoryTranslationRow], id: u128) -> (r: Option<usize>)
    ensures
        match r {
            Some(j) => j < trs@.len() && find_category_tr(trs@, id) == Some(trs@[j as int]),
            None => find_category_tr(trs@, id) is None,
        },
{
    let mut j: usize = 0;
    assert(trs@.subrange(0, trs@.len() as int) =~= trs@);
    while j < trs.len()
        invariant
            j <= trs@.len(),
            find_category_tr(trs@, id) == find_category_tr(trs@.subrange(j as int, trs@.len() as int), id),
        decreases trs.len() - j,
    {
        assert(trs@.subrange(j as int, trs@.len() as int).drop_first() =~= trs@.subrange(j + 1, trs@.len() as int));
        if trs[j].category_id == id {
            return Some(j);
        }
        j = j + 1;
    }
    None
}

fn find_rule_exec(trs: &[RuleTranslationRow], id: u128) -> (r: Option<usize>)
    ensures
        match r {
            Some(j) => j < trs@.len() && find_rule_tr(trs@, id) == Some(trs@[j as int]),
            None => find_rule_tr(trs@, id) is None,
        },
{
    let mut j: usize = 0;
    assert(trs@.subrange(0, trs@.len() as int) =~= trs@);
    while j < trs.len()
        invariant
            j <= trs@.len(),
            find_rule_tr(trs@, id) == find_rule_tr(trs@.subrange(j as int, trs@.len() as int), id),
        decreases trs.len() - j,
    {
        assert(trs@.subrange(j as int, trs@.len() as int).drop_first() =~= trs@.subrange(j + 1, trs@.len() as int));
        if trs[j].rule_id == id {
            return Some(j);
        }
        j = j + 1;
    }
    None
}

fn find_sanction_exec(trs: &[SanctionTranslationRow], id: u128) -> (r: Option<usize>)
    ensures
        match r {
            Some(j) => j < trs@.len() && find_sanction_tr(trs@, id) == Some(trs@[j as int]),
            None => find_sanction_tr(trs@, id) is None,
        },
{
    let mut j: usize = 0;
    assert(trs@.subrange(0, trs@.len() as int) =~= trs@);
    while j < trs.len()
        invariant
            j <= trs@.len(),
            find_sanction_tr(trs@, id) == find_sanction_tr(trs@.subrange(j as int, trs@.len() as int), id),
        decreases trs.len() - j,
    {
        assert(trs@.subrange(j as int, trs@.len() as int).drop_first() =~= trs@.subrange(j + 1, trs@.len() as int));
        if trs[j].sanction_id == id {
            return Some(j);
        }
        j = j + 1;
    }
    None
}

/// Lays translations over the rulebook. Every item keeps its place; a
/// missing translation leaves the rulebook's own wording.
pub fn apply_locale(
    categories: &mut [RuleCategoryRow],
    rules: &mut [RuleRow],
    sanctions: &mut [RuleSanctionRow],
    cat_tr: &[CategoryTranslationRow],
    rule_tr: &[RuleTranslationRow],
    sanction_tr: &[SanctionTranslationRow],
)
    ensures
        final(categories)@.len() == old(categories)@.len(),
        forall|i: int| 0 <= i < final(categories)@.len() ==> #[trigger] final(categories)@[i] == localized_category(
            old(categories)@[i],
            find_category_tr(cat_tr@, old(categories)@[i].id),
        ),
        final(rules)@.len() == old(rules)@.len(),
        forall|i: int| 0 <= i < final(rules)@.len() ==> #[trigger] final(rules)@[i] == localized_rule(
            old(rules)@[i],
            find_rule_tr(rule_tr@, old(rules)@[i].id),
        ),
        final(sanctions)@.len() == old(sanctions)@.len(),
        forall|i: int| 0 <= i < final(sanctions)@.len() ==> #[trigger] final(sanctions)@[i] == localized_sanction(
            old(sanctions)@[i],
            find_sanction_tr(sanction_tr@, old(sanctions)@[i].id),
        ),
{
    let ghost cats0 = categories@;
    let mut i: usize = 0;
    while i < categories.len()
        invariant
            i <= categories@.len(),
            categories@.len() == cats0.len(),
            forall|k: int| 0 <= k < i ==> #[trigger] categories@[k] == localized_category(cats0[k], find_category_tr(cat_tr@, cats0[k].id)),
            forall|k: int| i <= k < cats0.len() ==> #[trigger] categories@[k] == cats0[k],
        decreases categories@.len() - i,
    {
        let c = &categories[i];
        if let Some(j) = find_category_exec(cat_tr, c.id) {
            let t = &cat_tr[j];
            let description = if t.description.as_str().is_empty() {
                c.description.clone()
            } else {
                t.description.clone()
            };
            let updated = RuleCategoryRow {
                id: c.id,
                parent_id: c.parent_id,
                server_id: c.server_id,
                code: c.code.clone(),
                name: t.name.clone(),
                description,
                sort_order: c.sort_order,
                created_at: c.created_at,
                updated_at: c.updated_at,
            };
            categories[i] = updated;
        }
        i = i + 1;
    }
    let ghost rules0 = rules@;
    let mut i: usize = 0;
    while i < rules.len()
        invariant
            i <= rules@.len(),
            rules@.len() == rules0.len(),
            forall|k: int| 0 <= k < i ==> #[trigger] rules@[k] == localized_rule(rules0[k], find_rule_tr(rule_tr@, rules0[k].id)),
            forall|k: int| i <= k < rules0.len() ==> #[trigger] rules@[k] == rules0[k],
        decreases rules@.len() - i,
    {
        let r = &rules[i];
        if let Some(j) = find_rule_exec(rule_tr, r.id) {
            let t = &rule_tr[j];
            let description = if t.description.as_str().is_empty() {
                r.description.clone()
            } else {
                t.description.clone()
            };
            let punish_reason = if t.punish_reason.as_str().is_empty() {
                r.punish_reason.clone()
            } else {
                t.punish_reason.clone()
            };
            let updated = RuleRow {
                id: r.id,
                category_id: r.category_id,
                server_id: r.server_id,
                code: r.code.clone(),
                title: t.title.clone(),
                description,
                punish_reason,
                sort_order: r.sort_order,
                created_at: r.created_at,
                updated_at: r.updated_at,
            };
            rules[i] = updated;
        }
        i = i + 1;
    }
    let ghost sanctions0 = sanctions@;
    let mut i: usize = 0;
    while i < sanctions.len()
        invariant
            i <= sanctions@.len(),
            sanctions@.len() == sanctions0.len(),
            forall|k: int| 0 <= k < i ==> #[trigger] sanctions@[k] == localized_sanction(sanctions0[k], find_sanction_tr(sanction_tr@, sanctions0[k].id)),
            forall|k: int| i <= k < sanctions0.len() ==> #[trigger] sanctions@[k] == sanctions0[k],
        decreases sanctions@.len() - i,
    {
        let s = &sanctions[i];
        if let Some(j) = find_sanction_exec(sanction_tr, s.id) {
            let t = &sanction_tr[j];
            let updated = RuleSanctionRow {
                id: s.id,
                rule_id: s.rule_id,
                kind: s.kind.clone(),
                label: t.label.clone(),
                min_minutes: s.min_minutes,
                max_minutes: s.max_minutes,
                sort_order: s.sort_order,
            };
            sanctions[i] = updated;
        }
        i = i + 1;
    }
}

} // verus!
