use master::rules::{
    apply_locale, sanction_records, translation_records, RuleCategoryRow, RuleRow, RuleSanctionRow,
    RuleTranslationRow, SanctionInput, SanctionTranslationRow, TranslationInput,
};
use master::time::UtcTime;

fn sanction(kind: &str, min: Option<i64>, max: Option<i64>) -> RuleSanctionRow {
    RuleSanctionRow {
        id: 0,
        rule_id: 0,
        kind: kind.into(),
        label: String::new(),
        min_minutes: min,
        max_minutes: max,
        sort_order: 0,
    }
}

#[test]
fn a_term_inside_the_range_passes_and_outside_does_not() {
    let mute = sanction("mute", Some(30), Some(120));
    assert!(mute.allows(Some(30)));
    assert!(mute.allows(Some(60)));
    assert!(mute.allows(Some(120)));
    assert!(!mute.allows(Some(29)));
    assert!(!mute.allows(Some(10080)));
}

#[test]
fn forever_needs_an_open_upper_bound() {
    assert!(!sanction("ban", Some(10080), Some(43200)).allows(None));
    assert!(sanction("ban", Some(10080), None).allows(None));
}

#[test]
fn a_warning_has_no_term() {
    let warn = sanction("warn", None, None);
    assert!(warn.allows(None));
    assert!(warn.allows(Some(60)));
}

#[test]
fn an_open_lower_bound_allows_short_terms() {
    let mute = sanction("mute", None, Some(1440));
    assert!(mute.allows(Some(1)));
    assert!(mute.allows(Some(1440)));
    assert!(!mute.allows(Some(1441)));
    assert!(!mute.allows(None));
}

const EPOCH: UtcTime = UtcTime { secs: 0, nanos: 0 };

fn rule(title: &str, description: &str) -> RuleRow {
    RuleRow {
        id: 0,
        category_id: None,
        server_id: None,
        code: "1.1".into(),
        title: title.into(),
        description: description.into(),
        punish_reason: String::new(),
        sort_order: 0,
        created_at: EPOCH,
        updated_at: EPOCH,
    }
}

fn translation(title: &str, description: &str) -> RuleTranslationRow {
    RuleTranslationRow {
        rule_id: 0,
        locale: "en".into(),
        title: title.into(),
        description: description.into(),
        punish_reason: String::new(),
    }
}

#[test]
fn a_translation_replaces_the_original() {
    let mut rules = [rule("Гриферство", "Ломать чужое нельзя")];
    apply_locale(
        &mut [],
        &mut rules,
        &mut [],
        &[],
        &[translation("Griefing", "Do not break what is not yours")],
        &[],
    );
    assert_eq!(rules[0].title, "Griefing");
    assert_eq!(rules[0].description, "Do not break what is not yours");
}

#[test]
fn a_missing_translation_falls_back_to_the_original() {
    let mut rules = [rule("Гриферство", "Ломать чужое нельзя")];
    apply_locale(&mut [], &mut rules, &mut [], &[], &[], &[]);
    assert_eq!(rules[0].title, "Гриферство");
}

#[test]
fn an_empty_description_does_not_erase_the_original() {
    let mut rules = [rule("Гриферство", "Ломать чужое нельзя")];
    apply_locale(
        &mut [],
        &mut rules,
        &mut [],
        &[],
        &[translation("Griefing", "")],
        &[],
    );
    assert_eq!(rules[0].title, "Griefing");
    assert_eq!(rules[0].description, "Ломать чужое нельзя");
}

#[test]
fn a_translation_of_another_rule_is_not_applied() {
    let mut rules = [rule("Гриферство", "Ломать чужое нельзя")];
    let mut other = translation("Griefing", "x");
    other.rule_id = 7;
    apply_locale(&mut [], &mut rules, &mut [], &[], &[other], &[]);
    assert_eq!(rules[0].title, "Гриферство");
    assert_eq!(rules[0].description, "Ломать чужое нельзя");
}

#[test]
fn categories_and_sanctions_take_their_translations() {
    let mut cats = [RuleCategoryRow {
        id: 3,
        parent_id: None,
        server_id: None,
        code: "1".into(),
        name: "Общие".into(),
        description: "Для всех".into(),
        sort_order: 0,
        created_at: EPOCH,
        updated_at: EPOCH,
    }];
    let mut sanctions = [sanction("mute", None, None)];
    sanctions[0].id = 5;
    sanctions[0].label = "Мут".into();
    apply_locale(
        &mut cats,
        &mut [],
        &mut sanctions,
        &[master::rules::CategoryTranslationRow {
            category_id: 3,
            locale: "en".into(),
            name: "General".into(),
            description: String::new(),
        }],
        &[],
        &[SanctionTranslationRow { sanction_id: 5, locale: "en".into(), label: "Mute".into() }],
    );
    assert_eq!(cats[0].name, "General");
    assert_eq!(cats[0].description, "Для всех");
    assert_eq!(sanctions[0].label, "Mute");
}

#[test]
fn sanctions_are_numbered_and_a_warning_loses_its_bounds() {
    let items = vec![
        SanctionInput { kind: "warn".into(), label: " Предупреждение ".into(), min_minutes: Some(5), max_minutes: Some(9) },
        SanctionInput { kind: "mute".into(), label: "Мут".into(), min_minutes: Some(30), max_minutes: None },
    ];
    let out = sanction_records(&items);
    assert_eq!(out.len(), 2);
    assert_eq!(out[0].label, "Предупреждение");
    assert_eq!(out[0].min_minutes, None);
    assert_eq!(out[0].max_minutes, None);
    assert_eq!(out[0].sort_order, 0);
    assert_eq!(out[1].min_minutes, Some(30));
    assert_eq!(out[1].sort_order, 1);
}

#[test]
fn a_translation_with_a_blank_title_is_dropped() {
    let items = vec![
        TranslationInput { locale: "en".into(), title: "  ".into(), description: "d".into(), punish_reason: String::new() },
        TranslationInput { locale: " de ".into(), title: " Titel ".into(), description: " Text ".into(), punish_reason: " Grund ".into() },
    ];
    let out = translation_records(&items);
    assert_eq!(out.len(), 1);
    assert_eq!(out[0].locale, "de");
    assert_eq!(out[0].title, "Titel");
    assert_eq!(out[0].description, "Text");
    assert_eq!(out[0].punish_reason, "Grund");
}
