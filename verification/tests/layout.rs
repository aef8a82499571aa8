use ratatoist::layout::{plan_star_jar, truncate_for_toaster, StarKind};

fn count_kind(rows: &[Vec<StarKind>], kind: fn(&StarKind) -> bool) -> usize {
    rows.iter().flatten().filter(|k| kind(k)).count()
}

#[test]
fn star_jar_plan_wraps_individual_stars_within_budget() {
    let plan = plan_star_jar(30, 5, 7);
    assert_eq!(plan.body_rows, 1, "7 stars fit on one row");
    assert_eq!(plan.rows.len(), 1);
    assert_eq!(plan.rows[0].len(), 7);
    assert!(matches!(plan.rows[0][0], StarKind::Yellow));

    let plan = plan_star_jar(30, 5, 15);
    assert_eq!(plan.body_rows, 2, "15 stars wrap to second row");
    assert_eq!(plan.rows[0].len(), 13);
    assert_eq!(plan.rows[1].len(), 2);
}

#[test]
fn star_jar_plan_collapses_to_purple_when_yellows_overflow() {
    let plan = plan_star_jar(30, 1, 27);
    assert_eq!(plan.body_rows, 1);
    assert_eq!(count_kind(&plan.rows, |k| matches!(k, StarKind::Purple)), 5);
    assert_eq!(count_kind(&plan.rows, |k| matches!(k, StarKind::Yellow)), 2);
}

#[test]
fn star_jar_plan_empty_count_keeps_single_body_row() {
    let plan = plan_star_jar(30, 3, 0);
    assert_eq!(plan.body_rows, 1);
    assert_eq!(plan.rows.len(), 1);
    assert!(plan.rows[0].is_empty());
}

#[test]
fn truncate_for_toaster_shortens_with_ellipsis() {
    assert_eq!(truncate_for_toaster("short", 30), "short");
    assert_eq!(
        truncate_for_toaster("this title is too long to fit", 10),
        "this titl…"
    );
    assert_eq!(truncate_for_toaster("anything", 1), "…");
    assert_eq!(truncate_for_toaster("anything", 0), "…");
}

#[test]
fn star_jar_plan_narrow_sidebar_and_zero_budget() {
    // Width 5 leaves one column inside: one star per row.
    let plan = plan_star_jar(5, 3, 3);
    assert_eq!(plan.rows.len(), 3);
    assert_eq!(plan.body_rows, 3);
    // Budget 0 behaves like 1: 3 rows needed, so collapse (0 purple, 3 yellow).
    let plan = plan_star_jar(5, 0, 3);
    assert_eq!(plan.rows.len(), 3);
    assert_eq!(count_kind(&plan.rows, |k| matches!(k, StarKind::Purple)), 0);
    // Exactly at budget: 26 stars at 13 per row fill two rows without collapsing.
    let plan = plan_star_jar(30, 2, 26);
    assert_eq!(plan.body_rows, 2);
    assert_eq!(count_kind(&plan.rows, |k| matches!(k, StarKind::Yellow)), 26);
    // One more overflows the budget and collapses: 5 purple + 2 yellow.
    let plan = plan_star_jar(30, 2, 27);
    assert_eq!(plan.body_rows, 1);
    assert!(matches!(plan.rows[0][0], StarKind::Purple));
    assert!(matches!(plan.rows[0][6], StarKind::Yellow));
}

#[test]
fn truncate_counts_characters_not_bytes() {
    assert_eq!(truncate_for_toaster("ééééé", 5), "ééééé");
    assert_eq!(truncate_for_toaster("éééééé", 5), "éééé…");
    assert_eq!(truncate_for_toaster("ab", 2), "ab");
}
