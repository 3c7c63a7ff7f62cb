use shrimply_model::font_family::{
    append_family, apply_family_edit, move_family, normalized_families, remove_family,
    replace_family, FamilyEdit, ProjectFontFamily,
};

fn google(name: &str) -> ProjectFontFamily {
    ProjectFontFamily::GoogleFonts { name: name.to_string() }
}

fn local(name: &str) -> ProjectFontFamily {
    ProjectFontFamily::Local { name: name.to_string() }
}

fn names(families: &[ProjectFontFamily]) -> Vec<String> {
    families.iter().map(|f| f.name().to_string()).collect()
}

/// Applies an edit the way the inspector does: a refused edit leaves the list.
fn edit(families: Vec<ProjectFontFamily>, change: FamilyEdit) -> Vec<ProjectFontFamily> {
    match apply_family_edit(&families, change) {
        Some(next) => next,
        None => families,
    }
}

#[test]
fn case_1_existing_font_and_append() {
    let families = vec![google("Inter")];
    assert_eq!(names(&families), vec!["Inter"]);
    let families = edit(families, FamilyEdit::Append(google("Roboto")));
    assert_eq!(names(&families), vec!["Inter", "Roboto"]);
}

#[test]
fn case_2_remove_last_font_then_append() {
    let families = vec![google("Inter")];
    assert_eq!(names(&families), vec!["Inter"]);
    let families = edit(families, FamilyEdit::Remove(0));
    assert!(names(&families).is_empty());
    let families = edit(families, FamilyEdit::Append(google("Roboto")));
    assert_eq!(names(&families), vec!["Roboto"]);
}

#[test]
fn case_3_empty_list_directly() {
    let families: Vec<ProjectFontFamily> = Vec::new();
    assert!(names(&families).is_empty());
    let families = edit(families, FamilyEdit::Append(google("Open Sans")));
    assert_eq!(names(&families), vec!["Open Sans"]);
}

#[test]
fn case_5_duplicate_protection() {
    let families = vec![google("Inter")];
    let families = edit(families, FamilyEdit::Append(google("Inter")));
    assert_eq!(names(&families), vec!["Inter"], "duplicate font must not be added");
}

#[test]
fn case_6_move_and_remove_on_empty_list() {
    let families: Vec<ProjectFontFamily> = Vec::new();
    assert!(apply_family_edit(&families, FamilyEdit::Remove(0)).is_none());
    let families = edit(families, FamilyEdit::Remove(0));
    assert!(names(&families).is_empty());
    let families = edit(families, FamilyEdit::Move { index: 0, offset: 1 });
    assert!(names(&families).is_empty());
}

#[test]
fn normalizing_trims_names_and_drops_blank_ones() {
    let families = vec![google("  Inter "), local("   "), local("Arial\t")];
    assert_eq!(names(&normalized_families(&families)), vec!["Inter", "Arial"]);
}

#[test]
fn duplicate_names_ignore_ascii_case() {
    let families = vec![google("Inter")];
    assert!(append_family(&families, local("INTER")).is_none());
    assert_eq!(names(&append_family(&families, local("Inter Tight")).unwrap()), vec![
        "Inter",
        "Inter Tight"
    ]);
}

#[test]
fn replace_checks_index_and_other_names() {
    let families = vec![google("Inter"), google("Roboto")];
    assert_eq!(names(&replace_family(&families, 1, google("Lato")).unwrap()), vec![
        "Inter", "Lato"
    ]);
    // Replacing a family by itself in another case is allowed.
    assert_eq!(names(&replace_family(&families, 0, local("inter")).unwrap()), vec![
        "inter", "Roboto"
    ]);
    assert!(replace_family(&families, 0, google("roboto")).is_none());
    assert!(replace_family(&families, 2, google("Lato")).is_none());
}

#[test]
fn move_swaps_with_the_destination() {
    let families = vec![google("A"), google("B"), google("C")];
    assert_eq!(names(&move_family(&families, 0, 2).unwrap()), vec!["C", "B", "A"]);
    assert_eq!(names(&move_family(&families, 2, -1).unwrap()), vec!["A", "C", "B"]);
    assert!(move_family(&families, 0, -1).is_none());
    assert!(move_family(&families, 1, 2).is_none());
}

#[test]
fn move_there_and_back_restores_order() {
    let families = vec![google("A"), google("B"), google("C"), google("D")];
    let moved = move_family(&families, 1, 2).unwrap();
    let back = move_family(&moved, 3, -2).unwrap();
    assert_eq!(names(&back), names(&families));
}

#[test]
fn append_then_remove_restores_list() {
    let families = vec![google("Inter"), local("Arial")];
    let appended = append_family(&families, google("Lato")).unwrap();
    let removed = remove_family(&appended, 2).unwrap();
    assert_eq!(names(&removed), names(&families));
}

#[test]
fn replace_edit_goes_through_apply() {
    let families = vec![google("Inter")];
    let families = edit(families, FamilyEdit::Replace { index: 0, family: local("Arial") });
    assert_eq!(names(&families), vec!["Arial"]);
}
