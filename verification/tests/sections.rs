use algocline_app::sections::{
    resolve_sections, select_sections, PackProfileError, PackSection, SectionSet,
};

fn names(set: &SectionSet) -> Vec<&'static str> {
    set.to_vec().iter().map(|s| s.as_str()).collect()
}

#[test]
fn default_selection_is_core_cards_evals() {
    let sections = resolve_sections(false, &[], &[]).unwrap();
    assert_eq!(names(&sections), vec!["core", "cards", "evals"]);
}

#[test]
fn all_excludes_logs_hub_cache_and_types() {
    let sections = resolve_sections(true, &[], &[]).unwrap();
    assert_eq!(names(&sections), vec!["core", "cards", "evals", "nn", "state"]);
}

#[test]
fn include_composes_with_all_as_a_union() {
    let sections = resolve_sections(true, &["logs".to_string(), "types".to_string()], &[]).unwrap();
    assert_eq!(
        names(&sections),
        vec!["core", "cards", "evals", "nn", "state", "logs", "types"]
    );
}

#[test]
fn include_opts_into_heavy_sections_without_all() {
    let sections = resolve_sections(false, &["state".to_string()], &[]).unwrap();
    assert_eq!(names(&sections), vec!["core", "cards", "evals", "state"]);
}

#[test]
fn exclude_wins_over_all() {
    let sections = resolve_sections(true, &[], &["nn".to_string()]).unwrap();
    assert_eq!(names(&sections), vec!["core", "cards", "evals", "state"]);
}

#[test]
fn exclude_wins_over_include() {
    let sections = resolve_sections(false, &["nn".to_string()], &["nn".to_string()]).unwrap();
    assert_eq!(names(&sections), vec!["core", "cards", "evals"]);
}

#[test]
fn core_cannot_be_excluded() {
    let err = resolve_sections(false, &[], &["core".to_string()]).unwrap_err();
    assert!(matches!(err, PackProfileError::CoreExcluded));
}

#[test]
fn unknown_section_is_rejected_with_the_known_list() {
    let err = resolve_sections(false, &["carads".to_string()], &[]).unwrap_err();
    let msg = err.message();
    assert!(msg.contains("carads"), "message names the bad input: {msg}");
    assert!(msg.contains("cards"), "message lists valid sections: {msg}");
    assert_eq!(
        msg,
        "unknown section 'carads' (known sections: core, cards, evals, nn, state, logs, hub_cache, types)"
    );
}

#[test]
fn every_section_except_core_maps_to_a_directory() {
    for section in PackSection::all() {
        match section {
            PackSection::Core => assert!(section.dir_name().is_none()),
            other => {
                let dir = other.dir_name().expect("directory-shaped section");
                assert_eq!(dir, other.as_str());
            }
        }
    }
}

#[test]
fn section_names_read_back() {
    for section in PackSection::all() {
        assert_eq!(PackSection::parse(section.as_str()).unwrap(), section);
    }
}

#[test]
fn the_first_offending_name_is_reported() {
    let err = resolve_sections(
        false,
        &[],
        &["nn".to_string(), "core".to_string(), "bogus".to_string()],
    )
    .unwrap_err();
    assert!(matches!(err, PackProfileError::CoreExcluded));
    let err = resolve_sections(
        false,
        &["one".to_string(), "two".to_string()],
        &["core".to_string()],
    )
    .unwrap_err();
    assert!(err.message().contains("'one'"));
}

#[test]
fn core_survives_an_include_that_omits_it() {
    let carried = vec![PackSection::Core, PackSection::Cards, PackSection::Nn];
    let selected = select_sections(&carried, &["cards".to_string()], &[]).unwrap();
    assert!(selected.contains(&PackSection::Core));
    assert!(selected.contains(&PackSection::Cards));
    assert!(!selected.contains(&PackSection::Nn));
}

#[test]
fn including_a_section_the_pack_lacks_is_not_an_error() {
    let carried = vec![PackSection::Core];
    let selected = select_sections(&carried, &["nn".to_string()], &[]).unwrap();
    assert_eq!(selected.to_vec(), vec![PackSection::Core]);
}

#[test]
fn excluding_core_from_an_unpack_leaves_it_in() {
    let carried = vec![PackSection::Core, PackSection::Cards];
    let selected =
        select_sections(&carried, &[], &["core".to_string(), "cards".to_string()]).unwrap();
    assert_eq!(selected.to_vec(), vec![PackSection::Core]);
    assert!(select_sections(&carried, &[], &["nope".to_string()]).is_err());
}

#[test]
fn everything_carried_is_unpacked_unless_names_are_given() {
    let carried = vec![PackSection::Core, PackSection::Cards, PackSection::Logs];
    assert_eq!(select_sections(&carried, &[], &[]).unwrap().to_vec(), carried);
}
