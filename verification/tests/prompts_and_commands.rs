use elaine::commands::{
    add_mode, attach, choose_project, detach, edit_outcome, has_bib_extension, library_action,
    needs_rename, EditOutcome,
    manual_reference, mentions, printed_projects, reference_from_answers, slug_of,
    used_elsewhere, AddMode, Answers, Detached, LibraryAction, ProjectChoice,
};
use elaine::project::Project;
use elaine::resolve::ResolveProjectError;
use elaine::prompt::{
    answer, chosen_index, confirmed, confirmed_by_default, declined, edited_list,
    edited_optional, edited_text, edited_year, kind_or, split_tags,
};
use elaine::reference::{Identifiers, RefKind, Reference, Venue};

#[test]
fn add_mode_is_chosen_in_order() {
    assert_eq!(add_mode(true, 3, true), AddMode::Interactive);
    assert_eq!(add_mode(false, 1, true), AddMode::BibFiles);
    assert_eq!(add_mode(false, 2, true), AddMode::BibFiles);
    assert_eq!(add_mode(false, 2, false), AddMode::Manual);
    assert_eq!(add_mode(false, 3, false), AddMode::Manual);
    assert_eq!(add_mode(false, 1, false), AddMode::Stdin);
    assert_eq!(add_mode(false, 0, true), AddMode::Stdin);
    assert_eq!(add_mode(false, 0, false), AddMode::Stdin);
}

#[test]
fn bib_extension_is_a_suffix() {
    assert!(has_bib_extension("refs.bib"));
    assert!(has_bib_extension(".bib"));
    assert!(!has_bib_extension("refs.bibtex"));
    assert!(!has_bib_extension("refs.BIB"));
    assert!(!has_bib_extension("bib"));
}

#[test]
fn manual_reference_is_an_article() {
    let r = manual_reference("A Study", "Jane Doe and John Roe", Some("2020"), "sid-1".to_string()).unwrap();
    assert_eq!(r.id, "doe2020astudy");
    assert_eq!(r.sid, "sid-1");
    assert_eq!(r.kind, RefKind::Article);
    assert_eq!(r.title, "A Study");
    assert_eq!(r.authors, vec!["Jane Doe", "John Roe"]);
    assert!(r.editors.is_empty());
    assert_eq!(r.year, Some(2020));
    assert_eq!(r.venue, Some(Venue::empty()));
    assert_eq!(r.identifiers, Identifiers::default());
    assert!(r.tags.is_empty());
    assert_eq!(r.notes, None);
}

#[test]
fn manual_reference_needs_an_author() {
    assert_eq!(manual_reference("T", "  and ", None, String::new()), None);
    assert_eq!(manual_reference("T", "", Some("2020"), String::new()), None);
}

#[test]
fn manual_reference_year_policy() {
    assert_eq!(manual_reference("T", "A", None, String::new()).unwrap().year, None);
    assert_eq!(manual_reference("T", "A", Some("x"), String::new()).unwrap().year, None);
    assert_eq!(manual_reference("T", "A", Some("1999"), String::new()).unwrap().id, "a1999t");
}

#[test]
fn answers_make_a_record() {
    let a = Answers {
        title: "Deep Things".to_string(),
        authors: "Doe, Jane and Roe, John".to_string(),
        year: Some("1987".to_string()),
        kind: Some("InBook".to_string()),
        editors: Some("E One and E Two".to_string()),
        venue: Venue { journal: Some("J".to_string()), ..Venue::empty() },
        identifiers: Identifiers { doi: Some("d".to_string()), ..Identifiers::default() },
        tags: Some("x, y ,,z".to_string()),
        notes: Some("note".to_string()),
    };
    let r = reference_from_answers(a, "sid".to_string());
    assert_eq!(r.id, "doe1987deepth");
    assert_eq!(r.sid, "sid");
    assert_eq!(r.kind, RefKind::InBook);
    assert_eq!(r.authors, vec!["Doe, Jane", "Roe, John"]);
    assert_eq!(r.editors, vec!["E One", "E Two"]);
    assert_eq!(r.year, Some(1987));
    assert_eq!(r.venue.unwrap().journal.as_deref(), Some("J"));
    assert_eq!(r.identifiers.doi.as_deref(), Some("d"));
    assert_eq!(r.tags, vec!["x", "y", "z"]);
    assert_eq!(r.notes.as_deref(), Some("note"));
    assert!(r.attachments.is_empty());
}

#[test]
fn answers_defaults() {
    let a = Answers {
        title: "T".to_string(),
        authors: "A".to_string(),
        year: None,
        kind: None,
        editors: None,
        venue: Venue::empty(),
        identifiers: Identifiers::default(),
        tags: None,
        notes: None,
    };
    let r = reference_from_answers(a.clone(), String::new());
    assert_eq!(r.kind, RefKind::Article);
    assert_eq!(r.id, "a0000t");
    assert!(r.editors.is_empty() && r.tags.is_empty());
    let odd = Answers { kind: Some("thesis".to_string()), year: Some("199x".to_string()), ..a };
    let r = reference_from_answers(odd, String::new());
    assert_eq!(r.kind, RefKind::Article);
    assert_eq!(r.year, None);
}

#[test]
fn slug_of_a_record() {
    let mut r = Reference::new_minimal("old", "New Title");
    r.authors = vec!["Ann Lee".to_string()];
    r.year = Some(2001);
    assert_eq!(slug_of(&r), "lee2001newtit");
}

#[test]
fn attach_links_once() {
    let mut r = Reference::new_minimal("k", "T");
    assert!(attach(&mut r, "/a.pdf"));
    assert!(attach(&mut r, "/b.pdf"));
    assert!(!attach(&mut r, "/a.pdf"));
    assert_eq!(r.attachments, vec!["/a.pdf", "/b.pdf"]);
    assert_eq!(r.id, "k");
}

#[test]
fn detach_by_number_or_all() {
    let mut r = Reference::new_minimal("k", "T");
    assert_eq!(detach(&mut r, None, false), Detached::Nothing);
    assert_eq!(detach(&mut r, Some(1), true), Detached::Nothing);
    r.attachments = vec!["a".to_string(), "b".to_string(), "c".to_string()];
    assert_eq!(detach(&mut r, Some(0), false), Detached::BadIndex(3));
    assert_eq!(detach(&mut r, Some(4), false), Detached::BadIndex(3));
    assert_eq!(r.attachments.len(), 3);
    assert_eq!(detach(&mut r, Some(2), false), Detached::One("b".to_string()));
    assert_eq!(r.attachments, vec!["a", "c"]);
    assert_eq!(detach(&mut r, None, false), Detached::One("a".to_string()));
    assert_eq!(r.attachments, vec!["c"]);
    r.attachments.push("d".to_string());
    assert_eq!(detach(&mut r, Some(9), true), Detached::All(2));
    assert!(r.attachments.is_empty());
}

#[test]
fn library_action_by_flags() {
    let n = || Some("lib".to_string());
    assert_eq!(library_action(None, false, false), LibraryAction::Show);
    assert_eq!(library_action(None, true, true), LibraryAction::Show);
    assert_eq!(library_action(n(), false, true), LibraryAction::Rename("lib".to_string()));
    assert_eq!(library_action(n(), true, false), LibraryAction::Delete("lib".to_string()));
    assert_eq!(library_action(n(), false, false), LibraryAction::Switch("lib".to_string()));
    assert_eq!(library_action(n(), true, true), LibraryAction::Invalid);
}

#[test]
fn mentions_is_substring_search() {
    assert!(mentions("refs:\n- doe2020\n- roe1999\n", "roe1999"));
    assert!(mentions("abc", ""));
    assert!(mentions("", ""));
    assert!(!mentions("", "a"));
    assert!(!mentions("refs:\n- doe2020\n", "roe"));
    assert!(mentions("aab", "ab"));
    assert!(used_elsewhere("- doe2020", ".elaine/projects/paper.yaml", "doe2020", "thesis"));
    assert!(!used_elsewhere("- doe2020", ".elaine/projects/thesis.yaml", "doe2020", "thesis"));
    assert!(!used_elsewhere("- roe", ".elaine/projects/paper.yaml", "doe2020", "thesis"));
}

#[test]
fn kind_answers() {
    assert_eq!(kind_or("", RefKind::Book), RefKind::Book);
    assert_eq!(kind_or("  Article ", RefKind::Book), RefKind::Article);
    assert_eq!(kind_or("INPROCEEDINGS", RefKind::Book), RefKind::InProceedings);
    assert_eq!(kind_or("incollection", RefKind::Book), RefKind::InCollection);
    assert_eq!(kind_or("inbook", RefKind::Book), RefKind::InBook);
    assert_eq!(kind_or("book", RefKind::Misc), RefKind::Book);
    assert_eq!(kind_or("misc", RefKind::Book), RefKind::Misc);
    assert_eq!(kind_or("novel", RefKind::InBook), RefKind::InBook);
}

#[test]
fn answers_are_trimmed() {
    assert_eq!(answer("  hello world \n"), Some("hello world".to_string()));
    assert_eq!(answer(" \t\n"), None);
    assert_eq!(answer(""), None);
    assert_eq!(edited_text("\n", "old"), "old");
    assert_eq!(edited_text(" new \n", "old"), "new");
    assert_eq!(edited_optional("\n", Some("old")), Some("old".to_string()));
    assert_eq!(edited_optional("\n", None), None);
    assert_eq!(edited_optional("x\n", None), Some("x".to_string()));
    assert_eq!(edited_year("\n", Some(1999)), Some(1999));
    assert_eq!(edited_year("\n", None), None);
    assert_eq!(edited_year(" 2001\n", Some(1999)), Some(2001));
    assert_eq!(edited_year("soon\n", Some(1999)), None);
}

#[test]
fn edited_list_shows_and_splits() {
    let current = vec!["A B".to_string(), "C D".to_string()];
    assert_eq!(edited_list("\n", &current), vec!["A B", "C D"]);
    assert_eq!(edited_list("X and Y and \n", &current), vec!["X", "Y and"]);
    assert_eq!(edited_list(" X and  and Y \n", &current), vec!["X", "Y"]);
    assert!(edited_list("\n", &Vec::new()).is_empty());
}

#[test]
fn tags_split_on_commas() {
    assert_eq!(split_tags(" a, b ,,c "), vec!["a", "b", "c"]);
    assert!(split_tags(" , ").is_empty());
}

#[test]
fn confirmations() {
    for yes in ["y", "Y", " yes \n", "YES"] {
        assert!(confirmed(yes));
        assert!(confirmed_by_default(yes));
        assert!(!declined(yes));
    }
    for no in ["n", "N\n", " no ", "No"] {
        assert!(!confirmed(no));
        assert!(!confirmed_by_default(no));
        assert!(declined(no));
    }
    assert!(!confirmed(""));
    assert!(confirmed_by_default("\n"));
    assert!(!declined(""));
    assert!(!confirmed("yep"));
    assert!(!confirmed_by_default("yep"));
    assert!(!declined("nope"));
}

#[test]
fn chosen_index_counts_from_one() {
    assert_eq!(chosen_index("1\n", 3), Some(0));
    assert_eq!(chosen_index(" 3 ", 3), Some(2));
    assert_eq!(chosen_index("+2", 3), Some(1));
    assert_eq!(chosen_index("0", 3), None);
    assert_eq!(chosen_index("4", 3), None);
    assert_eq!(chosen_index("", 3), None);
    assert_eq!(chosen_index("two", 3), None);
    assert_eq!(chosen_index("1", 0), None);
    assert_eq!(chosen_index("99999999999999999999999999999999", 3), None);
    assert_eq!(chosen_index("18446744073709551615", usize::MAX), Some(usize::MAX - 1));
    assert_eq!(chosen_index("0002", 3), Some(1));
}

#[test]
fn project_is_chosen_by_selector_or_active() {
    let all = vec![
        Project::new("thesis", "1111-aaaa-bbbb-cccc".to_string()),
        Project::new("paper", "2222-aaaa-bbbb-cccc".to_string()),
    ];
    assert_eq!(choose_project(Some("22"), &all, Some("thesis")), ProjectChoice::Chosen("paper".to_string()));
    assert_eq!(choose_project(None, &all, Some("thesis")), ProjectChoice::Chosen("thesis".to_string()));
    assert_eq!(choose_project(None, &all, None), ProjectChoice::NoActive);
    assert_eq!(
        choose_project(Some("x"), &all, Some("thesis")),
        ProjectChoice::Unresolved(ResolveProjectError::NotFound("x".to_string()))
    );
}

#[test]
fn printed_projects_by_request() {
    let v = |xs: &[&str]| xs.iter().map(|s| s.to_string()).collect::<Vec<String>>();
    assert_eq!(printed_projects(true, v(&["b", "a"]), v(&["z"]), None), Some(v(&["a", "b"])));
    assert_eq!(printed_projects(true, v(&[]), v(&["z"]), Some("p".to_string())), None);
    assert_eq!(printed_projects(false, v(&["b"]), v(&["z", "y"]), None), Some(v(&["z", "y"])));
    assert_eq!(printed_projects(false, v(&["b"]), v(&[]), Some("p".to_string())), Some(v(&["p"])));
    assert_eq!(printed_projects(false, v(&["b"]), v(&[]), None), None);
}

#[test]
fn edit_keeps_renames_or_aborts() {
    let mut r = Reference::new_minimal("lee2001newtit", "New Title");
    r.authors = vec!["Ann Lee".to_string()];
    r.year = Some(2001);
    assert!(!needs_rename("lee2001newtit", &r));
    assert_eq!(edit_outcome("lee2001newtit", &r, "n"), EditOutcome::Keep);
    assert_eq!(edit_outcome("lee2001newtit", &r, ""), EditOutcome::Keep);
    assert!(needs_rename("key-from-import", &r));
    for yes in ["", "\n", "y", " Yes \n"] {
        assert_eq!(
            edit_outcome("key-from-import", &r, yes),
            EditOutcome::Rename("lee2001newtit".to_string())
        );
    }
    for no in ["n", "no\n", "later"] {
        assert_eq!(edit_outcome("key-from-import", &r, no), EditOutcome::Abort);
    }
    r.title = "Other".to_string();
    assert_eq!(edit_outcome("lee2001newtit", &r, "y"), EditOutcome::Rename("lee2001other".to_string()));
}
