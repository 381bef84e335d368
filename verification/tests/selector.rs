use ghreview::model::Author;
use ghreview::search::{Repository, UserPrSummary};
use ghreview::selector::{
    filter, fuzzy_indices, row_caption, row_search_text, PrSelector, RefreshPhase, SelectorBody,
};

fn row(number: u64) -> UserPrSummary {
    UserPrSummary {
        number,
        title: "selector".into(),
        author: Author { login: "alice".into() },
        is_draft: false,
        updated_at: "now".into(),
        repository: Repository { name: "r".into(), name_with_owner: "a/r".into() },
        url: "u".into(),
    }
}

fn search_texts(rows: &[UserPrSummary]) -> Vec<String> {
    rows.iter().map(row_search_text).collect()
}

#[test]
fn pr_selector_refresh_state_keeps_rows_on_failure_and_discards_stale_results() {
    let mut selector = PrSelector::new();
    let first = selector.begin_refresh();
    let second = selector.begin_refresh();
    assert!(!selector.apply_result(first, Ok(vec![row(1)])));
    assert!(selector.apply_result(second, Ok(vec![row(2)])));
    let third = selector.begin_refresh();
    assert!(selector.apply_result(third, Err(format!("{:#}", anyhow::Error::msg("offline")))));
    assert_eq!(selector.rows[0].number, 2);
    assert!(selector.error().is_some());
}

#[test]
fn pr_selector_loaded_empty_and_filter_fields_are_explicit() {
    let mut selector = PrSelector::new();
    let request = selector.begin_refresh();
    selector.apply_result(request, Ok(Vec::new()));
    assert!(selector.rows.is_empty());
    assert_eq!(filter(&vec![row(10)], "#10"), vec![0]);
    assert_eq!(filter(&vec![row(10)], "alice"), vec![0]);
}

#[test]
fn pr_selector_tests_refresh_state_keeps_rows_on_failure_and_discards_stale_results() {
    let mut selector = PrSelector::new();
    let first = selector.begin_refresh();
    let second = selector.begin_refresh();
    assert!(!selector.apply_result(first, Ok(vec![row(1)])));
    assert!(selector.apply_result(second, Ok(vec![row(2)])));
    let third = selector.begin_refresh();
    assert!(selector.apply_result(third, Err("offline".to_string())));
    assert_eq!(selector.rows[0].number, 2);
    assert!(matches!(selector.phase, RefreshPhase::Failed { .. }));
}

#[test]
fn pr_selector_tests_loaded_empty_and_filter_fields_are_explicit() {
    let mut selector = PrSelector::new();
    let request = selector.begin_refresh();
    selector.apply_result(request, Ok(Vec::new()));
    assert!(selector.rows.is_empty());
    assert_eq!(fuzzy_indices(&search_texts(&[row(10)]), "#10"), vec![0]);
    assert_eq!(fuzzy_indices(&search_texts(&[row(10)]), "alice"), vec![0]);
}

#[test]
fn refresh_numbers_grow_and_failures_record_their_message() {
    let mut selector = PrSelector::new();
    assert_eq!(selector.begin_refresh(), 1);
    assert!(selector.is_loading());
    assert_eq!(selector.begin_refresh(), 2);
    assert!(!selector.apply_result(3, Ok(vec![row(3)])));
    assert!(selector.apply_result(2, Err("offline".into())));
    assert_eq!(selector.phase, RefreshPhase::Failed { request: 2, message: "offline".into() });
    assert_eq!(selector.error(), Some("offline".to_string()));
    assert!(!selector.is_loading());
    assert!(!selector.apply_result(2, Ok(vec![row(4)])));
    assert!(selector.rows.is_empty());
    let next = selector.begin_refresh();
    assert_eq!(selector.error(), None);
    assert!(selector.apply_result(next, Ok(vec![row(5)])));
    assert_eq!(selector.phase, RefreshPhase::Idle);
    assert_eq!(selector.rows[0].number, 5);
}

#[test]
fn removing_a_row_keeps_the_others_in_order() {
    let mut selector = PrSelector::new();
    let mut other_repo = row(2);
    other_repo.repository.name_with_owner = "b/r".into();
    selector.rows = vec![row(1), row(2), other_repo, row(3), row(2)];
    selector.remove("a/r", 2);
    let left: Vec<(String, u64)> =
        selector.rows.iter().map(|r| (r.repository.name_with_owner.clone(), r.number)).collect();
    assert_eq!(
        left,
        vec![("a/r".to_string(), 1), ("b/r".to_string(), 2), ("a/r".to_string(), 3)]
    );
    selector.remove("z/z", 1);
    assert_eq!(selector.rows.len(), 3);
}

#[test]
fn empty_or_blank_query_lists_everything_in_order() {
    let texts = vec!["x".to_string(), "y".to_string(), "z".to_string()];
    assert_eq!(fuzzy_indices(&texts, ""), vec![0, 1, 2]);
    assert_eq!(fuzzy_indices(&texts, "  \t"), vec![0, 1, 2]);
    assert_eq!(fuzzy_indices(&Vec::new(), "abc"), Vec::<usize>::new());
}

#[test]
fn fuzzy_query_keeps_only_matches_best_first() {
    let texts = vec![
        "a/r #1 fix the parser alice".to_string(),
        "b/r #2 unrelated bob".to_string(),
        "c/r #3 parser carol".to_string(),
    ];
    let got = fuzzy_indices(&texts, " parser ");
    assert_eq!(got.len(), 2);
    assert!(got.contains(&0) && got.contains(&2));
    assert_eq!(fuzzy_indices(&texts, "zzz"), Vec::<usize>::new());
    assert_eq!(fuzzy_indices(&texts, "BOB"), Vec::<usize>::new());
    assert_eq!(fuzzy_indices(&texts, "bob"), vec![1]);
}

#[test]
fn search_text_and_caption_of_a_row() {
    assert_eq!(row_search_text(&row(10)), "a/r #10 selector alice");
    assert_eq!(row_caption(&row(10)), "a/r#10 · @alice");
}

#[test]
fn body_reflects_rows_refresh_and_matches() {
    let mut selector = PrSelector::new();
    assert_eq!(selector.header_title(), "Pull requests (0)");
    assert_eq!(selector.body(0), SelectorBody::NoOpenPrs);
    let request = selector.begin_refresh();
    assert_eq!(selector.body(0), SelectorBody::Loading);
    selector.apply_result(request, Err("offline".into()));
    assert_eq!(selector.body(0), SelectorBody::Failed("offline".into()));
    assert_eq!(selector.footer_error(), None);
    selector.rows = (1..=7).map(row).collect();
    assert_eq!(selector.header_title(), "Pull requests (7)");
    assert_eq!(selector.body(0), SelectorBody::NoMatches);
    assert_eq!(selector.body(3), SelectorBody::Rows { count: 3, visible: 3 });
    assert_eq!(selector.body(7), SelectorBody::Rows { count: 7, visible: 5 });
    assert_eq!(selector.footer_error(), Some("offline".into()));
    selector.begin_refresh();
    assert_eq!(selector.body(7), SelectorBody::Rows { count: 7, visible: 5 });
    selector.expanded = false;
    assert_eq!(selector.body(7), SelectorBody::Collapsed);
    assert_eq!(selector.footer_error(), None);
}

#[test]
fn scores_rank_best_first_with_ties_in_index_order() {
    let scores = vec![Some(5), None, Some(7), Some(5), Some(-1)];
    assert_eq!(ghreview::selector::rank_matches(&scores), vec![2, 0, 3, 4]);
    assert_eq!(ghreview::selector::rank_matches(&vec![None, None]), Vec::<usize>::new());
}

#[test]
fn toggling_the_list_keeps_its_rows() {
    let mut selector = PrSelector::new();
    selector.rows = vec![row(1)];
    selector.toggle_expanded();
    assert!(!selector.expanded);
    assert_eq!(selector.body(1), SelectorBody::Collapsed);
    selector.toggle_expanded();
    assert_eq!(selector.body(1), SelectorBody::Rows { count: 1, visible: 1 });
    assert_eq!(selector.rows.len(), 1);
}

#[test]
fn a_query_lists_exactly_the_texts_holding_its_characters_in_order() {
    let texts = vec!["a/r #10 selector alice".to_string(), "b/r #2 other bob".to_string(), "SELECT".to_string()];
    let mut got = fuzzy_indices(&texts, "slc");
    got.sort();
    assert_eq!(got, vec![0, 2]);
    assert_eq!(fuzzy_indices(&texts, "SEL"), vec![2]);
    assert_eq!(fuzzy_indices(&texts, "cls"), Vec::<usize>::new());
}
