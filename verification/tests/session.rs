use ghreview::session::stale_session_pid;

#[test]
fn only_other_process_ids_name_stale_sessions() {
    let alive = |pid: u32| pid == 20;
    let removed: Vec<&str> = ["10", "20", "30", "not-a-pid"]
        .into_iter()
        .filter(|name| stale_session_pid(name, 10).is_some_and(|pid| !alive(pid)))
        .collect();
    assert_eq!(removed, vec!["30"]);
    assert_eq!(stale_session_pid("10", 10), None);
    assert_eq!(stale_session_pid("20", 10), Some(20));
    assert_eq!(stale_session_pid("not-a-pid", 10), None);
}

#[test]
fn process_ids_read_as_u32() {
    assert_eq!(stale_session_pid("4294967295", 1), Some(u32::MAX));
    assert_eq!(stale_session_pid("4294967296", 1), None);
    assert_eq!(stale_session_pid("+7", 1), Some(7));
    assert_eq!(stale_session_pid("007", 1), Some(7));
    assert_eq!(stale_session_pid("", 1), None);
    assert_eq!(stale_session_pid("-1", 1), None);
    assert_eq!(stale_session_pid(" 7", 1), None);
}

#[test]
fn generations_count_up_with_their_own_directories() {
    let (first, first_dir) = ghreview::session::next_generation(0);
    let (second, second_dir) = ghreview::session::next_generation(first);
    assert_eq!((first, first_dir.as_str()), (1, "1"));
    assert_eq!((second, second_dir.as_str()), (2, "2"));
    assert_eq!(ghreview::session::next_generation(u64::MAX - 1).1, "18446744073709551615");
}
