use hdt::triples::cache_store::{temp_cache_name, CacheStore, StoreAction, StoreState};

/// Follows a writing in which the given actions fail; the actions that were
/// taken, and what came of them.
fn follow(failing: &[StoreAction]) -> (Vec<StoreAction>, Result<(), String>) {
    let mut store = CacheStore::new("dir/a.tmp", "dir/a");
    let mut actions = Vec::new();
    while let Some(action) = store.action() {
        actions.push(action);
        store = store.reply(if failing.contains(&action) {
            Err("denied".to_owned())
        } else {
            Ok(())
        });
    }
    match store.state {
        StoreState::Done(result) => (actions, result.map_err(|e| e.message())),
        _ => panic!("not done"),
    }
}

#[test]
fn cache_file_replaces_an_old_one() {
    let (actions, result) = follow(&[]);
    assert_eq!(
        actions,
        vec![
            StoreAction::Create,
            StoreAction::Write,
            StoreAction::Sync,
            StoreAction::Rename,
        ]
    );
    assert_eq!(result, Ok(()));
}

#[test]
fn old_cache_file_stays_where_the_new_one_cannot_be_written() {
    for action in [StoreAction::Create, StoreAction::Write, StoreAction::Sync] {
        let (actions, result) = follow(&[action]);
        assert_eq!(actions.last(), Some(&action));
        assert!(!actions.contains(&StoreAction::Rename));
        assert_eq!(result, Err("denied".to_owned()));
    }
}

/// Follows a writing on two paths; what they hold at the end.
fn files(old: Option<&str>, failing: &[StoreAction]) -> (Option<String>, Option<String>) {
    let mut temp: Option<String> = None;
    let mut cache: Option<String> = old.map(str::to_owned);
    let mut store = CacheStore::new("t", "c");
    while let Some(action) = store.action() {
        let fails = failing.contains(&action);
        match action {
            StoreAction::Create if !fails => temp = Some(String::new()),
            StoreAction::Write if fails => temp = Some("ne".to_owned()),
            StoreAction::Write => temp = Some("new".to_owned()),
            StoreAction::Rename if !fails => cache = temp.take(),
            StoreAction::RemoveTemp if !fails => temp = None,
            _ => {}
        }
        assert!(cache.as_deref() == old || cache.as_deref() == Some("new"));
        store = store.reply(if fails { Err("denied".to_owned()) } else { Ok(()) });
    }
    (temp, cache)
}

#[test]
fn cache_file_is_the_old_one_or_the_new_one() {
    let text = |s: &str| Some(s.to_owned());
    for old in [None, Some("old")] {
        assert_eq!(files(old, &[]), (None, text("new")));
        for action in [StoreAction::Create, StoreAction::Write, StoreAction::Sync, StoreAction::Rename] {
            assert_eq!(files(old, &[action]).1.as_deref(), old);
        }
        assert_eq!(files(old, &[StoreAction::Rename]).0, None);
    }
}

#[test]
fn temporary_file_that_cannot_be_moved_is_removed() {
    let (actions, result) = follow(&[StoreAction::Rename, StoreAction::RemoveTemp]);
    assert_eq!(actions.last(), Some(&StoreAction::RemoveTemp));
    assert_eq!(
        result,
        Err("failed to move cache temp file dir/a.tmp to dir/a: denied".to_owned())
    );
}

#[test]
fn temporary_files_are_named_after_process_and_thread() {
    assert_eq!(temp_cache_name(Some("a.cache"), 17, Some("main")), "a.cache.tmp-17-main");
    assert_eq!(temp_cache_name(None, 0, None), "hdt-cache.tmp-0-unnamed");
    assert_ne!(temp_cache_name(Some("a"), 1, Some("1-t")), temp_cache_name(Some("a"), 11, Some("t")));
}
