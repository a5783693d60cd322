use hdt::triples::cache_load::{
    boxed_io_error, cache_lock_file_path, canonical_hdt_path, open_cache_lock_file,
    unlock_cache_lock, Action, CacheLoad, LoadState, LockMode, Reply, LOCK_DIRECTORY,
};
use hdt::triples::hybrid_cache::{HybridCache, HybridCacheError};

fn start() -> CacheLoad<u32> {
    HybridCache::from_hdt_path("data/a.hdt", "/tmp/a.lock")
}

fn failure() -> HybridCacheError {
    HybridCacheError::Other("torn".to_owned())
}

/// Follows a loading with the given replies; the actions that it asked for.
fn follow(replies: Vec<Reply<u32>>) -> (Vec<Action>, CacheLoad<u32>) {
    let mut load = start();
    let mut actions = Vec::new();
    for reply in replies {
        actions.push(load.action().unwrap());
        load = load.reply(reply);
    }
    (actions, load)
}

fn result(load: CacheLoad<u32>) -> Result<u32, String> {
    assert_eq!(load.action(), None);
    match load.state {
        LoadState::Done(result) => result.map_err(|e| e.message()),
        _ => panic!("not done"),
    }
}

#[test]
fn readable_cache_is_returned_under_the_shared_lock() {
    let (actions, load) = follow(vec![
        Reply::Locked(Ok(())),
        Reply::Found(true),
        Reply::Read(Ok(7)),
        Reply::Released(Ok(())),
    ]);
    assert_eq!(
        actions,
        vec![
            Action::Lock(LockMode::Shared),
            Action::Find,
            Action::Read,
            Action::Release(LockMode::Shared),
        ]
    );
    assert_eq!(result(load), Ok(7));
}

#[test]
fn missing_cache_is_generated_under_the_exclusive_lock() {
    let (actions, load) = follow(vec![
        Reply::Locked(Ok(())),
        Reply::Found(false),
        Reply::Released(Ok(())),
        Reply::Locked(Ok(())),
        Reply::Found(false),
        Reply::Generated(Ok(8)),
        Reply::Released(Ok(())),
    ]);
    assert_eq!(
        actions,
        vec![
            Action::Lock(LockMode::Shared),
            Action::Find,
            Action::Release(LockMode::Shared),
            Action::Lock(LockMode::Exclusive),
            Action::Find,
            Action::Generate,
            Action::Release(LockMode::Exclusive),
        ]
    );
    assert_eq!(result(load), Ok(8));
}

#[test]
fn unreadable_cache_takes_nine_steps() {
    let (actions, load) = follow(vec![
        Reply::Locked(Ok(())),
        Reply::Found(true),
        Reply::Read(Err(failure())),
        Reply::Released(Ok(())),
        Reply::Locked(Ok(())),
        Reply::Found(true),
        Reply::Read(Err(failure())),
        Reply::Generated(Err(HybridCacheError::EmptyHdt)),
        Reply::Released(Ok(())),
    ]);
    assert_eq!(actions.len(), 9);
    assert_eq!(actions[7], Action::Generate);
    assert_eq!(result(load), Err("HDT file contains no triples".to_owned()));
}

#[test]
fn cache_that_another_made_meanwhile_is_read() {
    let (_, load) = follow(vec![
        Reply::Locked(Ok(())),
        Reply::Found(false),
        Reply::Released(Ok(())),
        Reply::Locked(Ok(())),
        Reply::Found(true),
        Reply::Read(Ok(9)),
        Reply::Released(Ok(())),
    ]);
    assert_eq!(result(load), Ok(9));
}

#[test]
fn locks_that_cannot_be_acquired() {
    let (_, load) = follow(vec![Reply::Locked(Err("busy".to_owned()))]);
    assert_eq!(
        result(load),
        Err("failed to acquire shared cache lock /tmp/a.lock for data/a.hdt: busy".to_owned())
    );
    let (_, load) = follow(vec![
        Reply::Locked(Ok(())),
        Reply::Found(false),
        Reply::Released(Ok(())),
        Reply::Locked(Err("busy".to_owned())),
    ]);
    assert_eq!(
        result(load),
        Err("failed to acquire exclusive cache lock /tmp/a.lock for data/a.hdt: busy".to_owned())
    );
}

#[test]
fn locks_that_cannot_be_released() {
    let (_, load) = follow(vec![
        Reply::Locked(Ok(())),
        Reply::Found(true),
        Reply::Read(Ok(7)),
        Reply::Released(Err("gone".to_owned())),
    ]);
    assert_eq!(
        result(load),
        Err("failed to release shared cache lock /tmp/a.lock for data/a.hdt: gone".to_owned())
    );
    let (_, load) = follow(vec![
        Reply::Locked(Ok(())),
        Reply::Found(false),
        Reply::Released(Ok(())),
        Reply::Locked(Ok(())),
        Reply::Found(false),
        Reply::Generated(Ok(8)),
        Reply::Released(Err("gone".to_owned())),
    ]);
    assert_eq!(
        result(load),
        Err("failed to release exclusive cache lock /tmp/a.lock for data/a.hdt: gone".to_owned())
    );
}

#[test]
fn reply_to_another_action_changes_nothing() {
    let load = start().reply(Reply::Found(true));
    assert_eq!(load.action(), Some(Action::Lock(LockMode::Shared)));
    assert_eq!(load.lock_path, "/tmp/a.lock");
    assert_eq!(load.hdt_path, "data/a.hdt");
}

#[test]
fn paths_and_lock_files() {
    assert_eq!(LOCK_DIRECTORY, "hdt-hybrid-cache-locks");
    assert_eq!(canonical_hdt_path("a", Ok(5)).ok(), Some(5));
    assert_eq!(
        canonical_hdt_path::<u8>("a.hdt", Err("no such file".to_owned())).unwrap_err().message(),
        "failed to canonicalize HDT path a.hdt: no such file"
    );
    assert_eq!(
        cache_lock_file_path("/tmp/locks", Ok(()), 0xab).ok(),
        Some("hdt-hybrid-cache-00000000000000ab.lock".to_owned())
    );
    assert_eq!(
        cache_lock_file_path("/tmp/locks", Err("denied".to_owned()), 0).unwrap_err().message(),
        "failed to create cache lock directory /tmp/locks: denied"
    );
    assert_eq!(open_cache_lock_file("l", Ok('f')).ok(), Some('f'));
    assert_eq!(
        open_cache_lock_file::<u8>("l", Err("denied".to_owned())).unwrap_err().message(),
        "failed to open cache lock file l: denied"
    );
    assert!(unlock_cache_lock("l", "h", LockMode::Shared, Ok(())).is_ok());
    assert_eq!(boxed_io_error("words".to_owned()).message(), "words");
}
