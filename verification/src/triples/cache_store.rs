//! How a cache file is written: in full under a name of its own, and then moved
//! to where it is looked for, in the place of an old one, so that a reader finds
//! the old one or the new one and never half of one.
//!
//! The files are the caller's: [`CacheStore::action`] says what to do next, and
//! [`CacheStore::reply`] takes what came of it.
use crate::io_error::IoErrorView;
use crate::text::decimal_text;
use crate::triples::cache_load::boxed_io_error;
use crate::triples::hybrid_cache::{HybridCacheError, HybridCacheErrorView};
use vstd::prelude::*;

verus! {

/// The name under which a cache file is written before it takes its own.
pub open spec fn temp_name(file_name: Seq<char>, process: nat, thread: Seq<char>) -> Seq<char> {
    file_name + ".tmp-"@ + crate::text::decimal(process) + "-"@ + thread
}

/// The name under which a cache file is written before it takes its own: one
/// for each process and thread.
pub fn temp_cache_name(file_name: Option<&str>, process: u32, thread: Option<&str>) -> (name: String)
    ensures
        name@ == temp_name(
            match file_name {
                Some(file_name) => file_name@,
                None => "hdt-cache"@,
            },
            process as nat,
            match thread {
                Some(thread) => thread@,
                None => "unnamed"@,
            },
        ),
        name@ == (match file_name {
            Some(file_name) => file_name@,
            None => "hdt-cache"@,
        }) + ".tmp-"@ + crate::text::decimal(process as nat) + "-"@ + (match thread {
            Some(thread) => thread@,
            None => "unnamed"@,
        }),
{
    let mut name = match file_name {
        Some(file_name) => file_name.to_owned(),
        None => "hdt-cache".to_owned(),
    };
    name.append(".tmp-");
    name.append(decimal_text(process as u64).as_str());
    name.append("-");
    match thread {
        Some(thread) => name.append(thread),
        None => name.append("unnamed"),
    }
    name
}

/// Different processes, and different threads by their names, write to
/// different files, and none of these is the cache file.
pub proof fn temp_names_are_apart(
    file_name: Seq<char>,
    process: nat,
    thread: Seq<char>,
    other_process: nat,
    other_thread: Seq<char>,
)
    ensures
        temp_name(file_name, process, thread) == temp_name(file_name, other_process, other_thread)
            ==> process == other_process && thread == other_thread,
        temp_name(file_name, process, thread) != file_name,
{
    let a = crate::text::decimal(process);
    let b = crate::text::decimal(other_process);
    let x = temp_name(file_name, process, thread);
    let y = temp_name(file_name, other_process, other_thread);
    let n = (file_name + ".tmp-"@).len() as int;
    reveal_strlit("-");
    reveal_strlit(".tmp-");
    crate::text::decimal_is_digits(process);
    crate::text::decimal_is_digits(other_process);
    assert(x.len() > file_name.len());
    if x == y {
        assert(x[n + a.len()] == '-');
        assert(y[n + b.len()] == '-');
        if a.len() < b.len() {
            assert(y[n + a.len()] == b[a.len() as int]);
        }
        if b.len() < a.len() {
            assert(x[n + b.len()] == a[b.len() as int]);
        }
        assert(x.subrange(n, n + a.len()) =~= a);
        assert(y.subrange(n, n + b.len()) =~= b);
        let max = if process < other_process {
            other_process
        } else {
            process
        };
        crate::text::decimal_is_read_back(process, max);
        crate::text::decimal_is_read_back(other_process, max);
        assert(x.skip(n + a.len() + 1) =~= thread);
        assert(y.skip(n + b.len() + 1) =~= other_thread);
    }
}

/// What is said where a cache file could not take its name.
pub open spec fn rename_error(
    temp_path: Seq<char>,
    cache_path: Seq<char>,
    cause: Seq<char>,
) -> HybridCacheErrorView {
    HybridCacheErrorView::Io(
        IoErrorView::Other(
            "failed to move cache temp file "@ + temp_path + " to "@ + cache_path + ": "@ + cause,
        ),
    )
}

/// What is said where a cache file could not take its name.
fn make_rename_error(temp_path: &str, cache_path: &str, cause: &str) -> (error: HybridCacheError)
    ensures
        error@ == rename_error(temp_path@, cache_path@, cause@),
{
    let mut text = "failed to move cache temp file ".to_owned();
    text.append(temp_path);
    text.append(" to ");
    text.append(cache_path);
    text.append(": ");
    text.append(cause);
    boxed_io_error(text)
}

/// Where the writing of a cache file has come to.
pub enum StoreState {
    /// The temporary file is to be created.
    Create,
    /// The bytes are to be written to the temporary file.
    Write,
    /// The temporary file is to be brought to the disk.
    Sync,
    /// The temporary file is to be moved to the cache file.
    Rename,
    /// The temporary file is to be removed; why it could not be moved.
    RemoveTemp(String),
    /// Nothing is left to do.
    Done(Result<(), HybridCacheError>),
}

/// The model of [`StoreState`].
pub enum StoreStateView {
    Create,
    Write,
    Sync,
    Rename,
    RemoveTemp(Seq<char>),
    Done(Result<(), HybridCacheErrorView>),
}

impl View for StoreState {
    type V = StoreStateView;

    open spec fn view(&self) -> StoreStateView {
        match self {
            StoreState::Create => StoreStateView::Create,
            StoreState::Write => StoreStateView::Write,
            StoreState::Sync => StoreStateView::Sync,
            StoreState::Rename => StoreStateView::Rename,
            StoreState::RemoveTemp(cause) => StoreStateView::RemoveTemp(cause@),
            StoreState::Done(Ok(_)) => StoreStateView::Done(Ok(())),
            StoreState::Done(Err(e)) => StoreStateView::Done(Err(e@)),
        }
    }
}

/// What is to be done next to write a cache file.
#[derive(Debug, Clone, Copy, PartialEq, Eq, Structural)]
pub enum StoreAction {
    /// Create the temporary file, empty.
    Create,
    /// Write the bytes to the temporary file.
    Write,
    /// Bring the temporary file to the disk.
    Sync,
    /// Move the temporary file to the cache file, in the place of the one that
    /// is there.
    Rename,
    /// Remove the temporary file.
    RemoveTemp,
}

/// What came of an action: whether it succeeded, and why not.
pub type StoreReply = Result<(), String>;

/// The model of [`StoreReply`].
pub type StoreReplyView = Result<(), Seq<char>>;

impl StoreStateView {
    /// What is to be done next.
    pub open spec fn action(self) -> Option<StoreAction> {
        match self {
            StoreStateView::Create => Some(StoreAction::Create),
            StoreStateView::Write => Some(StoreAction::Write),
            StoreStateView::Sync => Some(StoreAction::Sync),
            StoreStateView::Rename => Some(StoreAction::Rename),
            StoreStateView::RemoveTemp(_) => Some(StoreAction::RemoveTemp),
            StoreStateView::Done(_) => None,
        }
    }

    /// Where the writing comes to with a reply. Whether the temporary file could
    /// be removed does not matter.
    pub open spec fn after(
        self,
        reply: StoreReplyView,
        temp_path: Seq<char>,
        cache_path: Seq<char>,
    ) -> StoreStateView {
        match (self, reply) {
            (StoreStateView::Create, Ok(_)) => StoreStateView::Write,
            (StoreStateView::Write, Ok(_)) => StoreStateView::Sync,
            (StoreStateView::Sync, Ok(_)) => StoreStateView::Rename,
            (StoreStateView::Create | StoreStateView::Write | StoreStateView::Sync, Err(cause)) =>
                StoreStateView::Done(Err(HybridCacheErrorView::Io(IoErrorView::Other(cause)))),
            (StoreStateView::Rename, Ok(_)) => StoreStateView::Done(Ok(())),
            (StoreStateView::Rename, Err(cause)) => StoreStateView::RemoveTemp(cause),
            (StoreStateView::RemoveTemp(cause), _) => StoreStateView::Done(
                Err(rename_error(temp_path, cache_path, cause)),
            ),
            (StoreStateView::Done(_), _) => self,
        }
    }

    /// How many actions may still follow.
    pub open spec fn steps_left(self) -> nat {
        match self {
            StoreStateView::Create => 5,
            StoreStateView::Write => 4,
            StoreStateView::Sync => 3,
            StoreStateView::Rename => 2,
            StoreStateView::RemoveTemp(_) => 1,
            StoreStateView::Done(_) => 0,
        }
    }
}

/// The writing of a cache file.
pub struct CacheStore {
    /// The temporary file's path, for what is said of failures.
    pub temp_path: String,
    /// The cache file's path, for what is said of failures.
    pub cache_path: String,
    pub state: StoreState,
}

impl CacheStore {
    /// Begins to write a cache file.
    pub fn new(temp_path: &str, cache_path: &str) -> (store: CacheStore)
        ensures
            store.temp_path@ == temp_path@,
            store.cache_path@ == cache_path@,
            store.state@ == StoreStateView::Create,
    {
        CacheStore {
            temp_path: temp_path.to_owned(),
            cache_path: cache_path.to_owned(),
            state: StoreState::Create,
        }
    }

    /// What is to be done next; `None` where nothing is left.
    pub fn action(&self) -> (action: Option<StoreAction>)
        ensures
            action == self.state@.action(),
    {
        match &self.state {
            StoreState::Create => Some(StoreAction::Create),
            StoreState::Write => Some(StoreAction::Write),
            StoreState::Sync => Some(StoreAction::Sync),
            StoreState::Rename => Some(StoreAction::Rename),
            StoreState::RemoveTemp(_) => Some(StoreAction::RemoveTemp),
            StoreState::Done(_) => None,
        }
    }

    /// Takes what came of the action.
    pub fn reply(self, reply: StoreReply) -> (next: CacheStore)
        ensures
            next.temp_path@ == self.temp_path@,
            next.cache_path@ == self.cache_path@,
            next.state@ == self.state@.after(
                crate::triples::cache_load::cause_view(reply),
                self.temp_path@,
                self.cache_path@,
            ),
    {
        let CacheStore { temp_path, cache_path, state } = self;
        let state = match (state, reply) {
            (StoreState::Create, Ok(_)) => StoreState::Write,
            (StoreState::Write, Ok(_)) => StoreState::Sync,
            (StoreState::Sync, Ok(_)) => StoreState::Rename,
            (StoreState::Create, Err(cause)) => StoreState::Done(Err(boxed_io_error(cause))),
            (StoreState::Write, Err(cause)) => StoreState::Done(Err(boxed_io_error(cause))),
            (StoreState::Sync, Err(cause)) => StoreState::Done(Err(boxed_io_error(cause))),
            (StoreState::Rename, Ok(_)) => StoreState::Done(Ok(())),
            (StoreState::Rename, Err(cause)) => StoreState::RemoveTemp(cause),
            (StoreState::RemoveTemp(cause), _) => StoreState::Done(
                Err(make_rename_error(temp_path.as_str(), cache_path.as_str(), cause.as_str())),
            ),
            (StoreState::Done(result), _) => StoreState::Done(result),
        };
        CacheStore { temp_path, cache_path, state }
    }
}

/// What each action of a writing would meet.
pub struct StoreSurroundings {
    pub create: StoreReplyView,
    pub write: StoreReplyView,
    pub sync: StoreReplyView,
    pub rename: StoreReplyView,
    pub remove_temp: StoreReplyView,
}

impl StoreSurroundings {
    /// What comes of the action that a state asks for.
    pub open spec fn reply(self, state: StoreStateView) -> StoreReplyView {
        match state {
            StoreStateView::Create => self.create,
            StoreStateView::Write => self.write,
            StoreStateView::Sync => self.sync,
            StoreStateView::Rename => self.rename,
            _ => self.remove_temp,
        }
    }

    /// The actions that are taken, from a state on.
    pub open spec fn actions(
        self,
        state: StoreStateView,
        temp_path: Seq<char>,
        cache_path: Seq<char>,
    ) -> Seq<StoreAction>
        decreases state.steps_left(),
    {
        match state.action() {
            None => Seq::empty(),
            Some(action) => seq![action] + self.actions(
                state.after(self.reply(state), temp_path, cache_path),
                temp_path,
                cache_path,
            ),
        }
    }

    /// What a writing comes to, from a state on.
    pub open spec fn followed(
        self,
        state: StoreStateView,
        temp_path: Seq<char>,
        cache_path: Seq<char>,
    ) -> Result<(), HybridCacheErrorView>
        decreases state.steps_left(),
    {
        match state {
            StoreStateView::Done(result) => result,
            _ => self.followed(
                state.after(self.reply(state), temp_path, cache_path),
                temp_path,
                cache_path,
            ),
        }
    }
}

/// A cache file is written where its temporary file can be created, written,
/// brought to the disk and moved. Else the first of these that fails is told.
pub proof fn storing_gives_the_first_failure(
    surroundings: StoreSurroundings,
    temp_path: Seq<char>,
    cache_path: Seq<char>,
)
    ensures
        surroundings.followed(StoreStateView::Create, temp_path, cache_path) == (
        if let Err(cause) = surroundings.create {
            Err(HybridCacheErrorView::Io(IoErrorView::Other(cause)))
        } else if let Err(cause) = surroundings.write {
            Err(HybridCacheErrorView::Io(IoErrorView::Other(cause)))
        } else if let Err(cause) = surroundings.sync {
            Err(HybridCacheErrorView::Io(IoErrorView::Other(cause)))
        } else if let Err(cause) = surroundings.rename {
            Err(rename_error(temp_path, cache_path, cause))
        } else {
            Ok(())
        }),
{
    reveal_with_fuel(StoreSurroundings::followed, 6);
}

/// The cache file is not replaced before all of the new one is on the disk: an
/// old one stays where that fails.
pub proof fn old_cache_stays_until_the_new_one_is_written(
    surroundings: StoreSurroundings,
    temp_path: Seq<char>,
    cache_path: Seq<char>,
)
    requires
        surroundings.create is Err || surroundings.write is Err || surroundings.sync is Err,
    ensures
        !surroundings.actions(StoreStateView::Create, temp_path, cache_path).contains(
            StoreAction::Rename,
        ),
{
    reveal_with_fuel(StoreSurroundings::actions, 5);
}

/// What the two paths of a writing hold; `None` where there is no file.
pub struct Files {
    pub temp: Option<Seq<u8>>,
    pub cache: Option<Seq<u8>>,
}

impl Files {
    /// What the paths hold after an action that came to `reply`, where `new`
    /// are the bytes to be written. An attempt to create or to write the
    /// temporary file that fails leaves `partial` of it.
    pub open spec fn after(
        self,
        action: StoreAction,
        reply: StoreReplyView,
        new: Seq<u8>,
        partial: Option<Seq<u8>>,
    ) -> Files {
        match (action, reply) {
            (StoreAction::Create, Ok(_)) => Files { temp: Some(Seq::empty()), cache: self.cache },
            (StoreAction::Write, Ok(_)) => Files { temp: Some(new), cache: self.cache },
            (StoreAction::Create | StoreAction::Write, Err(_)) => Files {
                temp: partial,
                cache: self.cache,
            },
            (StoreAction::Sync, _) => self,
            (StoreAction::Rename, Ok(_)) => Files { temp: None, cache: self.temp },
            (StoreAction::Rename, Err(_)) => self,
            (StoreAction::RemoveTemp, Ok(_)) => Files { temp: None, cache: self.cache },
            (StoreAction::RemoveTemp, Err(_)) => self,
        }
    }
}

impl StoreSurroundings {
    /// What the paths hold after up to `taken` actions, from a state on.
    pub open spec fn files_after(
        self,
        state: StoreStateView,
        files: Files,
        new: Seq<u8>,
        partial: Option<Seq<u8>>,
        taken: nat,
        temp_path: Seq<char>,
        cache_path: Seq<char>,
    ) -> Files
        decreases taken,
    {
        match state.action() {
            Some(action) if taken > 0 => self.files_after(
                state.after(self.reply(state), temp_path, cache_path),
                files.after(action, self.reply(state), new, partial),
                new,
                partial,
                (taken - 1) as nat,
                temp_path,
                cache_path,
            ),
            _ => files,
        }
    }
}

/// The cache file is replaced at once: after every action it is the old one or
/// all of the new one, and the old one where it could not be replaced. At the
/// end it is the new one where the writing succeeded, and else the old one.
pub proof fn cache_file_is_old_or_new(
    surroundings: StoreSurroundings,
    files: Files,
    new: Seq<u8>,
    partial: Option<Seq<u8>>,
    taken: nat,
    temp_path: Seq<char>,
    cache_path: Seq<char>,
)
    ensures
        ({
            let held = surroundings.files_after(
                StoreStateView::Create,
                files,
                new,
                partial,
                taken,
                temp_path,
                cache_path,
            ).cache;
            let written = surroundings.followed(StoreStateView::Create, temp_path, cache_path) is Ok;
            &&& held == files.cache || held == Some(new)
            &&& surroundings.rename is Err ==> held == files.cache
            &&& taken >= 5 ==> held == if written {
                Some(new)
            } else {
                files.cache
            }
        }),
{
    reveal_with_fuel(StoreSurroundings::followed, 6);
    reveal_with_fuel(StoreSurroundings::files_after, 6);
}

/// A temporary file that could not be moved is removed.
pub proof fn no_temporary_file_is_left_by_a_failed_move(
    surroundings: StoreSurroundings,
    temp_path: Seq<char>,
    cache_path: Seq<char>,
)
    requires
        surroundings.create is Ok,
        surroundings.write is Ok,
        surroundings.sync is Ok,
        surroundings.rename is Err,
    ensures
        surroundings.actions(StoreStateView::Create, temp_path, cache_path).len() > 0,
        surroundings.actions(StoreStateView::Create, temp_path, cache_path).last()
            == StoreAction::RemoveTemp,
{
    reveal_with_fuel(StoreSurroundings::actions, 6);
}

/// Which state follows on which reply, and what each asks for.
pub proof fn each_store_reply_leads_on(
    reply: StoreReplyView,
    result: Result<(), HybridCacheErrorView>,
    cause: Seq<char>,
    why: Seq<char>,
    t: Seq<char>,
    c: Seq<char>,
)
    ensures
        StoreStateView::Create.action() == Some(StoreAction::Create),
        StoreStateView::Write.action() == Some(StoreAction::Write),
        StoreStateView::Sync.action() == Some(StoreAction::Sync),
        StoreStateView::Rename.action() == Some(StoreAction::Rename),
        StoreStateView::RemoveTemp(cause).action() == Some(StoreAction::RemoveTemp),
        StoreStateView::Done(result).action() is None,
        StoreStateView::Create.after(Ok(()), t, c) == StoreStateView::Write,
        StoreStateView::Write.after(Ok(()), t, c) == StoreStateView::Sync,
        StoreStateView::Sync.after(Ok(()), t, c) == StoreStateView::Rename,
        StoreStateView::Rename.after(Ok(()), t, c) == StoreStateView::Done(Ok(())),
        StoreStateView::Create.after(Err(cause), t, c) == StoreStateView::Done(
            Err(HybridCacheErrorView::Io(IoErrorView::Other(cause))),
        ),
        StoreStateView::Write.after(Err(cause), t, c) == StoreStateView::Done(
            Err(HybridCacheErrorView::Io(IoErrorView::Other(cause))),
        ),
        StoreStateView::Sync.after(Err(cause), t, c) == StoreStateView::Done(
            Err(HybridCacheErrorView::Io(IoErrorView::Other(cause))),
        ),
        StoreStateView::Rename.after(Err(cause), t, c) == StoreStateView::RemoveTemp(cause),
        StoreStateView::RemoveTemp(cause).after(reply, t, c) == StoreStateView::Done(
            Err(
                HybridCacheErrorView::Io(
                    IoErrorView::Other(
                        "failed to move cache temp file "@ + t + " to "@ + c + ": "@ + cause,
                    ),
                ),
            ),
        ),
        StoreStateView::Done(result).after(reply, t, c) == StoreStateView::Done(result),
{
}

/// The models of states and replies hold what these hold.
pub proof fn store_models_hold_the_same(state: StoreState, reply: StoreReply)
    ensures
        match state {
            StoreState::Create => state@ == StoreStateView::Create,
            StoreState::Write => state@ == StoreStateView::Write,
            StoreState::Sync => state@ == StoreStateView::Sync,
            StoreState::Rename => state@ == StoreStateView::Rename,
            StoreState::RemoveTemp(cause) => state@ == StoreStateView::RemoveTemp(cause@),
            StoreState::Done(Ok(_)) => state@ == StoreStateView::Done(Ok(())),
            StoreState::Done(Err(e)) => state@ == StoreStateView::Done(Err(e@)),
        },
        match reply {
            Ok(_) => crate::triples::cache_load::cause_view(reply) == Ok::<(), Seq<char>>(()),
            Err(cause) => crate::triples::cache_load::cause_view(reply) == Err::<(), Seq<char>>(
                cause@,
            ),
        },
{
}

} // verus!
