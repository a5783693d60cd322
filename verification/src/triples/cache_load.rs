//! How a cache is loaded: under a shared lock where a readable cache file is
//! there, else generated under an exclusive lock, so that of several processes
//! one generates it and the others wait and read.
//!
//! The files and locks are the caller's: [`CacheLoad::action`] says what to do
//! next, and [`CacheLoad::reply`] takes what came of it.
use crate::containers::control_info::ControlType;
use crate::io_error::{IoError, IoErrorView};
use crate::text::hexadecimal_text;
use crate::triples::hybrid_cache::{
    HybridCache, HybridCacheError, HybridCacheErrorView, HybridCacheView, CACHE_FORMAT,
};
use vstd::prelude::*;

verus! {

/// The name of the directory, among the system's temporary files, that holds
/// the lock files.
pub const LOCK_DIRECTORY: &'static str = "hdt-hybrid-cache-locks";

/// What a failure of the file system or of a lock becomes.
pub fn boxed_io_error(message: String) -> (error: HybridCacheError)
    ensures
        error@ == HybridCacheErrorView::Io(IoErrorView::Other(message@)),
{
    HybridCacheError::Io(IoError::Other(message))
}

/// The canonical path of an HDT file, from what resolving `path` gave.
pub fn canonical_hdt_path<T>(path: &str, resolved: Result<T, String>) -> (canonical: Result<
    T,
    HybridCacheError,
>)
    ensures
        match resolved {
            Ok(p) => canonical == Ok::<T, HybridCacheError>(p),
            Err(cause) => canonical matches Err(e) && e@ == HybridCacheErrorView::Io(
                IoErrorView::Other(
                    "failed to canonicalize HDT path "@ + path@ + ": "@ + cause@,
                ),
            ),
        },
{
    match resolved {
        Ok(p) => Ok(p),
        Err(cause) => {
            let mut text = "failed to canonicalize HDT path ".to_owned();
            text.append(path);
            text.append(": ");
            text.append(cause.as_str());
            Err(boxed_io_error(text))
        },
    }
}

/// The name of the lock file of an HDT file, by the hash of its canonical path.
pub open spec fn lock_file_name(hash: u64) -> Seq<char> {
    "hdt-hybrid-cache-"@ + crate::text::hexadecimal(hash as nat, 16) + ".lock"@
}

/// The name of the lock file of an HDT file, by the hash of its canonical
/// path, from what creating the directory `lock_root` gave.
pub fn cache_lock_file_path(lock_root: &str, created: Result<(), String>, hash: u64) -> (name: Result<
    String,
    HybridCacheError,
>)
    ensures
        match created {
            Ok(_) => name matches Ok(name) && name@ == lock_file_name(hash) && name@
                == "hdt-hybrid-cache-"@ + crate::text::hexadecimal(hash as nat, 16) + ".lock"@,
            Err(cause) => name matches Err(e) && e@ == HybridCacheErrorView::Io(
                IoErrorView::Other(
                    "failed to create cache lock directory "@ + lock_root@ + ": "@ + cause@,
                ),
            ),
        },
{
    match created {
        Ok(_) => {
            let mut name = "hdt-hybrid-cache-".to_owned();
            name.append(hexadecimal_text(hash, 16).as_str());
            name.append(".lock");
            Ok(name)
        },
        Err(cause) => {
            let mut text = "failed to create cache lock directory ".to_owned();
            text.append(lock_root);
            text.append(": ");
            text.append(cause.as_str());
            Err(boxed_io_error(text))
        },
    }
}

/// Paths with different hashes have different lock files.
pub proof fn different_hashes_have_different_locks(a: u64, b: u64)
    requires
        a != b,
    ensures
        lock_file_name(a) != lock_file_name(b),
{
    let before = "hdt-hybrid-cache-"@;
    let x = crate::text::hexadecimal(a as nat, 16);
    let y = crate::text::hexadecimal(b as nat, 16);
    if lock_file_name(a) == lock_file_name(b) {
        let n = before.len() as int;
        assert(lock_file_name(a).len() == n + x.len() + ".lock"@.len());
        assert(lock_file_name(b).len() == n + y.len() + ".lock"@.len());
        assert(lock_file_name(a).subrange(n, n + x.len()) =~= x);
        assert(lock_file_name(b).subrange(n, n + x.len()) =~= y);
        crate::text::word_fits_hexadecimal(a);
        crate::text::word_fits_hexadecimal(b);
        crate::text::hexadecimal_tells_apart(a as nat, b as nat, 16);
    }
}

/// The lock file, from what opening `lock_path` gave.
pub fn open_cache_lock_file<T>(lock_path: &str, opened: Result<T, String>) -> (file: Result<
    T,
    HybridCacheError,
>)
    ensures
        match opened {
            Ok(f) => file == Ok::<T, HybridCacheError>(f),
            Err(cause) => file matches Err(e) && e@ == HybridCacheErrorView::Io(
                IoErrorView::Other(
                    "failed to open cache lock file "@ + lock_path@ + ": "@ + cause@,
                ),
            ),
        },
{
    match opened {
        Ok(f) => Ok(f),
        Err(cause) => {
            let mut text = "failed to open cache lock file ".to_owned();
            text.append(lock_path);
            text.append(": ");
            text.append(cause.as_str());
            Err(boxed_io_error(text))
        },
    }
}

/// How a lock is held.
#[derive(Debug, Clone, Copy, PartialEq, Eq, Structural)]
pub enum LockMode {
    /// With other readers.
    Shared,
    /// Alone.
    Exclusive,
}

impl LockMode {
    pub open spec fn spec_name(self) -> Seq<char> {
        match self {
            LockMode::Shared => "shared"@,
            LockMode::Exclusive => "exclusive"@,
        }
    }

    pub fn name(&self) -> (name: &'static str)
        ensures
            name@ == self.spec_name(),
            match self {
                LockMode::Shared => name@ == "shared"@,
                LockMode::Exclusive => name@ == "exclusive"@,
            },
    {
        match self {
            LockMode::Shared => "shared",
            LockMode::Exclusive => "exclusive",
        }
    }
}

/// What is said of a lock that could not be acquired or released.
pub open spec fn lock_error(
    verb: Seq<char>,
    mode: LockMode,
    lock_path: Seq<char>,
    hdt_path: Seq<char>,
    cause: Seq<char>,
) -> HybridCacheErrorView {
    HybridCacheErrorView::Io(
        IoErrorView::Other(
            "failed to "@ + verb + " "@ + mode.spec_name() + " cache lock "@ + lock_path + " for "@
                + hdt_path + ": "@ + cause,
        ),
    )
}

/// What is said of a lock that could not be acquired or released.
fn make_lock_error(verb: &str, mode: LockMode, lock_path: &str, hdt_path: &str, cause: &str) -> (error:
    HybridCacheError)
    ensures
        error@ == lock_error(verb@, mode, lock_path@, hdt_path@, cause@),
{
    let mut text = "failed to ".to_owned();
    text.append(verb);
    text.append(" ");
    text.append(mode.name());
    text.append(" cache lock ");
    text.append(lock_path);
    text.append(" for ");
    text.append(hdt_path);
    text.append(": ");
    text.append(cause);
    boxed_io_error(text)
}

/// What is said of a lock tells which lock it is, of which HDT file, and why it
/// failed.
pub proof fn lock_errors_say_what_failed(
    mode: LockMode,
    lock_path: Seq<char>,
    hdt_path: Seq<char>,
    cause: Seq<char>,
)
    ensures
        lock_error("acquire"@, mode, lock_path, hdt_path, cause).message() == "failed to acquire "@
            + mode.spec_name() + " cache lock "@ + lock_path + " for "@ + hdt_path + ": "@ + cause,
        lock_error("release"@, mode, lock_path, hdt_path, cause).message() == "failed to release "@
            + mode.spec_name() + " cache lock "@ + lock_path + " for "@ + hdt_path + ": "@ + cause,
        lock_error("acquire"@, mode, lock_path, hdt_path, cause) is Io,
        lock_error("release"@, mode, lock_path, hdt_path, cause) is Io,
{
    reveal_strlit("failed to ");
    reveal_strlit("acquire");
    reveal_strlit("release");
    reveal_strlit(" ");
    reveal_strlit("failed to acquire ");
    reveal_strlit("failed to release ");
    assert("failed to "@ + "acquire"@ + " "@ =~= "failed to acquire "@);
    assert("failed to "@ + "release"@ + " "@ =~= "failed to release "@);
}

/// What came of releasing a lock.
pub fn unlock_cache_lock(
    lock_path: &str,
    hdt_path: &str,
    mode: LockMode,
    released: Result<(), String>,
) -> (unlocked: Result<(), HybridCacheError>)
    ensures
        match released {
            Ok(_) => unlocked is Ok,
            Err(cause) => unlocked matches Err(e) && e@ == lock_error(
                "release"@,
                mode,
                lock_path@,
                hdt_path@,
                cause@,
            ) && e@.message() == "failed to release "@ + mode.spec_name() + " cache lock "@ + lock_path@
                + " for "@ + hdt_path@ + ": "@ + cause@,
        },
{
    match released {
        Ok(_) => Ok(()),
        Err(cause) => {
            proof {
                lock_errors_say_what_failed(mode, lock_path@, hdt_path@, cause@);
            }
            Err(make_lock_error("release", mode, lock_path, hdt_path, cause.as_str()))
        },
    }
}

/// Where the loading of a cache has come to.
pub enum LoadState<T> {
    /// The shared lock is to be acquired.
    LockShared,
    /// Under the shared lock, the cache file is to be looked for.
    FindShared,
    /// Under the shared lock, the cache file is to be read.
    ReadShared,
    /// The shared lock is to be released; what was read, if anything.
    ReleaseShared(Option<T>),
    /// The exclusive lock is to be acquired.
    LockExclusive,
    /// Under the exclusive lock, the cache file is to be looked for again.
    FindExclusive,
    /// Under the exclusive lock, the cache file is to be read.
    ReadExclusive,
    /// Under the exclusive lock, the cache is to be generated.
    Generate,
    /// The exclusive lock is to be released; what was read or generated.
    ReleaseExclusive(Result<T, HybridCacheError>),
    /// Nothing is left to do.
    Done(Result<T, HybridCacheError>),
}

/// The model of [`LoadState`].
pub enum LoadStateView<T> {
    LockShared,
    FindShared,
    ReadShared,
    ReleaseShared(Option<T>),
    LockExclusive,
    FindExclusive,
    ReadExclusive,
    Generate,
    ReleaseExclusive(Result<T, HybridCacheErrorView>),
    Done(Result<T, HybridCacheErrorView>),
}

/// The model of what was read or generated.
pub open spec fn result_view<T>(result: Result<T, HybridCacheError>) -> Result<
    T,
    HybridCacheErrorView,
> {
    match result {
        Ok(v) => Ok(v),
        Err(e) => Err(e@),
    }
}

/// The model of what came of a call that gives nothing back.
pub open spec fn cause_view(result: Result<(), String>) -> Result<(), Seq<char>> {
    match result {
        Ok(_) => Ok(()),
        Err(cause) => Err(cause@),
    }
}

impl<T> View for LoadState<T> {
    type V = LoadStateView<T>;

    open spec fn view(&self) -> LoadStateView<T> {
        match self {
            LoadState::LockShared => LoadStateView::LockShared,
            LoadState::FindShared => LoadStateView::FindShared,
            LoadState::ReadShared => LoadStateView::ReadShared,
            LoadState::ReleaseShared(found) => LoadStateView::ReleaseShared(*found),
            LoadState::LockExclusive => LoadStateView::LockExclusive,
            LoadState::FindExclusive => LoadStateView::FindExclusive,
            LoadState::ReadExclusive => LoadStateView::ReadExclusive,
            LoadState::Generate => LoadStateView::Generate,
            LoadState::ReleaseExclusive(result) => LoadStateView::ReleaseExclusive(
                result_view(*result),
            ),
            LoadState::Done(result) => LoadStateView::Done(result_view(*result)),
        }
    }
}

/// What is to be done next.
#[derive(Debug, Clone, Copy, PartialEq, Eq, Structural)]
pub enum Action {
    /// Acquire the lock.
    Lock(LockMode),
    /// Look whether the cache file exists.
    Find,
    /// Read the cache file.
    Read,
    /// Generate the cache and write the cache file.
    Generate,
    /// Release the lock.
    Release(LockMode),
}

/// What came of an action.
pub enum Reply<T> {
    /// The lock was acquired, or not, and why.
    Locked(Result<(), String>),
    /// Whether the cache file exists.
    Found(bool),
    /// What was read.
    Read(Result<T, HybridCacheError>),
    /// What was generated.
    Generated(Result<T, HybridCacheError>),
    /// The lock was released, or not, and why.
    Released(Result<(), String>),
}

/// The model of [`Reply`].
pub enum ReplyView<T> {
    Locked(Result<(), Seq<char>>),
    Found(bool),
    Read(Result<T, HybridCacheErrorView>),
    Generated(Result<T, HybridCacheErrorView>),
    Released(Result<(), Seq<char>>),
}

impl<T> View for Reply<T> {
    type V = ReplyView<T>;

    open spec fn view(&self) -> ReplyView<T> {
        match self {
            Reply::Locked(result) => ReplyView::Locked(cause_view(*result)),
            Reply::Found(there) => ReplyView::Found(*there),
            Reply::Read(result) => ReplyView::Read(result_view(*result)),
            Reply::Generated(result) => ReplyView::Generated(result_view(*result)),
            Reply::Released(result) => ReplyView::Released(cause_view(*result)),
        }
    }
}

impl<T> LoadStateView<T> {
    /// What is to be done next.
    pub open spec fn action(self) -> Option<Action> {
        match self {
            LoadStateView::LockShared => Some(Action::Lock(LockMode::Shared)),
            LoadStateView::FindShared => Some(Action::Find),
            LoadStateView::ReadShared => Some(Action::Read),
            LoadStateView::ReleaseShared(_) => Some(Action::Release(LockMode::Shared)),
            LoadStateView::LockExclusive => Some(Action::Lock(LockMode::Exclusive)),
            LoadStateView::FindExclusive => Some(Action::Find),
            LoadStateView::ReadExclusive => Some(Action::Read),
            LoadStateView::Generate => Some(Action::Generate),
            LoadStateView::ReleaseExclusive(_) => Some(Action::Release(LockMode::Exclusive)),
            LoadStateView::Done(_) => None,
        }
    }

    /// The lock that is held.
    pub open spec fn held(self) -> Option<LockMode> {
        match self {
            LoadStateView::FindShared => Some(LockMode::Shared),
            LoadStateView::ReadShared => Some(LockMode::Shared),
            LoadStateView::ReleaseShared(_) => Some(LockMode::Shared),
            LoadStateView::FindExclusive => Some(LockMode::Exclusive),
            LoadStateView::ReadExclusive => Some(LockMode::Exclusive),
            LoadStateView::Generate => Some(LockMode::Exclusive),
            LoadStateView::ReleaseExclusive(_) => Some(LockMode::Exclusive),
            _ => None,
        }
    }

    /// How many actions may still follow.
    pub open spec fn steps_left(self) -> nat {
        match self {
            LoadStateView::LockShared => 9,
            LoadStateView::FindShared => 8,
            LoadStateView::ReadShared => 7,
            LoadStateView::ReleaseShared(_) => 6,
            LoadStateView::LockExclusive => 5,
            LoadStateView::FindExclusive => 4,
            LoadStateView::ReadExclusive => 3,
            LoadStateView::Generate => 2,
            LoadStateView::ReleaseExclusive(_) => 1,
            LoadStateView::Done(_) => 0,
        }
    }

    /// Where the loading comes to with a reply.
    pub open spec fn after(
        self,
        reply: ReplyView<T>,
        lock_path: Seq<char>,
        hdt_path: Seq<char>,
    ) -> LoadStateView<T> {
        match (self, reply) {
            (LoadStateView::LockShared, ReplyView::Locked(Ok(_))) => LoadStateView::FindShared,
            (LoadStateView::LockShared, ReplyView::Locked(Err(cause))) => LoadStateView::Done(
                Err(lock_error("acquire"@, LockMode::Shared, lock_path, hdt_path, cause)),
            ),
            (LoadStateView::FindShared, ReplyView::Found(there)) => if there {
                LoadStateView::ReadShared
            } else {
                LoadStateView::ReleaseShared(None)
            },
            (LoadStateView::ReadShared, ReplyView::Read(Ok(v))) => LoadStateView::ReleaseShared(
                Some(v),
            ),
            (LoadStateView::ReadShared, ReplyView::Read(Err(_))) => LoadStateView::ReleaseShared(
                None,
            ),
            (LoadStateView::ReleaseShared(found), ReplyView::Released(Ok(_))) => match found {
                Some(v) => LoadStateView::Done(Ok(v)),
                None => LoadStateView::LockExclusive,
            },
            (LoadStateView::ReleaseShared(_), ReplyView::Released(Err(cause))) =>
                LoadStateView::Done(
                Err(lock_error("release"@, LockMode::Shared, lock_path, hdt_path, cause)),
            ),
            (LoadStateView::LockExclusive, ReplyView::Locked(Ok(_))) =>
                LoadStateView::FindExclusive,
            (LoadStateView::LockExclusive, ReplyView::Locked(Err(cause))) => LoadStateView::Done(
                Err(lock_error("acquire"@, LockMode::Exclusive, lock_path, hdt_path, cause)),
            ),
            (LoadStateView::FindExclusive, ReplyView::Found(there)) => if there {
                LoadStateView::ReadExclusive
            } else {
                LoadStateView::Generate
            },
            (LoadStateView::ReadExclusive, ReplyView::Read(Ok(v))) =>
                LoadStateView::ReleaseExclusive(Ok(v)),
            (LoadStateView::ReadExclusive, ReplyView::Read(Err(_))) => LoadStateView::Generate,
            (LoadStateView::Generate, ReplyView::Generated(result)) =>
                LoadStateView::ReleaseExclusive(result),
            (LoadStateView::ReleaseExclusive(result), ReplyView::Released(Ok(_))) =>
                LoadStateView::Done(result),
            (LoadStateView::ReleaseExclusive(_), ReplyView::Released(Err(cause))) =>
                LoadStateView::Done(
                Err(lock_error("release"@, LockMode::Exclusive, lock_path, hdt_path, cause)),
            ),
            _ => self,
        }
    }
}

/// Whether a reply is one to an action.
pub open spec fn answers<T>(action: Option<Action>, reply: ReplyView<T>) -> bool {
    match action {
        Some(Action::Lock(_)) => reply is Locked,
        Some(Action::Find) => reply is Found,
        Some(Action::Read) => reply is Read,
        Some(Action::Generate) => reply is Generated,
        Some(Action::Release(_)) => reply is Released,
        None => false,
    }
}

/// The loading of a cache.
pub struct CacheLoad<T> {
    /// The lock file's path, for what is said of failures.
    pub lock_path: String,
    /// The HDT file's path, for what is said of failures.
    pub hdt_path: String,
    pub state: LoadState<T>,
}

impl HybridCache {
    /// Begins to load a cache, or to generate it where there is none.
    pub fn from_hdt_path<T>(hdt_path: &str, lock_path: &str) -> (load: CacheLoad<T>)
        ensures
            load.hdt_path@ == hdt_path@,
            load.lock_path@ == lock_path@,
            load.state@ == LoadStateView::<T>::LockShared,
    {
        CacheLoad {
            lock_path: lock_path.to_owned(),
            hdt_path: hdt_path.to_owned(),
            state: LoadState::LockShared,
        }
    }
}

impl<T> CacheLoad<T> {
    /// What is to be done next; `None` where nothing is left.
    pub fn action(&self) -> (action: Option<Action>)
        ensures
            action == self.state@.action(),
    {
        match &self.state {
            LoadState::LockShared => Some(Action::Lock(LockMode::Shared)),
            LoadState::FindShared => Some(Action::Find),
            LoadState::ReadShared => Some(Action::Read),
            LoadState::ReleaseShared(_) => Some(Action::Release(LockMode::Shared)),
            LoadState::LockExclusive => Some(Action::Lock(LockMode::Exclusive)),
            LoadState::FindExclusive => Some(Action::Find),
            LoadState::ReadExclusive => Some(Action::Read),
            LoadState::Generate => Some(Action::Generate),
            LoadState::ReleaseExclusive(_) => Some(Action::Release(LockMode::Exclusive)),
            LoadState::Done(_) => None,
        }
    }

    /// Takes what came of the action. A reply to another action changes nothing.
    pub fn reply(self, reply: Reply<T>) -> (next: CacheLoad<T>)
        ensures
            next.lock_path@ == self.lock_path@,
            next.hdt_path@ == self.hdt_path@,
            next.state@ == self.state@.after(reply@, self.lock_path@, self.hdt_path@),
    {
        let CacheLoad { lock_path, hdt_path, state } = self;
        let state = match (state, reply) {
            (LoadState::LockShared, Reply::Locked(Ok(_))) => LoadState::FindShared,
            (LoadState::LockShared, Reply::Locked(Err(cause))) => LoadState::Done(
                Err(
                    make_lock_error(
                        "acquire",
                        LockMode::Shared,
                        lock_path.as_str(),
                        hdt_path.as_str(),
                        cause.as_str(),
                    ),
                ),
            ),
            (LoadState::FindShared, Reply::Found(there)) => if there {
                LoadState::ReadShared
            } else {
                LoadState::ReleaseShared(None)
            },
            (LoadState::ReadShared, Reply::Read(Ok(v))) => LoadState::ReleaseShared(Some(v)),
            (LoadState::ReadShared, Reply::Read(Err(_))) => LoadState::ReleaseShared(None),
            (LoadState::ReleaseShared(found), Reply::Released(released)) => {
                match unlock_cache_lock(
                    lock_path.as_str(),
                    hdt_path.as_str(),
                    LockMode::Shared,
                    released,
                ) {
                    Ok(_) => match found {
                        Some(v) => LoadState::Done(Ok(v)),
                        None => LoadState::LockExclusive,
                    },
                    Err(e) => LoadState::Done(Err(e)),
                }
            },
            (LoadState::LockExclusive, Reply::Locked(Ok(_))) => LoadState::FindExclusive,
            (LoadState::LockExclusive, Reply::Locked(Err(cause))) => LoadState::Done(
                Err(
                    make_lock_error(
                        "acquire",
                        LockMode::Exclusive,
                        lock_path.as_str(),
                        hdt_path.as_str(),
                        cause.as_str(),
                    ),
                ),
            ),
            (LoadState::FindExclusive, Reply::Found(there)) => if there {
                LoadState::ReadExclusive
            } else {
                LoadState::Generate
            },
            (LoadState::ReadExclusive, Reply::Read(Ok(v))) => LoadState::ReleaseExclusive(Ok(v)),
            (LoadState::ReadExclusive, Reply::Read(Err(_))) => LoadState::Generate,
            (LoadState::Generate, Reply::Generated(result)) => LoadState::ReleaseExclusive(result),
            (LoadState::ReleaseExclusive(result), Reply::Released(released)) => {
                match unlock_cache_lock(
                    lock_path.as_str(),
                    hdt_path.as_str(),
                    LockMode::Exclusive,
                    released,
                ) {
                    Ok(_) => LoadState::Done(result),
                    Err(e) => LoadState::Done(Err(e)),
                }
            },
            (state, _) => state,
        };
        CacheLoad { lock_path, hdt_path, state }
    }
}

/// Locks are acquired where none is held and released where they are held, and
/// nothing else changes what is held. A lock that could not be acquired ends
/// the loading with nothing held.
pub proof fn locks_are_paired<T>(
    state: LoadStateView<T>,
    reply: ReplyView<T>,
    lock_path: Seq<char>,
    hdt_path: Seq<char>,
)
    requires
        answers(state.action(), reply),
    ensures
        match (state.action(), reply) {
            (Some(Action::Lock(mode)), ReplyView::Locked(Ok(_))) => state.held() is None
                && state.after(reply, lock_path, hdt_path).held() == Some(mode),
            (Some(Action::Lock(mode)), _) => state.held() is None && state.after(
                reply,
                lock_path,
                hdt_path,
            ) is Done,
            (Some(Action::Release(mode)), ReplyView::Released(Ok(_))) => state.held() == Some(mode)
                && state.after(reply, lock_path, hdt_path).held() is None,
            (Some(Action::Release(mode)), _) => state.held() == Some(mode) && state.after(
                reply,
                lock_path,
                hdt_path,
            ) is Done,
            _ => state.held() is Some && state.after(reply, lock_path, hdt_path).held()
                == state.held(),
        },
        state is Done ==> state.held() is None,
{
}

/// A cache is generated under the exclusive lock alone, and after no readable
/// cache file was found under it.
pub proof fn generation_is_exclusive<T>(
    state: LoadStateView<T>,
    reply: ReplyView<T>,
    lock_path: Seq<char>,
    hdt_path: Seq<char>,
)
    requires
        answers(state.action(), reply),
        state.after(reply, lock_path, hdt_path).action() == Some(Action::Generate),
    ensures
        state.held() == Some(LockMode::Exclusive),
        reply == ReplyView::<T>::Found(false) || (reply is Read && reply->Read_0 is Err),
{
}

/// While one loading generates a cache, no other looks for the cache file,
/// reads it or generates it, as long as an exclusive lock is held by one alone.
pub proof fn nothing_is_read_while_one_generates<T>(one: LoadStateView<T>, other: LoadStateView<T>)
    requires
        one.held() == Some(LockMode::Exclusive) ==> other.held() is None,
        one.action() == Some(Action::Generate),
    ensures
        other.action() != Some(Action::Find),
        other.action() != Some(Action::Read),
        other.action() != Some(Action::Generate),
{
}

/// Each reply brings the loading nearer to its end, so at most nine actions
/// are taken.
pub proof fn loading_ends<T>(
    state: LoadStateView<T>,
    reply: ReplyView<T>,
    lock_path: Seq<char>,
    hdt_path: Seq<char>,
)
    requires
        answers(state.action(), reply),
    ensures
        state.after(reply, lock_path, hdt_path).steps_left() < state.steps_left() <= 9,
        state.steps_left() == 0 <==> state is Done,
{
}

/// What each action of a loading would meet.
pub struct Surroundings<T> {
    pub lock_shared: Result<(), Seq<char>>,
    pub found_shared: bool,
    pub read_shared: Result<T, HybridCacheErrorView>,
    pub release_shared: Result<(), Seq<char>>,
    pub lock_exclusive: Result<(), Seq<char>>,
    pub found_exclusive: bool,
    pub read_exclusive: Result<T, HybridCacheErrorView>,
    pub generated: Result<T, HybridCacheErrorView>,
    pub release_exclusive: Result<(), Seq<char>>,
}

impl<T> Surroundings<T> {
    /// What comes of the action that a state asks for.
    pub open spec fn reply(self, state: LoadStateView<T>) -> ReplyView<T> {
        match state {
            LoadStateView::LockShared => ReplyView::Locked(self.lock_shared),
            LoadStateView::FindShared => ReplyView::Found(self.found_shared),
            LoadStateView::ReadShared => ReplyView::Read(self.read_shared),
            LoadStateView::ReleaseShared(_) => ReplyView::Released(self.release_shared),
            LoadStateView::LockExclusive => ReplyView::Locked(self.lock_exclusive),
            LoadStateView::FindExclusive => ReplyView::Found(self.found_exclusive),
            LoadStateView::ReadExclusive => ReplyView::Read(self.read_exclusive),
            LoadStateView::Generate => ReplyView::Generated(self.generated),
            _ => ReplyView::Released(self.release_exclusive),
        }
    }

    /// What a loading comes to, from a state on.
    pub open spec fn followed(
        self,
        state: LoadStateView<T>,
        lock_path: Seq<char>,
        hdt_path: Seq<char>,
    ) -> Result<T, HybridCacheErrorView>
        decreases state.steps_left(),
    {
        match state {
            LoadStateView::Done(result) => result,
            _ => self.followed(
                state.after(self.reply(state), lock_path, hdt_path),
                lock_path,
                hdt_path,
            ),
        }
    }

    /// What a loading comes to: what is read under the shared lock, else what
    /// is read under the exclusive lock, else what is generated; or the first
    /// lock that fails.
    pub open spec fn outcome(self, lock_path: Seq<char>, hdt_path: Seq<char>) -> Result<
        T,
        HybridCacheErrorView,
    > {
        let read_shared = self.found_shared && self.read_shared is Ok;
        let read_exclusive = self.found_exclusive && self.read_exclusive is Ok;
        if let Err(cause) = self.lock_shared {
            Err(lock_error("acquire"@, LockMode::Shared, lock_path, hdt_path, cause))
        } else if let Err(cause) = self.release_shared {
            Err(lock_error("release"@, LockMode::Shared, lock_path, hdt_path, cause))
        } else if read_shared {
            self.read_shared
        } else if let Err(cause) = self.lock_exclusive {
            Err(lock_error("acquire"@, LockMode::Exclusive, lock_path, hdt_path, cause))
        } else if let Err(cause) = self.release_exclusive {
            Err(lock_error("release"@, LockMode::Exclusive, lock_path, hdt_path, cause))
        } else if read_exclusive {
            self.read_exclusive
        } else {
            self.generated
        }
    }
}

/// A loading that is followed from its beginning gives what was read under the
/// shared lock, else what was read under the exclusive lock, else what was
/// generated; and where a lock could not be acquired or released, that error.
pub proof fn loading_gives_its_outcome<T>(
    surroundings: Surroundings<T>,
    lock_path: Seq<char>,
    hdt_path: Seq<char>,
)
    ensures
        surroundings.followed(LoadStateView::LockShared, lock_path, hdt_path)
            == surroundings.outcome(lock_path, hdt_path),
        surroundings.followed(LoadStateView::LockShared, lock_path, hdt_path) == (
        if let Err(cause) = surroundings.lock_shared {
            Err(lock_error("acquire"@, LockMode::Shared, lock_path, hdt_path, cause))
        } else if let Err(cause) = surroundings.release_shared {
            Err(lock_error("release"@, LockMode::Shared, lock_path, hdt_path, cause))
        } else if surroundings.found_shared && surroundings.read_shared is Ok {
            surroundings.read_shared
        } else if let Err(cause) = surroundings.lock_exclusive {
            Err(lock_error("acquire"@, LockMode::Exclusive, lock_path, hdt_path, cause))
        } else if let Err(cause) = surroundings.release_exclusive {
            Err(lock_error("release"@, LockMode::Exclusive, lock_path, hdt_path, cause))
        } else if surroundings.found_exclusive && surroundings.read_exclusive is Ok {
            surroundings.read_exclusive
        } else {
            surroundings.generated
        }),
{
    reveal_with_fuel(Surroundings::followed, 10);
}

/// A readable cache file is loaded, and nothing is locked exclusively, read
/// again or generated: whatever these would meet, the outcome is the same.
pub proof fn readable_cache_is_loaded<T>(
    surroundings: Surroundings<T>,
    lock_path: Seq<char>,
    hdt_path: Seq<char>,
)
    requires
        surroundings.lock_shared is Ok,
        surroundings.found_shared,
        surroundings.read_shared is Ok,
        surroundings.release_shared is Ok,
    ensures
        surroundings.followed(LoadStateView::LockShared, lock_path, hdt_path)
            == surroundings.read_shared,
{
    loading_gives_its_outcome(surroundings, lock_path, hdt_path);
}

/// A cache that another made meanwhile is loaded, and none is generated:
/// whatever generating one would come to, the outcome is the same.
pub proof fn cache_made_meanwhile_is_loaded<T>(
    surroundings: Surroundings<T>,
    lock_path: Seq<char>,
    hdt_path: Seq<char>,
)
    requires
        surroundings.lock_shared is Ok,
        !surroundings.found_shared || surroundings.read_shared is Err,
        surroundings.release_shared is Ok,
        surroundings.lock_exclusive is Ok,
        surroundings.found_exclusive,
        surroundings.read_exclusive is Ok,
        surroundings.release_exclusive is Ok,
    ensures
        surroundings.followed(LoadStateView::LockShared, lock_path, hdt_path)
            == surroundings.read_exclusive,
{
    loading_gives_its_outcome(surroundings, lock_path, hdt_path);
}

/// A reply that one of several loadings with one lock gets.
pub struct Turn<T> {
    /// Which loading it is.
    pub loading: int,
    /// The path under which it loads the HDT file.
    pub hdt_path: Seq<char>,
    pub reply: ReplyView<T>,
}

/// Whether a lock can be acquired by one of several loadings: the exclusive one
/// where no other holds the lock, the shared one where no other holds it
/// exclusively.
pub open spec fn is_free<T>(states: Seq<LoadStateView<T>>, loading: int, mode: LockMode) -> bool {
    forall|other: int|
        0 <= other < states.len() && other != loading ==> match mode {
            LockMode::Exclusive => (#[trigger] states[other]).held() is None,
            LockMode::Shared => states[other].held() != Some(LockMode::Exclusive),
        }
}

/// Whether a reply can come: it is one to the loading's action, and says that a
/// lock was acquired only where it is free.
pub open spec fn can_come<T>(states: Seq<LoadStateView<T>>, turn: Turn<T>) -> bool {
    &&& 0 <= turn.loading < states.len()
    &&& answers(states[turn.loading].action(), turn.reply)
    &&& match (states[turn.loading].action(), turn.reply) {
        (Some(Action::Lock(mode)), ReplyView::Locked(Ok(_))) => is_free(states, turn.loading, mode),
        _ => true,
    }
}

/// Where several loadings come to, in turns, from their beginnings. One that
/// ends holds the lock no more, even where releasing it failed: its lock file
/// is closed.
pub open spec fn states_after<T>(count: nat, turns: Seq<Turn<T>>, lock_path: Seq<char>) -> Seq<
    LoadStateView<T>,
>
    decreases turns.len(),
{
    if turns.len() == 0 {
        Seq::new(count, |i: int| LoadStateView::LockShared)
    } else {
        let before = states_after(count, turns.drop_last(), lock_path);
        let turn = turns.last();
        before.update(
            turn.loading,
            before[turn.loading].after(turn.reply, lock_path, turn.hdt_path),
        )
    }
}

/// Whether each reply can come when it does.
pub open spec fn can_all_come<T>(count: nat, turns: Seq<Turn<T>>, lock_path: Seq<char>) -> bool
    decreases turns.len(),
{
    turns.len() == 0 || (can_all_come(count, turns.drop_last(), lock_path) && can_come(
        states_after(count, turns.drop_last(), lock_path),
        turns.last(),
    ))
}

/// However many load the cache of one HDT file, and in whatever turns: where
/// one holds the lock exclusively no other holds it, so that while one
/// generates the cache no other looks for the cache file, reads it or generates
/// it; and one that has ended holds no lock.
pub proof fn loadings_exclude_each_other<T>(
    count: nat,
    turns: Seq<Turn<T>>,
    lock_path: Seq<char>,
    one: int,
    other: int,
)
    requires
        can_all_come(count, turns, lock_path),
        0 <= one < count,
        0 <= other < count,
        one != other,
    ensures
        ({
            let states = states_after(count, turns, lock_path);
            &&& states.len() == count
            &&& states[one].held() == Some(LockMode::Exclusive) ==> states[other].held() is None
            &&& states[one].action() == Some(Action::Generate) ==> states[other].action() != Some(
                Action::Find,
            ) && states[other].action() != Some(Action::Read) && states[other].action() != Some(
                Action::Generate,
            )
            &&& states[one] is Done ==> states[one].held() is None
        }),
    decreases turns.len(),
{
    let states = states_after(count, turns, lock_path);
    if turns.len() > 0 {
        let before = states_after(count, turns.drop_last(), lock_path);
        let turn = turns.last();
        loadings_exclude_each_other(count, turns.drop_last(), lock_path, one, other);
        loadings_exclude_each_other(count, turns.drop_last(), lock_path, other, one);
        locks_are_paired(before[turn.loading], turn.reply, lock_path, turn.hdt_path);
        assert(states[turn.loading] == before[turn.loading].after(
            turn.reply,
            lock_path,
            turn.hdt_path,
        ));
    }
    assert(states[one].held() == Some(LockMode::Exclusive) ==> states[other].held() is None);
    if states[one].action() == Some(Action::Generate) {
        nothing_is_read_while_one_generates(states[one], states[other]);
    }
}

/// The cache that one loading generated, and whose file it wrote, is what the
/// next loading gives, read from that file.
pub proof fn next_loading_gives_what_was_generated(
    first: Surroundings<(HybridCacheView, int)>,
    next: Surroundings<(HybridCacheView, int)>,
    cache: HybridCacheView,
    control_info: Seq<u8>,
    op_bitmap: Seq<u8>,
    op_sequence: Seq<u8>,
    lock_path: Seq<char>,
    hdt_path: Seq<char>,
)
    requires
        cache.control_info.control_type == ControlType::Index,
        cache.control_info.format == CACHE_FORMAT@,
        crate::triples::wavelet::wavelet_extent(cache.wavelet_y) == Some(
            cache.wavelet_y.len() as int,
        ),
        crate::triples::wavelet::normal_wavelet(cache.wavelet_y) == cache.wavelet_y,
        first.lock_shared is Ok,
        !first.found_shared,
        first.release_shared is Ok,
        first.lock_exclusive is Ok,
        !first.found_exclusive,
        first.generated == Ok::<(HybridCacheView, int), HybridCacheErrorView>(
            (cache, (control_info.len() + cache.wavelet_y.len() + 72) as int),
        ),
        first.release_exclusive is Ok,
        next.lock_shared is Ok,
        next.found_shared,
        next.read_shared == crate::triples::hybrid_cache::cache_outcome(
            cache.control_info,
            crate::triples::hybrid_cache::cache_encoding(
                control_info,
                cache,
                op_bitmap,
                op_sequence,
            ),
            control_info.len() as int,
        ),
        next.release_shared is Ok,
    ensures
        first.followed(LoadStateView::LockShared, lock_path, hdt_path) == first.generated,
        next.followed(LoadStateView::LockShared, lock_path, hdt_path) == first.generated,
{
    crate::triples::hybrid_cache::encoded_cache_is_read_back(
        control_info,
        cache,
        op_bitmap,
        op_sequence,
    );
    loading_gives_its_outcome(first, lock_path, hdt_path);
    readable_cache_is_loaded(next, lock_path, hdt_path);
}

/// Each state asks for its action, and a reply to another one changes nothing.
pub proof fn each_state_asks_for_its_action<T>(
    found: Option<T>,
    result: Result<T, HybridCacheErrorView>,
    state: LoadStateView<T>,
    reply: ReplyView<T>,
    lock_path: Seq<char>,
    hdt_path: Seq<char>,
)
    ensures
        LoadStateView::<T>::LockShared.action() == Some(Action::Lock(LockMode::Shared)),
        LoadStateView::<T>::FindShared.action() == Some(Action::Find),
        LoadStateView::<T>::ReadShared.action() == Some(Action::Read),
        LoadStateView::ReleaseShared(found).action() == Some(Action::Release(LockMode::Shared)),
        LoadStateView::<T>::LockExclusive.action() == Some(Action::Lock(LockMode::Exclusive)),
        LoadStateView::<T>::FindExclusive.action() == Some(Action::Find),
        LoadStateView::<T>::ReadExclusive.action() == Some(Action::Read),
        LoadStateView::<T>::Generate.action() == Some(Action::Generate),
        LoadStateView::ReleaseExclusive(result).action() == Some(
            Action::Release(LockMode::Exclusive),
        ),
        LoadStateView::Done(result).action() is None,
        !answers(state.action(), reply) ==> state.after(reply, lock_path, hdt_path) == state,
        state is Done ==> state.after(reply, lock_path, hdt_path) == state,
        reply is Locked ==> (answers(state.action(), reply) <==> state is LockShared
            || state is LockExclusive),
        reply is Found ==> (answers(state.action(), reply) <==> state is FindShared
            || state is FindExclusive),
        reply is Read ==> (answers(state.action(), reply) <==> state is ReadShared
            || state is ReadExclusive),
        reply is Generated ==> (answers(state.action(), reply) <==> state is Generate),
        reply is Released ==> (answers(state.action(), reply) <==> state is ReleaseShared
            || state is ReleaseExclusive),
{
}

/// Which state follows on which reply.
pub proof fn each_reply_leads_on<T>(
    v: T,
    e: HybridCacheErrorView,
    found: Option<T>,
    result: Result<T, HybridCacheErrorView>,
    cause: Seq<char>,
    l: Seq<char>,
    h: Seq<char>,
)
    ensures
        LoadStateView::<T>::LockShared.after(ReplyView::Locked(Ok(())), l, h)
            == LoadStateView::<T>::FindShared,
        LoadStateView::<T>::FindShared.after(ReplyView::Found(true), l, h)
            == LoadStateView::<T>::ReadShared,
        LoadStateView::<T>::FindShared.after(ReplyView::Found(false), l, h)
            == LoadStateView::<T>::ReleaseShared(None),
        LoadStateView::<T>::ReadShared.after(ReplyView::Read(Ok(v)), l, h)
            == LoadStateView::ReleaseShared(Some(v)),
        LoadStateView::<T>::ReadShared.after(ReplyView::Read(Err(e)), l, h)
            == LoadStateView::<T>::ReleaseShared(None),
        LoadStateView::ReleaseShared(Some(v)).after(ReplyView::Released(Ok(())), l, h)
            == LoadStateView::Done(Ok(v)),
        LoadStateView::<T>::ReleaseShared(None).after(ReplyView::Released(Ok(())), l, h)
            == LoadStateView::<T>::LockExclusive,
        LoadStateView::<T>::LockExclusive.after(ReplyView::Locked(Ok(())), l, h)
            == LoadStateView::<T>::FindExclusive,
        LoadStateView::<T>::FindExclusive.after(ReplyView::Found(true), l, h)
            == LoadStateView::<T>::ReadExclusive,
        LoadStateView::<T>::FindExclusive.after(ReplyView::Found(false), l, h)
            == LoadStateView::<T>::Generate,
        LoadStateView::<T>::ReadExclusive.after(ReplyView::Read(Ok(v)), l, h)
            == LoadStateView::ReleaseExclusive(Ok(v)),
        LoadStateView::<T>::ReadExclusive.after(ReplyView::Read(Err(e)), l, h)
            == LoadStateView::<T>::Generate,
        LoadStateView::<T>::Generate.after(ReplyView::Generated(result), l, h)
            == LoadStateView::ReleaseExclusive(result),
        LoadStateView::ReleaseExclusive(result).after(ReplyView::Released(Ok(())), l, h)
            == LoadStateView::Done(result),
        LoadStateView::<T>::LockShared.after(ReplyView::Locked(Err(cause)), l, h)
            == LoadStateView::<T>::Done(
            Err(lock_error("acquire"@, LockMode::Shared, l, h, cause)),
        ),
        LoadStateView::<T>::LockExclusive.after(ReplyView::Locked(Err(cause)), l, h)
            == LoadStateView::<T>::Done(
            Err(lock_error("acquire"@, LockMode::Exclusive, l, h, cause)),
        ),
        LoadStateView::ReleaseShared(found).after(ReplyView::Released(Err(cause)), l, h)
            == LoadStateView::<T>::Done(
            Err(lock_error("release"@, LockMode::Shared, l, h, cause)),
        ),
        LoadStateView::ReleaseExclusive(result).after(ReplyView::Released(Err(cause)), l, h)
            == LoadStateView::<T>::Done(
            Err(lock_error("release"@, LockMode::Exclusive, l, h, cause)),
        ),
{
}

/// The models of states and replies hold what these hold.
pub proof fn load_models_hold_the_same<T>(state: LoadState<T>, reply: Reply<T>)
    ensures
        match state {
            LoadState::LockShared => state@ == LoadStateView::<T>::LockShared,
            LoadState::FindShared => state@ == LoadStateView::<T>::FindShared,
            LoadState::ReadShared => state@ == LoadStateView::<T>::ReadShared,
            LoadState::ReleaseShared(found) => state@ == LoadStateView::ReleaseShared(found),
            LoadState::LockExclusive => state@ == LoadStateView::<T>::LockExclusive,
            LoadState::FindExclusive => state@ == LoadStateView::<T>::FindExclusive,
            LoadState::ReadExclusive => state@ == LoadStateView::<T>::ReadExclusive,
            LoadState::Generate => state@ == LoadStateView::<T>::Generate,
            LoadState::ReleaseExclusive(Ok(v)) => state@ == LoadStateView::ReleaseExclusive(Ok(v)),
            LoadState::ReleaseExclusive(Err(e)) => state@ == LoadStateView::<T>::ReleaseExclusive(
                Err(e@),
            ),
            LoadState::Done(Ok(v)) => state@ == LoadStateView::Done(Ok(v)),
            LoadState::Done(Err(e)) => state@ == LoadStateView::<T>::Done(Err(e@)),
        },
        match reply {
            Reply::Locked(Ok(_)) => reply@ == ReplyView::<T>::Locked(Ok(())),
            Reply::Locked(Err(cause)) => reply@ == ReplyView::<T>::Locked(Err(cause@)),
            Reply::Found(there) => reply@ == ReplyView::<T>::Found(there),
            Reply::Read(Ok(v)) => reply@ == ReplyView::Read(Ok(v)),
            Reply::Read(Err(e)) => reply@ == ReplyView::<T>::Read(Err(e@)),
            Reply::Generated(Ok(v)) => reply@ == ReplyView::Generated(Ok(v)),
            Reply::Generated(Err(e)) => reply@ == ReplyView::<T>::Generated(Err(e@)),
            Reply::Released(Ok(_)) => reply@ == ReplyView::<T>::Released(Ok(())),
            Reply::Released(Err(cause)) => reply@ == ReplyView::<T>::Released(Err(cause@)),
        },
{
}

} // verus!
