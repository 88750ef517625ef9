//! The chunked-upload protocol.
//!
//! A session is opened against a declared total, filled chunk by chunk, and
//! finished or aborted by its owner. Answers are meant for script: the value,
//! or the refusal by its name. Another owner's session is not found rather
//! than forbidden.
use crate::drive;
use crate::drive::plan_for;
use crate::guard;
use crate::guard::{Plan, Row, Verdict};
use crate::model::{File, StoreError, UploadSession, User};
use crate::refusal::Refusal;
use crate::text;
use vstd::prelude::*;

verus! {

/// A store error in the upload's own words.
pub open spec fn upload_words(error: StoreError) -> Refusal {
    match error {
        StoreError::QuotaExceeded => Refusal::QuotaExceeded,
        StoreError::UploadExpired => Refusal::UploadExpired,
        StoreError::BadChunk => Refusal::BadChunk,
        StoreError::NotFound => Refusal::NotFound,
        StoreError::CrossOwner => Refusal::NotFound,
        StoreError::NameTaken => Refusal::NameTaken,
        _ => Refusal::Unavailable,
    }
}

/// A store error in the upload's own words. Another owner's session id answers
/// not found: the id space is not theirs to probe.
pub fn store_refusal(error: StoreError) -> (r: Refusal)
    ensures
        r == upload_words(error),
{
    match error {
        StoreError::QuotaExceeded => Refusal::QuotaExceeded,
        StoreError::UploadExpired => Refusal::UploadExpired,
        StoreError::BadChunk => Refusal::BadChunk,
        StoreError::NotFound => Refusal::NotFound,
        StoreError::CrossOwner => Refusal::NotFound,
        StoreError::NameTaken => Refusal::NameTaken,
        _ => Refusal::Unavailable,
    }
}

// ---- Opening a session -----------------------------------------------------------
/// Whether a plan asks for what opening a session needs.
pub open spec fn plans_start(plan: Plan, folder: Option<Seq<char>>) -> bool {
    plan matches Plan::Needs(needs) && drive::needs_for(
        needs@,
        None,
        match folder {
            Some(id) => id,
            None => Seq::empty(),
        },
        Refusal::Unavailable,
    )
}

/// The folder an upload lands in must be the caller's own live folder; no
/// folder, or an empty one, is the root.
pub fn start_plan(folder_id: Option<&str>) -> (r: Plan)
    ensures
        plans_start(r, text::opt_str(folder_id)),
{
    match folder_id {
        Some(id) => plan_for(None, id, Refusal::Unavailable),
        None => {
            let root = String::new();
            plan_for(None, &root, Refusal::Unavailable)
        },
    }
}

/// What to do next about opening a session of `size_bytes` under a ceiling.
pub open spec fn start_after(
    user: Result<User, Refusal>,
    plan: Plan,
    replies: Seq<Result<Option<Row>, StoreError>>,
    size_bytes: nat,
    limit: nat,
) -> Verdict {
    match guard::verdict_of(user, plan, replies) {
        Verdict::Go => if size_bytes > limit {
            Verdict::Refuse(Refusal::UploadTooLarge)
        } else {
            Verdict::Go
        },
        other => other,
    }
}

/// What to do next about opening a session. The ceiling is held against the
/// declared total before a single chunk is sent.
pub fn start(
    user: &Result<User, Refusal>,
    plan: &Plan,
    replies: &Vec<Result<Option<Row>, StoreError>>,
    size_bytes: u64,
    limit: u64,
) -> (r: Verdict)
    ensures
        r == start_after(*user, *plan, replies@, size_bytes as nat, limit as nat),
{
    match guard::verdict(user, plan, replies) {
        Verdict::Go => if size_bytes > limit {
            Verdict::Refuse(Refusal::UploadTooLarge)
        } else {
            Verdict::Go
        },
        other => other,
    }
}

/// What an opened session tells the browser.
#[derive(Debug)]
pub struct StartOut {
    pub id: String,
    pub chunk_size: u64,
}

/// Whether an answer tells of an opened session, see [`started`].
pub open spec fn tells_started(
    answer: Result<StartOut, Refusal>,
    outcome: Result<UploadSession, StoreError>,
) -> bool {
    &&& match (answer, outcome) {
        (Ok(out), Ok(session)) => out.id@ == session.id@ && out.chunk_size == session.chunk_size,
        (Err(refusal), Err(error)) => refusal == upload_words(error),
        _ => false,
    }
}

/// The answer to opening a session.
pub fn started(outcome: &Result<UploadSession, StoreError>) -> (r: Result<StartOut, Refusal>)
    ensures
        tells_started(
            r,
            *outcome,
        ),
{
    match outcome {
        Ok(session) => Ok(StartOut { id: session.id.clone(), chunk_size: session.chunk_size }),
        Err(error) => Err(store_refusal(*error)),
    }
}

/// No session is opened for a total over the ceiling, nor for nobody.
pub proof fn law_no_session_over_the_ceiling(
    user: Result<User, Refusal>,
    plan: Plan,
    replies: Seq<Result<Option<Row>, StoreError>>,
    size_bytes: nat,
    limit: nat,
)
    requires
        start_after(user, plan, replies, size_bytes, limit) == Verdict::Go,
    ensures
        size_bytes <= limit,
        user is Ok,
{
}

// ---- An open session -------------------------------------------------------------
/// Where a call on a session stands.
#[derive(Debug)]
pub enum SessionStep {
    /// Look the session up.
    Look,
    /// It is the caller's own.
    Own(UploadSession),
    Refused(Refusal),
}

/// Where a call on a session stands, once the lookup answered.
pub open spec fn session_after(
    user: Result<User, Refusal>,
    found: Option<Result<Option<UploadSession>, StoreError>>,
) -> SessionStep {
    match user {
        Err(refusal) => SessionStep::Refused(refusal),
        Ok(user) => match found {
            None => SessionStep::Look,
            Some(Ok(Some(session))) => if session.owner_id@ == user.id@ {
                SessionStep::Own(session)
            } else {
                SessionStep::Refused(Refusal::NotFound)
            },
            Some(Ok(None)) => SessionStep::Refused(Refusal::NotFound),
            Some(Err(_)) => SessionStep::Refused(Refusal::Unavailable),
        },
    }
}

/// The owned session a call names, or the refusal its answer carries.
pub fn owned_session(
    user: &Result<User, Refusal>,
    found: Option<Result<Option<UploadSession>, StoreError>>,
) -> (r: SessionStep)
    ensures
        r == session_after(*user, found),
{
    let user = match user {
        Ok(user) => user,
        Err(refusal) => return SessionStep::Refused(*refusal),
    };
    match found {
        None => SessionStep::Look,
        Some(Ok(Some(session))) => if text::same(&session.owner_id, &user.id) {
            SessionStep::Own(session)
        } else {
            SessionStep::Refused(Refusal::NotFound)
        },
        Some(Ok(None)) => SessionStep::Refused(Refusal::NotFound),
        Some(Err(_)) => SessionStep::Refused(Refusal::Unavailable),
    }
}

/// A stranger's session reads exactly as one that is not there.
pub proof fn law_a_strangers_session_is_not_found(user: User, session: UploadSession)
    requires
        session.owner_id@ != user.id@,
    ensures
        session_after(Ok(user), Some(Ok(Some(session)))) == session_after(Ok(user), Some(Ok(None))),
{
}

/// The chunk number a path ends in.
pub open spec fn index_in(path: Seq<char>) -> Option<u64> {
    match text::read_unsigned(text::split_on(path, '/').last()) {
        Some(n) => if n <= u64::MAX {
            Some(n as u64)
        } else {
            None
        },
        None => None,
    }
}

/// The chunk number a path ends in.
pub fn chunk_index(path: &str) -> (r: Option<u64>)
    ensures
        r == index_in(path@),
{
    let pieces = text::split(path, '/');
    proof {
        text::lemma_split_free(path@, '/');
        assert(text::texts(pieces@).last() == pieces@.last()@);
        text::lemma_read_unsigned(text::split_on(path@, '/').last());
    }
    text::parse_u64(&pieces[pieces.len() - 1])
}

/// Where a chunk stands.
#[derive(Debug)]
pub enum ChunkStep {
    /// Look the session up.
    Look,
    /// Stage the bytes under this number.
    Record { session: UploadSession, index: u64 },
    Refused(Refusal),
}

/// Where a chunk stands: a path with no number is a bad chunk whoever asks.
pub open spec fn chunk_after(
    path: Seq<char>,
    user: Result<User, Refusal>,
    found: Option<Result<Option<UploadSession>, StoreError>>,
) -> ChunkStep {
    match index_in(path) {
        None => ChunkStep::Refused(Refusal::BadChunk),
        Some(index) => match session_after(user, found) {
            SessionStep::Look => ChunkStep::Look,
            SessionStep::Own(session) => ChunkStep::Record { session, index },
            SessionStep::Refused(refusal) => ChunkStep::Refused(refusal),
        },
    }
}

/// Where a chunk stands. The store refuses a wrong-sized or out-of-range piece;
/// this only gates the owner.
pub fn chunk(
    path: &str,
    user: &Result<User, Refusal>,
    found: Option<Result<Option<UploadSession>, StoreError>>,
) -> (r: ChunkStep)
    ensures
        r == chunk_after(path@, *user, found),
{
    let index: u64 = match chunk_index(path) {
        Some(index) => index,
        None => return ChunkStep::Refused(Refusal::BadChunk),
    };
    match owned_session(user, found) {
        SessionStep::Look => ChunkStep::Look,
        SessionStep::Own(session) => ChunkStep::Record { session, index },
        SessionStep::Refused(refusal) => ChunkStep::Refused(refusal),
    }
}

/// What a staged chunk tells the browser.
#[derive(Clone, Copy, Debug)]
pub struct ChunkOut {
    pub received_bytes: u64,
    pub size_bytes: u64,
}

/// Whether an answer tells of a staged chunk, see [`recorded`].
pub open spec fn tells_recorded(
    answer: Result<ChunkOut, Refusal>,
    outcome: Result<UploadSession, StoreError>,
) -> bool {
    &&& match (answer, outcome) {
        (Ok(out), Ok(session)) => out.received_bytes == session.received_bytes && out.size_bytes
            == session.size_bytes,
        (Err(refusal), Err(error)) => refusal == upload_words(error),
        _ => false,
    }
}

/// The answer to a staged chunk.
pub fn recorded(outcome: &Result<UploadSession, StoreError>) -> (r: Result<ChunkOut, Refusal>)
    ensures
        tells_recorded(
            r,
            *outcome,
        ),
{
    match outcome {
        Ok(session) => Ok(
            ChunkOut { received_bytes: session.received_bytes, size_bytes: session.size_bytes },
        ),
        Err(error) => Err(store_refusal(*error)),
    }
}

/// Whether an answer tells of a finished upload, see [`finish`].
pub open spec fn tells_finished(
    answer: Result<String, Refusal>,
    outcome: Result<File, StoreError>,
) -> bool {
    &&& match (answer, outcome) {
        (Ok(id), Ok(file)) => id@ == file.id@,
        (Err(refusal), Err(error)) => refusal == upload_words(error),
        _ => false,
    }
}

/// The answer to a finish: the created file's id. The chunks stay staged on
/// refusal, so the browser may retry.
pub fn finish(outcome: &Result<File, StoreError>) -> (r: Result<String, Refusal>)
    ensures
        tells_finished(
            r,
            *outcome,
        ),
{
    match outcome {
        Ok(file) => Ok(file.id.clone()),
        Err(error) => Err(store_refusal(*error)),
    }
}

/// The answer to an abort, see [`abort`].
pub open spec fn aborted(outcome: Result<(), StoreError>) -> Result<(), Refusal> {
    match outcome {
        Ok(_) => Ok::<(), Refusal>(()),
        Err(error) => Err(upload_words(error)),
    }
}

/// The answer to an abort. Aborting twice is not an error.
pub fn abort(outcome: Result<(), StoreError>) -> (r: Result<(), Refusal>)
    ensures
        r == aborted(outcome),
{
    match outcome {
        Ok(_) => Ok(()),
        Err(error) => Err(store_refusal(error)),
    }
}

/// What a resume may read off an interrupted session.
#[derive(Debug)]
pub struct StatusOut {
    pub name: String,
    pub size_bytes: u64,
    pub chunk_size: u64,
    /// The chunks already staged, which a resume may skip.
    pub uploaded: Vec<u64>,
}

/// Whether an answer tells how far a session is, see [`status`].
pub open spec fn tells_status(
    answer: Result<StatusOut, Refusal>,
    session: UploadSession,
    staged: Result<Vec<u64>, StoreError>,
) -> bool {
    &&& match (answer, staged) {
        (Ok(out), Ok(staged)) => {
            &&& out.name@ == session.name@
            &&& out.size_bytes == session.size_bytes
            &&& out.chunk_size == session.chunk_size
            &&& out.uploaded == staged
        },
        (Err(refusal), Err(error)) => refusal == upload_words(error),
        _ => false,
    }
}

/// The answer to a status question on an owned session.
pub fn status(session: &UploadSession, staged: Result<Vec<u64>, StoreError>) -> (r: Result<
    StatusOut,
    Refusal,
>)
    ensures
        tells_status(
            r,
            *session,
            staged,
        ),
{
    match staged {
        Ok(uploaded) => Ok(
            StatusOut {
                name: session.name.clone(),
                size_bytes: session.size_bytes,
                chunk_size: session.chunk_size,
                uploaded,
            },
        ),
        Err(error) => Err(store_refusal(error)),
    }
}

} // verus!
