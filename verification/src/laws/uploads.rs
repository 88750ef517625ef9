//! Uploads: the form with its files, and the sessions filled in pieces.
use crate::address;
use crate::files;
use crate::files::{FormField, UploadForm, UploadStep};
use crate::guard;
use crate::guard::{Plan, Row, Verdict};
use crate::model::{File, StoreError, UploadSession, User};
use crate::laws::addresses as laws_addresses;
use crate::laws::addresses::{lemma_pair_of, pair_of};
use crate::query;
use crate::refusal::Refusal;
use crate::text;
use crate::upload;
use crate::upload::{ChunkOut, ChunkStep, SessionStep, StartOut, StatusOut};
use vstd::prelude::*;

verus! {

/// Whether the store took each of the first `n` files, and each was within the
/// ceiling.
pub open spec fn taken(
    files: Seq<(int, Seq<char>, int)>,
    limit: int,
    outcomes: Seq<Result<(), StoreError>>,
    n: int,
) -> bool {
    &&& n <= files.len() && n <= outcomes.len()
    &&& forall|k: int| 0 <= k < n ==> (#[trigger] outcomes[k]) is Ok
    &&& forall|k: int| 0 <= k < n ==> (#[trigger] files[k]).2 <= limit
}

proof fn lemma_upload_reaches(
    files: Seq<(int, Seq<char>, int)>,
    limit: int,
    outcomes: Seq<Result<(), StoreError>>,
    n: int,
    i: int,
)
    requires
        taken(files, limit, outcomes, n),
        0 <= i <= n,
    ensures
        files::upload_after(files, limit, outcomes, i) == files::upload_after(
            files,
            limit,
            outcomes,
            n,
        ),
    decreases n - i,
{
    if i < n {
        assert(outcomes[i] is Ok && files[i].2 <= limit);
        lemma_upload_reaches(files, limit, outcomes, n, i + 1);
    }
}

/// Every file of a form reaches the store, each in its turn: while all before it
/// were taken, the next one within the ceiling is handed over, one over the
/// ceiling ends the upload, and so does one the store refused.
pub proof fn law_every_file_has_its_turn(
    files: Seq<(int, Seq<char>, int)>,
    limit: int,
    outcomes: Seq<Result<(), StoreError>>,
    n: int,
)
    requires
        files.len() <= usize::MAX,
        0 <= n < files.len(),
        taken(files, limit, outcomes, n),
    ensures
        files[n].2 <= limit && outcomes.len() == n ==> files::upload_after(files, limit, outcomes, 0)
            == UploadStep::Insert(n as usize),
        files[n].2 > limit ==> files::upload_after(files, limit, outcomes, 0) == UploadStep::Done(
            Some(Refusal::UploadTooLarge),
        ),
        files[n].2 <= limit && outcomes.len() > n && outcomes[n] is Err ==> match outcomes[n] {
            Err(StoreError::QuotaExceeded) => files::upload_after(files, limit, outcomes, 0)
                == UploadStep::Done(Some(Refusal::QuotaExceeded)),
            Err(StoreError::NotFound) => files::upload_after(files, limit, outcomes, 0)
                == UploadStep::Done(Some(Refusal::NotFound)),
            Err(StoreError::CrossOwner) => files::upload_after(files, limit, outcomes, 0)
                == UploadStep::Done(Some(Refusal::NotFound)),
            _ => files::upload_after(files, limit, outcomes, 0) matches UploadStep::Done(Some(_)),
        },
{
    lemma_upload_reaches(files, limit, outcomes, n, 0);
}

proof fn lemma_clean_upload(
    files: Seq<(int, Seq<char>, int)>,
    limit: int,
    outcomes: Seq<Result<(), StoreError>>,
    i: int,
)
    requires
        0 <= i <= files.len(),
        taken(files, limit, outcomes, i),
        files::upload_after(files, limit, outcomes, i) == UploadStep::Done(None),
    ensures
        taken(files, limit, outcomes, files.len() as int),
    decreases files.len() - i,
{
    if i < files.len() {
        assert(outcomes[i] is Ok);
        lemma_clean_upload(files, limit, outcomes, i + 1);
    }
}

/// An upload is answered without a refusal exactly once the store has taken
/// every file of the form: none is dropped on the way.
pub proof fn law_a_clean_upload_took_every_file(
    files: Seq<(int, Seq<char>, int)>,
    limit: int,
    outcomes: Seq<Result<(), StoreError>>,
)
    ensures
        files::upload_after(files, limit, outcomes, 0) == UploadStep::Done(None) <==> {
            &&& outcomes.len() >= files.len()
            &&& forall|k: int| 0 <= k < files.len() ==> (#[trigger] outcomes[k]) is Ok
            &&& forall|k: int| 0 <= k < files.len() ==> (#[trigger] files[k]).2 <= limit
        },
{
    if taken(files, limit, outcomes, files.len() as int) {
        lemma_upload_reaches(files, limit, outcomes, files.len() as int, 0);
    }
    if files::upload_after(files, limit, outcomes, 0) == UploadStep::Done(None) {
        lemma_clean_upload(files, limit, outcomes, 0);
    }
}

/// A session is opened exactly where the caller may put a file there and the
/// total is within the ceiling; one over it is too large, and whatever else stops
/// the caller stops them first.
pub proof fn law_sessions_open_within_the_ceiling(
    user: Result<User, Refusal>,
    plan: Plan,
    replies: Seq<Result<Option<Row>, StoreError>>,
    size_bytes: nat,
    limit: nat,
)
    ensures
        guard::verdict_of(user, plan, replies) == Verdict::Go && size_bytes <= limit
            ==> upload::start_after(user, plan, replies, size_bytes, limit) == Verdict::Go,
        guard::verdict_of(user, plan, replies) == Verdict::Go && size_bytes > limit
            ==> upload::start_after(user, plan, replies, size_bytes, limit) == Verdict::Refuse(
            Refusal::UploadTooLarge,
        ),
        guard::verdict_of(user, plan, replies) != Verdict::Go ==> upload::start_after(
            user,
            plan,
            replies,
            size_bytes,
            limit,
        ) == guard::verdict_of(user, plan, replies),
{
}

/// A call on a session reaches it only for its owner; to anyone else it is not
/// there, and a store that fails to say is unavailable.
pub proof fn law_sessions_answer_their_owner(
    user: User,
    session: UploadSession,
    refusal: Refusal,
    error: StoreError,
    found: Option<Result<Option<UploadSession>, StoreError>>,
)
    ensures
        upload::session_after(Err(refusal), found) == SessionStep::Refused(refusal),
        upload::session_after(Ok(user), None) == SessionStep::Look,
        session.owner_id@ == user.id@ ==> upload::session_after(Ok(user), Some(Ok(Some(session))))
            == SessionStep::Own(session),
        session.owner_id@ != user.id@ ==> upload::session_after(Ok(user), Some(Ok(Some(session))))
            == SessionStep::Refused(Refusal::NotFound),
        upload::session_after(Ok(user), Some(Ok(None))) == SessionStep::Refused(Refusal::NotFound),
        upload::session_after(Ok(user), Some(Err(error))) == SessionStep::Refused(
            Refusal::Unavailable,
        ),
{
}

/// The number a chunk is staged under is the last piece of its path, read as a
/// number; a path that ends in anything else is a bad chunk.
pub proof fn law_chunks_are_staged_under_their_number(
    front: Seq<char>,
    index: u64,
    user: User,
    session: UploadSession,
    path: Seq<char>,
)
    ensures
        session.owner_id@ == user.id@ ==> upload::chunk_after(
            front + seq!['/'] + text::numeral(index as nat, 10),
            Ok(user),
            Some(Ok(Some(session))),
        ) == (ChunkStep::Record { session, index }),
        session.owner_id@ != user.id@ ==> upload::chunk_after(
            front + seq!['/'] + text::numeral(index as nat, 10),
            Ok(user),
            Some(Ok(Some(session))),
        ) == ChunkStep::Refused(Refusal::NotFound),
        upload::chunk_after(front + seq!['/'] + text::numeral(index as nat, 10), Ok(user), None)
            == ChunkStep::Look,
        text::free_of(path, '/') && text::read_unsigned(path) is None ==> upload::chunk_after(
            front + seq!['/'] + path,
            Ok(user),
            Some(Ok(Some(session))),
        ) == ChunkStep::Refused(Refusal::BadChunk),
{
    let n = text::numeral(index as nat, 10);
    text::lemma_numeral_digits(index as nat);
    text::law_numeral_is_read_back(index as nat);
    assert(text::free_of(n, '/')) by {
        assert forall|i: int| 0 <= i < n.len() implies #[trigger] n[i] != '/' by {
            assert(text::is_digit(n[i]));
        }
    }
    text::lemma_split_concat(front, '/', n);
    text::lemma_split_none(n, '/');
    text::lemma_split_concat(front, '/', path);
    if text::free_of(path, '/') {
        text::lemma_split_none(path, '/');
    }
}

/// What a session tells of itself: its id and the size of a chunk when it opens,
/// how many bytes of how many arrived with a chunk, the file's id when it is
/// finished, and to a resume its name, its sizes and the chunks it may skip.
pub proof fn law_sessions_tell_how_far_they_are(
    session: UploadSession,
    file: File,
    staged: Vec<u64>,
    opened: Result<StartOut, Refusal>,
    put: Result<ChunkOut, Refusal>,
    finished: Result<String, Refusal>,
    resumed: Result<StatusOut, Refusal>,
)
    requires
        upload::tells_started(opened, Ok(session)),
        upload::tells_recorded(put, Ok(session)),
        upload::tells_finished(finished, Ok(file)),
        upload::tells_status(resumed, session, Ok(staged)),
    ensures
        opened is Ok && opened->Ok_0.id@ == session.id@ && opened->Ok_0.chunk_size
            == session.chunk_size,
        put is Ok && put->Ok_0.received_bytes == session.received_bytes && put->Ok_0.size_bytes
            == session.size_bytes,
        finished is Ok && finished->Ok_0@ == file.id@,
        resumed is Ok && resumed->Ok_0.name@ == session.name@ && resumed->Ok_0.size_bytes
            == session.size_bytes && resumed->Ok_0.chunk_size == session.chunk_size
            && resumed->Ok_0.uploaded@ == staged@,
{
}

/// A session's refusals keep the store's own reasons apart, but not another
/// owner's session from one that is not there.
pub proof fn law_sessions_refuse_with_the_reason(
    session: UploadSession,
    error: StoreError,
    opened: Result<StartOut, Refusal>,
    put: Result<ChunkOut, Refusal>,
    finished: Result<String, Refusal>,
    resumed: Result<StatusOut, Refusal>,
    reason: Refusal,
)
    requires
        upload::tells_started(opened, Err(error)),
        upload::tells_recorded(put, Err(error)),
        upload::tells_finished(finished, Err(error)),
        upload::tells_status(resumed, session, Err(error)),
        (error, reason) == (StoreError::QuotaExceeded, Refusal::QuotaExceeded) || (error, reason)
            == (StoreError::UploadExpired, Refusal::UploadExpired) || (error, reason) == (
            StoreError::BadChunk,
            Refusal::BadChunk,
        ) || (error, reason) == (StoreError::NotFound, Refusal::NotFound) || (error, reason) == (
            StoreError::CrossOwner,
            Refusal::NotFound,
        ) || (error, reason) == (StoreError::NameTaken, Refusal::NameTaken),
    ensures
        opened == Err::<StartOut, Refusal>(reason),
        put == Err::<ChunkOut, Refusal>(reason),
        finished == Err::<String, Refusal>(reason),
        resumed == Err::<StatusOut, Refusal>(reason),
        upload::aborted(Err(error)) == Err::<(), Refusal>(reason),
        upload::aborted(Ok(())) is Ok,
{
}

/// A form keeps every file part that carries a name, in the order they came,
/// under the position of its field, and the destination last heard of; other
/// fields and nameless parts leave it as it was.
pub proof fn law_a_form_keeps_its_named_files(
    before: UploadForm,
    at: usize,
    name: Option<String>,
    size: u64,
    folder: Option<String>,
    after: UploadForm,
    moved: UploadForm,
    other: UploadForm,
    answers: (Option<Seq<char>>, Option<Seq<char>>, Option<Seq<char>>),
)
    requires
        files::form_heard(before, at, FormField::File(name, size), after, answers.0),
        files::form_heard(before, at, FormField::Folder(folder), moved, answers.1),
        files::form_heard(before, at, FormField::Other, other, answers.2),
    ensures
        answers.0 is None && answers.1 is None && answers.2 is None,
        name is Some && name->0@.len() > 0 ==> {
            &&& after.files@.len() == before.files@.len() + 1
            &&& after.files@.last().0 == at
            &&& after.files@.last().1@ == name->0@
            &&& after.files@.last().2 == size
        },
        name is None || name->0@.len() == 0 ==> after.files@.len() == before.files@.len(),
        forall|i: int|
            0 <= i < before.files@.len() ==> {
                &&& (#[trigger] after.files@[i]).0 == before.files@[i].0
                &&& after.files@[i].1@ == before.files@[i].1@
                &&& after.files@[i].2 == before.files@[i].2
            },
        after.folder == before.folder,
        moved.files == before.files,
        folder is Some && folder->0@.len() > 0 ==> moved.folder is Some && moved.folder->0@
            == folder->0@,
        folder is None || folder->0@.len() == 0 ==> moved.folder is None,
        other == before,
{
    let old = files::upload_files(before.files@);
    let new = files::upload_files(after.files@);
    assert(new.len() == after.files@.len() && old.len() == before.files@.len());
    if name is Some && name->0@.len() > 0 {
        assert(new == old.push((at as int, name->0@, size as int)));
        assert(new[new.len() - 1] == (at as int, name->0@, size as int));
    }
    assert forall|i: int| 0 <= i < before.files@.len() implies {
        &&& (#[trigger] after.files@[i]).0 == before.files@[i].0
        &&& after.files@[i].1@ == before.files@[i].1@
        &&& after.files@[i].2 == before.files@[i].2
    } by {
        assert(new[i] == old[i]);
    }
}

/// An upload goes back to the folder it was posted from, the root for none.
pub proof fn law_uploads_go_back_to_their_folder(folder: Seq<char>)
    ensures
        files::folder_address(None, None) == "/drive"@,
        files::folder_address(Some(Seq::empty()), None) == "/drive"@,
        folder.len() > 0 ==> files::folder_address(Some(folder), None) == "/drive?folder="@
            + folder,
{
}

/// A form that broke off is answered at once, back in its folder with the reason
/// on the address, and keeps what it had.
pub proof fn law_a_broken_form_is_answered(
    before: UploadForm,
    at: usize,
    after: UploadForm,
    answer: Option<Seq<char>>,
)
    requires
        files::form_heard(before, at, FormField::Broken, after, answer),
        before.folder is Some ==> text::free_of(before.folder->0@, '&') && text::free_of(
            before.folder->0@,
            '?',
        ),
    ensures
        after == before,
        answer is Some,
        address::refused_on(Some(query::path_and_query(answer->0).1), "upload"@) == Some(
            Refusal::Unavailable,
        ),
{
    let folder = text::opt_text(before.folder);
    law_refused_uploads_say_why(folder, Refusal::Unavailable);
}

/// A refused upload goes back to its folder with the reason on the address.
pub proof fn law_refused_uploads_say_why(folder: Option<Seq<char>>, refusal: Refusal)
    requires
        folder is Some ==> text::free_of(folder->0, '&') && text::free_of(folder->0, '?'),
    ensures
        ({
            let query = query::path_and_query(files::folder_address(folder, Some(refusal))).1;
            address::refused_on(Some(query), "upload"@) == Some(refusal)
        }),
{
    reveal_strlit("/drive");
    reveal_strlit("/drive?folder=");
    reveal_strlit("folder");
    reveal_strlit("refusal");
    reveal_strlit("on");
    reveal_strlit("why");
    reveal_strlit("saved");
    reveal_strlit("move");
    reveal_strlit("upload");
    let base = files::folder_address(folder, None);
    assert(text::free_of("/drive"@, '?'));
    assert(text::free_of("upload"@, '&'));
    laws_addresses::law_settling_keeps_the_rest("/drive"@, Seq::empty());
    match folder {
        Some(id) => {
            if id.len() > 0 {
                let pair = pair_of("folder"@, id);
                lemma_pair_of("folder"@, id);
                assert("folder"@.len() == 6 && "refusal"@.len() == 7 && "on"@.len() == 2
                    && "why"@.len() == 3 && "saved"@.len() == 5 && "move"@.len() == 4);
                let pairs = seq![pair];
                assert(base =~= address::with_pairs("/drive"@, pairs));
                laws_addresses::law_settling_keeps_the_rest("/drive"@, pairs);
            }
        },
        None => {},
    }
    assert(address::settled(base) == base);
    address::law_answer_is_read_back(base, "upload"@, refusal, false);
}

} // verus!
