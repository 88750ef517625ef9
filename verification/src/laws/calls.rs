//! The calls that change rows: on whose rows they act, and how they answer.
use crate::address;
use crate::drive;
use crate::drive::Redirect;
use crate::files;
use crate::guard;
use crate::guard::{Demand, Plan, Row, Verdict};
use crate::model::{ShareKind, ShareLink, StoreError, User};
use crate::refusal::Refusal;
use crate::share;
use crate::share::RevokeStep;
use crate::text;
use crate::trash;
use crate::upload;
use vstd::prelude::*;

verus! {

/// A call on one row: the row that is looked up is the one the form names, and
/// the call goes ahead exactly where it is the caller's and as the call wants
/// it. A row that is not there, somebody else's, or in the wrong place is not
/// found, and a store that fails to say answers with the call's own word.
pub proof fn law_one_row(
    plan: Plan,
    kind: ShareKind,
    id: Seq<char>,
    demand: Demand,
    on_error: Refusal,
    user: User,
    row: Row,
    error: StoreError,
)
    requires
        plan matches Plan::Needs(needs) && needs@.len() == 1 && drive::need_is(
            needs@[0],
            kind,
            id,
            demand,
            on_error,
        ),
    ensures
        guard::verdict_of(Ok(user), plan, Seq::empty()) == Verdict::Look(0),
        guard::verdict_of(Ok(user), plan, seq![Ok(None)]) == Verdict::Refuse(Refusal::NotFound),
        guard::verdict_of(Ok(user), plan, seq![Err(error)]) == Verdict::Refuse(on_error),
        row.owner_id@ != user.id@ ==> guard::verdict_of(Ok(user), plan, seq![Ok(Some(row))])
            == Verdict::Refuse(Refusal::NotFound),
        row.owner_id@ == user.id@ && demand == Demand::Live ==> guard::verdict_of(
            Ok(user),
            plan,
            seq![Ok(Some(row))],
        ) == if row.trashed {
            Verdict::Refuse(Refusal::NotFound)
        } else {
            Verdict::Go
        },
        row.owner_id@ == user.id@ && demand == Demand::Trashed ==> guard::verdict_of(
            Ok(user),
            plan,
            seq![Ok(Some(row))],
        ) == if row.trashed {
            Verdict::Go
        } else {
            Verdict::Refuse(Refusal::NotFound)
        },
        row.owner_id@ == user.id@ && demand == Demand::Any ==> guard::verdict_of(
            Ok(user),
            plan,
            seq![Ok(Some(row))],
        ) == Verdict::Go,
{
    let needs = plan->Needs_0@;
    let good: Seq<Result<Option<Row>, StoreError>> = seq![Ok(Some(row))];
    let none: Seq<Result<Option<Row>, StoreError>> = Seq::empty();
    assert(guard::first_refusal(needs, good, user.id@, 1) is None);
    assert(guard::first_refusal(needs, none, user.id@, 0) is None);
}

/// Nobody signed in is refused with the reason they are not, and a call that was
/// refused before any look-up stays refused.
pub proof fn law_refused_before_any_look_up(
    user: Result<User, Refusal>,
    plan: Plan,
    replies: Seq<Result<Option<Row>, StoreError>>,
    refusal: Refusal,
)
    ensures
        user == Err::<User, Refusal>(refusal) ==> guard::verdict_of(user, plan, replies)
            == Verdict::Refuse(refusal),
        user is Ok && plan == Plan::Refused(refusal) ==> guard::verdict_of(user, plan, replies)
            == Verdict::Refuse(refusal),
{
}

/// Sharing takes the caller's own live file or folder, unsharing takes it
/// trashed or not, and restoring and purging take it only out of the trash. A
/// kind that is neither is not found.
pub proof fn law_which_rows_may_be_shared_and_restored(
    shared: Plan,
    unshared: Plan,
    restored: Plan,
    kind: Seq<char>,
    id: Seq<char>,
    user: User,
    row: Row,
    error: StoreError,
)
    requires
        share::plans_share(shared, kind, id),
        share::plans_unshare(unshared, kind, id),
        trash::plans_trash(restored, kind, id),
    ensures
        kind != "file"@ && kind != "folder"@ ==> {
            &&& guard::verdict_of(Ok(user), shared, Seq::empty()) == Verdict::Refuse(
                Refusal::NotFound,
            )
            &&& guard::verdict_of(Ok(user), unshared, Seq::empty()) == Verdict::Refuse(
                Refusal::NotFound,
            )
            &&& guard::verdict_of(Ok(user), restored, Seq::empty()) == Verdict::Refuse(
                Refusal::NotFound,
            )
        },
        kind == "file"@ || kind == "folder"@ ==> {
            let mine = row.owner_id@ == user.id@;
            let found = seq![Ok::<Option<Row>, StoreError>(Some(row))];
            &&& guard::verdict_of(Ok(user), shared, found) == Verdict::Go <==> mine && !row.trashed
            &&& guard::verdict_of(Ok(user), unshared, found) == Verdict::Go <==> mine
            &&& guard::verdict_of(Ok(user), restored, found) == Verdict::Go <==> mine
                && row.trashed
            &&& guard::verdict_of(Ok(user), shared, seq![Err(error)]) == Verdict::Refuse(
                Refusal::Unavailable,
            )
            &&& guard::verdict_of(Ok(user), unshared, seq![Err(error)]) == Verdict::Refuse(
                Refusal::Unavailable,
            )
            &&& guard::verdict_of(Ok(user), restored, seq![Err(error)]) == Verdict::Refuse(
                Refusal::Unavailable,
            )
            &&& guard::verdict_of(Ok(user), shared, seq![Ok(None)]) == Verdict::Refuse(
                Refusal::NotFound,
            )
        },
        kind == "file"@ ==> asks_only_for(shared, ShareKind::File, id) && asks_only_for(
            unshared,
            ShareKind::File,
            id,
        ) && asks_only_for(restored, ShareKind::File, id),
        kind == "folder"@ ==> asks_only_for(shared, ShareKind::Folder, id) && asks_only_for(
            unshared,
            ShareKind::Folder,
            id,
        ) && asks_only_for(restored, ShareKind::Folder, id),
{
    reveal_strlit("file");
    reveal_strlit("folder");
    assert("file"@.len() != "folder"@.len());
    if kind == "file"@ || kind == "folder"@ {
        let named = if kind == "file"@ {
            ShareKind::File
        } else {
            ShareKind::Folder
        };
        law_one_row(shared, named, id, Demand::Live, Refusal::Unavailable, user, row, error);
        law_one_row(unshared, named, id, Demand::Any, Refusal::Unavailable, user, row, error);
        law_one_row(restored, named, id, Demand::Trashed, Refusal::Unavailable, user, row, error);
    }
}

/// Whether a plan looks up one row and no other.
pub open spec fn asks_only_for(plan: Plan, kind: ShareKind, id: Seq<char>) -> bool {
    plan matches Plan::Needs(needs) && needs@.len() == 1 && needs@[0].kind == kind && needs@[0].id@
        == id
}

/// Whether a plan looks up one row and then a folder.
pub open spec fn asks_for_both(plan: Plan, kind: ShareKind, id: Seq<char>, folder: Seq<char>) -> bool {
    plan matches Plan::Needs(needs) && needs@.len() == 2 && needs@[0].kind == kind && needs@[0].id@
        == id && needs@[1].kind == ShareKind::Folder && needs@[1].id@ == folder
}

/// Renaming and trashing take the caller's own live row and nothing else.
pub proof fn law_which_rows_may_be_renamed(
    folder_plan: Plan,
    file_plan: Plan,
    id: Seq<char>,
    user: User,
    row: Row,
    error: StoreError,
)
    requires
        drive::plans_folder(folder_plan, id),
        files::plans_file(file_plan, id),
    ensures
        asks_only_for(folder_plan, ShareKind::Folder, id),
        asks_only_for(file_plan, ShareKind::File, id),
        guard::verdict_of(Ok(user), folder_plan, seq![Ok(Some(row))]) == Verdict::Go
            <==> row.owner_id@ == user.id@ && !row.trashed,
        guard::verdict_of(Ok(user), file_plan, seq![Ok(Some(row))]) == Verdict::Go
            <==> row.owner_id@ == user.id@ && !row.trashed,
        guard::verdict_of(Ok(user), folder_plan, seq![Ok(None)]) == Verdict::Refuse(
            Refusal::NotFound,
        ),
        guard::verdict_of(Ok(user), file_plan, seq![Ok(None)]) == Verdict::Refuse(
            Refusal::NotFound,
        ),
        guard::verdict_of(Ok(user), folder_plan, seq![Err(error)]) == Verdict::Refuse(
            Refusal::NotFound,
        ),
        guard::verdict_of(Ok(user), file_plan, seq![Err(error)]) == Verdict::Refuse(
            Refusal::NotFound,
        ),
{
    law_one_row(
        folder_plan,
        ShareKind::Folder,
        id,
        Demand::Live,
        Refusal::NotFound,
        user,
        row,
        error,
    );
    law_one_row(file_plan, ShareKind::File, id, Demand::Live, Refusal::NotFound, user, row, error);
}

/// Moving takes the caller's own live row and, unless it goes to the root, the
/// caller's own live folder; moving to the root asks for the row alone.
pub proof fn law_which_rows_may_be_moved(
    folder_plan: Plan,
    file_plan: Plan,
    id: Seq<char>,
    to: Seq<char>,
    user: User,
    row: Row,
    place: Row,
)
    requires
        drive::plans_folder_move(folder_plan, id, to),
        files::plans_file_move(file_plan, id, to),
    ensures
        to.len() == 0 ==> {
            let found = seq![Ok::<Option<Row>, StoreError>(Some(row))];
            &&& asks_only_for(folder_plan, ShareKind::Folder, id)
            &&& asks_only_for(file_plan, ShareKind::File, id)
            &&& guard::verdict_of(Ok(user), folder_plan, found) == Verdict::Go <==> row.owner_id@
                == user.id@ && !row.trashed
            &&& guard::verdict_of(Ok(user), file_plan, found) == Verdict::Go <==> row.owner_id@
                == user.id@ && !row.trashed
        },
        to.len() > 0 ==> {
            let found = seq![
                Ok::<Option<Row>, StoreError>(Some(row)),
                Ok::<Option<Row>, StoreError>(Some(place)),
            ];
            let theirs = row.owner_id@ == user.id@ && !row.trashed && place.owner_id@ == user.id@
                && !place.trashed;
            &&& asks_for_both(folder_plan, ShareKind::Folder, id, to)
            &&& asks_for_both(file_plan, ShareKind::File, id, to)
            &&& guard::verdict_of(Ok(user), folder_plan, found) == if theirs {
                Verdict::Go
            } else {
                Verdict::Refuse(Refusal::NotFound)
            }
            &&& guard::verdict_of(Ok(user), file_plan, found) == if theirs {
                Verdict::Go
            } else {
                Verdict::Refuse(Refusal::NotFound)
            }
        },
{
    let one = seq![Ok::<Option<Row>, StoreError>(Some(row))];
    let two = seq![
        Ok::<Option<Row>, StoreError>(Some(row)),
        Ok::<Option<Row>, StoreError>(Some(place)),
    ];
    reveal_with_fuel(guard::first_refusal, 3);
    assert(one.len() == 1 && two.len() == 2);
}

/// A folder is made, and a file put, in the caller's own live folder or in the
/// root, for which nothing is looked up.
pub proof fn law_where_new_rows_may_go(
    made: Plan,
    put: Plan,
    started: Plan,
    to: Seq<char>,
    user: User,
    place: Row,
    error: StoreError,
)
    requires
        drive::plans_create(made, to),
        files::plans_upload(put, Some(to)),
        upload::plans_start(started, Some(to)),
    ensures
        to.len() == 0 ==> {
            &&& guard::verdict_of(Ok(user), made, Seq::empty()) == Verdict::Go
            &&& guard::verdict_of(Ok(user), put, Seq::empty()) == Verdict::Go
            &&& guard::verdict_of(Ok(user), started, Seq::empty()) == Verdict::Go
        },
        to.len() > 0 ==> {
            let found = seq![Ok::<Option<Row>, StoreError>(Some(place))];
            let open = place.owner_id@ == user.id@ && !place.trashed;
            &&& asks_only_for(made, ShareKind::Folder, to)
            &&& asks_only_for(put, ShareKind::Folder, to)
            &&& asks_only_for(started, ShareKind::Folder, to)
            &&& guard::verdict_of(Ok(user), made, found) == Verdict::Go <==> open
            &&& guard::verdict_of(Ok(user), put, found) == Verdict::Go <==> open
            &&& guard::verdict_of(Ok(user), started, found) == Verdict::Go <==> open
            &&& guard::verdict_of(Ok(user), started, seq![Err(error)]) == Verdict::Refuse(
                Refusal::Unavailable,
            )
        },
{
    if to.len() > 0 {
        law_one_row(
            made,
            ShareKind::Folder,
            to,
            Demand::Live,
            Refusal::NotFound,
            user,
            place,
            error,
        );
        law_one_row(put, ShareKind::Folder, to, Demand::Live, Refusal::NotFound, user, place, error);
        law_one_row(
            started,
            ShareKind::Folder,
            to,
            Demand::Live,
            Refusal::Unavailable,
            user,
            place,
            error,
        );
    }
}

/// An upload without a destination goes to the root.
pub proof fn law_no_destination_is_the_root(put: Plan, started: Plan, user: User)
    requires
        files::plans_upload(put, None),
        upload::plans_start(started, None),
    ensures
        guard::verdict_of(Ok(user), put, Seq::empty()) == Verdict::Go,
        guard::verdict_of(Ok(user), started, Seq::empty()) == Verdict::Go,
{
}

/// Every surface says the same of a store that is full, of a row that is not
/// there and of one that is somebody else's, and never tells the last two apart.
/// Only the drive knows of cycles, only sharing and restoring of a trashed
/// parent, only uploads of chunks and of sessions that ran out.
pub proof fn law_what_the_store_says_is_put_in_words(error: StoreError)
    ensures
        error == StoreError::NotFound || error == StoreError::CrossOwner ==> {
            &&& drive::drive_words(error) == Refusal::NotFound
            &&& files::file_words(error) == Refusal::NotFound
            &&& share::share_words(error) == Refusal::NotFound
        },
        error == StoreError::QuotaExceeded ==> {
            &&& drive::drive_words(error) == Refusal::QuotaExceeded
            &&& files::file_words(error) == Refusal::QuotaExceeded
            &&& share::share_words(error) == Refusal::QuotaExceeded
        },
        error == StoreError::Cycle ==> drive::drive_words(error) == Refusal::Forbidden,
        error == StoreError::AncestorTrashed ==> share::share_words(error)
            == Refusal::AncestorTrashed,
        error == StoreError::UploadExpired ==> files::file_words(error) == Refusal::UploadExpired,
        error == StoreError::BadChunk ==> files::file_words(error) == Refusal::BadChunk,
        drive::drive_words(error) == Refusal::NotFound ==> error == StoreError::NotFound || error
            == StoreError::CrossOwner,
        files::file_words(error) == Refusal::NotFound ==> error == StoreError::NotFound || error
            == StoreError::CrossOwner,
        share::share_words(error) == Refusal::NotFound ==> error == StoreError::NotFound || error
            == StoreError::CrossOwner,
        drive::drive_words(error) == Refusal::QuotaExceeded ==> error == StoreError::QuotaExceeded,
        files::file_words(error) == Refusal::QuotaExceeded ==> error == StoreError::QuotaExceeded,
        share::share_words(error) == Refusal::QuotaExceeded ==> error == StoreError::QuotaExceeded,
        drive::drive_words(error) == Refusal::Forbidden ==> error == StoreError::Cycle,
        share::share_words(error) == Refusal::AncestorTrashed ==> error
            == StoreError::AncestorTrashed,
{
}

/// A call on a folder or a file that went through says nothing; one that did not
/// says why. Either way the browser goes back where it was.
pub proof fn law_changed_rows_answer_alike(
    of_folder: Redirect,
    of_file: Redirect,
    referer: Option<Seq<char>>,
    outcome: Result<(), StoreError>,
)
    requires
        drive::folder_changed(of_folder, referer, outcome),
        files::file_changed(of_file, referer, outcome),
    ensures
        outcome is Ok ==> of_folder.refusal is None && of_file.refusal is None,
        outcome is Err ==> of_folder.refusal == Some(drive::drive_words(outcome->Err_0))
            && of_file.refusal == Some(files::file_words(outcome->Err_0)),
        outcome == Err::<(), StoreError>(StoreError::NotFound) || outcome == Err::<(), StoreError>(
            StoreError::CrossOwner,
        ) ==> of_folder.refusal == Some(Refusal::NotFound) && of_file.refusal == Some(
            Refusal::NotFound,
        ),
        outcome == Err::<(), StoreError>(StoreError::Cycle) ==> of_folder.refusal == Some(
            Refusal::Forbidden,
        ),
        of_folder.location@ == of_file.location@,
        of_folder.location@ == address::settled(
            match referer {
                Some(page) => page,
                None => "/drive"@,
            },
        ),
{
}

/// A folder without a name is made under the phrase for a new one and opens for
/// renaming; a named one is made as it is called and the browser goes back. The
/// root is an empty field.
pub proof fn law_new_folders(
    made: drive::NewFolder,
    sent: Redirect,
    parent: Seq<char>,
    name: Seq<char>,
    lang: crate::i18n::Lang,
    referer: Option<Seq<char>>,
    outcome: Result<String, StoreError>,
)
    requires
        drive::folder_asked(made, parent, name, lang),
        drive::folder_created(sent, referer, made, outcome),
    ensures
        parent.len() == 0 <==> made.parent is None,
        made.parent is Some ==> made.parent->0@ == parent,
        text::trimmed(name).len() > 0 ==> made.name@ == name,
        outcome is Err ==> sent.refusal == Some(drive::drive_words(outcome->Err_0)),
        outcome is Ok ==> sent.refusal is None,
        outcome is Ok && text::trimmed(name).len() == 0 && parent.len() == 0 ==> sent.location@
            == "/drive?edit="@ + outcome->Ok_0@,
        outcome is Ok && text::trimmed(name).len() == 0 && parent.len() > 0 ==> sent.location@
            == "/drive?folder="@ + parent + "&edit="@ + outcome->Ok_0@,
        outcome is Err || text::trimmed(name).len() > 0 ==> sent.location@ == address::settled(
            match referer {
                Some(page) => page,
                None => "/drive"@,
            },
        ),
{
}

/// Only the account that made a link revokes it; to everyone else the link was
/// never there.
pub proof fn law_only_the_maker_revokes(
    user: User,
    links: Vec<ShareLink>,
    id: Seq<char>,
    at: int,
    refusal: Refusal,
    error: StoreError,
)
    ensures
        share::revoke_after(Err(refusal), None, id) == RevokeStep::Refuse(refusal),
        share::revoke_after(Ok(user), None, id) == RevokeStep::ListLinks,
        share::revoke_after(Ok(user), Some(Err(error)), id) == RevokeStep::Refuse(
            Refusal::Unavailable,
        ),
        0 <= at < links@.len() && links@[at].id@ == id && links@[at].created_by@ == user.id@
            ==> share::revoke_after(Ok(user), Some(Ok(links)), id) == RevokeStep::Revoke,
        (forall|i: int|
            0 <= i < links@.len() && (#[trigger] links@[i]).id@ == id ==> links@[i].created_by@
                != user.id@) ==> share::revoke_after(Ok(user), Some(Ok(links)), id)
            == RevokeStep::Refuse(Refusal::NotFound),
{
}

/// A grant goes to the account its address found, and to nobody where there is
/// none or the store fails to say.
pub proof fn law_grants_go_to_the_account_found(
    answer: Result<String, Refusal>,
    found: Result<Option<User>, StoreError>,
)
    requires
        share::names_grantee(answer, found),
    ensures
        match found {
            Ok(Some(user)) => answer is Ok && answer->Ok_0@ == user.id@,
            _ => answer == Err::<String, Refusal>(Refusal::NotFound),
        },
{
}

/// A file that was not there to purge is not found, one that went is gone, and a
/// folder's purge goes by the store's word alone.
pub proof fn law_purges(kind: ShareKind, gone: bool, error: StoreError)
    ensures
        trash::purge_refusal(ShareKind::File, Ok(true)) is None,
        trash::purge_refusal(ShareKind::File, Ok(false)) == Some(Refusal::NotFound),
        trash::purge_refusal(ShareKind::Folder, Ok(gone)) is None,
        trash::purge_refusal(kind, Err(error)) is Some,
        error == StoreError::NotFound || error == StoreError::CrossOwner ==> trash::purge_refusal(
            kind,
            Err(error),
        ) == Some(Refusal::NotFound),
{
}

/// The look-ups of a move go one by one, the row before its destination, and the
/// first that does not find what it needs decides the answer.
pub proof fn law_the_first_look_up_decides(
    plan: Plan,
    id: Seq<char>,
    to: Seq<char>,
    user: User,
    row: Row,
    second: Result<Option<Row>, StoreError>,
    error: StoreError,
)
    requires
        drive::plans_folder_move(plan, id, to),
        to.len() > 0,
    ensures
        guard::verdict_of(Ok(user), plan, Seq::empty()) == Verdict::Look(0),
        row.owner_id@ == user.id@ && !row.trashed ==> {
            &&& guard::verdict_of(Ok(user), plan, seq![Ok(Some(row))]) == Verdict::Look(1)
            &&& guard::verdict_of(Ok(user), plan, seq![Ok(Some(row)), Ok(None)]) == Verdict::Refuse(
                Refusal::NotFound,
            )
        },
        row.owner_id@ != user.id@ || row.trashed ==> {
            &&& guard::verdict_of(Ok(user), plan, seq![Ok(Some(row))]) == Verdict::Refuse(
                Refusal::NotFound,
            )
            &&& guard::verdict_of(Ok(user), plan, seq![Ok(Some(row)), second]) == Verdict::Refuse(
                Refusal::NotFound,
            )
        },
        guard::verdict_of(Ok(user), plan, seq![Err(error)]) == Verdict::Refuse(Refusal::NotFound),
{
    reveal_with_fuel(guard::first_refusal, 3);
    let none: Seq<Result<Option<Row>, StoreError>> = Seq::empty();
    let one: Seq<Result<Option<Row>, StoreError>> = seq![Ok(Some(row))];
    let two: Seq<Result<Option<Row>, StoreError>> = seq![Ok(Some(row)), second];
    assert(none.len() == 0 && one.len() == 1 && two.len() == 2);
}

} // verus!
