//! What must hold of the rows a call names before the store is asked to change
//! anything.
//!
//! A call states its needs: which rows it touches and in what shape. The caller
//! looks the rows up one after the other and asks for the verdict after each,
//! so nothing is read for a browser with nobody in it, and nothing is written
//! before every row was seen to be the caller's own.
use crate::model::{File, Folder, ShareKind, StoreError, User};
use crate::refusal::Refusal;
use crate::text;
use vstd::prelude::*;

verus! {

/// The shape a row must be in.
#[derive(Clone, Copy, Debug, PartialEq, Eq, Structural)]
pub enum Demand {
    /// Out of the trash.
    Live,
    /// In the trash.
    Trashed,
    /// Either.
    Any,
}

/// One row a call touches.
#[derive(Debug)]
pub struct Need {
    pub kind: ShareKind,
    pub id: String,
    pub demand: Demand,
    /// What a failing lookup is answered with.
    pub on_error: Refusal,
}

/// What the store says of a row.
#[derive(Debug)]
pub struct Row {
    pub owner_id: String,
    pub trashed: bool,
}

/// What a call asks for: rows, or nothing at all because the call itself makes
/// no sense.
#[derive(Debug)]
pub enum Plan {
    Needs(Vec<Need>),
    Refused(Refusal),
}

/// What to do next.
#[derive(Clone, Copy, Debug, PartialEq, Eq, Structural)]
pub enum Verdict {
    /// Look the need at this position up.
    Look(usize),
    /// Ask the store for the change.
    Go,
    /// Answer with the refusal.
    Refuse(Refusal),
}

/// Whether a row is in the shape demanded.
pub open spec fn in_shape(trashed: bool, demand: Demand) -> bool {
    match demand {
        Demand::Live => !trashed,
        Demand::Trashed => trashed,
        Demand::Any => true,
    }
}

/// Whether a lookup found the caller's own row in the shape demanded.
pub open spec fn found_own(
    reply: Result<Option<Row>, StoreError>,
    owner: Seq<char>,
    demand: Demand,
) -> bool {
    match reply {
        Ok(Some(row)) => row.owner_id@ == owner && in_shape(row.trashed, demand),
        _ => false,
    }
}

/// What a lookup is answered with, where it does not find what is needed. A row
/// of somebody else's is not found, never forbidden.
pub open spec fn refused_by(
    need: Need,
    reply: Result<Option<Row>, StoreError>,
    owner: Seq<char>,
) -> Option<Refusal> {
    match reply {
        Err(_) => Some(need.on_error),
        _ => if found_own(reply, owner, need.demand) {
            None
        } else {
            Some(Refusal::NotFound)
        },
    }
}

/// The refusal of the first lookup from `from` on that does not find what is
/// needed.
pub open spec fn first_refusal(
    needs: Seq<Need>,
    replies: Seq<Result<Option<Row>, StoreError>>,
    owner: Seq<char>,
    from: int,
) -> Option<Refusal>
    decreases needs.len() - from,
{
    if from < 0 || from >= needs.len() || from >= replies.len() {
        None
    } else if refused_by(needs[from], replies[from], owner) is Some {
        refused_by(needs[from], replies[from], owner)
    } else {
        first_refusal(needs, replies, owner, from + 1)
    }
}

/// The verdict on a call after the lookups answered so far.
pub open spec fn verdict_of(
    user: Result<User, Refusal>,
    plan: Plan,
    replies: Seq<Result<Option<Row>, StoreError>>,
) -> Verdict {
    match user {
        Err(refusal) => Verdict::Refuse(refusal),
        Ok(user) => match plan {
            Plan::Refused(refusal) => Verdict::Refuse(refusal),
            Plan::Needs(needs) => match first_refusal(needs@, replies, user.id@, 0) {
                Some(refusal) => Verdict::Refuse(refusal),
                None => if replies.len() < needs@.len() {
                    Verdict::Look(replies.len() as usize)
                } else {
                    Verdict::Go
                },
            },
        },
    }
}

/// Whether a row is a file's.
pub open spec fn row_of_file(row: Row, file: File) -> bool {
    row.owner_id@ == file.owner_id@ && row.trashed == (file.deleted_at is Some)
}

/// A file's row.
pub fn file_row(file: &File) -> (r: Row)
    ensures
        row_of_file(r, *file),
{
    Row { owner_id: file.owner_id.clone(), trashed: file.deleted_at.is_some() }
}

/// Whether a row is a folder's.
pub open spec fn row_of_folder(row: Row, folder: Folder) -> bool {
    row.owner_id@ == folder.owner_id@ && row.trashed == (folder.deleted_at is Some)
}

/// A folder's row.
pub fn folder_row(folder: &Folder) -> (r: Row)
    ensures
        row_of_folder(r, *folder),
{
    Row { owner_id: folder.owner_id.clone(), trashed: folder.deleted_at.is_some() }
}

/// The refusal of the first lookup that does not find what is needed.
fn refusal_among(
    needs: &Vec<Need>,
    replies: &Vec<Result<Option<Row>, StoreError>>,
    owner: &str,
) -> (r: Option<Refusal>)
    ensures
        r == first_refusal(needs@, replies@, owner@, 0),
{
    let mut i: usize = 0;
    while i < needs.len() && i < replies.len()
        invariant
            i <= needs.len(),
            i <= replies.len(),
            first_refusal(needs@, replies@, owner@, 0) == first_refusal(
                needs@,
                replies@,
                owner@,
                i as int,
            ),
        decreases needs.len() - i,
    {
        let need = &needs[i];
        match &replies[i] {
            Ok(Some(row)) => {
                let shaped = match need.demand {
                    Demand::Live => !row.trashed,
                    Demand::Trashed => row.trashed,
                    Demand::Any => true,
                };
                if !text::same(&row.owner_id, owner) || !shaped {
                    return Some(Refusal::NotFound);
                }
            },
            Ok(None) => return Some(Refusal::NotFound),
            Err(_) => return Some(need.on_error),
        }
        i += 1;
    }
    None
}

/// What to do next about a call, see [`verdict_of`].
pub fn verdict(
    user: &Result<User, Refusal>,
    plan: &Plan,
    replies: &Vec<Result<Option<Row>, StoreError>>,
) -> (r: Verdict)
    ensures
        r == verdict_of(*user, *plan, replies@),
{
    match user {
        Err(refusal) => Verdict::Refuse(*refusal),
        Ok(user) => match plan {
            Plan::Refused(refusal) => Verdict::Refuse(*refusal),
            Plan::Needs(needs) => match refusal_among(needs, replies, &user.id) {
                Some(refusal) => Verdict::Refuse(refusal),
                None => if replies.len() < needs.len() {
                    Verdict::Look(replies.len())
                } else {
                    Verdict::Go
                },
            },
        },
    }
}

/// One row, needed in that shape.
pub fn one_need(kind: ShareKind, id: &str, demand: Demand, on_error: Refusal) -> (r: Need)
    ensures
        r.kind == kind,
        r.id@ == id@,
        r.demand == demand,
        r.on_error == on_error,
{
    Need { kind, id: id.to_owned(), demand, on_error }
}

proof fn lemma_no_refusal(
    needs: Seq<Need>,
    replies: Seq<Result<Option<Row>, StoreError>>,
    owner: Seq<char>,
    from: int,
)
    requires
        0 <= from,
    ensures
        first_refusal(needs, replies, owner, from) is None <==> forall|i: int|
            from <= i < needs.len() && i < replies.len() ==> found_own(
                #[trigger] replies[i],
                owner,
                needs[i].demand,
            ),
    decreases needs.len() - from,
{
    if from < needs.len() && from < replies.len() {
        lemma_no_refusal(needs, replies, owner, from + 1);
    }
}

/// The store is asked for a change by somebody signed in, once every row the
/// call touches was found to be theirs and in shape, and never otherwise.
pub proof fn law_go_means_every_row_is_the_callers(
    user: Result<User, Refusal>,
    plan: Plan,
    replies: Seq<Result<Option<Row>, StoreError>>,
)
    ensures
        verdict_of(user, plan, replies) == Verdict::Go <==> match (user, plan) {
            (Ok(user), Plan::Needs(needs)) => {
                &&& replies.len() >= needs@.len()
                &&& forall|i: int|
                    0 <= i < needs@.len() ==> found_own(
                        #[trigger] replies[i],
                        user.id@,
                        needs@[i].demand,
                    )
            },
            _ => false,
        },
{
    match (user, plan) {
        (Ok(user), Plan::Needs(needs)) => {
            lemma_no_refusal(needs@, replies, user.id@, 0);
        },
        _ => {},
    }
}

/// Nothing is looked up for a browser with nobody in it.
pub proof fn law_nobody_reads_nothing(
    refusal: Refusal,
    plan: Plan,
    replies: Seq<Result<Option<Row>, StoreError>>,
)
    ensures
        verdict_of(Err(refusal), plan, replies) == Verdict::Refuse(refusal),
{
}

/// A row of somebody else's is answered exactly like a row that is not there:
/// not found, whoever it belongs to.
pub proof fn law_cross_owner_is_not_found(
    need: Need,
    row: Row,
    owner: Seq<char>,
)
    requires
        row.owner_id@ != owner,
    ensures
        refused_by(need, Ok(Some(row)), owner) == refused_by(need, Ok(None), owner),
        refused_by(need, Ok(Some(row)), owner) == Some(Refusal::NotFound),
{
}

} // verus!
