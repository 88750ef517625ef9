//! Ways through the folders: up to the root, back again, and where a row may go.
use crate::laws::public::climbed;
use crate::model::{Folder, StoreError};
use crate::order;
use crate::walk;
use crate::walk::{BranchModel, CrumbStep, FolderReply, PathModel, TreeModel};
use vstd::prelude::*;

verus! {

/// Whether the folder at `k` of a path is the owner's, out of the trash, and
/// lies in the next one, the last one in the root of the drive.
pub open spec fn lies_in_next(path: Seq<Folder>, owner: Seq<char>, k: int) -> bool {
    &&& path[k].owner_id@ == owner
    &&& path[k].deleted_at is None
    &&& k + 1 < path.len() ==> path[k].parent_id is Some && path[k].parent_id->0@ == path[k + 1].id@
    &&& k + 1 == path.len() ==> path[k].parent_id is None
}

/// Whether a path of folders leads up to the root of the drive, over live
/// folders of the owner.
pub open spec fn leads_to_root(path: Seq<Folder>, owner: Seq<char>) -> bool {
    forall|k: int| 0 <= k < path.len() ==> #[trigger] lies_in_next(path, owner, k)
}

proof fn lemma_path(path: Seq<Folder>, owner: Seq<char>, replies: Seq<FolderReply>, k: int)
    requires
        leads_to_root(path, owner),
        climbed(replies, path),
        0 <= k < path.len(),
        k < replies.len(),
    ensures
        replies.len() >= path.len() ==> walk::climb(replies, owner, k) == PathModel::Open,
        replies.len() < path.len() ==> walk::climb(replies, owner, k) == PathModel::Look(
            path[replies.len() as int].id@,
        ),
    decreases path.len() - k,
{
    assert(replies[k] == Ok::<Option<Folder>, StoreError>(Some(path[k])));
    assert(lies_in_next(path, owner, k));
    if k + 1 < path.len() && k + 1 < replies.len() {
        lemma_path(path, owner, replies, k + 1);
    }
}

/// The folder an address names opens where it leads up to the root over the
/// account's own live folders; until the root is reached the next folder up is
/// looked for. An address that names none opens the root.
pub proof fn law_named_folders_open(
    owner: Seq<char>,
    wanted: Seq<char>,
    path: Seq<Folder>,
    replies: Seq<FolderReply>,
)
    requires
        wanted.len() > 0,
        path.len() > 0,
        leads_to_root(path, owner),
        climbed(replies, path),
    ensures
        walk::path_after(owner, None, replies) == PathModel::Root,
        walk::path_after(owner, Some(Seq::empty()), replies) == PathModel::Root,
        replies.len() == 0 ==> walk::path_after(owner, Some(wanted), replies) == PathModel::Look(
            wanted,
        ),
        0 < replies.len() < path.len() ==> walk::path_after(owner, Some(wanted), replies)
            == PathModel::Look(path[replies.len() as int].id@),
        replies.len() >= path.len() ==> walk::path_after(owner, Some(wanted), replies)
            == PathModel::Open,
{
    if replies.len() > 0 {
        lemma_path(path, owner, replies, 0);
    }
}

/// Whether the folders of a path are the owner's, live, and each has a parent.
pub open spec fn climbs_on(replies: Seq<FolderReply>, owner: Seq<char>, k: int) -> bool {
    replies[k] matches Ok(Some(folder)) && folder.owner_id@ == owner && folder.deleted_at is None
        && folder.parent_id is Some
}

proof fn lemma_broken_path(replies: Seq<FolderReply>, owner: Seq<char>, k: int, at: int)
    requires
        0 <= k <= at < replies.len(),
        forall|j: int| k <= j < at ==> #[trigger] climbs_on(replies, owner, j),
        match replies[at] {
            Ok(Some(folder)) => folder.owner_id@ != owner || folder.deleted_at is Some,
            _ => true,
        },
    ensures
        walk::climb(replies, owner, k) == PathModel::Missing,
    decreases at - k,
{
    if k < at {
        assert(climbs_on(replies, owner, k));
        lemma_broken_path(replies, owner, k + 1, at);
    }
}

/// A folder under somebody else's, under a trashed one or under one that is not
/// there is missing, and so is each of those itself.
pub proof fn law_closed_folders_are_missing(
    owner: Seq<char>,
    wanted: Seq<char>,
    replies: Seq<FolderReply>,
    at: int,
)
    requires
        wanted.len() > 0,
        0 <= at < replies.len(),
        forall|j: int| 0 <= j < at ==> #[trigger] climbs_on(replies, owner, j),
        match replies[at] {
            Ok(Some(folder)) => folder.owner_id@ != owner || folder.deleted_at is Some,
            _ => true,
        },
    ensures
        walk::path_after(owner, Some(wanted), replies) == PathModel::Missing,
{
    lemma_broken_path(replies, owner, 0, at);
}

/// Whether the folder at `k` of a way back lies in the next one, the last one in
/// the root of the drive.
pub open spec fn has_next(path: Seq<Folder>, k: int) -> bool {
    &&& k + 1 < path.len() ==> path[k].parent_id is Some && path[k].parent_id->0@ == path[k + 1].id@
    &&& k + 1 == path.len() ==> path[k].parent_id is None
}

proof fn lemma_back(path: Seq<Folder>, replies: Seq<FolderReply>, k: int)
    requires
        forall|j: int| 0 <= j < path.len() ==> #[trigger] has_next(path, j),
        climbed(replies, path.drop_first()),
        0 <= k < path.len(),
        k <= replies.len(),
    ensures
        replies.len() >= path.len() - 1 ==> walk::chain_from(path[k].parent_id, replies, k)
            == walk::ChainModel::Ends(path.len() - 1),
        replies.len() < path.len() - 1 ==> walk::chain_from(path[k].parent_id, replies, k)
            == walk::ChainModel::Look(path[replies.len() as int + 1].id@),
    decreases path.len() - k,
{
    assert(has_next(path, k));
    if k + 1 < path.len() && k < replies.len() {
        assert(replies[k] == Ok::<Option<Folder>, StoreError>(Some(path.drop_first()[k])));
        assert(path.drop_first()[k] == path[k + 1]);
        lemma_back(path, replies, k + 1);
    }
}

/// The way back from an open folder names every folder above it and itself, the
/// one under the root first, each under its own id; while it is not complete the
/// next folder up is looked for. The root has no way back.
pub proof fn law_the_way_back_names_every_folder(
    step: CrumbStep,
    at_root: CrumbStep,
    path: Seq<Folder>,
    replies: Seq<FolderReply>,
)
    requires
        path.len() > 0,
        forall|j: int| 0 <= j < path.len() ==> #[trigger] has_next(path, j),
        climbed(replies, path.drop_first()),
        walk::back_step(step, Some(path[0]), replies),
        walk::back_step(at_root, None, replies),
    ensures
        at_root matches CrumbStep::Done(crumbs) && crumbs@.len() == 0,
        replies.len() < path.len() - 1 ==> (step matches CrumbStep::Look(id) && id@
            == path[replies.len() as int + 1].id@),
        replies.len() >= path.len() - 1 ==> match step {
            CrumbStep::Done(crumbs) => {
                &&& crumbs@.len() == path.len()
                &&& forall|k: int|
                    0 <= k < crumbs@.len() ==> {
                        &&& (#[trigger] crumbs@[k]).id@ == path[path.len() - 1 - k].id@
                        &&& crumbs@[k].name@ == path[path.len() - 1 - k].name@
                    }
            },
            _ => false,
        },
{
    lemma_back(path, replies, 0);
    if replies.len() >= path.len() - 1 {
        let crumbs = step->Done_0@;
        let n = path.len() - 1;
        assert forall|k: int| 0 <= k < crumbs.len() implies {
            &&& (#[trigger] crumbs[k]).id@ == path[path.len() - 1 - k].id@
            &&& crumbs[k].name@ == path[path.len() - 1 - k].name@
        } by {
            if k < n {
                assert(walk::crumb_of(crumbs[k], walk::folder_in(replies[n - 1 - k])));
                assert(replies[n - 1 - k] == Ok::<Option<Folder>, StoreError>(
                    Some(path.drop_first()[n - 1 - k]),
                ));
                assert(path.drop_first()[n - 1 - k] == path[n - k]);
            }
        }
    }
}

/// The way back breaks off where a folder above cannot be read, and still ends
/// in the open folder.
pub proof fn law_the_way_back_ends_in_the_folder(
    step: CrumbStep,
    folder: Folder,
    replies: Seq<FolderReply>,
)
    requires
        walk::back_step(step, Some(folder), replies),
    ensures
        match step {
            CrumbStep::Done(crumbs) => crumbs@.len() > 0 && crumbs@.last().id@ == folder.id@
                && crumbs@.last().name@ == folder.name@,
            CrumbStep::Look(_) => true,
        },
        folder.parent_id is None ==> (step matches CrumbStep::Done(crumbs) && crumbs@.len() == 1),
        folder.parent_id is Some && replies.len() == 0 ==> (step matches CrumbStep::Look(id)
            && id@ == folder.parent_id->0@),
{
    lemma_chain_bounds(folder.parent_id, replies, 0);
}

proof fn lemma_chain_bounds(parent: Option<String>, replies: Seq<FolderReply>, i: int)
    requires
        0 <= i <= replies.len(),
    ensures
        match walk::chain_from(parent, replies, i) {
            walk::ChainModel::Ends(n) => i <= n <= replies.len(),
            walk::ChainModel::Look(_) => true,
        },
    decreases replies.len() - i,
{
    if parent is Some && i < replies.len() {
        match replies[i] {
            Ok(Some(folder)) => {
                lemma_chain_bounds(folder.parent_id, replies, i + 1);
            },
            _ => {},
        }
    }
}

/// A listing of one folder's folders adds each of them, under that folder and
/// under its path, and queues each to be listed in turn; a listing that failed
/// adds nothing. Whatever was found before stays.
pub proof fn law_listed_folders_are_found(
    tree: TreeModel,
    parent: Option<Seq<char>>,
    prefix: Seq<char>,
    folders: Seq<Folder>,
    k: int,
)
    requires
        tree.queue.len() > 0,
        tree.queue.last() == (parent, prefix),
        0 <= k < folders.len(),
    ensures
        walk::tree_after(tree, None).found == tree.found,
        walk::tree_after(tree, None).queue == tree.queue.drop_last(),
        ({
            let next = walk::tree_after(tree, Some(folders));
            let fresh = next.found[tree.found.len() + k];
            &&& next.found.len() == tree.found.len() + folders.len()
            &&& next.found.take(tree.found.len() as int) == tree.found
            &&& next.queue.len() == tree.queue.len() - 1 + folders.len()
            &&& fresh.id == folders[k].id@
            &&& fresh.name == folders[k].name@
            &&& fresh.parent == parent
            &&& fresh.path == if prefix.len() == 0 {
                folders[k].name@
            } else {
                prefix + " / "@ + folders[k].name@
            }
            &&& next.queue[tree.queue.len() - 1 + k] == (Some(folders[k].id@), fresh.path)
        }),
{
    let next = walk::tree_after(tree, Some(folders));
    assert(next.found.take(tree.found.len() as int) =~= tree.found);
}

/// A folder that is moved is never offered as its own destination, nor is any
/// folder straight inside one that is not offered; a file may go anywhere.
pub proof fn law_moves_never_nest(
    found: Seq<BranchModel>,
    moving: Seq<char>,
    j: int,
    i: int,
)
    requires
        0 <= j < i < found.len(),
        found[i].parent == Some(found[j].id),
        walk::within(found, moving, j) || found[i].id == moving,
    ensures
        walk::within(found, moving, i),
        !(walk::landings(found, None, found.len() as int).len() < found.len()),
{
    lemma_all_landings(found, found.len() as int);
}

proof fn lemma_all_landings(found: Seq<BranchModel>, n: int)
    requires
        0 <= n <= found.len(),
    ensures
        walk::landings(found, None, n) == found.take(n),
    decreases n,
{
    if n > 0 {
        lemma_all_landings(found, n - 1);
        assert(found.take(n) =~= found.take(n - 1).push(found[n - 1]));
    } else {
        assert(found.take(0) =~= Seq::<BranchModel>::empty());
    }
}

/// The destinations of a move are the folders it may end in, each once, in the
/// order of their paths.
pub proof fn law_destinations_stand_by_their_path(
    shown: Seq<BranchModel>,
    found: Seq<BranchModel>,
    moving: Option<Seq<char>>,
)
    requires
        walk::offers(shown, found, moving),
    ensures
        shown.to_multiset() == walk::landings(found, moving, found.len() as int).to_multiset(),
        moving is None ==> shown.to_multiset() == found.to_multiset(),
        forall|i: int, j: int|
            #![trigger shown[i], shown[j]]
            0 <= i < j < shown.len() ==> order::in_dictionary_order(shown[i].path, shown[j].path),
{
    let free = walk::landings(found, moving, found.len() as int);
    let ranks = free.map_values(|b: BranchModel| walk::branch_rank(b));
    order::law_arranging_keeps_every_row(free, ranks, false, shown);
    assert forall|i: int, j: int|
        #![trigger shown[i], shown[j]]
        0 <= i < j < shown.len() implies order::in_dictionary_order(
        shown[i].path,
        shown[j].path,
    ) by {
        let (a, b) = order::lemma_positions(free, ranks, false, shown[i], shown[j]);
        order::lemma_ranks_in_order(ranks[a], ranks[b]);
    }
    if moving is None {
        lemma_all_landings(found, found.len() as int);
        assert(found.take(found.len() as int) =~= found);
    }
}

} // verus!
