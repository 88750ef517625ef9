//! Public links: what a token opens, and what it keeps closed.
use crate::model::{File, Folder, ShareKind, ShareLink, StoreError};
use crate::share;
use crate::share::{PublicFacts, PublicModel, SharedQuery};
use crate::walk;
use crate::walk::FolderReply;
use vstd::prelude::*;

verus! {

/// Whether the folder at `k` of a path is the owner's, out of the trash, and
/// lies in the next one, the last one in `root` itself.
pub open spec fn lies_under(path: Seq<Folder>, owner: Seq<char>, root: Seq<char>, k: int) -> bool {
    &&& path[k].owner_id@ == owner
    &&& path[k].deleted_at is None
    &&& match path[k].parent_id {
        Some(parent) => parent@ != path[k].id@ && parent@ == if k + 1 < path.len() {
            path[k + 1].id@
        } else {
            root
        },
        None => false,
    }
}

/// Whether a path of folders leads up to `root`, over live folders of the owner.
pub open spec fn leads_up(path: Seq<Folder>, owner: Seq<char>, root: Seq<char>) -> bool {
    forall|k: int| 0 <= k < path.len() ==> #[trigger] lies_under(path, owner, root, k)
}

/// Whether the store answered the climb with the folders of a path, as far as
/// the two go together.
pub open spec fn climbed(replies: Seq<FolderReply>, path: Seq<Folder>) -> bool {
    forall|k: int|
        0 <= k < path.len() && k < replies.len() ==> #[trigger] replies[k] == Ok::<
            Option<Folder>,
            StoreError,
        >(Some(path[k]))
}

proof fn lemma_climb(
    path: Seq<Folder>,
    owner: Seq<char>,
    root: Seq<char>,
    replies: Seq<FolderReply>,
    k: int,
)
    requires
        leads_up(path, owner, root),
        climbed(replies, path),
        0 <= k < path.len(),
        k <= replies.len(),
    ensures
        replies.len() >= path.len() ==> walk::under_after(owner, root, path[k].id@, replies, k)
            == walk::UnderModel::Inside,
        !(walk::under_after(owner, root, path[k].id@, replies, k) is Outside),
        replies.len() < path.len() && (forall|j: int|
            0 <= j < path.len() ==> (#[trigger] path[j]).id@ != root) ==> walk::under_after(
            owner,
            root,
            path[k].id@,
            replies,
            k,
        ) == walk::UnderModel::Look(path[replies.len() as int].id@),
    decreases path.len() - k,
{
    if k < replies.len() {
        assert(replies[k] == Ok::<Option<Folder>, StoreError>(Some(path[k])));
        assert(lies_under(path, owner, root, k));
        if k + 1 < path.len() {
            lemma_climb(path, owner, root, replies, k + 1);
        } else {
            assert(walk::under_after(owner, root, root, replies, k + 1) is Inside);
        }
    }
}

/// A live folder link shows the folder its address names, however deep it lies
/// under the shared one, and the shared folder itself where it names none.
/// While the climb is under way the next folder up is looked for, and a folder
/// under the shared one is never answered with the dead card.
pub proof fn law_a_folder_link_shows_the_named_folder(
    link: ShareLink,
    query: SharedQuery,
    facts: PublicFacts,
    root: Folder,
    path: Seq<Folder>,
)
    requires
        link.kind == ShareKind::Folder,
        !query.dl,
        !query.thumb,
        facts.root == Some(Ok::<Option<Folder>, StoreError>(Some(root))),
        root.deleted_at is None,
        leads_up(path, root.owner_id@, root.id@),
        climbed(facts.climb@, path),
    ensures
        query.folder is None ==> share::public_after(Some(link), query, facts)
            == PublicModel::FolderCard(root.id@),
        match query.folder {
            Some(named) => path.len() > 0 && named@ == path[0].id@ ==> {
                &&& facts.climb@.len() >= path.len() ==> share::public_after(
                    Some(link),
                    query,
                    facts,
                ) == PublicModel::FolderCard(named@)
                &&& !(share::public_after(Some(link), query, facts) is Dead)
                &&& facts.climb@.len() < path.len() && (forall|j: int|
                    0 <= j < path.len() ==> (#[trigger] path[j]).id@ != root.id@)
                    ==> share::public_after(Some(link), query, facts) == PublicModel::LookFolder(
                    path[facts.climb@.len() as int].id@,
                )
            },
            None => true,
        },
        match query.folder {
            Some(named) => named@ == root.id@ ==> share::public_after(Some(link), query, facts)
                == PublicModel::FolderCard(root.id@),
            None => true,
        },
{
    if path.len() > 0 {
        lemma_climb(path, root.owner_id@, root.id@, facts.climb@, 0);
    }
}

/// A folder card is that of the named folder, or of the shared one where the
/// address names none.
pub proof fn law_no_other_folder_is_shown(
    link: ShareLink,
    query: SharedQuery,
    facts: PublicFacts,
    id: Seq<char>,
)
    requires
        share::public_after(Some(link), query, facts) == PublicModel::FolderCard(id),
    ensures
        link.kind == ShareKind::Folder,
        !query.dl && !query.thumb,
        match (query.folder, facts.root) {
            (Some(named), _) => id == named@,
            (None, Some(Ok(Some(root)))) => id == root.id@,
            _ => false,
        },
{
}

proof fn lemma_broken_climb(
    path: Seq<Folder>,
    owner: Seq<char>,
    root: Seq<char>,
    replies: Seq<FolderReply>,
    last: FolderReply,
    k: int,
)
    requires
        leads_up(path.drop_last(), owner, path.last().id@),
        climbed(replies, path.drop_last()),
        forall|j: int| 0 <= j < path.len() ==> (#[trigger] path[j]).id@ != root,
        0 <= k < path.len() <= replies.len(),
        replies[path.len() - 1] == last,
        match last {
            Ok(Some(folder)) => folder.owner_id@ != owner || folder.deleted_at is Some
                || folder.parent_id is None,
            _ => true,
        },
    ensures
        walk::under_after(owner, root, path[k].id@, replies, k) is Outside,
    decreases path.len() - k,
{
    let front = path.drop_last();
    if k + 1 < path.len() {
        assert(front[k] == path[k]);
        assert(replies[k] == Ok::<Option<Folder>, StoreError>(Some(front[k])));
        assert(lies_under(front, owner, path.last().id@, k));
        if k + 1 < front.len() {
            assert(front[k + 1] == path[k + 1]);
        }
        lemma_broken_climb(path, owner, root, replies, last, k + 1);
    }
}

/// A folder link opens nothing beside the shared folder: a climb that meets a
/// stranger's folder, a trashed one, a missing one or the drive's root before it
/// meets the shared folder ends at the dead card.
pub proof fn law_no_way_up_is_the_dead_card(
    link: ShareLink,
    query: SharedQuery,
    facts: PublicFacts,
    root: Folder,
    path: Seq<Folder>,
)
    requires
        link.kind == ShareKind::Folder,
        facts.root == Some(Ok::<Option<Folder>, StoreError>(Some(root))),
        path.len() > 0,
        match query.folder {
            Some(named) => named@ == path[0].id@,
            None => false,
        },
        leads_up(path.drop_last(), root.owner_id@, path.last().id@),
        climbed(facts.climb@, path.drop_last()),
        forall|j: int| 0 <= j < path.len() ==> (#[trigger] path[j]).id@ != root.id@,
        facts.climb@.len() >= path.len(),
        match facts.climb@[path.len() - 1] {
            Ok(Some(folder)) => folder.owner_id@ != root.owner_id@ || folder.deleted_at is Some
                || folder.parent_id is None,
            _ => true,
        },
    ensures
        share::public_after(Some(link), query, facts) == PublicModel::Dead,
{
    lemma_broken_climb(
        path,
        root.owner_id@,
        root.id@,
        facts.climb@,
        facts.climb@[path.len() - 1],
        0,
    );
}

/// The bytes and the preview of a file through a shared folder: the bytes only
/// while the link may download, the preview regardless, and both only for a live
/// file of the owner that lies right in the folder the address names.
pub proof fn law_a_file_in_a_shared_folder(
    link: ShareLink,
    query: SharedQuery,
    facts: PublicFacts,
    root: Folder,
    path: Seq<Folder>,
    named: Seq<char>,
    file: File,
)
    requires
        link.kind == ShareKind::Folder,
        query.dl || query.thumb,
        facts.root == Some(Ok::<Option<Folder>, StoreError>(Some(root))),
        root.deleted_at is None,
        leads_up(path, root.owner_id@, root.id@),
        climbed(facts.climb@, path),
        facts.climb@.len() >= path.len(),
        match query.folder {
            Some(folder) => path.len() > 0 && folder@ == path[0].id@ && named == folder@,
            None => named == root.id@,
        },
        query.file is Some,
    ensures
        facts.file is None ==> share::public_after(Some(link), query, facts)
            == PublicModel::LookFile(query.file->0@),
        facts.file == Some(Ok::<Option<File>, StoreError>(Some(file))) ==> {
            let ours = file.owner_id@ == root.owner_id@ && file.deleted_at is None
                && match file.folder_id {
                Some(folder) => folder@ == named,
                None => false,
            };
            let next = share::public_after(Some(link), query, facts);
            &&& ours && query.dl && link.can_download ==> next == PublicModel::Bytes
            &&& ours && !query.dl ==> next == PublicModel::Thumb
            &&& !ours || (query.dl && !link.can_download) ==> next == PublicModel::Dead
        },
        facts.file is Some && !(facts.file->0 matches Ok(Some(_))) ==> share::public_after(
            Some(link),
            query,
            facts,
        ) == PublicModel::Dead,
{
    if path.len() > 0 {
        lemma_climb(path, root.owner_id@, root.id@, facts.climb@, 0);
    }
}

/// A link onto a file: the target is looked for first, a trashed or missing one
/// is the dead card, and a live one is its card, its preview, or its bytes while
/// the link may download.
pub proof fn law_a_file_link(link: ShareLink, query: SharedQuery, facts: PublicFacts, file: File)
    requires
        link.kind == ShareKind::File,
    ensures
        facts.file is None ==> share::public_after(Some(link), query, facts)
            == PublicModel::LookFile(link.target_id@),
        facts.file == Some(Ok::<Option<File>, StoreError>(Some(file))) ==> {
            let next = share::public_after(Some(link), query, facts);
            &&& file.deleted_at is Some ==> next == PublicModel::Dead
            &&& file.deleted_at is None && !query.dl && !query.thumb ==> next
                == PublicModel::FileCard
            &&& file.deleted_at is None && !query.dl && query.thumb ==> next == PublicModel::Thumb
            &&& file.deleted_at is None && query.dl && link.can_download ==> next
                == PublicModel::Bytes
            &&& query.dl && !link.can_download ==> next == PublicModel::Dead
        },
        facts.file is Some && !(facts.file->0 matches Ok(Some(_))) ==> share::public_after(
            Some(link),
            query,
            facts,
        ) == PublicModel::Dead,
{
}

/// A token that opens nothing is the dead card whatever is asked of it, a folder
/// link looks for its own target first, and a trashed or missing target is the
/// dead card too, with or without a file named.
pub proof fn law_dead_tokens_and_targets(
    link: ShareLink,
    query: SharedQuery,
    facts: PublicFacts,
)
    ensures
        share::public_after(None, query, facts) == PublicModel::Dead,
        link.kind == ShareKind::Folder && facts.root is None ==> share::public_after(
            Some(link),
            query,
            facts,
        ) == PublicModel::LookRoot(link.target_id@),
        link.kind == ShareKind::Folder && facts.root is Some && !(facts.root->0 matches Ok(Some(_)))
            ==> share::public_after(Some(link), query, facts) == PublicModel::Dead,
        link.kind == ShareKind::Folder && (facts.root matches Some(Ok(Some(root)))
            && root.deleted_at is Some) ==> share::public_after(Some(link), query, facts)
            == PublicModel::Dead,
        link.kind == ShareKind::Folder && (query.dl || query.thumb) && query.file is None
            && facts.root is Some ==> {
            ||| share::public_after(Some(link), query, facts) == PublicModel::Dead
            ||| share::public_after(Some(link), query, facts) is LookFolder
        },
{
}

} // verus!
