//! The drive's tree, walked one lookup at a time.
//!
//! The store answers one folder or one listing per call. Each function here
//! takes the answers so far and says what to look up next, or what the answers
//! amount to.
use crate::model;
use crate::model::{Folder, StoreError};
use crate::order;
use crate::order::{Measure, Rank};
use crate::text;
use vstd::prelude::*;

verus! {

/// A lookup of one folder.
pub type FolderReply = Result<Option<Folder>, StoreError>;

// ---- From a folder up to the root -----------------------------------------
/// What to do next about the folder an address names.
#[derive(Debug)]
pub enum PathStep {
    /// The address names none: the root is open.
    Root,
    /// Look this folder up.
    Look(String),
    /// The folder of the first answer is open.
    Open,
    /// There is no such folder for this account.
    Missing,
}

/// A [`PathStep`] as a value.
pub enum PathModel {
    Root,
    Look(Seq<char>),
    Open,
    Missing,
}

impl View for PathStep {
    type V = PathModel;

    open spec fn view(&self) -> PathModel {
        match self {
            PathStep::Root => PathModel::Root,
            PathStep::Look(id) => PathModel::Look(id@),
            PathStep::Open => PathModel::Open,
            PathStep::Missing => PathModel::Missing,
        }
    }
}

/// Climbing from the answer at `i`: every folder on the way must be the
/// account's own and out of the trash, up to one without a parent.
pub open spec fn climb(replies: Seq<FolderReply>, owner: Seq<char>, i: int) -> PathModel
    decreases replies.len() - i,
{
    if i < 0 || i >= replies.len() {
        PathModel::Missing
    } else {
        match replies[i] {
            Ok(Some(folder)) => if !model::live_folder_of(folder, owner) {
                PathModel::Missing
            } else {
                match folder.parent_id {
                    None => PathModel::Open,
                    Some(parent) => if i + 1 < replies.len() {
                        climb(replies, owner, i + 1)
                    } else {
                        PathModel::Look(parent@)
                    },
                }
            },
            _ => PathModel::Missing,
        }
    }
}

/// What is known of the folder an address names after these answers.
pub open spec fn path_after(
    owner: Seq<char>,
    wanted: Option<Seq<char>>,
    replies: Seq<FolderReply>,
) -> PathModel {
    match wanted {
        None => PathModel::Root,
        Some(id) => if id.len() == 0 {
            PathModel::Root
        } else if replies.len() == 0 {
            PathModel::Look(id)
        } else {
            climb(replies, owner, 0)
        },
    }
}

/// The folder the query names, if it names one this account may open: owned,
/// live, and with no trashed ancestor. Anything else is not found rather than
/// forbidden.
pub fn current_folder(owner: &str, wanted: Option<&str>, replies: &Vec<FolderReply>) -> (r: PathStep)
    ensures
        r@ == path_after(owner@, text::opt_str(wanted), replies@),
{
    let id = match wanted {
        Some(id) => id,
        None => return PathStep::Root,
    };
    if id.unicode_len() == 0 {
        return PathStep::Root;
    }
    if replies.len() == 0 {
        return PathStep::Look(id.to_owned());
    }
    climb_from(replies, owner, 0)
}

fn climb_from(replies: &Vec<FolderReply>, owner: &str, i: usize) -> (r: PathStep)
    requires
        i < replies.len(),
    ensures
        r@ == climb(replies@, owner@, i as int),
    decreases replies.len() - i,
{
    match &replies[i] {
        Ok(Some(folder)) => {
            if !folder.live_under(owner) {
                return PathStep::Missing;
            }
            match &folder.parent_id {
                None => PathStep::Open,
                Some(parent) => if i + 1 < replies.len() {
                    climb_from(replies, owner, i + 1)
                } else {
                    PathStep::Look(parent.clone())
                },
            }
        },
        _ => PathStep::Missing,
    }
}

/// Whether a folder can be reached in `steps` steps from the root, over folders
/// that are all the account's own and out of the trash.
pub open spec fn reachable(
    rows: spec_fn(Seq<char>) -> FolderReply,
    owner: Seq<char>,
    id: Seq<char>,
    steps: nat,
) -> bool
    decreases steps,
{
    match rows(id) {
        Ok(Some(folder)) => model::live_folder_of(folder, owner) && match folder.parent_id {
            None => true,
            Some(parent) => steps > 0 && reachable(rows, owner, parent@, (steps - 1) as nat),
        },
        _ => false,
    }
}

/// Whether the answers are the ones a store with these rows gives to the
/// lookups that [`current_folder`] asks for, from the answer at `i` on.
pub open spec fn answers_of(
    rows: spec_fn(Seq<char>) -> FolderReply,
    id: Seq<char>,
    replies: Seq<FolderReply>,
    i: int,
) -> bool
    decreases replies.len() - i,
{
    if i < 0 || i >= replies.len() {
        true
    } else {
        &&& replies[i] == rows(id)
        &&& match replies[i] {
            Ok(Some(folder)) => match folder.parent_id {
                Some(parent) => answers_of(rows, parent@, replies, i + 1),
                None => true,
            },
            _ => true,
        }
    }
}

proof fn lemma_climb_is_reachable(
    rows: spec_fn(Seq<char>) -> FolderReply,
    owner: Seq<char>,
    id: Seq<char>,
    replies: Seq<FolderReply>,
    i: int,
)
    requires
        0 <= i < replies.len(),
        answers_of(rows, id, replies, i),
    ensures
        climb(replies, owner, i) is Open ==> reachable(
            rows,
            owner,
            id,
            (replies.len() - i - 1) as nat,
        ),
        climb(replies, owner, i) is Missing ==> forall|steps: nat| !reachable(rows, owner, id, steps),
    decreases replies.len() - i,
{
    match replies[i] {
        Ok(Some(folder)) => match folder.parent_id {
            Some(parent) => if i + 1 < replies.len() {
                lemma_climb_is_reachable(rows, owner, parent@, replies, i + 1);
                if climb(replies, owner, i) is Missing {
                    assert forall|steps: nat| !reachable(rows, owner, id, steps) by {
                        if steps > 0 && model::live_folder_of(folder, owner) {
                            assert(!reachable(rows, owner, parent@, (steps - 1) as nat));
                        }
                    }
                }
            },
            None => {},
        },
        _ => {},
    }
}

/// A folder opens only while every folder from it up to the root is the
/// account's own and out of the trash, and is missing only where one is not: a
/// trashed ancestor hides everything under it.
pub proof fn law_open_means_a_live_path(
    rows: spec_fn(Seq<char>) -> FolderReply,
    owner: Seq<char>,
    id: Seq<char>,
    replies: Seq<FolderReply>,
)
    requires
        id.len() > 0,
        answers_of(rows, id, replies, 0),
    ensures
        path_after(owner, Some(id), replies) is Open ==> exists|steps: nat|
            reachable(rows, owner, id, steps),
        path_after(owner, Some(id), replies) is Missing ==> forall|steps: nat|
            !reachable(rows, owner, id, steps),
{
    if replies.len() > 0 {
        lemma_climb_is_reachable(rows, owner, id, replies, 0);
    }
}

// ---- Whether a folder lies under a shared one ------------------------------
/// What to do next about a browse under a shared folder.
#[derive(Debug)]
pub enum UnderStep {
    /// Look this folder up.
    Look(String),
    /// It is the shared folder or lies under it.
    Inside,
    /// It lies outside the share.
    Outside,
}

/// An [`UnderStep`] as a value.
pub enum UnderModel {
    Look(Seq<char>),
    Inside,
    Outside,
}

impl View for UnderStep {
    type V = UnderModel;

    open spec fn view(&self) -> UnderModel {
        match self {
            UnderStep::Look(id) => UnderModel::Look(id@),
            UnderStep::Inside => UnderModel::Inside,
            UnderStep::Outside => UnderModel::Outside,
        }
    }
}

/// Climbing from `at` with the answers from `i` on: every step up must be live
/// and the owner's, and end at the target.
pub open spec fn under_after(
    owner: Seq<char>,
    target: Seq<char>,
    at: Seq<char>,
    replies: Seq<FolderReply>,
    i: int,
) -> UnderModel
    decreases replies.len() - i,
{
    if at == target {
        UnderModel::Inside
    } else if i < 0 || i >= replies.len() {
        UnderModel::Look(at)
    } else {
        match replies[i] {
            Ok(Some(folder)) => if !model::live_folder_of(folder, owner) {
                UnderModel::Outside
            } else {
                match folder.parent_id {
                    Some(parent) => if parent@ != at {
                        under_after(owner, target, parent@, replies, i + 1)
                    } else {
                        UnderModel::Outside
                    },
                    None => UnderModel::Outside,
                }
            },
            _ => UnderModel::Outside,
        }
    }
}

fn under_from(owner: &str, target: &str, at: &str, replies: &Vec<FolderReply>, i: usize) -> (r:
    UnderStep)
    requires
        i <= replies.len(),
    ensures
        r@ == under_after(owner@, target@, at@, replies@, i as int),
    decreases replies.len() - i,
{
    if text::same(at, target) {
        return UnderStep::Inside;
    }
    if i >= replies.len() {
        return UnderStep::Look(at.to_owned());
    }
    match &replies[i] {
        Ok(Some(folder)) => {
            if !folder.live_under(owner) {
                return UnderStep::Outside;
            }
            match &folder.parent_id {
                Some(parent) => if !text::same(parent, at) {
                    under_from(owner, target, parent, replies, i + 1)
                } else {
                    UnderStep::Outside
                },
                None => UnderStep::Outside,
            }
        },
        _ => UnderStep::Outside,
    }
}

/// Whether `at` is the link's target or sits under it: every step up must be
/// live, owned by the link's owner, and end at the target. A break anywhere
/// means the browse is outside the share.
pub fn under_target(owner: &str, target: &str, at: &str, replies: &Vec<FolderReply>) -> (r:
    UnderStep)
    ensures
        r@ == under_after(owner@, target@, at@, replies@, 0),
{
    under_from(owner, target, at, replies, 0)
}

/// Whether `at` leads up to `target` in `steps` steps, over folders that are
/// all the owner's and out of the trash.
pub open spec fn leads_to(
    rows: spec_fn(Seq<char>) -> FolderReply,
    owner: Seq<char>,
    target: Seq<char>,
    at: Seq<char>,
    steps: nat,
) -> bool
    decreases steps,
{
    at == target || match rows(at) {
        Ok(Some(folder)) => model::live_folder_of(folder, owner) && match folder.parent_id {
            Some(parent) => steps > 0 && leads_to(rows, owner, target, parent@, (steps - 1) as nat),
            None => false,
        },
        _ => false,
    }
}

proof fn lemma_under_leads(
    rows: spec_fn(Seq<char>) -> FolderReply,
    owner: Seq<char>,
    target: Seq<char>,
    at: Seq<char>,
    replies: Seq<FolderReply>,
    i: int,
)
    requires
        0 <= i <= replies.len(),
        answers_of(rows, at, replies, i),
    ensures
        under_after(owner, target, at, replies, i) is Inside ==> leads_to(
            rows,
            owner,
            target,
            at,
            (replies.len() - i) as nat,
        ),
        under_after(owner, target, at, replies, i) is Outside ==> forall|steps: nat|
            !leads_to(rows, owner, target, at, steps),
    decreases replies.len() - i,
{
    if at != target && i < replies.len() {
        match replies[i] {
            Ok(Some(folder)) => match folder.parent_id {
                Some(parent) => {
                    lemma_under_leads(rows, owner, target, parent@, replies, i + 1);
                    if under_after(owner, target, at, replies, i) is Outside {
                        assert forall|steps: nat| !leads_to(rows, owner, target, at, steps) by {
                            if parent@ == at {
                                lemma_own_parent_leads_nowhere(rows, owner, target, at, steps);
                            } else if steps > 0 {
                                assert(!leads_to(rows, owner, target, parent@, (steps - 1) as nat)
                                    || !model::live_folder_of(folder, owner));
                            }
                        }
                    }
                },
                None => {},
            },
            _ => {},
        }
    }
}

/// A folder that is its own parent leads nowhere but to itself.
proof fn lemma_own_parent_leads_nowhere(
    rows: spec_fn(Seq<char>) -> FolderReply,
    owner: Seq<char>,
    target: Seq<char>,
    at: Seq<char>,
    steps: nat,
)
    requires
        at != target,
        match rows(at) {
            Ok(Some(folder)) => match folder.parent_id {
                Some(parent) => parent@ == at,
                None => false,
            },
            _ => false,
        },
    ensures
        !leads_to(rows, owner, target, at, steps),
    decreases steps,
{
    if steps > 0 {
        lemma_own_parent_leads_nowhere(rows, owner, target, at, (steps - 1) as nat);
    }
}

/// A browse is inside a share only where it leads up to the shared folder over
/// the owner's own live folders, and outside only where it does not: neither a
/// stranger's tree nor a trashed branch opens through a link, and nothing under
/// the shared folder is withheld.
pub proof fn law_inside_means_under_the_target(
    rows: spec_fn(Seq<char>) -> FolderReply,
    owner: Seq<char>,
    target: Seq<char>,
    at: Seq<char>,
    replies: Seq<FolderReply>,
)
    requires
        answers_of(rows, at, replies, 0),
    ensures
        under_after(owner, target, at, replies, 0) is Inside ==> exists|steps: nat|
            leads_to(rows, owner, target, at, steps),
        under_after(owner, target, at, replies, 0) is Outside ==> forall|steps: nat|
            !leads_to(rows, owner, target, at, steps),
{
    lemma_under_leads(rows, owner, target, at, replies, 0);
}

// ---- The way back, for the breadcrumbs ------------------------------------
/// One step of the way back: a folder to open and its name.
#[derive(Debug)]
pub struct Crumb {
    pub id: String,
    pub name: String,
}

/// What to do next about the breadcrumbs.
#[derive(Debug)]
pub enum CrumbStep {
    /// Look this folder up.
    Look(String),
    /// The path, root first.
    Done(Vec<Crumb>),
}

/// How far the answers lead up.
pub enum ChainModel {
    Look(Seq<char>),
    /// So many ancestors were found.
    Ends(int),
}

/// Following parents from the answer at `i` on: the chain ends at a folder
/// without a parent, or where the store does not find the next one.
pub open spec fn chain_from(
    parent: Option<String>,
    replies: Seq<FolderReply>,
    i: int,
) -> ChainModel
    decreases replies.len() - i,
{
    match parent {
        None => ChainModel::Ends(i),
        Some(id) => if i < 0 || i >= replies.len() {
            ChainModel::Look(id@)
        } else {
            match replies[i] {
                Ok(Some(folder)) => chain_from(folder.parent_id, replies, i + 1),
                _ => ChainModel::Ends(i),
            }
        },
    }
}

/// Whether a crumb stands for a folder.
pub open spec fn crumb_of(crumb: Crumb, folder: Folder) -> bool {
    crumb.id@ == folder.id@ && crumb.name@ == folder.name@
}

/// The folder of an answer, where it holds one.
pub open spec fn folder_in(reply: FolderReply) -> Folder {
    reply->Ok_0->0
}

/// Whether the crumbs are the first `n` answers, last first, with the open
/// folder behind them.
pub open spec fn crumbs_for(
    crumbs: Seq<Crumb>,
    folder: Folder,
    replies: Seq<FolderReply>,
    n: int,
) -> bool {
    &&& crumbs.len() == n + 1
    &&& crumb_of(crumbs[n], folder)
    &&& forall|k: int| 0 <= k < n ==> crumb_of(#[trigger] crumbs[k], folder_in(replies[n - 1 - k]))
}

fn chain_end(parent: &Option<String>, replies: &Vec<FolderReply>, i: usize) -> (r: Result<
    usize,
    String,
>)
    requires
        i <= replies.len(),
        forall|k: int| 0 <= k < i ==> (#[trigger] replies@[k]) matches Ok(Some(_)),
    ensures
        match r {
            Ok(n) => {
                &&& chain_from(*parent, replies@, i as int) == ChainModel::Ends(n as int)
                &&& i <= n <= replies.len()
                &&& forall|k: int| 0 <= k < n ==> (#[trigger] replies@[k]) matches Ok(Some(_))
            },
            Err(id) => chain_from(*parent, replies@, i as int) == ChainModel::Look(id@),
        },
    decreases replies.len() - i,
{
    match parent {
        None => Ok(i),
        Some(id) => if i >= replies.len() {
            Err(id.clone())
        } else {
            match &replies[i] {
                Ok(Some(folder)) => chain_end(&folder.parent_id, replies, i + 1),
                _ => Ok(i),
            }
        },
    }
}

/// Whether a step is the next on the way back, see [`breadcrumbs`].
pub open spec fn back_step(
    step: CrumbStep,
    folder: Option<Folder>,
    replies: Seq<FolderReply>,
) -> bool {
    match folder {
        None => step matches CrumbStep::Done(crumbs) && crumbs@.len() == 0,
        Some(folder) => match chain_from(folder.parent_id, replies, 0) {
            ChainModel::Look(id) => step matches CrumbStep::Look(next) && next@ == id,
            ChainModel::Ends(n) => step matches CrumbStep::Done(crumbs) && crumbs_for(
                crumbs@,
                folder,
                replies,
                n,
            ),
        },
    }
}

/// The breadcrumb path, root first, for the open folder. An ancestor the store
/// does not find ends the path there.
pub fn breadcrumbs(folder: Option<&Folder>, replies: &Vec<FolderReply>) -> (r: CrumbStep)
    ensures
        back_step(
            r,
            match folder {
                Some(folder) => Some(*folder),
                None => None,
            },
            replies@,
        ),
{
    let folder = match folder {
        Some(folder) => folder,
        None => return CrumbStep::Done(Vec::new()),
    };
    let n: usize = match chain_end(&folder.parent_id, replies, 0) {
        Ok(n) => n,
        Err(id) => return CrumbStep::Look(id),
    };
    let mut out: Vec<Crumb> = Vec::new();
    let mut left: usize = n;
    while left > 0
        invariant
            left <= n <= replies.len(),
            out.len() == n - left,
            forall|k: int| 0 <= k < n ==> (#[trigger] replies@[k]) matches Ok(Some(_)),
            forall|k: int|
                0 <= k < out.len() ==> crumb_of(#[trigger] out@[k], folder_in(replies@[n - 1 - k])),
        decreases left,
    {
        assert(replies@[left - 1] matches Ok(Some(_)));
        if let Ok(Some(row)) = &replies[left - 1] {
            out.push(Crumb { id: row.id.clone(), name: row.name.clone() });
        }
        left -= 1;
    }
    out.push(Crumb { id: folder.id.clone(), name: folder.name.clone() });
    CrumbStep::Done(out)
}

// ---- The whole tree, for the move picker -----------------------------------
/// One folder of the account, with its root-first display path.
#[derive(Debug)]
pub struct Branch {
    pub id: String,
    pub parent: Option<String>,
    pub name: String,
    pub path: String,
}

/// A [`Branch`] as a value.
pub struct BranchModel {
    pub id: Seq<char>,
    pub parent: Option<Seq<char>>,
    pub name: Seq<char>,
    pub path: Seq<char>,
}

impl View for Branch {
    type V = BranchModel;

    open spec fn view(&self) -> BranchModel {
        BranchModel {
            id: self.id@,
            parent: text::opt_text(self.parent),
            name: self.name@,
            path: self.path@,
        }
    }
}

struct Pending {
    parent: Option<String>,
    prefix: String,
}

/// Every live folder the account holds, found listing by listing.
pub struct FolderTree {
    queue: Vec<Pending>,
    found: Vec<Branch>,
}

/// A [`FolderTree`] as a value: the folders whose listing is still to be asked
/// for, each with the path its children go under, and the folders found.
#[verifier::ext_equal]
pub struct TreeModel {
    pub queue: Seq<(Option<Seq<char>>, Seq<char>)>,
    pub found: Seq<BranchModel>,
}

/// The path of a folder called `name` under `prefix`.
pub open spec fn path_under(prefix: Seq<char>, name: Seq<char>) -> Seq<char> {
    if prefix.len() == 0 {
        name
    } else {
        prefix + " / "@ + name
    }
}

/// A folder found in the listing of `parent`.
pub open spec fn branch_of(folder: Folder, parent: Option<Seq<char>>, prefix: Seq<char>) -> BranchModel {
    BranchModel {
        id: folder.id@,
        parent,
        name: folder.name@,
        path: path_under(prefix, folder.name@),
    }
}

/// The tree after one more listing: its folders are found, and their own
/// listings are still to be asked for. A listing that fails adds nothing.
pub open spec fn tree_after(tree: TreeModel, listing: Option<Seq<Folder>>) -> TreeModel {
    let (parent, prefix) = tree.queue.last();
    let rest = tree.queue.drop_last();
    match listing {
        None => TreeModel { queue: rest, found: tree.found },
        Some(folders) => {
            let fresh = folders.map_values(|f: Folder| branch_of(f, parent, prefix));
            TreeModel {
                queue: rest + fresh.map_values(|b: BranchModel| (Some(b.id), b.path)),
                found: tree.found + fresh,
            }
        },
    }
}

/// Whether the folder found at `i` is `moving` or lies under it.
pub open spec fn within(found: Seq<BranchModel>, moving: Seq<char>, i: int) -> bool
    decreases i,
{
    0 <= i < found.len() && (found[i].id == moving || exists|j: int|
        0 <= j < i && found[i].parent == Some(#[trigger] found[j].id) && within(found, moving, j))
}

/// The folders a move may end in, in the order they were found: all of them,
/// but for the moved folder and everything under it.
pub open spec fn landings(
    found: Seq<BranchModel>,
    moving: Option<Seq<char>>,
    n: int,
) -> Seq<BranchModel>
    decreases n,
{
    if n <= 0 {
        Seq::empty()
    } else {
        let head = landings(found, moving, n - 1);
        let barred = match moving {
            Some(id) => within(found, id, n - 1),
            None => false,
        };
        if barred {
            head
        } else {
            head.push(found[n - 1])
        }
    }
}

/// A branch's place in the picker: by its path.
pub open spec fn branch_rank(branch: BranchModel) -> order::RankModel {
    order::RankModel { first: order::MeasureModel::Text(branch.path), second: Seq::empty() }
}

impl View for FolderTree {
    type V = TreeModel;

    closed spec fn view(&self) -> TreeModel {
        TreeModel {
            queue: self.queue@.map_values(|p: Pending| (text::opt_text(p.parent), p.prefix@)),
            found: self.found@.map_values(|b: Branch| b@),
        }
    }
}

/// Whether a list holds the folders a move may end in, by path.
pub open spec fn offers(
    shown: Seq<BranchModel>,
    found: Seq<BranchModel>,
    moving: Option<Seq<char>>,
) -> bool {
    let free = landings(found, moving, found.len() as int);
    order::is_arranged(free, free.map_values(|b: BranchModel| branch_rank(b)), false, shown)
}

impl FolderTree {
    /// Nothing found yet; the root's listing comes first.
    pub fn new() -> (r: FolderTree)
        ensures
            r@ == (TreeModel { queue: seq![(None, Seq::empty())], found: Seq::empty() }),
    {
        let mut queue: Vec<Pending> = Vec::new();
        queue.push(Pending { parent: None, prefix: String::new() });
        let r = FolderTree { queue, found: Vec::new() };
        proof {
            assert(r@.queue =~= seq![(None::<Seq<char>>, Seq::<char>::empty())]);
            assert(r@.found =~= Seq::<BranchModel>::empty());
        }
        r
    }

    /// Whether every listing was asked for.
    pub fn done(&self) -> (r: bool)
        ensures
            r == (self@.queue.len() == 0),
    {
        self.queue.len() == 0
    }

    /// The folder whose listing comes next; no folder is the root.
    pub fn next(&self) -> (r: Option<String>)
        requires
            self@.queue.len() > 0,
        ensures
            text::opt_text(r) == self@.queue.last().0,
    {
        text::copy_option(&self.queue[self.queue.len() - 1].parent)
    }

    /// Takes the listing that [`FolderTree::next`] asked for.
    pub fn hear(&mut self, listing: Result<Vec<Folder>, StoreError>)
        requires
            old(self)@.queue.len() > 0,
        ensures
            final(self)@ == tree_after(
                old(self)@,
                match listing {
                    Ok(folders) => Some(folders@),
                    Err(_) => None,
                },
            ),
    {
        let ghost before = self@;
        let ghost queue0 = self.queue@;
        let ghost found0 = self.found@;
        let pending = match self.queue.pop() {
            Some(pending) => pending,
            None => return,
        };
        let ghost parent = text::opt_text(pending.parent);
        let ghost prefix = pending.prefix@;
        proof {
            assert(pending == queue0.last());
            assert(before.queue.last() == (parent, prefix));
            assert(self@.queue =~= before.queue.drop_last());
            assert(self@.found =~= before.found);
        }
        let folders = match listing {
            Ok(folders) => folders,
            Err(_) => return,
        };
        let ghost fresh = folders@.map_values(|f: Folder| branch_of(f, parent, prefix));
        let ghost queued = fresh.map_values(|b: BranchModel| (Some(b.id), b.path));
        let mut i: usize = 0;
        while i < folders.len()
            invariant
                i <= folders.len(),
                parent == text::opt_text(pending.parent),
                prefix == pending.prefix@,
                fresh == folders@.map_values(|f: Folder| branch_of(f, parent, prefix)),
                queued == fresh.map_values(|b: BranchModel| (Some(b.id), b.path)),
                self@.queue == before.queue.drop_last() + queued.take(i as int),
                self@.found == before.found + fresh.take(i as int),
            decreases folders.len() - i,
        {
            let folder = &folders[i];
            let ghost q = self@.queue;
            let ghost f = self@.found;
            let path = if pending.prefix.as_str().unicode_len() == 0 {
                folder.name.clone()
            } else {
                let mut path = text::glue(&pending.prefix, " / ");
                path.append(&folder.name);
                path
            };
            assert(path@ == path_under(prefix, folder.name@));
            self.queue.push(Pending { parent: Some(folder.id.clone()), prefix: path.clone() });
            self.found.push(
                Branch {
                    id: folder.id.clone(),
                    parent: text::copy_option(&pending.parent),
                    name: folder.name.clone(),
                    path,
                },
            );
            proof {
                assert(self@.queue =~= q.push(queued[i as int]));
                assert(self@.found =~= f.push(fresh[i as int]));
                assert(queued.take(i + 1) =~= queued.take(i as int).push(queued[i as int]));
                assert(fresh.take(i + 1) =~= fresh.take(i as int).push(fresh[i as int]));
            }
            i += 1;
        }
        proof {
            assert(queued.take(i as int) =~= queued);
            assert(fresh.take(i as int) =~= fresh);
            assert(self@ =~= tree_after(before, Some(folders@)));
        }
    }

    /// The folders a move may end in, by path. A folder is never offered its
    /// own subtree: `moving` names the folder being moved, and nothing while a
    /// file is.
    pub fn destinations(self, moving: Option<&str>) -> (r: Vec<Branch>)
        ensures
            offers(r@.map_values(|b: Branch| b@), self@.found, text::opt_str(moving)),
    {
        let ghost found = self@.found;
        let ghost goal = text::opt_str(moving);
        let mut barred: Vec<bool> = Vec::new();
        let mut i: usize = 0;
        while i < self.found.len()
            invariant
                i <= self.found.len(),
                found == self@.found,
                found.len() == self.found@.len(),
                goal == text::opt_str(moving),
                barred.len() == i,
                forall|k: int|
                    0 <= k < i ==> #[trigger] barred@[k] == match goal {
                        Some(id) => within(found, id, k),
                        None => false,
                    },
            decreases self.found.len() - i,
        {
            assert(found[i as int] == self.found@[i as int]@);
            let bar = match moving {
                None => false,
                Some(id) => {
                    if text::same(&self.found[i].id, id) {
                        true
                    } else {
                        let mut inside = false;
                        if let Some(parent) = &self.found[i].parent {
                            let mut j: usize = 0;
                            while j < i
                                invariant
                                    j <= i < self.found.len(),
                                    found == self@.found,
                                    found.len() == self.found@.len(),
                                    barred.len() == i,
                                    self.found@[i as int].parent == Some(*parent),
                                    forall|k: int|
                                        0 <= k < i ==> #[trigger] barred@[k] == within(found, id@, k),
                                    inside <==> exists|k: int|
                                        0 <= k < j && found[i as int].parent == Some(
                                            #[trigger] found[k].id,
                                        ) && within(found, id@, k),
                                decreases i - j,
                            {
                                assert(found[j as int] == self.found@[j as int]@);
                                assert(found[i as int] == self.found@[i as int]@);
                                let here = text::same(&self.found[j].id, parent) && barred[j];
                                proof {
                                    assert(here == (found[i as int].parent == Some(
                                        found[j as int].id,
                                    ) && within(found, id@, j as int)));
                                }
                                if here {
                                    inside = true;
                                }
                                j += 1;
                            }
                        }
                        inside
                    }
                },
            };
            barred.push(bar);
            i += 1;
        }
        let mut rest = self.found;
        let ghost all = rest@;
        let mut free: Vec<Branch> = Vec::new();
        let mut ranks: Vec<Rank> = Vec::new();
        let mut k: usize = 0;
        while rest.len() > 0
            invariant
                k + rest.len() == all.len(),
                rest@ == all.skip(k as int),
                found == all.map_values(|b: Branch| b@),
                barred.len() == all.len(),
                forall|m: int|
                    0 <= m < all.len() ==> #[trigger] barred@[m] == match goal {
                        Some(id) => within(found, id, m),
                        None => false,
                    },
                free@.map_values(|b: Branch| b@) == landings(found, goal, k as int),
                order::models(ranks@) == landings(found, goal, k as int).map_values(
                    |b: BranchModel| branch_rank(b),
                ),
                free.len() == ranks.len(),
            decreases rest.len(),
        {
            let ghost had = landings(found, goal, k as int);
            let ghost ranked = ranks@;
            let branch = rest.remove(0);
            assert(branch@ == found[k as int]);
            if !barred[k] {
                ranks.push(Rank { first: Measure::Text(branch.path.clone()), second: String::new() });
                free.push(branch);
                proof {
                    assert(free@.map_values(|b: Branch| b@) =~= had.push(found[k as int]));
                    assert(ranks@.last()@.second =~= Seq::<char>::empty());
                    assert(ranks@.last()@ == branch_rank(found[k as int]));
                    let rank = |b: BranchModel| branch_rank(b);
                    assert(order::models(ranks@) =~= order::models(ranked).push(
                        branch_rank(found[k as int]),
                    ));
                    assert(had.push(found[k as int]).map_values(rank) =~= had.map_values(rank).push(
                        branch_rank(found[k as int]),
                    ));
                }
            }
            proof {
                assert(rest@ =~= all.skip(k + 1));
            }
            k += 1;
        }
        let ghost names = free@.map_values(|b: Branch| b@);
        let ghost rows = free@;
        let shown = order::arrange(free, &ranks, false);
        proof {
            let keys = order::models(ranks@);
            let p = choose|p: Seq<int>| #[trigger]
                order::is_arrangement(p, keys, false) && shown@ == p.map_values(|i: int| rows[i]);
            assert(shown@.map_values(|b: Branch| b@) =~= p.map_values(|i: int| names[i]));
            assert(order::is_arranged(names, keys, false, shown@.map_values(|b: Branch| b@)));
        }
        shown
    }
}

/// Whether a folder with that id was found with that parent.
pub open spec fn was_found(tree: TreeModel, id: Seq<char>, parent: Option<Seq<char>>) -> bool {
    exists|i: int| 0 <= i < tree.found.len() && #[trigger] tree.found[i].id == id
        && tree.found[i].parent == parent
}

/// Whether the listing of `parent` is still to be asked for.
pub open spec fn is_queued(tree: TreeModel, parent: Option<Seq<char>>) -> bool {
    exists|i: int| 0 <= i < tree.queue.len() && #[trigger] tree.queue[i].0 == parent
}

/// Whether every folder the store lists under `parent` was found there.
pub open spec fn is_listed(
    tree: TreeModel,
    kids: spec_fn(Option<Seq<char>>) -> Option<Seq<Folder>>,
    parent: Option<Seq<char>>,
) -> bool {
    match kids(parent) {
        None => true,
        Some(folders) => forall|k: int|
            0 <= k < folders.len() ==> was_found(tree, (#[trigger] folders[k]).id@, parent),
    }
}

/// What holds of a tree at every step of its walk: the root and every folder
/// found are either still to be listed or listed in full.
pub open spec fn tree_sound(
    tree: TreeModel,
    kids: spec_fn(Option<Seq<char>>) -> Option<Seq<Folder>>,
) -> bool {
    &&& is_queued(tree, None) || is_listed(tree, kids, None)
    &&& forall|i: int|
        0 <= i < tree.found.len() ==> is_queued(tree, Some((#[trigger] tree.found[i]).id))
            || is_listed(tree, kids, Some(tree.found[i].id))
}

/// A walk starts sound.
pub proof fn law_tree_starts_sound(kids: spec_fn(Option<Seq<char>>) -> Option<Seq<Folder>>)
    ensures
        tree_sound(TreeModel { queue: seq![(None, Seq::empty())], found: Seq::empty() }, kids),
{
    let tree = TreeModel { queue: seq![(None, Seq::empty())], found: Seq::empty() };
    assert(tree.queue[0].0 == None::<Seq<char>>);
}

/// A walk stays sound: hearing the listing that comes next keeps every promise.
pub proof fn law_tree_stays_sound(
    tree: TreeModel,
    kids: spec_fn(Option<Seq<char>>) -> Option<Seq<Folder>>,
)
    requires
        tree_sound(tree, kids),
        tree.queue.len() > 0,
    ensures
        tree_sound(tree_after(tree, kids(tree.queue.last().0)), kids),
{
    let (parent, prefix) = tree.queue.last();
    let listing = kids(parent);
    let next = tree_after(tree, listing);
    let rest = tree.queue.drop_last();
    assert forall|id: Seq<char>, p: Option<Seq<char>>| was_found(tree, id, p) implies #[trigger] was_found(next, id, p) by {
        let i = choose|i: int| 0 <= i < tree.found.len() && #[trigger] tree.found[i].id == id
            && tree.found[i].parent == p;
        assert(next.found[i] == tree.found[i]);
    }
    assert forall|p: Option<Seq<char>>| is_listed(tree, kids, p) implies #[trigger] is_listed(next, kids, p) by {
        match kids(p) {
            Some(folders) => {
                assert forall|k: int| 0 <= k < folders.len() implies was_found(
                    next,
                    (#[trigger] folders[k]).id@,
                    p,
                ) by {
                    assert(was_found(tree, folders[k].id@, p));
                }
            },
            None => {},
        }
    }
    assert(is_listed(next, kids, parent)) by {
        match listing {
            Some(folders) => {
                let fresh = folders.map_values(|f: Folder| branch_of(f, parent, prefix));
                assert forall|k: int| 0 <= k < folders.len() implies was_found(
                    next,
                    (#[trigger] folders[k]).id@,
                    parent,
                ) by {
                    assert(next.found[tree.found.len() + k] == fresh[k]);
                    assert(fresh[k].id == folders[k].id@);
                }
            },
            None => {},
        }
    }
    assert forall|p: Option<Seq<char>>| is_queued(tree, p) && p != parent implies #[trigger] is_queued(next, p) by {
        let i = choose|i: int| 0 <= i < tree.queue.len() && #[trigger] tree.queue[i].0 == p;
        assert(i < rest.len());
        assert(next.queue[i] == tree.queue[i]);
    }
    assert forall|i: int| 0 <= i < next.found.len() implies is_queued(
        next,
        Some((#[trigger] next.found[i]).id),
    ) || is_listed(next, kids, Some(next.found[i].id)) by {
        if i < tree.found.len() {
            assert(next.found[i] == tree.found[i]);
            let p = Some(tree.found[i].id);
            assert(is_queued(tree, p) || is_listed(tree, kids, p));
            if p == parent {
                assert(is_listed(next, kids, parent));
            }
        } else {
            let k = i - tree.found.len();
            let folders = listing->0;
            let fresh = folders.map_values(|f: Folder| branch_of(f, parent, prefix));
            let queued = fresh.map_values(|b: BranchModel| (Some(b.id), b.path));
            assert(next.found[i] == fresh[k]);
            assert(next.queue[rest.len() + k] == queued[k]);
            assert(next.queue[rest.len() + k].0 == Some(next.found[i].id));
        }
    }
}

/// A walk that is done has found everything: each folder the store lists under
/// the root, or under a folder found, was found there.
pub proof fn law_finished_tree_is_whole(
    tree: TreeModel,
    kids: spec_fn(Option<Seq<char>>) -> Option<Seq<Folder>>,
)
    requires
        tree_sound(tree, kids),
        tree.queue.len() == 0,
    ensures
        is_listed(tree, kids, None),
        forall|i: int|
            0 <= i < tree.found.len() ==> is_listed(
                tree,
                kids,
                Some((#[trigger] tree.found[i]).id),
            ),
{
    assert(!is_queued(tree, None));
    assert forall|i: int| 0 <= i < tree.found.len() implies is_listed(
        tree,
        kids,
        Some((#[trigger] tree.found[i]).id),
    ) by {
        assert(!is_queued(tree, Some(tree.found[i].id)));
    }
}

/// What holds of the paths at every step of a walk: a folder's path is its
/// parent's with the folder's name behind it, the root's being empty.
pub open spec fn paths_sound(tree: TreeModel) -> bool {
    &&& forall|i: int|
        0 <= i < tree.queue.len() ==> stands_for(tree, (#[trigger] tree.queue[i]).0, tree.queue[i].1)
    &&& forall|i: int|
        0 <= i < tree.found.len() ==> exists|prefix: Seq<char>| #[trigger]
            stands_for(tree, tree.found[i].parent, prefix) && (#[trigger] tree.found[i]).path
                == path_under(prefix, tree.found[i].name)
}

/// Whether `path` is the path of a folder found, or the root's.
pub open spec fn stands_for(tree: TreeModel, id: Option<Seq<char>>, path: Seq<char>) -> bool {
    match id {
        None => path.len() == 0,
        Some(id) => exists|j: int|
            0 <= j < tree.found.len() && #[trigger] tree.found[j].id == id && tree.found[j].path
                == path,
    }
}

/// A walk starts with sound paths.
pub proof fn law_paths_start_sound()
    ensures
        paths_sound(TreeModel { queue: seq![(None, Seq::empty())], found: Seq::empty() }),
{
}

/// Hearing the next listing, whatever it holds, keeps the paths sound.
pub proof fn law_paths_stay_sound(tree: TreeModel, listing: Option<Seq<Folder>>)
    requires
        paths_sound(tree),
        tree.queue.len() > 0,
    ensures
        paths_sound(tree_after(tree, listing)),
{
    let (parent, prefix) = tree.queue.last();
    let rest = tree.queue.drop_last();
    let next = tree_after(tree, listing);
    assert(stands_for(tree, tree.queue[tree.queue.len() - 1].0, tree.queue[tree.queue.len() - 1].1));
    assert forall|id: Option<Seq<char>>, path: Seq<char>| stands_for(tree, id, path) implies #[trigger] stands_for(next, id, path) by {
        match id {
            Some(id) => {
                let j = choose|j: int|
                    0 <= j < tree.found.len() && #[trigger] tree.found[j].id == id && tree.found[j].path
                        == path;
                assert(next.found[j] == tree.found[j]);
            },
            None => {},
        }
    }
    match listing {
        Some(folders) => {
            let fresh = folders.map_values(|f: Folder| branch_of(f, parent, prefix));
            let queued = fresh.map_values(|b: BranchModel| (Some(b.id), b.path));
            assert forall|i: int| 0 <= i < next.queue.len() implies stands_for(
                next,
                (#[trigger] next.queue[i]).0,
                next.queue[i].1,
            ) by {
                if i < rest.len() {
                    assert(next.queue[i] == tree.queue[i]);
                    assert(stands_for(tree, tree.queue[i].0, tree.queue[i].1));
                } else {
                    let k = i - rest.len();
                    assert(next.queue[i] == queued[k]);
                    assert(next.found[tree.found.len() + k] == fresh[k]);
                }
            }
            assert forall|i: int| 0 <= i < next.found.len() implies exists|prefix: Seq<char>| #[trigger]
                stands_for(next, next.found[i].parent, prefix) && (#[trigger] next.found[i]).path
                    == path_under(prefix, next.found[i].name) by {
                if i < tree.found.len() {
                    assert(next.found[i] == tree.found[i]);
                    let p = choose|p: Seq<char>| #[trigger]
                        stands_for(tree, tree.found[i].parent, p) && tree.found[i].path == path_under(
                            p,
                            tree.found[i].name,
                        );
                    assert(stands_for(next, next.found[i].parent, p));
                } else {
                    let k = i - tree.found.len();
                    assert(next.found[i] == fresh[k]);
                    assert(stands_for(next, parent, prefix));
                }
            }
        },
        None => {
            assert forall|i: int| 0 <= i < next.queue.len() implies stands_for(
                next,
                (#[trigger] next.queue[i]).0,
                next.queue[i].1,
            ) by {
                assert(next.queue[i] == tree.queue[i]);
            }
            assert forall|i: int| 0 <= i < next.found.len() implies exists|prefix: Seq<char>| #[trigger]
                stands_for(next, next.found[i].parent, prefix) && (#[trigger] next.found[i]).path
                    == path_under(prefix, next.found[i].name) by {
                assert(next.found[i] == tree.found[i]);
                let p = choose|p: Seq<char>| #[trigger]
                    stands_for(tree, tree.found[i].parent, p) && tree.found[i].path == path_under(
                        p,
                        tree.found[i].name,
                    );
                assert(stands_for(next, next.found[i].parent, p));
            }
        },
    }
}

proof fn lemma_landing_is_free(found: Seq<BranchModel>, moving: Seq<char>, n: int, at: int)
    requires
        0 <= n <= found.len(),
        0 <= at < landings(found, Some(moving), n).len(),
    ensures
        exists|i: int|
            0 <= i < n && !#[trigger] within(found, moving, i) && found[i] == landings(
                found,
                Some(moving),
                n,
            )[at],
    decreases n,
{
    if n > 0 {
        let head = landings(found, Some(moving), n - 1);
        if at < head.len() {
            lemma_landing_is_free(found, moving, n - 1, at);
            let i = choose|i: int|
                0 <= i < n - 1 && !#[trigger] within(found, moving, i) && found[i] == head[at];
            assert(!within(found, moving, i));
        } else {
            assert(!within(found, moving, n - 1));
        }
    }
}

/// A folder is never offered itself or a folder under itself to move into.
pub proof fn law_no_move_into_the_own_subtree(
    found: Seq<BranchModel>,
    moving: Seq<char>,
    at: int,
)
    requires
        0 <= at < landings(found, Some(moving), found.len() as int).len(),
    ensures
        exists|i: int|
            0 <= i < found.len() && !#[trigger] within(found, moving, i) && found[i] == landings(
                found,
                Some(moving),
                found.len() as int,
            )[at],
        landings(found, Some(moving), found.len() as int)[at].id != moving,
{
    lemma_landing_is_free(found, moving, found.len() as int, at);
    let i = choose|i: int|
        0 <= i < found.len() && !#[trigger] within(found, moving, i) && found[i] == landings(
            found,
            Some(moving),
            found.len() as int,
        )[at];
    assert(!within(found, moving, i));
}

/// Every folder found is offered, but for the moved one and those under it; a
/// file is offered them all.
pub proof fn law_every_other_folder_is_offered(
    found: Seq<BranchModel>,
    moving: Option<Seq<char>>,
    i: int,
)
    requires
        0 <= i < found.len(),
        match moving {
            Some(id) => !within(found, id, i),
            None => true,
        },
    ensures
        landings(found, moving, found.len() as int).contains(found[i]),
{
    lemma_free_is_landing(found, moving, found.len() as int, i);
}

proof fn lemma_free_is_landing(
    found: Seq<BranchModel>,
    moving: Option<Seq<char>>,
    n: int,
    i: int,
)
    requires
        0 <= i < n <= found.len(),
        match moving {
            Some(id) => !within(found, id, i),
            None => true,
        },
    ensures
        landings(found, moving, n).contains(found[i]),
    decreases n,
{
    let head = landings(found, moving, n - 1);
    let all = landings(found, moving, n);
    if i == n - 1 {
        assert(all[head.len() as int] == found[i]);
    } else {
        lemma_free_is_landing(found, moving, n - 1, i);
        let at = choose|at: int| 0 <= at < head.len() && head[at] == found[i];
        assert(all[at] == found[i]);
    }
}

} // verus!
