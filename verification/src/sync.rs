//! What runs beside the pages: the mirror of the identity directory, the mirror
//! of the family's list, and what the command line and the key file say.
use crate::clock;
use crate::clock::Moment;
use crate::health;
use crate::health::trim_slashes;
use crate::model::{StoreError, User};
use crate::server::{DirectoryHealth, HealthModel, Provision};
use crate::text;
use vstd::prelude::*;

verus! {

// ---- One member --------------------------------------------------------------------
/// One member as the directory knows them.
#[derive(Debug)]
pub struct Member {
    pub sub: String,
    pub email: String,
    pub name: String,
    pub admin: bool,
    pub photo_version: i64,
    pub disabled: bool,
}

/// Whether a row is asked for as the directory has it, see [`mirror_member`].
pub open spec fn mirrors(asked: Provision, member: Member, default_quota_bytes: u64) -> bool {
    &&& asked.sub@ == member.sub@
    &&& asked.email@ == member.email@
    &&& asked.name@ == member.name@
    &&& asked.admin == Some(member.admin)
    &&& asked.photo_version == member.photo_version
    &&& asked.default_quota_bytes == default_quota_bytes
}

/// What the store is told of a member: address, name, admin flag and photo stamp
/// follow the directory.
pub fn mirror_member(member: &Member, default_quota_bytes: u64) -> (r: Provision)
    ensures
        mirrors(r, *member, default_quota_bytes),
{
    Provision {
        sub: member.sub.clone(),
        email: member.email.clone(),
        name: member.name.clone(),
        admin: Some(member.admin),
        photo_version: member.photo_version,
        default_quota_bytes,
    }
}

/// What the row's disablement flag is set to, where it differs from the
/// directory's word.
pub open spec fn flag_to_set(row: bool, word: bool) -> Option<bool> {
    if row != word {
        Some(word)
    } else {
        None
    }
}

/// What a row's disablement flag is set to, where it is set.
pub open spec fn flag_for(provisioned: Result<User, StoreError>, member: Member) -> Option<bool> {
    match provisioned {
        Ok(user) => flag_to_set(user.disabled, member.disabled),
        Err(_) => None,
    }
}

/// The disablement flag follows the directory in both directions; nothing where
/// it stands already, or where the row could not be provisioned.
pub fn mirror_disabled(provisioned: &Result<User, StoreError>, member: &Member) -> (r: Option<bool>)
    ensures
        r == flag_for(*provisioned, *member),
{
    match provisioned {
        Ok(user) => if user.disabled != member.disabled {
            Some(member.disabled)
        } else {
            None
        },
        Err(_) => None,
    }
}

/// Whatever the row said before, after the mirror it says what the directory
/// says, and a second pass changes nothing.
pub proof fn law_the_flag_mirrors_both_ways(row: bool, word: bool)
    ensures
        ({
            let after = match flag_to_set(row, word) {
                Some(flag) => flag,
                None => row,
            };
            after == word && flag_to_set(after, word) is None
        }),
{
}

/// One event off the directory's stream.
#[derive(Debug)]
pub enum DirectoryEvent {
    /// The member's own row moved.
    Profile(Member),
    /// The subject's sessions died.
    Revoked { sub: String },
}

/// What one event asks for.
#[derive(Debug)]
pub enum EventStep {
    /// Mirror the member.
    Mirror(Member),
    /// Look the subject up, to wake the person's tabs.
    Wake(String),
}

/// What an event asks for.
pub open spec fn step_for(event: DirectoryEvent) -> EventStep {
    match event {
        DirectoryEvent::Profile(member) => EventStep::Mirror(member),
        DirectoryEvent::Revoked { sub } => EventStep::Wake(sub),
    }
}

/// What one event asks for. A revocation moves no local row; it only wakes the
/// person's tabs, which then meet a dead session.
pub fn apply_directory_event(event: DirectoryEvent) -> (r: EventStep)
    ensures
        r == step_for(event),
{
    match event {
        DirectoryEvent::Profile(member) => EventStep::Mirror(member),
        DirectoryEvent::Revoked { sub } => EventStep::Wake(sub),
    }
}

/// Whose tabs a revocation wakes.
pub open spec fn woken(found: Result<Option<User>, StoreError>) -> Option<Seq<char>> {
    match found {
        Ok(Some(user)) => Some(user.id@),
        _ => None,
    }
}

/// Whose profile is announced when a subject's sessions died: the local row
/// that carries the subject, by its own id. Nobody local, or a store that fails
/// to say, wakes nobody.
pub fn announce_revocation(found: &Result<Option<User>, StoreError>) -> (r: Option<String>)
    ensures
        text::opt_text(r) == woken(*found),
{
    match found {
        Ok(Some(user)) => Some(user.id.clone()),
        _ => None,
    }
}

// ---- The directory's mirror ----------------------------------------------------------
/// The longest wait a run of directory failures earns, in seconds.
pub const IDENTITY_BACKOFF_CAP: u64 = 30;

/// What the mirror was told.
#[derive(Clone, Copy, Debug, PartialEq, Eq, Structural)]
pub enum SyncHeard {
    /// The directory answered with its members.
    Listed,
    /// It did not answer.
    ListFailed,
    /// Every member was mirrored.
    Mirrored,
    /// The live stream opened.
    Opened,
    /// It was refused.
    OpenRefused,
    /// An event came through it and was applied: proof the feed is alive.
    Applied,
    /// It broke, or ended.
    StreamEnded,
    /// The wait is over.
    Slept,
}

/// What the mirror does next.
#[derive(Clone, Copy, Debug, PartialEq, Eq, Structural)]
pub enum SyncAct {
    /// Ask the directory for every member.
    List,
    /// Mirror every member.
    MirrorAll,
    /// Open the live stream.
    Open,
    /// Wait for the stream's next event.
    Listen,
    /// Wait this many seconds.
    Sleep(u64),
}

/// Keeps the local user rows a live mirror of the identity directory: one full
/// pass, one stream, repeat. A pass that fails backs off a second, then doubles
/// to the cap, and the next answer starts over.
#[derive(Debug)]
pub struct IdentitySync {
    backoff: u64,
}

/// What the mirror does about what it was told, and the wait it then owes.
pub open spec fn sync_after(backoff: int, heard: SyncHeard) -> (SyncAct, int) {
    let doubled = if backoff * 2 < IDENTITY_BACKOFF_CAP {
        backoff * 2
    } else {
        IDENTITY_BACKOFF_CAP as int
    };
    match heard {
        SyncHeard::Listed => (SyncAct::MirrorAll, 1),
        SyncHeard::Mirrored => (SyncAct::Open, backoff),
        SyncHeard::Opened => (SyncAct::Listen, backoff),
        SyncHeard::Applied => (SyncAct::Listen, backoff),
        SyncHeard::ListFailed => (SyncAct::Sleep(backoff as u64), doubled),
        SyncHeard::OpenRefused => (SyncAct::Sleep(backoff as u64), doubled),
        SyncHeard::StreamEnded => (SyncAct::Sleep(backoff as u64), doubled),
        SyncHeard::Slept => (SyncAct::List, backoff),
    }
}

/// What the connection's state becomes.
pub open spec fn health_after(health: HealthModel, heard: SyncHeard, now: int) -> HealthModel {
    match heard {
        SyncHeard::Mirrored => HealthModel { last_pass: now, ..health },
        SyncHeard::Opened => HealthModel { connected: true, ..health },
        SyncHeard::Applied => HealthModel { connected: true, last_event: now, ..health },
        SyncHeard::ListFailed => HealthModel { connected: false, ..health },
        SyncHeard::OpenRefused => HealthModel { connected: false, ..health },
        SyncHeard::StreamEnded => HealthModel { connected: false, ..health },
        _ => health,
    }
}

impl View for IdentitySync {
    type V = int;

    /// The wait the next failure earns.
    closed spec fn view(&self) -> int {
        self.backoff as int
    }
}

impl IdentitySync {
    #[verifier::type_invariant]
    closed spec fn within(self) -> bool {
        1 <= self.backoff <= IDENTITY_BACKOFF_CAP
    }

    /// A mirror that has not failed yet.
    pub fn new() -> (r: IdentitySync)
        ensures
            r@ == 1,
    {
        IdentitySync { backoff: 1 }
    }

    /// What the mirror does about what it was told. Its first act is to list.
    pub fn hear(&mut self, health: &mut DirectoryHealth, heard: SyncHeard, now: i64) -> (r: SyncAct)
        ensures
            sync_after(old(self)@, heard) == (r, final(self)@),
            final(health)@ == health_after(old(health)@, heard, now as int),
            r matches SyncAct::Sleep(seconds) ==> 1 <= seconds <= IDENTITY_BACKOFF_CAP,
    {
        proof {
            use_type_invariant(&*self);
        }
        match heard {
            SyncHeard::Listed => {
                self.backoff = 1;
                SyncAct::MirrorAll
            },
            SyncHeard::Mirrored => {
                health.note_pass_at(now);
                SyncAct::Open
            },
            SyncHeard::Opened => {
                health.connected();
                SyncAct::Listen
            },
            SyncHeard::Applied => {
                health.note_event_at(now);
                SyncAct::Listen
            },
            SyncHeard::Slept => SyncAct::List,
            SyncHeard::ListFailed => {
                health.reconnecting();
                self.back_off()
            },
            SyncHeard::OpenRefused => {
                health.reconnecting();
                self.back_off()
            },
            SyncHeard::StreamEnded => {
                health.reconnecting();
                self.back_off()
            },
        }
    }

    fn back_off(&mut self) -> (r: SyncAct)
        ensures
            sync_after(old(self)@, SyncHeard::ListFailed) == (r, final(self)@),
            r matches SyncAct::Sleep(seconds) && 1 <= seconds <= IDENTITY_BACKOFF_CAP,
    {
        proof {
            use_type_invariant(&*self);
        }
        let wait: u64 = self.backoff;
        self.backoff = if wait * 2 < IDENTITY_BACKOFF_CAP {
            wait * 2
        } else {
            IDENTITY_BACKOFF_CAP
        };
        SyncAct::Sleep(wait)
    }
}

/// The wait owed after `n` failed passes in a row.
pub open spec fn wait_after(n: nat) -> int
    decreases n,
{
    if n == 0 {
        1
    } else {
        sync_after(wait_after((n - 1) as nat), SyncHeard::ListFailed).1
    }
}

/// A run of failures waits one second, then two, four and so on, never longer
/// than the cap; and whatever came before, an answer starts over.
pub proof fn law_failures_back_off_to_the_cap(n: nat, backoff: int)
    ensures
        wait_after(n) == if vstd::arithmetic::power2::pow2(n) < IDENTITY_BACKOFF_CAP {
            vstd::arithmetic::power2::pow2(n) as int
        } else {
            IDENTITY_BACKOFF_CAP as int
        },
        1 <= wait_after(n) <= IDENTITY_BACKOFF_CAP,
        sync_after(backoff, SyncHeard::Listed).1 == wait_after(0),
    decreases n,
{
    vstd::arithmetic::power2::lemma2_to64();
    if n > 0 {
        law_failures_back_off_to_the_cap((n - 1) as nat, backoff);
        vstd::arithmetic::power2::lemma_pow2_unfold(n);
    }
    vstd::arithmetic::power2::lemma_pow2_pos(n);
}

// ---- The family's mirror -------------------------------------------------------------
/// How often the family's list is fetched, in seconds.
pub const FAMILY_SECONDS: u64 = 300;

/// The address this app announces.
pub open spec fn announced(base_url: Option<Seq<char>>) -> Seq<char> {
    match base_url {
        Some(url) => health::without_slashes(url),
        None => Seq::empty(),
    }
}

/// The address the app registers itself under: its public address alone, without
/// the slashes at its end.
pub fn public_origin(base_url: Option<&str>) -> (r: String)
    ensures
        r@ == announced(text::opt_str(base_url)),
{
    match base_url {
        Some(url) => trim_slashes(url),
        None => String::new(),
    }
}

/// What the family's mirror was told.
#[derive(Clone, Copy, Debug, PartialEq, Eq, Structural)]
pub enum FamilyHeard {
    /// The wait is over, or the process has just started.
    Woke,
    /// The registration was answered, one way or the other.
    Registered,
    /// The list came.
    Fetched,
    /// The directory did not answer.
    Silent,
    /// The limits were taken from the list, or a write was refused.
    Limited,
    /// The list was filed, or could not be.
    Filed,
}

/// What the family's mirror does next.
#[derive(Clone, Copy, Debug, PartialEq, Eq, Structural)]
pub enum FamilyAct {
    /// Announce this app under its key, its name and its address.
    Register,
    Fetch,
    /// Take every service's ceiling from the list.
    Limit,
    /// File the list in place of the one filed before.
    File,
    /// Wait this many seconds.
    Sleep(u64),
}

/// What the family's mirror does next. An app with no public address has nothing
/// to announce; a directory that does not answer leaves the list there is.
pub open spec fn family_after(origin: Seq<char>, heard: FamilyHeard) -> FamilyAct {
    match heard {
        FamilyHeard::Woke => if origin.len() > 0 {
            FamilyAct::Register
        } else {
            FamilyAct::Fetch
        },
        FamilyHeard::Registered => FamilyAct::Fetch,
        FamilyHeard::Fetched => FamilyAct::Limit,
        FamilyHeard::Limited => FamilyAct::File,
        FamilyHeard::Silent => FamilyAct::Sleep(FAMILY_SECONDS),
        FamilyHeard::Filed => FamilyAct::Sleep(FAMILY_SECONDS),
    }
}

/// What the family's mirror does next, see [`family_after`].
pub fn family_sync(origin: &str, heard: FamilyHeard) -> (r: FamilyAct)
    ensures
        r == family_after(origin@, heard),
{
    match heard {
        FamilyHeard::Woke => if origin.unicode_len() > 0 {
            FamilyAct::Register
        } else {
            FamilyAct::Fetch
        },
        FamilyHeard::Registered => FamilyAct::Fetch,
        FamilyHeard::Fetched => FamilyAct::Limit,
        FamilyHeard::Limited => FamilyAct::File,
        FamilyHeard::Silent => FamilyAct::Sleep(FAMILY_SECONDS),
        FamilyHeard::Filed => FamilyAct::Sleep(FAMILY_SECONDS),
    }
}

/// The filed list is replaced only by a list that came, and only after its
/// limits were taken.
pub proof fn law_silence_keeps_the_list(origin: Seq<char>, heard: FamilyHeard)
    ensures
        family_after(origin, heard) == FamilyAct::File ==> heard == FamilyHeard::Limited,
        family_after(origin, heard) == FamilyAct::Limit ==> heard == FamilyHeard::Fetched,
        family_after(origin, heard) == FamilyAct::Register ==> origin.len() > 0,
{
}

// ---- The command line and the key file -------------------------------------------------
/// What the command line asks for.
#[derive(Debug)]
pub enum Command {
    Serve,
    Reconcile { dry_run: bool, yes: bool },
    /// An option `reconcile` does not know.
    Unknown(String),
}

/// What the command line asks for, as a value.
pub enum CommandModel {
    Serve,
    Reconcile(bool, bool),
    Unknown(Seq<char>),
}

impl View for Command {
    type V = CommandModel;

    open spec fn view(&self) -> CommandModel {
        match *self {
            Command::Serve => CommandModel::Serve,
            Command::Reconcile { dry_run, yes } => CommandModel::Reconcile(dry_run, yes),
            Command::Unknown(option) => CommandModel::Unknown(option@),
        }
    }
}

/// What the options from `i` on come to.
pub open spec fn options_after(args: Seq<Seq<char>>, i: int, dry_run: bool, yes: bool) -> CommandModel
    decreases args.len() - i,
{
    if i < 0 || i >= args.len() {
        CommandModel::Reconcile(dry_run, yes)
    } else if args[i] == "--dry-run"@ {
        options_after(args, i + 1, true, yes)
    } else if args[i] == "--yes"@ {
        options_after(args, i + 1, dry_run, true)
    } else {
        CommandModel::Unknown(args[i])
    }
}

/// What the command line asks for: `reconcile` with its options, else to serve.
pub open spec fn command_of(args: Seq<Seq<char>>) -> CommandModel {
    if args.len() > 1 && args[1] == "reconcile"@ {
        options_after(args, 2, false, false)
    } else {
        CommandModel::Serve
    }
}

/// What the command line asks for, see [`command_of`]. The first argument is the
/// program's own name.
pub fn command(args: &Vec<String>) -> (r: Command)
    ensures
        r@ == command_of(text::texts(args@)),
{
    let ghost words = text::texts(args@);
    if args.len() < 2 {
        return Command::Serve;
    }
    assert(words[1] == args@[1]@);
    if !text::same(&args[1], "reconcile") {
        return Command::Serve;
    }
    let mut dry_run = false;
    let mut yes = false;
    let mut i: usize = 2;
    while i < args.len()
        invariant
            2 <= i <= args.len(),
            words == text::texts(args@),
            command_of(words) == options_after(words, i as int, dry_run, yes),
        decreases args.len() - i,
    {
        assert(words[i as int] == args@[i as int]@);
        if text::same(&args[i], "--dry-run") {
            dry_run = true;
        } else if text::same(&args[i], "--yes") {
            yes = true;
        } else {
            return Command::Unknown(args[i].clone());
        }
        i += 1;
    }
    Command::Reconcile { dry_run, yes }
}

/// The lines that hold anything, without the white space around them.
pub open spec fn filled_lines(lines: Seq<Seq<char>>) -> Seq<Seq<char>>
    decreases lines.len(),
{
    if lines.len() == 0 {
        Seq::empty()
    } else {
        let head = filled_lines(lines.drop_last());
        if text::trimmed(lines.last()).len() > 0 {
            head.push(text::trimmed(lines.last()))
        } else {
            head
        }
    }
}

/// A bucket's keys.
#[derive(Debug)]
pub struct BucketKeys {
    pub access_key_id: String,
    pub secret_access_key: String,
}

/// Whether keys are those a file holds, see [`bucket_keys`].
pub open spec fn keys_in(keys: Option<BucketKeys>, contents: Seq<char>) -> bool {
    let lines = filled_lines(text::split_on(contents, '\n'));
    match keys {
        Some(keys) => lines.len() >= 2 && keys.access_key_id@ == lines[0]
            && keys.secret_access_key@ == lines[1],
        None => lines.len() < 2,
    }
}

/// The two keys a key file holds: the access key id on its first line, the
/// secret on its second; nothing where either is missing. Empty lines are no
/// lines.
pub fn bucket_keys(contents: &str) -> (r: Option<BucketKeys>)
    ensures
        keys_in(r, contents@),
{
    let lines = text::split(contents, '\n');
    let ghost all = text::texts(lines@);
    let mut kept: Vec<String> = Vec::new();
    let mut i: usize = 0;
    assert(all.take(0) =~= Seq::<Seq<char>>::empty());
    while i < lines.len()
        invariant
            i <= lines.len(),
            all == text::texts(lines@),
            text::texts(kept@) == filled_lines(all.take(i as int)),
        decreases lines.len() - i,
    {
        let ghost before = kept@;
        let line = text::trim(&lines[i]);
        proof {
            assert(all.take(i + 1).drop_last() =~= all.take(i as int));
            assert(all.take(i + 1).last() == lines@[i as int]@);
        }
        if line.as_str().unicode_len() > 0 {
            kept.push(line);
            assert(text::texts(kept@) =~= text::texts(before).push(line@));
        }
        i += 1;
    }
    assert(all.take(i as int) =~= all);
    if kept.len() < 2 {
        return None;
    }
    assert(text::texts(kept@)[0] == kept@[0]@);
    assert(text::texts(kept@)[1] == kept@[1]@);
    let access_key_id = kept.remove(0);
    let secret_access_key = kept.remove(0);
    Some(BucketKeys { access_key_id, secret_access_key })
}

/// The address of an account's buckets.
pub open spec fn endpoint_of(account_id: Seq<char>) -> Seq<char> {
    "https://"@ + account_id + ".r2.cloudflarestorage.com"@
}

/// Where an account's bucket answers.
pub fn bucket_endpoint(account_id: &str) -> (r: String)
    ensures
        r@ == endpoint_of(account_id@),
{
    let mut out = text::glue("https://", account_id);
    out.append(".r2.cloudflarestorage.com");
    out
}

/// Whether a moment is the one before which trashed rows are purged.
pub open spec fn cuts_off(cutoff: Option<Moment>, now: int, days: u32) -> bool {
    match cutoff {
        Some(at) => at@ == now - days * 86_400 * clock::NANOS_PER_SECOND,
        None => !clock::in_calendar(now - days * 86_400 * clock::NANOS_PER_SECOND),
    }
}

/// Trash older than this is purged: `days` before now, as far back as the
/// calendar reaches.
pub fn purge_cutoff(now: Moment, days: u32) -> (r: Option<Moment>)
    ensures
        cuts_off(r, now@, days),
{
    let seconds: i64 = days as i64 * 86_400;
    now.later(-seconds)
}

} // verus!
