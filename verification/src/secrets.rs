//! Where a freshly minted service key waits between its POST and the one GET
//! that shows it.
//!
//! The key itself must never ride a URL or a log line, so the query carries
//! only a random claim ticket: the shelf holds the plaintext, the page's read
//! takes it out, and a replayed or reloaded URL finds the shelf empty.
use crate::text;
use vstd::prelude::*;

verus! {

/// How long a key waits on the shelf for its one showing: ten minutes, in
/// milliseconds.
pub const SHOWN_TTL_MS: u64 = 600_000;

/// A character of Crockford's base 32.
pub open spec fn is_ticket_char(c: char) -> bool {
    ('0' <= c && c <= '9') || ('A' <= c && c <= 'Z' && c != 'I' && c != 'L' && c != 'O' && c != 'U')
}

/// `ulid::Ulid::generate` and its `Display`: twenty-six characters of
/// Crockford's base 32 made from the clock and from chance. Nothing is claimed
/// of which ones.
#[verifier::external_body]
fn fresh_ticket() -> (r: String)
    ensures
        r@.len() == 26,
        forall|i: int| 0 <= i < r@.len() ==> is_ticket_char(#[trigger] r@[i]),
{
    ulid::Ulid::generate().to_string()
}

struct Slot {
    ticket: String,
    secret: String,
    parked_ms: u64,
}

/// The shelf: at most one secret to a ticket.
pub struct Shelf {
    slots: Vec<Slot>,
}

spec fn has_ticket(slots: Seq<Slot>, ticket: Seq<char>) -> bool {
    exists|i: int| 0 <= i < slots.len() && #[trigger] slots[i].ticket@ == ticket
}

spec fn slot_of(slots: Seq<Slot>, ticket: Seq<char>) -> Slot {
    slots[choose|i: int| 0 <= i < slots.len() && #[trigger] slots[i].ticket@ == ticket]
}

spec fn no_twins(slots: Seq<Slot>) -> bool {
    forall|i: int, j: int|
        0 <= i < j < slots.len() ==> #[trigger] slots[i].ticket@ != #[trigger] slots[j].ticket@
}

impl View for Shelf {
    /// By ticket: the secret, and when it was parked.
    type V = Map<Seq<char>, (Seq<char>, int)>;

    closed spec fn view(&self) -> Map<Seq<char>, (Seq<char>, int)> {
        Map::new(
            |t: Seq<char>| has_ticket(self.slots@, t),
            |t: Seq<char>|
                (slot_of(self.slots@, t).secret@, slot_of(self.slots@, t).parked_ms as int),
        )
    }
}

/// What still waits on a shelf at `now`.
pub open spec fn waiting(
    shelf: Map<Seq<char>, (Seq<char>, int)>,
    now: int,
) -> Map<Seq<char>, (Seq<char>, int)> {
    Map::new(
        |t: Seq<char>| shelf.contains_key(t) && now - shelf[t].1 < SHOWN_TTL_MS,
        |t: Seq<char>| shelf[t],
    )
}

proof fn lemma_slot(slots: Seq<Slot>, i: int)
    requires
        no_twins(slots),
        0 <= i < slots.len(),
    ensures
        has_ticket(slots, slots[i].ticket@),
        slot_of(slots, slots[i].ticket@) == slots[i],
{
    let t = slots[i].ticket@;
    let k = choose|k: int| 0 <= k < slots.len() && #[trigger] slots[k].ticket@ == t;
    assert(slots[i].ticket@ == t);
    if k < i {
        assert(slots[k].ticket@ != slots[i].ticket@);
    } else if i < k {
        assert(slots[i].ticket@ != slots[k].ticket@);
    }
}

impl Shelf {
    /// No ticket claims two secrets.
    pub closed spec fn well_formed(self) -> bool {
        no_twins(self.slots@)
    }

    /// An empty shelf.
    pub fn new() -> (r: Shelf)
        ensures
            r.well_formed(),
            r@ == Map::<Seq<char>, (Seq<char>, int)>::empty(),
    {
        let r = Shelf { slots: Vec::new() };
        proof {
            assert(r@ =~= Map::<Seq<char>, (Seq<char>, int)>::empty());
        }
        r
    }

    /// Parks a secret under a ticket, after sweeping what waited too long.
    pub fn park(&mut self, ticket: String, secret: String, now_ms: u64)
        requires
            old(self).well_formed(),
        ensures
            final(self).well_formed(),
            final(self)@ == waiting(old(self)@, now_ms as int).insert(
                ticket@,
                (secret@, now_ms as int),
            ),
    {
        let ghost before = self.slots@;
        let ghost shelf = self@;
        let mut rest: Vec<Slot> = Vec::new();
        std::mem::swap(&mut rest, &mut self.slots);
        let mut kept: Vec<Slot> = Vec::new();
        let ghost mut from: Seq<int> = Seq::empty();
        while rest.len() > 0
            invariant
                no_twins(before),
                rest.len() <= before.len(),
                rest@ == before.take(rest.len() as int),
                from.len() == kept.len(),
                forall|i: int|
                    0 <= i < kept.len() ==> rest.len() <= #[trigger] from[i] < before.len()
                        && kept@[i] == before[from[i]],
                forall|i: int, j: int| 0 <= i < j < kept.len() ==> from[j] < from[i],
                forall|i: int|
                    0 <= i < kept.len() ==> now_ms - (#[trigger] kept@[i]).parked_ms < SHOWN_TTL_MS
                        && kept@[i].ticket@ != ticket@,
                forall|k: int|
                    rest.len() <= k < before.len() && now_ms - (#[trigger] before[k]).parked_ms
                        < SHOWN_TTL_MS && before[k].ticket@ != ticket@ ==> from.contains(k),
            decreases rest.len(),
        {
            let ghost at = rest.len() - 1;
            let ghost old_from = from;
            let slot = match rest.pop() {
                Some(slot) => slot,
                None => return,
            };
            assert(slot == before[at]);
            let stays = (now_ms < slot.parked_ms || now_ms - slot.parked_ms < SHOWN_TTL_MS)
                && !text::same(&slot.ticket, &ticket);
            if stays {
                kept.push(slot);
                proof {
                    from = from.push(at);
                }
            }
            proof {
                assert forall|k: int|
                    rest.len() <= k < before.len() && now_ms - (#[trigger] before[k]).parked_ms
                        < SHOWN_TTL_MS && before[k].ticket@ != ticket@ implies from.contains(k) by {
                    if k == at {
                        assert(from[from.len() - 1] == at);
                    } else {
                        assert(old_from.contains(k));
                        let i = choose|i: int| 0 <= i < old_from.len() && old_from[i] == k;
                        assert(from[i] == k);
                    }
                }
            }
        }
        let ghost parked = Slot { ticket, secret, parked_ms: now_ms };
        let ghost swept = kept@;
        kept.push(Slot { ticket, secret, parked_ms: now_ms });
        self.slots = kept;
        proof {
            let now = now_ms as int;
            let slots = self.slots@;
            assert forall|i: int, j: int| 0 <= i < j < slots.len() implies
                #[trigger] slots[i].ticket@ != #[trigger] slots[j].ticket@ by {
                if j < swept.len() {
                    assert(from[j] < from[i]);
                    assert(slots[i] == before[from[i]]);
                    assert(slots[j] == before[from[j]]);
                    assert(before[from[j]].ticket@ != before[from[i]].ticket@);
                } else {
                    assert(slots[i] == swept[i]);
                }
            }
            let goal = waiting(shelf, now).insert(ticket@, (secret@, now));
            assert forall|t: Seq<char>| has_ticket(slots, t) <==> #[trigger] goal.contains_key(t) by {
                if t == ticket@ {
                    assert(slots[swept.len() as int].ticket@ == t);
                } else {
                    if has_ticket(slots, t) {
                        let i = choose|i: int| 0 <= i < slots.len() && #[trigger] slots[i].ticket@ == t;
                        assert(i < swept.len());
                        assert(slots[i] == swept[i]);
                        lemma_slot(before, from[i]);
                    }
                    if goal.contains_key(t) {
                        let k = choose|k: int|
                            0 <= k < before.len() && #[trigger] before[k].ticket@ == t;
                        lemma_slot(before, k);
                        assert(from.contains(k));
                        let i = choose|i: int| 0 <= i < from.len() && from[i] == k;
                        assert(slots[i] == swept[i]);
                        assert(slots[i].ticket@ == t);
                    }
                }
            }
            assert forall|t: Seq<char>| #[trigger] goal.contains_key(t) implies self@[t] == goal[t] by {
                assert(has_ticket(slots, t));
                let i = choose|i: int| 0 <= i < slots.len() && #[trigger] slots[i].ticket@ == t;
                lemma_slot(slots, i);
                if t == ticket@ {
                    lemma_slot(slots, swept.len() as int);
                } else {
                    assert(i < swept.len());
                    assert(slots[i] == swept[i]);
                    lemma_slot(before, from[i]);
                }
            }
            assert forall|t: Seq<char>| #[trigger] self@.contains_key(t) <==> goal.contains_key(t) by {
                assert(self@.contains_key(t) <==> has_ticket(slots, t));
            }
            assert(self@ =~= goal);
        }
    }

    /// Takes the secret behind a ticket out. One that waited too long leaves the
    /// shelf unshown.
    pub fn take(&mut self, ticket: &str, now_ms: u64) -> (r: Option<String>)
        requires
            old(self).well_formed(),
        ensures
            final(self).well_formed(),
            final(self)@ == old(self)@.remove(ticket@),
            match r {
                Some(secret) => waiting(old(self)@, now_ms as int).contains_key(ticket@)
                    && secret@ == old(self)@[ticket@].0,
                None => !waiting(old(self)@, now_ms as int).contains_key(ticket@),
            },
    {
        let ghost before = self.slots@;
        let ghost shelf = self@;
        let mut i: usize = 0;
        while i < self.slots.len()
            invariant
                i <= self.slots.len(),
                self.slots@ == before,
                *old(self) == *self,
                no_twins(before),
                shelf == self@,
                forall|k: int| 0 <= k < i ==> (#[trigger] before[k]).ticket@ != ticket@,
            decreases self.slots.len() - i,
        {
            if text::same(&self.slots[i].ticket, ticket) {
                let slot = self.slots.remove(i);
                proof {
                    lemma_slot(before, i as int);
                    let slots = self.slots@;
                    assert(slot == before[i as int]);
                    assert forall|a: int, b: int| 0 <= a < b < slots.len() implies
                        #[trigger] slots[a].ticket@ != #[trigger] slots[b].ticket@ by {
                        let x = if a < i { a } else { a + 1 };
                        let y = if b < i { b } else { b + 1 };
                        assert(slots[a] == before[x]);
                        assert(slots[b] == before[y]);
                    }
                    let goal = shelf.remove(ticket@);
                    assert forall|t: Seq<char>| has_ticket(slots, t) <==> #[trigger] goal.contains_key(t) by {
                        if has_ticket(slots, t) {
                            let a = choose|a: int| 0 <= a < slots.len() && #[trigger] slots[a].ticket@ == t;
                            let x = if a < i { a } else { a + 1 };
                            assert(slots[a] == before[x]);
                            assert(before[x].ticket@ == t);
                            if x < i {
                                assert(before[x].ticket@ != before[i as int].ticket@);
                            } else {
                                assert(before[i as int].ticket@ != before[x].ticket@);
                            }
                        }
                        if goal.contains_key(t) {
                            let x = choose|x: int| 0 <= x < before.len() && #[trigger] before[x].ticket@ == t;
                            let a = if x < i { x } else { x - 1 };
                            assert(slots[a] == before[x]);
                            assert(slots[a].ticket@ == t);
                        }
                    }
                    assert forall|t: Seq<char>| #[trigger] goal.contains_key(t) implies self@[t] == goal[t] by {
                        assert(has_ticket(slots, t));
                        let a = choose|a: int| 0 <= a < slots.len() && #[trigger] slots[a].ticket@ == t;
                        lemma_slot(slots, a);
                        let x = if a < i { a } else { a + 1 };
                        assert(slots[a] == before[x]);
                        lemma_slot(before, x);
                    }
                    assert(self@ =~= goal);
                }
                return if now_ms < slot.parked_ms || now_ms - slot.parked_ms < SHOWN_TTL_MS {
                    Some(slot.secret)
                } else {
                    None
                };
            }
            i += 1;
        }
        proof {
            assert(!has_ticket(before, ticket@));
            assert(self@.remove(ticket@) =~= self@);
        }
        None
    }
}

/// Parks a fresh service key on the shelf and returns the claim ticket for its
/// URL.
pub fn stash_shown_secret(shelf: &mut Shelf, secret: String, now_ms: u64) -> (ticket: String)
    requires
        old(shelf).well_formed(),
    ensures
        final(shelf).well_formed(),
        final(shelf)@ == waiting(old(shelf)@, now_ms as int).insert(
            ticket@,
            (secret@, now_ms as int),
        ),
        ticket@.len() == 26,
        forall|i: int| 0 <= i < ticket@.len() ==> is_ticket_char(#[trigger] ticket@[i]),
{
    let ticket = fresh_ticket();
    shelf.park(ticket.clone(), secret, now_ms);
    ticket
}

/// Takes a stashed key out, exactly once and within its ten minutes; the second
/// reader of the same ticket gets nothing, and so does one that comes too late.
pub fn take_shown_secret(shelf: &mut Shelf, ticket: &str, now_ms: u64) -> (r: Option<String>)
    requires
        old(shelf).well_formed(),
    ensures
        final(shelf).well_formed(),
        final(shelf)@ == old(shelf)@.remove(ticket@),
        match r {
            Some(secret) => waiting(old(shelf)@, now_ms as int).contains_key(ticket@) && secret@
                == old(shelf)@[ticket@].0,
            None => !waiting(old(shelf)@, now_ms as int).contains_key(ticket@),
        },
{
    shelf.take(ticket, now_ms)
}

/// A key that was parked waits ten minutes for its ticket, and once it was taken
/// the ticket claims nothing, then or later: it is shown exactly once.
pub proof fn law_shown_exactly_once(
    shelf: Map<Seq<char>, (Seq<char>, int)>,
    ticket: Seq<char>,
    secret: Seq<char>,
    now: int,
    later: int,
)
    ensures
        ({
            let parked = waiting(shelf, now).insert(ticket, (secret, now));
            &&& later - now < SHOWN_TTL_MS ==> waiting(parked, later).contains_key(ticket)
            &&& parked[ticket].0 == secret
            &&& !waiting(parked.remove(ticket), later).contains_key(ticket)
        }),
{
}

/// Ten minutes after a key was parked its ticket claims nothing, whether or not
/// anything was stashed since.
pub proof fn law_a_late_ticket_claims_nothing(
    shelf: Map<Seq<char>, (Seq<char>, int)>,
    ticket: Seq<char>,
    secret: Seq<char>,
    now: int,
    stashed: int,
    later: int,
)
    requires
        later - now >= SHOWN_TTL_MS,
    ensures
        ({
            let parked = waiting(shelf, now).insert(ticket, (secret, now));
            &&& !waiting(parked, later).contains_key(ticket)
            &&& !waiting(waiting(parked, stashed), later).contains_key(ticket)
        }),
{
}

/// Sweeping takes only what waited ten minutes or longer.
pub proof fn law_sweep_keeps_the_young(
    shelf: Map<Seq<char>, (Seq<char>, int)>,
    ticket: Seq<char>,
    now: int,
)
    requires
        shelf.contains_key(ticket),
    ensures
        waiting(shelf, now).contains_key(ticket) <==> now - shelf[ticket].1 < SHOWN_TTL_MS,
        waiting(shelf, now).contains_key(ticket) ==> waiting(shelf, now)[ticket] == shelf[ticket],
{
}

} // verus!
