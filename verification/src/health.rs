//! The family-health probe: a service is asked `{url}/healthz` where it stands,
//! and one round of readings is reused for every page painted inside its window.
use crate::text;
use vstd::prelude::*;

verus! {

/// How long one round of probes stays true, in milliseconds.
pub const PROBE_TTL_MS: u64 = 30_000;

/// One `/healthz` reading. `Up` carries the body and the answer's latency;
/// everything else, refused or wrong status or a body that does not begin `ok`
/// or no answer in time, is `Down`.
#[derive(Debug)]
pub enum Probe {
    Up { body: String, ms: u128 },
    Down,
}

impl Clone for Probe {
    fn clone(&self) -> (r: Self)
        ensures
            r == *self,
    {
        match self {
            Probe::Up { body, ms } => Probe::Up { body: body.clone(), ms: *ms },
            Probe::Down => Probe::Down,
        }
    }
}

/// A reading as a value: the body and the latency of a service that is up.
pub open spec fn reading_of(probe: Probe) -> Option<(Seq<char>, nat)> {
    match probe {
        Probe::Up { body, ms } => Some((body@, ms as nat)),
        Probe::Down => None,
    }
}

/// The first characters of a text, `n` at most.
pub open spec fn at_most(s: Seq<char>, n: int) -> Seq<char> {
    if s.len() > n {
        s.take(n)
    } else {
        s
    }
}

/// What an answer to a probe reads as.
pub open spec fn read_as(success: bool, body: Seq<char>, ms: nat) -> Option<(Seq<char>, nat)> {
    if success && "ok"@.is_prefix_of(text::trimmed(body)) {
        Some((at_most(text::trimmed(body), 64), ms))
    } else {
        None
    }
}

/// The reading an answer comes to.
pub fn probe_healthz(success: bool, body: &str, ms: u128) -> (r: Probe)
    ensures
        reading_of(r) == read_as(success, body@, ms as nat),
{
    if !success {
        return Probe::Down;
    }
    let body = text::trim(body);
    if text::starts_with(&body, "ok") {
        let v = text::letters(&body);
        let kept: usize = if v.len() > 64 {
            64
        } else {
            v.len()
        };
        assert(v@.subrange(0, kept as int) =~= at_most(body@, 64));
        Probe::Up { body: text::text_of(&v, 0, kept), ms }
    } else {
        Probe::Down
    }
}

/// A text without the slashes at its end.
pub open spec fn without_slashes(s: Seq<char>) -> Seq<char>
    decreases s.len(),
{
    if s.len() > 0 && s.last() == '/' {
        without_slashes(s.drop_last())
    } else {
        s
    }
}

/// An address without the slashes at its end.
pub fn trim_slashes(address: &str) -> (r: String)
    ensures
        r@ == without_slashes(address@),
{
    let v = text::letters(address);
    let mut end: usize = v.len();
    assert(v@.take(end as int) == v@);
    while end > 0 && v[end - 1] == '/'
        invariant
            end <= v.len(),
            v@ == address@,
            without_slashes(v@.take(end as int)) == without_slashes(address@),
        decreases end,
    {
        assert(v@.take(end as int).drop_last() == v@.take(end - 1));
        end = end - 1;
    }
    assert(v@.subrange(0, end as int) == v@.take(end as int));
    text::text_of(&v, 0, end)
}

/// The address a sibling is probed at.
pub open spec fn probed_at(url: Seq<char>) -> Seq<char> {
    without_slashes(url) + "/healthz"@
}

/// Where a service is asked how it is.
pub fn healthz_address(url: &str) -> (r: String)
    ensures
        r@ == probed_at(url@),
{
    text::glue(&trim_slashes(url), "/healthz")
}

/// One service to ask.
#[derive(Debug)]
pub struct Sibling {
    pub key: String,
    pub url: String,
}

/// A service and what it read.
#[derive(Debug)]
pub struct Reading {
    pub key: String,
    pub url: String,
    pub probe: Probe,
}

/// One cached round: when it was read, and what each sibling read.
#[derive(Debug)]
pub struct Round {
    pub read_at_ms: u64,
    pub readings: Vec<Reading>,
}

/// Whether a round is over exactly these services: a moved service probes again
/// even inside the window.
pub open spec fn is_over(readings: Seq<Reading>, siblings: Seq<Sibling>) -> bool {
    &&& readings.len() == siblings.len()
    &&& forall|i: int|
        0 <= i < siblings.len() ==> (#[trigger] readings[i]).key@ == siblings[i].key@
            && readings[i].url@ == siblings[i].url@
}

/// Whether a round read at `at` is still true at `now`.
pub open spec fn is_young(at: int, now: int) -> bool {
    now - at < PROBE_TTL_MS
}

/// The readings of a round, in its order.
pub open spec fn probes_of(readings: Seq<Reading>) -> Seq<Probe> {
    readings.map_values(|r: Reading| r.probe)
}

/// What a round answers for these services at `now`, where it may be reused.
pub open spec fn reused(round: Round, now: int, siblings: Seq<Sibling>) -> Option<Seq<Probe>> {
    if is_young(round.read_at_ms as int, now) && is_over(round.readings@, siblings) {
        Some(probes_of(round.readings@))
    } else {
        None
    }
}

impl Round {
    /// A round over nobody.
    pub fn new(now_ms: u64) -> (r: Round)
        ensures
            r.read_at_ms == now_ms,
            r.readings@.len() == 0,
    {
        Round { read_at_ms: now_ms, readings: Vec::new() }
    }

    /// The family's health off this round, where it may be reused.
    pub fn family_probes(&self, now_ms: u64, siblings: &Vec<Sibling>) -> (r: Option<Vec<Probe>>)
        ensures
            match r {
                Some(probes) => reused(*self, now_ms as int, siblings@) == Some(probes@),
                None => reused(*self, now_ms as int, siblings@) is None,
            },
    {
        if now_ms >= self.read_at_ms && now_ms - self.read_at_ms >= PROBE_TTL_MS {
            return None;
        }
        if self.readings.len() != siblings.len() {
            return None;
        }
        let mut probes: Vec<Probe> = Vec::new();
        let mut i: usize = 0;
        while i < siblings.len()
            invariant
                i <= siblings.len(),
                self.readings.len() == siblings.len(),
                probes@ == probes_of(self.readings@.take(i as int)),
                forall|k: int|
                    0 <= k < i ==> (#[trigger] self.readings@[k]).key@ == siblings@[k].key@
                        && self.readings@[k].url@ == siblings@[k].url@,
            decreases siblings.len() - i,
        {
            let reading = &self.readings[i];
            if !text::same(&reading.key, &siblings[i].key) || !text::same(
                &reading.url,
                &siblings[i].url,
            ) {
                assert(!is_over(self.readings@, siblings@)) by {
                    assert(self.readings@[i as int].key@ != siblings@[i as int].key@
                        || self.readings@[i as int].url@ != siblings@[i as int].url@);
                }
                return None;
            }
            probes.push(reading.probe.clone());
            assert(probes@ =~= probes_of(self.readings@.take(i + 1)));
            i += 1;
        }
        assert(self.readings@.take(i as int) =~= self.readings@);
        Some(probes)
    }

    /// Files a fresh round: one reading per service, in order.
    pub fn file(&mut self, now_ms: u64, siblings: Vec<Sibling>, probes: Vec<Probe>)
        requires
            siblings.len() == probes.len(),
        ensures
            final(self).read_at_ms == now_ms,
            is_over(final(self).readings@, siblings@),
            probes_of(final(self).readings@) == probes@,
    {
        let ghost asked = siblings@;
        let ghost read = probes@;
        let mut siblings = siblings;
        let mut probes = probes;
        let mut readings: Vec<Reading> = Vec::new();
        let ghost mut k: int = 0;
        while siblings.len() > 0
            invariant
                0 <= k,
                asked.len() == read.len(),
                k + siblings.len() == asked.len(),
                siblings.len() == probes.len(),
                siblings@ == asked.skip(k),
                probes@ == read.skip(k),
                readings.len() == k,
                forall|i: int|
                    0 <= i < k ==> (#[trigger] readings@[i]).key@ == asked[i].key@
                        && readings@[i].url@ == asked[i].url@ && readings@[i].probe == read[i],
            decreases siblings.len(),
        {
            let Sibling { key, url } = siblings.remove(0);
            let probe = probes.remove(0);
            proof {
                assert(asked.skip(k)[0] == asked[k]);
                assert(read.skip(k)[0] == read[k]);
                assert(siblings@ =~= asked.skip(k + 1));
                assert(probes@ =~= read.skip(k + 1));
                k = k + 1;
            }
            readings.push(Reading { key, url, probe });
        }
        assert(probes_of(readings@) =~= read);
        self.read_at_ms = now_ms;
        self.readings = readings;
    }
}

/// A round filed over these services answers what was read inside its window,
/// and nothing past it; over any other services it answers nothing at all.
pub proof fn law_a_round_lasts_its_window(
    round: Round,
    siblings: Seq<Sibling>,
    probes: Seq<Probe>,
    others: Seq<Sibling>,
    now_ms: int,
)
    requires
        is_over(round.readings@, siblings),
        probes_of(round.readings@) == probes,
        !is_over(round.readings@, others),
    ensures
        now_ms < round.read_at_ms + PROBE_TTL_MS ==> reused(round, now_ms, siblings) == Some(probes),
        now_ms >= round.read_at_ms + PROBE_TTL_MS ==> reused(round, now_ms, siblings) is None,
        reused(round, now_ms, others) is None,
{
}

} // verus!
