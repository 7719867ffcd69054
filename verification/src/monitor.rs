//! The status ledger and the per-cycle change detection.

use vstd::prelude::*;
use crate::config::Config;
use crate::verdict::Verdict;
use crate::message::{startup_message, changes_message, spec_startup_message, spec_changes_message};

verus! {

/// Whether a fresh verdict counts as a change against the previously
/// recorded one: always on the first observation, otherwise exactly when
/// it differs.
pub open spec fn spec_changed(prev: Option<Verdict>, v: Verdict) -> bool {
    prev != Some(v)
}

/// One endpoint's result in one cycle: the endpoint, its fresh verdict,
/// and whether that verdict differs from the ledger's previous entry.
pub struct CycleEntry {
    pub endpoint: String,
    pub verdict: Verdict,
    pub changed: bool,
}

/// The monitor's state: the immutable configuration and the status
/// ledger. The ledger runs parallel to the endpoint list: entry `i` holds
/// the last-observed verdict of endpoint `i`, and `None` before the first
/// observation.
pub struct Monitor {
    pub config: Config,
    pub ledger: Vec<Option<Verdict>>,
}

/// The entries one cycle produces from a monitor state and the fresh
/// verdicts, one per endpoint in configuration order.
pub open spec fn spec_entries(m: Monitor, verdicts: Seq<Verdict>) -> Seq<CycleEntry> {
    Seq::new(
        verdicts.len(),
        |i: int|
            CycleEntry {
                endpoint: m.config.urls@[i],
                verdict: verdicts[i],
                changed: spec_changed(m.ledger@[i], verdicts[i]),
            },
    )
}

impl Monitor {
    /// The ledger always has one slot per configured endpoint.
    pub open spec fn wf(self) -> bool {
        &&& self.config.wf()
        &&& self.ledger@.len() == self.config.urls@.len()
    }

    /// Build a monitor over a loaded configuration. The ledger starts
    /// with no entry for any endpoint: every first probe will count as a
    /// change.
    pub fn new(config: Config) -> (m: Monitor)
        requires
            config.wf(),
        ensures
            m.wf(),
            m.config == config,
            forall|i: int| 0 <= i < m.ledger@.len() ==> m.ledger@[i] is None,
    {
        let n = config.urls.len();
        let mut ledger: Vec<Option<Verdict>> = Vec::new();
        let mut i: usize = 0;
        while i < n
            invariant
                i <= n,
                ledger@.len() == i,
                forall|j: int| 0 <= j < i ==> ledger@[j] is None,
            decreases n - i,
        {
            ledger.push(Option::None);
            i += 1;
        }
        Monitor { config, ledger }
    }

    /// Record endpoint `i`'s fresh verdict and report whether it counts
    /// as a change: true on the first observation and whenever the
    /// verdict differs from the previous entry. The ledger entry is
    /// written either way.
    pub fn evaluate(&mut self, i: usize, verdict: Verdict) -> (changed: bool)
        requires
            old(self).wf(),
            i < old(self).ledger@.len(),
        ensures
            final(self).wf(),
            final(self).config == old(self).config,
            final(self).ledger@ == old(self).ledger@.update(i as int, Some(verdict)),
            changed == spec_changed(old(self).ledger@[i as int], verdict),
    {
        let changed = match self.ledger[i] {
            Option::Some(prev) => prev != verdict,
            Option::None => true,
        };
        self.ledger.set(i, Option::Some(verdict));
        changed
    }

    /// The bookkeeping of one full cycle: record every endpoint's fresh
    /// verdict in the ledger and collect one entry per endpoint, in
    /// configuration order, each with its change flag.
    #[verifier::loop_isolation(false)]
    pub fn record_cycle(&mut self, verdicts: &Vec<Verdict>) -> (entries: Vec<CycleEntry>)
        requires
            old(self).wf(),
            verdicts@.len() == old(self).config.urls@.len(),
        ensures
            final(self).wf(),
            final(self).config == old(self).config,
            final(self).ledger@.len() == old(self).ledger@.len(),
            forall|i: int|
                0 <= i < final(self).ledger@.len() ==> final(self).ledger@[i] == Some(
                    verdicts@[i],
                ),
            entries@ == spec_entries(*old(self), verdicts@),
    {
        let ghost m0 = *self;
        let n = self.config.urls.len();
        let mut entries: Vec<CycleEntry> = Vec::new();
        let mut i: usize = 0;
        while i < n
            invariant
                i <= n,
                n == self.config.urls@.len(),
                self.wf(),
                self.config == m0.config,
                self.ledger@.len() == m0.ledger@.len(),
                forall|j: int| 0 <= j < i ==> self.ledger@[j] == Some(verdicts@[j]),
                forall|j: int| i <= j < n ==> self.ledger@[j] == m0.ledger@[j],
                entries@.len() == i,
                forall|j: int| 0 <= j < i ==> entries@[j] == spec_entries(m0, verdicts@)[j],
            decreases n - i,
        {
            let url = self.config.urls[i].clone();
            let v = verdicts[i];
            let changed = self.evaluate(i, v);
            entries.push(CycleEntry { endpoint: url, verdict: v, changed });
            i += 1;
        }
        proof {
            assert(entries@ =~= spec_entries(m0, verdicts@));
        }
        entries
    }

    /// The startup phase's bookkeeping: record every endpoint's first
    /// verdict and build the aggregate "monitor started" report, which
    /// the caller sends regardless of its content.
    pub fn startup_report(&mut self, verdicts: &Vec<Verdict>) -> (message: String)
        requires
            old(self).wf(),
            verdicts@.len() == old(self).config.urls@.len(),
        ensures
            final(self).wf(),
            final(self).config == old(self).config,
            forall|i: int|
                0 <= i < final(self).ledger@.len() ==> final(self).ledger@[i] == Some(
                    verdicts@[i],
                ),
            message@ == spec_startup_message(spec_entries(*old(self), verdicts@)),
    {
        let entries = self.record_cycle(verdicts);
        startup_message(&entries)
    }

    /// One steady-state cycle's bookkeeping: record every endpoint's
    /// fresh verdict and build the aggregate "status changes" report over
    /// the endpoints whose verdict changed; nothing when none did.
    pub fn cycle_report(&mut self, verdicts: &Vec<Verdict>) -> (r: Option<String>)
        requires
            old(self).wf(),
            verdicts@.len() == old(self).config.urls@.len(),
        ensures
            final(self).wf(),
            final(self).config == old(self).config,
            forall|i: int|
                0 <= i < final(self).ledger@.len() ==> final(self).ledger@[i] == Some(
                    verdicts@[i],
                ),
            match spec_changes_message(spec_entries(*old(self), verdicts@)) {
                Option::Some(s) => r is Some && r->0@ == s,
                Option::None => r is None,
            },
            r is None <==> (forall|i: int|
                0 <= i < verdicts@.len() ==> old(self).ledger@[i] == Some(#[trigger] verdicts@[i])),
    {
        let entries = self.record_cycle(verdicts);
        let r = changes_message(&entries);
        proof {
            let es = spec_entries(*old(self), verdicts@);
            if forall|i: int| 0 <= i < es.len() ==> !(#[trigger] es[i]).changed {
                assert forall|i: int|
                    0 <= i < verdicts@.len() implies old(self).ledger@[i] == Some(
                    #[trigger] verdicts@[i],
                ) by {
                    assert(!es[i].changed);
                }
            }
            if forall|i: int|
                0 <= i < verdicts@.len() ==> old(self).ledger@[i] == Some(
                    #[trigger] verdicts@[i],
                ) {
                assert forall|i: int| 0 <= i < es.len() implies !(#[trigger] es[i]).changed by {
                    assert(old(self).ledger@[i] == Some(verdicts@[i]));
                }
            }
        }
        r
    }
}

/// An endpoint with no recorded history counts as changed no matter
/// which verdict the probe brought back.
pub proof fn lemma_first_observation_changed(v: Verdict)
    ensures
        spec_changed(None, v),
{
}

/// Once a cycle has recorded a verdict, a following cycle that produces
/// the same verdict for that endpoint is classified as no change; it is a
/// change exactly when the verdict flipped.
pub proof fn lemma_second_cycle_change(prev: Verdict, next: Verdict)
    ensures
        spec_changed(Some(prev), next) <==> prev != next,
{
}

/// On a monitor whose ledger holds no entry yet, as after construction,
/// every endpoint of the first cycle is classified as changed, whatever
/// its verdict.
pub proof fn lemma_first_cycle_all_changed(m: Monitor, verdicts: Seq<Verdict>)
    requires
        verdicts.len() == m.ledger@.len(),
        forall|i: int| 0 <= i < m.ledger@.len() ==> m.ledger@[i] is None,
    ensures
        forall|i: int|
            0 <= i < verdicts.len() ==> (#[trigger] spec_entries(m, verdicts)[i]).changed,
{
}

/// On a monitor whose ledger reflects one completed cycle, as
/// `record_cycle` leaves it, the next cycle classifies an endpoint as
/// changed exactly when its verdict differs from the previous cycle's;
/// in particular, two consecutive cycles with the same verdict leave the
/// change flag false.
pub proof fn lemma_consecutive_cycles(m: Monitor, first: Seq<Verdict>, second: Seq<Verdict>)
    requires
        first.len() == m.ledger@.len(),
        second.len() == first.len(),
        forall|i: int| 0 <= i < m.ledger@.len() ==> m.ledger@[i] == Some(first[i]),
    ensures
        forall|i: int|
            0 <= i < second.len() ==> ((#[trigger] spec_entries(m, second)[i]).changed <==> first[i]
                != second[i]),
{
}

} // verus!
