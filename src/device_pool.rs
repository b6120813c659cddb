use vstd::prelude::*;

use crate::config::Config;
use crate::device_id::DeviceID;
use crate::device_info::{DeviceDB, DeviceInfo};
use crate::device_state::{fresh_view, new_device_state, DeviceStateInner};

verus! {

/// One matched device of a scan: its position in the list of attached
/// devices and the index of its descriptor in the database.
#[derive(Clone, Copy, Debug, PartialEq, Eq, Structural)]
pub struct ScanEntry {
    pub device: usize,
    pub descriptor: usize,
}

/// Registry of the running pool: the claimed devices, in the order they
/// were claimed, beside the configuration and the descriptor database.
#[derive(Debug)]
pub struct GlobalState {
    pub devices: Vec<ScanEntry>,
    pub config: Config,
    pub device_db: DeviceDB,
}

/// A registry with no device claimed yet.
pub fn new_global_state(config: Config, device_db: DeviceDB) -> (r: GlobalState)
    ensures
        r.devices@.len() == 0,
        r.config == config,
        r.device_db@ == device_db@,
{
    GlobalState { devices: Vec::new(), config, device_db }
}

/// Index of the first descriptor at or after `from` whose identity is `id`.
pub open spec fn first_match_from(db: Seq<DeviceInfo>, id: DeviceID, from: int) -> Option<int>
    decreases db.len() - from,
{
    if from >= db.len() || from < 0 {
        None
    } else if db[from].id == id {
        Some(from)
    } else {
        first_match_from(db, id, from + 1)
    }
}

/// Index of the first descriptor whose identity is `id`.
pub open spec fn first_match(db: Seq<DeviceInfo>, id: DeviceID) -> Option<int> {
    first_match_from(db, id, 0)
}

proof fn lemma_first_match_from(db: Seq<DeviceInfo>, id: DeviceID, from: int)
    requires
        0 <= from,
    ensures
        match first_match_from(db, id, from) {
            Some(k) => from <= k < db.len() && db[k].id == id && forall|j: int|
                from <= j < k ==> db[j].id != id,
            None => forall|j: int| from <= j < db.len() ==> db[j].id != id,
        },
    decreases db.len() - from,
{
    if from < db.len() && db[from].id != id {
        lemma_first_match_from(db, id, from + 1);
    }
}

/// Finds the descriptor for an identity; the first match in database order
/// wins.
pub fn find_descriptor(db: &DeviceDB, id: DeviceID) -> (r: Option<usize>)
    ensures
        r matches Some(k) ==> first_match(db@, id) == Some(k as int),
        r is None ==> first_match(db@, id) is None,
        match r {
            Some(k) => k < db@.len() && db@[k as int].id == id && forall|j: int|
                0 <= j < k ==> db@[j].id != id,
            None => forall|j: int| 0 <= j < db@.len() ==> db@[j].id != id,
        },
{
    proof {
        lemma_first_match_from(db@, id, 0);
    }
    let mut i: usize = 0;
    while i < db.len()
        invariant
            i <= db@.len(),
            first_match(db@, id) == first_match_from(db@, id, i as int),
        decreases db.len() - i,
    {
        if db[i].id == id {
            assert(first_match_from(db@, id, i as int) == Some(i as int));
            proof {
                lemma_first_match_from(db@, id, 0);
            }
            return Some(i);
        }
        i = i + 1;
    }
    None
}

/// The devices a scan opens, in the order of the attached list: each
/// attached device whose identity could be read and has a descriptor, paired
/// with its first matching descriptor.
pub open spec fn spec_plan(db: Seq<DeviceInfo>, attached: Seq<Option<DeviceID>>) -> Seq<ScanEntry>
    decreases attached.len(),
{
    if attached.len() == 0 {
        Seq::empty()
    } else {
        let prev = spec_plan(db, attached.drop_last());
        match attached.last() {
            Some(id) => match first_match(db, id) {
                Some(k) => prev.push(
                    ScanEntry { device: (attached.len() - 1) as usize, descriptor: k as usize },
                ),
                None => prev,
            },
            None => prev,
        }
    }
}

/// Every entry of a plan names an attached device and a descriptor of the
/// database.
pub open spec fn plan_in_bounds(plan: Seq<ScanEntry>, n_attached: int, n_db: int) -> bool {
    forall|i: int|
        0 <= i < plan.len() ==> (#[trigger] plan[i]).device < n_attached && plan[i].descriptor
            < n_db
}

proof fn lemma_plan_in_bounds(db: Seq<DeviceInfo>, attached: Seq<Option<DeviceID>>)
    ensures
        plan_in_bounds(spec_plan(db, attached), attached.len() as int, db.len() as int),
    decreases attached.len(),
{
    if attached.len() > 0 {
        lemma_plan_in_bounds(db, attached.drop_last());
        if let Some(id) = attached.last() {
            lemma_first_match_from(db, id, 0);
        }
    }
}

/// Matches the attached devices against the database. `attached[i]` is the
/// identity of the i-th attached device, or `None` where it could not be
/// read; such devices and those without a descriptor are passed over.
pub fn plan_scan(db: &DeviceDB, attached: &Vec<Option<DeviceID>>) -> (r: Vec<ScanEntry>)
    ensures
        r@ == spec_plan(db@, attached@),
        plan_in_bounds(r@, attached@.len() as int, db@.len() as int),
{
    let mut plan: Vec<ScanEntry> = Vec::new();
    let mut i: usize = 0;
    while i < attached.len()
        invariant
            i <= attached@.len(),
            plan@ == spec_plan(db@, attached@.subrange(0, i as int)),
        decreases attached.len() - i,
    {
        let ghost prefix = attached@.subrange(0, i as int + 1);
        assert(prefix.drop_last() =~= attached@.subrange(0, i as int));
        assert(prefix.last() == attached@[i as int]);
        if let Some(id) = attached[i] {
            if let Some(k) = find_descriptor(db, id) {
                plan.push(ScanEntry { device: i, descriptor: k });
            }
        }
        i = i + 1;
    }
    assert(attached@.subrange(0, attached@.len() as int) =~= attached@);
    proof {
        lemma_plan_in_bounds(db@, attached@);
    }
    plan
}

/// The entries of a plan whose device opened, in plan order.
pub open spec fn spec_claimed(plan: Seq<ScanEntry>, opened: Seq<bool>) -> Seq<ScanEntry>
    decreases plan.len(),
{
    if plan.len() == 0 {
        Seq::empty()
    } else {
        let prev = spec_claimed(plan.drop_last(), opened.subrange(0, plan.len() - 1));
        if opened[plan.len() - 1] {
            prev.push(plan.last())
        } else {
            prev
        }
    }
}

impl GlobalState {
    /// Records the outcome of opening each planned device. `opened[i]` says
    /// whether the device of `plan[i]` could be opened; those that could are
    /// appended to the registry, in order, and each gets a fresh state for
    /// its reader. A failed open skips that device only.
    pub fn claim_opened(&mut self, plan: &Vec<ScanEntry>, opened: &Vec<bool>) -> (r: Vec<
        DeviceStateInner,
    >)
        requires
            plan@.len() == opened@.len(),
            forall|i: int|
                0 <= i < plan@.len() ==> (#[trigger] plan@[i]).descriptor < old(
                    self,
                ).device_db@.len(),
        ensures
            final(self).config == old(self).config,
            final(self).device_db@ == old(self).device_db@,
            final(self).devices@ == old(self).devices@ + spec_claimed(plan@, opened@),
            r@.len() == spec_claimed(plan@, opened@).len(),
            forall|i: int|
                0 <= i < r@.len() ==> (#[trigger] r@[i]).wf() && r@[i]@ == fresh_view(
                    old(self).device_db@[spec_claimed(plan@, opened@)[i].descriptor as int],
                ),
    {
        let mut states: Vec<DeviceStateInner> = Vec::new();
        let mut k: usize = 0;
        while k < plan.len()
            invariant
                k <= plan@.len(),
                plan@.len() == opened@.len(),
                forall|i: int|
                    0 <= i < plan@.len() ==> (#[trigger] plan@[i]).descriptor
                        < self.device_db@.len(),
                self.config == old(self).config,
                self.device_db@ == old(self).device_db@,
                self.devices@ == old(self).devices@ + spec_claimed(
                    plan@.subrange(0, k as int),
                    opened@.subrange(0, k as int),
                ),
                states@.len() == spec_claimed(
                    plan@.subrange(0, k as int),
                    opened@.subrange(0, k as int),
                ).len(),
                forall|i: int|
                    0 <= i < states@.len() ==> (#[trigger] states@[i]).wf() && states@[i]@
                        == fresh_view(
                        self.device_db@[spec_claimed(
                            plan@.subrange(0, k as int),
                            opened@.subrange(0, k as int),
                        )[i].descriptor as int],
                    ),
            decreases plan.len() - k,
        {
            let ghost plan_next = plan@.subrange(0, k as int + 1);
            let ghost opened_next = opened@.subrange(0, k as int + 1);
            let ghost before = spec_claimed(plan@.subrange(0, k as int), opened@.subrange(0, k as int));
            assert(plan_next.drop_last() =~= plan@.subrange(0, k as int));
            assert(opened_next.subrange(0, k as int) =~= opened@.subrange(0, k as int));
            assert(plan_next.last() == plan@[k as int]);
            assert(opened_next[k as int] == opened@[k as int]);
            if opened[k] {
                let entry = plan[k];
                let state = new_device_state(&self.device_db[entry.descriptor]);
                self.devices.push(entry);
                states.push(state);
                assert(self.devices@ =~= old(self).devices@ + spec_claimed(plan_next, opened_next));
            } else {
                assert(spec_claimed(plan_next, opened_next) == before);
            }
            k = k + 1;
        }
        assert(plan@.subrange(0, plan@.len() as int) =~= plan@);
        assert(opened@.subrange(0, opened@.len() as int) =~= opened@);
        states
    }
}

/// A failed open is isolated: the devices claimed are those that would be
/// claimed were the failed device not in the plan at all, so a later matched
/// device that opens is still claimed.
pub proof fn lemma_failed_open_isolated(plan: Seq<ScanEntry>, opened: Seq<bool>, i: int, j: int)
    requires
        plan.len() == opened.len(),
        0 <= i < j < plan.len(),
        !opened[i],
        opened[j],
    ensures
        spec_claimed(plan, opened) == spec_claimed(plan.remove(i), opened.remove(i)),
        spec_claimed(plan, opened).contains(plan[j]),
{
    lemma_skip_failed(plan, opened, i);
    lemma_claimed_contains(plan, opened, j);
}

proof fn lemma_skip_failed(plan: Seq<ScanEntry>, opened: Seq<bool>, i: int)
    requires
        plan.len() == opened.len(),
        0 <= i < plan.len(),
        !opened[i],
    ensures
        spec_claimed(plan, opened) == spec_claimed(plan.remove(i), opened.remove(i)),
    decreases plan.len(),
{
    let n = plan.len();
    let o_init = opened.subrange(0, n - 1);
    if i == n - 1 {
        assert(plan.remove(i) =~= plan.drop_last());
        assert(opened.remove(i) =~= o_init);
        let m = plan.remove(i).len() as int;
        assert(opened.remove(i).subrange(0, m) =~= o_init);
        if m > 0 {
            assert(plan.remove(i).drop_last() =~= plan.drop_last().drop_last());
        }
        lemma_claimed_trim(plan.drop_last(), o_init);
    } else {
        lemma_skip_failed(plan.drop_last(), o_init, i);
        let pr = plan.remove(i);
        let or = opened.remove(i);
        assert(pr.drop_last() =~= plan.drop_last().remove(i));
        assert(or.subrange(0, pr.len() - 1) =~= o_init.remove(i));
        assert(pr.last() == plan.last());
        assert(or[pr.len() - 1] == opened[n - 1]);
    }
}

/// Only the first `plan.len()` outcomes matter.
proof fn lemma_claimed_trim(plan: Seq<ScanEntry>, opened: Seq<bool>)
    requires
        plan.len() <= opened.len(),
    ensures
        spec_claimed(plan, opened) == spec_claimed(plan, opened.subrange(0, plan.len() as int)),
{
    let n = plan.len();
    if n > 0 {
        assert(opened.subrange(0, n as int).subrange(0, n - 1) =~= opened.subrange(0, n - 1));
    }
}

proof fn lemma_claimed_contains(plan: Seq<ScanEntry>, opened: Seq<bool>, j: int)
    requires
        plan.len() == opened.len(),
        0 <= j < plan.len(),
        opened[j],
    ensures
        spec_claimed(plan, opened).contains(plan[j]),
    decreases plan.len(),
{
    let n = plan.len();
    let prev = spec_claimed(plan.drop_last(), opened.subrange(0, n - 1));
    if j == n - 1 {
        assert(spec_claimed(plan, opened).last() == plan[j]);
        assert(spec_claimed(plan, opened)[spec_claimed(plan, opened).len() - 1] == plan[j]);
    } else {
        lemma_claimed_contains(plan.drop_last(), opened.subrange(0, n - 1), j);
        let w = choose|w: int| 0 <= w < prev.len() && prev[w] == plan[j];
        if opened[n - 1] {
            assert(spec_claimed(plan, opened)[w] == plan[j]);
        }
    }
}

} // verus!
