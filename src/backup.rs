use vstd::prelude::*;

use crate::processes::{Ecosystem, ProcessState, ProcessStatus, same_config};
use crate::registry::{AppState, Process, lemma_step_refl, lemma_step_trans, registry_step};

verus! {

/// What a snapshot keeps of one process.
#[derive(Debug)]
pub struct BackupProcess {
    pub id: u32,
    pub ecosystem: Ecosystem,
    pub path: String,
    pub should_stop: bool,
}

/// A snapshot of the registry.
#[derive(Debug)]
pub struct Backup {
    pub max_id: u32,
    pub process: Vec<BackupProcess>,
}

/// Where a record's working directory stands when the daemon boots.
#[derive(Clone, Copy, Debug, PartialEq, Eq, Structural)]
pub enum RecordPlace {
    /// The directory holds a configuration file.
    Present,
    /// The directory exists and holds no configuration file.
    ConfigMissing,
    /// The directory is gone.
    DirectoryMissing,
}

/// `rec` records the process `p` with desired-stop flag `flag`.
pub open spec fn records(rec: BackupProcess, p: Process, flag: bool) -> bool {
    &&& rec.id == p.id
    &&& rec.path == p.path
    &&& same_config(rec.ecosystem, p.ecosystem)
    &&& rec.should_stop == flag
}

/// `p` was restored from `rec` whose directory stood at `place`.
pub open spec fn restored(rec: BackupProcess, place: RecordPlace, p: Process) -> bool {
    &&& p.path == rec.path
    &&& same_config(p.ecosystem, rec.ecosystem)
    &&& p.state.ram_usage == 0
    &&& p.state.uid.is_none()
    &&& if place == RecordPlace::Present {
        p.state.status == ProcessStatus::Initialized && p.state.should_stop == rec.should_stop
    } else {
        p.state.status == ProcessStatus::NotFound && p.state.should_stop
    }
}

impl BackupProcess {
    pub fn new(id: u32, ecosystem: Ecosystem, path: String, should_stop: bool) -> (r: BackupProcess)
        ensures
            r == (BackupProcess { id, ecosystem, path, should_stop }),
    {
        BackupProcess { id, ecosystem, path, should_stop }
    }

    /// The record of `process`, whose desired-stop flag is now `should_stop`.
    pub fn from_process(process: &Process, should_stop: bool) -> (r: BackupProcess)
        ensures
            records(r, *process, should_stop),
    {
        BackupProcess::new(process.id, process.ecosystem.duplicate(), process.path.clone(), should_stop)
    }
}

impl Process {
    /// A process rebuilt from its record: `Initialized`, with the recorded
    /// desired-stop flag.
    pub fn from_backup(backup: BackupProcess) -> (r: Process)
        ensures
            r.id == backup.id,
            r.ecosystem == backup.ecosystem,
            r.path == backup.path,
            r.state == (ProcessState {
                status: ProcessStatus::Initialized,
                ram_usage: 0,
                uid: None,
                should_stop: backup.should_stop,
            }),
    {
        let mut state = ProcessState::default();
        state.should_stop = backup.should_stop;
        Process::new(backup.id, backup.ecosystem, backup.path, state)
    }
}

impl AppState {
    /// A snapshot of every known process; `should_stop` gives their current
    /// desired-stop flags, in the order of the table.
    pub fn snapshot(&self, should_stop: &Vec<bool>) -> (r: Backup)
        requires
            should_stop@.len() == self.processes@.len(),
        ensures
            r.max_id >= self.id,
            forall|i: int| 0 <= i < self.processes@.len() ==> #[trigger] self.processes@[i].id <= r.max_id,
            r.max_id == self.id || exists|i: int|
                0 <= i < self.processes@.len() && #[trigger] self.processes@[i].id == r.max_id,
            r.process@.len() == self.processes@.len(),
            forall|i: int|
                0 <= i < self.processes@.len() ==> records(
                    #[trigger] r.process@[i],
                    self.processes@[i],
                    should_stop@[i],
                ),
    {
        let mut out: Vec<BackupProcess> = Vec::new();
        let mut i: usize = 0;
        while i < self.processes.len()
            invariant
                i <= self.processes@.len(),
                should_stop@.len() == self.processes@.len(),
                out@.len() == i,
                forall|j: int|
                    0 <= j < i ==> records(#[trigger] out@[j], self.processes@[j], should_stop@[j]),
            decreases self.processes.len() - i,
        {
            out.push(BackupProcess::from_process(&self.processes[i], should_stop[i]));
            i = i + 1;
        }
        Backup { max_id: self.max_id(), process: out }
    }

    /// Registers the process of one record at daemon boot, under a freshly
    /// allocated identifier. A record whose directory is gone is kept as
    /// `NotFound` with its stop flag forced; one whose directory holds no
    /// configuration is skipped. Returns the new identifier and whether its
    /// lifecycle is to be started.
    pub fn restore_record(&mut self, rec: &BackupProcess, place: RecordPlace) -> (r: Option<
        (u32, bool),
    >)
        requires
            old(self).wf(),
        ensures
            final(self).wf(),
            registry_step(*old(self), *final(self)),
            final(self).id >= old(self).id,
            r.is_none() <==> (place == RecordPlace::ConfigMissing || old(self).id == u32::MAX),
            r.is_none() ==> final(self).processes@ == old(self).processes@ && final(self).id == old(
                self,
            ).id,
            r matches Some((n, run)) ==> {
                &&& n == old(self).id
                &&& final(self).id == n + 1
                &&& final(self).processes@.len() == old(self).processes@.len() + 1
                &&& final(self).processes@.drop_last() == old(self).processes@
                &&& final(self).processes@.last().id == n
                &&& restored(*rec, place, final(self).processes@.last())
                &&& run == (place == RecordPlace::Present && !rec.should_stop)
            },
    {
        proof {
            lemma_step_refl(*old(self));
        }
        if place == RecordPlace::ConfigMissing {
            return None;
        }
        let mut state = ProcessState::default();
        if place == RecordPlace::Present {
            state.should_stop = rec.should_stop;
        } else {
            state.status = ProcessStatus::NotFound;
            state.should_stop = true;
        }
        let run = place == RecordPlace::Present && !rec.should_stop;
        match self.register(rec.ecosystem.duplicate(), rec.path.clone(), state) {
            Some(n) => {
                assert(self.processes@.drop_last() =~= old(self).processes@);
                Some((n, run))
            },
            None => None,
        }
    }

    /// Restores every record of a snapshot at daemon boot, in order;
    /// `places` tells where each record's directory stands. Records whose
    /// directory holds no configuration are skipped; each other one gets the
    /// next identifier. Returns the identifiers of the processes whose
    /// lifecycle is to be started, in order.
    pub fn restore_all(&mut self, backup: &Backup, places: &Vec<RecordPlace>) -> (r: Vec<u32>)
        requires
            old(self).wf(),
            places@.len() == backup.process@.len(),
        ensures
            final(self).wf(),
            registry_step(*old(self), *final(self)),
            final(self).processes@.subrange(0, old(self).processes@.len() as int) == old(
                self,
            ).processes@,
            old(self).id + backup.process@.len() <= u32::MAX ==> {
                let n = backup.process@.len() as int;
                &&& final(self).processes@.len() == old(self).processes@.len() + kept_count(places@, n)
                &&& final(self).id == old(self).id + kept_count(places@, n)
                &&& forall|k: int|
                    0 <= k < n ==> #[trigger] restored_in_place(
                        final(self).processes@,
                        old(self).processes@.len(),
                        old(self).id as nat,
                        backup.process@,
                        places@,
                        k,
                    )
                &&& r@ == started_ids(backup.process@, places@, old(self).id as nat, n)
            },
    {
        let ghost base = self.processes@;
        let ghost fits = old(self).id + backup.process@.len() <= u32::MAX;
        let mut started: Vec<u32> = Vec::new();
        let mut i: usize = 0;
        proof {
            lemma_step_refl(*self);
            assert(self.processes@.subrange(0, base.len() as int) =~= base);
        }
        while i < backup.process.len()
            invariant
                self.wf(),
                registry_step(*old(self), *self),
                i <= backup.process@.len(),
                places@.len() == backup.process@.len(),
                self.processes@.len() >= base.len(),
                self.processes@.subrange(0, base.len() as int) == base,
                base == old(self).processes@,
                fits == (old(self).id + backup.process@.len() <= u32::MAX),
                kept_count(places@, i as int) <= i,
                fits ==> self.processes@.len() == base.len() + kept_count(places@, i as int),
                fits ==> self.id == old(self).id + kept_count(places@, i as int),
                fits ==> forall|k: int|
                    0 <= k < i ==> #[trigger] restored_in_place(
                        self.processes@,
                        base.len(),
                        old(self).id as nat,
                        backup.process@,
                        places@,
                        k,
                    ),
                fits ==> started@ == started_ids(backup.process@, places@, old(self).id as nat, i as int),
            decreases backup.process.len() - i,
        {
            let ghost before = *self;
            let res = self.restore_record(&backup.process[i], places[i]);
            proof {
                lemma_step_trans(*old(self), before, *self);
                assert(self.processes@.subrange(0, base.len() as int) =~= before.processes@.subrange(
                    0,
                    base.len() as int,
                ));
                let ii = i as int;
                assert(kept_count(places@, ii + 1) == kept_count(places@, ii) + if places@[ii]
                    == RecordPlace::ConfigMissing {
                    0nat
                } else {
                    1nat
                });
                if fits {
                    assert(before.id < u32::MAX);
                    assert(res.is_none() <==> places@[ii] == RecordPlace::ConfigMissing);
                    assert forall|k: int| 0 <= k < ii + 1 implies #[trigger] restored_in_place(
                        self.processes@,
                        base.len(),
                        old(self).id as nat,
                        backup.process@,
                        places@,
                        k,
                    ) by {
                        if places@[k] == RecordPlace::ConfigMissing {
                        } else if k < ii {
                            assert(restored_in_place(
                                before.processes@,
                                base.len(),
                                old(self).id as nat,
                                backup.process@,
                                places@,
                                k,
                            ));
                            lemma_kept_count_mono(places@, k + 1, ii);
                            assert(kept_count(places@, k + 1) == kept_count(places@, k) + 1);
                            let idx = (base.len() + kept_count(places@, k)) as int;
                            assert(idx < before.processes@.len());
                            assert(restored(backup.process@[k], places@[k], before.processes@[idx]));
                            if res.is_some() {
                                assert(self.processes@.drop_last() == before.processes@);
                                assert(self.processes@[idx] == self.processes@.drop_last()[idx]);
                            }
                        } else {
                            assert(k == ii);
                            assert(res.is_some());
                            let idx = (base.len() + kept_count(places@, k)) as int;
                            assert(idx == before.processes@.len());
                            assert(self.processes@.last() == self.processes@[idx]);
                            assert(restored(backup.process@[k], places@[k], self.processes@[idx]));
                        }
                    }
                    assert(self.processes@.len() == base.len() + kept_count(places@, ii + 1));
                    assert(self.id == old(self).id + kept_count(places@, ii + 1));
                    assert(started_ids(backup.process@, places@, old(self).id as nat, ii + 1)
                        == started_ids(backup.process@, places@, old(self).id as nat, ii) + if places@[ii]
                        == RecordPlace::Present && !backup.process@[ii].should_stop {
                        seq![(old(self).id as nat + kept_count(places@, ii)) as u32]
                    } else {
                        Seq::<u32>::empty()
                    });
                }
            }
            match res {
                Some((n, run)) => {
                    if run {
                        started.push(n);
                    }
                },
                None => {},
            }
            assert(fits ==> started@ =~= started_ids(
                backup.process@,
                places@,
                old(self).id as nat,
                i + 1,
            ));
            i = i + 1;
        }
        started
    }
}

/// The `k`-th record, unless skipped, was restored into the entry that
/// follows the `base_len` earlier ones by as many as were restored before
/// it, with the identifier `base_id` plus that count.
pub open spec fn restored_in_place(
    ps: Seq<Process>,
    base_len: nat,
    base_id: nat,
    recs: Seq<BackupProcess>,
    places: Seq<RecordPlace>,
    k: int,
) -> bool {
    places[k] != RecordPlace::ConfigMissing ==> {
        let idx = (base_len + kept_count(places, k)) as int;
        &&& idx < ps.len()
        &&& ps[idx].id == base_id + kept_count(places, k)
        &&& restored(recs[k], places[k], ps[idx])
    }
}

/// How many of the first `n` records are restored: all but those whose
/// directory holds no configuration.
pub open spec fn kept_count(places: Seq<RecordPlace>, n: int) -> nat
    decreases n,
{
    if n <= 0 {
        0
    } else {
        kept_count(places, n - 1) + if places[n - 1] == RecordPlace::ConfigMissing {
            0nat
        } else {
            1nat
        }
    }
}

proof fn lemma_kept_count_mono(places: Seq<RecordPlace>, a: int, b: int)
    requires
        0 <= a <= b,
    ensures
        kept_count(places, a) <= kept_count(places, b),
    decreases b - a,
{
    if a < b {
        lemma_kept_count_mono(places, a, b - 1);
    }
}

/// The identifiers, in order, of the processes restored from the first `n`
/// records whose lifecycle starts: those found in place without the stop
/// flag; identifiers are handed out from `base` on.
pub open spec fn started_ids(
    recs: Seq<BackupProcess>,
    places: Seq<RecordPlace>,
    base: nat,
    n: int,
) -> Seq<u32>
    decreases n,
{
    if n <= 0 {
        Seq::empty()
    } else {
        started_ids(recs, places, base, n - 1) + if places[n - 1] == RecordPlace::Present
            && !recs[n - 1].should_stop {
            seq![(base + kept_count(places, n - 1)) as u32]
        } else {
            Seq::empty()
        }
    }
}

/// `back` carries over the working directory, configuration and
/// desired-stop flag `flag` of `orig`, and starts `Initialized`.
pub open spec fn carried_over(back: Process, orig: Process, flag: bool) -> bool {
    &&& back.path == orig.path
    &&& same_config(back.ecosystem, orig.ecosystem)
    &&& back.state.should_stop == flag
    &&& back.state.status == ProcessStatus::Initialized
}

proof fn lemma_all_kept(places: Seq<RecordPlace>, n: int)
    requires
        0 <= n <= places.len(),
        forall|i: int| 0 <= i < places.len() ==> #[trigger] places[i] == RecordPlace::Present,
    ensures
        kept_count(places, n) == n,
    decreases n,
{
    if n > 0 {
        lemma_all_kept(places, n - 1);
    }
}

/// Backup round trip: restoring, with every directory in place, a snapshot
/// of a table appends one entry per process of the table, in order, that
/// matches it in working directory, configuration and desired-stop flag,
/// starts `Initialized`, and carries the next fresh identifier.
pub proof fn lemma_backup_round_trip(
    table: Seq<Process>,
    flags: Seq<bool>,
    snap: Seq<BackupProcess>,
    places: Seq<RecordPlace>,
    after: Seq<Process>,
    base_len: nat,
    base_id: nat,
)
    requires
        flags.len() == table.len(),
        snap.len() == table.len(),
        forall|i: int| 0 <= i < table.len() ==> records(#[trigger] snap[i], table[i], flags[i]),
        places.len() == snap.len(),
        forall|i: int| 0 <= i < places.len() ==> #[trigger] places[i] == RecordPlace::Present,
        after.len() == base_len + kept_count(places, snap.len() as int),
        forall|k: int|
            0 <= k < snap.len() ==> #[trigger] restored_in_place(after, base_len, base_id, snap, places, k),
    ensures
        after.len() == base_len + table.len(),
        forall|i: int|
            0 <= i < table.len() ==> #[trigger] carried_over(after[base_len + i], table[i], flags[i])
                && after[base_len + i].id == base_id + i,
{
    lemma_all_kept(places, snap.len() as int);
    assert forall|i: int| 0 <= i < table.len() implies #[trigger] carried_over(
        after[base_len + i],
        table[i],
        flags[i],
    ) && after[base_len + i].id == base_id + i by {
        lemma_all_kept(places, i);
        assert(restored_in_place(after, base_len, base_id, snap, places, i));
        assert(records(snap[i], table[i], flags[i]));
    }
}

} // verus!
