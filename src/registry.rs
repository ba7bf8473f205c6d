use vstd::prelude::*;

use crate::processes::{Ecosystem, ProcessState, ProcessStatus};
use vstd::utf8::encode_utf8;

verus! {

/// One supervised program: its identity, configuration, working directory
/// and the runtime state it was registered with.
#[derive(Debug)]
pub struct Process {
    pub id: u32,
    pub ecosystem: Ecosystem,
    pub path: String,
    pub state: ProcessState,
}

impl Process {
    pub fn new(id: u32, ecosystem: Ecosystem, path: String, state: ProcessState) -> (r: Process)
        ensures
            r == (Process { id, ecosystem, path, state }),
    {
        Process { id, ecosystem, path, state }
    }

    /// A process created by a start request: `Initialized`, nothing tracked.
    pub fn init(id: u32, ecosystem: Ecosystem, path: String) -> (r: Process)
        ensures
            r.id == id,
            r.ecosystem == ecosystem,
            r.path == path,
            r.state == (ProcessState {
                status: ProcessStatus::Initialized,
                ram_usage: 0,
                uid: None,
                should_stop: false,
            }),
    {
        Process::new(id, ecosystem, path, ProcessState::default())
    }
}

/// Whether `b` is an ASCII decimal digit.
pub open spec fn is_digit(b: u8) -> bool {
    48 <= b <= 57
}

/// The value of a string of decimal digits.
pub open spec fn digits_value(b: Seq<u8>) -> nat
    decreases b.len(),
{
    if b.len() == 0 {
        0
    } else {
        digits_value(b.drop_last()) * 10 + (b.last() - 48) as nat
    }
}

/// The digits of an identifier, after an optional leading `+`.
pub open spec fn id_digits(b: Seq<u8>) -> Seq<u8> {
    if b.len() > 0 && b[0] == 43 {
        b.drop_first()
    } else {
        b
    }
}

/// The identifier that the text `b` names, if it names one: decimal digits
/// after an optional `+`, of a value that fits in 32 bits.
pub open spec fn spec_parse_id(b: Seq<u8>) -> Option<u32> {
    let d = id_digits(b);
    if d.len() > 0 && (forall|i: int| 0 <= i < d.len() ==> is_digit(#[trigger] d[i]))
        && digits_value(d) <= u32::MAX {
        Some(digits_value(d) as u32)
    } else {
        None
    }
}

proof fn lemma_prefix_value_le(b: Seq<u8>, k: int)
    requires
        0 <= k <= b.len(),
        forall|i: int| 0 <= i < b.len() ==> is_digit(#[trigger] b[i]),
    ensures
        digits_value(b.subrange(0, k)) <= digits_value(b),
    decreases b.len(),
{
    if k < b.len() {
        let d = b.drop_last();
        assert(d.subrange(0, k) =~= b.subrange(0, k));
        lemma_prefix_value_le(d, k);
    } else {
        assert(b.subrange(0, k) =~= b);
    }
}

/// Reads an identifier from the bytes of a request argument.
pub fn parse_id(b: &[u8]) -> (r: Option<u32>)
    ensures
        r == spec_parse_id(b@),
{
    let start: usize = if b.len() > 0 && b[0] == 43 {
        1
    } else {
        0
    };
    let ghost d = id_digits(b@);
    assert(d =~= b@.subrange(start as int, b@.len() as int));
    if start >= b.len() {
        return None;
    }
    let mut v: u32 = 0;
    let mut i: usize = start;
    while i < b.len()
        invariant
            start <= i <= b.len(),
            d == b@.subrange(start as int, b@.len() as int),
            d == id_digits(b@),
            forall|j: int| 0 <= j < i - start ==> is_digit(#[trigger] d[j]),
            v as nat == digits_value(d.subrange(0, i - start)),
        decreases b.len() - i,
    {
        let c = b[i];
        if c < 48 || c > 57 {
            assert(!is_digit(d[i - start]));
            assert(!(forall|j: int| 0 <= j < d.len() ==> is_digit(#[trigger] d[j])));
            assert(d == id_digits(b@));
            return None;
        }
        let digit: u32 = (c - 48) as u32;
        assert(d.subrange(0, i + 1 - start).drop_last() =~= d.subrange(0, i - start));
        if v > (u32::MAX - digit) / 10 {
            proof {
                let k = i + 1 - start;
                assert(digits_value(d.subrange(0, k)) > u32::MAX) by (nonlinear_arith)
                    requires
                        digits_value(d.subrange(0, k)) == v * 10 + digit,
                        v > (u32::MAX - digit) / 10,
                        digit <= 9,
                ;
                if forall|j: int| 0 <= j < d.len() ==> is_digit(#[trigger] d[j]) {
                    lemma_prefix_value_le(d, k);
                    assert(digits_value(d) > u32::MAX);
                }
                assert(d == id_digits(b@));
            }
            return None;
        }
        assert(v * 10 + digit <= u32::MAX) by (nonlinear_arith)
            requires
                v <= (u32::MAX - digit) / 10,
                digit <= 9,
        ;
        v = v * 10 + digit;
        i = i + 1;
    }
    assert(d.subrange(0, d.len() as int) =~= d);
    Some(v)
}


/// The registry: the table of known processes, in increasing order of
/// identifier, and the identifier counter.
#[derive(Debug)]
pub struct AppState {
    /// The next identifier to hand out.
    pub id: u32,
    pub processes: Vec<Process>,
}

/// The identifiers of a table of processes.
pub open spec fn ids_of(ps: Seq<Process>) -> Set<u32> {
    Set::new(|n: u32| exists|i: int| 0 <= i < ps.len() && #[trigger] ps[i].id == n)
}

/// Whether the `i`-th entry of `ps` is the last one titled `t`.
pub open spec fn last_titled(ps: Seq<Process>, i: int, t: Seq<char>) -> bool {
    &&& 0 <= i < ps.len()
    &&& ps[i].ecosystem.title@ == t
    &&& forall|j: int| i < j < ps.len() ==> #[trigger] ps[j].ecosystem.title@ != t
}

/// Whether the `i`-th entry of `ps` is the last one working in `d`.
pub open spec fn last_in_dir(ps: Seq<Process>, i: int, d: Seq<char>) -> bool {
    &&& 0 <= i < ps.len()
    &&& ps[i].path@ == d
    &&& forall|j: int| i < j < ps.len() ==> #[trigger] ps[j].path@ != d
}

impl AppState {
    /// Identifiers are strictly increasing along the table, and every one is
    /// below the counter: the counter was never handed out.
    pub open spec fn wf(&self) -> bool {
        &&& forall|i: int, j: int|
            0 <= i < j < self.processes@.len() ==> #[trigger] self.processes@[i].id
                < #[trigger] self.processes@[j].id
        &&& forall|i: int| 0 <= i < self.processes@.len() ==> #[trigger] self.processes@[i].id < self.id
    }

    pub open spec fn ids(&self) -> Set<u32> {
        ids_of(self.processes@)
    }

    pub fn new(id: u32, processes: Vec<Process>) -> (r: AppState)
        ensures
            r.id == id,
            r.processes@ == processes@,
    {
        AppState { id, processes }
    }

    /// An empty registry whose first identifier is 0.
    pub fn default() -> (r: AppState)
        ensures
            r.wf(),
            r.id == 0,
            r.processes@.len() == 0,
    {
        AppState::new(0, Vec::new())
    }

    fn index_of_id(&self, id: u32) -> (r: Option<usize>)
        requires
            self.wf(),
        ensures
            match r {
                Some(i) => i < self.processes@.len() && self.processes@[i as int].id == id,
                None => !self.ids().contains(id),
            },
    {
        let mut i: usize = 0;
        while i < self.processes.len()
            invariant
                i <= self.processes@.len(),
                forall|j: int| 0 <= j < i ==> #[trigger] self.processes@[j].id != id,
            decreases self.processes.len() - i,
        {
            if self.processes[i].id == id {
                return Some(i);
            }
            i = i + 1;
        }
        None
    }

    /// The process with identifier `id`.
    pub fn find_process_by_id(&self, id: u32) -> (r: Option<&Process>)
        requires
            self.wf(),
        ensures
            match r {
                Some(p) => p.id == id && self.processes@.contains(*p),
                None => !self.ids().contains(id),
            },
    {
        match self.index_of_id(id) {
            Some(i) => Some(&self.processes[i]),
            None => None,
        }
    }

    fn last_index_of_title(&self, title: &String) -> (r: Option<usize>)
        ensures
            match r {
                Some(i) => last_titled(self.processes@, i as int, title@),
                None => forall|j: int| 0 <= j < self.processes@.len()
                    ==> #[trigger] self.processes@[j].ecosystem.title@ != title@,
            },
    {
        let mut found: Option<usize> = None;
        let mut i: usize = 0;
        while i < self.processes.len()
            invariant
                i <= self.processes@.len(),
                match found {
                    Some(k) => k < i && self.processes@[k as int].ecosystem.title@ == title@
                        && forall|j: int| k < j < i ==> #[trigger] self.processes@[j].ecosystem.title@ != title@,
                    None => forall|j: int| 0 <= j < i ==> #[trigger] self.processes@[j].ecosystem.title@ != title@,
                },
            decreases self.processes.len() - i,
        {
            if self.processes[i].ecosystem.title == *title {
                found = Some(i);
            }
            i = i + 1;
        }
        found
    }

    /// The process titled `title`; where several are, the one registered last.
    pub fn find_process_by_title(&self, title: &String) -> (r: Option<&Process>)
        ensures
            match r {
                Some(p) => exists|i: int| #[trigger] last_titled(self.processes@, i, title@)
                    && self.processes@[i] == *p,
                None => forall|j: int| 0 <= j < self.processes@.len()
                    ==> #[trigger] self.processes@[j].ecosystem.title@ != title@,
            },
    {
        match self.last_index_of_title(title) {
            Some(i) => Some(&self.processes[i]),
            None => None,
        }
    }

    fn last_index_of_path(&self, path: &String) -> (r: Option<usize>)
        ensures
            match r {
                Some(i) => last_in_dir(self.processes@, i as int, path@),
                None => forall|j: int| 0 <= j < self.processes@.len()
                    ==> #[trigger] self.processes@[j].path@ != path@,
            },
    {
        let mut found: Option<usize> = None;
        let mut i: usize = 0;
        while i < self.processes.len()
            invariant
                i <= self.processes@.len(),
                match found {
                    Some(k) => k < i && self.processes@[k as int].path@ == path@
                        && forall|j: int| k < j < i ==> #[trigger] self.processes@[j].path@ != path@,
                    None => forall|j: int| 0 <= j < i ==> #[trigger] self.processes@[j].path@ != path@,
                },
            decreases self.processes.len() - i,
        {
            if self.processes[i].path == *path {
                found = Some(i);
            }
            i = i + 1;
        }
        found
    }

    /// The process whose working directory is exactly `path`.
    pub fn find_process_by_path(&self, path: &String) -> (r: Option<&Process>)
        ensures
            match r {
                Some(p) => exists|i: int| #[trigger] last_in_dir(self.processes@, i, path@)
                    && self.processes@[i] == *p,
                None => forall|j: int| 0 <= j < self.processes@.len()
                    ==> #[trigger] self.processes@[j].path@ != path@,
            },
    {
        match self.last_index_of_path(path) {
            Some(i) => Some(&self.processes[i]),
            None => None,
        }
    }

    /// Registers a process under a fresh identifier, which it returns:
    /// none is left once the counter has reached its maximum.
    pub fn register(&mut self, ecosystem: Ecosystem, path: String, state: ProcessState) -> (r:
        Option<u32>)
        requires
            old(self).wf(),
        ensures
            final(self).wf(),
            registry_step(*old(self), *final(self)),
            r.is_none() <==> old(self).id == u32::MAX,
            r.is_none() ==> final(self).id == old(self).id && final(self).processes@
                == old(self).processes@,
            r matches Some(n) ==> {
                &&& n == old(self).id
                &&& !old(self).ids().contains(n)
                &&& final(self).id == n + 1
                &&& final(self).processes@ == old(self).processes@.push(
                    Process { id: n, ecosystem, path, state },
                )
            },
    {
        proof {
            lemma_step_refl(*old(self));
        }
        if self.id == u32::MAX {
            return None;
        }
        let n = self.id;
        self.processes.push(Process::new(n, ecosystem, path, state));
        self.id = n + 1;
        assert forall|i: int| 0 <= i < self.processes@.len() implies old(self).ids().contains(
            #[trigger] self.processes@[i].id,
        ) || self.processes@[i].id >= old(self).id by {
            if i < old(self).processes@.len() {
                assert(self.processes@[i] == old(self).processes@[i]);
            }
        }
        Some(n)
    }

    /// Registers a process created by a start request under a fresh
    /// identifier; the caller then starts its lifecycle.
    pub fn start_new_process(&mut self, ecosystem: Ecosystem, path: String) -> (r: Option<u32>)
        requires
            old(self).wf(),
        ensures
            final(self).wf(),
            registry_step(*old(self), *final(self)),
            r.is_none() <==> old(self).id == u32::MAX,
            r.is_none() ==> final(self).id == old(self).id && final(self).processes@
                == old(self).processes@,
            r matches Some(n) ==> {
                &&& n == old(self).id
                &&& !old(self).ids().contains(n)
                &&& final(self).id == n + 1
                &&& final(self).processes@ == old(self).processes@.push(
                    Process { id: n, ecosystem, path, state: spec_initial_state() },
                )
            },
    {
        self.register(ecosystem, path, ProcessState::default())
    }

    /// Removes the process with identifier `id`; the counter stays as it is.
    /// Returns whether there was one.
    pub fn delete_process(&mut self, id: u32) -> (r: bool)
        requires
            old(self).wf(),
        ensures
            final(self).wf(),
            registry_step(*old(self), *final(self)),
            r == old(self).ids().contains(id),
            final(self).id == old(self).id,
            final(self).ids() == old(self).ids().remove(id),
            !r ==> final(self).processes@ == old(self).processes@,
            r ==> exists|i: int|
                0 <= i < old(self).processes@.len() && old(self).processes@[i].id == id
                    && final(self).processes@ == #[trigger] old(self).processes@.remove(i),
    {
        match self.index_of_id(id) {
            Some(i) => {
                let ghost before = self.processes@;
                self.processes.remove(i);
                assert(self.ids() =~= ids_of(before).remove(id)) by {
                    assert forall|n: u32| #[trigger] ids_of(before).remove(id).contains(n)
                        implies self.ids().contains(n) by {
                        let k = choose|k: int| 0 <= k < before.len() && #[trigger] before[k].id == n;
                        if k < i {
                            assert(self.processes@[k].id == n);
                        } else {
                            assert(self.processes@[k - 1].id == n);
                        }
                    }
                    assert forall|n: u32| #[trigger] self.ids().contains(n)
                        implies ids_of(before).remove(id).contains(n) by {
                        let k = choose|k: int| 0 <= k < self.processes@.len()
                            && #[trigger] self.processes@[k].id == n;
                        if k < i {
                            assert(before[k].id == n);
                        } else {
                            assert(before[k + 1].id == n);
                        }
                    }
                }
                assert forall|k: int| 0 <= k < self.processes@.len() implies old(self).ids().contains(
                    #[trigger] self.processes@[k].id,
                ) || self.processes@[k].id >= old(self).id by {
                    if k < i {
                        assert(self.processes@[k] == before[k]);
                    } else {
                        assert(self.processes@[k] == before[k + 1]);
                    }
                }
                true
            },
            None => {
                proof {
                    lemma_step_refl(*self);
                }
                false
            },
        }
    }

    /// Puts a fresh process with the same identifier and working directory
    /// and a new configuration in the place of the process `id`. Returns
    /// whether there was one.
    pub fn replace_process(&mut self, id: u32, ecosystem: Ecosystem) -> (r: bool)
        requires
            old(self).wf(),
        ensures
            final(self).wf(),
            registry_step(*old(self), *final(self)),
            final(self).ids() == old(self).ids(),
            r == old(self).ids().contains(id),
            final(self).id == old(self).id,
            !r ==> final(self).processes@ == old(self).processes@,
            r ==> exists|i: int|
                0 <= i < old(self).processes@.len() && old(self).processes@[i].id == id
                    && final(self).processes@ == #[trigger] old(self).processes@.update(
                    i,
                    Process {
                        id,
                        ecosystem,
                        path: old(self).processes@[i].path,
                        state: spec_initial_state(),
                    },
                ),
    {
        match self.index_of_id(id) {
            Some(i) => {
                let ghost before = self.processes@;
                let path = self.processes[i].path.clone();
                self.processes[i] = Process::init(id, ecosystem, path);
                assert forall|k: int| 0 <= k < self.processes@.len() implies #[trigger] self.processes@[k].id
                    == before[k].id by {}
                assert(self.ids() =~= ids_of(before)) by {
                    assert forall|n: u32| #[trigger] ids_of(before).contains(n) implies self.ids().contains(n) by {
                        let k = choose|k: int| 0 <= k < before.len() && #[trigger] before[k].id == n;
                        assert(self.processes@[k].id == n);
                    }
                }
                assert forall|k: int| 0 <= k < self.processes@.len() implies old(self).ids().contains(
                    #[trigger] self.processes@[k].id,
                ) || self.processes@[k].id >= old(self).id by {
                    assert(before[k].id == self.processes@[k].id);
                }
                true
            },
            None => {
                proof {
                    lemma_step_refl(*self);
                }
                false
            },
        }
    }

    /// The process that a request argument names: an identifier, else a
    /// title, else, where `by_path` holds, a working directory.
    pub fn find_target(&self, arg: &String, by_path: bool) -> (r: Option<&Process>)
        requires
            self.wf(),
        ensures
            match spec_parse_id(encode_utf8(arg@)) {
                Some(n) => match r {
                    Some(p) => p.id == n && self.processes@.contains(*p),
                    None => !self.ids().contains(n),
                },
                None => match r {
                    Some(p) => (exists|i: int| #[trigger] last_titled(self.processes@, i, arg@)
                        && self.processes@[i] == *p) || (by_path && (forall|j: int|
                        0 <= j < self.processes@.len()
                            ==> #[trigger] self.processes@[j].ecosystem.title@ != arg@)
                        && exists|i: int| #[trigger] last_in_dir(self.processes@, i, arg@)
                        && self.processes@[i] == *p),
                    None => (forall|j: int| 0 <= j < self.processes@.len()
                        ==> #[trigger] self.processes@[j].ecosystem.title@ != arg@) && (by_path
                        ==> forall|j: int| 0 <= j < self.processes@.len()
                        ==> #[trigger] self.processes@[j].path@ != arg@),
                },
            },
    {
        match parse_id(arg.as_str().as_bytes()) {
            Some(n) => self.find_process_by_id(n),
            None => {
                let by_title = self.find_process_by_title(arg);
                if by_title.is_none() && by_path {
                    self.find_process_by_path(arg)
                } else {
                    by_title
                }
            },
        }
    }

    /// The maximum-identifier marker of a snapshot: the larger of the counter
    /// and the highest identifier present.
    pub fn max_id(&self) -> (r: u32)
        ensures
            r >= self.id,
            forall|i: int| 0 <= i < self.processes@.len() ==> #[trigger] self.processes@[i].id <= r,
            r == self.id || exists|i: int|
                0 <= i < self.processes@.len() && #[trigger] self.processes@[i].id == r,
    {
        let mut m: u32 = self.id;
        let mut i: usize = 0;
        while i < self.processes.len()
            invariant
                i <= self.processes@.len(),
                m >= self.id,
                forall|j: int| 0 <= j < i ==> #[trigger] self.processes@[j].id <= m,
                m == self.id || exists|j: int| 0 <= j < i && #[trigger] self.processes@[j].id == m,
            decreases self.processes.len() - i,
        {
            if self.processes[i].id > m {
                m = self.processes[i].id;
            }
            i = i + 1;
        }
        m
    }
}

/// The runtime state of a freshly created process.
pub open spec fn spec_initial_state() -> ProcessState {
    ProcessState { status: ProcessStatus::Initialized, ram_usage: 0, uid: None, should_stop: false }
}

/// Identifiers are never reused within one run: once a process is deleted,
/// the identifier that the next registration hands out differs from its
/// identifier and from every identifier handed out before.
pub proof fn lemma_ids_never_reused(before: AppState, after_delete: AppState, deleted: u32, next: u32)
    requires
        before.wf(),
        before.ids().contains(deleted),
        after_delete.id == before.id,
        next == after_delete.id,
    ensures
        next != deleted,
        !before.ids().contains(next),
        deleted < next,
{
    let k = choose|k: int| 0 <= k < before.processes@.len() && #[trigger] before.processes@[k].id == deleted;
    assert(before.processes@[k].id < before.id);
}

/// One registry operation: the counter does not go back, and every entry
/// afterwards was there before or carries an identifier at or above the old
/// counter.
pub open spec fn registry_step(a: AppState, b: AppState) -> bool {
    &&& b.id >= a.id
    &&& forall|i: int|
        0 <= i < b.processes@.len() ==> a.ids().contains(#[trigger] b.processes@[i].id)
            || b.processes@[i].id >= a.id
}

pub proof fn lemma_step_refl(a: AppState)
    ensures
        registry_step(a, a),
{
    assert forall|i: int| 0 <= i < a.processes@.len() implies a.ids().contains(
        #[trigger] a.processes@[i].id,
    ) || a.processes@[i].id >= a.id by {}
}

/// Two operations in a row make one step.
pub proof fn lemma_step_trans(a: AppState, b: AppState, c: AppState)
    requires
        registry_step(a, b),
        registry_step(b, c),
    ensures
        registry_step(a, c),
{
    assert forall|i: int| 0 <= i < c.processes@.len() implies a.ids().contains(
        #[trigger] c.processes@[i].id,
    ) || c.processes@[i].id >= a.id by {
        let n = c.processes@[i].id;
        if b.ids().contains(n) {
            let k = choose|k: int| 0 <= k < b.processes@.len() && #[trigger] b.processes@[k].id == n;
            assert(a.ids().contains(b.processes@[k].id) || b.processes@[k].id >= a.id);
        }
    }
}

proof fn lemma_counter_monotone(run: Seq<AppState>, i: int, j: int)
    requires
        0 <= i <= j < run.len(),
        forall|t: int| 0 <= t < run.len() - 1 ==> registry_step(#[trigger] run[t], run[t + 1]),
    ensures
        run[i].id <= run[j].id,
    decreases j - i,
{
    if i < j {
        lemma_counter_monotone(run, i, j - 1);
        assert(registry_step(run[j - 1], run[j - 1 + 1]));
    }
}

/// Identifiers are never reused within one daemon run: along any run of
/// registry operations, an identifier that first appears at some point was
/// never held by any process at any earlier point, deleted ones included.
pub proof fn lemma_ids_never_reused_in_run(run: Seq<AppState>, i: int, j: int, k: int)
    requires
        forall|t: int| 0 <= t < run.len() ==> (#[trigger] run[t]).wf(),
        forall|t: int| 0 <= t < run.len() - 1 ==> registry_step(#[trigger] run[t], run[t + 1]),
        0 <= i < j < run.len(),
        0 <= k < run[j].processes@.len(),
        !run[j - 1].ids().contains(run[j].processes@[k].id),
    ensures
        !run[i].ids().contains(run[j].processes@[k].id),
{
    let n = run[j].processes@[k].id;
    assert(registry_step(run[j - 1], run[(j - 1) + 1]));
    assert(n >= run[j - 1].id);
    lemma_counter_monotone(run, i, j - 1);
    assert(run[i].wf());
    if run[i].ids().contains(n) {
        let m = choose|m: int| 0 <= m < run[i].processes@.len() && #[trigger] run[i].processes@[m].id == n;
        assert(run[i].processes@[m].id < run[i].id);
    }
}

} // verus!
