//! The registry of managed VMs: records, identifier resolution, and the
//! decisions of stopping and removing a VM.

use vstd::prelude::*;
use crate::text::{clone_opt, opt_str, same, starts_with};

verus! {

/// Life-cycle state of a VM.
#[derive(Debug, Clone, Copy, PartialEq, Eq, Structural)]
pub enum Status {
    /// The VM's process is believed to run.
    Running,
    /// The VM's process has ended.
    Stopped,
    /// Nothing is known of the VM's process.
    Unknown,
}

/// Persistent record of a VM.
#[derive(Debug, Clone, PartialEq, Eq)]
pub struct VmRecord {
    /// Short random hex string; the key.
    pub id: String,
    /// Name of the VM; unique when present.
    pub name: Option<String>,
    /// Process ID of the shim.
    pub pid: u32,
    /// Image reference that the VM was started from.
    pub image: Option<String>,
    /// Life-cycle state.
    pub status: Status,
    /// The VM's configuration as JSON.
    pub config_json: String,
    /// Whether the record is removed when the VM stops.
    pub auto_remove: bool,
    /// When the VM was created.
    pub created_at: String,
}

/// Mathematical value of a [`VmRecord`].
pub struct VmRecordView {
    pub id: Seq<char>,
    pub name: Option<Seq<char>>,
    pub pid: u32,
    pub image: Option<Seq<char>>,
    pub status: Status,
    pub config_json: Seq<char>,
    pub auto_remove: bool,
    pub created_at: Seq<char>,
}

impl View for VmRecord {
    type V = VmRecordView;

    open spec fn view(&self) -> VmRecordView {
        VmRecordView {
            id: self.id@,
            name: opt_str(self.name),
            pid: self.pid,
            image: opt_str(self.image),
            status: self.status,
            config_json: self.config_json@,
            auto_remove: self.auto_remove,
            created_at: self.created_at@,
        }
    }
}

/// The views of a list of records.
pub open spec fn records_of(v: Seq<VmRecord>) -> Seq<VmRecordView> {
    v.map_values(|r: VmRecord| r@)
}

/// Why the registry refused.
#[derive(Debug, Clone, Copy, PartialEq, Eq, Structural)]
pub enum RegistryError {
    /// No VM has this name or an ID that starts like this.
    NotFound,
    /// Several VMs have an ID that starts like this, and none has this name.
    Ambiguous,
    /// The VM is not stopped.
    NotStopped,
    /// Another VM has this ID.
    IdTaken,
    /// Another VM has this name.
    NameTaken,
}

/// The registry: one record per VM.
#[derive(Debug, Clone, PartialEq, Eq)]
pub struct Registry {
    /// The records, in the order in which they were added.
    pub records: Vec<VmRecord>,
}

impl View for Registry {
    type V = Seq<VmRecordView>;

    open spec fn view(&self) -> Seq<VmRecordView> {
        records_of(self.records@)
    }
}

/// Whether the record at `i` has this name.
pub open spec fn named(records: Seq<VmRecordView>, query: Seq<char>, i: int) -> bool {
    0 <= i < records.len() && records[i].name == Some(query)
}

/// Whether the ID of the record at `i` starts with the query.
pub open spec fn id_starts(records: Seq<VmRecordView>, query: Seq<char>, i: int) -> bool {
    0 <= i < records.len() && query.is_prefix_of(records[i].id)
}

/// Whether no record has this name.
pub open spec fn unnamed(records: Seq<VmRecordView>, query: Seq<char>) -> bool {
    forall|i: int| !named(records, query, i)
}

/// What an identifier resolves to: the position of the first record with
/// that name; else the position of the only record whose ID starts with it.
pub open spec fn resolves(records: Seq<VmRecordView>, query: Seq<char>, r: Result<
    int,
    RegistryError,
>) -> bool {
    match r {
        Ok(i) => {
            ||| named(records, query, i) && forall|k: int| 0 <= k < i ==> !named(records, query, k)
            ||| unnamed(records, query) && id_starts(records, query, i) && forall|k: int|
                id_starts(records, query, k) ==> k == i
        },
        Err(RegistryError::NotFound) => unnamed(records, query) && forall|k: int|
            !id_starts(records, query, k),
        Err(RegistryError::Ambiguous) => unnamed(records, query) && exists|i: int, k: int|
            i != k && id_starts(records, query, i) && id_starts(records, query, k),
        Err(_) => false,
    }
}

/// The registry's invariant: IDs are unique, and so are names.
pub open spec fn wf(records: Seq<VmRecordView>) -> bool {
    &&& forall|i: int, j: int|
        0 <= i < j < records.len() ==> (#[trigger] records[i]).id != (#[trigger] records[j]).id
    &&& forall|i: int, j: int|
        0 <= i < j < records.len() && (#[trigger] records[i]).name is Some ==> records[i].name
            != (#[trigger] records[j]).name
}

/// The records after the processes were probed: a record whose process is
/// not alive is stopped.
pub open spec fn probed(records: Seq<VmRecordView>, alive: Seq<bool>) -> Seq<VmRecordView> {
    Seq::new(
        records.len(),
        |i: int|
            if i < alive.len() && !alive[i] {
                VmRecordView { status: Status::Stopped, ..records[i] }
            } else {
                records[i]
            },
    )
}

impl Registry {
    /// A registry without records.
    pub fn new() -> (registry: Self)
        ensures
            registry@.len() == 0,
            wf(registry@),
    {
        Registry { records: Vec::new() }
    }

    /// Resolves an identifier to the position of a record.
    ///
    /// A VM with exactly this name wins. Otherwise the identifier is taken
    /// as the beginning of an ID: no such ID is `NotFound`, one is the VM,
    /// several are `Ambiguous`.
    pub fn resolve(&self, query: &str) -> (r: Result<usize, RegistryError>)
        ensures
            resolves(
                self@,
                query@,
                match r {
                    Ok(i) => Ok(i as int),
                    Err(e) => Err(e),
                },
            ),
    {
        let mut i: usize = 0;
        while i < self.records.len()
            invariant
                i <= self.records.len(),
                forall|k: int| 0 <= k < i ==> !named(self@, query@, k),
            decreases self.records.len() - i,
        {
            assert(self@[i as int] == self.records@[i as int]@);
            if let Some(name) = &self.records[i].name {
                if same(name.as_str(), query) {
                    return Ok(i);
                }
            }
            i += 1;
        }
        let mut found: Option<usize> = None;
        let mut j: usize = 0;
        while j < self.records.len()
            invariant
                j <= self.records.len(),
                unnamed(self@, query@),
                match found {
                    Some(at) => at < j && id_starts(self@, query@, at as int) && forall|k: int|
                        0 <= k < j && id_starts(self@, query@, k) ==> k == at,
                    None => forall|k: int| 0 <= k < j ==> !id_starts(self@, query@, k),
                },
            decreases self.records.len() - j,
        {
            assert(self@[j as int] == self.records@[j as int]@);
            if starts_with(self.records[j].id.as_str(), query) {
                match found {
                    Some(at) => {
                        assert(id_starts(self@, query@, at as int) && id_starts(
                            self@,
                            query@,
                            j as int,
                        ));
                        return Err(RegistryError::Ambiguous);
                    },
                    None => {
                        found = Some(j);
                    },
                }
            }
            j += 1;
        }
        match found {
            Some(at) => Ok(at),
            None => Err(RegistryError::NotFound),
        }
    }

    /// Adds the record of a VM that was spawned. Fails, changing nothing,
    /// when its ID or its name is taken.
    #[verifier::loop_isolation(false)]
    pub fn insert(&mut self, record: VmRecord) -> (r: Result<(), RegistryError>)
        ensures
            wf(old(self)@) ==> wf(final(self)@),
            match r {
                Ok(_) => final(self)@ == old(self)@.push(record@),
                Err(RegistryError::IdTaken) => final(self)@ == old(self)@ && exists|i: int|
                    0 <= i < old(self)@.len() && (#[trigger] old(self)@[i]).id == record@.id,
                Err(RegistryError::NameTaken) => {
                    &&& final(self)@ == old(self)@
                    &&& record@.name is Some
                    &&& forall|i: int|
                        0 <= i < old(self)@.len() ==> (#[trigger] old(self)@[i]).id != record@.id
                    &&& exists|i: int| named(old(self)@, record@.name.unwrap(), i)
                },
                Err(_) => false,
            },
    {
        let mut i: usize = 0;
        while i < self.records.len()
            invariant
                i <= self.records.len(),
                forall|k: int| 0 <= k < i ==> (#[trigger] self@[k]).id != record@.id,
            decreases self.records.len() - i,
        {
            assert(self@[i as int] == self.records@[i as int]@);
            if same(self.records[i].id.as_str(), record.id.as_str()) {
                return Err(RegistryError::IdTaken);
            }
            i += 1;
        }
        if let Some(name) = &record.name {
            let mut j: usize = 0;
            while j < self.records.len()
                invariant
                    j <= self.records.len(),
                    record@.name == Some(name@),
                    forall|k: int| 0 <= k < j ==> !named(self@, name@, k),
                decreases self.records.len() - j,
            {
                assert(self@[j as int] == self.records@[j as int]@);
                if let Some(other) = &self.records[j].name {
                    if same(other.as_str(), name.as_str()) {
                        assert(record@.name == Some(name@));
                        assert(named(self@, record@.name.unwrap(), j as int));
                        assert(forall|k: int|
                            0 <= k < self@.len() ==> (#[trigger] self@[k]).id != record@.id);
                        return Err(RegistryError::NameTaken);
                    }
                }
                j += 1;
            }
            assert(forall|k: int| 0 <= k < self@.len() ==> !named(self@, name@, k));
        }
        proof {
            let after = self@.push(record@);
            assert(records_of(self.records@.push(record)) =~= after);
            if wf(self@) {
                assert forall|a: int, b: int| 0 <= a < b < after.len() implies (
                #[trigger] after[a]).id != (#[trigger] after[b]).id by {
                    if b < self@.len() {
                        assert(after[a] == self@[a] && after[b] == self@[b]);
                    } else {
                        assert(after[a] == self@[a]);
                    }
                }
                assert forall|a: int, b: int|
                    0 <= a < b < after.len() && (#[trigger] after[a]).name is Some implies after[a]
                        .name != (#[trigger] after[b]).name by {
                    if b < self@.len() {
                        assert(after[a] == self@[a] && after[b] == self@[b]);
                    } else {
                        assert(after[a] == self@[a]);
                        if record@.name is Some {
                            assert(!named(self@, record@.name.unwrap(), a));
                        }
                    }
                }
            }
        }
        self.records.push(record);
        Ok(())
    }

    /// Applies the result of probing every VM's process: `alive[i]` says
    /// whether the process of the record at `i` is alive. A record whose
    /// process is not alive is downgraded to `Stopped`.
    pub fn list(&mut self, alive: &Vec<bool>)
        ensures
            final(self)@ == probed(old(self)@, alive@),
    {
        let ghost before = self@;
        let mut i: usize = 0;
        while i < self.records.len()
            invariant
                i <= self.records.len(),
                self@.len() == before.len(),
                forall|k: int| 0 <= k < i ==> self@[k] == probed(before, alive@)[k],
                forall|k: int| i <= k < self@.len() ==> self@[k] == before[k],
            decreases self.records.len() - i,
        {
            assert(self@[i as int] == self.records@[i as int]@);
            if i < alive.len() && !alive[i] {
                let old_record = &self.records[i];
                let stopped = VmRecord {
                    id: old_record.id.clone(),
                    name: clone_opt(&old_record.name),
                    pid: old_record.pid,
                    image: clone_opt(&old_record.image),
                    status: Status::Stopped,
                    config_json: old_record.config_json.clone(),
                    auto_remove: old_record.auto_remove,
                    created_at: old_record.created_at.clone(),
                };
                proof {
                    assert(records_of(self.records@.update(i as int, stopped)) =~= self@.update(
                        i as int,
                        stopped@,
                    ));
                }
                self.records.set(i, stopped);
            }
            i += 1;
        }
        assert(self@ =~= probed(before, alive@));
    }

    /// Records that a VM has stopped, after its process was waited for or
    /// killed. The VM is marked as stopped; if it is removed automatically,
    /// its record is deleted and returned, so that what belongs to the VM
    /// can be removed with it.
    pub fn stopped(&mut self, query: &str) -> (r: Result<Option<VmRecord>, RegistryError>)
        ensures
            match r {
                Ok(removed) => exists|i: int|
                    {
                        &&& resolves(old(self)@, query@, Ok(i))
                        &&& if old(self)@[i].auto_remove {
                            &&& removed matches Some(record)
                            &&& record@ == (VmRecordView {
                                status: Status::Stopped,
                                ..old(self)@[i]
                            })
                            &&& final(self)@ == old(self)@.remove(i)
                        } else {
                            &&& removed is None
                            &&& final(self)@ == old(self)@.update(
                                i,
                                VmRecordView { status: Status::Stopped, ..old(self)@[i] },
                            )
                        }
                    },
                Err(e) => final(self)@ == old(self)@ && resolves(old(self)@, query@, Err(e)),
            },
    {
        let at = match self.resolve(query) {
            Ok(at) => at,
            Err(e) => {
                return Err(e);
            },
        };
        assert(self@[at as int] == self.records@[at as int]@);
        assert(resolves(self@, query@, Ok(at as int)));
        let ghost before = self@;
        if self.records[at].auto_remove {
            proof {
                assert(records_of(self.records@.remove(at as int)) =~= self@.remove(at as int));
            }
            let mut record = self.records.remove(at);
            record.status = Status::Stopped;
            Ok(Some(record))
        } else {
            let old_record = &self.records[at];
            let stopped = VmRecord {
                id: old_record.id.clone(),
                name: clone_opt(&old_record.name),
                pid: old_record.pid,
                image: clone_opt(&old_record.image),
                status: Status::Stopped,
                config_json: old_record.config_json.clone(),
                auto_remove: old_record.auto_remove,
                created_at: old_record.created_at.clone(),
            };
            proof {
                assert(records_of(self.records@.update(at as int, stopped)) =~= self@.update(
                    at as int,
                    stopped@,
                ));
            }
            self.records.set(at, stopped);
            Ok(None)
        }
    }

    /// Removes the record of a stopped VM and returns it. Fails, changing
    /// nothing, when the identifier does not resolve or the VM is not
    /// stopped.
    pub fn remove(&mut self, query: &str) -> (r: Result<VmRecord, RegistryError>)
        ensures
            match r {
                Ok(record) => exists|i: int|
                    {
                        &&& resolves(old(self)@, query@, Ok(i))
                        &&& old(self)@[i].status == Status::Stopped
                        &&& record@ == old(self)@[i]
                        &&& final(self)@ == old(self)@.remove(i)
                    },
                Err(RegistryError::NotStopped) => final(self)@ == old(self)@ && exists|i: int|
                    resolves(old(self)@, query@, Ok(i)) && old(self)@[i].status
                        != Status::Stopped,
                Err(e) => final(self)@ == old(self)@ && resolves(old(self)@, query@, Err(e)),
            },
    {
        let at = match self.resolve(query) {
            Ok(at) => at,
            Err(e) => {
                return Err(e);
            },
        };
        assert(self@[at as int] == self.records@[at as int]@);
        match self.records[at].status {
            Status::Stopped => {},
            _ => {
                assert(resolves(self@, query@, Ok(at as int)));
                return Err(RegistryError::NotStopped);
            },
        }
        proof {
            assert(records_of(self.records@.remove(at as int)) =~= self@.remove(at as int));
        }
        let record = self.records.remove(at);
        Ok(record)
    }
}

/// Where stopping a VM stands.
#[derive(Debug, Clone, Copy, PartialEq, Eq, Structural)]
pub enum StopStage {
    /// The guest agent is asked to shut down.
    Ask,
    /// The process's exit is awaited, up to the timeout.
    Wait,
    /// The process is being killed.
    Kill,
    /// The process has ended.
    Done,
}

/// What to do next to stop a VM.
#[derive(Debug, Clone, Copy, PartialEq, Eq, Structural)]
pub enum StopTask {
    /// Send `Shutdown` to the guest agent.
    Shutdown,
    /// Wait for the process to exit, up to the timeout.
    Wait,
    /// Kill the process.
    Kill,
    /// Mark the VM as stopped; remove its record if it is removed
    /// automatically.
    Mark,
}

/// What happened while stopping a VM.
#[derive(Debug, Clone, Copy, PartialEq, Eq, Structural)]
pub enum StopEvent {
    /// The shutdown request was dealt with, whether the agent took it or
    /// not.
    Asked,
    /// The process exited.
    Exited,
    /// The timeout passed and the process still runs.
    TimedOut,
    /// The process was killed.
    Killed,
}

impl StopStage {
    /// The work that each stage calls for.
    pub open spec fn task_spec(self) -> StopTask {
        match self {
            StopStage::Ask => StopTask::Shutdown,
            StopStage::Wait => StopTask::Wait,
            StopStage::Kill => StopTask::Kill,
            StopStage::Done => StopTask::Mark,
        }
    }

    /// The stage after an event: a graceful shutdown first, the wait after
    /// it, a kill only after the timeout.
    pub open spec fn next_spec(self, event: StopEvent) -> StopStage {
        match (self, event) {
            (StopStage::Ask, StopEvent::Asked) => StopStage::Wait,
            (StopStage::Wait, StopEvent::Exited) => StopStage::Done,
            (StopStage::Wait, StopEvent::TimedOut) => StopStage::Kill,
            (StopStage::Kill, StopEvent::Killed) => StopStage::Done,
            (StopStage::Kill, StopEvent::Exited) => StopStage::Done,
            (stage, _) => stage,
        }
    }

    /// Names the work that this stage calls for.
    pub fn task(self) -> (task: StopTask)
        ensures
            task == self.task_spec(),
    {
        match self {
            StopStage::Ask => StopTask::Shutdown,
            StopStage::Wait => StopTask::Wait,
            StopStage::Kill => StopTask::Kill,
            StopStage::Done => StopTask::Mark,
        }
    }

    /// Moves on after an event. An event that the stage does not wait for
    /// changes nothing.
    pub fn next(self, event: StopEvent) -> (stage: StopStage)
        ensures
            stage == self.next_spec(event),
    {
        match (self, event) {
            (StopStage::Ask, StopEvent::Asked) => StopStage::Wait,
            (StopStage::Wait, StopEvent::Exited) => StopStage::Done,
            (StopStage::Wait, StopEvent::TimedOut) => StopStage::Kill,
            (StopStage::Kill, StopEvent::Killed) => StopStage::Done,
            (StopStage::Kill, StopEvent::Exited) => StopStage::Done,
            (stage, _) => stage,
        }
    }
}

} // verus!
