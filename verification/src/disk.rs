//! Ext4 disk images for VM root filesystems.
//!
//! Base images are created once per image digest and shared across VMs.
//! Each VM gets its own writable copy. The manager knows which images
//! exist and decides what has to be done; the files are the caller's.
//!
//! ```text
//! {data_dir}/disks/bases/{digest}.raw   shared base images
//! {data_dir}/disks/vms/{vm_id}.raw      per-VM writable copies
//! ```

use vstd::prelude::*;
use vstd::string::StringExecFns;
use crate::text::{chars_of, clone_strings, ends_with, same, strs, substring};

verus! {

/// The file name of a disk image: the name it is keyed by, and `.raw`.
pub open spec fn raw_name(key: Seq<char>) -> Seq<char> {
    key + ".raw"@
}

/// The file name of a base image while it is being built.
pub open spec fn raw_tmp_name(key: Seq<char>) -> Seq<char> {
    key + ".raw.tmp"@
}

/// Manages ext4 disk images for VM root filesystems.
#[derive(Debug, Clone, PartialEq, Eq)]
pub struct DiskManager {
    /// Digests of the base images that exist.
    pub bases: Vec<String>,
    /// IDs of the VMs that have a disk image.
    pub vms: Vec<String>,
}

/// Mathematical value of a [`DiskManager`].
pub struct DiskManagerView {
    pub bases: Seq<Seq<char>>,
    pub vms: Seq<Seq<char>>,
}

impl View for DiskManager {
    type V = DiskManagerView;

    open spec fn view(&self) -> DiskManagerView {
        DiskManagerView { bases: strs(self.bases@), vms: strs(self.vms@) }
    }
}

/// What creating a base image takes.
#[derive(Debug, Clone, PartialEq, Eq)]
pub enum BaseTask {
    /// Nothing: the image with this file name exists.
    Ready { name: String },
    /// Estimate the size of the root filesystem, build the image under the
    /// temporary name, and rename it.
    Build { tmp: String, name: String },
}

/// Mathematical value of a [`BaseTask`].
pub enum BaseTaskView {
    Ready { name: Seq<char> },
    Build { tmp: Seq<char>, name: Seq<char> },
}

impl View for BaseTask {
    type V = BaseTaskView;

    open spec fn view(&self) -> BaseTaskView {
        match *self {
            BaseTask::Ready { name } => BaseTaskView::Ready { name: name@ },
            BaseTask::Build { tmp, name } => BaseTaskView::Build { tmp: tmp@, name: name@ },
        }
    }
}

/// The keys of the disk images among some file names: every name that ends
/// in `.raw`, without that ending.
pub open spec fn keys_of(names: Seq<Seq<char>>) -> Seq<Seq<char>>
    decreases names.len(),
{
    if names.len() == 0 {
        Seq::empty()
    } else {
        let rest = keys_of(names.drop_last());
        let name = names.last();
        if ".raw"@.is_suffix_of(name) {
            rest.push(name.subrange(0, name.len() - ".raw"@.len()))
        } else {
            rest
        }
    }
}

impl DiskManagerView {
    /// What creating the base image for a digest takes.
    pub open spec fn create_base(self, digest: Seq<char>) -> BaseTaskView {
        if self.bases.contains(digest) {
            BaseTaskView::Ready { name: raw_name(digest) }
        } else {
            BaseTaskView::Build { tmp: raw_tmp_name(digest), name: raw_name(digest) }
        }
    }

    /// The manager once the base image for a digest exists.
    pub open spec fn with_base(self, digest: Seq<char>) -> Self {
        if self.bases.contains(digest) {
            self
        } else {
            DiskManagerView { bases: self.bases.push(digest), ..self }
        }
    }
}

/// Position of `key` in `keys`, or their number if it is not among them.
fn position(keys: &Vec<String>, key: &str) -> (i: usize)
    ensures
        i <= keys.len(),
        i < keys.len() ==> strs(keys@)[i as int] == key@,
        forall|k: int| 0 <= k < i ==> strs(keys@)[k] != key@,
{
    let mut i: usize = 0;
    while i < keys.len() && !same(keys[i].as_str(), key)
        invariant
            i <= keys.len(),
            forall|k: int| 0 <= k < i ==> strs(keys@)[k] != key@,
        decreases keys.len() - i,
    {
        assert(strs(keys@)[i as int] == keys@[i as int]@);
        i += 1;
    }
    proof {
        if i < keys.len() {
            assert(strs(keys@)[i as int] == keys@[i as int]@);
        }
    }
    i
}

/// The keys of the disk images among some file names.
fn keys(names: &Vec<String>) -> (out: Vec<String>)
    ensures
        strs(out@) == keys_of(strs(names@)),
{
    let mut out: Vec<String> = Vec::new();
    let mut i: usize = 0;
    let ghost all = strs(names@);
    assert(strs(out@) =~= keys_of(all.take(0)));
    while i < names.len()
        invariant
            i <= names.len(),
            all == strs(names@),
            strs(out@) == keys_of(all.take(i as int)),
        decreases names.len() - i,
    {
        proof {
            assert(all.take(i + 1).drop_last() =~= all.take(i as int));
            assert(all.take(i + 1).last() == names@[i as int]@);
            reveal_strlit(".raw");
        }
        if ends_with(names[i].as_str(), ".raw") {
            let v = chars_of(names[i].as_str());
            let key = substring(&v, 0, v.len() - 4);
            proof {
                assert(strs(out@.push(key)) =~= strs(out@).push(key@));
            }
            out.push(key);
        }
        i += 1;
    }
    assert(all.take(names.len() as int) =~= all);
    out
}

impl DiskManager {
    /// Opens the manager on what the two directories hold: the file names
    /// under `bases/` and under `vms/`.
    pub fn open(base_files: &Vec<String>, vm_files: &Vec<String>) -> (dm: Self)
        ensures
            dm@.bases == keys_of(strs(base_files@)),
            dm@.vms == keys_of(strs(vm_files@)),
    {
        DiskManager { bases: keys(base_files), vms: keys(vm_files) }
    }

    /// Returns `true` if a base image for the given digest already exists.
    pub fn has_base(&self, digest: &str) -> (b: bool)
        ensures
            b == self@.bases.contains(digest@),
    {
        let i = position(&self.bases, digest);
        if i < self.bases.len() {
            assert(self@.bases[i as int] == digest@);
            true
        } else {
            false
        }
    }

    /// Returns the file name of a base image (which may or may not exist).
    pub fn base_path(&self, digest: &str) -> (name: String)
        ensures
            name@ == raw_name(digest@),
    {
        let mut name = digest.to_owned();
        name.append(".raw");
        name
    }

    /// Returns the file name of a VM's disk image (which may or may not
    /// exist).
    pub fn vm_disk_path(&self, vm_id: &str) -> (name: String)
        ensures
            name@ == raw_name(vm_id@),
    {
        let mut name = vm_id.to_owned();
        name.append(".raw");
        name
    }

    /// Says what creating the base image for a digest takes: nothing if it
    /// exists, else a build under a temporary name and a rename.
    pub fn create_base(&self, digest: &str) -> (task: BaseTask)
        ensures
            task@ == self@.create_base(digest@),
    {
        if self.has_base(digest) {
            BaseTask::Ready { name: self.base_path(digest) }
        } else {
            let mut tmp = digest.to_owned();
            tmp.append(".raw.tmp");
            BaseTask::Build { tmp, name: self.base_path(digest) }
        }
    }

    /// Records that the base image for a digest has been built and renamed.
    pub fn base_created(&mut self, digest: &str)
        ensures
            final(self)@ == old(self)@.with_base(digest@),
    {
        if !self.has_base(digest) {
            let key = digest.to_owned();
            proof {
                assert(strs(self.bases@.push(key)) =~= strs(self.bases@).push(key@));
            }
            self.bases.push(key);
        }
    }

    /// Says where the writable copy of a base image for a VM goes, and
    /// records that the VM has a disk.
    pub fn create_vm_disk(&mut self, vm_id: &str) -> (name: String)
        ensures
            name@ == raw_name(vm_id@),
            final(self)@.bases == old(self)@.bases,
            final(self)@.vms == if old(self)@.vms.contains(vm_id@) {
                old(self)@.vms
            } else {
                old(self)@.vms.push(vm_id@)
            },
    {
        let i = position(&self.vms, vm_id);
        if i < self.vms.len() {
            assert(self@.vms[i as int] == vm_id@);
        } else {
            let key = vm_id.to_owned();
            proof {
                assert(strs(self.vms@.push(key)) =~= strs(self.vms@).push(key@));
            }
            self.vms.push(key);
        }
        self.vm_disk_path(vm_id)
    }

    /// Lists all base image digests.
    pub fn list_bases(&self) -> (digests: Vec<String>)
        ensures
            strs(digests@) == self@.bases,
    {
        clone_strings(&self.bases)
    }

    /// Removes a base image by digest: the file to delete, if there is one.
    pub fn remove_base(&mut self, digest: &str) -> (name: Option<String>)
        ensures
            final(self)@.vms == old(self)@.vms,
            match name {
                Some(n) => {
                    &&& n@ == raw_name(digest@)
                    &&& exists|i: int|
                        0 <= i < old(self)@.bases.len() && old(self)@.bases[i] == digest@
                            && final(self)@.bases == old(self)@.bases.remove(i)
                },
                None => !old(self)@.bases.contains(digest@) && final(self)@ == old(self)@,
            },
    {
        let i = position(&self.bases, digest);
        if i < self.bases.len() {
            assert(self@.bases[i as int] == digest@);
            proof {
                assert(strs(self.bases@.remove(i as int)) =~= strs(self.bases@).remove(i as int));
            }
            self.bases.remove(i);
            Some(self.base_path(digest))
        } else {
            None
        }
    }

    /// Removes a VM's disk image: the file to delete, if there is one.
    pub fn remove_vm_disk(&mut self, vm_id: &str) -> (name: Option<String>)
        ensures
            final(self)@.bases == old(self)@.bases,
            match name {
                Some(n) => {
                    &&& n@ == raw_name(vm_id@)
                    &&& exists|i: int|
                        0 <= i < old(self)@.vms.len() && old(self)@.vms[i] == vm_id@
                            && final(self)@.vms == old(self)@.vms.remove(i)
                },
                None => !old(self)@.vms.contains(vm_id@) && final(self)@ == old(self)@,
            },
    {
        let i = position(&self.vms, vm_id);
        if i < self.vms.len() {
            assert(self@.vms[i as int] == vm_id@);
            proof {
                assert(strs(self.vms@.remove(i as int)) =~= strs(self.vms@).remove(i as int));
            }
            self.vms.remove(i);
            Some(self.vm_disk_path(vm_id))
        } else {
            None
        }
    }
}

/// Creating a base image is idempotent: once the image for a digest has
/// been created, creating it again takes nothing and names the same file.
pub proof fn lemma_create_base_idempotent(dm: DiskManagerView, digest: Seq<char>)
    ensures
        dm.with_base(digest).create_base(digest) == (BaseTaskView::Ready {
            name: raw_name(digest),
        }),
        dm.create_base(digest) matches BaseTaskView::Build { name, .. } ==> name == raw_name(
            digest,
        ),
        dm.with_base(digest).with_base(digest) == dm.with_base(digest),
{
    let after = dm.with_base(digest);
    if !dm.bases.contains(digest) {
        assert(after.bases[dm.bases.len() as int] == digest);
    }
}

} // verus!
