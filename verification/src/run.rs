//! The `run` command: from command-line arguments to a VM configuration.

use vstd::prelude::*;
use crate::image::{or_empty, ImageConfig, ImageConfigView};
use crate::text::{
    clone_opt, clone_strings, extend_strings, opt_str, pairs, split_once, split_once_spec, strs,
};
use crate::vm::{LogLevel, VmConfig, VmConfigView};

verus! {

/// Arguments for the `run` subcommand.
#[derive(Debug, Clone, PartialEq, Eq)]
pub struct RunArgs {
    /// OCI image reference. Auto-pulled if not cached.
    pub image: Option<String>,
    /// Explicit root filesystem directory path (alternative to image).
    pub root: Option<String>,
    /// Root filesystem disk image path (ext4 raw image).
    pub root_disk: Option<String>,
    /// Use an ext4 disk image as root, created from the root directory.
    pub disk: bool,
    /// Assign a name to the VM.
    pub name: Option<String>,
    /// Run in background and print the VM ID.
    pub detach: bool,
    /// Automatically remove the VM when it stops.
    pub rm: bool,
    /// Number of virtual CPUs.
    pub cpus: u8,
    /// RAM size in MiB.
    pub ram: u32,
    /// Working directory inside the VM.
    pub workdir: Option<String>,
    /// TCP port mappings (`host:guest`).
    pub ports: Vec<String>,
    /// Host directories shared via virtio-fs (`tag:host_path`).
    pub volumes: Vec<String>,
    /// Environment variables (`KEY=VALUE`).
    pub envs: Vec<String>,
    /// Set UID inside the VM.
    pub uid: Option<u32>,
    /// Set GID inside the VM.
    pub gid: Option<u32>,
    /// Resource limits (`RESOURCE=RLIM_CUR:RLIM_MAX`).
    pub rlimit: Vec<String>,
    /// Enable nested virtualization.
    pub nested_virt: bool,
    /// Enable the virtio-snd audio device.
    pub snd: bool,
    /// Redirect console output to a file.
    pub console_output: Option<String>,
    /// Verbosity of the VMM's log.
    pub log_level: LogLevel,
    /// Command and arguments to run inside the VM.
    pub command: Vec<String>,
}

/// Mathematical value of a [`RunArgs`].
pub struct RunArgsView {
    pub image: Option<Seq<char>>,
    pub root: Option<Seq<char>>,
    pub root_disk: Option<Seq<char>>,
    pub disk: bool,
    pub name: Option<Seq<char>>,
    pub detach: bool,
    pub rm: bool,
    pub cpus: u8,
    pub ram: u32,
    pub workdir: Option<Seq<char>>,
    pub ports: Seq<Seq<char>>,
    pub volumes: Seq<Seq<char>>,
    pub envs: Seq<Seq<char>>,
    pub uid: Option<u32>,
    pub gid: Option<u32>,
    pub rlimit: Seq<Seq<char>>,
    pub nested_virt: bool,
    pub snd: bool,
    pub console_output: Option<Seq<char>>,
    pub log_level: LogLevel,
    pub command: Seq<Seq<char>>,
}

impl View for RunArgs {
    type V = RunArgsView;

    open spec fn view(&self) -> RunArgsView {
        RunArgsView {
            image: opt_str(self.image),
            root: opt_str(self.root),
            root_disk: opt_str(self.root_disk),
            disk: self.disk,
            name: opt_str(self.name),
            detach: self.detach,
            rm: self.rm,
            cpus: self.cpus,
            ram: self.ram,
            workdir: opt_str(self.workdir),
            ports: strs(self.ports@),
            volumes: strs(self.volumes@),
            envs: strs(self.envs@),
            uid: self.uid,
            gid: self.gid,
            rlimit: strs(self.rlimit@),
            nested_virt: self.nested_virt,
            snd: self.snd,
            console_output: opt_str(self.console_output),
            log_level: self.log_level,
            command: strs(self.command@),
        }
    }
}

/// Why a run cannot be set up.
#[derive(Debug, Clone, Copy, PartialEq, Eq, Structural)]
pub enum RunError {
    /// No image, root directory or root disk was given.
    NoRoot,
    /// More than one of image, root directory and root disk was given.
    Conflict,
    /// The volume at this index is not of the form `tag:host_path`.
    BadVolume(usize),
}

/// Where the root filesystem comes from.
#[derive(Debug, Clone, PartialEq, Eq)]
pub enum Source {
    /// An OCI image, to be made available locally.
    Image(String),
    /// A directory on the host.
    Dir(String),
    /// A disk image on the host.
    Disk(String),
}

/// Mathematical value of a [`Source`].
pub enum SourceView {
    Image(Seq<char>),
    Dir(Seq<char>),
    Disk(Seq<char>),
}

impl View for Source {
    type V = SourceView;

    open spec fn view(&self) -> SourceView {
        match *self {
            Source::Image(s) => SourceView::Image(s@),
            Source::Dir(s) => SourceView::Dir(s@),
            Source::Disk(s) => SourceView::Disk(s@),
        }
    }
}

/// What the VM boots from.
#[derive(Debug, Clone, PartialEq, Eq)]
pub enum Root {
    /// This disk image.
    Disk(String),
    /// A disk image that has yet to be created from this directory.
    NewDisk(String),
    /// This directory.
    Dir(String),
}

/// Mathematical value of a [`Root`].
pub enum RootView {
    Disk(Seq<char>),
    NewDisk(Seq<char>),
    Dir(Seq<char>),
}

impl View for Root {
    type V = RootView;

    open spec fn view(&self) -> RootView {
        match *self {
            Root::Disk(s) => RootView::Disk(s@),
            Root::NewDisk(s) => RootView::NewDisk(s@),
            Root::Dir(s) => RootView::Dir(s@),
        }
    }
}

/// The volumes as tag and host path, cut at the first colon. Only meaningful
/// when every volume has a colon.
pub open spec fn shares_of(volumes: Seq<Seq<char>>) -> Seq<(Seq<char>, Seq<char>)> {
    volumes.map_values(|v: Seq<char>| split_once_spec(v, ':').unwrap())
}

impl RunArgsView {
    /// The source of the root filesystem, if the arguments name exactly one.
    pub open spec fn source(self) -> Result<SourceView, RunError> {
        match (self.image, self.root, self.root_disk) {
            (Some(image), None, None) => Ok(SourceView::Image(image)),
            (None, Some(root), None) => Ok(SourceView::Dir(root)),
            (None, None, Some(disk)) => Ok(SourceView::Disk(disk)),
            (None, None, None) => Err(RunError::NoRoot),
            _ => Err(RunError::Conflict),
        }
    }

    /// What to boot from, given the root directory that the source resolved
    /// to: an explicit disk first, then a disk made from the directory if one
    /// was asked for and there is a directory, then the directory itself.
    pub open spec fn root_for(self, rootfs: Seq<char>) -> RootView {
        match self.root_disk {
            Some(disk) => RootView::Disk(disk),
            None => if self.disk && rootfs.len() > 0 {
                RootView::NewDisk(rootfs)
            } else {
                RootView::Dir(rootfs)
            },
        }
    }

    /// The working directory: the argument if given, else the image's; none
    /// if that is empty.
    pub open spec fn workdir_for(self, cfg: Option<ImageConfigView>) -> Option<Seq<char>> {
        let chosen = match self.workdir {
            Some(w) => Some(w),
            None => match cfg {
                Some(c) => c.working_dir,
                None => None,
            },
        };
        match chosen {
            Some(w) => if w.len() > 0 {
                Some(w)
            } else {
                None
            },
            None => None,
        }
    }

    /// The command line: the arguments' if not empty, else the image's
    /// entrypoint followed by its default command.
    pub open spec fn command_for(self, cfg: Option<ImageConfigView>) -> Seq<Seq<char>> {
        if self.command.len() > 0 {
            self.command
        } else {
            match cfg {
                Some(c) => c.command(),
                None => Seq::empty(),
            }
        }
    }

    /// The environment: the image's defaults, then the arguments'.
    pub open spec fn env_for(self, cfg: Option<ImageConfigView>) -> Seq<Seq<char>> {
        let defaults = match cfg {
            Some(c) => or_empty(c.env),
            None => Seq::empty(),
        };
        defaults + self.envs
    }

    /// Whether the volume at `i` is the first one without a colon.
    pub open spec fn bad_volume(self, i: int) -> bool {
        &&& 0 <= i < self.volumes.len()
        &&& split_once_spec(self.volumes[i], ':') is None
        &&& forall|k: int| 0 <= k < i ==> split_once_spec(#[trigger] self.volumes[k], ':') is Some
    }

    /// Every volume has a colon.
    pub open spec fn volumes_ok(self) -> bool {
        forall|k: int|
            0 <= k < self.volumes.len() ==> split_once_spec(#[trigger] self.volumes[k], ':') is Some
    }

    /// The configuration of the VM that these arguments describe.
    pub open spec fn config(
        self,
        root: Option<Seq<char>>,
        root_disk: Option<Seq<char>>,
        cfg: Option<ImageConfigView>,
    ) -> VmConfigView {
        let command = self.command_for(cfg);
        VmConfigView {
            vcpus: self.cpus,
            ram_mib: self.ram,
            root,
            root_disk,
            workdir: self.workdir_for(cfg),
            exec_path: if command.len() > 0 {
                Some(command[0])
            } else {
                None
            },
            exec_args: if command.len() > 0 {
                command.skip(1)
            } else {
                Seq::empty()
            },
            env: self.env_for(cfg),
            ports: self.ports,
            virtiofs: shares_of(self.volumes),
            rlimits: self.rlimit,
            uid: self.uid,
            gid: self.gid,
            nested_virt: self.nested_virt,
            snd: self.snd,
            console_output: self.console_output,
            log_level: self.log_level,
        }
    }
}

/// The image configuration's view, if there is one.
pub open spec fn opt_cfg(cfg: Option<&ImageConfig>) -> Option<ImageConfigView> {
    match cfg {
        Some(c) => Some(c@),
        None => None,
    }
}

impl RunArgs {
    /// Says where the root filesystem comes from: the image, the root
    /// directory or the root disk, whichever is the only one given.
    pub fn resolve_rootfs(&self) -> (r: Result<Source, RunError>)
        ensures
            match r {
                Ok(source) => self@.source() == Ok::<SourceView, RunError>(source@),
                Err(e) => self@.source() == Err::<SourceView, RunError>(e),
            },
    {
        match (&self.image, &self.root, &self.root_disk) {
            (Some(image), None, None) => Ok(Source::Image(image.clone())),
            (None, Some(root), None) => Ok(Source::Dir(root.clone())),
            (None, None, Some(disk)) => Ok(Source::Disk(disk.clone())),
            (None, None, None) => Err(RunError::NoRoot),
            _ => Err(RunError::Conflict),
        }
    }

    /// Decides what the VM boots from. `rootfs` is the root directory that
    /// the source resolved to, empty when the source is a disk.
    pub fn root(&self, rootfs: &str) -> (root: Root)
        ensures
            root@ == self@.root_for(rootfs@),
    {
        match &self.root_disk {
            Some(disk) => Root::Disk(disk.clone()),
            None => {
                if self.disk && rootfs.unicode_len() > 0 {
                    Root::NewDisk(rootfs.to_owned())
                } else {
                    Root::Dir(rootfs.to_owned())
                }
            },
        }
    }

    /// The working directory inside the VM.
    fn pick_workdir(&self, cfg: Option<&ImageConfig>) -> (w: Option<String>)
        ensures
            opt_str(w) == self@.workdir_for(opt_cfg(cfg)),
    {
        let chosen = match &self.workdir {
            Some(w) => Some(w.clone()),
            None => match cfg {
                Some(c) => clone_opt(&c.working_dir),
                None => None,
            },
        };
        match chosen {
            Some(w) => {
                if w.as_str().unicode_len() > 0 {
                    Some(w)
                } else {
                    None
                }
            },
            None => None,
        }
    }

    /// The command line to run inside the VM.
    fn pick_command(&self, cfg: Option<&ImageConfig>) -> (command: Vec<String>)
        ensures
            strs(command@) == self@.command_for(opt_cfg(cfg)),
    {
        if self.command.len() > 0 {
            clone_strings(&self.command)
        } else {
            match cfg {
                Some(c) => c.command(),
                None => {
                    let none: Vec<String> = Vec::new();
                    assert(strs(none@) =~= Seq::empty());
                    none
                },
            }
        }
    }

    /// The environment of the VM.
    fn pick_env(&self, cfg: Option<&ImageConfig>) -> (env: Vec<String>)
        ensures
            strs(env@) == self@.env_for(opt_cfg(cfg)),
    {
        let mut env: Vec<String> = Vec::new();
        assert(strs(env@) =~= Seq::empty());
        if let Some(c) = cfg {
            if let Some(defaults) = &c.env {
                extend_strings(&mut env, defaults);
            }
        }
        extend_strings(&mut env, &self.envs);
        assert(strs(env@) =~= self@.env_for(opt_cfg(cfg)));
        env
    }

    /// The volumes as tag and host path.
    fn shares(&self) -> (r: Result<Vec<(String, String)>, RunError>)
        ensures
            match r {
                Ok(shares) => self@.volumes_ok() && pairs(shares@) == shares_of(self@.volumes),
                Err(RunError::BadVolume(i)) => self@.bad_volume(i as int),
                Err(_) => false,
            },
    {
        let mut shares: Vec<(String, String)> = Vec::new();
        let mut i: usize = 0;
        assert(pairs(shares@) =~= shares_of(self@.volumes.take(0)));
        while i < self.volumes.len()
            invariant
                i <= self.volumes.len(),
                pairs(shares@) == shares_of(self@.volumes.take(i as int)),
                forall|k: int|
                    0 <= k < i ==> split_once_spec(#[trigger] self@.volumes[k], ':') is Some,
            decreases self.volumes.len() - i,
        {
            assert(self@.volumes[i as int] == self.volumes@[i as int]@);
            match split_once(self.volumes[i].as_str(), ':') {
                Some((tag, path)) => {
                    proof {
                        assert(pairs(shares@.push((tag, path))) =~= pairs(shares@).push(
                            (tag@, path@),
                        ));
                        assert(shares_of(self@.volumes.take(i + 1)) =~= shares_of(
                            self@.volumes.take(i as int),
                        ).push((tag@, path@)));
                    }
                    shares.push((tag, path));
                },
                None => {
                    return Err(RunError::BadVolume(i));
                },
            }
            i += 1;
        }
        assert(self@.volumes.take(self.volumes.len() as int) =~= self@.volumes);
        Ok(shares)
    }

    /// Assembles the configuration of the VM to start.
    ///
    /// `root` and `root_disk` say what the VM boots from; `cfg` is the
    /// configuration of the image, if the root comes from one. Arguments
    /// given on the command line win over the image's defaults: the working
    /// directory and the command replace them, the environment is added
    /// after them. Fails on the first volume that is not `tag:host_path`.
    pub fn run(
        &self,
        root: Option<String>,
        root_disk: Option<String>,
        cfg: Option<&ImageConfig>,
    ) -> (r: Result<VmConfig, RunError>)
        ensures
            match r {
                Ok(vm) => self@.volumes_ok() && vm@ == self@.config(
                    opt_str(root),
                    opt_str(root_disk),
                    opt_cfg(cfg),
                ),
                Err(RunError::BadVolume(i)) => self@.bad_volume(i as int),
                Err(_) => false,
            },
    {
        let virtiofs = match self.shares() {
            Ok(shares) => shares,
            Err(e) => {
                return Err(e);
            },
        };
        let mut command = self.pick_command(cfg);
        let ghost full = strs(command@);
        let exec_path = if command.len() > 0 {
            let first = command.remove(0);
            proof {
                assert(strs(command@) =~= full.skip(1));
            }
            Some(first)
        } else {
            assert(strs(command@) =~= Seq::empty());
            None
        };
        Ok(
            VmConfig {
                vcpus: self.cpus,
                ram_mib: self.ram,
                root,
                root_disk,
                workdir: self.pick_workdir(cfg),
                exec_path,
                exec_args: command,
                env: self.pick_env(cfg),
                ports: clone_strings(&self.ports),
                virtiofs,
                rlimits: clone_strings(&self.rlimit),
                uid: self.uid,
                gid: self.gid,
                nested_virt: self.nested_virt,
                snd: self.snd,
                console_output: clone_opt(&self.console_output),
                log_level: self.log_level,
            },
        )
    }
}

} // verus!
