//! VM configuration and its validity.

use vstd::prelude::*;
use vstd::string::StringExecFns;
use crate::registry::RegistryError;
use crate::text::{chars_of, decimal, digits, find_char, opt_str, pairs, split_once_spec, strs};

verus! {

/// Verbosity of the VMM's log.
#[derive(Debug, Clone, Copy, PartialEq, Eq, Structural)]
pub enum LogLevel {
    Off,
    Error,
    Warn,
    Info,
    Debug,
    Trace,
}

/// Full description of a VM.
#[derive(Debug, Clone, PartialEq, Eq)]
pub struct VmConfig {
    /// Number of virtual CPUs.
    pub vcpus: u8,
    /// RAM size in MiB.
    pub ram_mib: u32,
    /// Root filesystem directory.
    pub root: Option<String>,
    /// Root filesystem disk image.
    pub root_disk: Option<String>,
    /// Working directory inside the VM.
    pub workdir: Option<String>,
    /// Program to run inside the VM.
    pub exec_path: Option<String>,
    /// Arguments of the program.
    pub exec_args: Vec<String>,
    /// Environment variables in `KEY=VALUE` format.
    pub env: Vec<String>,
    /// TCP port mappings in `host:guest` format.
    pub ports: Vec<String>,
    /// virtio-fs shares as tag and host path.
    pub virtiofs: Vec<(String, String)>,
    /// Resource limits in `RESOURCE=RLIM_CUR:RLIM_MAX` format.
    pub rlimits: Vec<String>,
    /// UID inside the VM.
    pub uid: Option<u32>,
    /// GID inside the VM.
    pub gid: Option<u32>,
    /// Whether nested virtualization is enabled.
    pub nested_virt: bool,
    /// Whether the virtio-snd device is enabled.
    pub snd: bool,
    /// File that receives the console output.
    pub console_output: Option<String>,
    /// Verbosity of the VMM's log.
    pub log_level: LogLevel,
}

/// Mathematical value of a [`VmConfig`].
pub struct VmConfigView {
    pub vcpus: u8,
    pub ram_mib: u32,
    pub root: Option<Seq<char>>,
    pub root_disk: Option<Seq<char>>,
    pub workdir: Option<Seq<char>>,
    pub exec_path: Option<Seq<char>>,
    pub exec_args: Seq<Seq<char>>,
    pub env: Seq<Seq<char>>,
    pub ports: Seq<Seq<char>>,
    pub virtiofs: Seq<(Seq<char>, Seq<char>)>,
    pub rlimits: Seq<Seq<char>>,
    pub uid: Option<u32>,
    pub gid: Option<u32>,
    pub nested_virt: bool,
    pub snd: bool,
    pub console_output: Option<Seq<char>>,
    pub log_level: LogLevel,
}

impl View for VmConfig {
    type V = VmConfigView;

    open spec fn view(&self) -> VmConfigView {
        VmConfigView {
            vcpus: self.vcpus,
            ram_mib: self.ram_mib,
            root: opt_str(self.root),
            root_disk: opt_str(self.root_disk),
            workdir: opt_str(self.workdir),
            exec_path: opt_str(self.exec_path),
            exec_args: strs(self.exec_args@),
            env: strs(self.env@),
            ports: strs(self.ports@),
            virtiofs: pairs(self.virtiofs@),
            rlimits: strs(self.rlimits@),
            uid: self.uid,
            gid: self.gid,
            nested_virt: self.nested_virt,
            snd: self.snd,
            console_output: opt_str(self.console_output),
            log_level: self.log_level,
        }
    }
}

/// What makes a configuration invalid.
#[derive(Debug, Clone, Copy, PartialEq, Eq, Structural)]
pub enum ConfigError {
    /// Neither a root directory nor a root disk is set.
    NoRoot,
    /// Both a root directory and a root disk are set.
    TwoRoots,
    /// The VM has no virtual CPU.
    NoCpus,
    /// The VM has more virtual CPUs than the VMM supports.
    TooManyCpus,
    /// The port mapping at this index is not of the form `host:guest`.
    BadPort(usize),
    /// The share at this index repeats the tag of an earlier share.
    DuplicateTag(usize),
}

/// Whether `c` is a decimal digit.
pub open spec fn is_digit(c: char) -> bool {
    0x30 <= c as u32 <= 0x39
}

/// Whether `s` is a non-empty run of decimal digits.
pub open spec fn is_number(s: Seq<char>) -> bool {
    s.len() > 0 && forall|i: int| 0 <= i < s.len() ==> is_digit(#[trigger] s[i])
}

/// Whether `s` is a port mapping: two numbers with a colon between them.
pub open spec fn valid_port(s: Seq<char>) -> bool {
    match split_once_spec(s, ':') {
        Some((host, guest)) => is_number(host) && is_number(guest),
        None => false,
    }
}

/// Whether the share at `j` carries the tag of an earlier share.
pub open spec fn repeats_tag(shares: Seq<(Seq<char>, Seq<char>)>, j: int) -> bool {
    exists|i: int| 0 <= i < j && (#[trigger] shares[i]).0 == shares[j].0
}

impl VmConfigView {
    /// Exactly one of the root directory and the root disk is set.
    pub open spec fn one_root(self) -> bool {
        self.root is Some != self.root_disk is Some
    }

    /// Every port mapping has the form `host:guest`.
    pub open spec fn ports_valid(self) -> bool {
        forall|i: int| 0 <= i < self.ports.len() ==> valid_port(#[trigger] self.ports[i])
    }

    /// No two shares carry the same tag.
    pub open spec fn tags_unique(self) -> bool {
        forall|j: int| 0 <= j < self.virtiofs.len() ==> !repeats_tag(self.virtiofs, j)
    }

    /// The configuration's invariant, for a VMM that supports `max_vcpus`.
    pub open spec fn valid(self, max_vcpus: u8) -> bool {
        &&& self.one_root()
        &&& 1 <= self.vcpus <= max_vcpus
        &&& self.ports_valid()
        &&& self.tags_unique()
    }
}

/// Whether every character of `v` from `from` up to `to` is a digit, and
/// there is at least one.
fn number_at(v: &Vec<char>, from: usize, to: usize) -> (b: bool)
    requires
        from <= to <= v.len(),
    ensures
        b == is_number(v@.subrange(from as int, to as int)),
{
    if from == to {
        return false;
    }
    let ghost part = v@.subrange(from as int, to as int);
    let mut i: usize = from;
    while i < to
        invariant
            from <= i <= to <= v.len(),
            part == v@.subrange(from as int, to as int),
            forall|k: int| 0 <= k < i - from ==> is_digit(#[trigger] part[k]),
        decreases to - i,
    {
        let c = v[i] as u32;
        if c < 0x30 || c > 0x39 {
            assert(!is_digit(part[i - from]));
            return false;
        }
        i += 1;
    }
    true
}

/// Whether `s` is a port mapping of the form `host:guest`.
pub fn is_port(s: &str) -> (b: bool)
    ensures
        b == valid_port(s@),
{
    let v = chars_of(s);
    let i = find_char(&v, ':');
    if i < v.len() {
        assert(v@.take(i as int) =~= v@.subrange(0, i as int));
        assert(v@.skip(i + 1) =~= v@.subrange(i + 1, v.len() as int));
        number_at(&v, 0, i) && number_at(&v, i + 1, v.len())
    } else {
        false
    }
}

impl VmConfig {
    /// Checks the configuration's invariant and names the first violation:
    /// the roots, then the CPU count, then the port mappings in order, then
    /// the share tags in order.
    #[verifier::loop_isolation(false)]
    pub fn validate(&self, max_vcpus: u8) -> (r: Result<(), ConfigError>)
        ensures
            match r {
                Ok(_) => self@.valid(max_vcpus),
                Err(ConfigError::NoRoot) => self@.root is None && self@.root_disk is None,
                Err(ConfigError::TwoRoots) => self@.root is Some && self@.root_disk is Some,
                Err(ConfigError::NoCpus) => self@.one_root() && self.vcpus == 0,
                Err(ConfigError::TooManyCpus) => self@.one_root() && self.vcpus > max_vcpus
                    && self.vcpus > 0,
                Err(ConfigError::BadPort(i)) => {
                    &&& self@.one_root()
                    &&& 1 <= self.vcpus <= max_vcpus
                    &&& i < self@.ports.len()
                    &&& !valid_port(self@.ports[i as int])
                    &&& forall|k: int| 0 <= k < i ==> valid_port(#[trigger] self@.ports[k])
                },
                Err(ConfigError::DuplicateTag(j)) => {
                    &&& self@.one_root()
                    &&& 1 <= self.vcpus <= max_vcpus
                    &&& self@.ports_valid()
                    &&& j < self@.virtiofs.len()
                    &&& repeats_tag(self@.virtiofs, j as int)
                    &&& forall|k: int| 0 <= k < j ==> !repeats_tag(self@.virtiofs, k)
                },
            },
    {
        match (&self.root, &self.root_disk) {
            (None, None) => {
                return Err(ConfigError::NoRoot);
            },
            (Some(_), Some(_)) => {
                return Err(ConfigError::TwoRoots);
            },
            _ => {},
        }
        if self.vcpus == 0 {
            return Err(ConfigError::NoCpus);
        }
        if self.vcpus > max_vcpus {
            return Err(ConfigError::TooManyCpus);
        }
        let mut i: usize = 0;
        while i < self.ports.len()
            invariant
                i <= self.ports.len(),
                forall|k: int| 0 <= k < i ==> valid_port(#[trigger] self@.ports[k]),
            decreases self.ports.len() - i,
        {
            assert(self@.ports[i as int] == self.ports@[i as int]@);
            if !is_port(self.ports[i].as_str()) {
                return Err(ConfigError::BadPort(i));
            }
            i += 1;
        }
        let mut j: usize = 0;
        while j < self.virtiofs.len()
            invariant
                j <= self.virtiofs.len(),
                forall|k: int| 0 <= k < j ==> !repeats_tag(self@.virtiofs, k),
            decreases self.virtiofs.len() - j,
        {
            let mut k: usize = 0;
            while k < j
                invariant
                    k <= j < self.virtiofs.len(),
                    forall|i: int| 0 <= i < k ==> (#[trigger] self@.virtiofs[i]).0
                        != self@.virtiofs[j as int].0,
                decreases j - k,
            {
                assert(self@.virtiofs[k as int].0 == self.virtiofs@[k as int].0@);
                assert(self@.virtiofs[j as int].0 == self.virtiofs@[j as int].0@);
                if self.virtiofs[k].0 == self.virtiofs[j].0 {
                    return Err(ConfigError::DuplicateTag(j));
                }
                k += 1;
            }
            j += 1;
        }
        Ok(())
    }
}

/// Errors returned by VM operations.
#[derive(Debug, Clone, PartialEq, Eq)]
pub enum Error {
    /// The VMM returned a negative error code.
    Krun {
        /// The operation that failed.
        op: &'static str,
        /// The negative error code.
        code: i32,
    },
    /// A string argument contained an interior NUL byte.
    Nul,
    /// An I/O error from runtime, client, or state operations.
    Io(String),
    /// A VM or resource was not found.
    NotFound(String),
    /// An ambiguous identifier matched multiple VMs.
    Ambiguous(String),
    /// Database error.
    Db(String),
    /// JSON serialization error.
    Json(String),
}

/// Mathematical value of an [`Error`].
pub enum ErrorView {
    Krun { op: Seq<char>, code: i32 },
    Nul,
    Io(Seq<char>),
    NotFound(Seq<char>),
    Ambiguous(Seq<char>),
    Db(Seq<char>),
    Json(Seq<char>),
}

impl View for Error {
    type V = ErrorView;

    open spec fn view(&self) -> ErrorView {
        match *self {
            Error::Krun { op, code } => ErrorView::Krun { op: op@, code },
            Error::Nul => ErrorView::Nul,
            Error::Io(msg) => ErrorView::Io(msg@),
            Error::NotFound(msg) => ErrorView::NotFound(msg@),
            Error::Ambiguous(msg) => ErrorView::Ambiguous(msg@),
            Error::Db(msg) => ErrorView::Db(msg@),
            Error::Json(msg) => ErrorView::Json(msg@),
        }
    }
}

/// The error for an identifier that the registry refused.
pub open spec fn refused(query: Seq<char>, e: RegistryError) -> ErrorView {
    match e {
        RegistryError::NotFound => ErrorView::NotFound("no such VM: "@ + query),
        RegistryError::Ambiguous => ErrorView::Ambiguous("ambiguous VM ID prefix: "@ + query),
        RegistryError::NotStopped => ErrorView::Io("VM is not stopped: "@ + query),
        RegistryError::IdTaken => ErrorView::Io("VM ID is taken: "@ + query),
        RegistryError::NameTaken => ErrorView::Io("VM name is taken: "@ + query),
    }
}

impl Error {
    /// Checks a result code of the VMM: a negative code is an error tagged
    /// with the operation's name, any other code is the call's result.
    pub fn krun(op: &'static str, code: i32) -> (r: Result<u32, Error>)
        ensures
            code >= 0 ==> r == Ok::<u32, Error>(code as u32),
            code < 0 ==> (r matches Err(e) && e@ == (ErrorView::Krun { op: op@, code })),
    {
        if code < 0 {
            Err(Error::Krun { op, code })
        } else {
            Ok(code as u32)
        }
    }

    /// The error for an identifier that the registry refused.
    pub fn registry(query: &str, e: RegistryError) -> (err: Error)
        ensures
            err@ == refused(query@, e),
    {
        let mut msg = match e {
            RegistryError::NotFound => "no such VM: ".to_owned(),
            RegistryError::Ambiguous => "ambiguous VM ID prefix: ".to_owned(),
            RegistryError::NotStopped => "VM is not stopped: ".to_owned(),
            RegistryError::IdTaken => "VM ID is taken: ".to_owned(),
            RegistryError::NameTaken => "VM name is taken: ".to_owned(),
        };
        msg.append(query);
        match e {
            RegistryError::NotFound => Error::NotFound(msg),
            RegistryError::Ambiguous => Error::Ambiguous(msg),
            _ => Error::Io(msg),
        }
    }

    /// The error as one line of text.
    pub fn message(&self) -> (text: String)
        ensures
            text@ == match self@ {
                ErrorView::Krun { op, code } => op + ": libkrun error code "@ + if code < 0 {
                    "-"@ + digits((-code) as nat, 10)
                } else {
                    digits(code as nat, 10)
                },
                ErrorView::Nul => "interior NUL byte in string argument"@,
                ErrorView::Io(msg) => msg,
                ErrorView::NotFound(msg) => msg,
                ErrorView::Ambiguous(msg) => msg,
                ErrorView::Db(msg) => msg,
                ErrorView::Json(msg) => msg,
            },
    {
        match self {
            Error::Krun { op, code } => {
                let mut text = (*op).to_owned();
                text.append(": libkrun error code ");
                let ghost head = text@;
                if *code < 0 {
                    text.append("-");
                    let n: u64 = (-(*code as i64)) as u64;
                    text.append(decimal(n).as_str());
                    assert(text@ =~= head + ("-"@ + digits((-code) as nat, 10)));
                } else {
                    text.append(decimal(*code as u64).as_str());
                }
                text
            },
            Error::Nul => "interior NUL byte in string argument".to_owned(),
            Error::Io(msg) => msg.clone(),
            Error::NotFound(msg) => msg.clone(),
            Error::Ambiguous(msg) => msg.clone(),
            Error::Db(msg) => msg.clone(),
            Error::Json(msg) => msg.clone(),
        }
    }
}

} // verus!
