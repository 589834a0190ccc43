//! Decisions of the command-line front-end that do not depend on how the
//! arguments were read or how the results are printed.

use vstd::prelude::*;
use vstd::string::StringExecFns;
use crate::message::{ExecReq, ExecReqView};
use crate::registry::Status;
use crate::text::{split_once, split_once_spec, strs};

verus! {

/// Permission mode of a file copied into a guest.
pub const COPY_MODE: u32 = 0o644;

/// What `id:path` stands for: the VM and the path inside it. `None` for a
/// string without a colon or with nothing before it.
pub open spec fn guest_ref(s: Seq<char>) -> Option<(Seq<char>, Seq<char>)> {
    match split_once_spec(s, ':') {
        Some((id, path)) => if id.len() > 0 {
            Some((id, path))
        } else {
            None
        },
        None => None,
    }
}

/// Parses `id:path` guest reference. Returns `(id, guest_path)`.
pub fn parse_guest_ref(s: &str) -> (r: Option<(String, String)>)
    ensures
        match r {
            Some((id, path)) => guest_ref(s@) == Some((id@, path@)),
            None => guest_ref(s@) is None,
        },
{
    match split_once(s, ':') {
        Some((id, path)) => {
            if id.as_str().unicode_len() > 0 {
                Some((id, path))
            } else {
                None
            }
        },
        None => None,
    }
}

/// A copy between the host and a VM.
#[derive(Debug, Clone, PartialEq, Eq)]
pub enum Transfer {
    /// Read `guest_path` in the VM `id` and write it to `host_path`.
    FromGuest { id: String, guest_path: String, host_path: String },
    /// Read `host_path` and write it to `guest_path` in the VM `id`, with
    /// this permission mode.
    ToGuest { id: String, guest_path: String, host_path: String, mode: u32 },
}

/// Mathematical value of a [`Transfer`].
pub enum TransferView {
    FromGuest { id: Seq<char>, guest_path: Seq<char>, host_path: Seq<char> },
    ToGuest { id: Seq<char>, guest_path: Seq<char>, host_path: Seq<char>, mode: u32 },
}

impl View for Transfer {
    type V = TransferView;

    open spec fn view(&self) -> TransferView {
        match *self {
            Transfer::FromGuest { id, guest_path, host_path } => TransferView::FromGuest {
                id: id@,
                guest_path: guest_path@,
                host_path: host_path@,
            },
            Transfer::ToGuest { id, guest_path, host_path, mode } => TransferView::ToGuest {
                id: id@,
                guest_path: guest_path@,
                host_path: host_path@,
                mode,
            },
        }
    }
}

/// The copy that a source and a destination describe: exactly one of them
/// must be of the form `id:path`.
pub open spec fn cp_spec(src: Seq<char>, dst: Seq<char>) -> Option<TransferView> {
    match (guest_ref(src), guest_ref(dst)) {
        (Some((id, guest_path)), None) => Some(
            TransferView::FromGuest { id, guest_path, host_path: dst },
        ),
        (None, Some((id, guest_path))) => Some(
            TransferView::ToGuest { id, guest_path, host_path: src, mode: COPY_MODE },
        ),
        _ => None,
    }
}

/// Decides the direction of a copy between the host and a VM. `None` when
/// both or neither of the two names a guest path.
pub fn cp(src: &str, dst: &str) -> (r: Option<Transfer>)
    ensures
        match r {
            Some(copy) => cp_spec(src@, dst@) == Some(copy@),
            None => cp_spec(src@, dst@) is None,
        },
{
    match (parse_guest_ref(src), parse_guest_ref(dst)) {
        (Some((id, guest_path)), None) => Some(
            Transfer::FromGuest { id, guest_path, host_path: dst.to_owned() },
        ),
        (None, Some((id, guest_path))) => Some(
            Transfer::ToGuest { id, guest_path, host_path: src.to_owned(), mode: COPY_MODE },
        ),
        _ => None,
    }
}

/// The request for a command line: its first word is the command, the rest
/// are the arguments. `None` for an empty command line.
pub fn exec(command: Vec<String>) -> (r: Option<ExecReq>)
    ensures
        match r {
            Some(req) => command@.len() > 0 && req@ == (ExecReqView {
                cmd: strs(command@)[0],
                args: strs(command@).skip(1),
                env: Seq::empty(),
                cwd: None,
                uid: None,
                gid: None,
                stdin: false,
            }),
            None => command@.len() == 0,
        },
{
    let mut args = command;
    if args.len() == 0 {
        return None;
    }
    let ghost all = strs(args@);
    let cmd = args.remove(0);
    proof {
        assert(all[0] == cmd@);
        assert(strs(args@) =~= all.skip(1));
    }
    Some(ExecReq::new(cmd.as_str()).args(args))
}

/// The word that the VM list shows for a status.
pub fn ps(status: Status) -> (label: &'static str)
    ensures
        label@ == match status {
            Status::Running => "running"@,
            Status::Stopped => "stopped"@,
            Status::Unknown => "unknown"@,
        },
{
    match status {
        Status::Running => "running",
        Status::Stopped => "stopped",
        Status::Unknown => "unknown",
    }
}

/// The names joined with `, `.
pub open spec fn joined(names: Seq<Seq<char>>) -> Seq<char>
    decreases names.len(),
{
    if names.len() == 0 {
        Seq::empty()
    } else if names.len() == 1 {
        names[0]
    } else {
        joined(names.drop_last()) + ", "@ + names.last()
    }
}

/// The line that tells which features the VMM supports: their names joined
/// with `, `, or `none`.
pub fn info(supported: &Vec<String>) -> (label: String)
    ensures
        label@ == if supported@.len() == 0 {
            "none"@
        } else {
            joined(strs(supported@))
        },
{
    if supported.len() == 0 {
        return "none".to_owned();
    }
    let ghost all = strs(supported@);
    let mut label = supported[0].clone();
    let mut i: usize = 1;
    assert(all.take(1) =~= seq![supported@[0]@]);
    while i < supported.len()
        invariant
            1 <= i <= supported.len(),
            all == strs(supported@),
            label@ == joined(all.take(i as int)),
        decreases supported.len() - i,
    {
        proof {
            assert(all.take(i + 1).drop_last() =~= all.take(i as int));
            assert(all.take(i + 1).last() == supported@[i as int]@);
        }
        label.append(", ");
        label.append(supported[i].as_str());
        i += 1;
    }
    assert(all.take(supported.len() as int) =~= all);
    label
}

/// The platform that the program runs on.
#[derive(Debug, Clone, Copy, PartialEq, Eq, Structural)]
pub enum Platform {
    Linux,
    MacOs,
    Windows,
    Other,
}

/// Where the store lies by default: `sub` below `base`; without a base,
/// below the working directory.
#[derive(Debug, Clone, PartialEq, Eq)]
pub struct StoreDir {
    /// The directory to start from, taken from the environment.
    pub base: Option<String>,
    /// The path below it; empty for the base itself.
    pub sub: &'static str,
}

/// Mathematical value of a [`StoreDir`].
pub struct StoreDirView {
    pub base: Option<Seq<char>>,
    pub sub: Seq<char>,
}

impl View for StoreDir {
    type V = StoreDirView;

    open spec fn view(&self) -> StoreDirView {
        StoreDirView { base: crate::text::opt_str(self.base), sub: self.sub@ }
    }
}

/// The default store directory: `BUX_HOME` if it is set; else the
/// platform's data directory with `bux` in it; else `bux`.
pub open spec fn default_store_spec(
    platform: Platform,
    bux_home: Option<Seq<char>>,
    xdg_data_home: Option<Seq<char>>,
    home: Option<Seq<char>>,
    local_app_data: Option<Seq<char>>,
) -> StoreDirView {
    let fallback = StoreDirView { base: None, sub: "bux"@ };
    match bux_home {
        Some(dir) => StoreDirView { base: Some(dir), sub: ""@ },
        None => match platform {
            Platform::Linux => match xdg_data_home {
                Some(dir) => StoreDirView { base: Some(dir), sub: "bux"@ },
                None => match home {
                    Some(dir) => StoreDirView { base: Some(dir), sub: ".local/share/bux"@ },
                    None => fallback,
                },
            },
            Platform::MacOs => match home {
                Some(dir) => StoreDirView {
                    base: Some(dir),
                    sub: "Library/Application Support/bux"@,
                },
                None => fallback,
            },
            Platform::Windows => match local_app_data {
                Some(dir) => StoreDirView { base: Some(dir), sub: "bux"@ },
                None => fallback,
            },
            Platform::Other => fallback,
        },
    }
}

/// Returns the default store directory, given the platform and the values
/// of `BUX_HOME`, `XDG_DATA_HOME`, `HOME` and `LOCALAPPDATA` where they are
/// set.
pub fn dirs_default_store(
    platform: Platform,
    bux_home: Option<String>,
    xdg_data_home: Option<String>,
    home: Option<String>,
    local_app_data: Option<String>,
) -> (dir: StoreDir)
    ensures
        dir@ == default_store_spec(
            platform,
            crate::text::opt_str(bux_home),
            crate::text::opt_str(xdg_data_home),
            crate::text::opt_str(home),
            crate::text::opt_str(local_app_data),
        ),
{
    if let Some(dir) = bux_home {
        return StoreDir { base: Some(dir), sub: "" };
    }
    match platform {
        Platform::Linux => {
            if let Some(dir) = xdg_data_home {
                return StoreDir { base: Some(dir), sub: "bux" };
            }
            if let Some(dir) = home {
                return StoreDir { base: Some(dir), sub: ".local/share/bux" };
            }
        },
        Platform::MacOs => {
            if let Some(dir) = home {
                return StoreDir { base: Some(dir), sub: "Library/Application Support/bux" };
            }
        },
        Platform::Windows => {
            if let Some(dir) = local_app_data {
                return StoreDir { base: Some(dir), sub: "bux" };
            }
        },
        Platform::Other => {},
    }
    StoreDir { base: None, sub: "bux" }
}

} // verus!
