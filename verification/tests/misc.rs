use bux::cli::{
    cp, dirs_default_store, exec as exec_request, info, parse_guest_ref, ps, Platform, StoreDir,
    Transfer, COPY_MODE,
};
use bux::disk::{BaseTask, DiskManager};
use bux::image::ImageConfig;
use bux::jail::{close_fd, close_inherited_fds, max_fd, FdRange};
use bux::message::ExecReq;
use bux::registry::{Registry, RegistryError, Status, StopEvent, StopStage, StopTask, VmRecord};
use bux::run::{Root, RunArgs, RunError, Source};
use bux::text::{
    chars_of, decimal, ends_with, find_char, hex, precedes, replace_char, same, split_once,
    starts_with, substring,
};
use bux::vm::{is_port, ConfigError, Error as VmError, LogLevel, VmConfig};

fn args() -> RunArgs {
    RunArgs {
        image: None,
        root: None,
        root_disk: None,
        disk: false,
        name: None,
        detach: false,
        rm: false,
        cpus: 1,
        ram: 512,
        workdir: None,
        ports: vec![],
        volumes: vec![],
        envs: vec![],
        uid: None,
        gid: None,
        rlimit: vec![],
        nested_virt: false,
        snd: false,
        console_output: None,
        log_level: LogLevel::Info,
        command: vec![],
    }
}

fn image_config() -> ImageConfig {
    ImageConfig {
        cmd: Some(vec!["-l".into()]),
        entrypoint: Some(vec!["/bin/ls".into()]),
        env: Some(vec!["PATH=/bin".into()]),
        working_dir: Some("/srv".into()),
        user: None,
        exposed_ports: None,
        labels: None,
    }
}

fn record(id: &str, name: Option<&str>, status: Status) -> VmRecord {
    VmRecord {
        id: id.into(),
        name: name.map(str::to_owned),
        pid: 100,
        image: None,
        status,
        config_json: "{}".into(),
        auto_remove: false,
        created_at: "t".into(),
    }
}

#[test]
fn text_helpers() {
    assert_eq!(chars_of("h\u{e9}llo"), vec!['h', '\u{e9}', 'l', 'l', 'o']);
    assert_eq!(find_char(&chars_of("a=b=c"), '='), 1);
    assert_eq!(find_char(&chars_of("abc"), '='), 3);
    assert_eq!(substring(&chars_of("hello"), 1, 3), "el");
    assert_eq!(split_once("k=v=w", '='), Some(("k".into(), "v=w".into())));
    assert_eq!(split_once("=v", '='), Some(("".into(), "v".into())));
    assert_eq!(split_once("k=", '='), Some(("k".into(), "".into())));
    assert_eq!(split_once("kv", '='), None);
    assert_eq!(replace_char("sha256:a:b", ':', '-'), "sha256-a-b");
    assert!(same("a", "a") && !same("a", "b") && !same("a", "ab"));
    assert!(starts_with("abc", "ab") && starts_with("abc", "") && starts_with("abc", "abc"));
    assert!(!starts_with("abc", "abcd") && !starts_with("abc", "b"));
    assert!(ends_with("a.raw", ".raw") && ends_with("x", "") && !ends_with("raw", ".raw"));
}

#[test]
fn numbers_as_text() {
    for n in [0u64, 1, 9, 10, 11, 99, 100, 255, 256, 4096, u64::MAX, 1 << 63] {
        assert_eq!(decimal(n), n.to_string());
        assert_eq!(hex(n), format!("{n:x}"));
    }
}

#[test]
fn string_order_is_by_code_point() {
    let mut words = vec!["", "a", "ab", "b", "B", "a\u{e9}", "2024-01-01", "2024-01-02", "\u{1f600}"];
    for a in &words {
        for b in &words {
            assert_eq!(precedes(a, b), a < b, "{a:?} {b:?}");
        }
    }
    words.sort();
    for w in words.windows(2) {
        assert!(precedes(w[0], w[1]));
    }
}

#[test]
fn resolve_rootfs_names_the_only_source() {
    assert_eq!(args().resolve_rootfs(), Err(RunError::NoRoot));
    let a = RunArgs { image: Some("alpine".into()), ..args() };
    assert_eq!(a.resolve_rootfs(), Ok(Source::Image("alpine".into())));
    let a = RunArgs { root: Some("/r".into()), ..args() };
    assert_eq!(a.resolve_rootfs(), Ok(Source::Dir("/r".into())));
    let a = RunArgs { root_disk: Some("/d.raw".into()), ..args() };
    assert_eq!(a.resolve_rootfs(), Ok(Source::Disk("/d.raw".into())));
    let a = RunArgs { image: Some("i".into()), root: Some("/r".into()), ..args() };
    assert_eq!(a.resolve_rootfs(), Err(RunError::Conflict));
    let a = RunArgs { root: Some("/r".into()), root_disk: Some("/d".into()), ..args() };
    assert_eq!(a.resolve_rootfs(), Err(RunError::Conflict));
}

#[test]
fn root_prefers_disk_then_new_disk_then_dir() {
    let a = RunArgs { root_disk: Some("/d.raw".into()), disk: true, ..args() };
    assert_eq!(a.root("/rootfs"), Root::Disk("/d.raw".into()));
    let a = RunArgs { disk: true, ..args() };
    assert_eq!(a.root("/rootfs"), Root::NewDisk("/rootfs".into()));
    assert_eq!(a.root(""), Root::Dir("".into()));
    assert_eq!(args().root("/rootfs"), Root::Dir("/rootfs".into()));
}

#[test]
fn run_takes_defaults_from_the_image() {
    let cfg = image_config();
    let vm = args().run(Some("/rootfs".into()), None, Some(&cfg)).unwrap();
    assert_eq!(
        vm,
        VmConfig {
            vcpus: 1,
            ram_mib: 512,
            root: Some("/rootfs".into()),
            root_disk: None,
            workdir: Some("/srv".into()),
            exec_path: Some("/bin/ls".into()),
            exec_args: vec!["-l".into()],
            env: vec!["PATH=/bin".into()],
            ports: vec![],
            virtiofs: vec![],
            rlimits: vec![],
            uid: None,
            gid: None,
            nested_virt: false,
            snd: false,
            console_output: None,
            log_level: LogLevel::Info,
        }
    );
    assert_eq!(vm.validate(8), Ok(()));
}

#[test]
fn run_lets_the_command_line_win() {
    let cfg = image_config();
    let a = RunArgs {
        cpus: 4,
        ram: 2048,
        workdir: Some("/work".into()),
        command: vec!["/bin/sh".into(), "-c".into(), "id".into()],
        envs: vec!["A=1".into()],
        ports: vec!["8080:80".into()],
        volumes: vec!["data:/var/data".into(), "x:/a:b".into()],
        rlimit: vec!["NOFILE=10:20".into()],
        uid: Some(1),
        gid: Some(2),
        nested_virt: true,
        snd: true,
        console_output: Some("/tmp/console".into()),
        log_level: LogLevel::Debug,
        ..args()
    };
    let vm = a.run(None, Some("/d.raw".into()), Some(&cfg)).unwrap();
    assert_eq!(vm.vcpus, 4);
    assert_eq!(vm.ram_mib, 2048);
    assert_eq!((vm.root.clone(), vm.root_disk.as_deref()), (None, Some("/d.raw")));
    assert_eq!(vm.workdir.as_deref(), Some("/work"));
    assert_eq!(vm.exec_path.as_deref(), Some("/bin/sh"));
    assert_eq!(vm.exec_args, vec!["-c", "id"]);
    assert_eq!(vm.env, vec!["PATH=/bin", "A=1"]);
    assert_eq!(vm.ports, vec!["8080:80"]);
    assert_eq!(
        vm.virtiofs,
        vec![("data".into(), "/var/data".into()), ("x".into(), "/a:b".into())]
    );
    assert_eq!(vm.rlimits, vec!["NOFILE=10:20"]);
    assert_eq!((vm.uid, vm.gid, vm.nested_virt, vm.snd), (Some(1), Some(2), true, true));
    assert_eq!(vm.console_output.as_deref(), Some("/tmp/console"));
    assert_eq!(vm.log_level, LogLevel::Debug);
}

#[test]
fn run_without_image_or_command() {
    let vm = args().run(Some("/r".into()), None, None).unwrap();
    assert_eq!(vm.exec_path, None);
    assert!(vm.exec_args.is_empty() && vm.env.is_empty());
    assert_eq!(vm.workdir, None);
    // An empty working directory on the command line is no working
    // directory, and the image's is not looked at.
    let a = RunArgs { workdir: Some(String::new()), ..args() };
    assert_eq!(a.run(Some("/r".into()), None, Some(&image_config())).unwrap().workdir, None);
    let empty = ImageConfig { working_dir: Some(String::new()), ..image_config() };
    assert_eq!(args().run(Some("/r".into()), None, Some(&empty)).unwrap().workdir, None);
}

#[test]
fn run_refuses_a_volume_without_colon() {
    let a = RunArgs { volumes: vec!["a:/b".into(), "nocolon".into(), "alsonone".into()], ..args() };
    assert_eq!(a.run(Some("/r".into()), None, None), Err(RunError::BadVolume(1)));
}

#[test]
fn port_syntax() {
    for ok in ["8080:80", "1:1", "0:65535", "00080:0080"] {
        assert!(is_port(ok), "{ok}");
    }
    for bad in ["", ":", "80", "80:", ":80", "a:80", "80:b", "80:80:80", "8 0:80", "-1:80", "80:8\u{660}"] {
        assert!(!is_port(bad), "{bad}");
    }
}

#[test]
fn validate_names_the_first_violation() {
    let good = args().run(Some("/r".into()), None, None).unwrap();
    assert_eq!(good.validate(1), Ok(()));
    let c = VmConfig { root: None, ..good.clone() };
    assert_eq!(c.validate(8), Err(ConfigError::NoRoot));
    let c = VmConfig { root_disk: Some("/d".into()), vcpus: 0, ..good.clone() };
    assert_eq!(c.validate(8), Err(ConfigError::TwoRoots));
    let c = VmConfig { vcpus: 0, ports: vec!["x".into()], ..good.clone() };
    assert_eq!(c.validate(8), Err(ConfigError::NoCpus));
    let c = VmConfig { vcpus: 9, ..good.clone() };
    assert_eq!(c.validate(8), Err(ConfigError::TooManyCpus));
    assert_eq!(VmConfig { vcpus: 8, ..good.clone() }.validate(8), Ok(()));
    let c = VmConfig {
        ports: vec!["1:2".into(), "bad".into(), "worse".into()],
        virtiofs: vec![("t".into(), "/a".into()), ("t".into(), "/b".into())],
        ..good.clone()
    };
    assert_eq!(c.validate(8), Err(ConfigError::BadPort(1)));
    let c = VmConfig {
        virtiofs: vec![
            ("a".into(), "/1".into()),
            ("b".into(), "/2".into()),
            ("a".into(), "/3".into()),
            ("b".into(), "/4".into()),
        ],
        ..good.clone()
    };
    assert_eq!(c.validate(8), Err(ConfigError::DuplicateTag(2)));
    let c = VmConfig {
        virtiofs: vec![("a".into(), "/1".into()), ("b".into(), "/1".into())],
        ..good
    };
    assert_eq!(c.validate(8), Ok(()));
}

#[test]
fn resolution_prefers_names_over_id_prefixes() {
    let mut reg = Registry::new();
    reg.insert(record("abc123", Some("web"), Status::Running)).unwrap();
    reg.insert(record("abd456", Some("db"), Status::Running)).unwrap();
    reg.insert(record("web999", None, Status::Running)).unwrap();
    reg.insert(record("db0000", Some("abc123"), Status::Stopped)).unwrap();
    // A name wins over an ID that starts the same, or is the same.
    assert_eq!(reg.resolve("web"), Ok(0));
    assert_eq!(reg.resolve("abc123"), Ok(3));
    // A unique prefix of an ID.
    assert_eq!(reg.resolve("abc"), Ok(0));
    assert_eq!(reg.resolve("abd456"), Ok(1));
    assert_eq!(reg.resolve("w"), Ok(2));
    // Ambiguous prefixes fail.
    assert_eq!(reg.resolve("ab"), Err(RegistryError::Ambiguous));
    assert_eq!(reg.resolve("a"), Err(RegistryError::Ambiguous));
    assert_eq!(reg.resolve(""), Err(RegistryError::Ambiguous));
    assert_eq!(reg.resolve("d"), Ok(3));
    // Nothing matches.
    assert_eq!(reg.resolve("zzz"), Err(RegistryError::NotFound));
    assert_eq!(reg.resolve("abc1234"), Err(RegistryError::NotFound));
    assert_eq!(Registry::new().resolve(""), Err(RegistryError::NotFound));
}

#[test]
fn registry_keeps_ids_and_names_unique() {
    let mut reg = Registry::new();
    reg.insert(record("a1", Some("n"), Status::Running)).unwrap();
    assert_eq!(reg.insert(record("a1", None, Status::Running)), Err(RegistryError::IdTaken));
    assert_eq!(reg.insert(record("a1", Some("n"), Status::Running)), Err(RegistryError::IdTaken));
    assert_eq!(reg.insert(record("b2", Some("n"), Status::Running)), Err(RegistryError::NameTaken));
    assert_eq!(reg.records.len(), 1);
    reg.insert(record("b2", None, Status::Running)).unwrap();
    reg.insert(record("c3", None, Status::Running)).unwrap();
    assert_eq!(reg.records.len(), 3);
}

#[test]
fn list_downgrades_dead_vms() {
    let mut reg = Registry::new();
    reg.insert(record("a", None, Status::Running)).unwrap();
    reg.insert(record("b", None, Status::Running)).unwrap();
    reg.insert(record("c", None, Status::Unknown)).unwrap();
    reg.insert(record("d", None, Status::Stopped)).unwrap();
    reg.list(&vec![true, false, false]);
    let status: Vec<Status> = reg.records.iter().map(|r| r.status).collect();
    assert_eq!(status, vec![Status::Running, Status::Stopped, Status::Stopped, Status::Stopped]);
    assert_eq!(reg.records[1], record("b", None, Status::Stopped));
}

#[test]
fn remove_requires_a_stopped_vm() {
    let mut reg = Registry::new();
    reg.insert(record("a1", Some("up"), Status::Running)).unwrap();
    reg.insert(record("b2", Some("down"), Status::Stopped)).unwrap();
    reg.insert(record("b3", None, Status::Unknown)).unwrap();
    assert_eq!(reg.remove("up"), Err(RegistryError::NotStopped));
    assert_eq!(reg.remove("b3"), Err(RegistryError::NotStopped));
    assert_eq!(reg.remove("b"), Err(RegistryError::Ambiguous));
    assert_eq!(reg.remove("zz"), Err(RegistryError::NotFound));
    assert_eq!(reg.records.len(), 3);
    assert_eq!(reg.remove("down"), Ok(record("b2", Some("down"), Status::Stopped)));
    assert_eq!(reg.records.len(), 2);
    assert_eq!(reg.resolve("b"), Ok(1));
}

#[test]
fn stop_is_graceful_then_forceful() {
    let s = StopStage::Ask;
    assert_eq!(s.task(), StopTask::Shutdown);
    let s = s.next(StopEvent::Asked);
    assert_eq!(s.task(), StopTask::Wait);
    assert_eq!(s.next(StopEvent::Exited), StopStage::Done);
    let s = s.next(StopEvent::TimedOut);
    assert_eq!(s.task(), StopTask::Kill);
    let s = s.next(StopEvent::Killed);
    assert_eq!(s, StopStage::Done);
    assert_eq!(s.task(), StopTask::Mark);
    // Out of turn.
    assert_eq!(StopStage::Ask.next(StopEvent::TimedOut), StopStage::Ask);
    assert_eq!(StopStage::Ask.next(StopEvent::Killed), StopStage::Ask);
    assert_eq!(StopStage::Wait.next(StopEvent::Killed), StopStage::Wait);
    assert_eq!(StopStage::Kill.next(StopEvent::Exited), StopStage::Done);
    assert_eq!(StopStage::Done.next(StopEvent::Asked), StopStage::Done);
}

#[test]
fn disk_create_idempotent() {
    let mut dm = DiskManager::open(&vec![], &vec![]);
    assert!(!dm.has_base("abc"));
    let first = dm.create_base("abc");
    assert_eq!(
        first,
        BaseTask::Build { tmp: "abc.raw.tmp".into(), name: "abc.raw".into() }
    );
    dm.base_created("abc");
    assert!(dm.has_base("abc"));
    let second = dm.create_base("abc");
    assert_eq!(second, BaseTask::Ready { name: "abc.raw".into() });
    assert_eq!(dm.base_path("abc"), "abc.raw");
    dm.base_created("abc");
    assert_eq!(dm.bases, vec!["abc"]);
}

#[test]
fn disk_manager_lists_and_removes() {
    let files = vec!["a.raw".to_string(), "b.raw.tmp".into(), "c".into(), ".raw".into(), "d.raw".into()];
    let mut dm = DiskManager::open(&files, &vec!["vm1.raw".to_string()]);
    assert_eq!(dm.list_bases(), vec!["a", "", "d"]);
    assert_eq!(dm.vms, vec!["vm1"]);
    assert_eq!(dm.vm_disk_path("vm1"), "vm1.raw");
    assert_eq!(dm.create_vm_disk("vm2"), "vm2.raw");
    assert_eq!(dm.create_vm_disk("vm2"), "vm2.raw");
    assert_eq!(dm.vms, vec!["vm1", "vm2"]);
    assert_eq!(dm.remove_vm_disk("vm1"), Some("vm1.raw".into()));
    assert_eq!(dm.remove_vm_disk("vm1"), None);
    assert_eq!(dm.remove_base("a"), Some("a.raw".into()));
    assert_eq!(dm.remove_base("a"), None);
    assert_eq!(dm.list_bases(), vec!["", "d"]);
}

#[test]
fn fds_from_three_on_are_closed() {
    assert_eq!(close_inherited_fds(None), vec![FdRange { first: 3, last: u32::MAX }]);
    assert_eq!(
        close_inherited_fds(Some(7)),
        vec![FdRange { first: 3, last: 6 }, FdRange { first: 8, last: u32::MAX }]
    );
    assert_eq!(
        close_inherited_fds(Some(4)),
        vec![FdRange { first: 3, last: 3 }, FdRange { first: 5, last: u32::MAX }]
    );
    assert_eq!(close_inherited_fds(Some(3)), vec![FdRange { first: 4, last: u32::MAX }]);
    for keep in [2, 1, 0, -1, i32::MIN] {
        assert_eq!(close_inherited_fds(Some(keep)), vec![FdRange { first: 3, last: u32::MAX }]);
    }
    assert_eq!(
        close_inherited_fds(Some(i32::MAX)),
        vec![
            FdRange { first: 3, last: i32::MAX as u32 - 1 },
            FdRange { first: i32::MAX as u32 + 1, last: u32::MAX }
        ]
    );
    for keep in [None, Some(5), Some(3), Some(0)] {
        let ranges = close_inherited_fds(keep);
        for fd in 0..64 {
            let covered = ranges.iter().any(|r| r.first <= fd && fd <= r.last);
            assert_eq!(covered, close_fd(keep, fd as i32));
            assert_eq!(covered, fd >= 3 && Some(fd as i32) != keep);
        }
    }
}

#[test]
fn max_fd_falls_back_to_1024() {
    assert_eq!(max_fd(0), 1024);
    assert_eq!(max_fd(-1), 1024);
    assert_eq!(max_fd(65536), 65536);
    assert_eq!(max_fd(1), 1);
    assert_eq!(max_fd(i64::MAX), i32::MAX);
    assert_eq!(max_fd(i32::MAX as i64), i32::MAX);
}

#[test]
fn guest_refs() {
    assert_eq!(parse_guest_ref("vm1:/etc/hosts"), Some(("vm1".into(), "/etc/hosts".into())));
    assert_eq!(parse_guest_ref("vm1:"), Some(("vm1".into(), "".into())));
    assert_eq!(parse_guest_ref("a:b:c"), Some(("a".into(), "b:c".into())));
    assert_eq!(parse_guest_ref(":/etc/hosts"), None);
    assert_eq!(parse_guest_ref("/etc/hosts"), None);
    assert_eq!(parse_guest_ref(""), None);
}

#[test]
fn cp_needs_exactly_one_guest_side() {
    assert_eq!(
        cp("vm:/etc/hosts", "./hosts"),
        Some(Transfer::FromGuest {
            id: "vm".into(),
            guest_path: "/etc/hosts".into(),
            host_path: "./hosts".into(),
        })
    );
    assert_eq!(
        cp("./hosts", "vm:/etc/hosts"),
        Some(Transfer::ToGuest {
            id: "vm".into(),
            guest_path: "/etc/hosts".into(),
            host_path: "./hosts".into(),
            mode: 0o644,
        })
    );
    assert_eq!(COPY_MODE, 0o644);
    assert_eq!(cp("a:/x", "b:/y"), None);
    assert_eq!(cp("/x", "/y"), None);
}

#[test]
fn exec_request_from_words() {
    assert_eq!(exec_request(vec![]), None);
    assert_eq!(exec_request(vec!["ls".into()]), Some(ExecReq::new("ls")));
    assert_eq!(
        exec_request(vec!["ls".into(), "-l".into(), "/".into()]),
        Some(ExecReq::new("ls").args(vec!["-l".into(), "/".into()]))
    );
}

#[test]
fn status_labels() {
    assert_eq!(ps(Status::Running), "running");
    assert_eq!(ps(Status::Stopped), "stopped");
    assert_eq!(ps(Status::Unknown), "unknown");
}

#[test]
fn stopped_marks_or_removes() {
    let mut reg = Registry::new();
    reg.insert(record("a1", Some("keep"), Status::Running)).unwrap();
    let mut auto = record("b2", Some("gone"), Status::Running);
    auto.auto_remove = true;
    reg.insert(auto.clone()).unwrap();
    assert_eq!(reg.stopped("keep"), Ok(None));
    assert_eq!(reg.records[0].status, Status::Stopped);
    assert_eq!(reg.records.len(), 2);
    auto.status = Status::Stopped;
    assert_eq!(reg.stopped("b"), Ok(Some(auto)));
    assert_eq!(reg.records.len(), 1);
    assert_eq!(reg.stopped("b"), Err(RegistryError::NotFound));
    assert_eq!(reg.stopped("keep"), Ok(None));
}

#[test]
fn vm_errors() {
    assert_eq!(VmError::krun("krun_create_ctx", 0), Ok(0));
    assert_eq!(VmError::krun("krun_create_ctx", 7), Ok(7));
    assert_eq!(
        VmError::krun("krun_start_enter", -22),
        Err(VmError::Krun { op: "krun_start_enter", code: -22 })
    );
    assert_eq!(
        VmError::Krun { op: "krun_start_enter", code: -22 }.message(),
        "krun_start_enter: libkrun error code -22"
    );
    assert_eq!(
        VmError::Krun { op: "x", code: i32::MIN }.message(),
        format!("x: libkrun error code {}", i32::MIN)
    );
    assert_eq!(VmError::Krun { op: "x", code: 5 }.message(), "x: libkrun error code 5");
    assert_eq!(VmError::Nul.message(), "interior NUL byte in string argument");
    assert_eq!(
        VmError::registry("abc", RegistryError::NotFound),
        VmError::NotFound("no such VM: abc".into())
    );
    assert_eq!(
        VmError::registry("a", RegistryError::Ambiguous),
        VmError::Ambiguous("ambiguous VM ID prefix: a".into())
    );
    assert_eq!(
        VmError::registry("a", RegistryError::NotStopped),
        VmError::Io("VM is not stopped: a".into())
    );
    assert_eq!(
        VmError::registry("a", RegistryError::IdTaken),
        VmError::Io("VM ID is taken: a".into())
    );
    assert_eq!(
        VmError::registry("n", RegistryError::NameTaken).message(),
        "VM name is taken: n"
    );
    for e in [
        VmError::Io("io".into()),
        VmError::Db("db".into()),
        VmError::Json("json".into()),
        VmError::NotFound("nf".into()),
        VmError::Ambiguous("amb".into()),
    ] {
        assert!(["io", "db", "json", "nf", "amb"].contains(&e.message().as_str()));
    }
}

#[test]
fn feature_line() {
    assert_eq!(info(&vec![]), "none");
    assert_eq!(info(&vec!["net".into()]), "net");
    assert_eq!(info(&vec!["net".into(), "blk".into(), "gpu".into()]), "net, blk, gpu");
}

#[test]
fn default_store_directory() {
    let s = |v: &str| Some(v.to_string());
    let relative = StoreDir { base: None, sub: "bux" };
    assert_eq!(
        dirs_default_store(Platform::Linux, s("/b"), s("/x"), s("/h"), s("/l")),
        StoreDir { base: s("/b"), sub: "" }
    );
    assert_eq!(
        dirs_default_store(Platform::Linux, None, s("/x"), s("/h"), s("/l")),
        StoreDir { base: s("/x"), sub: "bux" }
    );
    assert_eq!(
        dirs_default_store(Platform::Linux, None, None, s("/h"), s("/l")),
        StoreDir { base: s("/h"), sub: ".local/share/bux" }
    );
    assert_eq!(dirs_default_store(Platform::Linux, None, None, None, s("/l")), relative);
    assert_eq!(
        dirs_default_store(Platform::MacOs, None, s("/x"), s("/h"), None),
        StoreDir { base: s("/h"), sub: "Library/Application Support/bux" }
    );
    assert_eq!(dirs_default_store(Platform::MacOs, None, s("/x"), None, None), relative);
    assert_eq!(
        dirs_default_store(Platform::Windows, None, s("/x"), s("/h"), s("C:\\l")),
        StoreDir { base: s("C:\\l"), sub: "bux" }
    );
    assert_eq!(dirs_default_store(Platform::Windows, None, s("/x"), s("/h"), None), relative);
    assert_eq!(dirs_default_store(Platform::Other, None, s("/x"), s("/h"), s("/l")), relative);
    assert_eq!(
        dirs_default_store(Platform::Other, s(""), None, None, None),
        StoreDir { base: s(""), sub: "" }
    );
}
