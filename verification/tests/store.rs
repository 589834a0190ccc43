use std::collections::HashSet;

use bux::image::{parse_reference, Error, ImageConfig, Reference};
use bux::pull::{
    whiteout, Cached, Ensure, Event, Failure, Layer, Manifest, Oci, Pull, PullResult, Stage, Task,
    Whiteout,
};
use bux::store::{
    digest_string, verify_layer, Dir, ImageMeta, ImageRow, LayerRow, LinkRow, Removal, Store,
    StoreError, StorePath, MAX_SIZE,
};

const D1: &str = "sha256:1111111111111111111111111111111111111111111111111111111111111111";
const D2: &str = "sha256:2222222222222222222222222222222222222222222222222222222222222222";
const M1: &str = "sha256:aaaaaaaaaaaaaaaaaaaaaaaaaaaaaaaaaaaaaaaaaaaaaaaaaaaaaaaaaaaaaaaa";
const M2: &str = "sha256:bbbbbbbbbbbbbbbbbbbbbbbbbbbbbbbbbbbbbbbbbbbbbbbbbbbbbbbbbbbbbbbb";
const C1: &str = "sha256:cccccccccccccccccccccccccccccccccccccccccccccccccccccccccccccccc";

fn layer(digest: &str, size: i64) -> Layer {
    Layer { digest: digest.into(), media_type: "application/vnd.oci.image.layer.v1.tar+gzip".into(), size }
}

fn manifest(layers: Vec<Layer>) -> Manifest {
    Manifest { config_digest: C1.into(), layers }
}

struct Registry {
    calls: usize,
}

/// Carries out the tasks of a pull on a disk that is a set of places.
fn run_pull(
    oci: &mut Oci,
    disk: &mut HashSet<StorePath>,
    registry: &mut Registry,
    image: &str,
    m: &Manifest,
    digest: &str,
) -> Pull {
    let mut pull = oci.pull(image).unwrap();
    loop {
        let event = match pull.task(&oci.store) {
            Task::FetchManifest { .. } => {
                registry.calls += 1;
                Event::Manifest { manifest: m.clone(), digest: digest.into(), config: "{}".into() }
            }
            Task::HasBlob { blob } => Event::Found(disk.contains(&blob)),
            Task::FetchBlob { staging, .. } => {
                registry.calls += 1;
                disk.insert(staging);
                Event::Done
            }
            Task::CommitBlob { staging, blob } => {
                assert!(disk.remove(&staging));
                disk.insert(blob);
                Event::Done
            }
            Task::SaveConfig { path, .. } => {
                disk.insert(path);
                Event::Done
            }
            Task::HasRootfs { rootfs } => Event::Found(disk.contains(&rootfs)),
            Task::ClearStaging { staging } => {
                disk.remove(&staging);
                Event::Done
            }
            Task::Extract { layers, staging } => {
                for (blob, _) in &layers {
                    assert!(disk.contains(blob));
                }
                disk.insert(staging);
                Event::Done
            }
            Task::CommitRootfs { staging, rootfs } => {
                assert!(disk.remove(&staging));
                disk.insert(rootfs);
                Event::Done
            }
            Task::LoadConfig { path } => {
                Event::Loaded(if disk.contains(&path) { Some("{}".into()) } else { None })
            }
            Task::Rest => return pull,
        };
        pull.advance(&mut oci.store, event, "2024-01-01 00:00:00");
    }
}

#[test]
fn reference_is_canonical() {
    let r = parse_reference("alpine:latest").unwrap();
    assert_eq!(
        r,
        Reference {
            registry: "docker.io".into(),
            repository: "library/alpine".into(),
            tag: Some("latest".into()),
            digest: None,
        }
    );
    assert_eq!(r.whole(), "docker.io/library/alpine:latest");
    assert_ne!(r.whole(), "alpine:latest");
    assert_eq!(parse_reference("alpine").unwrap().whole(), "docker.io/library/alpine:latest");
    assert_eq!(
        parse_reference("ghcr.io/org/app:v1").unwrap().whole(),
        "ghcr.io/org/app:v1"
    );
    let with_digest = format!("ghcr.io/org/app@{D1}");
    let r = parse_reference(&with_digest).unwrap();
    assert_eq!(r.tag, None);
    assert_eq!(r.digest.as_deref(), Some(D1));
    assert_eq!(r.whole(), with_digest);
    let both = format!("ghcr.io/org/app:v1@{D1}");
    assert_eq!(parse_reference(&both).unwrap().whole(), both);
}

#[test]
fn whole_leaves_out_what_is_absent() {
    let only_digest = Reference {
        registry: String::new(),
        repository: String::new(),
        tag: None,
        digest: Some("d".into()),
    };
    assert_eq!(only_digest.whole(), "d");
    let empty_tag = Reference {
        registry: String::new(),
        repository: String::new(),
        tag: Some(String::new()),
        digest: Some("d".into()),
    };
    assert_eq!(empty_tag.whole(), "@d");
    let no_registry = Reference {
        registry: String::new(),
        repository: "repo".into(),
        tag: Some("t".into()),
        digest: None,
    };
    assert_eq!(no_registry.whole(), "repo:t");
}

#[test]
fn bad_references_are_invalid() {
    assert_eq!(
        parse_reference(""),
        Err(Error::InvalidReference("repository name must have at least one component".into()))
    );
    assert_eq!(
        parse_reference("UPPER/Case:tag"),
        Err(Error::InvalidReference("invalid reference format".into()))
    );
    assert_eq!(
        parse_reference("app@sha256:abcd"),
        Err(Error::InvalidReference("invalid reference format".into()))
    );
    let oci = Oci { store: Store::new() };
    assert!(matches!(oci.pull("not a ref"), Err(Error::InvalidReference(_))));
    assert!(matches!(oci.ensure("", false), Err(Error::InvalidReference(_))));
    assert!(matches!(oci.probe(""), Err(Error::InvalidReference(_))));
    let mut oci = oci;
    assert!(matches!(oci.remove(""), Err(Error::InvalidReference(_))));
}

#[test]
fn store_paths() {
    let s = Store::new();
    assert_eq!(
        s.layer_path("sha256:abc"),
        StorePath { dir: Dir::Layers, name: "sha256-abc.tar.gz".into() }
    );
    assert_eq!(
        s.layer_staging_path("sha256:abc"),
        StorePath { dir: Dir::Layers, name: "sha256-abc.tar.gz.tmp".into() }
    );
    assert_eq!(
        s.config_path("sha256:abc"),
        StorePath { dir: Dir::Configs, name: "sha256-abc.json".into() }
    );
    assert_eq!(
        s.rootfs_path("sha256:abc"),
        StorePath { dir: Dir::Rootfs, name: "sha256-abc".into() }
    );
    assert_eq!(
        s.rootfs_staging_path("a:b:c"),
        StorePath { dir: Dir::Rootfs, name: "a-b-c.tmp".into() }
    );
}

#[test]
fn verify_layer_checks_the_sha256() {
    let abc = "sha256:ba7816bf8f01cfea414140de5dae2223b00361a396177a9cb410ff61f20015ad";
    assert!(verify_layer(abc, b"abc"));
    assert!(!verify_layer(abc, b"abd"));
    assert!(!verify_layer("ba7816bf8f01cfea414140de5dae2223b00361a396177a9cb410ff61f20015ad", b"abc"));
    assert!(!verify_layer("sha256:616263", b"abc"));
    let empty = "sha256:e3b0c44298fc1c149afbf4c8996fb92427ae41e4649b934ca495991b7852b855";
    assert!(verify_layer(empty, b""));
    assert!(!verify_layer(&empty.to_uppercase(), b""));
}

#[test]
fn digest_strings_are_lower_case_hex() {
    assert_eq!(digest_string(&[]), "sha256:");
    assert_eq!(digest_string(&[0x00, 0x0f, 0xa0, 0xff]), "sha256:000fa0ff");
    let all: Vec<u8> = (0..=255).collect();
    let want: String = all.iter().map(|b| format!("{b:02x}")).collect();
    assert_eq!(digest_string(&all), format!("sha256:{want}"));
}

#[test]
fn store_ensure_by_canonical_reference() {
    let mut s = Store::new();
    assert_eq!(s.probe("r"), None);
    assert_eq!(s.ensure("r", true), Ok(Ensure::Pull(Pull::new("r"))));
    s.upsert_image("r", M1, 0, Some("{\"config\":{}}".into()), &vec![], "t").unwrap();
    assert_eq!(s.probe("r"), Some(s.rootfs_path(M1)));
    assert_eq!(s.ensure("r", false), Ok(Ensure::Pull(Pull::new("r"))));
    assert_eq!(
        s.ensure("r", true),
        Ok(Ensure::Cached(Cached {
            reference: "r".into(),
            digest: M1.into(),
            rootfs: s.rootfs_path(M1),
            config: "{\"config\":{}}".into(),
        }))
    );
    s.upsert_image("r", M2, 0, None, &vec![], "t").unwrap();
    assert_eq!(s.ensure("r", true), Err(Error::Db(StoreError::NoConfig)));
}

#[test]
fn repeated_layer_is_committed_and_linked_once() {
    let mut oci = Oci { store: Store::new() };
    let mut disk = HashSet::new();
    let mut registry = Registry { calls: 0 };
    let m = manifest(vec![layer(D1, 1), layer(D2, 2), layer(D1, 1)]);
    let pull = run_pull(&mut oci, &mut disk, &mut registry, "twice", &m, M1);
    assert_eq!(pull.stage, Stage::Done);
    assert_eq!(oci.store.layers.len(), 2);
    assert!(oci.store.layers.iter().all(|l| l.ref_count == 1));
    assert_eq!(oci.store.links.len(), 2);
    assert_eq!(oci.store.images[0].size, 4);
    assert_eq!(
        oci.remove("twice"),
        Ok(Removal { blobs: vec![D1.into(), D2.into()], rootfs: Some(M1.into()) })
    );
}

#[test]
fn commit_layer_inserts_then_counts() {
    let mut s = Store::new();
    s.commit_layer(D1, "tar+gzip", 10);
    assert_eq!(
        s.layers,
        vec![LayerRow { digest: D1.into(), media_type: "tar+gzip".into(), size: 10, ref_count: 1 }]
    );
    assert!(s.knows_layer(D1) && !s.knows_layer(D2));
    s.commit_layer(D1, "other", 99);
    assert_eq!(s.layers[0].ref_count, 2);
    assert_eq!(s.layers[0].media_type, "tar+gzip");
    assert_eq!(s.layers[0].size, 10);
    s.commit_layer(D2, "tar", u64::MAX);
    assert_eq!(s.layers[1].size, MAX_SIZE);
    s.layers[1].ref_count = i64::MAX;
    s.commit_layer(D2, "tar", 1);
    assert_eq!(s.layers[1].ref_count, i64::MAX);
}

#[test]
fn upsert_image_writes_row_and_links() {
    let mut s = Store::new();
    s.commit_layer(D1, "t", 1);
    s.commit_layer(D2, "t", 2);
    let digests = vec![D1.to_string(), D2.to_string(), D1.to_string()];
    assert_eq!(s.upsert_image("r", M1, 3, Some("{}".into()), &digests, "t0"), Ok(()));
    assert_eq!(
        s.images,
        vec![ImageRow {
            reference: "r".into(),
            digest: M1.into(),
            size: 3,
            config: Some("{}".into()),
            created: "t0".into(),
        }]
    );
    assert_eq!(
        s.links,
        vec![
            LinkRow { image_ref: "r".into(), layer_digest: D1.into(), position: 0 },
            LinkRow { image_ref: "r".into(), layer_digest: D2.into(), position: 1 },
        ]
    );
    assert_eq!(s.get_digest("r").as_deref(), Some(M1));
    assert_eq!(s.get_digest("other"), None);
    assert_eq!(s.load_image_config("r"), Ok(Some("{}".into())));
    assert_eq!(s.load_image_config("other"), Ok(None));

    // Writing the image again replaces its row and its links.
    assert_eq!(s.upsert_image("r", M2, u64::MAX, None, &vec![D2.to_string()], "t1"), Ok(()));
    assert_eq!(s.images.len(), 1);
    assert_eq!(s.images[0].digest, M2);
    assert_eq!(s.images[0].size, MAX_SIZE);
    assert_eq!(s.images[0].created, "t1");
    assert_eq!(
        s.links,
        vec![LinkRow { image_ref: "r".into(), layer_digest: D2.into(), position: 0 }]
    );
    assert_eq!(s.load_image_config("r"), Err(StoreError::NoConfig));
}

#[test]
fn upsert_image_needs_layer_rows() {
    let mut s = Store::new();
    s.commit_layer(D1, "t", 1);
    let before = s.clone();
    let digests = vec![D1.to_string(), D2.to_string()];
    assert_eq!(
        s.upsert_image("r", M1, 3, None, &digests, "t0"),
        Err(StoreError::ForeignKey)
    );
    assert_eq!(s, before);
}

#[test]
fn remove_image_deletes_uncounted_layers() {
    let mut s = Store::new();
    s.commit_layer(D1, "t", 1);
    s.commit_layer(D2, "t", 2);
    s.upsert_image("a", M1, 1, None, &vec![D1.to_string()], "t0").unwrap();
    s.upsert_image("b", M2, 2, None, &vec![D2.to_string()], "t1").unwrap();
    let removal = s.remove_image("a").unwrap();
    assert_eq!(removal, Removal { blobs: vec![D1.into()], rootfs: Some(M1.into()) });
    assert_eq!(s.images.len(), 1);
    assert_eq!(s.images[0].reference, "b");
    assert_eq!(s.layers.len(), 1);
    assert_eq!(s.layers[0].digest, D2);
    assert_eq!(s.layers[0].ref_count, 1);
    assert_eq!(s.links.len(), 1);
    assert!(s.layers.iter().all(|l| l.ref_count > 0));
    // Removing what is not there removes nothing.
    assert_eq!(s.remove_image("a"), Ok(Removal { blobs: vec![], rootfs: None }));
    assert_eq!(s.images.len(), 1);
}

#[test]
fn remove_image_keeps_rootfs_shared_by_digest() {
    let mut s = Store::new();
    s.commit_layer(D1, "t", 1);
    s.commit_layer(D1, "t", 1);
    s.upsert_image("a:1", M1, 1, None, &vec![D1.to_string()], "t0").unwrap();
    s.upsert_image("a:2", M1, 1, None, &vec![D1.to_string()], "t0").unwrap();
    let removal = s.remove_image("a:1").unwrap();
    assert_eq!(removal, Removal { blobs: vec![], rootfs: None });
    assert_eq!(s.layers[0].ref_count, 1);
    let removal = s.remove_image("a:2").unwrap();
    assert_eq!(removal, Removal { blobs: vec![D1.into()], rootfs: Some(M1.into()) });
    assert!(s.layers.is_empty() && s.links.is_empty() && s.images.is_empty());
}

#[test]
fn remove_image_refuses_to_orphan_a_linked_layer() {
    let mut s = Store::new();
    s.commit_layer(D1, "t", 1);
    s.upsert_image("a", M1, 1, None, &vec![D1.to_string()], "t0").unwrap();
    s.upsert_image("b", M2, 1, None, &vec![D1.to_string()], "t1").unwrap();
    let before = s.clone();
    assert_eq!(s.remove_image("a"), Err(StoreError::ForeignKey));
    assert_eq!(s, before);
}

#[test]
fn list_images_newest_first() {
    let mut s = Store::new();
    s.upsert_image("old", M1, 1, None, &vec![], "2024-01-01 00:00:00").unwrap();
    s.upsert_image("new", M2, 2, None, &vec![], "2024-06-01 00:00:00").unwrap();
    s.upsert_image("mid", M1, 3, None, &vec![], "2024-03-01 00:00:00").unwrap();
    s.upsert_image("mid2", M1, 4, None, &vec![], "2024-03-01 00:00:00").unwrap();
    let list = s.list_images();
    let names: Vec<&str> = list.iter().map(|m| m.reference.as_str()).collect();
    assert_eq!(names, vec!["new", "mid", "mid2", "old"]);
    assert_eq!(
        list[0],
        ImageMeta {
            reference: "new".into(),
            digest: M2.into(),
            size: 2,
            created_at: "2024-06-01 00:00:00".into(),
        }
    );
    assert!(Store::new().list_images().is_empty());
    let oci = Oci { store: s };
    assert_eq!(oci.images(), list);
}

#[test]
fn pull_then_ensure() {
    let mut oci = Oci { store: Store::new() };
    let mut disk = HashSet::new();
    let mut registry = Registry { calls: 0 };
    let m = manifest(vec![layer(D1, 100), layer(D2, -5)]);
    assert_eq!(oci.probe("alpine:latest"), Ok(None));
    match oci.ensure("alpine:latest", false).unwrap() {
        Ensure::Pull(p) => assert_eq!(p, Pull::new("docker.io/library/alpine:latest")),
        other => panic!("unexpected {other:?}"),
    }
    let pull = run_pull(&mut oci, &mut disk, &mut registry, "alpine:latest", &m, M1);
    assert_eq!(pull.stage, Stage::Done);
    assert_eq!(pull.error, None);
    assert_eq!(registry.calls, 3);
    let rootfs = StorePath { dir: Dir::Rootfs, name: M1.replace(':', "-") };
    assert!(disk.contains(&rootfs));
    assert!(disk.iter().all(|p| !p.name.ends_with(".tmp")));
    assert_eq!(oci.store.images[0].size, 100);
    assert_eq!(
        pull.result(&oci.store, None),
        Some(PullResult {
            reference: "docker.io/library/alpine:latest".into(),
            digest: M1.into(),
            rootfs: rootfs.clone(),
            config: None,
        })
    );

    let before = registry.calls;
    let probe = oci.probe("alpine:latest").unwrap().unwrap();
    assert_eq!(probe, rootfs);
    let ensured = oci.ensure("alpine:latest", disk.contains(&probe)).unwrap();
    assert_eq!(
        ensured,
        Ensure::Cached(Cached {
            reference: "docker.io/library/alpine:latest".into(),
            digest: M1.into(),
            rootfs,
            config: "{}".into(),
        })
    );
    assert_eq!(registry.calls, before);
    // Without the root filesystem the image is pulled again.
    assert!(matches!(oci.ensure("alpine:latest", false).unwrap(), Ensure::Pull(_)));
}

#[test]
fn second_pull_fetches_only_the_manifest() {
    let mut oci = Oci { store: Store::new() };
    let mut disk = HashSet::new();
    let mut registry = Registry { calls: 0 };
    let m = manifest(vec![layer(D1, 1), layer(D2, 2)]);
    run_pull(&mut oci, &mut disk, &mut registry, "alpine:latest", &m, M1);
    let first = oci.store.clone();
    let disk_before = disk.clone();
    registry.calls = 0;
    let pull = run_pull(&mut oci, &mut disk, &mut registry, "alpine:latest", &m, M1);
    assert_eq!(pull.stage, Stage::Done);
    assert_eq!(registry.calls, 1);
    assert_eq!(oci.store, first);
    assert_eq!(disk, disk_before);
}

#[test]
fn remove_is_ref_counted() {
    let mut oci = Oci { store: Store::new() };
    let mut disk = HashSet::new();
    let mut registry = Registry { calls: 0 };
    let shared = manifest(vec![layer(D1, 1)]);
    run_pull(&mut oci, &mut disk, &mut registry, "one:latest", &shared, M1);
    run_pull(&mut oci, &mut disk, &mut registry, "two:latest", &shared, M2);
    let blob = oci.store.layer_path(D1);
    assert!(disk.contains(&blob));
    // The shared blob was there for the second pull, so it was not counted
    // again: the layer is counted once and linked twice.
    assert_eq!(oci.store.layers[0].ref_count, 1);
    assert_eq!(oci.store.links.len(), 2);
    // Removing either image would take the row of a layer that is still
    // linked: the index refuses, and the blob stays.
    let before = oci.store.clone();
    assert_eq!(oci.remove("one:latest"), Err(Error::Db(StoreError::ForeignKey)));
    assert_eq!(oci.store, before);
    assert!(disk.contains(&blob));

    // Images that share no layer come and go with their blobs.
    let mut oci = Oci { store: Store::new() };
    let mut disk = HashSet::new();
    run_pull(&mut oci, &mut disk, &mut registry, "one:latest", &manifest(vec![layer(D1, 1)]), M1);
    run_pull(&mut oci, &mut disk, &mut registry, "two:latest", &manifest(vec![layer(D2, 1)]), M2);
    let removal = oci.remove("one:latest").unwrap();
    assert_eq!(removal, Removal { blobs: vec![D1.into()], rootfs: Some(M1.into()) });
    for gone in &removal.blobs {
        disk.remove(&oci.store.layer_path(gone));
    }
    assert!(!disk.contains(&oci.store.layer_path(D1)));
    assert!(disk.contains(&oci.store.layer_path(D2)));
    let removal = oci.remove("two:latest").unwrap();
    assert_eq!(removal, Removal { blobs: vec![D2.into()], rootfs: Some(M2.into()) });
}

fn counts_match(store: &Store) -> bool {
    store.layers.iter().all(|l| {
        let links = store.links.iter().filter(|k| k.layer_digest == l.digest).count();
        l.ref_count == links as i64
    })
}

#[test]
fn layer_counts_match_links() {
    let mut oci = Oci { store: Store::new() };
    let mut disk = HashSet::new();
    let mut registry = Registry { calls: 0 };
    let one = manifest(vec![layer(D1, 1), layer(D2, 2)]);
    let two = manifest(vec![layer(C1, 3)]);
    assert!(counts_match(&oci.store));
    run_pull(&mut oci, &mut disk, &mut registry, "one", &one, M1);
    assert!(counts_match(&oci.store));
    run_pull(&mut oci, &mut disk, &mut registry, "two", &two, M2);
    assert!(counts_match(&oci.store));
    // The same image again, as it was pulled before.
    run_pull(&mut oci, &mut disk, &mut registry, "one", &one, M1);
    assert!(counts_match(&oci.store));
    let removal = oci.remove("one").unwrap();
    assert_eq!(removal.blobs, vec![D1, D2]);
    assert!(counts_match(&oci.store));
    oci.remove("two").unwrap();
    assert!(counts_match(&oci.store));
    assert!(oci.store.layers.is_empty() && oci.store.links.is_empty());

    // An image that shares a layer with another breaks the match: the
    // shared blob is there, so the layer is linked again and not counted.
    let mut oci = Oci { store: Store::new() };
    let mut disk = HashSet::new();
    run_pull(&mut oci, &mut disk, &mut registry, "one", &one, M1);
    run_pull(&mut oci, &mut disk, &mut registry, "three", &manifest(vec![layer(D1, 1)]), M2);
    assert!(!counts_match(&oci.store));
}

#[test]
fn interrupted_pull_converges() {
    let m = manifest(vec![layer(D1, 1), layer(D2, 2)]);
    let mut reference_oci = Oci { store: Store::new() };
    let mut reference_disk = HashSet::new();
    let mut registry = Registry { calls: 0 };
    run_pull(&mut reference_oci, &mut reference_disk, &mut registry, "alpine", &m, M1);

    for cut_after in 0..20 {
        let mut oci = Oci { store: Store::new() };
        let mut disk: HashSet<StorePath> = HashSet::new();
        let mut pull = oci.pull("alpine").unwrap();
        for _ in 0..cut_after {
            let event = match pull.task(&oci.store) {
                Task::FetchManifest { .. } => {
                    Event::Manifest { manifest: m.clone(), digest: M1.into(), config: "{}".into() }
                }
                Task::HasBlob { blob } => Event::Found(disk.contains(&blob)),
                Task::HasRootfs { rootfs } => Event::Found(disk.contains(&rootfs)),
                Task::FetchBlob { staging, .. } => {
                    disk.insert(staging);
                    Event::Done
                }
                Task::CommitBlob { staging, blob } => {
                    disk.remove(&staging);
                    disk.insert(blob);
                    Event::Done
                }
                Task::SaveConfig { path, .. } => {
                    disk.insert(path);
                    Event::Done
                }
                Task::ClearStaging { staging } => {
                    disk.remove(&staging);
                    Event::Done
                }
                Task::Extract { staging, .. } => {
                    disk.insert(staging);
                    Event::Done
                }
                Task::CommitRootfs { staging, rootfs } => {
                    disk.remove(&staging);
                    disk.insert(rootfs);
                    Event::Done
                }
                Task::LoadConfig { .. } => Event::Loaded(Some("{}".into())),
                Task::Rest => break,
            };
            pull.advance(&mut oci.store, event, "2024-01-01 00:00:00");
        }
        // Cut in the middle of the next task: what it writes is there in part.
        match pull.task(&oci.store) {
            Task::FetchBlob { staging, .. } | Task::Extract { staging, .. } => {
                disk.insert(staging);
            }
            _ => {}
        }
        let rootfs = oci.store.rootfs_path(M1);
        if pull.stage != Stage::Record && pull.stage != Stage::Done {
            assert!(!disk.contains(&rootfs));
        }
        let pull = run_pull(&mut oci, &mut disk, &mut registry, "alpine", &m, M1);
        assert_eq!(pull.stage, Stage::Done);
        assert_eq!(oci.store, reference_oci.store);
        assert_eq!(disk, reference_disk);
    }
}

#[test]
fn pull_failures() {
    let mut store = Store::new();
    let mut pull = Pull::new("r");
    pull.advance(&mut store, Event::Failed(Failure::Registry("denied".into())), "t");
    assert_eq!(pull.stage, Stage::Failed);
    assert_eq!(pull.error, Some(Error::Registry("denied".into())));
    assert_eq!(pull.task(&store), Task::Rest);
    assert_eq!(pull.result(&store, None), None);

    let mut pull = Pull::new("r");
    let m = manifest(vec![layer(D1, 1)]);
    pull.advance(
        &mut store,
        Event::Manifest { manifest: m.clone(), digest: M1.into(), config: "{}".into() },
        "t",
    );
    assert_eq!(pull.stage, Stage::Probe(0));
    // An outcome that does not answer the task changes nothing.
    let before = pull.clone();
    pull.advance(&mut store, Event::Done, "t");
    pull.advance(&mut store, Event::Loaded(None), "t");
    pull.advance(&mut store, Event::Failed(Failure::Io("x".into())), "t");
    assert_eq!(pull, before);
    pull.advance(&mut store, Event::Found(false), "t");
    assert_eq!(
        pull.task(&store),
        Task::FetchBlob { index: 0, staging: store.layer_staging_path(D1) }
    );
    pull.advance(&mut store, Event::Failed(Failure::Io("disk full".into())), "t");
    assert_eq!(pull.error, Some(Error::Io("disk full".into())));

    // A blob without a row fails the pull when the image is recorded.
    let mut pull = Pull::new("r");
    pull.advance(&mut store, Event::Manifest { manifest: m, digest: M1.into(), config: "{}".into() }, "t");
    pull.advance(&mut store, Event::Found(true), "t");
    assert_eq!(pull.stage, Stage::Config);
    pull.advance(&mut store, Event::Done, "t");
    pull.advance(&mut store, Event::Found(true), "t");
    assert_eq!(pull.stage, Stage::Record);
    pull.advance(&mut store, Event::Loaded(Some("{}".into())), "t");
    assert_eq!(pull.stage, Stage::Failed);
    assert_eq!(pull.error, Some(Error::Db(StoreError::ForeignKey)));
    assert!(store.images.is_empty());
}

#[test]
fn pull_without_layers() {
    let mut oci = Oci { store: Store::new() };
    let mut disk = HashSet::new();
    let mut registry = Registry { calls: 0 };
    let pull = run_pull(&mut oci, &mut disk, &mut registry, "scratch", &manifest(vec![]), M1);
    assert_eq!(pull.stage, Stage::Done);
    assert_eq!(oci.store.images[0].size, 0);
    assert!(oci.store.layers.is_empty());
}

#[test]
fn image_size_is_capped() {
    let mut oci = Oci { store: Store::new() };
    let mut disk = HashSet::new();
    let mut registry = Registry { calls: 0 };
    let m = manifest(vec![layer(D1, i64::MAX), layer(D2, i64::MAX)]);
    run_pull(&mut oci, &mut disk, &mut registry, "big", &m, M1);
    assert_eq!(oci.store.images[0].size, MAX_SIZE);
    assert_eq!(oci.store.layers[0].size, MAX_SIZE);
}

#[test]
fn ensure_without_recorded_config_is_an_error() {
    let mut store = Store::new();
    store.upsert_image("docker.io/library/a:latest", M1, 0, None, &vec![], "t").unwrap();
    let oci = Oci { store };
    assert_eq!(oci.ensure("a", true), Err(Error::Db(StoreError::NoConfig)));
    assert!(matches!(oci.ensure("a", false), Ok(Ensure::Pull(_))));
}

#[test]
fn whiteouts() {
    assert_eq!(whiteout(".wh..wh..opq"), Whiteout::Opaque);
    assert_eq!(whiteout(".wh.etc"), Whiteout::Remove("etc".into()));
    assert_eq!(whiteout(".wh."), Whiteout::Remove(String::new()));
    assert_eq!(whiteout(".wh..wh..opq2"), Whiteout::Remove(".wh..opq2".into()));
    assert_eq!(whiteout("etc"), Whiteout::Plain);
    assert_eq!(whiteout(".wh"), Whiteout::Plain);
    assert_eq!(whiteout(""), Whiteout::Plain);
    assert_eq!(whiteout("a.wh.b"), Whiteout::Plain);
}

#[test]
fn image_config_command() {
    let cfg = ImageConfig {
        cmd: Some(vec!["-c".into(), "true".into()]),
        entrypoint: Some(vec!["/bin/sh".into()]),
        env: None,
        working_dir: None,
        user: None,
        exposed_ports: None,
        labels: None,
    };
    assert_eq!(cfg.command(), vec!["/bin/sh", "-c", "true"]);
    let none = ImageConfig { cmd: None, entrypoint: None, ..cfg.clone() };
    assert!(none.command().is_empty());
    let only_cmd = ImageConfig { entrypoint: None, ..cfg };
    assert_eq!(only_cmd.command(), vec!["-c", "true"]);
}
