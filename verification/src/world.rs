//! What the tasks of a pull do to the files of the store, and what follows
//! for a pull that is interrupted and for the image once it is pulled.
//!
//! The disk is modelled by the places that hold something: whole, or in
//! part. A world is a pull with the store's index and the disk. One turn
//! carries out the pull's current task on the disk, reports its outcome to
//! the pull, and so moves the world on.

use vstd::prelude::*;
use crate::counts::{commits, first_of};
use crate::image::{reference_of, ErrorView};
use crate::invariants::{lemma_commit_layer_wf, lemma_upsert_image_wf};
use crate::pull::{
    ensure_spec, image_size, layer_digest, layer_size, CachedView, EnsureView, EventView,
    ManifestView, PullView, Stage, TaskView,
};
use crate::store::{
    config_path_spec, flat, layer_path_spec, layer_staging_path_spec, links_for, of_others,
    recorded_size, rootfs_path_spec, rootfs_staging_path_spec, ImageRowView, StorePathView,
    StoreView,
};

verus! {

/// The files and directories of the store.
pub struct Disk {
    /// The places that hold a complete file or directory.
    pub whole: Set<StorePathView>,
    /// The places that hold something incomplete.
    pub partial: Set<StorePathView>,
}

impl Disk {
    /// Whether the place holds anything.
    pub open spec fn has(self, p: StorePathView) -> bool {
        self.whole.contains(p) || self.partial.contains(p)
    }

    /// The disk with nothing at `p`.
    pub open spec fn without(self, p: StorePathView) -> Disk {
        Disk { whole: self.whole.remove(p), partial: self.partial.remove(p) }
    }

    /// The disk with a complete file or directory at `p`.
    pub open spec fn written(self, p: StorePathView) -> Disk {
        Disk { whole: self.whole.insert(p), partial: self.partial.remove(p) }
    }

    /// The disk with something incomplete at `p`.
    pub open spec fn torn(self, p: StorePathView) -> Disk {
        Disk { whole: self.whole.remove(p), partial: self.partial.insert(p) }
    }

    /// The disk after what is at `from` has been renamed to `to`: it is at
    /// `to` as it was at `from`, and `from` is empty.
    pub open spec fn renamed(self, from: StorePathView, to: StorePathView) -> Disk {
        if self.whole.contains(from) {
            self.without(from).written(to)
        } else if self.partial.contains(from) {
            self.without(from).torn(to)
        } else {
            self
        }
    }

    /// The disk after a task has been carried out.
    pub open spec fn after(self, task: TaskView) -> Disk {
        match task {
            TaskView::FetchBlob { staging, .. } => self.written(staging),
            TaskView::CommitBlob { staging, blob } => self.renamed(staging, blob),
            TaskView::SaveConfig { path, .. } => if self.has(path) {
                self
            } else {
                self.written(path)
            },
            TaskView::ClearStaging { staging } => self.without(staging),
            TaskView::Extract { staging, .. } => if self.has(staging) {
                self.torn(staging)
            } else {
                self.written(staging)
            },
            TaskView::CommitRootfs { staging, rootfs } => if self.has(rootfs) {
                self.without(staging)
            } else {
                self.renamed(staging, rootfs)
            },
            _ => self,
        }
    }

    /// The disk when a task was interrupted midway. A download and an
    /// extraction leave their staging place filled in part, a removal
    /// leaves it emptied in part. A rename has happened or has not.
    pub open spec fn cut(self, task: TaskView) -> Disk {
        match task {
            TaskView::FetchBlob { staging, .. } => self.torn(staging),
            TaskView::Extract { staging, .. } => self.torn(staging),
            TaskView::ClearStaging { staging } => if self.has(staging) {
                self.torn(staging)
            } else {
                self
            },
            _ => self,
        }
    }

    /// Nothing incomplete is visible: what is there in part lies at a
    /// staging place, one whose name ends in `.tmp`.
    pub open spec fn safe(self) -> bool {
        forall|p: StorePathView|
            self.partial.contains(p) ==> ".tmp"@.is_suffix_of(#[trigger] p.name)
    }
}

/// What the registry answers for an image.
pub struct Answer {
    pub manifest: ManifestView,
    pub digest: Seq<char>,
    pub config: Seq<char>,
}

/// A pull with the index and the disk it works on.
pub struct World {
    pub pull: PullView,
    pub store: StoreView,
    pub disk: Disk,
}

impl World {
    /// The outcome of the pull's current task when nothing fails.
    pub open spec fn report(self, answer: Answer) -> EventView {
        match self.pull.task() {
            TaskView::FetchManifest { .. } => EventView::Manifest {
                manifest: answer.manifest,
                digest: answer.digest,
                config: answer.config,
            },
            TaskView::HasBlob { blob } => EventView::Found(self.disk.has(blob)),
            TaskView::HasRootfs { rootfs } => EventView::Found(self.disk.has(rootfs)),
            TaskView::LoadConfig { path } => EventView::Loaded(
                if self.disk.has(path) {
                    Some(self.pull.config)
                } else {
                    None
                },
            ),
            _ => EventView::Done,
        }
    }

    /// One turn: the current task is carried out and reported.
    pub open spec fn turn(self, answer: Answer, now: Seq<char>) -> World {
        let task = self.pull.task();
        let (pull, store) = self.pull.advance(self.store, self.report(answer), now);
        World { pull, store, disk: self.disk.after(task) }
    }

    /// As many turns as `n`.
    pub open spec fn turns(self, answer: Answer, now: Seq<char>, n: nat) -> World
        decreases n,
    {
        if n == 0 {
            self
        } else {
            self.turns(answer, now, (n - 1) as nat).turn(answer, now)
        }
    }

    /// The world when the current task was interrupted midway.
    pub open spec fn interrupted(self) -> World {
        World { disk: self.disk.cut(self.pull.task()), ..self }
    }

    /// The world of a pull that is about to start.
    pub open spec fn start(reference: Seq<char>, store: StoreView, disk: Disk) -> World {
        World { pull: PullView::start(reference), store, disk }
    }

    /// What holds of a pull at every turn, given what the registry answers.
    pub open spec fn steady(self, reference: Seq<char>, answer: Answer) -> bool {
        let n = answer.manifest.layers.len();
        let staging = rootfs_staging_path_spec(answer.digest);
        &&& self.store.wf()
        &&& self.disk.safe()
        &&& self.pull.reference == reference
        &&& self.pull.stage != Stage::Manifest ==> {
            &&& self.pull.manifest == answer.manifest
            &&& self.pull.digest == answer.digest
            &&& self.pull.config == answer.config
        }
        &&& match self.pull.stage {
            Stage::Probe(i) => i < n,
            Stage::Fetch(i) => i < n,
            Stage::Commit(i) => i < n && self.disk.whole.contains(
                layer_staging_path_spec(answer.manifest.layers[i as int].digest),
            ),
            Stage::Extract => !self.disk.has(staging),
            Stage::CommitRootfs => self.disk.whole.contains(staging),
            _ => true,
        }
        &&& (self.pull.stage == Stage::ProbeRootfs || self.pull.stage == Stage::Clear
            || self.pull.stage == Stage::Extract || self.pull.stage == Stage::CommitRootfs
            || self.pull.stage == Stage::Record) ==> self.disk.has(
            config_path_spec(answer.manifest.config_digest),
        )
        &&& (self.pull.stage == Stage::Record || self.pull.stage == Stage::Done)
            ==> self.disk.whole.contains(rootfs_path_spec(answer.digest))
        &&& self.pull.stage == Stage::Done ==> {
            &&& self.store.has_image(reference)
            &&& self.store.digest_of(reference) == Some(answer.digest)
            &&& self.store.images[self.store.image_pos(reference)].config == Some(answer.config)
        }
    }
}

/// Which names end in `.tmp`: those of staging places, and not those of
/// blobs, of configurations, or of a root filesystem whose digest does not
/// end so.
pub proof fn lemma_staging_names(digest: Seq<char>)
    ensures
        ".tmp"@.is_suffix_of(layer_staging_path_spec(digest).name),
        ".tmp"@.is_suffix_of(rootfs_staging_path_spec(digest).name),
        !".tmp"@.is_suffix_of(layer_path_spec(digest).name),
        !".tmp"@.is_suffix_of(config_path_spec(digest).name),
        ".tmp"@.is_suffix_of(rootfs_path_spec(digest).name) <==> ".tmp"@.is_suffix_of(flat(digest)),
        rootfs_staging_path_spec(digest) != rootfs_path_spec(digest),
{
    reveal_strlit(".tmp");
    reveal_strlit(".tar.gz");
    reveal_strlit(".tar.gz.tmp");
    reveal_strlit(".json");
    let f = flat(digest);
    let a = layer_staging_path_spec(digest).name;
    assert(a.subrange(a.len() - 4, a.len() as int) =~= ".tmp"@);
    let b = rootfs_staging_path_spec(digest).name;
    assert(b.subrange(b.len() - 4, b.len() as int) =~= ".tmp"@);
    let c = layer_path_spec(digest).name;
    assert(c[c.len() - 1] == 'z');
    if ".tmp"@.is_suffix_of(c) {
        assert(c.subrange(c.len() - 4, c.len() as int)[3] == 'p');
    }
    let d = config_path_spec(digest).name;
    assert(d[d.len() - 1] == 'n');
    if ".tmp"@.is_suffix_of(d) {
        assert(d.subrange(d.len() - 4, d.len() as int)[3] == 'p');
    }
    assert(b.len() == f.len() + 4);
}

/// A turn keeps what holds of a pull.
pub proof fn lemma_turn_steady(w: World, reference: Seq<char>, answer: Answer, now: Seq<char>)
    requires
        w.steady(reference, answer),
        !".tmp"@.is_suffix_of(flat(answer.digest)),
    ensures
        w.turn(answer, now).steady(reference, answer),
{
    let next = w.turn(answer, now);
    let layers = answer.manifest.layers;
    let staging = rootfs_staging_path_spec(answer.digest);
    let rootfs = rootfs_path_spec(answer.digest);
    let config = config_path_spec(answer.manifest.config_digest);
    lemma_staging_names(answer.digest);
    lemma_staging_names(answer.manifest.config_digest);
    match w.pull.stage {
        Stage::Manifest => {},
        Stage::Probe(i) => {},
        Stage::Fetch(i) => {
            lemma_staging_names(layers[i as int].digest);
        },
        Stage::Commit(i) => {
            let layer = layers[i as int];
            lemma_staging_names(layer.digest);
            lemma_commit_layer_wf(w.store, layer.digest, layer.media_type, layer_size(layer.size));
        },
        Stage::Config => {},
        Stage::ProbeRootfs => {
            if w.disk.has(rootfs) {
                assert(w.disk.whole.contains(rootfs));
            }
        },
        Stage::Clear => {},
        Stage::Extract => {},
        Stage::CommitRootfs => {},
        Stage::Record => {
            let digests = layers.map_values(layer_digest());
            if w.store.knows_layers(digests) {
                lemma_upsert_image_wf(
                    w.store,
                    reference,
                    answer.digest,
                    image_size(layers),
                    Some(answer.config),
                    digests,
                    now,
                );
            }
        },
        Stage::Done => {},
        Stage::Failed => {},
    }
}

/// Any number of turns keeps what holds of a pull.
pub proof fn lemma_turns_steady(
    w: World,
    reference: Seq<char>,
    answer: Answer,
    now: Seq<char>,
    n: nat,
)
    requires
        w.steady(reference, answer),
        !".tmp"@.is_suffix_of(flat(answer.digest)),
    ensures
        w.turns(answer, now, n).steady(reference, answer),
    decreases n,
{
    if n > 0 {
        lemma_turns_steady(w, reference, answer, now, (n - 1) as nat);
        lemma_turn_steady(w.turns(answer, now, (n - 1) as nat), reference, answer, now);
    }
}

/// Crash safety: a pull that is interrupted, after any number of tasks and
/// in the middle of the next, leaves nothing incomplete visible. No layer
/// blob and no root filesystem is there in part; what is there in part lies
/// at a staging place. The index keeps its invariant.
///
/// The digest of the manifest must not end in `.tmp`, or the staging place
/// of another image would be its root filesystem.
pub proof fn lemma_interrupted_pull_is_safe(
    reference: Seq<char>,
    store: StoreView,
    disk: Disk,
    answer: Answer,
    now: Seq<char>,
    n: nat,
)
    requires
        store.wf(),
        disk.safe(),
        !".tmp"@.is_suffix_of(flat(answer.digest)),
    ensures
        ({
            let w = World::start(reference, store, disk).turns(answer, now, n).interrupted();
            &&& w.disk.safe()
            &&& w.store.wf()
            &&& forall|d: Seq<char>| !w.disk.partial.contains(#[trigger] layer_path_spec(d))
            &&& forall|d: Seq<char>|
                !".tmp"@.is_suffix_of(flat(d)) ==> !w.disk.partial.contains(
                    #[trigger] rootfs_path_spec(d),
                )
        }),
{
    let w0 = World::start(reference, store, disk);
    lemma_turns_steady(w0, reference, answer, now, n);
    let before = w0.turns(answer, now, n);
    let w = before.interrupted();
    assert forall|p: StorePathView| w.disk.partial.contains(p) implies ".tmp"@.is_suffix_of(
        #[trigger] p.name,
    ) by {
        if !before.disk.partial.contains(p) {
            match before.pull.task() {
                TaskView::FetchBlob { staging, .. } => {
                    let i = before.pull.stage->Fetch_0;
                    lemma_staging_names(before.pull.manifest.layers[i as int].digest);
                },
                TaskView::Extract { staging, .. } => {
                    lemma_staging_names(before.pull.digest);
                },
                TaskView::ClearStaging { staging } => {
                    lemma_staging_names(before.pull.digest);
                },
                _ => {},
            }
        }
    }
    assert forall|d: Seq<char>| !w.disk.partial.contains(#[trigger] layer_path_spec(d)) by {
        lemma_staging_names(d);
    }
    assert forall|d: Seq<char>| !".tmp"@.is_suffix_of(flat(d)) implies !w.disk.partial.contains(
        #[trigger] rootfs_path_spec(d),
    ) by {
        lemma_staging_names(d);
    }
}

/// After a pull has completed, the image is ensured without the registry:
/// its root filesystem directory exists, complete, and `ensure` answers
/// with the cached image, its digest and its configuration as they were
/// pulled.
pub proof fn lemma_pull_then_ensure(
    image: Seq<char>,
    store: StoreView,
    disk: Disk,
    answer: Answer,
    now: Seq<char>,
    n: nat,
)
    requires
        reference_of(image) is Ok,
        store.wf(),
        disk.safe(),
        !".tmp"@.is_suffix_of(flat(answer.digest)),
        World::start(reference_of(image)->Ok_0.whole(), store, disk).turns(
            answer,
            now,
            n,
        ).pull.stage == Stage::Done,
    ensures
        ({
            let reference = reference_of(image)->Ok_0.whole();
            let w = World::start(reference, store, disk).turns(answer, now, n);
            let rootfs = rootfs_path_spec(answer.digest);
            &&& w.disk.whole.contains(rootfs)
            &&& crate::pull::probe_spec(w.store, image) == Ok::<Option<StorePathView>, ErrorView>(
                Some(rootfs),
            )
            &&& ensure_spec(w.store, image, w.disk.has(rootfs)) == Ok::<EnsureView, ErrorView>(
                EnsureView::Cached(
                    CachedView {
                        reference,
                        digest: answer.digest,
                        rootfs,
                        config: answer.config,
                    },
                ),
            )
        }),
{
    let reference = reference_of(image)->Ok_0.whole();
    lemma_turns_steady(World::start(reference, store, disk), reference, answer, now, n);
}

/// How many layers a pull has dealt with.
pub open spec fn progress(stage: Stage, n: nat) -> nat {
    match stage {
        Stage::Manifest => 0,
        Stage::Probe(i) => i as nat,
        Stage::Fetch(i) => i as nat,
        Stage::Commit(i) => i as nat,
        _ => n,
    }
}

/// How far a pull of an image with `n` layers has come.
pub open spec fn rank(stage: Stage, n: nat) -> nat {
    match stage {
        Stage::Manifest => 0,
        Stage::Probe(i) => 1 + 3 * i as nat,
        Stage::Fetch(i) => 2 + 3 * i as nat,
        Stage::Commit(i) => 3 + 3 * i as nat,
        Stage::Config => 1 + 3 * n,
        Stage::ProbeRootfs => 2 + 3 * n,
        Stage::Clear => 3 + 3 * n,
        Stage::Extract => 4 + 3 * n,
        Stage::CommitRootfs => 5 + 3 * n,
        Stage::Record => 6 + 3 * n,
        Stage::Done => 7 + 3 * n,
        Stage::Failed => 0,
    }
}

/// Every blob of the manifest that is on disk has its row.
pub open spec fn indexed(disk: Disk, store: StoreView, manifest: ManifestView) -> bool {
    forall|i: int|
        0 <= i < manifest.layers.len() && disk.has(
            layer_path_spec((#[trigger] manifest.layers[i]).digest),
        ) ==> store.has_layer(manifest.layers[i].digest)
}

/// Two layers of the manifest that share their blob's place are one layer.
pub open spec fn blobs_apart(manifest: ManifestView) -> bool {
    forall|i: int, j: int|
        0 <= i < manifest.layers.len() && 0 <= j < manifest.layers.len() && layer_path_spec(
            (#[trigger] manifest.layers[i]).digest,
        ) == layer_path_spec((#[trigger] manifest.layers[j]).digest) ==> manifest.layers[i].digest
            == manifest.layers[j].digest
}

impl World {
    /// What a pull can be started on and be sure to complete: an index that
    /// keeps its invariant and has a row for every blob of the manifest
    /// that is on disk, and a disk with nothing incomplete visible. The
    /// manifest has no more layers than can be counted.
    pub open spec fn sound(store: StoreView, disk: Disk, answer: Answer) -> bool {
        &&& store.wf()
        &&& disk.safe()
        &&& indexed(disk, store, answer.manifest)
        &&& answer.manifest.layers.len() <= usize::MAX
    }

    /// What holds at every turn of a pull that was started on sound ground
    /// and met no failure.
    pub open spec fn healthy(self, reference: Seq<char>, answer: Answer) -> bool {
        let layers = answer.manifest.layers;
        &&& self.steady(reference, answer)
        &&& self.pull.stage != Stage::Failed
        &&& layers.len() <= usize::MAX
        &&& indexed(self.disk, self.store, answer.manifest)
        &&& forall|j: int|
            0 <= j < progress(self.pull.stage, layers.len()) ==> self.store.has_layer(
                (#[trigger] layers[j]).digest,
            ) && self.disk.whole.contains(layer_path_spec(layers[j].digest))
    }

    /// The image is in the store: recorded with its digest and its
    /// configuration, its root filesystem complete, and every layer with
    /// its row and its complete blob.
    pub open spec fn installed(self, reference: Seq<char>, answer: Answer) -> bool {
        &&& self.pull.stage == Stage::Done
        &&& self.store.wf()
        &&& self.disk.safe()
        &&& self.store.digest_of(reference) == Some(answer.digest)
        &&& self.store.images[self.store.image_pos(reference)].config == Some(answer.config)
        &&& self.disk.whole.contains(rootfs_path_spec(answer.digest))
        &&& forall|j: int|
            0 <= j < answer.manifest.layers.len() ==> self.store.has_layer(
                (#[trigger] answer.manifest.layers[j]).digest,
            ) && self.disk.whole.contains(layer_path_spec(answer.manifest.layers[j].digest))
    }
}

/// The row that a pull records for its image.
pub open spec fn recorded(reference: Seq<char>, answer: Answer, now: Seq<char>) -> ImageRowView {
    ImageRowView {
        reference,
        digest: answer.digest,
        size: recorded_size(image_size(answer.manifest.layers)),
        config: Some(answer.config),
        created: now,
    }
}

impl World {
    /// What a pull does to the images and the links of the index it was
    /// started on: nothing until it is done; then the image has its row,
    /// and its links are those of its manifest's layers. The rows and the
    /// links of other images stay as they were.
    pub open spec fn follows(
        self,
        origin: StoreView,
        reference: Seq<char>,
        answer: Answer,
        now: Seq<char>,
    ) -> bool {
        if self.pull.stage == Stage::Done {
            &&& self.store.images == origin.put_image(recorded(reference, answer, now))
            &&& self.store.links == origin.links.filter(of_others(reference)) + links_for(
                reference,
                answer.manifest.layers.map_values(layer_digest()),
            )
        } else {
            self.store.images == origin.images && self.store.links == origin.links
        }
    }
}

/// A turn of a healthy pull keeps what it does to images and links.
proof fn lemma_turn_follows(
    w: World,
    origin: StoreView,
    reference: Seq<char>,
    answer: Answer,
    now: Seq<char>,
)
    requires
        w.healthy(reference, answer),
        w.follows(origin, reference, answer, now),
    ensures
        w.turn(answer, now).follows(origin, reference, answer, now),
{
    if w.pull.stage == Stage::Record {
        assert(w.store.image_pos(reference) == origin.image_pos(reference));
    }
}

/// A turn of a healthy pull that is not done keeps it healthy and takes it
/// further.
proof fn lemma_turn_healthy(w: World, reference: Seq<char>, answer: Answer, now: Seq<char>)
    requires
        w.healthy(reference, answer),
        w.pull.stage != Stage::Done,
        !".tmp"@.is_suffix_of(flat(answer.digest)),
        blobs_apart(answer.manifest),
    ensures
        w.turn(answer, now).healthy(reference, answer),
        rank(w.turn(answer, now).pull.stage, answer.manifest.layers.len()) > rank(
            w.pull.stage,
            answer.manifest.layers.len(),
        ),
{
    let next = w.turn(answer, now);
    let layers = answer.manifest.layers;
    let n = layers.len();
    lemma_turn_steady(w, reference, answer, now);
    lemma_staging_names(answer.digest);
    lemma_staging_names(answer.manifest.config_digest);
    assert forall|j: int| 0 <= j < n implies !".tmp"@.is_suffix_of(
        layer_path_spec((#[trigger] layers[j]).digest).name,
    ) by {
        lemma_staging_names(layers[j].digest);
    }
    match w.pull.stage {
        Stage::Probe(i) => {
            if w.disk.has(layer_path_spec(layers[i as int].digest)) {
                assert(w.store.has_layer(layers[i as int].digest));
                assert(w.disk.whole.contains(layer_path_spec(layers[i as int].digest)));
            }
        },
        Stage::Fetch(i) => {
            lemma_staging_names(layers[i as int].digest);
        },
        Stage::Commit(i) => {
            let layer = layers[i as int];
            lemma_staging_names(layer.digest);
            lemma_commit_layer_wf(w.store, layer.digest, layer.media_type, layer_size(layer.size));
            assert forall|j: int|
                0 <= j < n && next.disk.has(
                    layer_path_spec((#[trigger] layers[j]).digest),
                ) implies next.store.has_layer(layers[j].digest) by {
                if layer_path_spec(layers[j].digest) == layer_path_spec(layer.digest) {
                    assert(layers[j].digest == layers[i as int].digest);
                } else {
                    assert(w.disk.has(layer_path_spec(layers[j].digest)));
                }
            }
        },
        Stage::Record => {
            let digests = layers.map_values(layer_digest());
            assert forall|k: int| 0 <= k < digests.len() implies w.store.has_layer(
                #[trigger] digests[k],
            ) by {
                assert(digests[k] == layers[k].digest);
            }
            lemma_upsert_image_wf(
                w.store,
                reference,
                answer.digest,
                image_size(layers),
                Some(answer.config),
                digests,
                now,
            );
        },
        _ => {},
    }
}

/// After `k` turns a healthy pull is done, or at least `k` steps further.
proof fn lemma_turns_healthy(
    w: World,
    origin: StoreView,
    reference: Seq<char>,
    answer: Answer,
    now: Seq<char>,
    k: nat,
)
    requires
        w.healthy(reference, answer),
        w.follows(origin, reference, answer, now),
        !".tmp"@.is_suffix_of(flat(answer.digest)),
        blobs_apart(answer.manifest),
    ensures
        w.turns(answer, now, k).healthy(reference, answer),
        w.turns(answer, now, k).follows(origin, reference, answer, now),
        w.turns(answer, now, k).pull.stage == Stage::Done || rank(
            w.turns(answer, now, k).pull.stage,
            answer.manifest.layers.len(),
        ) >= k,
    decreases k,
{
    if k > 0 {
        lemma_turns_healthy(w, origin, reference, answer, now, (k - 1) as nat);
        let before = w.turns(answer, now, (k - 1) as nat);
        lemma_turn_follows(before, origin, reference, answer, now);
        if before.pull.stage != Stage::Done {
            lemma_turn_healthy(before, reference, answer, now);
        } else {
            lemma_turn_steady(before, reference, answer, now);
        }
    }
}

/// A pull converges: started on sound ground, it completes within seven
/// turns and three for each layer, and then the image is installed. The
/// images and the links of the index are then what the index that the pull
/// started on and the registry's answer make them. On from there nothing
/// changes.
///
/// The ground is sound again after any interruption, with the images and
/// the links untouched (see [`lemma_interruption_is_sound`]), so a pull
/// that is run again after one was cut short ends where an undisturbed
/// pull ends: with the same rows of images, the same links, the image
/// recorded under its digest, its root filesystem complete, and every
/// layer on disk and in the index.
pub proof fn lemma_pull_converges(
    reference: Seq<char>,
    store: StoreView,
    disk: Disk,
    answer: Answer,
    now: Seq<char>,
)
    requires
        World::sound(store, disk, answer),
        !".tmp"@.is_suffix_of(flat(answer.digest)),
        blobs_apart(answer.manifest),
    ensures
        ({
            let w = World::start(reference, store, disk).turns(
                answer,
                now,
                7 + 3 * answer.manifest.layers.len(),
            );
            &&& w.installed(reference, answer)
            &&& w.follows(store, reference, answer, now)
            &&& w.turn(answer, now) == w
        }),
{
    let n = answer.manifest.layers.len();
    let w0 = World::start(reference, store, disk);
    lemma_turns_healthy(w0, store, reference, answer, now, 7 + 3 * n);
    let w = w0.turns(answer, now, 7 + 3 * n);
    assert(w.pull.stage == Stage::Done);
}

/// An interruption leaves sound ground: whenever a pull that was started on
/// sound ground is cut short, after any number of tasks and in the middle
/// of the next, a new pull can be started on the index and the disk as
/// they are. Unless the pull was done already, the images and the links of
/// the index are as they were when it started.
pub proof fn lemma_interruption_is_sound(
    reference: Seq<char>,
    store: StoreView,
    disk: Disk,
    answer: Answer,
    now: Seq<char>,
    k: nat,
)
    requires
        World::sound(store, disk, answer),
        !".tmp"@.is_suffix_of(flat(answer.digest)),
        blobs_apart(answer.manifest),
    ensures
        ({
            let w = World::start(reference, store, disk).turns(answer, now, k).interrupted();
            &&& World::sound(w.store, w.disk, answer)
            &&& w.pull.stage != Stage::Done ==> w.store.images == store.images && w.store.links
                == store.links
        }),
{
    let w0 = World::start(reference, store, disk);
    lemma_turns_healthy(w0, store, reference, answer, now, k);
    lemma_interrupted_pull_is_safe(reference, store, disk, answer, now, k);
    let before = w0.turns(answer, now, k);
    let w = before.interrupted();
    assert forall|i: int|
        0 <= i < answer.manifest.layers.len() && w.disk.has(
            layer_path_spec((#[trigger] answer.manifest.layers[i]).digest),
        ) implies w.store.has_layer(answer.manifest.layers[i].digest) by {
        lemma_staging_names(answer.manifest.layers[i].digest);
        match before.pull.task() {
            TaskView::FetchBlob { staging, .. } => {
                let j = before.pull.stage->Fetch_0;
                lemma_staging_names(before.pull.manifest.layers[j as int].digest);
            },
            TaskView::Extract { staging, .. } => {
                lemma_staging_names(before.pull.digest);
            },
            TaskView::ClearStaging { staging } => {
                lemma_staging_names(before.pull.digest);
            },
            _ => {},
        }
        assert(before.disk.has(layer_path_spec(answer.manifest.layers[i].digest)));
    }
}

/// Which layers a pull that starts on `disk` has to fetch: those whose
/// blob is missing, each where the manifest lists it first.
pub open spec fn fresh_on(disk: Disk, manifest: ManifestView) -> Seq<bool> {
    Seq::new(
        manifest.layers.len(),
        |i: int|
            !disk.has(layer_path_spec(manifest.layers[i].digest)) && first_of(manifest.layers, i),
    )
}

/// Whether one of the first `p` layers has the digest of layer `i`.
pub open spec fn met(manifest: ManifestView, p: nat, i: int) -> bool {
    exists|j: int| 0 <= j < p && (#[trigger] manifest.layers[j]).digest == manifest.layers[i].digest
}

impl World {
    /// The index of a pull that was started on the index `origin` and the
    /// disk `ground`: the layers that had to be fetched, as far as the pull
    /// has come, are committed, and once the pull is done the image is
    /// recorded. A blob is on disk if it was there at the start or belongs
    /// to a layer that has been dealt with.
    pub open spec fn mirrors(
        self,
        origin: StoreView,
        ground: Disk,
        reference: Seq<char>,
        answer: Answer,
        now: Seq<char>,
    ) -> bool {
        let layers = answer.manifest.layers;
        let fresh = fresh_on(ground, answer.manifest);
        let p = progress(self.pull.stage, layers.len());
        &&& if self.pull.stage == Stage::Done {
            self.store == commits(origin, layers, fresh).upsert_image(
                reference,
                answer.digest,
                image_size(layers),
                Some(answer.config),
                layers.map_values(layer_digest()),
                now,
            )
        } else {
            self.store == commits(origin, layers.take(p as int), fresh.take(p as int))
        }
        &&& forall|i: int|
            0 <= i < layers.len() ==> self.disk.has(
                layer_path_spec((#[trigger] layers[i]).digest),
            ) == (ground.has(layer_path_spec(layers[i].digest)) || met(answer.manifest, p, i))
        &&& match self.pull.stage {
            Stage::Fetch(i) => fresh[i as int],
            Stage::Commit(i) => fresh[i as int],
            _ => true,
        }
    }
}

/// A turn of a healthy pull keeps its index in step with the commits.
proof fn lemma_turn_mirrors(
    w: World,
    origin: StoreView,
    ground: Disk,
    reference: Seq<char>,
    answer: Answer,
    now: Seq<char>,
)
    requires
        w.healthy(reference, answer),
        w.mirrors(origin, ground, reference, answer, now),
        w.pull.stage != Stage::Done,
        blobs_apart(answer.manifest),
        !".tmp"@.is_suffix_of(flat(answer.digest)),
    ensures
        w.turn(answer, now).mirrors(origin, ground, reference, answer, now),
{
    let next = w.turn(answer, now);
    let manifest = answer.manifest;
    let layers = manifest.layers;
    let n = layers.len();
    let fresh = fresh_on(ground, manifest);
    let p = progress(w.pull.stage, n);
    let q = progress(next.pull.stage, n);
    lemma_turn_healthy(w, reference, answer, now);
    lemma_staging_names(answer.digest);
    lemma_staging_names(manifest.config_digest);
    assert forall|j: int| 0 <= j < n implies !".tmp"@.is_suffix_of(
        layer_path_spec((#[trigger] layers[j]).digest).name,
    ) by {
        lemma_staging_names(layers[j].digest);
    }
    assert(layers.take(n as int) =~= layers);
    assert(fresh.take(n as int) =~= fresh);
    match w.pull.stage {
        Stage::Manifest => {
            assert forall|i: int| 0 <= i < n implies !met(manifest, 0, i) by {}
        },
        Stage::Probe(i) => {
            let blob = layer_path_spec(layers[i as int].digest);
            if w.disk.has(blob) {
                // The blob is there: the layer is not fetched.
                assert(!fresh[i as int]) by {
                    if met(manifest, i as nat, i as int) {
                        let j = choose|j: int|
                            0 <= j < i && (#[trigger] layers[j]).digest == layers[i as int].digest;
                        assert(!first_of(layers, i as int));
                    }
                }
                assert(layers.take(i + 1).drop_last() =~= layers.take(i as int));
                assert(fresh.take(i + 1).drop_last() =~= fresh.take(i as int));
                assert forall|k: int| 0 <= k < n implies next.disk.has(
                    layer_path_spec((#[trigger] layers[k]).digest),
                ) == (ground.has(layer_path_spec(layers[k].digest)) || met(manifest, q, k)) by {
                    if met(manifest, q, k) && !met(manifest, p, k) {
                        let j = choose|j: int|
                            0 <= j < q && (#[trigger] layers[j]).digest == layers[k].digest;
                        assert(j == i);
                    }
                    if met(manifest, p, k) {
                        let j = choose|j: int|
                            0 <= j < p && (#[trigger] layers[j]).digest == layers[k].digest;
                        assert(layers[j].digest == layers[k].digest);
                    }
                }
            } else {
                assert(first_of(layers, i as int)) by {
                    assert forall|j: int| 0 <= j < i implies (#[trigger] layers[j]).digest
                        != layers[i as int].digest by {
                        if layers[j].digest == layers[i as int].digest {
                            assert(met(manifest, i as nat, i as int));
                        }
                    }
                }
            }
        },
        Stage::Fetch(i) => {
            lemma_staging_names(layers[i as int].digest);
        },
        Stage::Commit(i) => {
            let layer = layers[i as int];
            lemma_staging_names(layer.digest);
            assert(layers.take(i + 1).drop_last() =~= layers.take(i as int));
            assert(fresh.take(i + 1).drop_last() =~= fresh.take(i as int));
            assert(layers.take(i + 1).last() == layer);
            assert forall|k: int| 0 <= k < n implies next.disk.has(
                layer_path_spec((#[trigger] layers[k]).digest),
            ) == (ground.has(layer_path_spec(layers[k].digest)) || met(manifest, q, k)) by {
                if met(manifest, q, k) && !met(manifest, p, k) {
                    let j = choose|j: int|
                        0 <= j < q && (#[trigger] layers[j]).digest == layers[k].digest;
                    assert(j == i);
                }
                if met(manifest, p, k) {
                    let j = choose|j: int|
                        0 <= j < p && (#[trigger] layers[j]).digest == layers[k].digest;
                    assert(layers[j].digest == layers[k].digest);
                }
                if layer_path_spec(layers[k].digest) == layer_path_spec(layer.digest) {
                    assert(layers[k].digest == layers[i as int].digest);
                }
            }
        },
        Stage::Record => {
            let digests = layers.map_values(layer_digest());
            assert forall|k: int| 0 <= k < digests.len() implies w.store.has_layer(
                #[trigger] digests[k],
            ) by {
                assert(digests[k] == layers[k].digest);
            }
        },
        _ => {},
    }
}

/// Any number of turns keeps the index of a healthy pull in step with the
/// commits.
proof fn lemma_turns_mirror(
    w: World,
    origin: StoreView,
    ground: Disk,
    reference: Seq<char>,
    answer: Answer,
    now: Seq<char>,
    k: nat,
)
    requires
        w.healthy(reference, answer),
        w.follows(origin, reference, answer, now),
        w.mirrors(origin, ground, reference, answer, now),
        blobs_apart(answer.manifest),
        !".tmp"@.is_suffix_of(flat(answer.digest)),
    ensures
        w.turns(answer, now, k).mirrors(origin, ground, reference, answer, now),
    decreases k,
{
    if k > 0 {
        lemma_turns_mirror(w, origin, ground, reference, answer, now, (k - 1) as nat);
        lemma_turns_healthy(w, origin, reference, answer, now, (k - 1) as nat);
        let before = w.turns(answer, now, (k - 1) as nat);
        if before.pull.stage != Stage::Done {
            lemma_turn_mirrors(before, origin, ground, reference, answer, now);
        }
    }
}

/// Committing no layer changes nothing.
proof fn lemma_commits_none(s: StoreView, layers: Seq<crate::pull::LayerView>, fresh: Seq<bool>)
    requires
        forall|i: int| 0 <= i < fresh.len() ==> !fresh[i],
    ensures
        commits(s, layers, fresh) == s,
    decreases layers.len(),
{
    if layers.len() > 0 && fresh.len() == layers.len() {
        lemma_commits_none(s, layers.drop_last(), fresh.drop_last());
    }
}

/// Commits that were made stay made: where the first `p` layers have been
/// dealt with, committing the rest gives what committing all gives.
proof fn lemma_commits_resume(
    s: StoreView,
    layers: Seq<crate::pull::LayerView>,
    fresh: Seq<bool>,
    rest: Seq<bool>,
    p: int,
    m: int,
)
    requires
        0 <= p <= m <= layers.len(),
        fresh.len() == layers.len(),
        rest.len() == layers.len(),
        forall|i: int| 0 <= i < p ==> !rest[i],
        forall|i: int| p <= i < layers.len() ==> rest[i] == fresh[i],
    ensures
        commits(
            commits(s, layers.take(p), fresh.take(p)),
            layers.take(m),
            rest.take(m),
        ) == commits(s, layers.take(m), fresh.take(m)),
    decreases m - p,
{
    if m == p {
        lemma_commits_none(commits(s, layers.take(p), fresh.take(p)), layers.take(p), rest.take(p));
    } else {
        lemma_commits_resume(s, layers, fresh, rest, p, m - 1);
        assert(layers.take(m).drop_last() =~= layers.take(m - 1));
        assert(fresh.take(m).drop_last() =~= fresh.take(m - 1));
        assert(rest.take(m).drop_last() =~= rest.take(m - 1));
    }
}

/// What a pull makes of the index: started on sound ground, it ends with
/// the layers committed whose blobs were missing, and the image recorded.
pub proof fn lemma_pull_result(
    reference: Seq<char>,
    store: StoreView,
    disk: Disk,
    answer: Answer,
    now: Seq<char>,
)
    requires
        World::sound(store, disk, answer),
        !".tmp"@.is_suffix_of(flat(answer.digest)),
        blobs_apart(answer.manifest),
    ensures
        World::start(reference, store, disk).turns(
            answer,
            now,
            7 + 3 * answer.manifest.layers.len(),
        ).store == commits(
            store,
            answer.manifest.layers,
            fresh_on(disk, answer.manifest),
        ).upsert_image(
            reference,
            answer.digest,
            image_size(answer.manifest.layers),
            Some(answer.config),
            answer.manifest.layers.map_values(layer_digest()),
            now,
        ),
{
    let n = answer.manifest.layers.len();
    let w0 = World::start(reference, store, disk);
    assert(answer.manifest.layers.take(0) =~= Seq::empty());
    assert(fresh_on(disk, answer.manifest).take(0) =~= Seq::empty());
    assert forall|i: int| 0 <= i < n implies !met(answer.manifest, 0, i) by {}
    lemma_turns_mirror(w0, store, disk, reference, answer, now, 7 + 3 * n);
    lemma_pull_converges(reference, store, disk, answer, now);
}

/// A pull that is run again after an interruption ends with the index that
/// an undisturbed pull ends with.
///
/// The first pull starts on sound ground and is cut short after `k` turns,
/// in the middle of the next task, before it is done. The second pull
/// starts on the index and the disk as the first left them, and runs to
/// its end. Its index is then the one that the first pull would have
/// reached undisturbed: the same rows of images, of layers with their
/// counts, and of links.
pub proof fn lemma_rerun_converges(
    reference: Seq<char>,
    store: StoreView,
    disk: Disk,
    answer: Answer,
    now: Seq<char>,
    k: nat,
)
    requires
        World::sound(store, disk, answer),
        !".tmp"@.is_suffix_of(flat(answer.digest)),
        blobs_apart(answer.manifest),
        World::start(reference, store, disk).turns(answer, now, k).pull.stage != Stage::Done,
    ensures
        ({
            let n = answer.manifest.layers.len();
            let cut = World::start(reference, store, disk).turns(answer, now, k).interrupted();
            let again = World::start(reference, cut.store, cut.disk).turns(answer, now, 7 + 3 * n);
            let undisturbed = World::start(reference, store, disk).turns(answer, now, 7 + 3 * n);
            &&& again.installed(reference, answer)
            &&& again.store == undisturbed.store
        }),
{
    let manifest = answer.manifest;
    let layers = manifest.layers;
    let n = layers.len();
    let w0 = World::start(reference, store, disk);
    assert(layers.take(0) =~= Seq::empty());
    assert(fresh_on(disk, manifest).take(0) =~= Seq::empty());
    assert forall|i: int| 0 <= i < n implies !met(manifest, 0, i) by {}
    lemma_turns_mirror(w0, store, disk, reference, answer, now, k);
    lemma_turns_healthy(w0, store, reference, answer, now, k);
    lemma_interruption_is_sound(reference, store, disk, answer, now, k);
    let before = w0.turns(answer, now, k);
    let cut = before.interrupted();
    let p = progress(before.pull.stage, n);
    let fresh = fresh_on(disk, manifest);
    let rest = fresh_on(cut.disk, manifest);
    // What the interruption leaves on disk does not touch the blobs.
    assert forall|i: int| 0 <= i < n implies cut.disk.has(
        layer_path_spec((#[trigger] layers[i]).digest),
    ) == before.disk.has(layer_path_spec(layers[i].digest)) by {
        lemma_staging_names(layers[i].digest);
        match before.pull.task() {
            TaskView::FetchBlob { staging, .. } => {
                let j = before.pull.stage->Fetch_0;
                lemma_staging_names(before.pull.manifest.layers[j as int].digest);
            },
            TaskView::Extract { staging, .. } => {
                lemma_staging_names(before.pull.digest);
            },
            TaskView::ClearStaging { staging } => {
                lemma_staging_names(before.pull.digest);
            },
            _ => {},
        }
    }
    assert forall|i: int| 0 <= i < p implies !rest[i] by {
        assert(met(manifest, p, i)) by {
            assert(layers[i].digest == layers[i].digest);
        }
        assert(before.disk.has(layer_path_spec(layers[i].digest)));
    }
    assert forall|i: int| p <= i < n implies rest[i] == fresh[i] by {
        if first_of(layers, i) {
            assert(!met(manifest, p, i)) by {
                if met(manifest, p, i) {
                    let j = choose|j: int|
                        0 <= j < p && (#[trigger] layers[j]).digest == layers[i].digest;
                    assert(layers[j].digest != layers[i].digest);
                }
            }
            assert(cut.disk.has(layer_path_spec(layers[i].digest)) == disk.has(
                layer_path_spec(layers[i].digest),
            ));
        }
    }
    lemma_commits_resume(store, layers, fresh, rest, p as int, n as int);
    assert(layers.take(n as int) =~= layers);
    assert(fresh.take(n as int) =~= fresh);
    assert(rest.take(n as int) =~= rest);
    lemma_pull_result(reference, cut.store, cut.disk, answer, now);
    lemma_pull_result(reference, store, disk, answer, now);
    lemma_pull_converges(reference, cut.store, cut.disk, answer, now);
    // The images and the links are those of the start, so the image is
    // recorded in the same place.
    assert(cut.store.images == store.images && cut.store.links == store.links);
}

} // verus!
