//! Pulling an image into the store, one task at a time.
//!
//! A pull alternates work on the outside (the registry, the filesystem) with
//! decisions. [`Pull`] holds the decisions: [`Pull::task`] names the next
//! piece of outside work, and [`Pull::advance`] takes its outcome, updates
//! the store's index where the work calls for it, and moves on. Files become
//! visible only by a rename: a layer blob is written to a staging path and
//! renamed, a root filesystem is extracted into a staging directory and
//! renamed.

use vstd::prelude::*;
use crate::image::{parse_reference, reference_of, Error, ErrorView, ImageConfig};
use crate::store::{
    config_path_spec, layer_path_spec, layer_staging_path_spec, recorded_size, rootfs_path_spec,
    rootfs_staging_path_spec, ImageMeta, Removal, Store, StoreError, StorePath, StorePathView,
    StoreView, MAX_SIZE,
};
use crate::text::{chars_of, opt_str, same, starts_with, strs, substring};

verus! {

/// One layer of an image, as its manifest describes it.
#[derive(Debug, Clone, PartialEq, Eq)]
pub struct Layer {
    /// Content digest of the blob.
    pub digest: String,
    /// Media type of the blob.
    pub media_type: String,
    /// Size of the blob in bytes, as the manifest states it.
    pub size: i64,
}

/// Mathematical value of a [`Layer`].
pub struct LayerView {
    pub digest: Seq<char>,
    pub media_type: Seq<char>,
    pub size: i64,
}

impl View for Layer {
    type V = LayerView;

    open spec fn view(&self) -> LayerView {
        LayerView { digest: self.digest@, media_type: self.media_type@, size: self.size }
    }
}

/// The views of a list of layers.
pub open spec fn layers_of(v: Seq<Layer>) -> Seq<LayerView> {
    v.map_values(|l: Layer| l@)
}

/// An image manifest: the configuration blob and the layers, bottom first.
#[derive(Debug, Clone, PartialEq, Eq)]
pub struct Manifest {
    /// Digest of the configuration blob.
    pub config_digest: String,
    /// The layers in the order in which they are applied.
    pub layers: Vec<Layer>,
}

/// Mathematical value of a [`Manifest`].
pub struct ManifestView {
    pub config_digest: Seq<char>,
    pub layers: Seq<LayerView>,
}

impl View for Manifest {
    type V = ManifestView;

    open spec fn view(&self) -> ManifestView {
        ManifestView { config_digest: self.config_digest@, layers: layers_of(self.layers@) }
    }
}

/// The size that counts for a layer: what the manifest states, or 0 where
/// it states a negative number.
pub open spec fn layer_size(size: i64) -> u64 {
    if size < 0 {
        0
    } else {
        size as u64
    }
}

/// The sizes of the layers added up.
pub open spec fn total_size(layers: Seq<LayerView>) -> nat
    decreases layers.len(),
{
    if layers.len() == 0 {
        0
    } else {
        total_size(layers.drop_last()) + layer_size(layers.last().size) as nat
    }
}

/// The size recorded for an image with these layers: their total, capped.
pub open spec fn image_size(layers: Seq<LayerView>) -> u64 {
    if total_size(layers) > MAX_SIZE {
        MAX_SIZE
    } else {
        total_size(layers) as u64
    }
}

/// The digest of a layer.
pub open spec fn layer_digest() -> spec_fn(LayerView) -> Seq<char> {
    |l: LayerView| l.digest
}

/// The blob of a layer and its media type.
pub open spec fn layer_blob() -> spec_fn(LayerView) -> (StorePathView, Seq<char>) {
    |l: LayerView| (layer_path_spec(l.digest), l.media_type)
}

/// The views of a list of blobs with their media types.
pub open spec fn blobs_of(v: Seq<(StorePath, String)>) -> Seq<(StorePathView, Seq<char>)> {
    v.map_values(|b: (StorePath, String)| (b.0@, b.1@))
}

/// Where a pull stands.
#[derive(Debug, Clone, Copy, PartialEq, Eq, Structural)]
pub enum Stage {
    /// The manifest and the configuration are being fetched.
    Manifest,
    /// The blob of this layer is looked for on disk.
    Probe(usize),
    /// The blob of this layer is being downloaded to its staging path.
    Fetch(usize),
    /// The blob of this layer is being moved into place.
    Commit(usize),
    /// The configuration blob is being saved.
    Config,
    /// The root filesystem is looked for on disk.
    ProbeRootfs,
    /// A stale staging directory is being removed.
    Clear,
    /// The layers are being extracted into the staging directory.
    Extract,
    /// The staging directory is being moved into place.
    CommitRootfs,
    /// The configuration blob is read back to record the image.
    Record,
    /// The image is in the store.
    Done,
    /// The pull has failed.
    Failed,
}

/// The next piece of outside work of a pull.
#[derive(Debug, Clone, PartialEq, Eq)]
pub enum Task {
    /// Fetch the manifest, its digest and the configuration of this image.
    FetchManifest { reference: String },
    /// Say whether this layer blob exists.
    HasBlob { blob: StorePath },
    /// Create this staging file and stream the layer's blob into it.
    FetchBlob { index: usize, staging: StorePath },
    /// Rename the staging file to the blob.
    CommitBlob { staging: StorePath, blob: StorePath },
    /// Write the configuration to this path, through a temporary file and
    /// a rename, unless the path exists.
    SaveConfig { path: StorePath, data: String },
    /// Say whether this root filesystem directory exists.
    HasRootfs { rootfs: StorePath },
    /// Remove this staging directory if it exists.
    ClearStaging { staging: StorePath },
    /// Extract these layer blobs, in order, into the staging directory,
    /// honoring whiteouts.
    Extract { layers: Vec<(StorePath, String)>, staging: StorePath },
    /// Rename the staging directory to the root filesystem directory; if
    /// that exists already, remove the staging directory instead.
    CommitRootfs { staging: StorePath, rootfs: StorePath },
    /// Read this configuration blob, if it can be read.
    LoadConfig { path: StorePath },
    /// Nothing: the pull is over.
    Rest,
}

/// Mathematical value of a [`Task`].
pub enum TaskView {
    FetchManifest { reference: Seq<char> },
    HasBlob { blob: StorePathView },
    FetchBlob { index: usize, staging: StorePathView },
    CommitBlob { staging: StorePathView, blob: StorePathView },
    SaveConfig { path: StorePathView, data: Seq<char> },
    HasRootfs { rootfs: StorePathView },
    ClearStaging { staging: StorePathView },
    Extract { layers: Seq<(StorePathView, Seq<char>)>, staging: StorePathView },
    CommitRootfs { staging: StorePathView, rootfs: StorePathView },
    LoadConfig { path: StorePathView },
    Rest,
}

impl View for Task {
    type V = TaskView;

    open spec fn view(&self) -> TaskView {
        match *self {
            Task::FetchManifest { reference } => TaskView::FetchManifest { reference: reference@ },
            Task::HasBlob { blob } => TaskView::HasBlob { blob: blob@ },
            Task::FetchBlob { index, staging } => TaskView::FetchBlob { index, staging: staging@ },
            Task::CommitBlob { staging, blob } => TaskView::CommitBlob {
                staging: staging@,
                blob: blob@,
            },
            Task::SaveConfig { path, data } => TaskView::SaveConfig { path: path@, data: data@ },
            Task::HasRootfs { rootfs } => TaskView::HasRootfs { rootfs: rootfs@ },
            Task::ClearStaging { staging } => TaskView::ClearStaging { staging: staging@ },
            Task::Extract { layers, staging } => TaskView::Extract {
                layers: blobs_of(layers@),
                staging: staging@,
            },
            Task::CommitRootfs { staging, rootfs } => TaskView::CommitRootfs {
                staging: staging@,
                rootfs: rootfs@,
            },
            Task::LoadConfig { path } => TaskView::LoadConfig { path: path@ },
            Task::Rest => TaskView::Rest,
        }
    }
}

/// Why a piece of outside work failed.
#[derive(Debug, Clone, PartialEq, Eq)]
pub enum Failure {
    /// The registry refused or the transfer broke.
    Registry(String),
    /// A filesystem operation failed.
    Io(String),
}

/// The outcome of a piece of outside work.
#[derive(Debug, Clone, PartialEq, Eq)]
pub enum Event {
    /// The manifest, its digest and the configuration were fetched.
    Manifest { manifest: Manifest, digest: String, config: String },
    /// What was looked for exists, or does not.
    Found(bool),
    /// The work was done.
    Done,
    /// The configuration blob's contents, if it could be read.
    Loaded(Option<String>),
    /// The work failed.
    Failed(Failure),
}

/// Mathematical value of an [`Event`].
pub enum EventView {
    Manifest { manifest: ManifestView, digest: Seq<char>, config: Seq<char> },
    Found(bool),
    Done,
    Loaded(Option<Seq<char>>),
    /// The error that the failure amounts to.
    Failed(ErrorView),
}

impl View for Failure {
    type V = ErrorView;

    open spec fn view(&self) -> ErrorView {
        match *self {
            Failure::Registry(msg) => ErrorView::Registry(msg@),
            Failure::Io(msg) => ErrorView::Io(msg@),
        }
    }
}

impl View for Event {
    type V = EventView;

    open spec fn view(&self) -> EventView {
        match *self {
            Event::Manifest { manifest, digest, config } => EventView::Manifest {
                manifest: manifest@,
                digest: digest@,
                config: config@,
            },
            Event::Found(found) => EventView::Found(found),
            Event::Done => EventView::Done,
            Event::Loaded(data) => EventView::Loaded(opt_str(data)),
            Event::Failed(failure) => EventView::Failed(failure@),
        }
    }
}

/// Result of a successful image pull.
#[derive(Debug, Clone, PartialEq, Eq)]
pub struct PullResult {
    /// Canonical image reference string.
    pub reference: String,
    /// Manifest content digest.
    pub digest: String,
    /// Place of the extracted rootfs directory.
    pub rootfs: StorePath,
    /// Image configuration (Cmd, Env, WorkingDir, etc.).
    pub config: Option<ImageConfig>,
}

/// A pull in progress.
#[derive(Debug, Clone, PartialEq, Eq)]
pub struct Pull {
    /// Canonical reference of the image.
    pub reference: String,
    /// Where the pull stands.
    pub stage: Stage,
    /// The image's manifest, once fetched.
    pub manifest: Manifest,
    /// The manifest's digest, once fetched.
    pub digest: String,
    /// The image's configuration as JSON, once fetched.
    pub config: String,
    /// Why the pull failed, if it did.
    pub error: Option<Error>,
}

/// Mathematical value of a [`Pull`].
pub struct PullView {
    pub reference: Seq<char>,
    pub stage: Stage,
    pub manifest: ManifestView,
    pub digest: Seq<char>,
    pub config: Seq<char>,
    pub error: Option<ErrorView>,
}

/// The view of an optional error.
pub open spec fn opt_error(e: Option<Error>) -> Option<ErrorView> {
    match e {
        Some(e) => Some(e@),
        None => None,
    }
}

impl View for Pull {
    type V = PullView;

    open spec fn view(&self) -> PullView {
        PullView {
            reference: self.reference@,
            stage: self.stage,
            manifest: self.manifest@,
            digest: self.digest@,
            config: self.config@,
            error: opt_error(self.error),
        }
    }
}

impl PullView {
    /// A pull that has not fetched anything yet.
    pub open spec fn start(reference: Seq<char>) -> Self {
        PullView {
            reference,
            stage: Stage::Manifest,
            manifest: ManifestView { config_digest: Seq::empty(), layers: Seq::empty() },
            digest: Seq::empty(),
            config: Seq::empty(),
            error: None,
        }
    }

    /// The stage that deals with layer `k`: looking for its blob, or, past
    /// the last layer, saving the configuration.
    pub open spec fn layer_stage(self, k: int) -> Stage {
        if k < self.manifest.layers.len() {
            Stage::Probe(k as usize)
        } else {
            Stage::Config
        }
    }

    /// The pull with its stage changed.
    pub open spec fn at(self, stage: Stage) -> Self {
        PullView { stage, ..self }
    }

    /// The pull failed with this error.
    pub open spec fn failed(self, error: ErrorView) -> Self {
        PullView { stage: Stage::Failed, error: Some(error), ..self }
    }

    /// The next piece of outside work.
    pub open spec fn task(self) -> TaskView {
        match self.stage {
            Stage::Manifest => TaskView::FetchManifest { reference: self.reference },
            Stage::Probe(i) => if i < self.manifest.layers.len() {
                TaskView::HasBlob { blob: layer_path_spec(self.manifest.layers[i as int].digest) }
            } else {
                TaskView::Rest
            },
            Stage::Fetch(i) => if i < self.manifest.layers.len() {
                TaskView::FetchBlob {
                    index: i,
                    staging: layer_staging_path_spec(self.manifest.layers[i as int].digest),
                }
            } else {
                TaskView::Rest
            },
            Stage::Commit(i) => if i < self.manifest.layers.len() {
                TaskView::CommitBlob {
                    staging: layer_staging_path_spec(self.manifest.layers[i as int].digest),
                    blob: layer_path_spec(self.manifest.layers[i as int].digest),
                }
            } else {
                TaskView::Rest
            },
            Stage::Config => TaskView::SaveConfig {
                path: config_path_spec(self.manifest.config_digest),
                data: self.config,
            },
            Stage::ProbeRootfs => TaskView::HasRootfs { rootfs: rootfs_path_spec(self.digest) },
            Stage::Clear => TaskView::ClearStaging {
                staging: rootfs_staging_path_spec(self.digest),
            },
            Stage::Extract => TaskView::Extract {
                layers: self.manifest.layers.map_values(layer_blob()),
                staging: rootfs_staging_path_spec(self.digest),
            },
            Stage::CommitRootfs => TaskView::CommitRootfs {
                staging: rootfs_staging_path_spec(self.digest),
                rootfs: rootfs_path_spec(self.digest),
            },
            Stage::Record => TaskView::LoadConfig {
                path: config_path_spec(self.manifest.config_digest),
            },
            Stage::Done => TaskView::Rest,
            Stage::Failed => TaskView::Rest,
        }
    }

    /// The pull and the store after the outcome `e` of the current task, at
    /// time `now`. An outcome that does not answer the current task changes
    /// nothing.
    pub open spec fn advance(self, store: StoreView, e: EventView, now: Seq<char>) -> (
        PullView,
        StoreView,
    ) {
        match (self.stage, e) {
            (Stage::Manifest, EventView::Manifest { manifest, digest, config }) => {
                let fetched = PullView { manifest, digest, config, ..self };
                (fetched.at(fetched.layer_stage(0)), store)
            },
            (Stage::Probe(i), EventView::Found(found)) => if i >= self.manifest.layers.len() {
                (self, store)
            } else if found {
                (self.at(self.layer_stage(i + 1)), store)
            } else {
                (self.at(Stage::Fetch(i)), store)
            },
            (Stage::Fetch(i), EventView::Done) => if i >= self.manifest.layers.len() {
                (self, store)
            } else {
                (self.at(Stage::Commit(i)), store)
            },
            (Stage::Commit(i), EventView::Done) => if i >= self.manifest.layers.len() {
                (self, store)
            } else {
                let layer = self.manifest.layers[i as int];
                (
                    self.at(self.layer_stage(i + 1)),
                    store.commit_layer(layer.digest, layer.media_type, layer_size(layer.size)),
                )
            },
            (Stage::Config, EventView::Done) => (self.at(Stage::ProbeRootfs), store),
            (Stage::ProbeRootfs, EventView::Found(found)) => if found {
                (self.at(Stage::Record), store)
            } else {
                (self.at(Stage::Clear), store)
            },
            (Stage::Clear, EventView::Done) => (self.at(Stage::Extract), store),
            (Stage::Extract, EventView::Done) => (self.at(Stage::CommitRootfs), store),
            (Stage::CommitRootfs, EventView::Done) => (self.at(Stage::Record), store),
            (Stage::Record, EventView::Loaded(data)) => {
                let digests = self.manifest.layers.map_values(layer_digest());
                if store.knows_layers(digests) {
                    (
                        self.at(Stage::Done),
                        store.upsert_image(
                            self.reference,
                            self.digest,
                            image_size(self.manifest.layers),
                            data,
                            digests,
                            now,
                        ),
                    )
                } else {
                    (self.failed(ErrorView::Db(StoreError::ForeignKey)), store)
                }
            },
            (stage, EventView::Failed(error)) => if stage == Stage::Done || stage
                == Stage::Failed || stage == Stage::ProbeRootfs || stage == Stage::Record
                || stage is Probe {
                (self, store)
            } else {
                (self.failed(error), store)
            },
            _ => (self, store),
        }
    }
}

/// The recorded size of an image with these layers.
fn size_of(layers: &Vec<Layer>) -> (size: u64)
    ensures
        size == image_size(layers_of(layers@)),
{
    let mut total: u64 = 0;
    let mut i: usize = 0;
    let ghost all = layers_of(layers@);
    assert(all.take(0) =~= Seq::empty());
    while i < layers.len()
        invariant
            i <= layers.len(),
            all == layers_of(layers@),
            total as nat == if total_size(all.take(i as int)) > MAX_SIZE {
                MAX_SIZE as nat
            } else {
                total_size(all.take(i as int))
            },
        decreases layers.len() - i,
    {
        proof {
            assert(all.take(i + 1).drop_last() =~= all.take(i as int));
            assert(all.take(i + 1).last() == layers@[i as int]@);
        }
        let size: u64 = if layers[i].size < 0 {
            0
        } else {
            layers[i].size as u64
        };
        total = if size > MAX_SIZE - total {
            MAX_SIZE
        } else {
            total + size
        };
        i += 1;
    }
    assert(all.take(layers.len() as int) =~= all);
    total
}

/// A copy of a layer.
fn copy_layer(layer: &Layer) -> (out: Layer)
    ensures
        out@ == layer@,
{
    Layer { digest: layer.digest.clone(), media_type: layer.media_type.clone(), size: layer.size }
}

impl Pull {
    /// Starts a pull of the image with this canonical reference.
    pub fn new(reference: &str) -> (pull: Self)
        ensures
            pull@ == PullView::start(reference@),
    {
        let pull = Pull {
            reference: reference.to_owned(),
            stage: Stage::Manifest,
            manifest: Manifest { config_digest: String::new(), layers: Vec::new() },
            digest: String::new(),
            config: String::new(),
            error: None,
        };
        assert(pull@.manifest.layers =~= Seq::empty());
        pull
    }

    /// The stage that deals with layer `k`.
    fn layer_stage(&self, k: usize) -> (stage: Stage)
        ensures
            stage == self@.layer_stage(k as int),
    {
        if k < self.manifest.layers.len() {
            Stage::Probe(k)
        } else {
            Stage::Config
        }
    }

    /// The digests of the manifest's layers, in order.
    fn layer_digests(&self) -> (out: Vec<String>)
        ensures
            strs(out@) == self@.manifest.layers.map_values(layer_digest()),
    {
        let mut out: Vec<String> = Vec::new();
        let mut i: usize = 0;
        while i < self.manifest.layers.len()
            invariant
                i <= self.manifest.layers.len(),
                out.len() == i,
                forall|k: int|
                    0 <= k < i ==> (#[trigger] out@[k])@ == self@.manifest.layers[k].digest,
            decreases self.manifest.layers.len() - i,
        {
            assert(self@.manifest.layers[i as int] == self.manifest.layers@[i as int]@);
            out.push(self.manifest.layers[i].digest.clone());
            i += 1;
        }
        assert(strs(out@) =~= self@.manifest.layers.map_values(layer_digest()));
        out
    }

    /// The blobs of the manifest's layers with their media types, in order.
    fn layer_blobs(&self, store: &Store) -> (out: Vec<(StorePath, String)>)
        ensures
            blobs_of(out@) == self@.manifest.layers.map_values(layer_blob()),
    {
        let mut out: Vec<(StorePath, String)> = Vec::new();
        let mut i: usize = 0;
        while i < self.manifest.layers.len()
            invariant
                i <= self.manifest.layers.len(),
                out.len() == i,
                forall|k: int|
                    0 <= k < i ==> ((#[trigger] out@[k]).0@, out@[k].1@) == layer_blob()(
                        self@.manifest.layers[k],
                    ),
            decreases self.manifest.layers.len() - i,
        {
            assert(self@.manifest.layers[i as int] == self.manifest.layers@[i as int]@);
            let layer = &self.manifest.layers[i];
            out.push((store.layer_path(layer.digest.as_str()), layer.media_type.clone()));
            i += 1;
        }
        assert(blobs_of(out@) =~= self@.manifest.layers.map_values(layer_blob()));
        out
    }

    /// Names the next piece of outside work.
    pub fn task(&self, store: &Store) -> (task: Task)
        ensures
            task@ == self@.task(),
    {
        match self.stage {
            Stage::Manifest => Task::FetchManifest { reference: self.reference.clone() },
            Stage::Probe(i) => {
                if i < self.manifest.layers.len() {
                    assert(self@.manifest.layers[i as int] == self.manifest.layers@[i as int]@);
                    Task::HasBlob {
                        blob: store.layer_path(self.manifest.layers[i].digest.as_str()),
                    }
                } else {
                    Task::Rest
                }
            },
            Stage::Fetch(i) => {
                if i < self.manifest.layers.len() {
                    assert(self@.manifest.layers[i as int] == self.manifest.layers@[i as int]@);
                    Task::FetchBlob {
                        index: i,
                        staging: store.layer_staging_path(self.manifest.layers[i].digest.as_str()),
                    }
                } else {
                    Task::Rest
                }
            },
            Stage::Commit(i) => {
                if i < self.manifest.layers.len() {
                    assert(self@.manifest.layers[i as int] == self.manifest.layers@[i as int]@);
                    Task::CommitBlob {
                        staging: store.layer_staging_path(self.manifest.layers[i].digest.as_str()),
                        blob: store.layer_path(self.manifest.layers[i].digest.as_str()),
                    }
                } else {
                    Task::Rest
                }
            },
            Stage::Config => Task::SaveConfig {
                path: store.config_path(self.manifest.config_digest.as_str()),
                data: self.config.clone(),
            },
            Stage::ProbeRootfs => Task::HasRootfs {
                rootfs: store.rootfs_path(self.digest.as_str()),
            },
            Stage::Clear => Task::ClearStaging {
                staging: store.rootfs_staging_path(self.digest.as_str()),
            },
            Stage::Extract => Task::Extract {
                layers: self.layer_blobs(store),
                staging: store.rootfs_staging_path(self.digest.as_str()),
            },
            Stage::CommitRootfs => Task::CommitRootfs {
                staging: store.rootfs_staging_path(self.digest.as_str()),
                rootfs: store.rootfs_path(self.digest.as_str()),
            },
            Stage::Record => Task::LoadConfig {
                path: store.config_path(self.manifest.config_digest.as_str()),
            },
            Stage::Done => Task::Rest,
            Stage::Failed => Task::Rest,
        }
    }

    /// Takes the outcome of the current task and moves on.
    ///
    /// - The manifest arrives: the layers are dealt with one by one.
    /// - A layer blob exists: it is skipped. It does not: it is downloaded
    ///   to its staging path, renamed, and recorded in the store.
    /// - After the last layer the configuration blob is saved.
    /// - The root filesystem exists: nothing is extracted. It does not: a
    ///   stale staging directory is removed, the layers are extracted into
    ///   a fresh one, and it is renamed.
    /// - The configuration blob is read back and the image is recorded with
    ///   its layers, at time `now`. A layer without a row fails the pull
    ///   with `Db(ForeignKey)`.
    /// - A failed download, write, rename or extraction fails the pull with
    ///   the error it amounts to.
    pub fn advance(&mut self, store: &mut Store, event: Event, now: &str)
        ensures
            (final(self)@, final(store)@) == old(self)@.advance(old(store)@, event@, now@),
            old(store)@.wf() ==> final(store)@.wf(),
    {
        match event {
            Event::Manifest { manifest, digest, config } => {
                if let Stage::Manifest = self.stage {
                    self.manifest = manifest;
                    self.digest = digest;
                    self.config = config;
                    self.stage = self.layer_stage(0);
                }
            },
            Event::Found(found) => {
                match self.stage {
                    Stage::Probe(i) => {
                        if i < self.manifest.layers.len() {
                            if found {
                                self.stage = self.layer_stage(i + 1);
                            } else {
                                self.stage = Stage::Fetch(i);
                            }
                        }
                    },
                    Stage::ProbeRootfs => {
                        if found {
                            self.stage = Stage::Record;
                        } else {
                            self.stage = Stage::Clear;
                        }
                    },
                    _ => {},
                }
            },
            Event::Done => {
                match self.stage {
                    Stage::Fetch(i) => {
                        if i < self.manifest.layers.len() {
                            self.stage = Stage::Commit(i);
                        }
                    },
                    Stage::Commit(i) => {
                        if i < self.manifest.layers.len() {
                            assert(self@.manifest.layers[i as int]
                                == self.manifest.layers@[i as int]@);
                            let layer = &self.manifest.layers[i];
                            let size: u64 = if layer.size < 0 {
                                0
                            } else {
                                layer.size as u64
                            };
                            store.commit_layer(
                                layer.digest.as_str(),
                                layer.media_type.as_str(),
                                size,
                            );
                            self.stage = self.layer_stage(i + 1);
                        }
                    },
                    Stage::Config => {
                        self.stage = Stage::ProbeRootfs;
                    },
                    Stage::Clear => {
                        self.stage = Stage::Extract;
                    },
                    Stage::Extract => {
                        self.stage = Stage::CommitRootfs;
                    },
                    Stage::CommitRootfs => {
                        self.stage = Stage::Record;
                    },
                    _ => {},
                }
            },
            Event::Loaded(data) => {
                if let Stage::Record = self.stage {
                    let digests = self.layer_digests();
                    let size = size_of(&self.manifest.layers);
                    match store.upsert_image(
                        self.reference.as_str(),
                        self.digest.as_str(),
                        size,
                        data,
                        &digests,
                        now,
                    ) {
                        Ok(_) => {
                            proof {
                                assert(recorded_size(size) == size);
                            }
                            self.stage = Stage::Done;
                        },
                        Err(e) => {
                            self.stage = Stage::Failed;
                            self.error = Some(Error::Db(e));
                        },
                    }
                }
            },
            Event::Failed(failure) => {
                match self.stage {
                    Stage::Done => {},
                    Stage::Failed => {},
                    Stage::ProbeRootfs => {},
                    Stage::Record => {},
                    Stage::Probe(_) => {},
                    _ => {
                        self.stage = Stage::Failed;
                        self.error = Some(
                            match failure {
                                Failure::Registry(msg) => Error::Registry(msg),
                                Failure::Io(msg) => Error::Io(msg),
                            },
                        );
                    },
                }
            },
        }
    }

    /// The result of the pull once the image is in the store. `config` is
    /// the image configuration parsed from the JSON that was fetched.
    pub fn result(&self, store: &Store, config: Option<ImageConfig>) -> (r: Option<PullResult>)
        ensures
            r is Some == (self.stage == Stage::Done),
            r matches Some(res) ==> {
                &&& res.reference@ == self@.reference
                &&& res.digest@ == self@.digest
                &&& res.rootfs@ == rootfs_path_spec(self@.digest)
                &&& res.config == config
            },
    {
        match self.stage {
            Stage::Done => Some(
                PullResult {
                    reference: self.reference.clone(),
                    digest: self.digest.clone(),
                    rootfs: store.rootfs_path(self.digest.as_str()),
                    config,
                },
            ),
            _ => None,
        }
    }
}

/// What the name of an archive entry says about the layers below.
#[derive(Debug, Clone, PartialEq, Eq)]
pub enum Whiteout {
    /// Nothing: the entry is an ordinary one.
    Plain,
    /// The sibling with this name is deleted.
    Remove(String),
    /// Everything that lower layers put into the entry's directory is
    /// deleted.
    Opaque,
}

/// Mathematical value of a [`Whiteout`].
pub enum WhiteoutView {
    Plain,
    Remove(Seq<char>),
    Opaque,
}

impl View for Whiteout {
    type V = WhiteoutView;

    open spec fn view(&self) -> WhiteoutView {
        match *self {
            Whiteout::Plain => WhiteoutView::Plain,
            Whiteout::Remove(name) => WhiteoutView::Remove(name@),
            Whiteout::Opaque => WhiteoutView::Opaque,
        }
    }
}

/// What a file name says: `.wh..wh..opq` marks its directory opaque, any
/// other name that starts with `.wh.` deletes the sibling named by the
/// rest, and every other name is an ordinary entry.
pub open spec fn whiteout_spec(name: Seq<char>) -> WhiteoutView {
    if name == ".wh..wh..opq"@ {
        WhiteoutView::Opaque
    } else if ".wh."@.is_prefix_of(name) {
        WhiteoutView::Remove(name.skip(".wh."@.len() as int))
    } else {
        WhiteoutView::Plain
    }
}

/// Classifies the file name of an archive entry while a layer is
/// extracted. Whiteout entries are acted upon and never written out.
pub fn whiteout(name: &str) -> (w: Whiteout)
    ensures
        w@ == whiteout_spec(name@),
{
    if same(name, ".wh..wh..opq") {
        Whiteout::Opaque
    } else if starts_with(name, ".wh.") {
        let v = chars_of(name);
        proof {
            reveal_strlit(".wh.");
            assert(v@.skip(4) =~= v@.subrange(4, v.len() as int));
        }
        Whiteout::Remove(substring(&v, 4, v.len()))
    } else {
        Whiteout::Plain
    }
}

/// An image that is in the store already.
#[derive(Debug, Clone, PartialEq, Eq)]
pub struct Cached {
    /// Canonical image reference string.
    pub reference: String,
    /// Manifest content digest.
    pub digest: String,
    /// Place of the extracted rootfs directory.
    pub rootfs: StorePath,
    /// The image's configuration as JSON, as it was recorded.
    pub config: String,
}

/// Mathematical value of a [`Cached`].
pub struct CachedView {
    pub reference: Seq<char>,
    pub digest: Seq<char>,
    pub rootfs: StorePathView,
    pub config: Seq<char>,
}

impl View for Cached {
    type V = CachedView;

    open spec fn view(&self) -> CachedView {
        CachedView {
            reference: self.reference@,
            digest: self.digest@,
            rootfs: self.rootfs@,
            config: self.config@,
        }
    }
}

/// How an image is made available.
#[derive(Debug, Clone, PartialEq, Eq)]
pub enum Ensure {
    /// It is in the store: nothing is fetched.
    Cached(Cached),
    /// It has to be pulled.
    Pull(Pull),
}

/// Mathematical value of an [`Ensure`].
pub enum EnsureView {
    Cached(CachedView),
    Pull(PullView),
}

impl View for Ensure {
    type V = EnsureView;

    open spec fn view(&self) -> EnsureView {
        match *self {
            Ensure::Cached(c) => EnsureView::Cached(c@),
            Ensure::Pull(p) => EnsureView::Pull(p@),
        }
    }
}

/// OCI image manager backed by the store.
#[derive(Debug, Clone, PartialEq, Eq)]
pub struct Oci {
    /// The image store.
    pub store: Store,
}

impl View for Oci {
    type V = StoreView;

    open spec fn view(&self) -> StoreView {
        self.store@
    }
}

impl StoreView {
    /// The root filesystem to look for before an image is ensured: that of
    /// the digest recorded for the image, if one is.
    pub open spec fn probe(self, reference: Seq<char>) -> Option<StorePathView> {
        match self.digest_of(reference) {
            Some(digest) => Some(rootfs_path_spec(digest)),
            None => None,
        }
    }

    /// How an image is made available. `complete` says whether the root
    /// filesystem of the digest recorded for it exists.
    pub open spec fn ensure(self, reference: Seq<char>, complete: bool) -> Result<
        EnsureView,
        ErrorView,
    > {
        match self.digest_of(reference) {
            Some(digest) => if complete {
                match self.images[self.image_pos(reference)].config {
                    Some(config) => Ok(
                        EnsureView::Cached(
                            CachedView {
                                reference,
                                digest,
                                rootfs: rootfs_path_spec(digest),
                                config,
                            },
                        ),
                    ),
                    None => Err(ErrorView::Db(StoreError::NoConfig)),
                }
            } else {
                Ok(EnsureView::Pull(PullView::start(reference)))
            },
            None => Ok(EnsureView::Pull(PullView::start(reference))),
        }
    }
}

/// The root filesystem to look for before the image that a string names is
/// ensured.
pub open spec fn probe_spec(store: StoreView, image: Seq<char>) -> Result<
    Option<StorePathView>,
    ErrorView,
> {
    match reference_of(image) {
        Err(e) => Err(e),
        Ok(reference) => Ok(store.probe(reference.whole())),
    }
}

/// How the image that a string names is made available.
pub open spec fn ensure_spec(store: StoreView, image: Seq<char>, complete: bool) -> Result<
    EnsureView,
    ErrorView,
> {
    match reference_of(image) {
        Err(e) => Err(e),
        Ok(reference) => store.ensure(reference.whole(), complete),
    }
}

impl Store {
    /// Names the root filesystem directory whose existence decides whether
    /// the image with this canonical reference is cached: that of the
    /// digest recorded for it. `None` when no digest is recorded.
    pub fn probe(&self, reference: &str) -> (path: Option<StorePath>)
        ensures
            match path {
                Some(p) => self@.probe(reference@) == Some(p@),
                None => self@.probe(reference@) is None,
            },
    {
        match self.get_digest(reference) {
            Some(digest) => Some(self.rootfs_path(digest.as_str())),
            None => None,
        }
    }

    /// Returns the cached image with this canonical reference if it is
    /// present, otherwise starts a pull.
    ///
    /// `complete` says whether the directory named by
    /// [`probe`](Self::probe) exists. An image with a recorded digest and
    /// an existing root filesystem is cached: its recorded configuration is
    /// loaded and nothing is fetched; a row without a configuration is an
    /// error. Every other image is pulled.
    pub fn ensure(&self, reference: &str, complete: bool) -> (r: Result<Ensure, Error>)
        ensures
            match r {
                Ok(e) => self@.ensure(reference@, complete) == Ok::<EnsureView, ErrorView>(e@),
                Err(e) => self@.ensure(reference@, complete) == Err::<EnsureView, ErrorView>(e@),
            },
    {
        match self.get_digest(reference) {
            Some(digest) => {
                if complete {
                    match self.load_image_config(reference) {
                        Ok(Some(config)) => {
                            let rootfs = self.rootfs_path(digest.as_str());
                            let reference = reference.to_owned();
                            Ok(Ensure::Cached(Cached { reference, digest, rootfs, config }))
                        },
                        Ok(None) => Ok(Ensure::Pull(Pull::new(reference))),
                        Err(e) => Err(Error::Db(e)),
                    }
                } else {
                    Ok(Ensure::Pull(Pull::new(reference)))
                }
            },
            None => Ok(Ensure::Pull(Pull::new(reference))),
        }
    }
}

impl Oci {
    /// Starts pulling an image from a registry. Fails with
    /// `InvalidReference` when the image string cannot be parsed.
    pub fn pull(&self, image: &str) -> (r: Result<Pull, Error>)
        ensures
            match r {
                Ok(pull) => reference_of(image@) matches Ok(reference) && pull@ == PullView::start(
                    reference.whole(),
                ),
                Err(e) => reference_of(image@) == Err::<crate::image::ReferenceView, ErrorView>(e@),
            },
    {
        match parse_reference(image) {
            Ok(reference) => Ok(Pull::new(reference.whole().as_str())),
            Err(e) => Err(e),
        }
    }

    /// Names the root filesystem directory whose existence decides whether
    /// an image is cached: that of the digest recorded for it. `None` when
    /// no digest is recorded.
    pub fn probe(&self, image: &str) -> (r: Result<Option<StorePath>, Error>)
        ensures
            match r {
                Ok(Some(path)) => probe_spec(self@, image@) == Ok::<
                    Option<StorePathView>,
                    ErrorView,
                >(Some(path@)),
                Ok(None) => probe_spec(self@, image@) == Ok::<Option<StorePathView>, ErrorView>(
                    None,
                ),
                Err(e) => probe_spec(self@, image@) == Err::<Option<StorePathView>, ErrorView>(e@),
            },
    {
        match parse_reference(image) {
            Ok(reference) => Ok(self.store.probe(reference.whole().as_str())),
            Err(e) => Err(e),
        }
    }

    /// Returns the cached image if it is present, otherwise starts a pull.
    ///
    /// `complete` says whether the directory named by
    /// [`probe`](Self::probe) exists. An image with a recorded digest and
    /// an existing root filesystem is cached: its recorded configuration is
    /// loaded and nothing is fetched. Every other image is pulled.
    pub fn ensure(&self, image: &str, complete: bool) -> (r: Result<Ensure, Error>)
        ensures
            match r {
                Ok(e) => ensure_spec(self@, image@, complete) == Ok::<EnsureView, ErrorView>(e@),
                Err(e) => ensure_spec(self@, image@, complete) == Err::<EnsureView, ErrorView>(
                    e@,
                ),
            },
    {
        match parse_reference(image) {
            Ok(reference) => self.store.ensure(reference.whole().as_str(), complete),
            Err(e) => Err(e),
        }
    }

    /// Lists all locally stored images, the most recently created first.
    pub fn images(&self) -> (list: Vec<ImageMeta>)
        ensures
            crate::store::newest_first(crate::store::metas_of(list@)),
            crate::store::metas_of(list@).to_multiset() == self@.images.map_values(
                crate::store::meta_of(),
            ).to_multiset(),
    {
        self.store.list_images()
    }

    /// Removes a locally stored image and says what is left to clean up.
    ///
    /// Layer blobs are counted; only the blobs that nothing counts any more
    /// are to be deleted.
    pub fn remove(&mut self, image: &str) -> (r: Result<Removal, Error>)
        ensures
            match reference_of(image@) {
                Err(e) => r matches Err(err) && err@ == e && final(self)@ == old(self)@,
                Ok(reference) => if old(self)@.orphan_in_use(reference.whole()) {
                    &&& r matches Err(err)
                    &&& err@ == ErrorView::Db(StoreError::ForeignKey)
                    &&& final(self)@ == old(self)@
                } else {
                    &&& r matches Ok(removal)
                    &&& removal@ == old(self)@.removal(reference.whole())
                    &&& final(self)@ == old(self)@.remove_image(reference.whole())
                },
            },
            old(self)@.wf() ==> final(self)@.wf(),
    {
        let reference = match parse_reference(image) {
            Ok(reference) => reference,
            Err(e) => {
                return Err(e);
            },
        };
        match self.store.remove_image(reference.whole().as_str()) {
            Ok(removal) => Ok(removal),
            Err(e) => Err(Error::Db(e)),
        }
    }
}

} // verus!
