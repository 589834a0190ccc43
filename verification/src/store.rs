//! The image store's index: which images are cached, which layers they are
//! made of, and how many times each layer blob is counted.
//!
//! The index has three tables. `images` is keyed by reference, `layers` by
//! digest, and `links` (image to layer, with the layer's position) by the
//! pair of both. A link refers to an existing image and an existing layer.
//! The index is held as plain rows; keeping it on disk is the caller's part.

use vstd::prelude::*;
use sha2::Digest;
use vstd::seq_lib::{to_multiset_build, to_multiset_insert};
use vstd::string::StringExecFns;
use crate::invariants::{lemma_commit_layer_wf, lemma_remove_image_wf, lemma_upsert_image_wf};
use crate::seqs::{any_where, first_where, lemma_first_where_unique};
use crate::text::{
    before, clone_opt, digit_char, lemma_before_irreflexive, lemma_before_transitive, opt_str,
    precedes, replace_char, same, strs, swap,
};

verus! {

/// Largest size that a row can record.
pub const MAX_SIZE: u64 = 0x7fff_ffff_ffff_ffff;

/// A size as it is recorded: capped at [`MAX_SIZE`].
pub open spec fn recorded_size(size: u64) -> u64 {
    if size > MAX_SIZE {
        MAX_SIZE
    } else {
        size
    }
}

/// Metadata for a locally stored image.
#[derive(Debug, Clone, PartialEq, Eq)]
pub struct ImageMeta {
    /// Full image reference string (e.g. `docker.io/library/alpine:latest`).
    pub reference: String,
    /// Manifest content digest (e.g. `sha256:abcdef...`).
    pub digest: String,
    /// Total compressed layer size in bytes.
    pub size: u64,
    /// Timestamp when the image was cached.
    pub created_at: String,
}

/// Mathematical value of an [`ImageMeta`].
pub struct ImageMetaView {
    pub reference: Seq<char>,
    pub digest: Seq<char>,
    pub size: u64,
    pub created_at: Seq<char>,
}

impl View for ImageMeta {
    type V = ImageMetaView;

    open spec fn view(&self) -> ImageMetaView {
        ImageMetaView {
            reference: self.reference@,
            digest: self.digest@,
            size: self.size,
            created_at: self.created_at@,
        }
    }
}

/// One row of the `images` table.
#[derive(Debug, Clone, PartialEq, Eq)]
pub struct ImageRow {
    /// Image reference; the key.
    pub reference: String,
    /// Manifest digest.
    pub digest: String,
    /// Total compressed layer size in bytes.
    pub size: u64,
    /// The image's configuration as JSON, if it could be read.
    pub config: Option<String>,
    /// When the row was last written.
    pub created: String,
}

/// Mathematical value of an [`ImageRow`].
pub struct ImageRowView {
    pub reference: Seq<char>,
    pub digest: Seq<char>,
    pub size: u64,
    pub config: Option<Seq<char>>,
    pub created: Seq<char>,
}

impl View for ImageRow {
    type V = ImageRowView;

    open spec fn view(&self) -> ImageRowView {
        ImageRowView {
            reference: self.reference@,
            digest: self.digest@,
            size: self.size,
            config: opt_str(self.config),
            created: self.created@,
        }
    }
}

/// One row of the `layers` table.
#[derive(Debug, Clone, PartialEq, Eq)]
pub struct LayerRow {
    /// Layer digest; the key.
    pub digest: String,
    /// Media type of the blob.
    pub media_type: String,
    /// Compressed size in bytes.
    pub size: u64,
    /// How many times the blob is counted.
    pub ref_count: i64,
}

/// Mathematical value of a [`LayerRow`].
pub struct LayerRowView {
    pub digest: Seq<char>,
    pub media_type: Seq<char>,
    pub size: u64,
    pub ref_count: i64,
}

impl View for LayerRow {
    type V = LayerRowView;

    open spec fn view(&self) -> LayerRowView {
        LayerRowView {
            digest: self.digest@,
            media_type: self.media_type@,
            size: self.size,
            ref_count: self.ref_count,
        }
    }
}

/// One row of the `links` table: a layer of an image.
#[derive(Debug, Clone, PartialEq, Eq)]
pub struct LinkRow {
    /// Reference of the image.
    pub image_ref: String,
    /// Digest of the layer.
    pub layer_digest: String,
    /// Position of the layer in the image's manifest.
    pub position: usize,
}

/// Mathematical value of a [`LinkRow`].
pub struct LinkRowView {
    pub image_ref: Seq<char>,
    pub layer_digest: Seq<char>,
    pub position: usize,
}

impl View for LinkRow {
    type V = LinkRowView;

    open spec fn view(&self) -> LinkRowView {
        LinkRowView {
            image_ref: self.image_ref@,
            layer_digest: self.layer_digest@,
            position: self.position,
        }
    }
}

/// The views of a list of image rows.
pub open spec fn image_rows(v: Seq<ImageRow>) -> Seq<ImageRowView> {
    v.map_values(|r: ImageRow| r@)
}

/// The views of a list of layer rows.
pub open spec fn layer_rows(v: Seq<LayerRow>) -> Seq<LayerRowView> {
    v.map_values(|r: LayerRow| r@)
}

/// The views of a list of link rows.
pub open spec fn link_rows(v: Seq<LinkRow>) -> Seq<LinkRowView> {
    v.map_values(|r: LinkRow| r@)
}

/// The image rows with this reference.
pub open spec fn is_image(reference: Seq<char>) -> spec_fn(ImageRowView) -> bool {
    |r: ImageRowView| r.reference == reference
}

/// The layer rows with this digest.
pub open spec fn is_layer(digest: Seq<char>) -> spec_fn(LayerRowView) -> bool {
    |r: LayerRowView| r.digest == digest
}

/// The links of this image.
pub open spec fn of_image(reference: Seq<char>) -> spec_fn(LinkRowView) -> bool {
    |l: LinkRowView| l.image_ref == reference
}

/// The links of every other image.
pub open spec fn of_others(reference: Seq<char>) -> spec_fn(LinkRowView) -> bool {
    |l: LinkRowView| l.image_ref != reference
}

/// The links to this layer.
pub open spec fn to_layer(digest: Seq<char>) -> spec_fn(LinkRowView) -> bool {
    |l: LinkRowView| l.layer_digest == digest
}

/// A directory of the store.
#[derive(Debug, Clone, Copy, PartialEq, Eq, Hash, Structural)]
pub enum Dir {
    /// `layers/`: the layer tarballs.
    Layers,
    /// `configs/`: the image configuration blobs.
    Configs,
    /// `rootfs/`: the extracted root filesystems.
    Rootfs,
}

/// A place in the store: a directory and the name of an entry in it.
#[derive(Debug, Clone, PartialEq, Eq, Hash)]
pub struct StorePath {
    /// The directory.
    pub dir: Dir,
    /// The entry's name.
    pub name: String,
}

/// Mathematical value of a [`StorePath`].
pub struct StorePathView {
    pub dir: Dir,
    pub name: Seq<char>,
}

impl View for StorePath {
    type V = StorePathView;

    open spec fn view(&self) -> StorePathView {
        StorePathView { dir: self.dir, name: self.name@ }
    }
}

/// A digest as it appears in file names: with `-` in place of `:`.
pub open spec fn flat(digest: Seq<char>) -> Seq<char> {
    digest.map_values(swap(':', '-'))
}

/// Where a layer tarball lies.
pub open spec fn layer_path_spec(digest: Seq<char>) -> StorePathView {
    StorePathView { dir: Dir::Layers, name: flat(digest) + ".tar.gz"@ }
}

/// Where a layer tarball is written before it is moved into place.
pub open spec fn layer_staging_path_spec(digest: Seq<char>) -> StorePathView {
    StorePathView { dir: Dir::Layers, name: flat(digest) + ".tar.gz.tmp"@ }
}

/// Where a configuration blob lies.
pub open spec fn config_path_spec(digest: Seq<char>) -> StorePathView {
    StorePathView { dir: Dir::Configs, name: flat(digest) + ".json"@ }
}

/// Where an extracted root filesystem lies.
pub open spec fn rootfs_path_spec(digest: Seq<char>) -> StorePathView {
    StorePathView { dir: Dir::Rootfs, name: flat(digest) }
}

/// Where a root filesystem is extracted before it is moved into place.
pub open spec fn rootfs_staging_path_spec(digest: Seq<char>) -> StorePathView {
    StorePathView { dir: Dir::Rootfs, name: flat(digest) + ".tmp"@ }
}

/// The entry of `dir` named after `digest`, with `suffix` added.
fn entry(dir: Dir, digest: &str, suffix: &str) -> (path: StorePath)
    ensures
        path@ == (StorePathView { dir, name: flat(digest@) + suffix@ }),
{
    let mut name = replace_char(digest, ':', '-');
    name.append(suffix);
    StorePath { dir, name }
}

/// Why the index refused a change.
#[derive(Debug, Clone, Copy, PartialEq, Eq, Structural)]
pub enum StoreError {
    /// A link would refer to a layer that has no row, or a layer that is
    /// still linked would lose its row.
    ForeignKey,
    /// The image has no configuration recorded.
    NoConfig,
}

/// The image store: its index of images, layers and links.
#[derive(Debug, Clone, PartialEq, Eq)]
pub struct Store {
    /// The `images` table.
    pub images: Vec<ImageRow>,
    /// The `layers` table.
    pub layers: Vec<LayerRow>,
    /// The `links` table.
    pub links: Vec<LinkRow>,
}

/// Mathematical value of a [`Store`].
pub struct StoreView {
    pub images: Seq<ImageRowView>,
    pub layers: Seq<LayerRowView>,
    pub links: Seq<LinkRowView>,
}

impl View for Store {
    type V = StoreView;

    open spec fn view(&self) -> StoreView {
        StoreView {
            images: image_rows(self.images@),
            layers: layer_rows(self.layers@),
            links: link_rows(self.links@),
        }
    }
}

impl StoreView {
    /// Position of the image's row, or the number of rows if it has none.
    pub open spec fn image_pos(self, reference: Seq<char>) -> int {
        first_where(self.images, is_image(reference))
    }

    /// Position of the layer's row, or the number of rows if it has none.
    pub open spec fn layer_pos(self, digest: Seq<char>) -> int {
        first_where(self.layers, is_layer(digest))
    }

    /// Whether the image has a row.
    pub open spec fn has_image(self, reference: Seq<char>) -> bool {
        self.image_pos(reference) < self.images.len()
    }

    /// Whether the layer has a row.
    pub open spec fn has_layer(self, digest: Seq<char>) -> bool {
        self.layer_pos(digest) < self.layers.len()
    }

    /// The manifest digest recorded for an image, if it has a row.
    pub open spec fn digest_of(self, reference: Seq<char>) -> Option<Seq<char>> {
        if self.has_image(reference) {
            Some(self.images[self.image_pos(reference)].digest)
        } else {
            None
        }
    }

    /// Keys are unique: no two images share a reference, no two layers a
    /// digest, no two links both their image and their layer.
    pub open spec fn keys_unique(self) -> bool {
        &&& forall|i: int, j: int|
            0 <= i < j < self.images.len() ==> (#[trigger] self.images[i]).reference != (
            #[trigger] self.images[j]).reference
        &&& forall|i: int, j: int|
            0 <= i < j < self.layers.len() ==> (#[trigger] self.layers[i]).digest != (
            #[trigger] self.layers[j]).digest
        &&& forall|i: int, j: int|
            0 <= i < j < self.links.len() ==> !({
                &&& (#[trigger] self.links[i]).image_ref == (#[trigger] self.links[j]).image_ref
                &&& self.links[i].layer_digest == self.links[j].layer_digest
            })
    }

    /// Every link refers to an image and a layer that have a row.
    pub open spec fn links_resolve(self) -> bool {
        forall|i: int|
            0 <= i < self.links.len() ==> self.has_image((#[trigger] self.links[i]).image_ref)
                && self.has_layer(self.links[i].layer_digest)
    }

    /// The index's invariant.
    pub open spec fn wf(self) -> bool {
        self.keys_unique() && self.links_resolve()
    }

    /// The index after a layer blob has been committed: a new row counted
    /// once, or the existing row counted once more.
    pub open spec fn commit_layer(
        self,
        digest: Seq<char>,
        media_type: Seq<char>,
        size: u64,
    ) -> Self {
        let i = self.layer_pos(digest);
        if i < self.layers.len() {
            let row = self.layers[i];
            StoreView {
                layers: self.layers.update(
                    i,
                    LayerRowView {
                        ref_count: if row.ref_count < i64::MAX {
                            (row.ref_count + 1) as i64
                        } else {
                            row.ref_count
                        },
                        ..row
                    },
                ),
                ..self
            }
        } else {
            StoreView {
                layers: self.layers.push(
                    LayerRowView { digest, media_type, size: recorded_size(size), ref_count: 1 },
                ),
                ..self
            }
        }
    }
}

/// The link of this image to this layer.
pub open spec fn is_link(reference: Seq<char>, digest: Seq<char>) -> spec_fn(LinkRowView) -> bool {
    |l: LinkRowView| l.image_ref == reference && l.layer_digest == digest
}

/// The image rows of every other reference.
pub open spec fn not_image(reference: Seq<char>) -> spec_fn(ImageRowView) -> bool {
    |r: ImageRowView| r.reference != reference
}

/// The image rows with this manifest digest.
pub open spec fn has_digest(digest: Seq<char>) -> spec_fn(ImageRowView) -> bool {
    |r: ImageRowView| r.digest == digest
}

/// The layer rows that nothing counts any more.
pub open spec fn is_orphan() -> spec_fn(LayerRowView) -> bool {
    |r: LayerRowView| r.ref_count <= 0
}

/// The layer rows that are still counted.
pub open spec fn is_counted() -> spec_fn(LayerRowView) -> bool {
    |r: LayerRowView| r.ref_count > 0
}

/// The digest of a layer row.
pub open spec fn digest_of_layer() -> spec_fn(LayerRowView) -> Seq<char> {
    |r: LayerRowView| r.digest
}

/// A layer row counted once less if the image has a link to it.
pub open spec fn release(links: Seq<LinkRowView>, reference: Seq<char>) -> spec_fn(
    LayerRowView,
) -> LayerRowView {
    |r: LayerRowView|
        if any_where(links, is_link(reference, r.digest)) && r.ref_count > i64::MIN {
            LayerRowView { ref_count: (r.ref_count - 1) as i64, ..r }
        } else {
            r
        }
}

/// The links of an image whose manifest lists the layers `digests`: one per
/// distinct digest, at the position where the digest first occurs.
pub open spec fn links_for(reference: Seq<char>, digests: Seq<Seq<char>>) -> Seq<LinkRowView>
    decreases digests.len(),
{
    if digests.len() == 0 {
        Seq::empty()
    } else {
        let rest = links_for(reference, digests.drop_last());
        if digests.drop_last().contains(digests.last()) {
            rest
        } else {
            rest.push(
                LinkRowView {
                    image_ref: reference,
                    layer_digest: digests.last(),
                    position: (digests.len() - 1) as usize,
                },
            )
        }
    }
}

/// What removing an image leaves to clean up on disk.
#[derive(Debug, Clone, PartialEq, Eq)]
pub struct Removal {
    /// Digests of the layers whose rows were deleted: their blobs go.
    pub blobs: Vec<String>,
    /// Manifest digest of the removed image, if no other image has it: its
    /// root filesystem goes.
    pub rootfs: Option<String>,
}

/// Mathematical value of a [`Removal`].
pub struct RemovalView {
    pub blobs: Seq<Seq<char>>,
    pub rootfs: Option<Seq<char>>,
}

impl View for Removal {
    type V = RemovalView;

    open spec fn view(&self) -> RemovalView {
        RemovalView { blobs: strs(self.blobs@), rootfs: opt_str(self.rootfs) }
    }
}

impl StoreView {
    /// Whether every one of these layers has a row.
    pub open spec fn knows_layers(self, digests: Seq<Seq<char>>) -> bool {
        forall|i: int| 0 <= i < digests.len() ==> self.has_layer(#[trigger] digests[i])
    }

    /// The images with `row` written: in place of the row with its
    /// reference, or as a new row.
    pub open spec fn put_image(self, row: ImageRowView) -> Seq<ImageRowView> {
        let i = self.image_pos(row.reference);
        if i < self.images.len() {
            self.images.update(i, row)
        } else {
            self.images.push(row)
        }
    }

    /// The index after an image has been recorded: its row is written, and
    /// its links are replaced by those of the given layers.
    pub open spec fn upsert_image(
        self,
        reference: Seq<char>,
        digest: Seq<char>,
        size: u64,
        config: Option<Seq<char>>,
        digests: Seq<Seq<char>>,
        now: Seq<char>,
    ) -> Self {
        StoreView {
            images: self.put_image(
                ImageRowView { reference, digest, size: recorded_size(size), config, created: now },
            ),
            layers: self.layers,
            links: self.links.filter(of_others(reference)) + links_for(reference, digests),
        }
    }

    /// The layers after each layer of the image has been counted once less.
    pub open spec fn released(self, reference: Seq<char>) -> Seq<LayerRowView> {
        self.layers.map_values(release(self.links, reference))
    }

    /// Whether some link of another image refers to a layer that nothing
    /// counts any more once the image is gone.
    pub open spec fn orphan_in_use(self, reference: Seq<char>) -> bool {
        let orphans = self.released(reference).filter(is_orphan());
        let links = self.links.filter(of_others(reference));
        exists|i: int, j: int|
            0 <= i < orphans.len() && 0 <= j < links.len() && (#[trigger] links[j]).layer_digest
                == (#[trigger] orphans[i]).digest
    }

    /// The index after an image has been removed: each of its layers is
    /// counted once less, its row and its links are gone, and so are the
    /// rows of the layers that nothing counts any more.
    pub open spec fn remove_image(self, reference: Seq<char>) -> Self {
        StoreView {
            images: self.images.filter(not_image(reference)),
            layers: self.released(reference).filter(is_counted()),
            links: self.links.filter(of_others(reference)),
        }
    }

    /// What is left to clean up on disk once an image has been removed.
    pub open spec fn removal(self, reference: Seq<char>) -> RemovalView {
        RemovalView {
            blobs: self.released(reference).filter(is_orphan()).map_values(digest_of_layer()),
            rootfs: match self.digest_of(reference) {
                Some(digest) => if any_where(
                    self.images.filter(not_image(reference)),
                    has_digest(digest),
                ) {
                    None
                } else {
                    Some(digest)
                },
                None => None,
            },
        }
    }
}

impl ImageRow {
    /// A copy of the row.
    fn copy(&self) -> (row: Self)
        ensures
            row@ == self@,
    {
        ImageRow {
            reference: self.reference.clone(),
            digest: self.digest.clone(),
            size: self.size,
            config: clone_opt(&self.config),
            created: self.created.clone(),
        }
    }
}

impl LinkRow {
    /// A copy of the row.
    fn copy(&self) -> (row: Self)
        ensures
            row@ == self@,
    {
        LinkRow {
            image_ref: self.image_ref.clone(),
            layer_digest: self.layer_digest.clone(),
            position: self.position,
        }
    }
}

impl Store {
    /// A store without rows.
    pub fn new() -> (store: Self)
        ensures
            store@.images.len() == 0,
            store@.layers.len() == 0,
            store@.links.len() == 0,
            store@.wf(),
    {
        Store { images: Vec::new(), layers: Vec::new(), links: Vec::new() }
    }

    /// Returns the path to a layer tarball on disk.
    pub fn layer_path(&self, digest: &str) -> (path: StorePath)
        ensures
            path@ == layer_path_spec(digest@),
    {
        entry(Dir::Layers, digest, ".tar.gz")
    }

    /// Returns a staging path for streaming a layer download. The layer is
    /// written there and then moved to its [`layer_path`](Self::layer_path).
    pub fn layer_staging_path(&self, digest: &str) -> (path: StorePath)
        ensures
            path@ == layer_staging_path_spec(digest@),
    {
        entry(Dir::Layers, digest, ".tar.gz.tmp")
    }

    /// Path to a config blob on disk.
    pub fn config_path(&self, digest: &str) -> (path: StorePath)
        ensures
            path@ == config_path_spec(digest@),
    {
        entry(Dir::Configs, digest, ".json")
    }

    /// Path to an extracted rootfs directory (keyed by manifest digest).
    pub fn rootfs_path(&self, manifest_digest: &str) -> (path: StorePath)
        ensures
            path@ == rootfs_path_spec(manifest_digest@),
    {
        let path = entry(Dir::Rootfs, manifest_digest, "");
        proof {
            reveal_strlit("");
            assert(flat(manifest_digest@) + ""@ =~= flat(manifest_digest@));
        }
        path
    }

    /// Returns a staging path for rootfs extraction.
    pub fn rootfs_staging_path(&self, manifest_digest: &str) -> (path: StorePath)
        ensures
            path@ == rootfs_staging_path_spec(manifest_digest@),
    {
        entry(Dir::Rootfs, manifest_digest, ".tmp")
    }

    /// Position of the image's row, or the number of rows if it has none.
    fn find_image(&self, reference: &str) -> (i: usize)
        ensures
            i == self@.image_pos(reference@),
            i <= self.images.len(),
    {
        let mut i: usize = 0;
        while i < self.images.len() && !same(self.images[i].reference.as_str(), reference)
            invariant
                i <= self.images.len(),
                forall|j: int| 0 <= j < i ==> !is_image(reference@)(#[trigger] self@.images[j]),
            decreases self.images.len() - i,
        {
            assert(self@.images[i as int] == self.images@[i as int]@);
            i += 1;
        }
        proof {
            if i < self.images.len() {
                assert(self@.images[i as int] == self.images@[i as int]@);
            }
            lemma_first_where_unique(self@.images, is_image(reference@), i as int);
        }
        i
    }

    /// Position of the layer's row, or the number of rows if it has none.
    fn find_layer(&self, digest: &str) -> (i: usize)
        ensures
            i == self@.layer_pos(digest@),
            i <= self.layers.len(),
    {
        let mut i: usize = 0;
        while i < self.layers.len() && !same(self.layers[i].digest.as_str(), digest)
            invariant
                i <= self.layers.len(),
                forall|j: int| 0 <= j < i ==> !is_layer(digest@)(#[trigger] self@.layers[j]),
            decreases self.layers.len() - i,
        {
            assert(self@.layers[i as int] == self.layers@[i as int]@);
            i += 1;
        }
        proof {
            if i < self.layers.len() {
                assert(self@.layers[i as int] == self.layers@[i as int]@);
            }
            lemma_first_where_unique(self@.layers, is_layer(digest@), i as int);
        }
        i
    }

    /// Looks up the manifest digest for a reference, if cached.
    pub fn get_digest(&self, reference: &str) -> (digest: Option<String>)
        ensures
            opt_str(digest) == self@.digest_of(reference@),
    {
        let i = self.find_image(reference);
        if i < self.images.len() {
            assert(self@.images[i as int] == self.images@[i as int]@);
            Some(self.images[i].digest.clone())
        } else {
            None
        }
    }

    /// Loads the stored image config JSON for a reference: `None` for an
    /// image without a row, an error for a row without a configuration.
    pub fn load_image_config(&self, reference: &str) -> (r: Result<Option<String>, StoreError>)
        ensures
            !self@.has_image(reference@) ==> r matches Ok(None),
            self@.has_image(reference@) ==> match self@.images[self@.image_pos(
                reference@,
            )].config {
                Some(json) => r matches Ok(Some(found)) && found@ == json,
                None => r == Err::<Option<String>, StoreError>(StoreError::NoConfig),
            },
    {
        let i = self.find_image(reference);
        if i < self.images.len() {
            assert(self@.images[i as int] == self.images@[i as int]@);
            match &self.images[i].config {
                Some(json) => Ok(Some(json.clone())),
                None => Err(StoreError::NoConfig),
            }
        } else {
            Ok(None)
        }
    }

    /// Whether a layer has a row.
    pub fn knows_layer(&self, digest: &str) -> (b: bool)
        ensures
            b == self@.has_layer(digest@),
    {
        self.find_layer(digest) < self.layers.len()
    }

    /// Records a layer blob that has been moved into place: a layer without
    /// a row gets one with a count of 1, a layer with a row is counted once
    /// more.
    pub fn commit_layer(&mut self, digest: &str, media_type: &str, size: u64)
        ensures
            final(self)@ == old(self)@.commit_layer(digest@, media_type@, size),
            old(self)@.wf() ==> final(self)@.wf(),
    {
        proof {
            if self@.wf() {
                lemma_commit_layer_wf(self@, digest@, media_type@, size);
            }
        }
        let i = self.find_layer(digest);
        if i < self.layers.len() {
            assert(self@.layers[i as int] == self.layers@[i as int]@);
            let row = &self.layers[i];
            let counted = LayerRow {
                digest: row.digest.clone(),
                media_type: row.media_type.clone(),
                size: row.size,
                ref_count: if row.ref_count < i64::MAX {
                    row.ref_count + 1
                } else {
                    row.ref_count
                },
            };
            proof {
                assert(layer_rows(self.layers@.update(i as int, counted)) =~= layer_rows(
                    self.layers@,
                ).update(i as int, counted@));
            }
            self.layers.set(i, counted);
        } else {
            let row = LayerRow {
                digest: digest.to_owned(),
                media_type: media_type.to_owned(),
                size: if size > MAX_SIZE {
                    MAX_SIZE
                } else {
                    size
                },
                ref_count: 1,
            };
            proof {
                assert(layer_rows(self.layers@.push(row)) =~= layer_rows(self.layers@).push(row@));
            }
            self.layers.push(row);
        }
    }
    /// The links of every image but this one.
    fn links_except(&self, reference: &str) -> (kept: Vec<LinkRow>)
        ensures
            link_rows(kept@) == self@.links.filter(of_others(reference@)),
    {
        let mut kept: Vec<LinkRow> = Vec::new();
        let mut i: usize = 0;
        proof {
            reveal(Seq::filter);
            assert(link_rows(kept@) =~= self@.links.take(0).filter(of_others(reference@)));
        }
        while i < self.links.len()
            invariant
                i <= self.links.len(),
                link_rows(kept@) == self@.links.take(i as int).filter(of_others(reference@)),
            decreases self.links.len() - i,
        {
            proof {
                assert(self@.links[i as int] == self.links@[i as int]@);
                assert(self@.links.take(i + 1) =~= self@.links.take(i as int).push(
                    self@.links[i as int],
                ));
                self@.links.take(i as int).lemma_filter_push(
                    self@.links[i as int],
                    of_others(reference@),
                );
            }
            if !same(self.links[i].image_ref.as_str(), reference) {
                let row = self.links[i].copy();
                proof {
                    assert(link_rows(kept@.push(row)) =~= link_rows(kept@).push(row@));
                }
                kept.push(row);
            }
            i += 1;
        }
        assert(self@.links.take(self.links.len() as int) =~= self@.links);
        kept
    }

    /// The rows of every image but this one.
    fn images_except(&self, reference: &str) -> (kept: Vec<ImageRow>)
        ensures
            image_rows(kept@) == self@.images.filter(not_image(reference@)),
    {
        let mut kept: Vec<ImageRow> = Vec::new();
        let mut i: usize = 0;
        proof {
            reveal(Seq::filter);
            assert(image_rows(kept@) =~= self@.images.take(0).filter(not_image(reference@)));
        }
        while i < self.images.len()
            invariant
                i <= self.images.len(),
                image_rows(kept@) == self@.images.take(i as int).filter(not_image(reference@)),
            decreases self.images.len() - i,
        {
            proof {
                assert(self@.images[i as int] == self.images@[i as int]@);
                assert(self@.images.take(i + 1) =~= self@.images.take(i as int).push(
                    self@.images[i as int],
                ));
                self@.images.take(i as int).lemma_filter_push(
                    self@.images[i as int],
                    not_image(reference@),
                );
            }
            if !same(self.images[i].reference.as_str(), reference) {
                let row = self.images[i].copy();
                proof {
                    assert(image_rows(kept@.push(row)) =~= image_rows(kept@).push(row@));
                }
                kept.push(row);
            }
            i += 1;
        }
        assert(self@.images.take(self.images.len() as int) =~= self@.images);
        kept
    }

    /// Whether the image has a link to the layer.
    fn is_linked(&self, reference: &str, digest: &str) -> (b: bool)
        ensures
            b == any_where(self@.links, is_link(reference@, digest@)),
    {
        let mut i: usize = 0;
        while i < self.links.len() && !(same(self.links[i].image_ref.as_str(), reference) && same(
            self.links[i].layer_digest.as_str(),
            digest,
        ))
            invariant
                i <= self.links.len(),
                forall|j: int|
                    0 <= j < i ==> !is_link(reference@, digest@)(#[trigger] self@.links[j]),
            decreases self.links.len() - i,
        {
            assert(self@.links[i as int] == self.links@[i as int]@);
            i += 1;
        }
        proof {
            if i < self.links.len() {
                assert(self@.links[i as int] == self.links@[i as int]@);
            }
            lemma_first_where_unique(self@.links, is_link(reference@, digest@), i as int);
        }
        i < self.links.len()
    }

    /// Whether some image has this manifest digest.
    fn digest_in(images: &Vec<ImageRow>, digest: &str) -> (b: bool)
        ensures
            b == any_where(image_rows(images@), has_digest(digest@)),
    {
        let mut i: usize = 0;
        while i < images.len() && !same(images[i].digest.as_str(), digest)
            invariant
                i <= images.len(),
                forall|j: int|
                    0 <= j < i ==> !has_digest(digest@)(#[trigger] image_rows(images@)[j]),
            decreases images.len() - i,
        {
            assert(image_rows(images@)[i as int] == images@[i as int]@);
            i += 1;
        }
        proof {
            if i < images.len() {
                assert(image_rows(images@)[i as int] == images@[i as int]@);
            }
            lemma_first_where_unique(image_rows(images@), has_digest(digest@), i as int);
        }
        i < images.len()
    }

    /// Whether some of these links refers to the layer.
    fn layer_in(links: &Vec<LinkRow>, digest: &str) -> (b: bool)
        ensures
            b == exists|j: int|
                0 <= j < links.len() && (#[trigger] link_rows(links@)[j]).layer_digest == digest@,
    {
        let mut i: usize = 0;
        while i < links.len() && !same(links[i].layer_digest.as_str(), digest)
            invariant
                i <= links.len(),
                forall|j: int|
                    0 <= j < i ==> (#[trigger] link_rows(links@)[j]).layer_digest != digest@,
            decreases links.len() - i,
        {
            assert(link_rows(links@)[i as int] == links@[i as int]@);
            i += 1;
        }
        proof {
            if i < links.len() {
                assert(link_rows(links@)[i as int] == links@[i as int]@);
            }
        }
        i < links.len()
    }

    /// The layers with each layer of the image counted once less.
    fn released(&self, reference: &str) -> (out: Vec<LayerRow>)
        ensures
            layer_rows(out@) == self@.released(reference@),
    {
        let mut out: Vec<LayerRow> = Vec::new();
        let mut i: usize = 0;
        let ghost f = release(self@.links, reference@);
        while i < self.layers.len()
            invariant
                i <= self.layers.len(),
                f == release(self@.links, reference@),
                out.len() == i,
                forall|k: int| 0 <= k < i ==> (#[trigger] out@[k])@ == f(self@.layers[k]),
            decreases self.layers.len() - i,
        {
            assert(self@.layers[i as int] == self.layers@[i as int]@);
            let row = &self.layers[i];
            let linked = self.is_linked(reference, row.digest.as_str());
            let count = if linked && row.ref_count > i64::MIN {
                row.ref_count - 1
            } else {
                row.ref_count
            };
            out.push(
                LayerRow {
                    digest: row.digest.clone(),
                    media_type: row.media_type.clone(),
                    size: row.size,
                    ref_count: count,
                },
            );
            i += 1;
        }
        assert(layer_rows(out@) =~= self@.released(reference@));
        out
    }

    /// Inserts or updates an image record and its layer associations.
    ///
    /// The image's row is written with the given digest, size, configuration
    /// and time, replacing the row of the same reference if there is one.
    /// The image's links are replaced: one link per distinct layer, at the
    /// position where the layer first occurs. Fails with `ForeignKey`,
    /// changing nothing, when one of the layers has no row.
    pub fn upsert_image(
        &mut self,
        reference: &str,
        digest: &str,
        size: u64,
        config: Option<String>,
        layer_digests: &Vec<String>,
        now: &str,
    ) -> (r: Result<(), StoreError>)
        ensures
            old(self)@.knows_layers(strs(layer_digests@)) ==> r is Ok && final(self)@ == old(
                self,
            )@.upsert_image(
                reference@,
                digest@,
                size,
                opt_str(config),
                strs(layer_digests@),
                now@,
            ),
            !old(self)@.knows_layers(strs(layer_digests@)) ==> r == Err::<(), StoreError>(
                StoreError::ForeignKey,
            ) && final(self)@ == old(self)@,
            old(self)@.wf() ==> final(self)@.wf(),
    {
        let ghost digests = strs(layer_digests@);
        proof {
            if self@.wf() && self@.knows_layers(digests) {
                lemma_upsert_image_wf(
                    self@,
                    reference@,
                    digest@,
                    size,
                    opt_str(config),
                    digests,
                    now@,
                );
            }
        }
        let mut k: usize = 0;
        while k < layer_digests.len()
            invariant
                k <= layer_digests.len(),
                digests == strs(layer_digests@),
                forall|i: int| 0 <= i < k ==> self@.has_layer(#[trigger] digests[i]),
            decreases layer_digests.len() - k,
        {
            assert(digests[k as int] == layer_digests@[k as int]@);
            if !self.knows_layer(layer_digests[k].as_str()) {
                return Err(StoreError::ForeignKey);
            }
            k += 1;
        }
        let mut links = self.links_except(reference);
        let ghost kept = link_rows(links@);
        let mut i: usize = 0;
        assert(link_rows(links@) =~= kept + links_for(reference@, digests.take(0)));
        while i < layer_digests.len()
            invariant
                i <= layer_digests.len(),
                digests == strs(layer_digests@),
                link_rows(links@) == kept + links_for(reference@, digests.take(i as int)),
            decreases layer_digests.len() - i,
        {
            let mut j: usize = 0;
            while j < i && !same(layer_digests[j].as_str(), layer_digests[i].as_str())
                invariant
                    j <= i < layer_digests.len(),
                    digests == strs(layer_digests@),
                    forall|m: int| 0 <= m < j ==> (#[trigger] digests[m]) != digests[i as int],
                decreases i - j,
            {
                assert(digests[j as int] == layer_digests@[j as int]@);
                assert(digests[i as int] == layer_digests@[i as int]@);
                j += 1;
            }
            proof {
                let next = digests.take(i + 1);
                assert(next.drop_last() =~= digests.take(i as int));
                assert(next.last() == digests[i as int]);
                assert(digests[i as int] == layer_digests@[i as int]@);
                if j < i {
                    assert(digests[j as int] == layer_digests@[j as int]@);
                    assert(digests.take(i as int)[j as int] == digests[i as int]);
                }
            }
            if j == i {
                let row = LinkRow {
                    image_ref: reference.to_owned(),
                    layer_digest: layer_digests[i].clone(),
                    position: i,
                };
                proof {
                    assert(link_rows(links@.push(row)) =~= link_rows(links@).push(row@));
                    assert((kept + links_for(reference@, digests.take(i as int))).push(row@)
                        =~= kept + links_for(reference@, digests.take(i as int)).push(row@));
                }
                links.push(row);
            }
            i += 1;
        }
        assert(digests.take(layer_digests.len() as int) =~= digests);
        let row = ImageRow {
            reference: reference.to_owned(),
            digest: digest.to_owned(),
            size: if size > MAX_SIZE {
                MAX_SIZE
            } else {
                size
            },
            config,
            created: now.to_owned(),
        };
        let at = self.find_image(reference);
        if at < self.images.len() {
            proof {
                assert(image_rows(self.images@.update(at as int, row)) =~= image_rows(
                    self.images@,
                ).update(at as int, row@));
            }
            self.images.set(at, row);
        } else {
            proof {
                assert(image_rows(self.images@.push(row)) =~= image_rows(self.images@).push(row@));
            }
            self.images.push(row);
        }
        self.links = links;
        Ok(())
    }

    /// Removes an image. Layer blobs are counted and only deleted when
    /// nothing counts them any more.
    ///
    /// Each layer of the image is counted once less; the image's row and its
    /// links are deleted; the rows of all layers with a count of zero or
    /// less are deleted, and their digests are returned so that the blobs
    /// can be unlinked. The image's manifest digest is returned if no other
    /// image has it, so that its root filesystem can be removed. Removing an
    /// image that has no row still clears uncounted layers.
    ///
    /// Fails with `ForeignKey`, changing nothing, when a layer that would
    /// lose its row is still linked to another image.
    pub fn remove_image(&mut self, reference: &str) -> (r: Result<Removal, StoreError>)
        ensures
            match r {
                Ok(removal) => {
                    &&& !old(self)@.orphan_in_use(reference@)
                    &&& final(self)@ == old(self)@.remove_image(reference@)
                    &&& removal@ == old(self)@.removal(reference@)
                },
                Err(e) => {
                    &&& old(self)@.orphan_in_use(reference@)
                    &&& e == StoreError::ForeignKey
                    &&& final(self)@ == old(self)@
                },
            },
            old(self)@.wf() ==> final(self)@.wf(),
    {
        proof {
            if self@.wf() && !self@.orphan_in_use(reference@) {
                lemma_remove_image_wf(self@, reference@);
            }
        }
        let digest = self.get_digest(reference);
        let released = self.released(reference);
        let links = self.links_except(reference);
        let images = self.images_except(reference);
        let ghost all = layer_rows(released@);
        let ghost others = link_rows(links@);
        let mut counted: Vec<LayerRow> = Vec::new();
        let mut blobs: Vec<String> = Vec::new();
        let mut i: usize = 0;
        proof {
            reveal(Seq::filter);
            assert(layer_rows(counted@) =~= all.take(0).filter(is_counted()));
            assert(strs(blobs@) =~= all.take(0).filter(is_orphan()).map_values(digest_of_layer()));
        }
        while i < released.len()
            invariant
                i <= released.len(),
                all == layer_rows(released@),
                all == self@.released(reference@),
                others == link_rows(links@),
                others == self@.links.filter(of_others(reference@)),
                self@ == old(self)@,
                layer_rows(counted@) == all.take(i as int).filter(is_counted()),
                strs(blobs@) == all.take(i as int).filter(is_orphan()).map_values(
                    digest_of_layer(),
                ),
                forall|a: int, j: int|
                    0 <= a < all.take(i as int).filter(is_orphan()).len() && 0 <= j < others.len()
                        ==> (#[trigger] others[j]).layer_digest != (#[trigger] all.take(
                        i as int,
                    ).filter(is_orphan())[a]).digest,
            decreases released.len() - i,
        {
            let ghost row = all[i as int];
            let ghost before = all.take(i as int);
            proof {
                assert(row == released@[i as int]@);
                assert(all.take(i + 1) =~= before.push(row));
                before.lemma_filter_push(row, is_counted());
                before.lemma_filter_push(row, is_orphan());
            }
            if released[i].ref_count > 0 {
                let keep = LayerRow {
                    digest: released[i].digest.clone(),
                    media_type: released[i].media_type.clone(),
                    size: released[i].size,
                    ref_count: released[i].ref_count,
                };
                proof {
                    assert(layer_rows(counted@.push(keep)) =~= layer_rows(counted@).push(keep@));
                }
                counted.push(keep);
            } else {
                if Self::layer_in(&links, released[i].digest.as_str()) {
                    proof {
                        let orphans = all.filter(is_orphan());
                        all.lemma_filter_contains(is_orphan(), i as int);
                        let a = choose|a: int| 0 <= a < orphans.len() && orphans[a] == row;
                        let j = choose|j: int|
                            0 <= j < links.len() && (#[trigger] link_rows(links@)[j]).layer_digest
                                == row.digest;
                        assert(others[j].layer_digest == orphans[a].digest);
                    }
                    return Err(StoreError::ForeignKey);
                }
                let gone = released[i].digest.clone();
                proof {
                    assert(strs(blobs@.push(gone)) =~= strs(blobs@).push(gone@));
                    assert(before.filter(is_orphan()).push(row).map_values(digest_of_layer())
                        =~= before.filter(is_orphan()).map_values(digest_of_layer()).push(
                        row.digest,
                    ));
                }
                blobs.push(gone);
            }
            i += 1;
        }
        assert(all.take(released.len() as int) =~= all);
        let rootfs = match digest {
            Some(d) => {
                if Self::digest_in(&images, d.as_str()) {
                    None
                } else {
                    Some(d)
                }
            },
            None => None,
        };
        self.images = images;
        self.layers = counted;
        self.links = links;
        Ok(Removal { blobs, rootfs })
    }
}

/// The metadata of an image row.
pub open spec fn meta_of() -> spec_fn(ImageRowView) -> ImageMetaView {
    |r: ImageRowView|
        ImageMetaView {
            reference: r.reference,
            digest: r.digest,
            size: r.size,
            created_at: r.created,
        }
}

/// The views of a list of image metadata.
pub open spec fn metas_of(v: Seq<ImageMeta>) -> Seq<ImageMetaView> {
    v.map_values(|m: ImageMeta| m@)
}

/// Whether a list of images has the newest first: none was created before
/// one that follows it.
pub open spec fn newest_first(list: Seq<ImageMetaView>) -> bool {
    forall|i: int, j: int|
        0 <= i < j < list.len() ==> !before(
            (#[trigger] list[i]).created_at,
            (#[trigger] list[j]).created_at,
        )
}

impl Store {
    /// Lists all stored images, the most recently created first. Creation
    /// times are compared as text.
    pub fn list_images(&self) -> (list: Vec<ImageMeta>)
        ensures
            newest_first(metas_of(list@)),
            metas_of(list@).to_multiset() == self@.images.map_values(meta_of()).to_multiset(),
    {
        let ghost all = self@.images.map_values(meta_of());
        let mut list: Vec<ImageMeta> = Vec::new();
        let mut k: usize = 0;
        assert(metas_of(list@) =~= all.take(0));
        while k < self.images.len()
            invariant
                k <= self.images.len(),
                all == self@.images.map_values(meta_of()),
                newest_first(metas_of(list@)),
                metas_of(list@).to_multiset() == all.take(k as int).to_multiset(),
            decreases self.images.len() - k,
        {
            assert(self@.images[k as int] == self.images@[k as int]@);
            let row = &self.images[k];
            let meta = ImageMeta {
                reference: row.reference.clone(),
                digest: row.digest.clone(),
                size: row.size,
                created_at: row.created.clone(),
            };
            assert(meta@ == all[k as int]);
            let ghost sorted = metas_of(list@);
            let mut p: usize = 0;
            while p < list.len() && !precedes(list[p].created_at.as_str(), meta.created_at.as_str())
                invariant
                    p <= list.len(),
                    sorted == metas_of(list@),
                    forall|i: int|
                        0 <= i < p ==> !before((#[trigger] sorted[i]).created_at, meta@.created_at),
                decreases list.len() - p,
            {
                assert(sorted[p as int] == list@[p as int]@);
                p += 1;
            }
            proof {
                let after = sorted.insert(p as int, meta@);
                assert(metas_of(list@.insert(p as int, meta)) =~= after);
                if p < list.len() {
                    assert(sorted[p as int] == list@[p as int]@);
                }
                assert forall|i: int, j: int| 0 <= i < j < after.len() implies !before(
                    (#[trigger] after[i]).created_at,
                    (#[trigger] after[j]).created_at,
                ) by {
                    if j == p {
                        assert(after[i] == sorted[i]);
                        assert(after[j] == meta@);
                    } else if i == p {
                        assert(after[i] == meta@);
                        assert(after[j] == sorted[j - 1]);
                        if before(meta@.created_at, sorted[j - 1].created_at) {
                            lemma_before_transitive(
                                sorted[p as int].created_at,
                                meta@.created_at,
                                sorted[j - 1].created_at,
                            );
                            lemma_before_irreflexive(sorted[p as int].created_at);
                        }
                    } else {
                        let a = if i < p {
                            i
                        } else {
                            i - 1
                        };
                        let b = if j < p {
                            j
                        } else {
                            j - 1
                        };
                        assert(after[i] == sorted[a] && after[j] == sorted[b]);
                    }
                }
                to_multiset_insert(sorted, p as int, meta@);
                assert(all.take(k + 1) =~= all.take(k as int).push(meta@));
                to_multiset_build(all.take(k as int), meta@);
            }
            list.insert(p, meta);
            k += 1;
        }
        assert(all.take(self.images.len() as int) =~= all);
        list
    }
}

/// What SHA-256 gives for a sequence of bytes.
pub uninterp spec fn sha256(data: Seq<u8>) -> Seq<u8>;

/// Hashes `data` with `sha2::Sha256::digest`.
///
/// Trusted: the result is the SHA-256 digest of the bytes, as that
/// function computes it.
#[verifier::external_body]
fn sha256_digest(data: &[u8]) -> (out: Vec<u8>)
    ensures
        out@ == sha256(data@),
{
    sha2::Sha256::digest(data).to_vec()
}

/// Bytes in lower-case hexadecimal, two digits each.
pub open spec fn hex_of(bytes: Seq<u8>) -> Seq<char>
    decreases bytes.len(),
{
    if bytes.len() == 0 {
        Seq::empty()
    } else {
        hex_of(bytes.drop_last()).push(digit_char((bytes.last() / 16) as nat)).push(
            digit_char((bytes.last() % 16) as nat),
        )
    }
}

/// The digest string of a blob: `sha256:` and the hash in hexadecimal.
pub open spec fn digest_of_blob(data: Seq<u8>) -> Seq<char> {
    "sha256:"@ + hex_of(sha256(data))
}

/// The character for a digit below 16.
fn hex_digit(d: u8) -> (c: char)
    requires
        d < 16,
    ensures
        c == digit_char(d as nat),
{
    if d == 0 {
        '0'
    } else if d == 1 {
        '1'
    } else if d == 2 {
        '2'
    } else if d == 3 {
        '3'
    } else if d == 4 {
        '4'
    } else if d == 5 {
        '5'
    } else if d == 6 {
        '6'
    } else if d == 7 {
        '7'
    } else if d == 8 {
        '8'
    } else if d == 9 {
        '9'
    } else if d == 10 {
        'a'
    } else if d == 11 {
        'b'
    } else if d == 12 {
        'c'
    } else if d == 13 {
        'd'
    } else if d == 14 {
        'e'
    } else {
        'f'
    }
}

/// The digest string for a hash: `sha256:` and the hash in lower-case
/// hexadecimal.
pub fn digest_string(hash: &[u8]) -> (text: String)
    ensures
        text@ == "sha256:"@ + hex_of(hash@),
{
    let mut text = "sha256:".to_owned();
    let mut i: usize = 0;
    assert(hash@.take(0) =~= Seq::empty());
    while i < hash.len()
        invariant
            i <= hash.len(),
            text@ == "sha256:"@ + hex_of(hash@.take(i as int)),
        decreases hash.len() - i,
    {
        let b = hash[i];
        proof {
            assert(hash@.take(i + 1).drop_last() =~= hash@.take(i as int));
            assert(hash@.take(i + 1).last() == b);
            assert(("sha256:"@ + hex_of(hash@.take(i as int))).push(
                digit_char((b / 16) as nat),
            ).push(digit_char((b % 16) as nat)) =~= "sha256:"@ + hex_of(hash@.take(i + 1)));
        }
        text.push(hex_digit(b / 16));
        text.push(hex_digit(b % 16));
        i += 1;
    }
    assert(hash@.take(hash.len() as int) =~= hash@);
    text
}

/// Verifies the integrity of a layer blob: whether `digest` is the SHA-256
/// digest string of `data`.
pub fn verify_layer(digest: &str, data: &[u8]) -> (ok: bool)
    ensures
        ok == (digest@ == digest_of_blob(data@)),
{
    let hash = sha256_digest(data);
    let computed = digest_string(hash.as_slice());
    same(computed.as_str(), digest)
}

} // verus!
