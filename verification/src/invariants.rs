//! The store's invariant is kept by every change of the index.

use vstd::prelude::*;
use crate::seqs::{lemma_any_where, lemma_filter_sources, lemma_first_where};
use crate::store::{
    is_counted, is_image, is_layer, is_orphan, links_for, not_image, of_others, StoreView,
};

verus! {

/// A layer has a row exactly when some row carries its digest.
pub proof fn lemma_has_layer(s: StoreView, digest: Seq<char>)
    ensures
        s.has_layer(digest) <==> exists|j: int|
            0 <= j < s.layers.len() && (#[trigger] s.layers[j]).digest == digest,
{
    lemma_any_where(s.layers, is_layer(digest));
    if s.has_layer(digest) {
        let j = choose|j: int| 0 <= j < s.layers.len() && is_layer(digest)(#[trigger] s.layers[j]);
        assert(s.layers[j].digest == digest);
    }
    if exists|j: int| 0 <= j < s.layers.len() && (#[trigger] s.layers[j]).digest == digest {
        let j = choose|j: int| 0 <= j < s.layers.len() && (#[trigger] s.layers[j]).digest == digest;
        assert(is_layer(digest)(s.layers[j]));
    }
}

/// An image has a row exactly when some row carries its reference.
pub proof fn lemma_has_image(s: StoreView, reference: Seq<char>)
    ensures
        s.has_image(reference) <==> exists|j: int|
            0 <= j < s.images.len() && (#[trigger] s.images[j]).reference == reference,
{
    lemma_any_where(s.images, is_image(reference));
    if s.has_image(reference) {
        let j = choose|j: int|
            0 <= j < s.images.len() && is_image(reference)(#[trigger] s.images[j]);
        assert(s.images[j].reference == reference);
    }
    if exists|j: int| 0 <= j < s.images.len() && (#[trigger] s.images[j]).reference == reference {
        let j = choose|j: int|
            0 <= j < s.images.len() && (#[trigger] s.images[j]).reference == reference;
        assert(is_image(reference)(s.images[j]));
    }
}

/// Committing a layer keeps the invariant.
pub proof fn lemma_commit_layer_wf(
    s: StoreView,
    digest: Seq<char>,
    media_type: Seq<char>,
    size: u64,
)
    requires
        s.wf(),
    ensures
        s.commit_layer(digest, media_type, size).wf(),
        forall|d: Seq<char>|
            s.has_layer(d) ==> s.commit_layer(digest, media_type, size).has_layer(d),
        s.commit_layer(digest, media_type, size).has_layer(digest),
{
    let t = s.commit_layer(digest, media_type, size);
    let i = s.layer_pos(digest);
    lemma_first_where(s.layers, is_layer(digest));
    assert forall|a: int, b: int| 0 <= a < b < t.layers.len() implies (
    #[trigger] t.layers[a]).digest != (#[trigger] t.layers[b]).digest by {
        if i < s.layers.len() {
            assert(t.layers[a].digest == s.layers[a].digest);
            assert(t.layers[b].digest == s.layers[b].digest);
        } else {
            if b == s.layers.len() {
                assert(!is_layer(digest)(s.layers[a]));
            }
        }
    }
    assert forall|d: Seq<char>| s.has_layer(d) implies t.has_layer(d) by {
        lemma_has_layer(s, d);
        lemma_has_layer(t, d);
        let j = choose|j: int| 0 <= j < s.layers.len() && (#[trigger] s.layers[j]).digest == d;
        assert(t.layers[j].digest == d);
    }
    assert(t.has_layer(digest)) by {
        lemma_has_layer(t, digest);
        if i < s.layers.len() {
            assert(t.layers[i].digest == digest);
        } else {
            assert(t.layers[s.layers.len() as int].digest == digest);
        }
    }
    assert forall|k: int| 0 <= k < t.links.len() implies t.has_image(
        (#[trigger] t.links[k]).image_ref,
    ) && t.has_layer(t.links[k].layer_digest) by {
        assert(s.has_layer(s.links[k].layer_digest));
    }
}

/// The links made for an image belong to it, name layers of its manifest,
/// and name no layer twice.
pub proof fn lemma_links_for(reference: Seq<char>, digests: Seq<Seq<char>>)
    ensures
        forall|k: int|
            0 <= k < links_for(reference, digests).len() ==> (#[trigger] links_for(
                reference,
                digests,
            )[k]).image_ref == reference && digests.contains(
                links_for(reference, digests)[k].layer_digest,
            ),
        forall|a: int, b: int|
            0 <= a < b < links_for(reference, digests).len() ==> (#[trigger] links_for(
                reference,
                digests,
            )[a]).layer_digest != (#[trigger] links_for(reference, digests)[b]).layer_digest,
    decreases digests.len(),
{
    if digests.len() > 0 {
        let rest = digests.drop_last();
        lemma_links_for(reference, rest);
        let links = links_for(reference, digests);
        let inner = links_for(reference, rest);
        assert forall|k: int| 0 <= k < links.len() implies (#[trigger] links[k]).image_ref
            == reference && digests.contains(links[k].layer_digest) by {
            if k < inner.len() {
                let d = inner[k].layer_digest;
                assert(rest.contains(d));
                let j = choose|j: int| 0 <= j < rest.len() && rest[j] == d;
                assert(digests[j] == d);
            } else {
                assert(digests[digests.len() - 1] == links[k].layer_digest);
            }
        }
        assert forall|a: int, b: int| 0 <= a < b < links.len() implies (
        #[trigger] links[a]).layer_digest != (#[trigger] links[b]).layer_digest by {
            if b >= inner.len() {
                assert(rest.contains(inner[a].layer_digest));
            }
        }
    }
}

/// Recording an image keeps the invariant, provided its layers have rows.
pub proof fn lemma_upsert_image_wf(
    s: StoreView,
    reference: Seq<char>,
    digest: Seq<char>,
    size: u64,
    config: Option<Seq<char>>,
    digests: Seq<Seq<char>>,
    now: Seq<char>,
)
    requires
        s.wf(),
        s.knows_layers(digests),
    ensures
        s.upsert_image(reference, digest, size, config, digests, now).wf(),
        s.upsert_image(reference, digest, size, config, digests, now).digest_of(reference) == Some(
            digest,
        ),
        s.upsert_image(reference, digest, size, config, digests, now).has_image(reference),
        s.upsert_image(reference, digest, size, config, digests, now).images[s.upsert_image(
            reference,
            digest,
            size,
            config,
            digests,
            now,
        ).image_pos(reference)].config == config,
{
    let t = s.upsert_image(reference, digest, size, config, digests, now);
    let i = s.image_pos(reference);
    lemma_first_where(s.images, is_image(reference));
    // The images keep their references; the written row is found.
    assert forall|a: int, b: int| 0 <= a < b < t.images.len() implies (
    #[trigger] t.images[a]).reference != (#[trigger] t.images[b]).reference by {
        if i < s.images.len() {
            assert(t.images[a].reference == s.images[a].reference);
            assert(t.images[b].reference == s.images[b].reference);
        } else {
            if b == s.images.len() {
                assert(!is_image(reference)(s.images[a]));
            }
        }
    }
    let at = if i < s.images.len() {
        i
    } else {
        s.images.len() as int
    };
    assert(is_image(reference)(t.images[at]));
    assert forall|j: int| 0 <= j < at implies !is_image(reference)(#[trigger] t.images[j]) by {
        assert(!is_image(reference)(s.images[j]));
    }
    crate::seqs::lemma_first_where_unique(t.images, is_image(reference), at);
    assert forall|r: Seq<char>| s.has_image(r) implies t.has_image(r) by {
        lemma_has_image(s, r);
        lemma_has_image(t, r);
        let j = choose|j: int| 0 <= j < s.images.len() && (#[trigger] s.images[j]).reference == r;
        if j == i {
            assert(t.images[j].reference == r);
        } else {
            assert(t.images[j] == s.images[j]);
        }
    }
    // The links: those of the other images, then those of this one.
    let kept = s.links.filter(of_others(reference));
    let made = links_for(reference, digests);
    let src = lemma_filter_sources(s.links, of_others(reference));
    lemma_links_for(reference, digests);
    assert forall|a: int, b: int| 0 <= a < b < t.links.len() implies !({
        &&& (#[trigger] t.links[a]).image_ref == (#[trigger] t.links[b]).image_ref
        &&& t.links[a].layer_digest == t.links[b].layer_digest
    }) by {
        if b < kept.len() {
            assert(t.links[a] == s.links[src[a]] && t.links[b] == s.links[src[b]]);
        } else if a < kept.len() {
            assert(t.links[a] == s.links[src[a]]);
            assert(t.links[b] == made[b - kept.len()]);
        } else {
            assert(t.links[a] == made[a - kept.len()]);
            assert(t.links[b] == made[b - kept.len()]);
        }
    }
    assert forall|k: int| 0 <= k < t.links.len() implies t.has_image(
        (#[trigger] t.links[k]).image_ref,
    ) && t.has_layer(t.links[k].layer_digest) by {
        if k < kept.len() {
            assert(t.links[k] == s.links[src[k]]);
            assert(s.has_image(s.links[src[k]].image_ref));
        } else {
            let l = made[k - kept.len()];
            assert(t.links[k] == l);
            let j = choose|j: int| 0 <= j < digests.len() && digests[j] == l.layer_digest;
            assert(s.has_layer(digests[j]));
        }
    }
}

/// Removing an image keeps the invariant, provided no layer that loses its
/// row is still linked.
pub proof fn lemma_remove_image_wf(s: StoreView, reference: Seq<char>)
    requires
        s.wf(),
        !s.orphan_in_use(reference),
    ensures
        s.remove_image(reference).wf(),
        !s.remove_image(reference).has_image(reference),
        forall|k: int|
            0 <= k < s.remove_image(reference).layers.len() ==> (#[trigger] s.remove_image(
                reference,
            ).layers[k]).ref_count > 0,
{
    let t = s.remove_image(reference);
    let released = s.released(reference);
    let images = lemma_filter_sources(s.images, not_image(reference));
    let layers = lemma_filter_sources(released, is_counted());
    let links = lemma_filter_sources(s.links, of_others(reference));
    assert forall|a: int, b: int| 0 <= a < b < t.images.len() implies (
    #[trigger] t.images[a]).reference != (#[trigger] t.images[b]).reference by {
        assert(t.images[a] == s.images[images[a]] && t.images[b] == s.images[images[b]]);
    }
    assert forall|a: int, b: int| 0 <= a < b < t.layers.len() implies (
    #[trigger] t.layers[a]).digest != (#[trigger] t.layers[b]).digest by {
        assert(t.layers[a] == released[layers[a]] && t.layers[b] == released[layers[b]]);
        assert(released[layers[a]].digest == s.layers[layers[a]].digest);
        assert(released[layers[b]].digest == s.layers[layers[b]].digest);
    }
    assert forall|a: int, b: int| 0 <= a < b < t.links.len() implies !({
        &&& (#[trigger] t.links[a]).image_ref == (#[trigger] t.links[b]).image_ref
        &&& t.links[a].layer_digest == t.links[b].layer_digest
    }) by {
        assert(t.links[a] == s.links[links[a]] && t.links[b] == s.links[links[b]]);
    }
    assert(!t.has_image(reference)) by {
        lemma_has_image(t, reference);
        if exists|j: int|
            0 <= j < t.images.len() && (#[trigger] t.images[j]).reference == reference {
            let j = choose|j: int|
                0 <= j < t.images.len() && (#[trigger] t.images[j]).reference == reference;
            assert(not_image(reference)(s.images[images[j]]));
        }
    }
    assert forall|k: int| 0 <= k < t.layers.len() implies (#[trigger] t.layers[k]).ref_count
        > 0 by {
        assert(is_counted()(released[layers[k]]));
    }
    let orphans = released.filter(is_orphan());
    let gone = lemma_filter_sources(released, is_orphan());
    assert forall|k: int| 0 <= k < t.links.len() implies t.has_image(
        (#[trigger] t.links[k]).image_ref,
    ) && t.has_layer(t.links[k].layer_digest) by {
        let l = s.links[links[k]];
        assert(t.links[k] == l);
        assert(of_others(reference)(l));
        // The image of the link is another one: its row stays.
        lemma_has_image(s, l.image_ref);
        lemma_has_image(t, l.image_ref);
        let i = choose|i: int|
            0 <= i < s.images.len() && (#[trigger] s.images[i]).reference == l.image_ref;
        assert(not_image(reference)(s.images[i]));
        let a = choose|a: int| 0 <= a < images.len() && #[trigger] images[a] == i;
        assert(t.images[a].reference == l.image_ref);
        // The layer of the link is counted, or it would be an orphan in use.
        lemma_has_layer(s, l.layer_digest);
        lemma_has_layer(t, l.layer_digest);
        let j = choose|j: int|
            0 <= j < s.layers.len() && (#[trigger] s.layers[j]).digest == l.layer_digest;
        assert(released[j].digest == l.layer_digest);
        if is_orphan()(released[j]) {
            let b = choose|b: int| 0 <= b < gone.len() && #[trigger] gone[b] == j;
            assert(orphans[b].digest == t.links[k].layer_digest);
            assert(false);
        }
        assert(is_counted()(released[j]));
        let c = choose|c: int| 0 <= c < layers.len() && #[trigger] layers[c] == j;
        assert(t.layers[c].digest == l.layer_digest);
    }
}

/// After an image has been removed, no layer with a count of zero or less
/// remains: every layer that is left is counted, and every layer whose
/// count fell to zero or below is among the blobs to delete.
pub proof fn lemma_remove_leaves_no_orphan(s: StoreView, reference: Seq<char>)
    ensures
        forall|k: int|
            0 <= k < s.remove_image(reference).layers.len() ==> (#[trigger] s.remove_image(
                reference,
            ).layers[k]).ref_count > 0,
        forall|j: int|
            0 <= j < s.released(reference).len() && (#[trigger] s.released(reference)[j]).ref_count
                <= 0 ==> s.removal(reference).blobs.contains(s.released(reference)[j].digest),
        !s.remove_image(reference).has_image(reference),
{
    let t = s.remove_image(reference);
    let released = s.released(reference);
    let kept = lemma_filter_sources(released, is_counted());
    let gone = lemma_filter_sources(released, is_orphan());
    assert forall|k: int| 0 <= k < t.layers.len() implies (#[trigger] t.layers[k]).ref_count
        > 0 by {
        assert(is_counted()(released[kept[k]]));
    }
    let blobs = s.removal(reference).blobs;
    assert forall|j: int|
        0 <= j < released.len() && (#[trigger] released[j]).ref_count <= 0 implies blobs.contains(
        released[j].digest,
    ) by {
        assert(is_orphan()(released[j]));
        let b = choose|b: int| 0 <= b < gone.len() && #[trigger] gone[b] == j;
        assert(blobs[b] == released[j].digest);
    }
    let images = lemma_filter_sources(s.images, not_image(reference));
    lemma_has_image(t, reference);
    if exists|j: int| 0 <= j < t.images.len() && (#[trigger] t.images[j]).reference == reference {
        let j = choose|j: int|
            0 <= j < t.images.len() && (#[trigger] t.images[j]).reference == reference;
        assert(not_image(reference)(s.images[images[j]]));
    }
}

} // verus!
