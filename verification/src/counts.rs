//! Layer counts and links: when a layer's count equals the number of links
//! to it, and which changes keep it so.

use vstd::prelude::*;
use crate::invariants::{lemma_commit_layer_wf, lemma_remove_image_wf, lemma_upsert_image_wf};
use crate::pull::{layer_digest, layer_size, LayerView};
use crate::seqs::{
    any_where, first_where, lemma_any_where, lemma_filter_none, lemma_filter_sources,
    lemma_first_where, lemma_first_where_push, lemma_first_where_same, lemma_first_where_unique,
};
use crate::store::{
    is_counted, is_layer, is_link, is_orphan, links_for, of_others, to_layer, LayerRowView,
    LinkRowView, StoreView,
};

verus! {

/// The number of links to a layer.
pub open spec fn link_count(links: Seq<LinkRowView>, digest: Seq<char>) -> nat {
    links.filter(to_layer(digest)).len()
}

/// The count recorded for a layer; 0 for a layer without a row.
pub open spec fn count_of(s: StoreView, digest: Seq<char>) -> int {
    if s.has_layer(digest) {
        s.layers[s.layer_pos(digest)].ref_count as int
    } else {
        0
    }
}

/// Every layer is counted as often as it is linked.
pub open spec fn counts_match(s: StoreView) -> bool {
    forall|i: int|
        0 <= i < s.layers.len() ==> (#[trigger] s.layers[i]).ref_count == link_count(
            s.links,
            s.layers[i].digest,
        )
}

/// Whether one of the layers with this digest is committed.
pub open spec fn committed(layers: Seq<LayerView>, fresh: Seq<bool>, digest: Seq<char>) -> bool {
    exists|i: int|
        0 <= i < layers.len() && i < fresh.len() && fresh[i] && (#[trigger] layers[i]).digest
            == digest
}

/// Whether the layer at `i` is the first of the manifest with its digest.
pub open spec fn first_of(layers: Seq<LayerView>, i: int) -> bool {
    forall|j: int| 0 <= j < i ==> (#[trigger] layers[j]).digest != layers[i].digest
}

/// The layers with this digest.
pub open spec fn with_digest(digest: Seq<char>) -> spec_fn(LayerView) -> bool {
    |l: LayerView| l.digest == digest
}

/// The store after the layers marked as fresh have been committed, in
/// order.
pub open spec fn commits(s: StoreView, layers: Seq<LayerView>, fresh: Seq<bool>) -> StoreView
    decreases layers.len(),
{
    if layers.len() == 0 || fresh.len() != layers.len() {
        s
    } else {
        let before = commits(s, layers.drop_last(), fresh.drop_last());
        if fresh.last() {
            before.commit_layer(
                layers.last().digest,
                layers.last().media_type,
                layer_size(layers.last().size),
            )
        } else {
            before
        }
    }
}

/// With unique keys, a row is the row of its digest.
proof fn lemma_row_of_digest(s: StoreView, k: int)
    requires
        s.keys_unique(),
        0 <= k < s.layers.len(),
    ensures
        s.layer_pos(s.layers[k].digest) == k,
        s.has_layer(s.layers[k].digest),
        count_of(s, s.layers[k].digest) == s.layers[k].ref_count,
{
    let d = s.layers[k].digest;
    assert(is_layer(d)(s.layers[k]));
    assert forall|j: int| 0 <= j < k implies !is_layer(d)(#[trigger] s.layers[j]) by {}
    lemma_first_where_unique(s.layers, is_layer(d), k);
}

/// Without the links of one image, a layer has one link less if the image
/// was linked to it, and as many as before if not.
proof fn lemma_count_without(links: Seq<LinkRowView>, reference: Seq<char>, digest: Seq<char>)
    requires
        forall|i: int, j: int|
            0 <= i < j < links.len() ==> !({
                &&& (#[trigger] links[i]).image_ref == (#[trigger] links[j]).image_ref
                &&& links[i].layer_digest == links[j].layer_digest
            }),
    ensures
        link_count(links.filter(of_others(reference)), digest) == link_count(links, digest)
            - if any_where(links, is_link(reference, digest)) {
            1int
        } else {
            0int
        },
    decreases links.len(),
{
    reveal(Seq::filter);
    if links.len() == 0 {
        assert(links.filter(of_others(reference)) =~= links);
    } else {
        let rest = links.drop_last();
        let l = links.last();
        assert(links =~= rest.push(l));
        assert forall|i: int, j: int| 0 <= i < j < rest.len() implies !({
            &&& (#[trigger] rest[i]).image_ref == (#[trigger] rest[j]).image_ref
            &&& rest[i].layer_digest == rest[j].layer_digest
        }) by {
            assert(rest[i] == links[i] && rest[j] == links[j]);
        }
        lemma_count_without(rest, reference, digest);
        rest.lemma_filter_push(l, of_others(reference));
        rest.lemma_filter_push(l, to_layer(digest));
        rest.filter(of_others(reference)).lemma_filter_push(l, to_layer(digest));
        lemma_first_where_push(rest, l, is_link(reference, digest));
        lemma_first_where(rest, is_link(reference, digest));
        if is_link(reference, digest)(l) {
            if any_where(rest, is_link(reference, digest)) {
                let j = first_where(rest, is_link(reference, digest));
                assert(is_link(reference, digest)(rest[j]));
                assert(rest[j] == links[j]);
                assert(l == links[links.len() - 1]);
                assert(false);
            }
        }
    }
}

/// Among the links made for an image, a layer of its manifest has one link
/// and every other layer none.
proof fn lemma_count_links_for(reference: Seq<char>, digests: Seq<Seq<char>>, digest: Seq<char>)
    ensures
        link_count(links_for(reference, digests), digest) == if digests.contains(digest) {
            1nat
        } else {
            0nat
        },
    decreases digests.len(),
{
    reveal(Seq::filter);
    if digests.len() > 0 {
        let rest = digests.drop_last();
        let x = digests.last();
        lemma_count_links_for(reference, rest, digest);
        let inner = links_for(reference, rest);
        if !rest.contains(x) {
            inner.lemma_filter_push(
                LinkRowView {
                    image_ref: reference,
                    layer_digest: x,
                    position: (digests.len() - 1) as usize,
                },
                to_layer(digest),
            );
        }
        if rest.contains(digest) {
            let j = choose|j: int| 0 <= j < rest.len() && rest[j] == digest;
            assert(digests[j] == digest);
        }
        if digests.contains(digest) {
            let j = choose|j: int| 0 <= j < digests.len() && digests[j] == digest;
            if j < rest.len() {
                assert(rest[j] == digest);
            }
        }
        if x == digest {
            assert(digests[digests.len() - 1] == digest);
        }
    }
}

/// A layer without a row has no link, in a store that keeps its invariant.
proof fn lemma_unknown_layer_unlinked(s: StoreView, digest: Seq<char>)
    requires
        s.wf(),
        !s.has_layer(digest),
    ensures
        link_count(s.links, digest) == 0,
{
    lemma_filter_none(s.links, to_layer(digest));
    assert forall|i: int| 0 <= i < s.links.len() implies !to_layer(digest)(
        #[trigger] s.links[i],
    ) by {
        assert(s.has_layer(s.links[i].layer_digest));
    }
}

/// Removing an image keeps the counts: where every layer is counted as
/// often as it is linked, it still is afterwards, no layer loses its row
/// while it is linked, and the invariant holds.
pub proof fn lemma_remove_keeps_counts(s: StoreView, reference: Seq<char>)
    requires
        s.wf(),
        counts_match(s),
    ensures
        !s.orphan_in_use(reference),
        counts_match(s.remove_image(reference)),
        s.remove_image(reference).wf(),
{
    let t = s.remove_image(reference);
    let released = s.released(reference);
    let kept = lemma_filter_sources(released, is_counted());
    assert forall|j: int| 0 <= j < released.len() implies (#[trigger] released[j]).ref_count
        == link_count(t.links, released[j].digest) && released[j].digest == s.layers[j].digest by {
        lemma_count_without(s.links, reference, s.layers[j].digest);
        assert(s.layers[j].ref_count == link_count(s.links, s.layers[j].digest));
    }
    if s.orphan_in_use(reference) {
        let orphans = released.filter(is_orphan());
        let gone = lemma_filter_sources(released, is_orphan());
        let (i, j) = choose|i: int, j: int|
            0 <= i < orphans.len() && 0 <= j < t.links.len() && (#[trigger] t.links[j]).layer_digest
                == (#[trigger] orphans[i]).digest;
        let row = released[gone[i]];
        assert(orphans[i] == row);
        assert(is_orphan()(row));
        lemma_filter_none(t.links, to_layer(row.digest));
        assert(to_layer(row.digest)(t.links[j]));
        assert(false);
    }
    assert forall|k: int| 0 <= k < t.layers.len() implies (#[trigger] t.layers[k]).ref_count
        == link_count(t.links, t.layers[k].digest) by {
        assert(t.layers[k] == released[kept[k]]);
    }
    lemma_remove_image_wf(s, reference);
}

/// What one commit does, layer by layer: the committed layer has a row and
/// is counted once more, every other layer is as before. Images and links
/// are untouched.
proof fn lemma_commit_counts(s: StoreView, digest: Seq<char>, media_type: Seq<char>, size: u64)
    requires
        s.wf(),
        count_of(s, digest) < i64::MAX,
    ensures
        s.commit_layer(digest, media_type, size).wf(),
        s.commit_layer(digest, media_type, size).images == s.images,
        s.commit_layer(digest, media_type, size).links == s.links,
        forall|d: Seq<char>|
            #[trigger] s.commit_layer(digest, media_type, size).has_layer(d) == (s.has_layer(d)
                || d == digest),
        forall|d: Seq<char>|
            #[trigger] count_of(s.commit_layer(digest, media_type, size), d) == count_of(s, d)
                + if d == digest {
                1int
            } else {
                0int
            },
{
    let t = s.commit_layer(digest, media_type, size);
    let i = s.layer_pos(digest);
    lemma_commit_layer_wf(s, digest, media_type, size);
    lemma_first_where(s.layers, is_layer(digest));
    assert forall|d: Seq<char>| t.has_layer(d) == (s.has_layer(d) || d == digest) && count_of(t, d)
        == count_of(s, d) + if d == digest {
        1int
    } else {
        0int
    } by {
        lemma_first_where(s.layers, is_layer(d));
        if i < s.layers.len() {
            assert forall|j: int| 0 <= j < s.layers.len() implies is_layer(d)(
                #[trigger] t.layers[j],
            ) == is_layer(d)(s.layers[j]) by {}
            lemma_first_where_same(t.layers, s.layers, is_layer(d));
            if d != digest && s.has_layer(d) {
                assert(is_layer(d)(s.layers[s.layer_pos(d)]));
            }
        } else {
            lemma_first_where_push(
                s.layers,
                LayerRowView {
                    digest,
                    media_type,
                    size: crate::store::recorded_size(size),
                    ref_count: 1,
                },
                is_layer(d),
            );
        }
    }
}

/// What a series of commits does, layer by layer.
proof fn lemma_commits_counts(s: StoreView, layers: Seq<LayerView>, fresh: Seq<bool>)
    requires
        s.wf(),
        fresh.len() == layers.len(),
        forall|i: int| 0 <= i < layers.len() && fresh[i] ==> first_of(layers, i),
        forall|j: int| 0 <= j < s.layers.len() ==> (#[trigger] s.layers[j]).ref_count < i64::MAX,
    ensures
        commits(s, layers, fresh).wf(),
        commits(s, layers, fresh).images == s.images,
        commits(s, layers, fresh).links == s.links,
        forall|d: Seq<char>|
            #[trigger] commits(s, layers, fresh).has_layer(d) == (s.has_layer(d) || committed(
                layers,
                fresh,
                d,
            )),
        forall|d: Seq<char>|
            #[trigger] count_of(commits(s, layers, fresh), d) == count_of(s, d) + if committed(
                layers,
                fresh,
                d,
            ) {
                1int
            } else {
                0int
            },
    decreases layers.len(),
{
    if layers.len() == 0 {
        assert forall|d: Seq<char>| !committed(layers, fresh, d) by {}
    } else {
        let rest = layers.drop_last();
        let most = fresh.drop_last();
        let last = layers.last();
        let n = layers.len() - 1;
        assert forall|i: int| 0 <= i < rest.len() && most[i] implies first_of(rest, i) by {
            assert(first_of(layers, i));
            assert forall|j: int| 0 <= j < i implies (#[trigger] rest[j]).digest
                != rest[i].digest by {
                assert(layers[j].digest != layers[i].digest);
            }
        }
        lemma_commits_counts(s, rest, most);
        let before = commits(s, rest, most);
        assert forall|d: Seq<char>| committed(layers, fresh, d) == (committed(rest, most, d) || (
        fresh[n] && last.digest == d)) by {
            if committed(rest, most, d) {
                let i = choose|i: int|
                    0 <= i < rest.len() && i < most.len() && most[i] && (#[trigger] rest[i]).digest
                        == d;
                assert(layers[i].digest == d && fresh[i]);
            }
            if committed(layers, fresh, d) {
                let i = choose|i: int|
                    0 <= i < layers.len() && i < fresh.len() && fresh[i] && (
                    #[trigger] layers[i]).digest == d;
                if i < n {
                    assert(rest[i].digest == d && most[i]);
                }
            }
            if fresh[n] && last.digest == d {
                assert(layers[n].digest == d);
            }
        }
        if fresh[n] {
            assert(!committed(rest, most, last.digest)) by {
                if committed(rest, most, last.digest) {
                    let i = choose|i: int|
                        0 <= i < rest.len() && i < most.len() && most[i] && (
                        #[trigger] rest[i]).digest == last.digest;
                    assert(first_of(layers, n));
                    assert(layers[i].digest != layers[n].digest);
                }
            }
            assert(count_of(s, last.digest) < i64::MAX) by {
                if s.has_layer(last.digest) {
                    lemma_first_where(s.layers, is_layer(last.digest));
                }
            }
            lemma_commit_counts(before, last.digest, last.media_type, layer_size(last.size));
        }
    }
}

/// Pulling an image keeps the counts, where a layer's blob is missing
/// exactly if the image was not linked to the layer before, and the image
/// was linked to no layer that its new manifest lacks.
///
/// `fresh[i]` says that the blob of layer `i` was missing, so that it was
/// downloaded and committed; a layer that the manifest lists again finds
/// its blob. The store is the one after these commits and the recording of
/// the image. A first pull of an image whose layers are all new is such a
/// pull, and so is the pull of an image as it was pulled before; the pull
/// of an image that shares a layer with another one is not: the shared
/// blob is there, the layer is linked once more, and its count stays.
pub proof fn lemma_pull_keeps_counts(
    s: StoreView,
    reference: Seq<char>,
    digest: Seq<char>,
    size: u64,
    config: Option<Seq<char>>,
    layers: Seq<LayerView>,
    fresh: Seq<bool>,
    now: Seq<char>,
)
    requires
        s.wf(),
        counts_match(s),
        fresh.len() == layers.len(),
        forall|i: int|
            0 <= i < layers.len() ==> fresh[i] == (first_of(layers, i) && !any_where(
                s.links,
                is_link(reference, (#[trigger] layers[i]).digest),
            )),
        forall|k: int|
            0 <= k < s.links.len() && (#[trigger] s.links[k]).image_ref == reference
                ==> layers.map_values(layer_digest()).contains(s.links[k].layer_digest),
        forall|j: int| 0 <= j < s.layers.len() ==> (#[trigger] s.layers[j]).ref_count < i64::MAX,
    ensures
        commits(s, layers, fresh).knows_layers(layers.map_values(layer_digest())),
        counts_match(
            commits(s, layers, fresh).upsert_image(
                reference,
                digest,
                size,
                config,
                layers.map_values(layer_digest()),
                now,
            ),
        ),
        commits(s, layers, fresh).upsert_image(
            reference,
            digest,
            size,
            config,
            layers.map_values(layer_digest()),
            now,
        ).wf(),
{
    let digests = layers.map_values(layer_digest());
    let s1 = commits(s, layers, fresh);
    lemma_commits_counts(s, layers, fresh);
    assert forall|i: int| 0 <= i < digests.len() implies s1.has_layer(#[trigger] digests[i]) by {
        let d = layers[i].digest;
        assert(digests[i] == d);
        // The first layer with this digest decides.
        lemma_first_where(layers, with_digest(d));
        let i0 = first_where(layers, with_digest(d));
        assert(with_digest(d)(layers[i]));
        assert(i0 <= i) by {
            if i < i0 {
                assert(!with_digest(d)(layers[i]));
            }
        }
        assert(layers[i0].digest == d);
        assert(first_of(layers, i0)) by {
            assert forall|j: int| 0 <= j < i0 implies (#[trigger] layers[j]).digest
                != layers[i0].digest by {
                assert(!with_digest(d)(layers[j]));
            }
        }
        if fresh[i0] {
            assert(committed(layers, fresh, d));
            assert(s1.has_layer(d));
        } else {
            assert(any_where(s.links, is_link(reference, d)));
            lemma_any_where(s.links, is_link(reference, d));
            let k = choose|k: int|
                0 <= k < s.links.len() && is_link(reference, d)(#[trigger] s.links[k]);
            assert(s.links[k].layer_digest == d);
            assert(s.has_layer(s.links[k].layer_digest));
            assert(s1.has_layer(d));
        }
    }
    let t = s1.upsert_image(reference, digest, size, config, digests, now);
    lemma_upsert_image_wf(s1, reference, digest, size, config, digests, now);
    let kept = s.links.filter(of_others(reference));
    let made = links_for(reference, digests);
    assert forall|k: int| 0 <= k < t.layers.len() implies (#[trigger] t.layers[k]).ref_count
        == link_count(t.links, t.layers[k].digest) by {
        let d = t.layers[k].digest;
        lemma_row_of_digest(s1, k);
        // What the row records.
        if s.has_layer(d) {
            lemma_first_where(s.layers, is_layer(d));
            let j = s.layer_pos(d);
            assert(is_layer(d)(s.layers[j]));
            assert(s.layers[j].ref_count == link_count(s.links, s.layers[j].digest));
        } else {
            lemma_unknown_layer_unlinked(s, d);
        }
        assert(count_of(s, d) == link_count(s.links, d));
        // What links there are.
        Seq::filter_distributes_over_add(kept, made, to_layer(d));
        lemma_count_without(s.links, reference, d);
        lemma_count_links_for(reference, digests, d);
        assert(link_count(t.links, d) == link_count(kept, d) + link_count(made, d));
        // A layer is committed exactly if it is in the manifest and the
        // image was not linked to it.
        lemma_any_where(s.links, is_link(reference, d));
        if digests.contains(d) {
            let any = choose|i: int| 0 <= i < digests.len() && digests[i] == d;
            assert(layers[any].digest == d);
            lemma_first_where(layers, with_digest(d));
            let i = first_where(layers, with_digest(d));
            assert(with_digest(d)(layers[any]));
            assert(i <= any) by {
                if any < i {
                    assert(!with_digest(d)(layers[any]));
                }
            }
            assert(layers[i].digest == d);
            assert(first_of(layers, i)) by {
                assert forall|j: int| 0 <= j < i implies (#[trigger] layers[j]).digest
                    != layers[i].digest by {
                    assert(!with_digest(d)(layers[j]));
                }
            }
            if fresh[i] {
                assert(committed(layers, fresh, d));
            } else {
                if committed(layers, fresh, d) {
                    let m = choose|m: int|
                        0 <= m < layers.len() && m < fresh.len() && fresh[m] && (
                        #[trigger] layers[m]).digest == d;
                    assert(first_of(layers, m));
                    if m < i {
                        assert(!with_digest(d)(layers[m]));
                    }
                    if i < m {
                        assert(layers[i].digest != layers[m].digest);
                    }
                    assert(m == i);
                }
            }
        } else {
            if committed(layers, fresh, d) {
                let m = choose|m: int|
                    0 <= m < layers.len() && m < fresh.len() && fresh[m] && (
                    #[trigger] layers[m]).digest == d;
                assert(digests[m] == d);
            }
            if any_where(s.links, is_link(reference, d)) {
                let k2 = choose|k2: int|
                    0 <= k2 < s.links.len() && is_link(reference, d)(#[trigger] s.links[k2]);
                assert(digests.contains(s.links[k2].layer_digest));
            }
        }
    }
}

} // verus!
