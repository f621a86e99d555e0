//! One run of the notifier, from a snapshot to the batches to send: keep the
//! images in use that have an update, drop those already announced, render the
//! rest and split them into batches.

use crate::cache::{key_set, key_view, DedupCache, IdentityKey};
use crate::cup::{Image, Info};
use crate::discord::{opt_view, Embed, EmbedView, Thumbnail};
use vstd::prelude::*;
use vstd::string::*;

verus! {

/// The largest number of embeds that one webhook call may carry.
pub const MAX_BATCH: usize = 10;

/// The colour of every embed.
pub const EMBED_COLOR: u32 = 2326507;

/// Why a run stopped.
#[derive(Debug, Clone, Copy, PartialEq, Eq, Structural)]
pub enum RunError {
    /// The refresh call was not acknowledged.
    SourceUnavailable,
    /// The snapshot lacks the detail of an update.
    SourceData,
    /// The webhook refused a batch.
    SinkDelivery,
}

/// An image is a candidate when it is in use and has an update.
pub open spec fn eligible(img: Image) -> bool {
    img.in_use && img.result.has_update
}

/// `eligible` as a predicate value.
pub open spec fn eligible_pred() -> spec_fn(Image) -> bool {
    |img: Image| eligible(img)
}

/// The candidates of a snapshot, in snapshot order.
pub open spec fn candidates(images: Seq<Image>) -> Seq<Image> {
    images.filter(eligible_pred())
}

/// The new version, or the new digest, of an update.
pub open spec fn new_value(info: Info) -> Seq<char> {
    match info {
        Info::Version { new_version, .. } => new_version@,
        Info::Digest { remote_digest, .. } => remote_digest@,
    }
}

/// The identity key of an image: its repository and the new value of its
/// update, whatever the kind of update. None when the update detail is missing.
pub open spec fn key_of(img: Image) -> Option<(Seq<char>, Seq<char>)> {
    match img.result.info {
        Some(info) => Some((img.parts.repository@, new_value(info))),
        None => None,
    }
}

/// The update detail is there, and a digest update names a local digest.
pub open spec fn detail_complete(img: Image) -> bool {
    match img.result.info {
        Some(Info::Version { .. }) => true,
        Some(Info::Digest { local_digests, .. }) => local_digests@.len() > 0,
        None => false,
    }
}

/// The candidates whose key the cache does not hold.
pub open spec fn fresh_pred(cache: Set<(Seq<char>, Seq<char>)>) -> spec_fn(Image) -> bool {
    |img: Image| !cache.contains(key_of(img)->0)
}

/// The candidates whose key the cache does not hold, in order.
pub open spec fn fresh(cands: Seq<Image>, cache: Set<(Seq<char>, Seq<char>)>) -> Seq<Image> {
    cands.filter(fresh_pred(cache))
}

/// The key of an image whose update detail is known.
pub open spec fn key_pair_of(img: Image) -> (Seq<char>, Seq<char>) {
    key_of(img)->0
}

/// Where the last path segment of `s[..i]` starts.
pub open spec fn segment_start(s: Seq<char>, i: int) -> int
    decreases i,
{
    if i <= 0 {
        0
    } else if s[i - 1] == '/' {
        i
    } else {
        segment_start(s, i - 1)
    }
}

/// What follows the last `/` of `s`, or all of `s` when it has none.
pub open spec fn last_segment_spec(s: Seq<char>) -> Seq<char> {
    s.subrange(segment_start(s, s.len() as int), s.len() as int)
}

/// The text of an embed.
pub open spec fn description_of(name: Seq<char>, info: Info) -> Seq<char> {
    match info {
        Info::Version { current_version, new_version, .. } => "Image "@ + name
            + " running with version "@ + current_version@ + " can be updated to "@
            + new_version@,
        Info::Digest { local_digests, remote_digest } => "Image "@ + name
            + " running with digest "@ + local_digests@[0]@ + " can be updated to "@
            + remote_digest@,
    }
}

/// The embed announcing the update of an image.
pub open spec fn render_spec(img: Image) -> EmbedView {
    let name = last_segment_spec(img.parts.repository@);
    EmbedView {
        title: "New version of "@ + img.parts.repository@,
        description: description_of(name, img.result.info->0),
        color: EMBED_COLOR,
        url: opt_view(img.url),
        thumbnail: "https://cdn.jsdelivr.net/gh/homarr-labs/dashboard-icons/png/"@ + name
            + ".png"@,
    }
}

/// Indices of the candidates of a snapshot: the images in use that have an
/// update, in snapshot order.
pub fn filter_candidates(images: &Vec<Image>) -> (r: Vec<usize>)
    ensures
        forall|k: int| 0 <= k < r@.len() ==> r@[k] < images@.len(),
        r@.map_values(|i: usize| images@[i as int]) == candidates(images@),
{
    let mut r: Vec<usize> = Vec::new();
    let mut i: usize = 0;
    while i < images.len()
        invariant
            i <= images@.len(),
            forall|k: int| 0 <= k < r@.len() ==> r@[k] < images@.len(),
            r@.map_values(|j: usize| images@[j as int]) == images@.subrange(0, i as int).filter(
                eligible_pred(),
            ),
        decreases images@.len() - i,
    {
        let ghost prefix = images@.subrange(0, i as int);
        let ghost before = r@;
        assert(images@.subrange(0, i + 1) =~= prefix.push(images@[i as int]));
        proof {
            prefix.lemma_filter_push(images@[i as int], eligible_pred());
        }
        let img = &images[i];
        if img.in_use && img.result.has_update {
            r.push(i);
            assert(r@.map_values(|j: usize| images@[j as int]) =~= before.map_values(
                |j: usize| images@[j as int],
            ).push(images@[i as int]));
        }
        i = i + 1;
    }
    assert(images@.subrange(0, i as int) =~= images@);
    r
}

/// The identity key of an image whose update detail is known.
pub fn create_pair(image: &Image) -> (r: IdentityKey)
    requires
        image.result.info is Some,
    ensures
        key_of(*image) == Some(key_view(r)),
{
    match &image.result.info {
        Some(Info::Version { new_version, .. }) => (
            image.parts.repository.clone(),
            new_version.clone(),
        ),
        Some(Info::Digest { remote_digest, .. }) => (
            image.parts.repository.clone(),
            remote_digest.clone(),
        ),
        None => (image.parts.repository.clone(), String::new()),
    }
}

/// Whether the update detail of an image is complete.
pub fn has_complete_detail(image: &Image) -> (r: bool)
    ensures
        r == detail_complete(*image),
{
    match &image.result.info {
        Some(Info::Version { .. }) => true,
        Some(Info::Digest { local_digests, .. }) => local_digests.len() > 0,
        None => false,
    }
}

/// What follows the last `/` of a repository path.
pub fn last_segment(s: &str) -> (r: &str)
    ensures
        r@ == last_segment_spec(s@),
{
    let n = s.unicode_len();
    let mut i: usize = n;
    while i > 0 && s.get_char(i - 1) != '/'
        invariant
            i <= n,
            n == s@.len(),
            segment_start(s@, i as int) == segment_start(s@, n as int),
        decreases i,
    {
        i = i - 1;
    }
    s.substring_char(i, n)
}

/// The embed announcing the update of an image.
pub fn render(img: &Image) -> (e: Embed)
    requires
        detail_complete(*img),
    ensures
        e@ == render_spec(*img),
{
    let name = last_segment(img.parts.repository.as_str());
    let mut description = String::from_str("Image ");
    description.append(name);
    match &img.result.info {
        Some(Info::Version { current_version, new_version, .. }) => {
            description.append(" running with version ");
            description.append(current_version.as_str());
            description.append(" can be updated to ");
            description.append(new_version.as_str());
        },
        Some(Info::Digest { local_digests, remote_digest }) => {
            description.append(" running with digest ");
            description.append(local_digests[0].as_str());
            description.append(" can be updated to ");
            description.append(remote_digest.as_str());
        },
        None => {},
    }
    let mut title = String::from_str("New version of ");
    title.append(img.parts.repository.as_str());
    let mut icon = String::from_str("https://cdn.jsdelivr.net/gh/homarr-labs/dashboard-icons/png/");
    icon.append(name);
    icon.append(".png");
    let url = match &img.url {
        Some(u) => Some(u.clone()),
        None => None,
    };
    Embed { title, description, color: EMBED_COLOR, url, thumbnail: Thumbnail { url: icon } }
}

/// `n / b` rounded up.
pub open spec fn ceil_div(n: int, b: int) -> int {
    (n + b - 1) / b
}

/// The items of all batches, in order.
pub open spec fn flatten_views<T>(batches: Seq<Vec<T>>) -> Seq<T> {
    batches.map_values(|v: Vec<T>| v@).flatten()
}

/// Every batch but the last holds `size` items, and the last holds one to `size`.
pub open spec fn batch_sizes_ok<T>(batches: Seq<Vec<T>>, size: int) -> bool {
    &&& forall|i: int| 0 <= i < batches.len() - 1 ==> (#[trigger] batches[i])@.len() == size
    &&& batches.len() > 0 ==> 0 < batches.last()@.len() <= size
}

proof fn lemma_ceil_step(k: int, size: int, m: int)
    requires
        k >= 0,
        0 < m <= size,
    ensures
        ceil_div(k * size + m, size) == k + 1,
{
    assert((k * size + m + size - 1) / size == k + 1) by (nonlinear_arith)
        requires
            k >= 0,
            0 < m <= size,
    ;
}

/// Splits the items into consecutive batches of `size`, the last one possibly
/// shorter: there are `ceil(n / size)` of them, and together they hold the items
/// in their order.
pub fn into_batches<T>(items: Vec<T>, size: usize) -> (r: Vec<Vec<T>>)
    requires
        size > 0,
    ensures
        r@.len() == ceil_div(items@.len() as int, size as int),
        batch_sizes_ok(r@, size as int),
        flatten_views(r@) == items@,
{
    let ghost all = items@;
    let mut rest = items;
    let mut r: Vec<Vec<T>> = Vec::new();
    assert(r@.map_values(|v: Vec<T>| v@) =~= Seq::<Seq<T>>::empty());
    assert(flatten_views(r@) =~= Seq::<T>::empty());
    assert(((size - 1) as int) / (size as int) == 0) by (nonlinear_arith)
        requires
            size > 0,
    ;
    while rest.len() > 0
        invariant
            size > 0,
            flatten_views(r@) + rest@ == all,
            rest@.len() > 0 ==> forall|i: int|
                0 <= i < r@.len() ==> (#[trigger] r@[i])@.len() == size,
            rest@.len() > 0 ==> flatten_views(r@).len() == r@.len() * size,
            batch_sizes_ok(r@, size as int),
            r@.len() == ceil_div(flatten_views(r@).len() as int, size as int),
        decreases rest@.len(),
    {
        let ghost before = r@;
        let ghost k = r@.len() as int;
        let batch: Vec<T>;
        if rest.len() <= size {
            batch = rest;
            rest = Vec::new();
        } else {
            let tail = rest.split_off(size);
            batch = rest;
            rest = tail;
        }
        let ghost m = batch@.len() as int;
        r.push(batch);
        proof {
            assert(r@.map_values(|v: Vec<T>| v@) =~= before.map_values(|v: Vec<T>| v@).push(
                batch@,
            ));
            before.map_values(|v: Vec<T>| v@).lemma_flatten_push(batch@);
            lemma_ceil_step(k, size as int, m);
            assert(k * size + size == (k + 1) * size) by (nonlinear_arith);
            assert(flatten_views(r@) + rest@ =~= flatten_views(before) + (batch@ + rest@));
        }
    }
    assert(flatten_views(r@) + rest@ =~= flatten_views(r@));
    r
}

/// What one run sends, and the keys it records once everything was sent.
pub struct RunPlan {
    /// Keys of the updates that the run announces, in order.
    pub keys: Vec<IdentityKey>,
    /// The embeds to send, batch by batch.
    pub batches: Vec<Vec<Embed>>,
}

/// Every candidate has a complete update detail.
pub open spec fn all_complete(cands: Seq<Image>) -> bool {
    forall|k: int| 0 <= k < cands.len() ==> detail_complete(#[trigger] cands[k])
}

/// The plan announces, in snapshot order, exactly the candidates whose key the
/// cache lacks, in batches of at most `MAX_BATCH`.
pub open spec fn plan_matches(
    p: RunPlan,
    images: Seq<Image>,
    cache: Set<(Seq<char>, Seq<char>)>,
) -> bool {
    let f = fresh(candidates(images), cache);
    &&& p.keys@.map_values(|k: IdentityKey| key_view(k)) == f.map_values(
        |img: Image| key_pair_of(img),
    )
    &&& flatten_views(p.batches@).map_values(|e: Embed| e@) == f.map_values(
        |img: Image| render_spec(img),
    )
    &&& p.batches@.len() == ceil_div(f.len() as int, MAX_BATCH as int)
    &&& batch_sizes_ok(p.batches@, MAX_BATCH as int)
}

/// Plans a run over a snapshot: fails when a candidate lacks its update detail,
/// and otherwise renders and batches the candidates not yet announced.
pub fn plan_run(images: &Vec<Image>, cache: &DedupCache) -> (r: Result<RunPlan, RunError>)
    ensures
        match r {
            Ok(p) => all_complete(candidates(images@)) && plan_matches(p, images@, cache@),
            Err(e) => !all_complete(candidates(images@)) && e == RunError::SourceData,
        },
{
    let idx = filter_candidates(images);
    let ghost cands = candidates(images@);
    let mut keys: Vec<IdentityKey> = Vec::new();
    let mut entries: Vec<Embed> = Vec::new();
    assert(fresh(cands.subrange(0, 0), cache@) =~= Seq::<Image>::empty()) by {
        assert(cands.subrange(0, 0) =~= Seq::<Image>::empty());
        Seq::<Image>::empty().lemma_filter_len(fresh_pred(cache@));
    }
    assert(keys@.map_values(|k: IdentityKey| key_view(k)) =~= Seq::empty());
    assert(entries@.map_values(|e: Embed| e@) =~= Seq::empty());
    let mut j: usize = 0;
    while j < idx.len()
        invariant
            j <= idx@.len(),
            forall|k: int| 0 <= k < idx@.len() ==> idx@[k] < images@.len(),
            idx@.map_values(|i: usize| images@[i as int]) == cands,
            cands == candidates(images@),
            forall|k: int| 0 <= k < j ==> detail_complete(#[trigger] cands[k]),
            keys@.map_values(|k: IdentityKey| key_view(k)) == fresh(
                cands.subrange(0, j as int),
                cache@,
            ).map_values(|img: Image| key_pair_of(img)),
            entries@.map_values(|e: Embed| e@) == fresh(cands.subrange(0, j as int), cache@).map_values(
                |img: Image| render_spec(img),
            ),
        decreases idx@.len() - j,
    {
        let img = &images[idx[j]];
        assert(*img == cands[j as int]);
        if !has_complete_detail(img) {
            return Err(RunError::SourceData);
        }
        let key = create_pair(img);
        let ghost pre = cands.subrange(0, j as int);
        let ghost f = fresh(pre, cache@);
        proof {
            assert(cands.subrange(0, j + 1) =~= pre.push(cands[j as int]));
            pre.lemma_filter_push(cands[j as int], fresh_pred(cache@));
        }
        if !cache.contains(&key) {
            let ghost kb = keys@;
            let ghost eb = entries@;
            entries.push(render(img));
            keys.push(key);
            proof {
                assert(keys@.map_values(|k: IdentityKey| key_view(k)) =~= kb.map_values(
                    |k: IdentityKey| key_view(k),
                ).push(key_view(key)));
                assert(entries@.map_values(|e: Embed| e@) =~= eb.map_values(|e: Embed| e@).push(
                    render_spec(cands[j as int]),
                ));
                assert(f.push(cands[j as int]).map_values(|img: Image| key_pair_of(img))
                    =~= f.map_values(|img: Image| key_pair_of(img)).push(
                    key_pair_of(cands[j as int]),
                ));
                assert(f.push(cands[j as int]).map_values(|img: Image| render_spec(img))
                    =~= f.map_values(|img: Image| render_spec(img)).push(
                    render_spec(cands[j as int]),
                ));
            }
        }
        j = j + 1;
    }
    proof {
        assert(cands.subrange(0, j as int) =~= cands);
    }
    let batches = into_batches(entries, MAX_BATCH);
    Ok(RunPlan { keys, batches })
}

/// The identity key depends only on the repository and the new value of the
/// update: two images that agree on both have the same key, whatever the kind
/// of their updates.
pub proof fn lemma_identity_key_stable(a: Image, b: Image)
    requires
        a.parts.repository@ == b.parts.repository@,
        a.result.info is Some,
        b.result.info is Some,
        new_value(a.result.info->0) == new_value(b.result.info->0),
    ensures
        key_of(a) == key_of(b),
        key_of(a) is Some,
{
}

} // verus!
