use crate::rank::{lemma_ranking_is_ranked, positions, rank, ranking};
use crate::types::{feature_views, Feature, FeatureStatus, FeatureView};
use vstd::prelude::*;
use vstd::string::{StringExecFns, StringSliceAdditionalSpecFns};
use vstd::utf8::{decode_utf8, encode_utf8, encode_utf8_decode_utf8, is_char_boundary};

verus! {

/// The canonical label of a status: the word by which it is written,
/// shown and matched.
pub open spec fn status_label_text(status: FeatureStatus) -> Seq<char> {
    match status {
        FeatureStatus::Pending => "Pending"@,
        FeatureStatus::InProgress => "InProgress"@,
        FeatureStatus::Blocked => "Blocked"@,
        FeatureStatus::Complete => "Complete"@,
    }
}

/// The canonical label of `status`.
pub fn status_label(status: FeatureStatus) -> (label: &'static str)
    ensures
        label@ == status_label_text(status),
{
    match status {
        FeatureStatus::Pending => "Pending",
        FeatureStatus::InProgress => "InProgress",
        FeatureStatus::Blocked => "Blocked",
        FeatureStatus::Complete => "Complete",
    }
}

/// The features among `features` whose status is `Complete`.
pub open spec fn complete_ones(features: Seq<FeatureView>) -> Seq<FeatureView> {
    features.filter(|f: FeatureView| f.status == FeatureStatus::Complete)
}

/// How many of `features` are complete.
pub fn count_complete(features: &Vec<Feature>) -> (count: usize)
    ensures
        count == complete_ones(feature_views(features@)).len(),
{
    let ghost all = feature_views(features@);
    let mut count: usize = 0;
    let mut i: usize = 0;
    proof {
        assert(all.take(0) =~= Seq::empty());
        reveal(Seq::filter);
    }
    while i < features.len()
        invariant
            i <= features.len(),
            all == feature_views(features@),
            count <= i,
            count == complete_ones(all.take(i as int)).len(),
        decreases features.len() - i,
    {
        proof {
            let done = all.take(i as int);
            assert(all.take(i + 1) =~= done.push(all[i as int]));
            done.lemma_filter_push(all[i as int], |f: FeatureView| f.status == FeatureStatus::Complete);
        }
        if features[i].is_complete() {
            count += 1;
        }
        i += 1;
    }
    proof {
        assert(all.take(features.len() as int) =~= all);
    }
    count
}

/// `text` cut to fit `max_len` bytes: the text itself where it fits, else
/// its first `max_len - 2` bytes followed by two dots.
pub open spec fn truncated(text: Seq<char>, max_len: int) -> Seq<char> {
    let bytes = encode_utf8(text);
    if bytes.len() <= max_len {
        text
    } else {
        decode_utf8(bytes.subrange(0, max_len - 2)) + ".."@
    }
}

/// Whether `text` can be cut to fit `max_len` bytes: it fits as it is, or
/// there is room for the two dots and the cut falls between characters.
pub open spec fn can_truncate(text: Seq<char>, max_len: int) -> bool {
    let bytes = encode_utf8(text);
    bytes.len() > max_len ==> max_len >= 2 && is_char_boundary(bytes, max_len - 2)
}

/// Cuts `s` to fit `max_len` bytes, marking a cut by two dots at the end.
pub fn truncate(s: &str, max_len: usize) -> (out: String)
    requires
        can_truncate(s@, max_len as int),
    ensures
        out@ == truncated(s@, max_len as int),
{
    if s.as_bytes().len() <= max_len {
        s.to_owned()
    } else {
        let (head, _) = s.split_at(max_len - 2);
        proof {
            let bytes = encode_utf8(s@);
            assert(s.spec_bytes() == bytes);
            assert(head.spec_bytes() == encode_utf8(head@));
            assert(encode_utf8(head@) == bytes.subrange(0, max_len - 2));
            encode_utf8_decode_utf8(head@);
            assert(decode_utf8(bytes.subrange(0, max_len - 2)) == head@);
        }
        let mut out = head.to_owned();
        out.append("..");
        out
    }
}

/// The recency scores of a list of features, in order.
pub open spec fn scores_of(features: Seq<FeatureView>) -> Seq<u64> {
    features.map_values(|f: FeatureView| f.recency_score)
}

/// The positions of `features` in the order in which they are shown: from
/// the highest recency score down, features of equal score in their own
/// order.
pub fn recency_order(features: &Vec<Feature>) -> (order: Vec<usize>)
    ensures
        positions(order@) == ranking(scores_of(feature_views(features@)), features@.len()),
        order@.len() == features@.len(),
        forall|k: int| 0 <= k < order@.len() ==> #[trigger] order@[k] < features@.len(),
{
    let mut scores: Vec<u64> = Vec::new();
    let mut i: usize = 0;
    while i < features.len()
        invariant
            i <= features.len(),
            scores@ =~= scores_of(feature_views(features@)).take(i as int),
        decreases features.len() - i,
    {
        scores.push(features[i].recency_score);
        i += 1;
    }
    proof {
        let all = scores_of(feature_views(features@));
        assert(all.take(features@.len() as int) =~= all);
        lemma_ranking_is_ranked(all, features@.len());
    }
    let order = rank(&scores, features.len());
    proof {
        assert forall|k: int| 0 <= k < order@.len() implies #[trigger] order@[k]
            < features@.len() by {
            assert(positions(order@)[k] == order@[k] as int);
        }
    }
    order
}

} // verus!
