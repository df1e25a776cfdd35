use vstd::prelude::*;

use crate::error::ConfigError;
use crate::key_map::{
    assoc_map, lemma_assoc_map_contains, lemma_assoc_map_index, lemma_assoc_map_push, unique_keys,
};
use crate::urls::canon_url;

verus! {

/// Per-channel switches for repodata fetching. A field left `None` means
/// "unspecified": defer to a lower layer, or to the hard-coded default of
/// the feature being enabled.
#[derive(Debug, Clone, Copy, PartialEq, Eq)]
pub struct RepodataChannelConfig {
    /// Disable JLAP compression for repodata.
    pub disable_jlap: Option<bool>,
    /// Disable bzip2 compression for repodata.
    pub disable_bzip2: Option<bool>,
    /// Disable zstd compression for repodata.
    pub disable_zstd: Option<bool>,
    /// Disable the use of sharded repodata.
    pub disable_sharded: Option<bool>,
}

/// The first option if it is set, otherwise the second.
pub open spec fn or_opt(a: Option<bool>, b: Option<bool>) -> Option<bool> {
    if a is Some {
        a
    } else {
        b
    }
}

impl RepodataChannelConfig {
    /// The override that leaves every field unspecified.
    pub open spec fn empty_spec() -> Self {
        RepodataChannelConfig {
            disable_jlap: None,
            disable_bzip2: None,
            disable_zstd: None,
            disable_sharded: None,
        }
    }

    /// All four fields are unspecified.
    pub open spec fn is_empty_spec(self) -> bool {
        self == Self::empty_spec()
    }

    /// Field-by-field merge, self-wins-if-set: a field already set in the
    /// lower-priority side is kept even when the higher-priority side sets
    /// it too; only genuinely unset fields pick up the other side's value.
    /// This is deliberately the opposite precedence direction from the rest
    /// of the aggregate merge and is pinned by a regression test.
    pub open spec fn spec_merge(self, other: Self) -> Self {
        RepodataChannelConfig {
            disable_jlap: or_opt(self.disable_jlap, other.disable_jlap),
            disable_bzip2: or_opt(self.disable_bzip2, other.disable_bzip2),
            disable_zstd: or_opt(self.disable_zstd, other.disable_zstd),
            disable_sharded: or_opt(self.disable_sharded, other.disable_sharded),
        }
    }

    /// Returns the override with every field unspecified.
    pub fn empty() -> (r: Self)
        ensures
            r == Self::empty_spec(),
    {
        RepodataChannelConfig {
            disable_jlap: None,
            disable_bzip2: None,
            disable_zstd: None,
            disable_sharded: None,
        }
    }

    /// Returns whether every field is unspecified.
    pub fn is_empty(&self) -> (r: bool)
        ensures
            r == self.is_empty_spec(),
    {
        self.disable_jlap.is_none() && self.disable_bzip2.is_none() && self.disable_zstd.is_none()
            && self.disable_sharded.is_none()
    }

    /// Merges `other` into `self` field by field, self-wins-if-set.
    pub fn merge(&self, other: Self) -> (r: Self)
        ensures
            r == self.spec_merge(other),
    {
        RepodataChannelConfig {
            disable_jlap: if self.disable_jlap.is_some() {
                self.disable_jlap
            } else {
                other.disable_jlap
            },
            disable_bzip2: if self.disable_bzip2.is_some() {
                self.disable_bzip2
            } else {
                other.disable_bzip2
            },
            disable_zstd: if self.disable_zstd.is_some() {
                self.disable_zstd
            } else {
                other.disable_zstd
            },
            disable_sharded: if self.disable_sharded.is_some() {
                self.disable_sharded
            } else {
                other.disable_sharded
            },
        }
    }
}

impl Default for RepodataChannelConfig {
    /// The default override leaves every field unspecified.
    fn default() -> (r: Self)
        ensures
            r == Self::empty_spec(),
    {
        RepodataChannelConfig::empty()
    }
}

/// Identity laws of the per-channel merge: the empty override is a neutral
/// element on either side.
pub proof fn lemma_channel_merge_identity(a: RepodataChannelConfig, b: RepodataChannelConfig)
    ensures
        RepodataChannelConfig::empty_spec().spec_merge(b) == b,
        a.spec_merge(RepodataChannelConfig::empty_spec()) == a,
{
}

/// A default override plus a per-channel override for specific channels,
/// identified by their canonical URL. A channel absent from `per_channel`
/// behaves exactly as `default`.
#[derive(Debug, Clone, PartialEq, Eq)]
pub struct RepodataConfig {
    /// Default configuration for all channels.
    pub default: RepodataChannelConfig,
    /// Per-channel configuration for repodata, keyed by channel URL.
    pub per_channel: Vec<(String, RepodataChannelConfig)>,
}

/// The mathematical image of a `RepodataConfig`: the default override and
/// the per-channel overrides as a finite map.
#[verifier::ext_equal]
pub struct RepodataConfigView {
    pub default: RepodataChannelConfig,
    pub per_channel: Map<Seq<char>, RepodataChannelConfig>,
}

/// The per-channel map denoted by the association list.
pub open spec fn channel_map(s: Seq<(String, RepodataChannelConfig)>) -> Map<
    Seq<char>,
    RepodataChannelConfig,
> {
    assoc_map(s)
}

impl View for RepodataConfig {
    type V = RepodataConfigView;

    open spec fn view(&self) -> RepodataConfigView {
        RepodataConfigView { default: self.default, per_channel: channel_map(self.per_channel@) }
    }
}

/// Merge of two per-channel maps: a channel present in both sides is merged
/// field by field; one present in a single side survives unchanged.
pub open spec fn spec_merge_channel_maps(
    a: Map<Seq<char>, RepodataChannelConfig>,
    b: Map<Seq<char>, RepodataChannelConfig>,
) -> Map<Seq<char>, RepodataChannelConfig> {
    Map::new(
        |k: Seq<char>| a.contains_key(k) || b.contains_key(k),
        |k: Seq<char>|
            if a.contains_key(k) {
                if b.contains_key(k) {
                    a[k].spec_merge(b[k])
                } else {
                    a[k]
                }
            } else {
                b[k]
            },
    )
}

/// Merge of two resolvers: the defaults are merged as channel overrides and
/// the per-channel maps as `spec_merge_channel_maps`.
pub open spec fn spec_merge_repodata(a: RepodataConfigView, b: RepodataConfigView) -> RepodataConfigView {
    RepodataConfigView {
        default: a.default.spec_merge(b.default),
        per_channel: spec_merge_channel_maps(a.per_channel, b.per_channel),
    }
}

/// Finds the override recorded for `key`, scanning the association list.
fn lookup_channel(entries: &Vec<(String, RepodataChannelConfig)>, key: &String) -> (r: Option<
    RepodataChannelConfig,
>)
    requires
        unique_keys(entries@),
    ensures
        match r {
            Some(c) => channel_map(entries@).contains_key(key@) && channel_map(entries@)[key@]
                == c,
            None => !channel_map(entries@).contains_key(key@),
        },
{
    let mut i: usize = 0;
    while i < entries.len()
        invariant
            unique_keys(entries@),
            0 <= i <= entries@.len(),
            forall|j: int| 0 <= j < i ==> entries@[j].0@ != key@,
        decreases entries@.len() - i,
    {
        let pair = &entries[i];
        if pair.0 == *key {
            proof {
                lemma_assoc_map_index(entries@, i as int);
            }
            return Some(pair.1);
        }
        i += 1;
    }
    proof {
        lemma_assoc_map_contains(entries@, key@);
    }
    None
}

impl RepodataConfig {
    /// The association list carries no two entries for the same channel.
    pub open spec fn wf(self) -> bool {
        unique_keys(self.per_channel@)
    }

    /// The resolver that overrides nothing.
    pub open spec fn empty_view() -> RepodataConfigView {
        RepodataConfigView {
            default: RepodataChannelConfig::empty_spec(),
            per_channel: Map::empty(),
        }
    }

    /// Both the default override and the per-channel map are empty.
    pub open spec fn is_empty_spec(self) -> bool {
        self.default.is_empty_spec() && self.per_channel@.len() == 0
    }

    /// Returns the resolver that overrides nothing.
    pub fn empty() -> (r: Self)
        ensures
            r.wf(),
            r@ == Self::empty_view(),
            r.is_empty_spec(),
    {
        let r = RepodataConfig { default: RepodataChannelConfig::empty(), per_channel: Vec::new() };
        proof {
            assert(r@ =~= Self::empty_view());
        }
        r
    }

    /// Records an override for the channel at `url`, keyed by the URL's
    /// canonical form. Fails with a `Parse` error exactly when the string is
    /// no absolute URL or an override for the same canonical URL is already
    /// recorded; on failure the resolver is unchanged.
    pub fn insert_channel(&mut self, url: &str, cfg: RepodataChannelConfig) -> (r: Result<
        (),
        ConfigError,
    >)
        requires
            old(self).wf(),
        ensures
            final(self).wf(),
            final(self).default == old(self).default,
            match r {
                Ok(()) => canon_url(url@) is Some && !old(self)@.per_channel.contains_key(
                    canon_url(url@)->0,
                ) && final(self)@.per_channel == old(self)@.per_channel.insert(
                    canon_url(url@)->0,
                    cfg,
                ),
                Err(e) => *final(self) == *old(self) && e@ is Parse && (canon_url(url@) is None
                    || old(self)@.per_channel.contains_key(canon_url(url@)->0)),
            },
    {
        let key = match crate::urls::parse_url(url) {
            Some(k) => k,
            None => {
                return Err(
                    ConfigError::Parse(String::from_str("channel key is not a valid URL")),
                );
            },
        };
        if lookup_channel(&self.per_channel, &key).is_some() {
            return Err(
                ConfigError::Parse(String::from_str("channel override already recorded")),
            );
        }
        let ghost snap = self.per_channel@;
        self.per_channel.push((key, cfg));
        proof {
            lemma_assoc_map_push(snap, (key, cfg));
            lemma_assoc_map_contains(snap, key@);
            assert forall|i: int, j: int|
                0 <= i < j < self.per_channel@.len() implies self.per_channel@[i].0@
                != self.per_channel@[j].0@ by {
                if j == self.per_channel@.len() - 1 {
                    assert(snap[i].0@ != key@);
                }
            }
        }
        Ok(())
    }

    /// Returns a copy of the resolver that denotes the same value.
    pub fn duplicate(&self) -> (r: Self)
        ensures
            r.default == self.default,
            r.per_channel@ == self.per_channel@,
            r@ == self@,
            r.wf() == self.wf(),
    {
        let mut per_channel: Vec<(String, RepodataChannelConfig)> = Vec::new();
        let mut i: usize = 0;
        while i < self.per_channel.len()
            invariant
                0 <= i <= self.per_channel@.len(),
                per_channel@.len() == i,
                forall|j: int| 0 <= j < i ==> per_channel@[j] == self.per_channel@[j],
            decreases self.per_channel@.len() - i,
        {
            let pair = &self.per_channel[i];
            per_channel.push((pair.0.clone(), pair.1));
            i += 1;
        }
        proof {
            assert(per_channel@ =~= self.per_channel@);
        }
        RepodataConfig { default: self.default, per_channel }
    }

    /// Returns whether the resolver overrides nothing.
    pub fn is_empty(&self) -> (r: bool)
        ensures
            r == self.is_empty_spec(),
    {
        self.default.is_empty() && self.per_channel.len() == 0
    }

    /// Merges the given resolver into the current one; `other` has the
    /// higher priority. A channel present in both sides is merged field by
    /// field (self-wins-if-set per field); a channel present in only one
    /// side survives unchanged; the defaults are merged as overrides.
    pub fn merge(&self, other: Self) -> (r: Self)
        requires
            self.wf(),
            other.wf(),
        ensures
            r.wf(),
            r@ == spec_merge_repodata(self@, other@),
    {
        let ghost target = spec_merge_channel_maps(self@.per_channel, other@.per_channel);
        let mut per_channel: Vec<(String, RepodataChannelConfig)> = Vec::new();
        let mut i: usize = 0;
        while i < self.per_channel.len()
            invariant
                self.wf(),
                other.wf(),
                target == spec_merge_channel_maps(self@.per_channel, other@.per_channel),
                0 <= i <= self.per_channel@.len(),
                per_channel@.len() == i,
                forall|k: int| 0 <= k < i ==> per_channel@[k].0@ == self.per_channel@[k].0@,
                forall|k: int|
                    0 <= k < i ==> target.contains_key(#[trigger] per_channel@[k].0@)
                        && target[per_channel@[k].0@] == per_channel@[k].1,
                unique_keys(per_channel@),
            decreases self.per_channel@.len() - i,
        {
            let pair = &self.per_channel[i];
            proof {
                lemma_assoc_map_index(self.per_channel@, i as int);
            }
            let merged = match lookup_channel(&other.per_channel, &pair.0) {
                Some(oc) => pair.1.merge(oc),
                None => pair.1.merge(RepodataChannelConfig::empty()),
            };
            per_channel.push((pair.0.clone(), merged));
            i += 1;
        }
        let ghost base_len = per_channel@.len();
        let mut j: usize = 0;
        while j < other.per_channel.len()
            invariant
                self.wf(),
                other.wf(),
                target == spec_merge_channel_maps(self@.per_channel, other@.per_channel),
                0 <= j <= other.per_channel@.len(),
                base_len == self.per_channel@.len(),
                per_channel@.len() >= base_len,
                forall|k: int| 0 <= k < base_len ==> per_channel@[k].0@ == self.per_channel@[k].0@,
                forall|k: int|
                    0 <= k < per_channel@.len() ==> target.contains_key(
                        #[trigger] per_channel@[k].0@,
                    ) && target[per_channel@[k].0@] == per_channel@[k].1,
                unique_keys(per_channel@),
                forall|k: int|
                    base_len <= k < per_channel@.len() ==> exists|jj: int|
                        0 <= jj < j && #[trigger] per_channel@[k].0@
                            == other.per_channel@[jj].0@,
                forall|jj: int|
                    0 <= jj < j ==> self@.per_channel.contains_key(
                        #[trigger] other.per_channel@[jj].0@,
                    ) || exists|k: int|
                        base_len <= k < per_channel@.len() && per_channel@[k].0@
                            == other.per_channel@[jj].0@,
            decreases other.per_channel@.len() - j,
        {
            let pair = &other.per_channel[j];
            proof {
                lemma_assoc_map_index(other.per_channel@, j as int);
                lemma_assoc_map_contains(self.per_channel@, pair.0@);
            }
            let ghost snap = per_channel@;
            if lookup_channel(&self.per_channel, &pair.0).is_none() {
                per_channel.push((pair.0.clone(), pair.1));
                proof {
                    assert forall|k: int|
                        0 <= k < snap.len() implies per_channel@[k] == snap[k] by {}
                    assert forall|k: int|
                        0 <= k < snap.len() implies #[trigger] per_channel@[k].0@
                            != pair.0@ by {
                        if k < base_len {
                            if per_channel@[k].0@ == pair.0@ {
                                assert(self.per_channel@[k].0@ == pair.0@);
                            }
                        } else {
                            let jj = choose|jj: int|
                                0 <= jj < j && #[trigger] snap[k].0@
                                    == other.per_channel@[jj].0@;
                            if per_channel@[k].0@ == pair.0@ {
                                assert(other.per_channel@[jj].0@
                                    == other.per_channel@[j as int].0@);
                            }
                        }
                    }
                    assert forall|k: int|
                        base_len <= k < per_channel@.len() implies exists|jj: int|
                            0 <= jj < j + 1 && #[trigger] per_channel@[k].0@
                                == other.per_channel@[jj].0@ by {
                        if k < per_channel@.len() - 1 {
                            let jj = choose|jj: int|
                                0 <= jj < j && #[trigger] snap[k].0@
                                    == other.per_channel@[jj].0@;
                            assert(0 <= jj < j + 1 && per_channel@[k].0@
                                == other.per_channel@[jj].0@);
                        } else {
                            assert(per_channel@[k].0@ == other.per_channel@[j as int].0@);
                        }
                    }
                }
            }
            proof {
                assert forall|jj: int|
                    0 <= jj < j + 1 implies self@.per_channel.contains_key(
                        #[trigger] other.per_channel@[jj].0@,
                    ) || exists|k: int|
                        base_len <= k < per_channel@.len() && per_channel@[k].0@
                            == other.per_channel@[jj].0@ by {
                    if jj < j {
                        if !self@.per_channel.contains_key(other.per_channel@[jj].0@) {
                            let k = choose|k: int|
                                base_len <= k < snap.len() && snap[k].0@
                                    == other.per_channel@[jj].0@;
                            assert(per_channel@[k].0@ == other.per_channel@[jj].0@);
                        }
                    } else {
                        if !self@.per_channel.contains_key(pair.0@) {
                            assert(per_channel@[per_channel@.len() - 1].0@ == pair.0@);
                        }
                    }
                }
            }
            j += 1;
        }
        proof {
            assert forall|k: Seq<char>| #[trigger]
                target.contains_key(k) implies channel_map(per_channel@).contains_key(k) by {
                lemma_assoc_map_contains(self.per_channel@, k);
                lemma_assoc_map_contains(other.per_channel@, k);
                lemma_assoc_map_contains(per_channel@, k);
                if self@.per_channel.contains_key(k) {
                    let idx = choose|idx: int|
                        0 <= idx < self.per_channel@.len() && self.per_channel@[idx].0@ == k;
                    assert(per_channel@[idx].0@ == k);
                } else {
                    let jj = choose|jj: int|
                        0 <= jj < other.per_channel@.len() && other.per_channel@[jj].0@ == k;
                    let idx = choose|idx: int|
                        base_len <= idx < per_channel@.len() && per_channel@[idx].0@
                            == other.per_channel@[jj].0@;
                    assert(per_channel@[idx].0@ == k);
                }
            }
            assert forall|k: Seq<char>| #[trigger]
                channel_map(per_channel@).contains_key(k) implies target.contains_key(k)
                && channel_map(per_channel@)[k] == target[k] by {
                lemma_assoc_map_contains(per_channel@, k);
                let idx = choose|idx: int|
                    0 <= idx < per_channel@.len() && per_channel@[idx].0@ == k;
                lemma_assoc_map_index(per_channel@, idx);
            }
            assert(channel_map(per_channel@) =~= target);
        }
        let r = RepodataConfig { default: self.default.merge(other.default), per_channel };
        proof {
            assert(r@ =~= spec_merge_repodata(self@, other@));
        }
        r
    }
}

impl Default for RepodataConfig {
    /// The default resolver overrides nothing.
    fn default() -> (r: Self)
        ensures
            r.wf(),
            r@ == Self::empty_view(),
            r.is_empty_spec(),
    {
        RepodataConfig::empty()
    }
}

/// A channel key present in exactly one side of a merge appears unchanged
/// in the merged output.
pub proof fn lemma_repodata_merge_single_side(
    a: RepodataConfigView,
    b: RepodataConfigView,
    k: Seq<char>,
)
    ensures
        a.per_channel.contains_key(k) && !b.per_channel.contains_key(k)
            ==> spec_merge_repodata(a, b).per_channel[k] == a.per_channel[k],
        !a.per_channel.contains_key(k) && b.per_channel.contains_key(k)
            ==> spec_merge_repodata(a, b).per_channel[k] == b.per_channel[k],
{
}

} // verus!
