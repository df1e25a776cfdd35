use vstd::prelude::*;

use crate::error::{ConfigError, ConfigErrorView};
use crate::key_map::{lemma_assoc_map_contains, lemma_assoc_map_index, unique_keys};
use crate::repodata_config::{
    channel_map, RepodataChannelConfig, RepodataConfig, RepodataConfigView,
};
use crate::urls::canon_url;

verus! {

/// One parsed TOML value, as handed to the schema layer by the I/O shell.
/// The shell turns a TOML document into entry lists of these; the schema
/// rules themselves (field names, aliases, strictness) live here, verified.
#[derive(Debug, PartialEq, Eq)]
pub enum TomlItem {
    Bool(bool),
    Int(i64),
    Text(String),
    TextList(Vec<String>),
    Table(Vec<(String, TomlItem)>),
}

/// The entries of a table with the keys taken to character sequences.
pub open spec fn entry_views(items: Seq<(String, TomlItem)>) -> Seq<(Seq<char>, TomlItem)> {
    items.map_values(|p: (String, TomlItem)| (p.0@, p.1))
}

/// One step of the strict channel-override parse: the key must be one of the
/// four field names (kebab-case, or the snake_case alias kept for backward
/// compatibility; `disable-sharded` has no alias), the value must be a
/// boolean, and a field may be given only once.
pub open spec fn channel_parse_step(
    acc: RepodataChannelConfig,
    key: Seq<char>,
    item: TomlItem,
) -> Option<RepodataChannelConfig> {
    if key == "disable-jlap"@ || key == "disable_jlap"@ {
        match item {
            TomlItem::Bool(b) => if acc.disable_jlap is None {
                Some(
                    RepodataChannelConfig {
                        disable_jlap: Some(b),
                        disable_bzip2: acc.disable_bzip2,
                        disable_zstd: acc.disable_zstd,
                        disable_sharded: acc.disable_sharded,
                    },
                )
            } else {
                None
            },
            _ => None,
        }
    } else if key == "disable-bzip2"@ || key == "disable_bzip2"@ {
        match item {
            TomlItem::Bool(b) => if acc.disable_bzip2 is None {
                Some(
                    RepodataChannelConfig {
                        disable_jlap: acc.disable_jlap,
                        disable_bzip2: Some(b),
                        disable_zstd: acc.disable_zstd,
                        disable_sharded: acc.disable_sharded,
                    },
                )
            } else {
                None
            },
            _ => None,
        }
    } else if key == "disable-zstd"@ || key == "disable_zstd"@ {
        match item {
            TomlItem::Bool(b) => if acc.disable_zstd is None {
                Some(
                    RepodataChannelConfig {
                        disable_jlap: acc.disable_jlap,
                        disable_bzip2: acc.disable_bzip2,
                        disable_zstd: Some(b),
                        disable_sharded: acc.disable_sharded,
                    },
                )
            } else {
                None
            },
            _ => None,
        }
    } else if key == "disable-sharded"@ {
        match item {
            TomlItem::Bool(b) => if acc.disable_sharded is None {
                Some(
                    RepodataChannelConfig {
                        disable_jlap: acc.disable_jlap,
                        disable_bzip2: acc.disable_bzip2,
                        disable_zstd: acc.disable_zstd,
                        disable_sharded: Some(b),
                    },
                )
            } else {
                None
            },
            _ => None,
        }
    } else {
        None
    }
}

/// The strict channel-override parse, folded over the entries in order;
/// `None` is a parse error (unknown key, duplicate field, or a non-boolean
/// value).
pub open spec fn channel_parse_from(
    acc: RepodataChannelConfig,
    entries: Seq<(Seq<char>, TomlItem)>,
) -> Option<RepodataChannelConfig>
    decreases entries.len(),
{
    if entries.len() == 0 {
        Some(acc)
    } else {
        match channel_parse_step(acc, entries[0].0, entries[0].1) {
            Some(acc2) => channel_parse_from(acc2, entries.drop_first()),
            None => None,
        }
    }
}

/// The strict channel-override parse of a whole entry list.
pub open spec fn channel_parse(entries: Seq<(Seq<char>, TomlItem)>) -> Option<
    RepodataChannelConfig,
> {
    channel_parse_from(RepodataChannelConfig::empty_spec(), entries)
}

/// The serialized form of a channel override: one boolean entry per set
/// field, under the canonical kebab-case name; unset fields are omitted.
pub open spec fn channel_to_items_spec(c: RepodataChannelConfig) -> Seq<(Seq<char>, TomlItem)> {
    (if c.disable_jlap is Some {
        seq![("disable-jlap"@, TomlItem::Bool(c.disable_jlap->0))]
    } else {
        Seq::empty()
    }) + (if c.disable_bzip2 is Some {
        seq![("disable-bzip2"@, TomlItem::Bool(c.disable_bzip2->0))]
    } else {
        Seq::empty()
    }) + (if c.disable_zstd is Some {
        seq![("disable-zstd"@, TomlItem::Bool(c.disable_zstd->0))]
    } else {
        Seq::empty()
    }) + (if c.disable_sharded is Some {
        seq![("disable-sharded"@, TomlItem::Bool(c.disable_sharded->0))]
    } else {
        Seq::empty()
    })
}

/// Compares a key against a field name.
fn key_is(k: &String, lit: &str) -> (r: bool)
    ensures
        r == (k@ == lit@),
{
    let s = String::from_str(lit);
    *k == s
}

fn parse_error() -> (r: ConfigError)
    ensures
        r@ is Parse,
{
    ConfigError::Parse(String::from_str("invalid repodata channel override"))
}

impl RepodataChannelConfig {
    /// Parses a channel override from the entries of a TOML table. The
    /// schema is strict: an unknown key, a duplicated field (canonical name
    /// and alias together), or a non-boolean value is a parse error.
    pub fn from_items(items: &Vec<(String, TomlItem)>) -> (r: Result<Self, ConfigError>)
        ensures
            match r {
                Ok(c) => channel_parse(entry_views(items@)) == Some(c),
                Err(e) => channel_parse(entry_views(items@)) is None && e@ is Parse,
            },
    {
        let ghost es = entry_views(items@);
        proof {
            assert(es.skip(0) =~= es);
        }
        let mut acc = RepodataChannelConfig::empty();
        let mut i: usize = 0;
        while i < items.len()
            invariant
                es == entry_views(items@),
                0 <= i <= items@.len(),
                channel_parse(es) == channel_parse_from(acc, es.skip(i as int)),
            decreases items@.len() - i,
        {
            let pair = &items[i];
            proof {
                assert(es.skip(i as int)[0] == es[i as int]);
                assert(es.skip(i as int).drop_first() =~= es.skip(i as int + 1));
            }
            let jlap = key_is(&pair.0, "disable-jlap") || key_is(&pair.0, "disable_jlap");
            let bzip2 = key_is(&pair.0, "disable-bzip2") || key_is(&pair.0, "disable_bzip2");
            let zstd = key_is(&pair.0, "disable-zstd") || key_is(&pair.0, "disable_zstd");
            let sharded = key_is(&pair.0, "disable-sharded");
            if !(jlap || bzip2 || zstd || sharded) {
                return Err(parse_error());
            }
            let b = match &pair.1 {
                TomlItem::Bool(b) => *b,
                _ => {
                    return Err(parse_error());
                },
            };
            if jlap {
                if acc.disable_jlap.is_some() {
                    return Err(parse_error());
                }
                acc.disable_jlap = Some(b);
            } else if bzip2 {
                if acc.disable_bzip2.is_some() {
                    return Err(parse_error());
                }
                acc.disable_bzip2 = Some(b);
            } else if zstd {
                if acc.disable_zstd.is_some() {
                    return Err(parse_error());
                }
                acc.disable_zstd = Some(b);
            } else {
                if acc.disable_sharded.is_some() {
                    return Err(parse_error());
                }
                acc.disable_sharded = Some(b);
            }
            i += 1;
        }
        proof {
            assert(es.skip(es.len() as int) =~= Seq::<(Seq<char>, TomlItem)>::empty());
        }
        Ok(acc)
    }

    /// Serializes a channel override to the entries of a TOML table,
    /// omitting unset fields and using the canonical kebab-case names.
    pub fn to_items(&self) -> (r: Vec<(String, TomlItem)>)
        ensures
            entry_views(r@) == channel_to_items_spec(*self),
    {
        let mut r: Vec<(String, TomlItem)> = Vec::new();
        if let Some(b) = self.disable_jlap {
            r.push((String::from_str("disable-jlap"), TomlItem::Bool(b)));
        }
        if let Some(b) = self.disable_bzip2 {
            r.push((String::from_str("disable-bzip2"), TomlItem::Bool(b)));
        }
        if let Some(b) = self.disable_zstd {
            r.push((String::from_str("disable-zstd"), TomlItem::Bool(b)));
        }
        if let Some(b) = self.disable_sharded {
            r.push((String::from_str("disable-sharded"), TomlItem::Bool(b)));
        }
        proof {
            assert(entry_views(r@) =~= channel_to_items_spec(*self));
        }
        r
    }
}

/// The key names a field of the channel override record.
pub open spec fn is_channel_field_key(k: Seq<char>) -> bool {
    ||| k == "disable-jlap"@
    ||| k == "disable_jlap"@
    ||| k == "disable-bzip2"@
    ||| k == "disable_bzip2"@
    ||| k == "disable-zstd"@
    ||| k == "disable_zstd"@
    ||| k == "disable-sharded"@
}

/// One step of the repodata-resolver parse: a channel-override field sets
/// the default override; any other key must name a channel URL and carry a
/// strict override table, keyed by the URL's canonical form, given at most
/// once.
pub open spec fn repodata_parse_step(
    acc: RepodataConfigView,
    key: Seq<char>,
    item: TomlItem,
) -> Option<RepodataConfigView> {
    if is_channel_field_key(key) {
        match channel_parse_step(acc.default, key, item) {
            Some(d) => Some(RepodataConfigView { default: d, per_channel: acc.per_channel }),
            None => None,
        }
    } else {
        match item {
            TomlItem::Table(entries) => match canon_url(key) {
                Some(ck) => if acc.per_channel.contains_key(ck) {
                    None
                } else {
                    match channel_parse(entry_views(entries@)) {
                        Some(c) => Some(
                            RepodataConfigView {
                                default: acc.default,
                                per_channel: acc.per_channel.insert(ck, c),
                            },
                        ),
                        None => None,
                    }
                },
                None => None,
            },
            _ => None,
        }
    }
}

/// The repodata-resolver parse, folded over the entries in order.
pub open spec fn repodata_parse_from(
    acc: RepodataConfigView,
    entries: Seq<(Seq<char>, TomlItem)>,
) -> Option<RepodataConfigView>
    decreases entries.len(),
{
    if entries.len() == 0 {
        Some(acc)
    } else {
        match repodata_parse_step(acc, entries[0].0, entries[0].1) {
            Some(acc2) => repodata_parse_from(acc2, entries.drop_first()),
            None => None,
        }
    }
}

/// The repodata-resolver parse of a whole entry list.
pub open spec fn repodata_parse(entries: Seq<(Seq<char>, TomlItem)>) -> Option<
    RepodataConfigView,
> {
    repodata_parse_from(RepodataConfig::empty_view(), entries)
}

impl RepodataConfig {
    /// Parses a repodata resolver from the entries of a TOML table: the four
    /// override fields (with their aliases) set the default override; every
    /// other key must name a channel URL and carry a strict override table.
    pub fn from_items(items: &Vec<(String, TomlItem)>) -> (r: Result<Self, ConfigError>)
        ensures
            match r {
                Ok(c) => c.wf() && repodata_parse(entry_views(items@)) == Some(c@),
                Err(e) => repodata_parse(entry_views(items@)) is None && e@ is Parse,
            },
    {
        let ghost es = entry_views(items@);
        proof {
            assert(es.skip(0) =~= es);
        }
        let mut result = RepodataConfig::empty();
        let mut i: usize = 0;
        while i < items.len()
            invariant
                es == entry_views(items@),
                0 <= i <= items@.len(),
                result.wf(),
                repodata_parse(es) == repodata_parse_from(result@, es.skip(i as int)),
            decreases items@.len() - i,
        {
            let pair = &items[i];
            proof {
                assert(es.skip(i as int)[0] == es[i as int]);
                assert(es.skip(i as int).drop_first() =~= es.skip(i as int + 1));
            }
            let jlap = key_is(&pair.0, "disable-jlap") || key_is(&pair.0, "disable_jlap");
            let bzip2 = key_is(&pair.0, "disable-bzip2") || key_is(&pair.0, "disable_bzip2");
            let zstd = key_is(&pair.0, "disable-zstd") || key_is(&pair.0, "disable_zstd");
            let sharded = key_is(&pair.0, "disable-sharded");
            if jlap || bzip2 || zstd || sharded {
                let b = match &pair.1 {
                    TomlItem::Bool(b) => *b,
                    _ => {
                        return Err(parse_error());
                    },
                };
                if jlap {
                    if result.default.disable_jlap.is_some() {
                        return Err(parse_error());
                    }
                    result.default.disable_jlap = Some(b);
                } else if bzip2 {
                    if result.default.disable_bzip2.is_some() {
                        return Err(parse_error());
                    }
                    result.default.disable_bzip2 = Some(b);
                } else if zstd {
                    if result.default.disable_zstd.is_some() {
                        return Err(parse_error());
                    }
                    result.default.disable_zstd = Some(b);
                } else {
                    if result.default.disable_sharded.is_some() {
                        return Err(parse_error());
                    }
                    result.default.disable_sharded = Some(b);
                }
            } else {
                let entries = match &pair.1 {
                    TomlItem::Table(t) => t,
                    _ => {
                        return Err(parse_error());
                    },
                };
                let channel = match RepodataChannelConfig::from_items(entries) {
                    Ok(c) => c,
                    Err(e) => {
                        return Err(e);
                    },
                };
                match result.insert_channel(pair.0.as_str(), channel) {
                    Ok(()) => {},
                    Err(e) => {
                        return Err(e);
                    },
                }
            }
            i += 1;
        }
        proof {
            assert(es.skip(es.len() as int) =~= Seq::<(Seq<char>, TomlItem)>::empty());
        }
        Ok(result)
    }
}

impl RepodataConfig {
    /// Serializes the resolver to the entries of a TOML table: the default
    /// override's fields first, then one sub-table per channel, in recorded
    /// order; empty fields are omitted.
    pub fn to_items(&self) -> (r: Vec<(String, TomlItem)>)
        ensures
            r@.len() == channel_to_items_spec(self.default).len() + self.per_channel@.len(),
            entry_views(r@).take(channel_to_items_spec(self.default).len() as int)
                == channel_to_items_spec(self.default),
            forall|i: int|
                0 <= i < self.per_channel@.len() ==> {
                    &&& r@[channel_to_items_spec(self.default).len() + i].0
                        == self.per_channel@[i].0
                    &&& r@[channel_to_items_spec(self.default).len() + i].1 is Table
                    &&& entry_views(
                        r@[channel_to_items_spec(self.default).len() + i].1->Table_0@,
                    ) == channel_to_items_spec(self.per_channel@[i].1)
                },
    {
        let mut r = self.default.to_items();
        let ghost base = r@.len() as int;
        let ghost prefix = r@;
        proof {
            assert(channel_to_items_spec(self.default).len() == base);
        }
        let mut i: usize = 0;
        while i < self.per_channel.len()
            invariant
                base == channel_to_items_spec(self.default).len(),
                entry_views(prefix) == channel_to_items_spec(self.default),
                prefix.len() == base,
                0 <= i <= self.per_channel@.len(),
                r@.len() == base + i,
                forall|j: int| 0 <= j < base ==> r@[j] == prefix[j],
                forall|j: int|
                    0 <= j < i ==> {
                        &&& r@[base + j].0 == self.per_channel@[j].0
                        &&& r@[base + j].1 is Table
                        &&& entry_views(r@[base + j].1->Table_0@) == channel_to_items_spec(
                            self.per_channel@[j].1,
                        )
                    },
            decreases self.per_channel@.len() - i,
        {
            let pair = &self.per_channel[i];
            let table = pair.1.to_items();
            r.push((pair.0.clone(), TomlItem::Table(table)));
            i += 1;
        }
        proof {
            assert(entry_views(r@).take(base) =~= entry_views(prefix));
        }
        r
    }
}

/// Folding the parse over a concatenation is folding it over the two parts
/// in turn.
proof fn lemma_parse_from_concat(
    acc: RepodataChannelConfig,
    a: Seq<(Seq<char>, TomlItem)>,
    b: Seq<(Seq<char>, TomlItem)>,
)
    ensures
        channel_parse_from(acc, a + b) == match channel_parse_from(acc, a) {
            Some(m) => channel_parse_from(m, b),
            None => None::<RepodataChannelConfig>,
        },
    decreases a.len(),
{
    if a.len() == 0 {
        assert(a + b =~= b);
    } else {
        assert((a + b)[0] == a[0]);
        assert((a + b).drop_first() =~= a.drop_first() + b);
        match channel_parse_step(acc, a[0].0, a[0].1) {
            Some(m) => lemma_parse_from_concat(m, a.drop_first(), b),
            None => {},
        }
    }
}

/// Folding the resolver parse over a concatenation is folding it over the
/// two parts in turn.
proof fn lemma_repodata_parse_from_concat(
    acc: RepodataConfigView,
    a: Seq<(Seq<char>, TomlItem)>,
    b: Seq<(Seq<char>, TomlItem)>,
)
    ensures
        repodata_parse_from(acc, a + b) == match repodata_parse_from(acc, a) {
            Some(m) => repodata_parse_from(m, b),
            None => None::<RepodataConfigView>,
        },
    decreases a.len(),
{
    if a.len() == 0 {
        assert(a + b =~= b);
    } else {
        assert((a + b)[0] == a[0]);
        assert((a + b).drop_first() =~= a.drop_first() + b);
        match repodata_parse_step(acc, a[0].0, a[0].1) {
            Some(m) => lemma_repodata_parse_from_concat(m, a.drop_first(), b),
            None => {},
        }
    }
}

/// Every entry a channel override serializes to carries a field name.
proof fn lemma_channel_items_field_keys(c: RepodataChannelConfig)
    ensures
        forall|i: int|
            0 <= i < channel_to_items_spec(c).len() ==> is_channel_field_key(
                #[trigger] channel_to_items_spec(c)[i].0,
            ),
{
}

/// Over entries that all carry field names, the resolver parse is the
/// channel-override parse of the default, with the per-channel map kept.
proof fn lemma_repodata_parse_fields(acc: RepodataConfigView, entries: Seq<(Seq<char>, TomlItem)>)
    requires
        forall|i: int|
            0 <= i < entries.len() ==> is_channel_field_key(#[trigger] entries[i].0),
    ensures
        repodata_parse_from(acc, entries) == match channel_parse_from(acc.default, entries) {
            Some(d) => Some(RepodataConfigView { default: d, per_channel: acc.per_channel }),
            None => None::<RepodataConfigView>,
        },
    decreases entries.len(),
{
    if entries.len() > 0 {
        assert(entries[0] == entries[0]);
        match channel_parse_step(acc.default, entries[0].0, entries[0].1) {
            Some(d) => {
                let acc2 = RepodataConfigView { default: d, per_channel: acc.per_channel };
                assert(forall|i: int|
                    0 <= i < entries.drop_first().len() ==> is_channel_field_key(
                        #[trigger] entries.drop_first()[i].0,
                    ));
                lemma_repodata_parse_fields(acc2, entries.drop_first());
            },
            None => {},
        }
    }
}

/// Over a run of channel tables with fresh, canonical, non-field keys, the
/// resolver parse inserts each channel in turn.
proof fn lemma_parse_channel_tables(
    acc: RepodataConfigView,
    pc: Seq<(String, RepodataChannelConfig)>,
    s: Seq<(Seq<char>, TomlItem)>,
)
    requires
        s.len() == pc.len(),
        unique_keys(pc),
        forall|i: int| 0 <= i < pc.len() ==> !acc.per_channel.contains_key(#[trigger] pc[i].0@),
        forall|i: int| 0 <= i < pc.len() ==> (#[trigger] s[i].0) == pc[i].0@,
        forall|i: int| 0 <= i < pc.len() ==> (#[trigger] s[i].1) is Table,
        forall|i: int|
            0 <= i < pc.len() ==> channel_parse(entry_views((#[trigger] s[i].1)->Table_0@))
                == Some(pc[i].1),
        forall|i: int|
            0 <= i < pc.len() ==> canon_url(#[trigger] pc[i].0@) == Some(pc[i].0@),
        forall|i: int| 0 <= i < pc.len() ==> !is_channel_field_key(#[trigger] pc[i].0@),
    ensures
        repodata_parse_from(acc, s) == Some(
            RepodataConfigView {
                default: acc.default,
                per_channel: acc.per_channel.union_prefer_right(channel_map(pc)),
            },
        ),
    decreases pc.len(),
{
    if pc.len() == 0 {
        assert(acc.per_channel.union_prefer_right(channel_map(pc)) =~= acc.per_channel);
        assert(RepodataConfigView {
            default: acc.default,
            per_channel: acc.per_channel.union_prefer_right(channel_map(pc)),
        } =~= acc);
    } else {
        let key = pc[0].0@;
        let c0 = pc[0].1;
        let acc2 = RepodataConfigView {
            default: acc.default,
            per_channel: acc.per_channel.insert(key, c0),
        };
        assert(repodata_parse_step(acc, s[0].0, s[0].1) == Some(acc2));
        let pc2 = pc.drop_first();
        let s2 = s.drop_first();
        assert forall|i: int|
            0 <= i < pc2.len() implies !acc2.per_channel.contains_key(
            #[trigger] pc2[i].0@,
        ) by {
            assert(pc2[i] == pc[i + 1]);
            assert(pc[i + 1].0@ != key);
        }
        assert forall|i: int| 0 <= i < pc2.len() implies (#[trigger] s2[i].0) == pc2[i].0@ by {
            assert(s2[i] == s[i + 1] && pc2[i] == pc[i + 1]);
        }
        assert forall|i: int| 0 <= i < pc2.len() implies (#[trigger] s2[i].1) is Table by {
            assert(s2[i] == s[i + 1]);
        }
        assert forall|i: int|
            0 <= i < pc2.len() implies channel_parse(entry_views((#[trigger] s2[i].1)->Table_0@))
            == Some(pc2[i].1) by {
            assert(s2[i] == s[i + 1] && pc2[i] == pc[i + 1]);
        }
        assert forall|i: int|
            0 <= i < pc2.len() implies canon_url(#[trigger] pc2[i].0@) == Some(pc2[i].0@) by {
            assert(pc2[i] == pc[i + 1]);
        }
        assert forall|i: int| 0 <= i < pc2.len() implies !is_channel_field_key(
            #[trigger] pc2[i].0@,
        ) by {
            assert(pc2[i] == pc[i + 1]);
        }
        lemma_parse_channel_tables(acc2, pc2, s2);
        assert forall|k: Seq<char>| true implies #[trigger] acc2.per_channel.union_prefer_right(
            channel_map(pc2),
        ).contains_key(k) == acc.per_channel.union_prefer_right(channel_map(pc)).contains_key(k)
            && (acc.per_channel.union_prefer_right(channel_map(pc)).contains_key(k)
            ==> acc2.per_channel.union_prefer_right(channel_map(pc2))[k]
            == acc.per_channel.union_prefer_right(channel_map(pc))[k]) by {
            lemma_assoc_map_contains(pc, k);
            lemma_assoc_map_contains(pc2, k);
            if channel_map(pc2).contains_key(k) {
                let i = choose|i: int| 0 <= i < pc2.len() && pc2[i].0@ == k;
                assert(pc2[i] == pc[i + 1]);
                lemma_assoc_map_index(pc2, i);
                lemma_assoc_map_index(pc, i + 1);
            } else if k == key {
                lemma_assoc_map_index(pc, 0);
            } else if channel_map(pc).contains_key(k) {
                let i = choose|i: int| 0 <= i < pc.len() && pc[i].0@ == k;
                assert(i > 0);
                assert(pc2[i - 1] == pc[i]);
                assert(pc2[i - 1].0@ == k);
            }
        }
        assert(acc2.per_channel.union_prefer_right(channel_map(pc2))
            =~= acc.per_channel.union_prefer_right(channel_map(pc)));
    }
}

/// Round trip of a repodata resolver through its TOML-table form: parsing
/// entries of the serialized shape gives back the same resolver, provided
/// every recorded channel key is a canonical URL and no channel key reads
/// as one of the override field names.
pub proof fn lemma_repodata_round_trip(c: RepodataConfig, s: Seq<(Seq<char>, TomlItem)>)
    requires
        c.wf(),
        s.len() == channel_to_items_spec(c.default).len() + c.per_channel@.len(),
        s.take(channel_to_items_spec(c.default).len() as int) == channel_to_items_spec(c.default),
        forall|i: int|
            0 <= i < c.per_channel@.len() ==> {
                &&& (#[trigger] s[channel_to_items_spec(c.default).len() + i].0)
                    == c.per_channel@[i].0@
                &&& s[channel_to_items_spec(c.default).len() + i].1 is Table
                &&& entry_views(s[channel_to_items_spec(c.default).len() + i].1->Table_0@)
                    == channel_to_items_spec(c.per_channel@[i].1)
            },
        forall|i: int|
            0 <= i < c.per_channel@.len() ==> canon_url(#[trigger] c.per_channel@[i].0@) == Some(
                c.per_channel@[i].0@,
            ),
        forall|i: int|
            0 <= i < c.per_channel@.len() ==> !is_channel_field_key(
                #[trigger] c.per_channel@[i].0@,
            ),
    ensures
        repodata_parse(s) == Some(c@),
{
    let base = channel_to_items_spec(c.default).len() as int;
    let defaults = s.take(base);
    let channels = s.skip(base);
    let start = RepodataConfig::empty_view();
    assert(s =~= defaults + channels);
    lemma_repodata_parse_from_concat(start, defaults, channels);
    lemma_channel_items_field_keys(c.default);
    lemma_repodata_parse_fields(start, defaults);
    lemma_channel_round_trip(c.default);
    let mid = RepodataConfigView { default: c.default, per_channel: start.per_channel };
    assert(repodata_parse_from(start, defaults) == Some(mid));
    assert forall|i: int|
        0 <= i < c.per_channel@.len() implies (#[trigger] channels[i].0) == c.per_channel@[i].0@
        && channels[i].1 is Table && channel_parse(entry_views(channels[i].1->Table_0@)) == Some(
        c.per_channel@[i].1,
    ) by {
        assert(channels[i] == s[base + i]);
        lemma_channel_round_trip(c.per_channel@[i].1);
    }
    assert forall|i: int|
        0 <= i < c.per_channel@.len() implies (#[trigger] channels[i].1) is Table by {
        assert(s[channel_to_items_spec(c.default).len() + i].0 == c.per_channel@[i].0@);
        assert(channels[i] == s[base + i]);
    }
    assert forall|i: int|
        0 <= i < c.per_channel@.len() implies channel_parse(
        entry_views((#[trigger] channels[i].1)->Table_0@),
    ) == Some(c.per_channel@[i].1) by {
        assert(s[channel_to_items_spec(c.default).len() + i].0 == c.per_channel@[i].0@);
        assert(channels[i] == s[base + i]);
        lemma_channel_round_trip(c.per_channel@[i].1);
    }
    lemma_parse_channel_tables(mid, c.per_channel@, channels);
    assert(mid.per_channel.union_prefer_right(channel_map(c.per_channel@)) =~= channel_map(
        c.per_channel@,
    ));
    assert(RepodataConfigView {
        default: mid.default,
        per_channel: mid.per_channel.union_prefer_right(channel_map(c.per_channel@)),
    } =~= c@);
}

/// Folding the parse over a single entry is taking one step.
proof fn lemma_parse_singleton(acc: RepodataChannelConfig, k: Seq<char>, it: TomlItem)
    ensures
        channel_parse_from(acc, seq![(k, it)]) == channel_parse_step(acc, k, it),
{
    let s: Seq<(Seq<char>, TomlItem)> = seq![(k, it)];
    assert(s.drop_first() =~= Seq::<(Seq<char>, TomlItem)>::empty());
    match channel_parse_step(acc, k, it) {
        Some(m) => {
            assert(channel_parse_from(m, s.drop_first()) == Some(m));
        },
        None => {},
    }
}

/// The seven accepted field names are pairwise distinct.
proof fn lemma_channel_keys_distinct()
    ensures
        "disable-jlap"@ != "disable_jlap"@,
        "disable-jlap"@ != "disable-bzip2"@,
        "disable-jlap"@ != "disable_bzip2"@,
        "disable-jlap"@ != "disable-zstd"@,
        "disable-jlap"@ != "disable_zstd"@,
        "disable-jlap"@ != "disable-sharded"@,
        "disable_jlap"@ != "disable-bzip2"@,
        "disable_jlap"@ != "disable_bzip2"@,
        "disable_jlap"@ != "disable-zstd"@,
        "disable_jlap"@ != "disable_zstd"@,
        "disable_jlap"@ != "disable-sharded"@,
        "disable-bzip2"@ != "disable_bzip2"@,
        "disable-bzip2"@ != "disable-zstd"@,
        "disable-bzip2"@ != "disable_zstd"@,
        "disable-bzip2"@ != "disable-sharded"@,
        "disable_bzip2"@ != "disable-zstd"@,
        "disable_bzip2"@ != "disable_zstd"@,
        "disable_bzip2"@ != "disable-sharded"@,
        "disable-zstd"@ != "disable_zstd"@,
        "disable-zstd"@ != "disable-sharded"@,
        "disable_zstd"@ != "disable-sharded"@,
{
    reveal_strlit("disable-jlap");
    reveal_strlit("disable_jlap");
    reveal_strlit("disable-bzip2");
    reveal_strlit("disable_bzip2");
    reveal_strlit("disable-zstd");
    reveal_strlit("disable_zstd");
    reveal_strlit("disable-sharded");
    assert("disable-jlap"@[7] == '-' && "disable_jlap"@[7] == '_');
    assert("disable-jlap"@[8] == 'j' && "disable-zstd"@[8] == 'z');
    assert("disable_zstd"@[7] == '_');
    assert("disable_jlap"@[8] == 'j' && "disable_zstd"@[8] == 'z');
    assert("disable-bzip2"@[7] == '-' && "disable_bzip2"@[7] == '_');
    assert("disable-zstd"@[7] == '-');
    assert("disable-jlap"@.len() == 12);
    assert("disable_jlap"@.len() == 12);
    assert("disable-bzip2"@.len() == 13);
    assert("disable_bzip2"@.len() == 13);
    assert("disable-zstd"@.len() == 12);
    assert("disable_zstd"@.len() == 12);
    assert("disable-sharded"@.len() == 15);
}

/// Round trip of a channel override through its TOML-table form: parsing
/// the serialized entries gives back the same override.
pub proof fn lemma_channel_round_trip(c: RepodataChannelConfig)
    ensures
        channel_parse(channel_to_items_spec(c)) == Some(c),
{
    lemma_channel_keys_distinct();
    let empty = RepodataChannelConfig::empty_spec();
    let s1: Seq<(Seq<char>, TomlItem)> = if c.disable_jlap is Some {
        seq![("disable-jlap"@, TomlItem::Bool(c.disable_jlap->0))]
    } else {
        Seq::empty()
    };
    let s2: Seq<(Seq<char>, TomlItem)> = if c.disable_bzip2 is Some {
        seq![("disable-bzip2"@, TomlItem::Bool(c.disable_bzip2->0))]
    } else {
        Seq::empty()
    };
    let s3: Seq<(Seq<char>, TomlItem)> = if c.disable_zstd is Some {
        seq![("disable-zstd"@, TomlItem::Bool(c.disable_zstd->0))]
    } else {
        Seq::empty()
    };
    let s4: Seq<(Seq<char>, TomlItem)> = if c.disable_sharded is Some {
        seq![("disable-sharded"@, TomlItem::Bool(c.disable_sharded->0))]
    } else {
        Seq::empty()
    };
    let m1 = RepodataChannelConfig {
        disable_jlap: c.disable_jlap,
        disable_bzip2: None,
        disable_zstd: None,
        disable_sharded: None,
    };
    let m2 = RepodataChannelConfig { disable_bzip2: c.disable_bzip2, ..m1 };
    let m3 = RepodataChannelConfig { disable_zstd: c.disable_zstd, ..m2 };
    let m4 = RepodataChannelConfig { disable_sharded: c.disable_sharded, ..m3 };
    lemma_parse_from_concat(empty, s1 + s2 + s3, s4);
    lemma_parse_from_concat(empty, s1 + s2, s3);
    lemma_parse_from_concat(empty, s1, s2);
    if c.disable_jlap is Some {
        lemma_parse_singleton(empty, "disable-jlap"@, TomlItem::Bool(c.disable_jlap->0));
    }
    assert(channel_parse_from(empty, s1) == Some(m1));
    if c.disable_bzip2 is Some {
        lemma_parse_singleton(m1, "disable-bzip2"@, TomlItem::Bool(c.disable_bzip2->0));
    }
    assert(channel_parse_from(m1, s2) == Some(m2));
    if c.disable_zstd is Some {
        lemma_parse_singleton(m2, "disable-zstd"@, TomlItem::Bool(c.disable_zstd->0));
    }
    assert(channel_parse_from(m2, s3) == Some(m3));
    if c.disable_sharded is Some {
        lemma_parse_singleton(m3, "disable-sharded"@, TomlItem::Bool(c.disable_sharded->0));
    }
    assert(channel_parse_from(m3, s4) == Some(m4));
    assert(m4 == c);
    assert(channel_to_items_spec(c) == s1 + s2 + s3 + s4);
}

} // verus!
