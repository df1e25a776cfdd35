use vstd::prelude::*;

use crate::build_config::{clone_opt_build, BuildConfig, BuildConfigView};
use crate::cloning::{append_string_vec, clone_opt_string};
use crate::concurrency::ConcurrencyConfig;
use crate::error::{ConfigError, ConfigErrorView};
use crate::key_map::{lemma_assoc_map_contains, unique_keys};
use crate::mirrors::{merge_mirror_lists, mirror_map};
use crate::proxy::{spec_merge_proxy, ProxyConfig, ProxyConfigView};
use crate::repodata_config::{spec_merge_repodata, RepodataConfig, RepodataConfigView};

verus! {

/// The capability set a pluggable sub-configuration must satisfy to sit in
/// the aggregate's extension slot: a stable name, a deterministic merge, an
/// explicit validation step, key listing, and a canonical default value.
pub trait Config: Sized + View {
    /// Structural validity of the carrier value (for instance, unique keys
    /// in an association list).
    spec fn inv(self) -> bool;

    /// Stable identifier of the extension, used for diagnostics.
    spec fn name_spec() -> Seq<char>;

    /// The canonical empty/default value, at the level of views.
    spec fn default_spec() -> Self::V;

    /// Whether overlaying `b` (higher priority) onto `a` succeeds.
    spec fn merge_ok(a: Self::V, b: Self::V) -> bool;

    /// The merged view, meaningful when the merge succeeds.
    spec fn merge_spec(a: Self::V, b: Self::V) -> Self::V;

    /// The error raised when the merge fails.
    spec fn merge_err(a: Self::V, b: Self::V) -> ConfigErrorView;

    /// The cross-field constraints checked by `validate`.
    spec fn valid_spec(v: Self::V) -> bool;

    /// The settable configuration keys, exhaustive and stable.
    spec fn keys_spec() -> Seq<Seq<char>>;

    /// Returns the name of the extension.
    fn get_extension_name(&self) -> (r: String)
        ensures
            r@ == Self::name_spec(),
    ;

    /// Returns the canonical empty/default value.
    fn default_value() -> (r: Self)
        ensures
            r.inv(),
            r@ == Self::default_spec(),
    ;

    /// Returns whether this value is the canonical default.
    fn is_default(&self) -> (r: bool)
        ensures
            r == (self@ == Self::default_spec()),
    ;

    /// Merge another configuration layer into this one; `other` takes
    /// priority over `self`. The merge is deterministic and total: it fails
    /// exactly when `merge_ok` denies the pair of views.
    fn merge_config(self, other: &Self) -> (r: Result<Self, ConfigError>)
        requires
            self.inv(),
            other.inv(),
        ensures
            r is Ok <==> Self::merge_ok(self@, other@),
            r is Ok ==> r->Ok_0.inv() && r->Ok_0@ == Self::merge_spec(self@, other@),
            r is Err ==> r->Err_0@ == Self::merge_err(self@, other@),
    ;

    /// Checks cross-field constraints; never invoked implicitly by loading.
    fn validate(&self) -> (r: Result<(), ConfigError>)
        ensures
            r is Ok <==> Self::valid_spec(self@),
            r is Err ==> r->Err_0@ is Validation,
    ;

    /// Returns the valid configuration keys.
    fn keys(&self) -> (r: Vec<String>)
        ensures
            r.deep_view() == Self::keys_spec(),
    ;
}

/// The generic top-level configuration record: fixed fields plus one
/// extension slot whose keys share the aggregate's namespace.
#[derive(Debug, Clone, PartialEq, Eq)]
pub struct ConfigBase<E> {
    /// Ordered channel references; duplicates allowed, order meaningful.
    /// Deliberately left untouched by the aggregate merge: accumulation
    /// across layers is a higher-level policy's responsibility.
    pub default_channels: Vec<String>,
    /// Path to the file containing the authentication token.
    pub authentication_override_file: Option<String>,
    /// If set to true, the TLS certificate of the server is not verified.
    /// `None` means "inherit/unspecified", distinct from `Some(false)`.
    pub tls_no_verify: Option<bool>,
    /// Mirrors, keyed by canonical URL, each with an ordered mirror list.
    pub mirrors: Vec<(String, Vec<String>)>,
    /// Build metadata; kept first-loaded-wins by the merge.
    pub build: Option<BuildConfig>,
    /// Configuration for repodata fetching.
    pub repodata_config: RepodataConfig,
    /// Concurrency limits of the surrounding tool.
    pub concurrency: ConcurrencyConfig,
    /// Https/Http proxy configuration.
    pub proxy_config: ProxyConfig,
    /// The caller-defined extension slot.
    pub extensions: E,
    /// The source files this aggregate was loaded from, in input order;
    /// purely diagnostic, concatenated by the merge, never serialized.
    pub loaded_from: Vec<String>,
}

/// The mathematical image of a `ConfigBase`.
#[verifier::ext_equal]
pub struct ConfigBaseView<EV> {
    pub default_channels: Seq<Seq<char>>,
    pub authentication_override_file: Option<Seq<char>>,
    pub tls_no_verify: Option<bool>,
    pub mirrors: Map<Seq<char>, Seq<Seq<char>>>,
    pub build: Option<BuildConfigView>,
    pub repodata_config: RepodataConfigView,
    pub concurrency: ConcurrencyConfig,
    pub proxy_config: ProxyConfigView,
    pub extensions: EV,
    pub loaded_from: Seq<Seq<char>>,
}

impl<E: View> View for ConfigBase<E> {
    type V = ConfigBaseView<E::V>;

    open spec fn view(&self) -> ConfigBaseView<E::V> {
        ConfigBaseView {
            default_channels: self.default_channels.deep_view(),
            authentication_override_file: self.authentication_override_file.deep_view(),
            tls_no_verify: self.tls_no_verify,
            mirrors: mirror_map(self.mirrors@),
            build: match self.build {
                Some(b) => Some(b@),
                None => None,
            },
            repodata_config: self.repodata_config@,
            concurrency: self.concurrency,
            proxy_config: self.proxy_config@,
            extensions: self.extensions@,
            loaded_from: self.loaded_from.deep_view(),
        }
    }
}

impl<E: Config> ConfigBase<E> {
    /// The view of the aggregate whose every field is at its default.
    pub open spec fn default_view() -> ConfigBaseView<E::V> {
        ConfigBaseView {
            default_channels: Seq::empty(),
            authentication_override_file: None,
            tls_no_verify: None,
            mirrors: Map::empty(),
            build: None,
            repodata_config: RepodataConfig::empty_view(),
            concurrency: ConcurrencyConfig::default_spec(),
            proxy_config: crate::proxy::default_proxy_view(),
            extensions: E::default_spec(),
            loaded_from: Seq::empty(),
        }
    }

    /// The merged view of two aggregates, `b` having the higher priority:
    /// channels untouched, scalar options other-wins-if-specified, mirrors
    /// union with per-key replacement, build first-loaded-wins, repodata and
    /// proxy by their own merges, concurrency other-wins-if-non-default,
    /// extensions by the extension's merge, sources concatenated.
    pub open spec fn merge_view(a: ConfigBaseView<E::V>, b: ConfigBaseView<E::V>) -> ConfigBaseView<
        E::V,
    > {
        ConfigBaseView {
            default_channels: a.default_channels,
            authentication_override_file: if b.authentication_override_file is Some {
                b.authentication_override_file
            } else {
                a.authentication_override_file
            },
            tls_no_verify: if b.tls_no_verify is Some {
                b.tls_no_verify
            } else {
                a.tls_no_verify
            },
            mirrors: a.mirrors.union_prefer_right(b.mirrors),
            build: if a.build is Some {
                a.build
            } else {
                b.build
            },
            repodata_config: spec_merge_repodata(a.repodata_config, b.repodata_config),
            concurrency: a.concurrency.spec_merge(b.concurrency),
            proxy_config: spec_merge_proxy(a.proxy_config, b.proxy_config),
            extensions: E::merge_spec(a.extensions, b.extensions),
            loaded_from: a.loaded_from + b.loaded_from,
        }
    }
}

impl<E: Config> Config for ConfigBase<E> {
    open spec fn inv(self) -> bool {
        &&& unique_keys(self.mirrors@)
        &&& self.repodata_config.wf()
        &&& self.extensions.inv()
    }

    open spec fn name_spec() -> Seq<char> {
        "base"@
    }

    open spec fn default_spec() -> ConfigBaseView<E::V> {
        Self::default_view()
    }

    open spec fn merge_ok(a: ConfigBaseView<E::V>, b: ConfigBaseView<E::V>) -> bool {
        E::merge_ok(a.extensions, b.extensions)
    }

    open spec fn merge_spec(a: ConfigBaseView<E::V>, b: ConfigBaseView<E::V>) -> ConfigBaseView<
        E::V,
    > {
        Self::merge_view(a, b)
    }

    open spec fn merge_err(a: ConfigBaseView<E::V>, b: ConfigBaseView<E::V>) -> ConfigErrorView {
        E::merge_err(a.extensions, b.extensions)
    }

    open spec fn valid_spec(v: ConfigBaseView<E::V>) -> bool {
        true
    }

    open spec fn keys_spec() -> Seq<Seq<char>> {
        seq!["build.version"@, "build.author"@, "build.description"@]
    }

    fn get_extension_name(&self) -> (r: String) {
        String::from_str("base")
    }

    fn default_value() -> (r: Self) {
        let r = ConfigBase {
            default_channels: Vec::new(),
            authentication_override_file: None,
            tls_no_verify: None,
            mirrors: Vec::new(),
            build: None,
            repodata_config: RepodataConfig::empty(),
            concurrency: ConcurrencyConfig::empty(),
            proxy_config: ProxyConfig::empty(),
            extensions: E::default_value(),
            loaded_from: Vec::new(),
        };
        proof {
            assert(mirror_map(r.mirrors@) =~= Map::<Seq<char>, Seq<Seq<char>>>::empty());
            assert(r@ =~= Self::default_spec());
        }
        r
    }

    fn is_default(&self) -> (r: bool) {
        let r = self.default_channels.len() == 0 && self.authentication_override_file.is_none()
            && self.tls_no_verify.is_none() && self.mirrors.len() == 0 && self.build.is_none()
            && self.repodata_config.is_empty() && self.concurrency.is_default()
            && self.proxy_config.is_default() && self.extensions.is_default()
            && self.loaded_from.len() == 0;
        proof {
            if r {
                assert(mirror_map(self.mirrors@) =~= Map::<Seq<char>, Seq<Seq<char>>>::empty());
                assert(self.repodata_config@ =~= RepodataConfig::empty_view());
                assert(self.proxy_config@ =~= crate::proxy::default_proxy_view());
                assert(self@ =~= Self::default_spec());
            } else {
                if self@ == Self::default_spec() {
                    assert(self.default_channels.deep_view().len() == 0);
                    assert(self.default_channels@.len() == 0);
                    assert(self.authentication_override_file is None);
                    assert(self.tls_no_verify is None);
                    if self.mirrors@.len() > 0 {
                        lemma_assoc_map_contains(self.mirrors@, self.mirrors@[0].0@);
                        assert(mirror_map(self.mirrors@).contains_key(self.mirrors@[0].0@));
                        assert(!Map::<Seq<char>, Seq<Seq<char>>>::empty().contains_key(
                            self.mirrors@[0].0@,
                        ));
                        assert(false);
                    }
                    assert(self.build is None);
                    assert(self.repodata_config.default.is_empty_spec());
                    if self.repodata_config.per_channel@.len() > 0 {
                        lemma_assoc_map_contains(
                            self.repodata_config.per_channel@,
                            self.repodata_config.per_channel@[0].0@,
                        );
                        assert(!Map::<Seq<char>, crate::repodata_config::RepodataChannelConfig>::empty().contains_key(
                            self.repodata_config.per_channel@[0].0@,
                        ));
                        assert(false);
                    }
                    assert(self.concurrency.is_default_spec());
                    assert(crate::proxy::is_default_proxy(self.proxy_config@));
                    assert(self.proxy_config.https is None);
                    assert(self.proxy_config.http is None);
                    assert(self.proxy_config.non_proxy_hosts@.len() == 0);
                    assert(self.extensions@ == E::default_spec());
                    assert(self.loaded_from@.len() == 0);
                    assert(false);
                }
            }
        }
        r
    }

    /// The aggregate merge itself never fails: an error can only surface
    /// from the delegated extension merge, and is passed on verbatim.
    fn merge_config(self, other: &Self) -> (r: Result<Self, ConfigError>) {
        let extensions = match self.extensions.merge_config(&other.extensions) {
            Ok(e) => e,
            Err(e) => {
                return Err(e);
            },
        };
        let proxy_config = match self.proxy_config.merge_config(&other.proxy_config) {
            Ok(p) => p,
            Err(_) => {
                proof {
                    assert(false);
                }
                return Err(ConfigError::ExtensionMerge(String::new()));
            },
        };
        let mut loaded_from = self.loaded_from;
        append_string_vec(&mut loaded_from, &other.loaded_from);
        let merged = ConfigBase {
            default_channels: self.default_channels,
            authentication_override_file: if other.authentication_override_file.is_some() {
                clone_opt_string(&other.authentication_override_file)
            } else {
                self.authentication_override_file
            },
            tls_no_verify: if other.tls_no_verify.is_some() {
                other.tls_no_verify
            } else {
                self.tls_no_verify
            },
            mirrors: merge_mirror_lists(&self.mirrors, &other.mirrors),
            build: if self.build.is_some() {
                self.build
            } else {
                clone_opt_build(&other.build)
            },
            repodata_config: self.repodata_config.merge(other.repodata_config.duplicate()),
            concurrency: self.concurrency.merge(other.concurrency),
            proxy_config,
            extensions,
            loaded_from,
        };
        proof {
            assert(merged@ =~= Self::merge_spec(self@, other@));
        }
        Ok(merged)
    }

    /// The base aggregate has no cross-field constraint of its own.
    fn validate(&self) -> (r: Result<(), ConfigError>) {
        Ok(())
    }

    fn keys(&self) -> (r: Vec<String>) {
        let mut r: Vec<String> = Vec::new();
        r.push(String::from_str("build.version"));
        r.push(String::from_str("build.author"));
        r.push(String::from_str("build.description"));
        proof {
            assert(r.deep_view() =~= Self::keys_spec());
        }
        r
    }
}

impl<E: Config> ConfigBase<E> {
    /// The merged view of one loader step: `layer` overlaid onto `a`, with
    /// `source` recorded as the file the layer came from.
    pub open spec fn apply_layer_view(
        a: ConfigBaseView<E::V>,
        layer: ConfigBaseView<E::V>,
        source: Seq<char>,
    ) -> ConfigBaseView<E::V> {
        ConfigBaseView {
            loaded_from: Self::merge_view(a, layer).loaded_from.push(source),
            ..Self::merge_view(a, layer)
        }
    }

    /// Records a mirror list for the URL at `url`, keyed by the URL's
    /// canonical form. Fails with a `Parse` error exactly when the string is
    /// no absolute URL or a mirror list for the same canonical URL is
    /// already recorded; on failure the aggregate is unchanged.
    pub fn insert_mirror(&mut self, url: &str, mirror_urls: Vec<String>) -> (r: Result<
        (),
        ConfigError,
    >)
        requires
            old(self).inv(),
        ensures
            final(self).inv(),
            match r {
                Ok(()) => crate::urls::canon_url(url@) is Some
                    && !old(self)@.mirrors.contains_key(crate::urls::canon_url(url@)->0)
                    && final(self)@ == (ConfigBaseView {
                    mirrors: old(self)@.mirrors.insert(
                        crate::urls::canon_url(url@)->0,
                        mirror_urls.deep_view(),
                    ),
                    ..old(self)@
                }),
                Err(e) => *final(self) == *old(self) && e@ is Parse && (crate::urls::canon_url(
                    url@,
                ) is None || old(self)@.mirrors.contains_key(crate::urls::canon_url(url@)->0)),
            },
    {
        let key = match crate::urls::parse_url(url) {
            Some(k) => k,
            None => {
                return Err(ConfigError::Parse(String::from_str("mirror key is not a valid URL")));
            },
        };
        let mut i: usize = 0;
        while i < self.mirrors.len()
            invariant
                *self == *old(self),
                old(self).inv(),
                crate::urls::canon_url(url@) == Some(key@),
                unique_keys(self.mirrors@),
                0 <= i <= self.mirrors@.len(),
                forall|j: int| 0 <= j < i ==> self.mirrors@[j].0@ != key@,
            decreases self.mirrors@.len() - i,
        {
            if self.mirrors[i].0 == key {
                proof {
                    crate::key_map::lemma_assoc_map_index(self.mirrors@, i as int);
                }
                return Err(ConfigError::Parse(String::from_str("mirror list already recorded")));
            }
            i += 1;
        }
        let ghost snap = self.mirrors@;
        let ghost old_view = self@;
        self.mirrors.push((key, mirror_urls));
        proof {
            crate::key_map::lemma_assoc_map_push(snap, (key, mirror_urls));
            crate::key_map::lemma_assoc_map_contains(snap, key@);
            assert forall|i2: int, j2: int|
                0 <= i2 < j2 < self.mirrors@.len() implies self.mirrors@[i2].0@
                != self.mirrors@[j2].0@ by {
                if j2 == self.mirrors@.len() - 1 {
                    assert(snap[i2].0@ != key@);
                }
            }
            assert(mirror_map(self.mirrors@) =~= old_view.mirrors.insert(
                key@,
                mirror_urls.deep_view(),
            ));
            assert(self@ =~= (ConfigBaseView { mirrors: mirror_map(self.mirrors@), ..old_view }));
        }
        Ok(())
    }

    /// One step of the layered loader: overlays `layer` (the later, higher
    /// priority file) onto `self` and appends `source` to the list of loaded
    /// files. Validation is opt-in: it is never invoked here; callers decide
    /// whether to call `validate` on the final aggregate.
    pub fn apply_layer(self, layer: Self, source: String) -> (r: Result<Self, ConfigError>)
        requires
            self.inv(),
            layer.inv(),
        ensures
            r is Ok <==> Self::merge_ok(self@, layer@),
            r is Ok ==> r->Ok_0.inv() && r->Ok_0@ == Self::apply_layer_view(
                self@,
                layer@,
                source@,
            ),
            r is Err ==> r->Err_0@ == Self::merge_err(self@, layer@),
    {
        let ghost a = self@;
        let ghost b = layer@;
        match self.merge_config(&layer) {
            Ok(mut merged) => {
                let ghost before = merged.loaded_from.deep_view();
                merged.loaded_from.push(source);
                proof {
                    assert(merged.loaded_from.deep_view() =~= before.push(source@));
                    assert(merged@ =~= Self::apply_layer_view(a, b, source@));
                }
                Ok(merged)
            },
            Err(e) => Err(e),
        }
    }
}

impl<E: Config> Default for ConfigBase<E> {
    /// The default aggregate has every field at its default.
    fn default() -> (r: Self)
        ensures
            r.inv(),
            r@ == Self::default_spec(),
    {
        Self::default_value()
    }
}

/// The trivial extension: a sub-configuration with no fields, for callers
/// that use the base schema alone.
#[derive(Debug, Clone, Copy, PartialEq, Eq)]
pub struct NoExtension;

impl View for NoExtension {
    type V = NoExtension;

    open spec fn view(&self) -> NoExtension {
        NoExtension
    }
}

impl Config for NoExtension {
    open spec fn inv(self) -> bool {
        true
    }

    open spec fn name_spec() -> Seq<char> {
        "none"@
    }

    open spec fn default_spec() -> NoExtension {
        NoExtension
    }

    open spec fn merge_ok(a: NoExtension, b: NoExtension) -> bool {
        true
    }

    open spec fn merge_spec(a: NoExtension, b: NoExtension) -> NoExtension {
        NoExtension
    }

    open spec fn merge_err(a: NoExtension, b: NoExtension) -> ConfigErrorView {
        ConfigErrorView::ExtensionMerge(Seq::empty())
    }

    open spec fn valid_spec(v: NoExtension) -> bool {
        true
    }

    open spec fn keys_spec() -> Seq<Seq<char>> {
        Seq::empty()
    }

    fn get_extension_name(&self) -> (r: String) {
        String::from_str("none")
    }

    fn default_value() -> (r: Self) {
        NoExtension
    }

    fn is_default(&self) -> (r: bool) {
        true
    }

    fn merge_config(self, other: &Self) -> (r: Result<Self, ConfigError>) {
        Ok(NoExtension)
    }

    fn validate(&self) -> (r: Result<(), ConfigError>) {
        Ok(())
    }

    fn keys(&self) -> (r: Vec<String>) {
        let r: Vec<String> = Vec::new();
        proof {
            assert(r.deep_view() =~= Self::keys_spec());
        }
        r
    }
}

/// Loader order-sensitivity: when two layers both set `tls_no_verify`, the
/// layer applied later wins, whatever the starting aggregate was.
pub proof fn lemma_loader_later_layer_wins<E: Config>(
    init: ConfigBaseView<E::V>,
    a: ConfigBaseView<E::V>,
    b: ConfigBaseView<E::V>,
)
    requires
        a.tls_no_verify is Some,
        b.tls_no_verify is Some,
    ensures
        ConfigBase::<E>::merge_view(ConfigBase::<E>::merge_view(init, a), b).tls_no_verify
            == b.tls_no_verify,
        ConfigBase::<E>::merge_view(ConfigBase::<E>::merge_view(init, b), a).tls_no_verify
            == a.tls_no_verify,
{
}

} // verus!
