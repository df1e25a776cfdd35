use vstd::prelude::*;

use crate::cloning::{clone_opt_string, clone_string_vec};
use crate::config::Config;
use crate::error::{ConfigError, ConfigErrorView};

verus! {

/// Https/Http proxy settings: the proxy to use per scheme and the host
/// patterns that bypass the proxy.
#[derive(Debug, Clone, PartialEq, Eq)]
pub struct ProxyConfig {
    /// The HTTPS proxy to use.
    pub https: Option<String>,
    /// The HTTP proxy to use.
    pub http: Option<String>,
    /// A list of no-proxy host patterns.
    pub non_proxy_hosts: Vec<String>,
}

/// The mathematical image of a `ProxyConfig`.
#[verifier::ext_equal]
pub struct ProxyConfigView {
    pub https: Option<Seq<char>>,
    pub http: Option<Seq<char>>,
    pub non_proxy_hosts: Seq<Seq<char>>,
}

impl View for ProxyConfig {
    type V = ProxyConfigView;

    open spec fn view(&self) -> ProxyConfigView {
        ProxyConfigView {
            https: self.https.deep_view(),
            http: self.http.deep_view(),
            non_proxy_hosts: self.non_proxy_hosts.deep_view(),
        }
    }
}

/// The record with no proxy and no bypass pattern.
pub open spec fn default_proxy_view() -> ProxyConfigView {
    ProxyConfigView { https: None, http: None, non_proxy_hosts: Seq::empty() }
}

/// Both proxy URLs are absent and the host list is empty.
pub open spec fn is_default_proxy(v: ProxyConfigView) -> bool {
    v.https is None && v.http is None && v.non_proxy_hosts.len() == 0
}

/// Per-field other-wins-if-specified for the URLs; the host list is kept
/// unchanged when the higher-priority side is entirely default, and replaced
/// wholesale (not unioned) otherwise.
pub open spec fn spec_merge_proxy(a: ProxyConfigView, b: ProxyConfigView) -> ProxyConfigView {
    ProxyConfigView {
        https: if b.https is Some {
            b.https
        } else {
            a.https
        },
        http: if b.http is Some {
            b.http
        } else {
            a.http
        },
        non_proxy_hosts: if is_default_proxy(b) {
            a.non_proxy_hosts
        } else {
            b.non_proxy_hosts
        },
    }
}

impl ProxyConfig {
    /// Returns the record with no proxy and no bypass pattern.
    pub fn empty() -> (r: Self)
        ensures
            r@ == default_proxy_view(),
    {
        let r = ProxyConfig { https: None, http: None, non_proxy_hosts: Vec::new() };
        proof {
            assert(r@ =~= default_proxy_view());
        }
        r
    }

    /// Returns whether both proxy URLs are absent and the host list empty.
    pub fn is_default(&self) -> (r: bool)
        ensures
            r == is_default_proxy(self@),
    {
        self.https.is_none() && self.http.is_none() && self.non_proxy_hosts.len() == 0
    }
}

impl Default for ProxyConfig {
    /// The default record has no proxy and no bypass pattern.
    fn default() -> (r: Self)
        ensures
            r@ == default_proxy_view(),
    {
        ProxyConfig::empty()
    }
}

impl Config for ProxyConfig {
    open spec fn inv(self) -> bool {
        true
    }

    open spec fn name_spec() -> Seq<char> {
        "proxy"@
    }

    open spec fn default_spec() -> ProxyConfigView {
        default_proxy_view()
    }

    open spec fn merge_ok(a: ProxyConfigView, b: ProxyConfigView) -> bool {
        true
    }

    open spec fn merge_spec(a: ProxyConfigView, b: ProxyConfigView) -> ProxyConfigView {
        spec_merge_proxy(a, b)
    }

    open spec fn merge_err(a: ProxyConfigView, b: ProxyConfigView) -> ConfigErrorView {
        ConfigErrorView::ExtensionMerge(Seq::empty())
    }

    open spec fn valid_spec(v: ProxyConfigView) -> bool {
        v.https is Some || v.http is Some
    }

    open spec fn keys_spec() -> Seq<Seq<char>> {
        seq!["https"@, "http"@, "non-proxy-hosts"@]
    }

    fn get_extension_name(&self) -> (r: String) {
        String::from_str("proxy")
    }

    fn default_value() -> (r: Self) {
        ProxyConfig::empty()
    }

    fn is_default(&self) -> (r: bool) {
        let r = ProxyConfig::is_default(self);
        proof {
            if is_default_proxy(self@) {
                assert(self@ =~= Self::default_spec());
            }
        }
        r
    }

    /// Merging proxy settings never fails.
    fn merge_config(self, other: &Self) -> (r: Result<Self, ConfigError>) {
        let https = if other.https.is_some() {
            clone_opt_string(&other.https)
        } else {
            self.https
        };
        let http = if other.http.is_some() {
            clone_opt_string(&other.http)
        } else {
            self.http
        };
        let non_proxy_hosts = if other.is_default() {
            self.non_proxy_hosts
        } else {
            clone_string_vec(&other.non_proxy_hosts)
        };
        let merged = ProxyConfig { https, http, non_proxy_hosts };
        proof {
            assert(merged@ =~= spec_merge_proxy(self@, other@));
        }
        Ok(merged)
    }

    /// At least one of the https or http proxies must be set once a proxy
    /// record is asserted.
    fn validate(&self) -> (r: Result<(), ConfigError>) {
        if self.https.is_none() && self.http.is_none() {
            return Err(
                ConfigError::Validation(
                    String::from_str("At least one of https or http proxy must be set"),
                ),
            );
        }
        Ok(())
    }

    fn keys(&self) -> (r: Vec<String>) {
        let mut r: Vec<String> = Vec::new();
        r.push(String::from_str("https"));
        r.push(String::from_str("http"));
        r.push(String::from_str("non-proxy-hosts"));
        proof {
            assert(r.deep_view() =~= Self::keys_spec());
        }
        r
    }
}

/// The host-pattern clause of the proxy merge: a higher-priority record that
/// is entirely default leaves the lower-priority host list unchanged, and
/// any other replaces it exactly (never a union).
pub proof fn lemma_proxy_hosts_replacement(a: ProxyConfigView, b: ProxyConfigView)
    ensures
        is_default_proxy(b) ==> spec_merge_proxy(a, b).non_proxy_hosts == a.non_proxy_hosts,
        !is_default_proxy(b) ==> spec_merge_proxy(a, b).non_proxy_hosts == b.non_proxy_hosts,
{
}

} // verus!
