use vstd::prelude::*;

use crate::cloning::clone_opt_string;

verus! {

/// Build metadata carried by a configuration layer. The aggregate merge
/// keeps the first loaded value wholesale (first-loaded-wins), an explicit
/// asymmetry from the rest of the engine.
#[derive(Debug, Clone, PartialEq, Eq)]
pub struct BuildConfig {
    pub version: Option<String>,
    pub author: Option<String>,
    pub description: Option<String>,
}

/// The mathematical image of a `BuildConfig`.
#[verifier::ext_equal]
pub struct BuildConfigView {
    pub version: Option<Seq<char>>,
    pub author: Option<Seq<char>>,
    pub description: Option<Seq<char>>,
}

impl View for BuildConfig {
    type V = BuildConfigView;

    open spec fn view(&self) -> BuildConfigView {
        BuildConfigView {
            version: self.version.deep_view(),
            author: self.author.deep_view(),
            description: self.description.deep_view(),
        }
    }
}

/// Copies an optional build record; the copy carries the same value.
pub fn clone_opt_build(o: &Option<BuildConfig>) -> (r: Option<BuildConfig>)
    ensures
        r == *o,
{
    match o {
        Some(b) => Some(
            BuildConfig {
                version: clone_opt_string(&b.version),
                author: clone_opt_string(&b.author),
                description: clone_opt_string(&b.description),
            },
        ),
        None => None,
    }
}

} // verus!
