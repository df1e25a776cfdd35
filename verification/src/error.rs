use vstd::prelude::*;

verus! {

/// The error kinds a configuration operation can raise. `Io` and `Parse`
/// come from loading a layer, `Validation` only from an explicit call to
/// `validate`, and `ExtensionMerge` is surfaced verbatim from the extension
/// slot's merge.
#[derive(Debug, Clone, PartialEq, Eq)]
pub enum ConfigError {
    Io(String),
    Parse(String),
    Validation(String),
    ExtensionMerge(String),
}

/// The mathematical image of a `ConfigError`: the same kind, with the
/// message as a sequence of characters.
#[verifier::ext_equal]
pub enum ConfigErrorView {
    Io(Seq<char>),
    Parse(Seq<char>),
    Validation(Seq<char>),
    ExtensionMerge(Seq<char>),
}

impl View for ConfigError {
    type V = ConfigErrorView;

    open spec fn view(&self) -> ConfigErrorView {
        match self {
            ConfigError::Io(m) => ConfigErrorView::Io(m@),
            ConfigError::Parse(m) => ConfigErrorView::Parse(m@),
            ConfigError::Validation(m) => ConfigErrorView::Validation(m@),
            ConfigError::ExtensionMerge(m) => ConfigErrorView::ExtensionMerge(m@),
        }
    }
}

impl ConfigError {
    /// The human-readable message carried by the error.
    pub open spec fn spec_message(self) -> Seq<char> {
        match self {
            ConfigError::Io(m) => m@,
            ConfigError::Parse(m) => m@,
            ConfigError::Validation(m) => m@,
            ConfigError::ExtensionMerge(m) => m@,
        }
    }

    /// Returns the message carried by the error.
    pub fn message(&self) -> (r: String)
        ensures
            r@ == self.spec_message(),
    {
        match self {
            ConfigError::Io(m) => m.clone(),
            ConfigError::Parse(m) => m.clone(),
            ConfigError::Validation(m) => m.clone(),
            ConfigError::ExtensionMerge(m) => m.clone(),
        }
    }
}

} // verus!
