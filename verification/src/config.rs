//! The run configuration: ignored path prefixes, ignored basenames and
//! extensions, and an extension-to-language mapping. It is handed in
//! already parsed and is read-only for the whole run.

use vstd::prelude::*;

use crate::text::{
    find_key, list_has, list_has_prefix_of, pairs_view, spec_list_has, spec_list_has_prefix_of,
    spec_lookup,
};

verus! {

/// Read-only run configuration. An absent configuration is the all-empty
/// default, which ignores nothing and maps nothing.
pub struct Config {
    pub ignore_paths: Vec<Vec<u8>>,
    pub language_mappings: Vec<(Vec<u8>, Vec<u8>)>,
    pub exclude_extensions: Vec<Vec<u8>>,
    pub exclude_files: Vec<Vec<u8>>,
}

impl Config {
    /// The extension-to-language mapping as a sequence of pairs.
    pub open spec fn mappings_view(&self) -> Seq<(Seq<u8>, Seq<u8>)> {
        pairs_view(self.language_mappings@)
    }

    /// Whether some configured ignore prefix is a prefix of `path`.
    pub open spec fn spec_ignores_path(&self, path: Seq<u8>) -> bool {
        spec_list_has_prefix_of(self.ignore_paths@, path)
    }

    /// Whether `filename` is a configured ignored basename.
    pub open spec fn spec_ignores_file(&self, filename: Seq<u8>) -> bool {
        spec_list_has(self.exclude_files@, filename)
    }

    /// Whether `extension` is a configured ignored extension.
    pub open spec fn spec_ignores_extension(&self, extension: Seq<u8>) -> bool {
        spec_list_has(self.exclude_extensions@, extension)
    }

    /// The configured language for `extension`, matched case-sensitively.
    pub open spec fn spec_mapping(&self, extension: Seq<u8>) -> Option<Seq<u8>> {
        spec_lookup(self.mappings_view(), extension)
    }

    pub fn should_ignore_path(&self, path: &[u8]) -> (r: bool)
        ensures
            r == self.spec_ignores_path(path@),
    {
        list_has_prefix_of(&self.ignore_paths, path)
    }

    pub fn should_ignore_file(&self, filename: &[u8]) -> (r: bool)
        ensures
            r == self.spec_ignores_file(filename@),
    {
        list_has(&self.exclude_files, filename)
    }

    pub fn should_ignore_extension(&self, extension: &[u8]) -> (r: bool)
        ensures
            r == self.spec_ignores_extension(extension@),
    {
        list_has(&self.exclude_extensions, extension)
    }

    pub fn get_language_mapping(&self, extension: &[u8]) -> (r: Option<Vec<u8>>)
        ensures
            match r {
                Some(v) => self.spec_mapping(extension@) == Option::Some(v@),
                None => self.spec_mapping(extension@) == Option::<Seq<u8>>::None,
            },
    {
        match find_key(&self.language_mappings, extension) {
            Some(i) => Some(self.language_mappings[i].1.clone()),
            None => None,
        }
    }
}

impl Default for Config {
    /// The all-empty configuration.
    fn default() -> (r: Config)
        ensures
            r.ignore_paths@.len() == 0,
            r.language_mappings@.len() == 0,
            r.exclude_extensions@.len() == 0,
            r.exclude_files@.len() == 0,
    {
        Config {
            ignore_paths: Vec::new(),
            language_mappings: Vec::new(),
            exclude_extensions: Vec::new(),
            exclude_files: Vec::new(),
        }
    }
}

} // verus!
