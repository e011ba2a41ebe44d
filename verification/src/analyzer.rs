//! The analysis orchestrator: holds the detector and the optional
//! configuration, and performs the per-file work — the ignore predicate,
//! language detection, line classification and the merge into the
//! per-language totals. Walking the file tree and reading file contents
//! are the caller's business; the orchestrator is handed plain bytes.

use vstd::prelude::*;

use crate::classifier::{analyze_content, spec_file_stats, spec_lines};
use crate::config::Config;
use crate::detector::{
    other_label, other_label_vec, spec_basename, spec_entries, spec_extension, LanguageDetector,
};
use crate::stats::{can_absorb, merge_one, LanguageStats};
use crate::text::bytes_eq;
use vstd::slice::slice_to_vec;

verus! {

/// The orchestrator of one analysis run.
pub struct ProjectAnalyzer {
    pub detector: LanguageDetector,
    pub config: Option<Config>,
}

impl ProjectAnalyzer {
    /// A fresh analyzer: no overrides loaded, no configuration set.
    pub fn new() -> (r: ProjectAnalyzer)
        ensures
            r.detector.ov_view() == Seq::<(Seq<u8>, Seq<u8>)>::empty(),
            r.config is None,
    {
        ProjectAnalyzer { detector: LanguageDetector::new(), config: None }
    }

    /// Installs the run configuration.
    pub fn set_config(&mut self, config: Config)
        ensures
            final(self).config == Option::Some(config),
            final(self).detector == old(self).detector,
    {
        self.config = Some(config);
    }

    /// Loads explicit overrides from the content of the attributes file
    /// at the analysis root.
    pub fn load_overrides(&mut self, root: &[u8], content: &[u8])
        ensures
            final(self).config == old(self).config,
            final(self).detector.ov_view() == old(self).detector.ov_view() + spec_entries(
                root@,
                spec_lines(content@),
            ),
    {
        self.detector.load_overrides(root, content);
    }

    /// The extension mapping in force: the configuration's, or empty.
    pub open spec fn spec_maps(&self) -> Seq<(Seq<u8>, Seq<u8>)> {
        match self.config {
            Option::Some(c) => c.mappings_view(),
            Option::None => Seq::empty(),
        }
    }

    /// The language this analyzer detects for a path.
    pub open spec fn spec_detected(&self, path: Seq<u8>) -> Seq<u8> {
        self.detector.spec_detect(self.spec_maps(), path)
    }

    /// Whether a path is excluded from analysis before detection is even
    /// attempted: the configured ignore rules first (path prefix, then
    /// basename, then extension), then the built-in ignore sets, which
    /// apply regardless of configuration.
    pub open spec fn spec_is_ignored(&self, path: Seq<u8>) -> bool {
        (match self.config {
            Option::Some(c) => c.spec_ignores_path(path) || c.spec_ignores_file(
                spec_basename(path),
            ) || (match spec_extension(path) {
                Option::Some(e) => c.spec_ignores_extension(e),
                Option::None => false,
            }),
            Option::None => false,
        }) || self.detector.spec_should_ignore(path)
    }

    /// Ignore predicate, executable form.
    pub fn is_ignored(&self, path: &[u8]) -> (r: bool)
        ensures
            r == self.spec_is_ignored(path@),
    {
        match &self.config {
            Some(c) => {
                if c.should_ignore_path(path) {
                    return true;
                }
                let b = crate::detector::basename_of(path);
                if c.should_ignore_file(b) {
                    return true;
                }
                if let Some(e) = crate::detector::extension_of(path) {
                    if c.should_ignore_extension(e) {
                        return true;
                    }
                }
            },
            None => {},
        }
        self.detector.should_ignore(path)
    }

    /// Processes one file that was not ignored: detects its language,
    /// classifies its content, merges the result into `stats`, and
    /// appends the path to `other_files` exactly when the detected
    /// language is the `Other` label.
    pub fn process_file(
        &self,
        path: &[u8],
        content: &[u8],
        stats: &mut LanguageStats,
        other_files: &mut Vec<Vec<u8>>,
    )
        requires
            old(stats).wf(),
            old(stats).total_files < usize::MAX,
            can_absorb(old(stats).as_map(), self.spec_detected(path@), spec_file_stats(content@)),
        ensures
            final(stats).wf(),
            final(stats).as_map() == merge_one(
                old(stats).as_map(),
                self.spec_detected(path@),
                spec_file_stats(content@),
            ),
            final(stats).total_files == old(stats).total_files + 1,
            self.spec_detected(path@) == other_label() ==> final(other_files)@.len() == old(
                other_files,
            )@.len() + 1 && final(other_files)@.last()@ == path@ && (forall|i: int|
                0 <= i < old(other_files)@.len() ==> final(other_files)@[i] == old(
                    other_files,
                )@[i]),
            self.spec_detected(path@) != other_label() ==> final(other_files)@ == old(
                other_files,
            )@,
    {
        let cfg: Option<&Config> = match &self.config {
            Some(c) => Some(c),
            None => None,
        };
        let language = self.detector.detect_language(path, cfg);
        let file_stats = analyze_content(content);
        let other = other_label_vec();
        if bytes_eq(language.as_slice(), other.as_slice()) {
            other_files.push(slice_to_vec(path));
        }
        stats.update(language.as_slice(), file_stats);
    }
}

} // verus!
