//! Per-file and per-language statistics, and the aggregator that merges
//! per-file results into per-language totals.

use vstd::prelude::*;

use crate::text::bytes_eq;
use vstd::slice::slice_to_vec;

verus! {

/// Line counts for one file. Every line of the file falls into exactly
/// one of the three buckets, so `total == code + comment + blank`.
#[derive(Clone, Copy, Debug)]
pub struct LineStats {
    pub total: usize,
    pub code: usize,
    pub comment: usize,
    pub blank: usize,
}

/// Statistics for one file: raw byte length plus line counts.
#[derive(Clone, Copy, Debug)]
pub struct FileStats {
    pub bytes: usize,
    pub lines: LineStats,
}

/// Mathematical model of one accumulated statistics entry.
pub struct StatsModel {
    pub bytes: int,
    pub total: int,
    pub code: int,
    pub comment: int,
    pub blank: int,
}

impl View for FileStats {
    type V = StatsModel;

    open spec fn view(&self) -> StatsModel {
        StatsModel {
            bytes: self.bytes as int,
            total: self.lines.total as int,
            code: self.lines.code as int,
            comment: self.lines.comment as int,
            blank: self.lines.blank as int,
        }
    }
}

/// The all-zero entry: what a language starts from before its first file.
pub open spec fn zero_stats() -> StatsModel {
    StatsModel { bytes: 0, total: 0, code: 0, comment: 0, blank: 0 }
}

/// Field-wise sum of two entries.
pub open spec fn add_stats(a: StatsModel, b: StatsModel) -> StatsModel {
    StatsModel {
        bytes: a.bytes + b.bytes,
        total: a.total + b.total,
        code: a.code + b.code,
        comment: a.comment + b.comment,
        blank: a.blank + b.blank,
    }
}

/// Whether one more file's statistics fit into the machine-width
/// counters of the entry for `lang`.
pub open spec fn can_absorb(m: Map<Seq<u8>, StatsModel>, lang: Seq<u8>, fs: StatsModel) -> bool {
    let cur = if m.dom().contains(lang) {
        m[lang]
    } else {
        zero_stats()
    };
    add_stats(cur, fs).bytes <= usize::MAX && add_stats(cur, fs).total <= usize::MAX && add_stats(
        cur,
        fs,
    ).code <= usize::MAX && add_stats(cur, fs).comment <= usize::MAX && add_stats(cur, fs).blank
        <= usize::MAX
}

/// One merge step on the abstract per-language map: add `fs` into the
/// entry for `lang`, starting from zero when `lang` is new.
pub open spec fn merge_one(
    m: Map<Seq<u8>, StatsModel>,
    lang: Seq<u8>,
    fs: StatsModel,
) -> Map<Seq<u8>, StatsModel> {
    let cur = if m.dom().contains(lang) {
        m[lang]
    } else {
        zero_stats()
    };
    m.insert(lang, add_stats(cur, fs))
}

impl LineStats {
    /// All-zero line counts.
    pub fn new() -> (r: LineStats)
        ensures
            r.total == 0 && r.code == 0 && r.comment == 0 && r.blank == 0,
    {
        LineStats { total: 0, code: 0, comment: 0, blank: 0 }
    }
}

impl Default for LineStats {
    fn default() -> (r: LineStats)
        ensures
            r.total == 0 && r.code == 0 && r.comment == 0 && r.blank == 0,
    {
        LineStats::new()
    }
}

impl FileStats {
    /// Zero bytes, zero lines.
    pub fn new() -> (r: FileStats)
        ensures
            r@ == zero_stats(),
    {
        FileStats { bytes: 0, lines: LineStats::new() }
    }
}

impl Default for FileStats {
    fn default() -> (r: FileStats)
        ensures
            r@ == zero_stats(),
    {
        FileStats::new()
    }
}

/// Running per-language totals: an association list from language label
/// (bytes, case-sensitive) to accumulated statistics, plus the count of
/// files merged so far.
pub struct LanguageStats {
    pub stats: Vec<(Vec<u8>, FileStats)>,
    pub total_files: usize,
}

impl LanguageStats {
    /// Well-formedness: each language occurs at most once.
    pub open spec fn wf(&self) -> bool {
        forall|i: int, j: int|
            0 <= i < j < self.stats@.len() ==> self.stats@[i].0@ != self.stats@[j].0@
    }

    /// Whether a language already has an entry.
    pub open spec fn has_lang(&self, lang: Seq<u8>) -> bool {
        exists|i: int| 0 <= i < self.stats@.len() && self.stats@[i].0@ == lang
    }

    /// Index of the entry for `lang` (meaningful only when `has_lang`).
    pub open spec fn idx_of(&self, lang: Seq<u8>) -> int {
        choose|i: int| 0 <= i < self.stats@.len() && self.stats@[i].0@ == lang
    }

    /// The aggregate as a mathematical map from language to totals.
    pub open spec fn as_map(&self) -> Map<Seq<u8>, StatsModel> {
        Map::new(|k: Seq<u8>| self.has_lang(k), |k: Seq<u8>| self.stats@[self.idx_of(k)].1@)
    }

    proof fn lemma_idx_pins(&self, i: int)
        requires
            self.wf(),
            0 <= i < self.stats@.len(),
        ensures
            self.has_lang(self.stats@[i].0@),
            self.idx_of(self.stats@[i].0@) == i,
            self.as_map().dom().contains(self.stats@[i].0@),
            self.as_map()[self.stats@[i].0@] == self.stats@[i].1@,
    {
        let k = self.stats@[i].0@;
        assert(self.has_lang(k));
        let j = self.idx_of(k);
        assert(0 <= j < self.stats@.len() && self.stats@[j].0@ == k);
        if i != j {
            assert(self.stats@[i].0@ != self.stats@[j].0@);
        }
    }

    /// An empty aggregate: no languages, no files.
    pub fn new() -> (r: LanguageStats)
        ensures
            r.wf(),
            r.as_map() =~= Map::<Seq<u8>, StatsModel>::empty(),
            r.total_files == 0,
    {
        let r = LanguageStats { stats: Vec::new(), total_files: 0 };
        proof {
            assert(forall|k: Seq<u8>| !r.has_lang(k));
        }
        r
    }

    /// Adds one file's statistics into the entry for `language`, creating
    /// a zero-valued entry on first occurrence, and counts the file.
    #[verifier::loop_isolation(false)]
    pub fn update(&mut self, language: &[u8], stats: FileStats)
        requires
            old(self).wf(),
            old(self).total_files < usize::MAX,
            can_absorb(old(self).as_map(), language@, stats@),
        ensures
            final(self).wf(),
            final(self).as_map() == merge_one(old(self).as_map(), language@, stats@),
            final(self).total_files == old(self).total_files + 1,
    {
        let ghost m0 = old(self).as_map();
        let n: usize = self.stats.len();
        let mut i: usize = 0;
        while i < n
            invariant
                *self == *old(self),
                n == self.stats@.len(),
                0 <= i <= n,
                forall|k: int| 0 <= k < i ==> self.stats@[k].0@ != language@,
            decreases n - i,
        {
            if bytes_eq(self.stats[i].0.as_slice(), language) {
                proof {
                    self.lemma_idx_pins(i as int);
                }
                let (key, cur) = self.stats.remove(i);
                let merged = FileStats {
                    bytes: cur.bytes + stats.bytes,
                    lines: LineStats {
                        total: cur.lines.total + stats.lines.total,
                        code: cur.lines.code + stats.lines.code,
                        comment: cur.lines.comment + stats.lines.comment,
                        blank: cur.lines.blank + stats.lines.blank,
                    },
                };
                self.stats.insert(i, (key, merged));
                self.total_files = self.total_files + 1;
                proof {
                    assert(self.stats@ =~= old(self).stats@.update(
                        i as int,
                        (old(self).stats@[i as int].0, merged),
                    ));
                    assert(self.wf());
                    assert forall|k: Seq<u8>| self.has_lang(k) <==> old(self).has_lang(k) by {
                        assert(forall|j: int|
                            0 <= j < self.stats@.len() ==> self.stats@[j].0@ == old(
                                self,
                            ).stats@[j].0@);
                    }
                    assert forall|k: Seq<u8>| #[trigger] self.as_map().dom().contains(k) implies
                        self.as_map()[k] == merge_one(m0, language@, stats@)[k] by {
                        if k == language@ {
                            self.lemma_idx_pins(i as int);
                        } else {
                            let j = old(self).idx_of(k);
                            assert(0 <= j < old(self).stats@.len() && old(self).stats@[j].0@ == k);
                            assert(j != i);
                            old(self).lemma_idx_pins(j);
                            self.lemma_idx_pins(j);
                        }
                    }
                    assert(self.as_map() =~= merge_one(m0, language@, stats@));
                }
                return ;
            }
            i = i + 1;
        }
        proof {
            assert(!old(self).has_lang(language@));
        }
        self.stats.push((slice_to_vec(language), stats));
        self.total_files = self.total_files + 1;
        proof {
            assert(self.wf());
            assert forall|k: Seq<u8>| self.has_lang(k) <==> (old(self).has_lang(k) || k
                == language@) by {
                if self.has_lang(k) {
                    let j = choose|j: int|
                        0 <= j < self.stats@.len() && self.stats@[j].0@ == k;
                    if j < old(self).stats@.len() as int {
                        assert(old(self).has_lang(k));
                    }
                }
                if old(self).has_lang(k) {
                    let j = old(self).idx_of(k);
                    assert(self.stats@[j].0@ == k);
                }
                if k == language@ {
                    assert(self.stats@[self.stats@.len() - 1].0@ == k);
                }
            }
            assert forall|k: Seq<u8>| #[trigger] self.as_map().dom().contains(k) implies
                self.as_map()[k] == merge_one(m0, language@, stats@)[k] by {
                if k == language@ {
                    self.lemma_idx_pins(self.stats@.len() - 1);
                    assert(add_stats(zero_stats(), stats@) == stats@);
                } else {
                    let j = old(self).idx_of(k);
                    assert(0 <= j < old(self).stats@.len() && old(self).stats@[j].0@ == k);
                    old(self).lemma_idx_pins(j);
                    self.lemma_idx_pins(j);
                }
            }
            assert(self.as_map() =~= merge_one(m0, language@, stats@));
        }
    }
}

/// The entry in force for `lang`, or zero where none is.
pub open spec fn get_or_zero(m: Map<Seq<u8>, StatsModel>, lang: Seq<u8>) -> StatsModel {
    if m.dom().contains(lang) {
        m[lang]
    } else {
        zero_stats()
    }
}

/// A completed run, abstractly: the merges of a whole sequence of
/// (language, file statistics) pairs, in order.
pub open spec fn merge_all(
    m: Map<Seq<u8>, StatsModel>,
    pairs: Seq<(Seq<u8>, StatsModel)>,
) -> Map<Seq<u8>, StatsModel>
    decreases pairs.len(),
{
    if pairs.len() == 0 {
        m
    } else {
        merge_all(merge_one(m, pairs[0].0, pairs[0].1), pairs.drop_first())
    }
}

/// The field-wise sum of the statistics of the pairs labelled `lang`.
pub open spec fn sum_for(pairs: Seq<(Seq<u8>, StatsModel)>, lang: Seq<u8>) -> StatsModel
    decreases pairs.len(),
{
    if pairs.len() == 0 {
        zero_stats()
    } else if pairs[0].0 == lang {
        add_stats(pairs[0].1, sum_for(pairs.drop_first(), lang))
    } else {
        sum_for(pairs.drop_first(), lang)
    }
}

proof fn lemma_merge_all_entry(
    m: Map<Seq<u8>, StatsModel>,
    pairs: Seq<(Seq<u8>, StatsModel)>,
    lang: Seq<u8>,
)
    ensures
        merge_all(m, pairs).dom().contains(lang) <==> (m.dom().contains(lang) || exists|i: int|
            0 <= i < pairs.len() && (#[trigger] pairs[i]).0 == lang),
        get_or_zero(merge_all(m, pairs), lang) == add_stats(
            get_or_zero(m, lang),
            sum_for(pairs, lang),
        ),
    decreases pairs.len(),
{
    if pairs.len() == 0 {
        assert(add_stats(get_or_zero(m, lang), zero_stats()) == get_or_zero(m, lang));
    } else {
        let p0 = pairs[0];
        let m1 = merge_one(m, p0.0, p0.1);
        lemma_merge_all_entry(m1, pairs.drop_first(), lang);
        assert(forall|i: int|
            0 <= i < pairs.drop_first().len() ==> #[trigger] pairs.drop_first()[i] == pairs[i
                + 1]);
        if p0.0 == lang {
            assert(get_or_zero(m1, lang) == add_stats(get_or_zero(m, lang), p0.1));
            assert(add_stats(add_stats(get_or_zero(m, lang), p0.1), sum_for(
                pairs.drop_first(),
                lang,
            )) == add_stats(get_or_zero(m, lang), add_stats(p0.1, sum_for(
                pairs.drop_first(),
                lang,
            ))));
        } else {
            assert(get_or_zero(m1, lang) == get_or_zero(m, lang));
            assert(m1.dom().contains(lang) <==> m.dom().contains(lang));
        }
        if m.dom().contains(lang) || p0.0 == lang {
            assert(m1.dom().contains(lang));
            assert(merge_all(m, pairs).dom().contains(lang));
        }
        if exists|i: int| 0 <= i < pairs.len() && (#[trigger] pairs[i]).0 == lang {
            let i = choose|i: int| 0 <= i < pairs.len() && (#[trigger] pairs[i]).0 == lang;
            if i == 0 {
                assert(m1.dom().contains(lang));
            } else {
                assert((pairs.drop_first()[i - 1]).0 == lang);
            }
            assert(merge_all(m, pairs).dom().contains(lang));
        }
        if merge_all(m, pairs).dom().contains(lang) {
            if m1.dom().contains(lang) {
                if !m.dom().contains(lang) {
                    assert((pairs[0]).0 == lang);
                }
            } else {
                let i = choose|i: int|
                    0 <= i < pairs.drop_first().len() && (#[trigger] pairs.drop_first()[i]).0
                        == lang;
                assert((pairs[i + 1]).0 == lang);
            }
        }
    }
}

/// For every language, the accumulated entry of a completed run equals
/// the field-wise sum of the statistics of all files classified as that
/// language — bytes and each of the four line counters alike.
pub proof fn lemma_totals_are_sums(pairs: Seq<(Seq<u8>, StatsModel)>, lang: Seq<u8>)
    ensures
        merge_all(Map::empty(), pairs).dom().contains(lang) <==> (exists|i: int|
            0 <= i < pairs.len() && (#[trigger] pairs[i]).0 == lang),
        merge_all(Map::empty(), pairs).dom().contains(lang) ==> merge_all(Map::empty(), pairs)[lang]
            == sum_for(pairs, lang),
{
    lemma_merge_all_entry(Map::empty(), pairs, lang);
    assert(add_stats(zero_stats(), sum_for(pairs, lang)) == sum_for(pairs, lang));
}

/// How many of the pairs carry `lang`.
pub open spec fn count_for(pairs: Seq<(Seq<u8>, StatsModel)>, lang: Seq<u8>) -> int
    decreases pairs.len(),
{
    if pairs.len() == 0 {
        0
    } else if pairs[0].0 == lang {
        1 + count_for(pairs.drop_first(), lang)
    } else {
        count_for(pairs.drop_first(), lang)
    }
}

/// The per-language counts added up over a list of languages.
pub open spec fn sum_counts(pairs: Seq<(Seq<u8>, StatsModel)>, langs: Seq<Seq<u8>>) -> int
    decreases langs.len(),
{
    if langs.len() == 0 {
        0
    } else {
        count_for(pairs, langs[0]) + sum_counts(pairs, langs.drop_first())
    }
}

proof fn lemma_sum_counts_empty(langs: Seq<Seq<u8>>)
    ensures
        sum_counts(Seq::empty(), langs) == 0,
    decreases langs.len(),
{
    if langs.len() > 0 {
        lemma_sum_counts_empty(langs.drop_first());
    }
}

proof fn lemma_sum_counts_cons(pairs: Seq<(Seq<u8>, StatsModel)>, langs: Seq<Seq<u8>>)
    requires
        pairs.len() > 0,
        langs.no_duplicates(),
    ensures
        sum_counts(pairs, langs) == sum_counts(pairs.drop_first(), langs) + (if langs.contains(
            pairs[0].0,
        ) {
            1int
        } else {
            0int
        }),
    decreases langs.len(),
{
    if langs.len() > 0 {
        let rest = langs.drop_first();
        assert(forall|i: int| 0 <= i < rest.len() ==> #[trigger] rest[i] == langs[i + 1]);
        assert(rest.no_duplicates());
        lemma_sum_counts_cons(pairs, rest);
        if langs[0] == pairs[0].0 {
            assert(langs.contains(pairs[0].0));
            assert(!rest.contains(pairs[0].0)) by {
                if rest.contains(pairs[0].0) {
                    let i = choose|i: int| 0 <= i < rest.len() && rest[i] == pairs[0].0;
                    assert(langs[i + 1] == langs[0]);
                }
            }
        } else {
            assert(langs.contains(pairs[0].0) <==> rest.contains(pairs[0].0)) by {
                if langs.contains(pairs[0].0) {
                    let i = choose|i: int| 0 <= i < langs.len() && langs[i] == pairs[0].0;
                    assert(rest[i - 1] == pairs[0].0);
                    assert(rest.contains(pairs[0].0));
                }
                if rest.contains(pairs[0].0) {
                    let i = choose|i: int| 0 <= i < rest.len() && rest[i] == pairs[0].0;
                    assert(langs[i + 1] == pairs[0].0);
                }
            }
        }
    }
}

/// The total file count of a run is distributed exactly over the
/// languages: summing the number of files merged into each language,
/// over any duplicate-free list of languages covering the run, gives
/// the number of files merged in all.
pub proof fn lemma_total_files_partition(pairs: Seq<(Seq<u8>, StatsModel)>, langs: Seq<Seq<u8>>)
    requires
        langs.no_duplicates(),
        forall|i: int| 0 <= i < pairs.len() ==> langs.contains((#[trigger] pairs[i]).0),
    ensures
        sum_counts(pairs, langs) == pairs.len(),
    decreases pairs.len(),
{
    if pairs.len() == 0 {
        lemma_sum_counts_empty(langs);
        assert(sum_counts(Seq::empty(), langs) == sum_counts(pairs, langs)) by {
            assert(pairs =~= Seq::<(Seq<u8>, StatsModel)>::empty());
        }
    } else {
        let rest = pairs.drop_first();
        assert(forall|i: int| 0 <= i < rest.len() ==> #[trigger] rest[i] == pairs[i + 1]);
        lemma_total_files_partition(rest, langs);
        assert(langs.contains(pairs[0].0));
        lemma_sum_counts_cons(pairs, langs);
    }
}

proof fn lemma_merge_one_commutes(
    m: Map<Seq<u8>, StatsModel>,
    a: (Seq<u8>, StatsModel),
    b: (Seq<u8>, StatsModel),
)
    ensures
        merge_one(merge_one(m, a.0, a.1), b.0, b.1) == merge_one(merge_one(m, b.0, b.1), a.0, a.1),
{
    if a.0 == b.0 {
        assert(merge_one(merge_one(m, a.0, a.1), b.0, b.1) =~= merge_one(
            merge_one(m, b.0, b.1),
            a.0,
            a.1,
        ));
    } else {
        assert(merge_one(merge_one(m, a.0, a.1), b.0, b.1) =~= merge_one(
            merge_one(m, b.0, b.1),
            a.0,
            a.1,
        ));
    }
}

proof fn lemma_merge_all_pull(m: Map<Seq<u8>, StatsModel>, s: Seq<(Seq<u8>, StatsModel)>, j: int)
    requires
        0 <= j < s.len(),
    ensures
        merge_all(m, s) == merge_all(merge_one(m, s[j].0, s[j].1), s.remove(j)),
    decreases j,
{
    if j == 0 {
        assert(s.remove(0) =~= s.drop_first());
    } else {
        let m1 = merge_one(m, s[0].0, s[0].1);
        assert(forall|i: int|
            0 <= i < s.drop_first().len() ==> #[trigger] s.drop_first()[i] == s[i + 1]);
        lemma_merge_all_pull(m1, s.drop_first(), j - 1);
        assert(s.drop_first()[j - 1] == s[j]);
        lemma_merge_one_commutes(m, s[0], s[j]);
        assert(s.drop_first().remove(j - 1) =~= s.remove(j).drop_first());
        assert(s.remove(j)[0] == s[0]);
        assert(merge_all(merge_one(m, s[j].0, s[j].1), s.remove(j)) == merge_all(
            merge_one(merge_one(m, s[j].0, s[j].1), s[0].0, s[0].1),
            s.remove(j).drop_first(),
        ));
    }
}

/// Merging the same multiset of (language, file statistics) pairs in any
/// order yields the same per-language totals: the merge operation is
/// commutative and associative over a run.
pub proof fn lemma_merge_order_independent(
    m: Map<Seq<u8>, StatsModel>,
    s1: Seq<(Seq<u8>, StatsModel)>,
    s2: Seq<(Seq<u8>, StatsModel)>,
)
    requires
        s1.to_multiset() == s2.to_multiset(),
    ensures
        merge_all(m, s1) == merge_all(m, s2),
    decreases s1.len(),
{
    s1.to_multiset_ensures();
    s2.to_multiset_ensures();
    if s1.len() == 0 {
        assert(s2.len() == 0);
        assert(s2 =~= Seq::<(Seq<u8>, StatsModel)>::empty());
        assert(s1 =~= Seq::<(Seq<u8>, StatsModel)>::empty());
    } else {
        let p = s1[0];
        assert(s1.contains(p));
        assert(s2.to_multiset().count(p) > 0);
        assert(s2.contains(p));
        let j = choose|j: int| 0 <= j < s2.len() && s2[j] == p;
        lemma_merge_all_pull(m, s2, j);
        assert(s1.drop_first() =~= s1.remove(0));
        assert(s1.remove(0).to_multiset() == s1.to_multiset().remove(p));
        assert(s2.remove(j).to_multiset() == s2.to_multiset().remove(p));
        lemma_merge_order_independent(merge_one(m, p.0, p.1), s1.drop_first(), s2.remove(j));
    }
}

} // verus!
