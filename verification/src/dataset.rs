//! The dataset facade: an immutable corpus of fonts with its index,
//! exposing the sample counts and the `locate` / `item` queries.

use crate::entry::{font_glyph_events, FontEntry};
use crate::error::{DatasetError, LookupKind};
use crate::index::{
    entry_cp_count, entry_inst_count, entry_samples, lemma_total_step, total_codepoints,
    total_instances, total_samples, corpus_has_cp, DatasetIndex,
};
use crate::order::{nondecreasing, partition_point_leq};
use crate::pen::{pen_run, zero_block, DrawEvent, END_CODE};
use vstd::arithmetic::div_mod::{lemma_mod_bound, lemma_multiply_divide_lt};
use vstd::arithmetic::mul::lemma_mul_nonnegative;
use vstd::prelude::*;

verus! {

/// The set of codepoints any font of the corpus indexes: the global
/// content vocabulary.
pub open spec fn corpus_cp_set(s: Seq<FontEntry>) -> Set<u32> {
    Set::new(|cp: u32| corpus_has_cp(s, cp))
}

/// Each offset vector of the index holds the running totals of the corpus
/// prefixes.
pub proof fn lemma_offsets_are_totals(ix: DatasetIndex, entries: Seq<FontEntry>, f: int)
    requires
        ix.matches(entries),
        0 <= f <= entries.len(),
    ensures
        ix.sample_offsets@[f] == total_samples(entries.take(f)),
        ix.inst_offsets@[f] == total_instances(entries.take(f)),
        ix.cp_offsets@[f] == total_codepoints(entries.take(f)),
    decreases f,
{
    if f == 0 {
        assert(entries.take(0) =~= Seq::<FontEntry>::empty());
    } else {
        lemma_offsets_are_totals(ix, entries, f - 1);
        lemma_total_step(entries, f - 1);
    }
}

/// Each offset vector of the index is non-decreasing in the font
/// position.
pub proof fn lemma_offsets_le(ix: DatasetIndex, entries: Seq<FontEntry>, i: int, j: int)
    requires
        ix.matches(entries),
        0 <= i <= j <= entries.len(),
    ensures
        ix.sample_offsets@[i] <= ix.sample_offsets@[j],
        ix.inst_offsets@[i] <= ix.inst_offsets@[j],
        ix.cp_offsets@[i] <= ix.cp_offsets@[j],
    decreases j - i,
{
    if i < j {
        lemma_mul_nonnegative(entry_cp_count(entries[j - 1]), entry_inst_count(entries[j - 1]));
        lemma_offsets_le(ix, entries, i, j - 1);
        assert(ix.sample_offsets@[(j - 1) + 1] == ix.sample_offsets@[j - 1] + entry_samples(
            entries[j - 1],
        ));
        assert(ix.inst_offsets@[(j - 1) + 1] == ix.inst_offsets@[j - 1] + entry_inst_count(
            entries[j - 1],
        ));
        assert(ix.cp_offsets@[(j - 1) + 1] == ix.cp_offsets@[j - 1] + entry_cp_count(
            entries[j - 1],
        ));
    }
}

/// A sample index has one owner: the half-open sample ranges of two
/// fonts cannot both hold it, so the decomposition `locate` returns is
/// unique.
pub proof fn lemma_sample_owner_unique(
    ix: DatasetIndex,
    entries: Seq<FontEntry>,
    idx: int,
    f: int,
    g: int,
)
    requires
        ix.matches(entries),
        0 <= f < entries.len(),
        0 <= g < entries.len(),
        ix.sample_offsets@[f] <= idx < ix.sample_offsets@[f + 1],
        ix.sample_offsets@[g] <= idx < ix.sample_offsets@[g + 1],
    ensures
        f == g,
{
    if f < g {
        lemma_offsets_le(ix, entries, f + 1, g);
    } else if g < f {
        lemma_offsets_le(ix, entries, g + 1, f);
    }
}

/// The sample offsets form a non-decreasing vector.
pub proof fn lemma_sample_offsets_nondecreasing(ix: DatasetIndex, entries: Seq<FontEntry>)
    requires
        ix.matches(entries),
    ensures
        nondecreasing(ix.sample_offsets@),
{
    assert forall|i: int, j: int|
        0 <= i <= j < ix.sample_offsets@.len() implies ix.sample_offsets@[i]
        <= ix.sample_offsets@[j] by {
        lemma_offsets_le(ix, entries, i, j);
    }
}

/// A codepoint stands in the concatenated table exactly when some font
/// indexes it.
pub proof fn lemma_flat_is_union(ix: DatasetIndex, entries: Seq<FontEntry>)
    requires
        ix.matches(entries),
    ensures
        forall|cp: u32| #[trigger] ix.flat_cps@.contains(cp) <==> corpus_has_cp(entries, cp),
{
    let n = entries.len() as int;
    assert forall|cp: u32| #[trigger] ix.flat_cps@.contains(cp) implies corpus_has_cp(entries, cp)
        by {
        let p = choose|p: int| 0 <= p < ix.flat_cps@.len() && ix.flat_cps@[p] == cp;
        let f = lemma_flat_owner(ix, entries, p);
        assert(entries[f].codepoints@[p - ix.cp_offsets@[f]] == cp);
        assert(entries[f].codepoints@.contains(cp));
    }
    assert forall|cp: u32| corpus_has_cp(entries, cp) implies #[trigger] ix.flat_cps@.contains(cp)
        by {
        let f = choose|f: int| 0 <= f < n && (#[trigger] entries[f]).codepoints@.contains(cp);
        let j = choose|j: int| 0 <= j < entries[f].codepoints@.len() && entries[f].codepoints@[j]
            == cp;
        lemma_offsets_le(ix, entries, f + 1, n);
        assert(ix.flat_cps@[ix.cp_offsets@[f] + j] == cp);
    }
}

/// Every position of the concatenated table falls in exactly one font's
/// segment.
pub proof fn lemma_flat_owner(ix: DatasetIndex, entries: Seq<FontEntry>, p: int) -> (f: int)
    requires
        ix.matches(entries),
        0 <= p < ix.flat_cps@.len(),
    ensures
        0 <= f < entries.len(),
        ix.cp_offsets@[f] <= p < ix.cp_offsets@[f + 1],
        entries[f].codepoints@[p - ix.cp_offsets@[f]] == ix.flat_cps@[p],
{
    let n = entries.len() as int;
    let f = lemma_offset_owner(ix.cp_offsets@, p, 0, n);
    assert(entries[f].codepoints@[p - ix.cp_offsets@[f]] == ix.flat_cps@[ix.cp_offsets@[f] + (p
        - ix.cp_offsets@[f])]);
    f
}

/// In a prefix-sum vector, a position below the last cumulative count
/// falls in some step's half-open range.
proof fn lemma_offset_owner(off: Seq<usize>, p: int, lo: int, hi: int) -> (f: int)
    requires
        0 <= lo < hi < off.len(),
        off[lo] <= p < off[hi],
    ensures
        lo <= f < hi,
        off[f] <= p < off[f + 1],
    decreases hi - lo,
{
    if p < off[hi - 1] {
        if lo == hi - 1 {
            lo
        } else {
            lemma_offset_owner(off, p, lo, hi - 1)
        }
    } else {
        hi - 1
    }
}

/// A dataset: the loaded fonts and the index built over them, immutable
/// once constructed.
pub struct FontDataset {
    /// The fonts, in discovery order.
    pub entries: Vec<FontEntry>,
    /// The index built over `entries`.
    pub index: DatasetIndex,
}

impl FontDataset {
    /// The dataset's invariant: every entry well-formed, and the index
    /// the one built from the entries.
    pub open spec fn wf(&self) -> bool {
        &&& forall|f: int| 0 <= f < self.entries@.len() ==> (#[trigger] self.entries@[f]).wf()
        &&& self.index.matches(self.entries@)
    }

    /// The font owning a sample index: the one whose half-open sample
    /// range holds it, unique by `lemma_sample_owner_unique`.
    pub open spec fn spec_owner(&self, idx: int) -> int {
        choose|f: int|
            0 <= f < self.entries@.len() && (#[trigger] self.index.sample_offsets@[f]) <= idx
                < self.index.sample_offsets@[f + 1]
    }

    /// The codepoint of a sample index: within the owning font's block,
    /// samples are instance-major, codepoint-minor.
    pub open spec fn spec_codepoint(&self, idx: int) -> u32 {
        let f = self.spec_owner(idx);
        let local = idx - self.index.sample_offsets@[f];
        self.entries@[f].codepoints@[local % entry_cp_count(self.entries@[f])]
    }

    /// The instance selector of a sample index: the instance rank for a
    /// variable font, the neutral location otherwise.
    pub open spec fn spec_instance(&self, idx: int) -> Option<usize> {
        let f = self.spec_owner(idx);
        let local = idx - self.index.sample_offsets@[f];
        if self.entries@[f].named_instances > 0 {
            Some((local / entry_cp_count(self.entries@[f])) as usize)
        } else {
            None
        }
    }

    /// The draw events of the glyph a sample index addresses.
    pub open spec fn spec_sample_events(&self, idx: int) -> Option<Seq<DrawEvent>> {
        let e = self.entries@[self.spec_owner(idx)];
        font_glyph_events(
            e.data@,
            e.glyph_for(self.spec_codepoint(idx)),
            self.spec_instance(idx),
        )
    }

    /// Builds a dataset over an ordered list of loaded fonts.
    pub fn new(entries: Vec<FontEntry>) -> (r: FontDataset)
        requires
            forall|f: int| 0 <= f < entries@.len() ==> (#[trigger] entries@[f]).wf(),
            total_samples(entries@) <= usize::MAX,
            total_instances(entries@) <= usize::MAX,
            total_codepoints(entries@) <= usize::MAX,
        ensures
            r.wf(),
            r.entries@ == entries@,
    {
        let index = DatasetIndex::build(&entries);
        FontDataset { entries, index }
    }

    /// Total number of addressable samples: the sum over all fonts of
    /// codepoint count times style-class count.
    pub fn sample_count(&self) -> (r: usize)
        requires
            self.wf(),
        ensures
            r == total_samples(self.entries@),
    {
        let n = self.entries.len();
        proof {
            lemma_offsets_are_totals(self.index, self.entries@, n as int);
            assert(self.entries@.take(n as int) =~= self.entries@);
        }
        self.index.sample_offsets[n]
    }

    /// Total number of style classes across the corpus.
    pub fn style_class_count(&self) -> (r: usize)
        requires
            self.wf(),
        ensures
            r == total_instances(self.entries@),
    {
        let n = self.entries.len();
        proof {
            lemma_offsets_are_totals(self.index, self.entries@, n as int);
            assert(self.entries@.take(n as int) =~= self.entries@);
        }
        self.index.inst_offsets[n]
    }

    /// Size of the global content vocabulary: the number of distinct
    /// codepoints indexed by any font of the corpus.
    pub fn content_class_count(&self) -> (r: usize)
        requires
            self.wf(),
        ensures
            r == corpus_cp_set(self.entries@).len(),
    {
        proof {
            lemma_flat_is_union(self.index, self.entries@);
            let cc = self.index.content_classes@;
            assert(cc.no_duplicates());
            cc.unique_seq_to_set();
            assert(cc.to_set() =~= corpus_cp_set(self.entries@));
        }
        self.index.content_classes.len()
    }

    /// Decomposes a global sample index into its coordinates.
    ///
    /// Succeeds exactly on indices below the total sample count and
    /// returns `(font, instance, codepoint, style class, content class)`:
    /// the owning font; within its block the instance (major) and the
    /// codepoint rank (minor); the globally unique style class; and the
    /// codepoint's position in the content vocabulary. The instance is
    /// `Some` only for variable fonts. Out-of-range indices fail with a
    /// lookup error.
    pub fn locate(&self, idx: usize) -> (r: Result<
        (usize, Option<usize>, u32, usize, usize),
        DatasetError,
    >)
        requires
            self.wf(),
        ensures
            (r is Ok) <==> idx < total_samples(self.entries@),
            match r {
                Ok(t) => {
                    let f = t.0 as int;
                    let local = idx - self.index.sample_offsets@[f];
                    let cpc = entry_cp_count(self.entries@[f]);
                    &&& t.0 < self.entries@.len()
                    &&& self.index.sample_offsets@[f] <= idx < self.index.sample_offsets@[f + 1]
                    &&& cpc > 0
                    &&& local / cpc < entry_inst_count(self.entries@[f])
                    &&& t.2 == self.entries@[f].codepoints@[local % cpc]
                    &&& t.1 == (if self.entries@[f].named_instances > 0 {
                        Some((local / cpc) as usize)
                    } else {
                        None::<usize>
                    })
                    &&& t.3 == self.index.inst_offsets@[f] + local / cpc
                    &&& t.4 < self.index.content_classes@.len()
                    &&& self.index.content_classes@[t.4 as int] == t.2
                },
                Err(e) => {
                    &&& idx >= total_samples(self.entries@)
                    &&& e == DatasetError::LookupError(LookupKind::SampleOutOfRange {
                        index: idx,
                        total: total_samples(self.entries@) as usize,
                    })
                },
            },
    {
        let total = self.sample_count();
        if idx >= total {
            return Err(DatasetError::LookupError(LookupKind::SampleOutOfRange {
                index: idx,
                total,
            }));
        }
        let n = self.entries.len();
        if n == 0 {
            proof {
                assert(self.entries@.take(0int) =~= self.entries@);
                assert(false);
            }
            return Err(DatasetError::LookupError(LookupKind::EmptyCorpus));
        }
        proof {
            lemma_sample_offsets_nondecreasing(self.index, self.entries@);
            lemma_offsets_are_totals(self.index, self.entries@, n as int);
            assert(self.entries@.take(n as int) =~= self.entries@);
        }
        let pos = partition_point_leq(&self.index.sample_offsets, idx);
        proof {
            assert(pos >= 1) by {
                if pos == 0 {
                    assert(self.index.sample_offsets@[0] > idx);
                }
            }
            assert(pos <= n) by {
                if pos > n {
                    assert(self.index.sample_offsets@[n as int] <= idx);
                }
            }
        }
        let font_idx = if pos - 1 < n - 1 {
            pos - 1
        } else {
            n - 1
        };
        proof {
            assert(font_idx == pos - 1);
            assert(self.index.sample_offsets@[font_idx as int] <= idx);
            assert(self.index.sample_offsets@[font_idx as int + 1] > idx);
        }
        let font_start = self.index.sample_offsets[font_idx];
        let sample_idx = idx - font_start;
        let cp_start = self.index.cp_offsets[font_idx];
        let cp_end = self.index.cp_offsets[font_idx + 1];
        let ghost fe = self.entries@[font_idx as int];
        proof {
            assert(self.index.cp_offsets@[font_idx as int + 1] == cp_start + entry_cp_count(fe));
            assert(self.index.sample_offsets@[font_idx as int + 1] == font_start + entry_samples(
                fe,
            ));
        }
        let cp_count = cp_end - cp_start;
        if cp_count == 0 {
            proof {
                assert(entry_samples(fe) == 0) by {
                    assert(entry_cp_count(fe) == 0);
                    vstd::arithmetic::mul::lemma_mul_basics(entry_inst_count(fe));
                }
                assert(false);
            }
            return Err(DatasetError::LookupError(LookupKind::NoIndexedCodepoints {
                path: self.entries[font_idx].path.clone(),
                font: font_idx,
            }));
        }
        let inst_count = self.index.inst_counts[font_idx];
        let inst_idx = sample_idx / cp_count;
        proof {
            assert(sample_idx < entry_samples(fe));
            assert(entry_samples(fe) == (cp_count as int) * (inst_count as int));
            lemma_multiply_divide_lt(sample_idx as int, cp_count as int, inst_count as int);
            lemma_mod_bound(sample_idx as int, cp_count as int);
        }
        if inst_idx >= inst_count {
            proof {
                assert(false);
            }
            return Err(DatasetError::LookupError(LookupKind::InstanceOutOfRange {
                path: self.entries[font_idx].path.clone(),
                index: inst_idx,
            }));
        }
        let cp_rank = sample_idx % cp_count;
        proof {
            lemma_offsets_le(self.index, self.entries@, font_idx as int + 1, n as int);
            assert(cp_start + cp_rank < self.index.flat_cps@.len());
        }
        let cp = self.index.flat_cps[cp_start + cp_rank];
        proof {
            assert(self.index.flat_cps@[self.index.cp_offsets@[font_idx as int] + cp_rank as int]
                == self.entries@[font_idx as int].codepoints@[cp_rank as int]);
            assert(cp == fe.codepoints@[cp_rank as int]);
            assert(fe.codepoints@.contains(cp));
            lemma_flat_is_union(self.index, self.entries@);
            assert(corpus_has_cp(self.entries@, cp));
            assert(self.index.content_classes@.contains(cp));
        }
        let style_idx = self.index.inst_offsets[font_idx] + inst_idx;
        let content_idx = match self.index.content_index(cp) {
            Ok(i) => i,
            Err(e) => {
                proof {
                    assert(false);
                }
                return Err(e);
            },
        };
        let instance = if self.index.is_variable[font_idx] {
            Some(inst_idx)
        } else {
            None
        };
        Ok((font_idx, instance, cp, style_idx, content_idx))
    }

    /// Extracts the sample at a global index: the outline streams of its
    /// glyph together with its style and content classes.
    ///
    /// Succeeds exactly when the index is in range and the addressed
    /// glyph draws; the streams are then the vectorization of exactly
    /// that glyph's draw events: six coordinate numerators per command,
    /// one terminal `End`. Indices at or past the total fail with a
    /// lookup error; a failure inside the font parser surfaces as a
    /// parse, lookup or draw error.
    pub fn item(&self, idx: usize) -> (r: Result<
        (Vec<i32>, Vec<i64>, usize, usize),
        DatasetError,
    >)
        requires
            self.wf(),
        ensures
            r is Ok <==> (idx < total_samples(self.entries@) && self.spec_sample_events(
                idx as int,
            ) is Some),
            idx >= total_samples(self.entries@) ==> r == Result::<
                (Vec<i32>, Vec<i64>, usize, usize),
                DatasetError,
            >::Err(DatasetError::LookupError(LookupKind::SampleOutOfRange {
                index: idx,
                total: total_samples(self.entries@) as usize,
            })),
            r matches Ok(t) ==> {
                &&& idx < total_samples(self.entries@)
                &&& self.spec_sample_events(idx as int) matches Some(evs) && t.0@ == pen_run(
                    evs,
                ).cmds.push(END_CODE) && t.1@.map_values(|v: i64| v as int) == pen_run(evs).crds
                    + zero_block()
                &&& t.0@.len() >= 1
                &&& t.1@.len() == 6 * t.0@.len()
                &&& t.0@[t.0@.len() - 1] == END_CODE
                &&& forall|i: int|
                    0 <= i < t.0@.len() - 1 ==> 1 <= #[trigger] t.0@[i] <= 4
                &&& exists|f: int|
                    {
                        let local = idx - self.index.sample_offsets@[f];
                        let cpc = entry_cp_count(#[trigger] self.entries@[f]);
                        &&& 0 <= f < self.entries@.len()
                        &&& self.index.sample_offsets@[f] <= idx
                            < self.index.sample_offsets@[f + 1]
                        &&& cpc > 0
                        &&& t.2 == self.index.inst_offsets@[f] + local / cpc
                        &&& t.3 < self.index.content_classes@.len()
                        &&& self.index.content_classes@[t.3 as int]
                            == self.entries@[f].codepoints@[local % cpc]
                    }
            },
    {
        let (font_idx, inst_idx, codepoint, style_idx, content_idx) = match self.locate(idx) {
            Ok(t) => t,
            Err(e) => {
                return Err(e);
            },
        };
        if font_idx >= self.entries.len() {
            proof {
                assert(false);
            }
            return Err(DatasetError::LookupError(LookupKind::FontOutOfRange { index: font_idx }));
        }
        proof {
            let f = font_idx as int;
            assert(0 <= f < self.entries@.len() && self.index.sample_offsets@[f] <= idx
                < self.index.sample_offsets@[f + 1]);
            let fo = self.spec_owner(idx as int);
            assert(0 <= fo < self.entries@.len() && self.index.sample_offsets@[fo] <= idx
                < self.index.sample_offsets@[fo + 1]);
            lemma_sample_owner_unique(self.index, self.entries@, idx as int, fo, f);
            assert(self.spec_codepoint(idx as int) == codepoint);
            assert(self.spec_instance(idx as int) == inst_idx);
        }
        let streams = match self.entries[font_idx].glyph(codepoint, inst_idx) {
            Ok(s) => s,
            Err(e) => {
                return Err(e);
            },
        };
        proof {
            let f = font_idx as int;
            let local = idx - self.index.sample_offsets@[f];
            let cpc = entry_cp_count(self.entries@[f]);
            assert(self.index.sample_offsets@[f] <= idx < self.index.sample_offsets@[f + 1]);
            assert(style_idx == self.index.inst_offsets@[f] + local / cpc);
        }
        Ok((streams.0, streams.1, style_idx, content_idx))
    }
}

} // verus!
