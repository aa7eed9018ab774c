//! The corpus index: prefix-sum offset tables that flatten the
//! font × instance × codepoint space into one linear sample space, plus
//! the global content vocabulary.

use crate::entry::FontEntry;
use crate::error::{DatasetError, LookupKind};
use crate::order::{find_sorted, sort_dedup, sorted_strict};
use vstd::arithmetic::mul::lemma_mul_nonnegative;
use vstd::prelude::*;

verus! {

/// Style classes a font contributes: at least one.
pub open spec fn entry_inst_count(e: FontEntry) -> int {
    if e.named_instances == 0 {
        1
    } else {
        e.named_instances as int
    }
}

/// Codepoints a font contributes.
pub open spec fn entry_cp_count(e: FontEntry) -> int {
    e.codepoints@.len() as int
}

/// Samples a font contributes: codepoints times style classes.
pub open spec fn entry_samples(e: FontEntry) -> int {
    entry_cp_count(e) * entry_inst_count(e)
}

/// Total sample count of a corpus.
pub open spec fn total_samples(s: Seq<FontEntry>) -> int
    decreases s.len(),
{
    if s.len() == 0 {
        0
    } else {
        total_samples(s.drop_last()) + entry_samples(s.last())
    }
}

/// Total style-class count of a corpus.
pub open spec fn total_instances(s: Seq<FontEntry>) -> int
    decreases s.len(),
{
    if s.len() == 0 {
        0
    } else {
        total_instances(s.drop_last()) + entry_inst_count(s.last())
    }
}

/// Total codepoint count of a corpus, duplicates across fonts included.
pub open spec fn total_codepoints(s: Seq<FontEntry>) -> int
    decreases s.len(),
{
    if s.len() == 0 {
        0
    } else {
        total_codepoints(s.drop_last()) + entry_cp_count(s.last())
    }
}

/// Whether some font of the corpus indexes the codepoint.
pub open spec fn corpus_has_cp(s: Seq<FontEntry>, codepoint: u32) -> bool {
    exists|f: int| 0 <= f < s.len() && (#[trigger] s[f]).codepoints@.contains(codepoint)
}

/// The index over one ordered list of fonts.
///
/// The offset vectors are one longer than the corpus; entry `f` holds the
/// cumulative count before font `f`, so entry `f + 1` minus entry `f` is
/// what font `f` contributes.
pub struct DatasetIndex {
    /// Cumulative sample counts; the last entry is the total.
    pub sample_offsets: Vec<usize>,
    /// Cumulative style-class counts; the last entry is the total.
    pub inst_offsets: Vec<usize>,
    /// Cumulative codepoint counts, delimiting `flat_cps` per font.
    pub cp_offsets: Vec<usize>,
    /// All fonts' codepoint tables, concatenated in font order.
    pub flat_cps: Vec<u32>,
    /// The sorted, deduplicated union of all fonts' codepoints.
    pub content_classes: Vec<u32>,
    /// Style classes per font, each at least one.
    pub inst_counts: Vec<usize>,
    /// Whether each font declares named variation instances.
    pub is_variable: Vec<bool>,
}

impl DatasetIndex {
    /// The index is exactly the one built from `entries`.
    pub open spec fn matches(self, entries: Seq<FontEntry>) -> bool {
        let n = entries.len() as int;
        &&& self.sample_offsets@.len() == n + 1
        &&& self.inst_offsets@.len() == n + 1
        &&& self.cp_offsets@.len() == n + 1
        &&& self.inst_counts@.len() == n
        &&& self.is_variable@.len() == n
        &&& self.sample_offsets@[0] == 0
        &&& self.inst_offsets@[0] == 0
        &&& self.cp_offsets@[0] == 0
        &&& forall|f: int|
            0 <= f < n ==> #[trigger] self.sample_offsets@[f + 1] == self.sample_offsets@[f]
                + entry_samples(entries[f])
        &&& forall|f: int|
            0 <= f < n ==> #[trigger] self.inst_offsets@[f + 1] == self.inst_offsets@[f]
                + entry_inst_count(entries[f])
        &&& forall|f: int|
            0 <= f < n ==> #[trigger] self.cp_offsets@[f + 1] == self.cp_offsets@[f]
                + entry_cp_count(entries[f])
        &&& self.flat_cps@.len() == self.cp_offsets@[n]
        &&& forall|f: int, j: int|
            0 <= f < n && 0 <= j < entry_cp_count(entries[f]) ==> self.flat_cps@[self.cp_offsets@[f]
                + j] == #[trigger] entries[f].codepoints@[j]
        &&& forall|f: int|
            0 <= f < n ==> #[trigger] self.inst_counts@[f] == entry_inst_count(entries[f])
        &&& forall|f: int|
            0 <= f < n ==> #[trigger] self.is_variable@[f] == (entries[f].named_instances > 0)
        &&& sorted_strict(self.content_classes@)
        &&& forall|cp: u32|
            #[trigger] self.content_classes@.contains(cp) <==> self.flat_cps@.contains(cp)
    }

    /// Builds the index in one pass over the corpus, then sorts and
    /// deduplicates the concatenated codepoints into the vocabulary.
    pub fn build(entries: &Vec<FontEntry>) -> (r: DatasetIndex)
        requires
            total_samples(entries@) <= usize::MAX,
            total_instances(entries@) <= usize::MAX,
            total_codepoints(entries@) <= usize::MAX,
        ensures
            r.matches(entries@),
    {
        let n = entries.len();
        let mut sample_offsets: Vec<usize> = Vec::new();
        let mut inst_offsets: Vec<usize> = Vec::new();
        let mut cp_offsets: Vec<usize> = Vec::new();
        let mut flat_cps: Vec<u32> = Vec::new();
        let mut inst_counts: Vec<usize> = Vec::new();
        let mut is_variable: Vec<bool> = Vec::new();
        sample_offsets.push(0);
        inst_offsets.push(0);
        cp_offsets.push(0);
        proof {
            assert(entries@.take(0) =~= Seq::<FontEntry>::empty());
        }
        let mut f: usize = 0;
        while f < n
            invariant
                n == entries@.len(),
                f <= n,
                total_samples(entries@) <= usize::MAX,
                total_instances(entries@) <= usize::MAX,
                total_codepoints(entries@) <= usize::MAX,
                sample_offsets@.len() == f + 1,
                inst_offsets@.len() == f + 1,
                cp_offsets@.len() == f + 1,
                inst_counts@.len() == f,
                is_variable@.len() == f,
                sample_offsets@[0] == 0,
                inst_offsets@[0] == 0,
                cp_offsets@[0] == 0,
                sample_offsets@[f as int] == total_samples(entries@.take(f as int)),
                inst_offsets@[f as int] == total_instances(entries@.take(f as int)),
                cp_offsets@[f as int] == total_codepoints(entries@.take(f as int)),
                forall|g: int|
                    0 <= g < f ==> #[trigger] sample_offsets@[g + 1] == sample_offsets@[g]
                        + entry_samples(entries@[g]),
                forall|g: int|
                    0 <= g < f ==> #[trigger] inst_offsets@[g + 1] == inst_offsets@[g]
                        + entry_inst_count(entries@[g]),
                forall|g: int|
                    0 <= g < f ==> #[trigger] cp_offsets@[g + 1] == cp_offsets@[g]
                        + entry_cp_count(entries@[g]),
                flat_cps@.len() == cp_offsets@[f as int],
                forall|g: int, j: int|
                    0 <= g < f && 0 <= j < entry_cp_count(entries@[g]) ==> flat_cps@[cp_offsets@[g]
                        + j] == #[trigger] entries@[g].codepoints@[j],
                forall|g: int|
                    0 <= g < f ==> #[trigger] inst_counts@[g] == entry_inst_count(entries@[g]),
                forall|g: int|
                    0 <= g < f ==> #[trigger] is_variable@[g] == (entries@[g].named_instances > 0),
            decreases n - f,
        {
            proof {
                lemma_total_step(entries@, f as int);
                lemma_total_prefix_le(entries@, f as int + 1);
                lemma_mul_nonnegative(entry_cp_count(entries@[f as int]), entry_inst_count(entries@[f as int]));
            }
            let cp_count = entries[f].codepoints.len();
            let ghost flat_prev = flat_cps@;
            let mut j: usize = 0;
            while j < cp_count
                invariant
                    n == entries@.len(),
                    f < n,
                    cp_count == entries@[f as int].codepoints@.len(),
                    j <= cp_count,
                    flat_cps@ == flat_prev + entries@[f as int].codepoints@.take(j as int),
                decreases cp_count - j,
            {
                let cp = entries[f].codepoints[j];
                flat_cps.push(cp);
                proof {
                    assert(entries@[f as int].codepoints@.take(j as int + 1) =~= entries@[f as int].codepoints@.take(j as int).push(cp));
                }
                j = j + 1;
            }
            proof {
                assert(entries@[f as int].codepoints@.take(cp_count as int) =~= entries@[f as int].codepoints@);
            }
            let inst_count = entries[f].instance_count();
            inst_counts.push(inst_count);
            is_variable.push(entries[f].is_variable());
            proof {
                assert(entry_samples(entries@[f as int]) == entry_cp_count(entries@[f as int])
                    * entry_inst_count(entries@[f as int]));
                assert(total_samples(entries@.take(f as int + 1)) <= usize::MAX);
            }
            let block = cp_count * inst_count;
            let next_samples = sample_offsets[f] + block;
            sample_offsets.push(next_samples);
            let next_inst = inst_offsets[f] + inst_count;
            inst_offsets.push(next_inst);
            cp_offsets.push(flat_cps.len());
            proof {
                assert forall|g: int, j2: int|
                    0 <= g < f + 1 && 0 <= j2 < entry_cp_count(entries@[g])
                        implies flat_cps@[cp_offsets@[g] + j2]
                        == #[trigger] entries@[g].codepoints@[j2] by {
                    if g < f as int {
                        assert(cp_offsets@[g] + j2 < cp_offsets@[g + 1]);
                        assert(cp_offsets@[g + 1] <= flat_prev.len()) by {
                            lemma_cp_offsets_le(cp_offsets@, entries@, g + 1, f as int);
                        }
                        assert(flat_cps@[cp_offsets@[g] + j2] == flat_prev[cp_offsets@[g] + j2]);
                    } else {
                        assert(flat_cps@[cp_offsets@[g] + j2] == entries@[f as int].codepoints@[j2]);
                    }
                }
            }
            f = f + 1;
        }
        proof {
            assert(entries@.take(n as int) =~= entries@);
        }
        let content_classes = sort_dedup(&flat_cps);
        DatasetIndex {
            sample_offsets,
            inst_offsets,
            cp_offsets,
            flat_cps,
            content_classes,
            inst_counts,
            is_variable,
        }
    }

    /// Position of a codepoint in the global content vocabulary.
    pub fn content_index(&self, codepoint: u32) -> (r: Result<usize, DatasetError>)
        requires
            sorted_strict(self.content_classes@),
        ensures
            match r {
                Ok(i) => i < self.content_classes@.len() && self.content_classes@[i as int]
                    == codepoint,
                Err(e) => !self.content_classes@.contains(codepoint) && e
                    == DatasetError::LookupError(LookupKind::ContentClassMissing { codepoint }),
            },
            (r is Ok) <==> self.content_classes@.contains(codepoint),
    {
        match find_sorted(&self.content_classes, codepoint) {
            Some(i) => Ok(i),
            None => Err(
                DatasetError::LookupError(LookupKind::ContentClassMissing { codepoint }),
            ),
        }
    }
}

/// One step of each running total: taking one more font adds what that
/// font contributes.
pub proof fn lemma_total_step(s: Seq<FontEntry>, f: int)
    requires
        0 <= f < s.len(),
    ensures
        total_samples(s.take(f + 1)) == total_samples(s.take(f)) + entry_samples(s[f]),
        total_instances(s.take(f + 1)) == total_instances(s.take(f)) + entry_inst_count(s[f]),
        total_codepoints(s.take(f + 1)) == total_codepoints(s.take(f)) + entry_cp_count(s[f]),
{
    assert(s.take(f + 1).drop_last() =~= s.take(f));
    assert(s.take(f + 1).last() == s[f]);
}

/// Every prefix total is at most the whole total: each font contributes
/// non-negatively.
pub proof fn lemma_total_prefix_le(s: Seq<FontEntry>, i: int)
    requires
        0 <= i <= s.len(),
    ensures
        total_samples(s.take(i)) <= total_samples(s),
        total_instances(s.take(i)) <= total_instances(s),
        total_codepoints(s.take(i)) <= total_codepoints(s),
    decreases s.len() - i,
{
    if i == s.len() {
        assert(s.take(i) =~= s);
    } else {
        lemma_total_step(s, i);
        lemma_mul_nonnegative(entry_cp_count(s[i]), entry_inst_count(s[i]));
        lemma_total_prefix_le(s, i + 1);
    }
}

/// The codepoint offsets grow with the font position.
proof fn lemma_cp_offsets_le(cp_offsets: Seq<usize>, entries: Seq<FontEntry>, i: int, j: int)
    requires
        0 <= i <= j < cp_offsets.len(),
        forall|g: int|
            0 <= g < cp_offsets.len() - 1 ==> #[trigger] cp_offsets[g + 1] == cp_offsets[g]
                + entry_cp_count(entries[g]),
    ensures
        cp_offsets[i] <= cp_offsets[j],
    decreases j - i,
{
    if i < j {
        lemma_cp_offsets_le(cp_offsets, entries, i + 1, j);
        assert(cp_offsets[i + 1] == cp_offsets[i] + entry_cp_count(entries[i]));
    }
}

} // verus!
