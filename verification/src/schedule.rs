//! Grouping extractions into the fewest decode passes.
//!
//! Each pass through the source file costs roughly one seek-and-decode
//! traversal, so the planner walks an ordered extraction list and emits:
//! one pass per unbatchable request, in encounter order, each seeking to
//! that request's own earliest instant; then the batchable requests,
//! collected across the whole list, in consecutive chunks of at most 20,
//! each chunk sharing one pass whose time base is its first (and therefore
//! earliest) element. The input must already be sorted ascending by
//! earliest instant; unsorted input is rejected statically rather than
//! silently encoded with wrong offsets.

use vstd::prelude::*;

use crate::errors::MediaError;
use crate::extraction::{spec_extraction_args, Extraction};
use crate::textfmt::{ms_arg, ms_text, strings_view};
use crate::video::Video;

verus! {

/// One planned decode pass: the full argument list for the decode tool and
/// the number of extractions its completion is worth. A pass is indivisible:
/// progress advances by all its units at once.
#[derive(Clone, Debug)]
pub struct Pass {
    /// The instant the pass begins decoding at, in milliseconds.
    pub time_base_ms: u64,
    /// The full argument list for the decode tool.
    pub args: Vec<String>,
    /// How many extractions the pass completes at once.
    pub progress_units: usize,
}

/// The content of a [`Pass`].
pub struct PassView {
    /// The instant the pass begins decoding at, in milliseconds.
    pub time_base_ms: u64,
    /// The argument tokens.
    pub args: Seq<Seq<char>>,
    /// How many extractions the pass completes at once.
    pub progress_units: int,
}

impl View for Pass {
    type V = PassView;

    open spec fn view(&self) -> PassView {
        PassView {
            time_base_ms: self.time_base_ms,
            args: strings_view(self.args@),
            progress_units: self.progress_units as int,
        }
    }
}

/// Whether an extraction can share a decode pass with others.
pub open spec fn is_batchable(e: Extraction) -> bool {
    e.kind.spec_batchable()
}

/// The unbatchable extractions, in original order.
pub open spec fn spec_singles(s: Seq<Extraction>) -> Seq<Extraction> {
    s.filter(|e: Extraction| !is_batchable(e))
}

/// The batchable extractions, in original order.
pub open spec fn spec_batchables(s: Seq<Extraction>) -> Seq<Extraction> {
    s.filter(|e: Extraction| is_batchable(e))
}

/// Consecutive chunks of at most 20 elements, in order; none is empty.
pub open spec fn chunks20(s: Seq<Extraction>) -> Seq<Seq<Extraction>>
    decreases s.len(),
{
    if s.len() == 0 {
        Seq::empty()
    } else if s.len() <= 20 {
        seq![s]
    } else {
        seq![s.take(20)] + chunks20(s.skip(20))
    }
}

/// Chunking partitions the list: every chunk has between one and 20
/// elements, every chunk but the last has exactly 20, and the chunks
/// concatenated in order restore the list — so every batchable extraction
/// is carried by exactly one pass, in its original place.
pub proof fn lemma_chunks20_partition(s: Seq<Extraction>)
    ensures
        forall|i: int| 0 <= i < chunks20(s).len() ==> 1 <= (#[trigger] chunks20(s)[i]).len() <= 20,
        forall|i: int| 0 <= i < chunks20(s).len() - 1 ==> (#[trigger] chunks20(s)[i]).len() == 20,
        chunks20(s).flatten() == s,
    decreases s.len(),
{
    if s.len() == 0 {
        assert(chunks20(s).flatten() =~= s);
    } else if s.len() <= 20 {
        assert(chunks20(s) == seq![s]);
        seq![s].lemma_flatten_one_element();
        assert(chunks20(s).flatten() =~= s);
    } else {
        lemma_chunks20_partition(s.skip(20));
        let cs = chunks20(s);
        assert(cs == seq![s.take(20)] + chunks20(s.skip(20)));
        assert(cs.first() == s.take(20));
        assert(cs.drop_first() =~= chunks20(s.skip(20)));
        assert(cs.flatten() == s.take(20) + chunks20(s.skip(20)).flatten());
        assert(cs.flatten() =~= s);
        assert forall|i: int| 0 <= i < cs.len() implies 1 <= (#[trigger] cs[i]).len() <= 20 by {
            if i > 0 {
                assert(cs[i] == chunks20(s.skip(20))[i - 1]);
            }
        }
        assert forall|i: int| 0 <= i < cs.len() - 1 implies (#[trigger] cs[i]).len() == 20 by {
            if i > 0 {
                assert(cs[i] == chunks20(s.skip(20))[i - 1]);
            }
        }
    }
}

/// The arguments every pass begins with: the shared fast seek to the time
/// base, then the input file.
pub open spec fn pass_prefix_args(path: Seq<char>, time_base_ms: u64) -> Seq<Seq<char>> {
    seq!["-ss"@, ms_text(time_base_ms), "-i"@, path]
}

/// The pass carrying one unbatchable extraction: its time base is the
/// extraction's own earliest instant.
pub open spec fn single_pass(path: Seq<char>, e: Extraction) -> PassView {
    PassView {
        time_base_ms: e.spec_earliest_ms(),
        args: pass_prefix_args(path, e.spec_earliest_ms()) + spec_extraction_args(
            e,
            e.spec_earliest_ms(),
        ),
        progress_units: 1,
    }
}

/// The argument tokens of a chunk's items, in order, all against one time
/// base.
pub open spec fn chunk_items_args(c: Seq<Extraction>, time_base_ms: u64) -> Seq<Seq<char>>
    decreases c.len(),
{
    if c.len() == 0 {
        Seq::empty()
    } else {
        chunk_items_args(c.drop_last(), time_base_ms) + spec_extraction_args(
            c.last(),
            time_base_ms,
        )
    }
}

/// The pass carrying one chunk of batchable extractions: its time base is
/// the chunk's first element's earliest instant, and its completion is
/// worth the whole chunk at once.
pub open spec fn batch_pass(path: Seq<char>, c: Seq<Extraction>) -> PassView {
    PassView {
        time_base_ms: c[0].spec_earliest_ms(),
        args: pass_prefix_args(path, c[0].spec_earliest_ms()) + chunk_items_args(
            c,
            c[0].spec_earliest_ms(),
        ),
        progress_units: c.len() as int,
    }
}

/// One single pass per extraction, in order.
pub open spec fn single_passes(path: Seq<char>, s: Seq<Extraction>) -> Seq<PassView> {
    s.map_values(|e: Extraction| single_pass(path, e))
}

/// One batch pass per chunk, in order.
pub open spec fn batch_passes(path: Seq<char>, cs: Seq<Seq<Extraction>>) -> Seq<PassView> {
    cs.map_values(|c: Seq<Extraction>| batch_pass(path, c))
}

/// The content of a planned pass list.
pub open spec fn passes_view(v: Seq<Pass>) -> Seq<PassView> {
    v.map_values(|p: Pass| p@)
}

/// The whole plan for an extraction list: the unbatchable extractions'
/// passes in encounter order, then the batchable extractions' chunk passes
/// in order.
pub open spec fn spec_passes(path: Seq<char>, es: Seq<Extraction>) -> Seq<PassView> {
    single_passes(path, spec_singles(es)) + batch_passes(path, chunks20(spec_batchables(es)))
}

/// The list is sorted ascending by earliest instant.
pub open spec fn sorted_by_earliest(s: Seq<Extraction>) -> bool {
    forall|i: int, j: int|
        0 <= i <= j < s.len() ==> (#[trigger] s[i]).spec_earliest_ms() <= (
        #[trigger] s[j]).spec_earliest_ms()
}

/// Every extraction's span is well-formed.
pub open spec fn all_wf(s: Seq<Extraction>) -> bool {
    forall|i: int| 0 <= i < s.len() ==> (#[trigger] s[i]).wf()
}

/// Adjacent order carries over the whole list.
proof fn lemma_earliest_chain(s: Seq<Extraction>, i: int, j: int)
    requires
        forall|k: int|
            0 <= k < s.len() - 1 ==> (#[trigger] s[k]).spec_earliest_ms()
                <= s[k + 1].spec_earliest_ms(),
        0 <= i <= j < s.len(),
    ensures
        s[i].spec_earliest_ms() <= s[j].spec_earliest_ms(),
    decreases j - i,
{
    if i < j {
        lemma_earliest_chain(s, i, j - 1);
        assert(s[j - 1].spec_earliest_ms() <= s[j].spec_earliest_ms());
    }
}

/// Whether a list is sorted ascending by earliest instant — the condition
/// the planner requires of its input.
pub fn is_sorted_by_earliest(extractions: &Vec<Extraction>) -> (r: bool)
    ensures
        r == sorted_by_earliest(extractions@),
{
    let n = extractions.len();
    let mut i: usize = 0;
    while n - i > 1
        invariant
            i <= n,
            n == extractions@.len(),
            forall|k: int|
                0 <= k < i ==> (#[trigger] extractions@[k]).spec_earliest_ms() <= extractions@[k
                    + 1].spec_earliest_ms(),
        decreases n - i,
    {
        if extractions[i].earliest_time_ms() > extractions[i + 1].earliest_time_ms() {
            return false;
        }
        i = i + 1;
    }
    proof {
        assert forall|a: int, b: int|
            0 <= a <= b < extractions@.len() implies (
        #[trigger] extractions@[a]).spec_earliest_ms() <= (
        #[trigger] extractions@[b]).spec_earliest_ms() by {
            lemma_earliest_chain(extractions@, a, b);
        }
    }
    true
}

/// The extractions a list of indices picks out.
pub open spec fn batch_map(idx: Seq<usize>, es: Seq<Extraction>) -> Seq<Extraction> {
    idx.map_values(|t: usize| es[t as int])
}

/// The arguments every pass begins with.
fn pass_prefix(path: &String, time_base_ms: u64) -> (r: Vec<String>)
    ensures
        strings_view(r@) == pass_prefix_args(path@, time_base_ms),
{
    let mut out: Vec<String> = Vec::new();
    out.push("-ss".to_owned());
    out.push(ms_arg(time_base_ms));
    out.push("-i".to_owned());
    out.push(path.clone());
    proof {
        assert(strings_view(out@) =~~= pass_prefix_args(path@, time_base_ms));
    }
    out
}

/// Plan the decode passes for an ordered extraction list against one source
/// file.
pub fn plan_passes(path: &String, extractions: &Vec<Extraction>) -> (r: Vec<Pass>)
    requires
        sorted_by_earliest(extractions@),
        all_wf(extractions@),
    ensures
        passes_view(r@) == spec_passes(path@, extractions@),
{
    let n = extractions.len();
    let mut passes: Vec<Pass> = Vec::new();
    let mut batch_idx: Vec<usize> = Vec::new();
    let mut i: usize = 0;
    while i < n
        invariant
            i <= n == extractions@.len(),
            sorted_by_earliest(extractions@),
            all_wf(extractions@),
            forall|a: int, b: int|
                0 <= a < b < batch_idx@.len() ==> batch_idx@[a] < batch_idx@[b],
            forall|a: int| 0 <= a < batch_idx@.len() ==> (#[trigger] batch_idx@[a]) < i,
            batch_map(batch_idx@, extractions@) == spec_batchables(extractions@.take(i as int)),
            passes_view(passes@) == single_passes(path@, spec_singles(extractions@.take(i as int))),
        decreases n - i,
    {
        let ghost pre = extractions@.take(i as int);
        let ghost post = extractions@.take(i as int + 1);
        proof {
            reveal(Seq::filter);
            assert(post.drop_last() =~= pre);
            assert(post.last() == extractions@[i as int]);
        }
        if extractions[i].kind.can_be_batched() {
            batch_idx.push(i);
            proof {
                reveal(Seq::filter);
                assert(batch_map(batch_idx@, extractions@) =~= spec_batchables(post));
                assert(passes_view(passes@) =~= single_passes(path@, spec_singles(post)));
            }
        } else {
            let tb = extractions[i].earliest_time_ms();
            let mut args = pass_prefix(path, tb);
            let mut item = extractions[i].encode_args(tb);
            args.append(&mut item);
            let ghost prev_passes = passes@;
            passes.push(Pass { time_base_ms: tb, args, progress_units: 1 });
            proof {
                reveal(Seq::filter);
                assert(strings_view(passes@.last().args@) =~~= pass_prefix_args(path@, tb)
                    + spec_extraction_args(extractions@[i as int], tb));
                assert(passes@.last()@ == single_pass(path@, extractions@[i as int]));
                assert(batch_map(batch_idx@, extractions@) =~= spec_batchables(post));
                assert(spec_singles(post) =~= spec_singles(pre).push(extractions@[i as int]));
                assert(passes_view(passes@) =~= passes_view(prev_passes).push(
                    single_pass(path@, extractions@[i as int]),
                ));
                assert(passes_view(passes@) =~= single_passes(path@, spec_singles(post)));
            }
        }
        i = i + 1;
    }
    let ghost bs = spec_batchables(extractions@);
    proof {
        assert(extractions@.take(n as int) =~= extractions@);
        assert(bs.skip(0) =~= bs);
        assert(passes_view(passes@) + batch_passes(path@, chunks20(bs)) =~= spec_passes(
            path@,
            extractions@,
        ));
    }
    let m = batch_idx.len();
    let mut j: usize = 0;
    while j < m
        invariant
            j <= m == batch_idx@.len(),
            n == extractions@.len(),
            sorted_by_earliest(extractions@),
            all_wf(extractions@),
            forall|a: int, b: int|
                0 <= a < b < batch_idx@.len() ==> batch_idx@[a] < batch_idx@[b],
            forall|a: int| 0 <= a < batch_idx@.len() ==> (#[trigger] batch_idx@[a]) < n,
            bs == batch_map(batch_idx@, extractions@),
            bs == spec_batchables(extractions@),
            bs.len() == m,
            passes_view(passes@) + batch_passes(path@, chunks20(bs.skip(j as int)))
                == spec_passes(path@, extractions@),
        decreases m - j,
    {
        let sz: usize = if m - j < 20 {
            m - j
        } else {
            20
        };
        let ghost rest = bs.skip(j as int);
        let ghost c = rest.take(sz as int);
        let tb = extractions[batch_idx[j]].earliest_time_ms();
        proof {
            assert(bs[j as int] == extractions@[batch_idx@[j as int] as int]);
            assert(c[0] == bs[j as int]);
        }
        let mut args = pass_prefix(path, tb);
        let mut k: usize = 0;
        while k < sz
            invariant
                k <= sz,
                1 <= sz,
                j + sz <= m == batch_idx@.len(),
                n == extractions@.len(),
                sorted_by_earliest(extractions@),
                all_wf(extractions@),
                forall|a: int, b: int|
                    0 <= a < b < batch_idx@.len() ==> batch_idx@[a] < batch_idx@[b],
                forall|a: int| 0 <= a < batch_idx@.len() ==> (#[trigger] batch_idx@[a]) < n,
                bs == batch_map(batch_idx@, extractions@),
                bs.len() == m,
                rest == bs.skip(j as int),
                c == rest.take(sz as int),
                tb == bs[j as int].spec_earliest_ms(),
                strings_view(args@) == pass_prefix_args(path@, tb) + chunk_items_args(
                    c.take(k as int),
                    tb,
                ),
            decreases sz - k,
        {
            let e = &extractions[batch_idx[j + k]];
            proof {
                assert(bs[j as int + k as int] == extractions@[batch_idx@[j as int + k as int] as int]);
                assert(c[k as int] == bs[j as int + k as int]);
                if k > 0 {
                    assert(batch_idx@[j as int] < batch_idx@[j as int + k as int]);
                }
                assert(e.spec_earliest_ms() >= tb);
                assert(e.wf());
            }
            let mut item = e.encode_args(tb);
            let ghost item_view = item@;
            let ghost args_before = args@;
            args.append(&mut item);
            proof {
                assert(strings_view(item_view) == spec_extraction_args(c[k as int], tb));
                assert(strings_view(args@) =~~= strings_view(args_before) + strings_view(
                    item_view,
                ));
                assert(c.take(k as int + 1).drop_last() =~= c.take(k as int));
                assert(c.take(k as int + 1).last() == c[k as int]);
                assert(chunk_items_args(c.take(k as int + 1), tb) =~= chunk_items_args(
                    c.take(k as int),
                    tb,
                ) + spec_extraction_args(c[k as int], tb));
                assert(strings_view(args@) =~~= pass_prefix_args(path@, tb) + chunk_items_args(
                    c.take(k as int + 1),
                    tb,
                ));
            }
            k = k + 1;
        }
        let ghost prev_passes = passes@;
        passes.push(Pass { time_base_ms: tb, args, progress_units: sz });
        proof {
            assert(c.take(sz as int) =~= c);
            assert(rest.skip(sz as int) =~= bs.skip(j as int + sz as int));
            if rest.len() <= 20 {
                assert(rest.take(sz as int) =~= rest);
                assert(chunks20(rest) == seq![rest]);
                assert(c =~= rest);
            } else {
                assert(chunks20(rest) == seq![rest.take(20)] + chunks20(rest.skip(20)));
                assert(c =~= rest.take(20));
            }
            assert(passes@.last()@ == batch_pass(path@, c));
            assert(passes_view(passes@) =~= passes_view(prev_passes).push(
                batch_pass(path@, c),
            ));
            assert(batch_passes(path@, chunks20(rest)) =~= seq![batch_pass(path@, c)]
                + batch_passes(path@, chunks20(bs.skip(j as int + sz as int))));
            assert(passes_view(passes@) + batch_passes(
                path@,
                chunks20(bs.skip(j as int + sz as int)),
            ) =~= spec_passes(path@, extractions@));
        }
        j = j + sz;
    }
    proof {
        assert(bs.skip(m as int) =~= Seq::<Extraction>::empty());
        assert(batch_passes(path@, chunks20(bs.skip(m as int))) =~= Seq::<PassView>::empty());
        assert(passes_view(passes@) =~= spec_passes(path@, extractions@));
    }
    passes
}

impl Video {
    /// Plan the decode passes that perform an extraction list against this
    /// file, fewest passes first to last. The list must already be sorted
    /// ascending by earliest instant; the planner does not sort.
    pub fn extract_passes(&self, extractions: &Vec<Extraction>) -> (r: Vec<Pass>)
        requires
            sorted_by_earliest(extractions@),
            all_wf(extractions@),
        ensures
            passes_view(r@) == spec_passes(self@.path, extractions@),
    {
        plan_passes(self.path(), extractions)
    }
}

/// What one finished external invocation means: success exactly on a
/// successful exit status, and otherwise the failure that aborts the
/// remaining schedule, attributed to the tool.
pub fn process_outcome(exit_success: bool, tool: &str) -> (r: Result<(), MediaError>)
    ensures
        r is Ok <==> exit_success,
        r matches Err(e) ==> (e matches MediaError::ExtractionProcessFailed { tool: t } && t@
            == tool@),
{
    if exit_success {
        Ok(())
    } else {
        Err(MediaError::ExtractionProcessFailed { tool: tool.to_owned() })
    }
}

} // verus!
