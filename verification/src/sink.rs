//! The aggregate sink: one collection that takes every worker's batch of
//! rows, and — once all batches are in — orders them by identifier and
//! renders the final file text.

use vstd::prelude::*;
use rayon::slice::ParallelSliceMut;
use crate::record::{line_of, lemma_line_no_newline, record_clean, Record, RecordModel};
use crate::text::{count_char, lemma_count_char_concat, lemma_count_char_single, lex_leq,
    lemma_lex_total_ordering, str_cmp};

verus! {

broadcast use vstd::seq::group_seq_axioms, vstd::std_specs::vec::group_vec_axioms;

/// Rows in order of their identifiers, byte-wise (code-point) order.
pub open spec fn sorted_by_id(s: Seq<RecordModel>) -> bool {
    forall|i: int, j: int| 0 <= i < j < s.len() ==> #[trigger] lex_leq(s[i].id, s[j].id)
}

/// The whole output text of a row sequence: each row's line followed by a
/// line break, in sequence order. No header.
pub open spec fn render_all(s: Seq<RecordModel>) -> Seq<char>
    decreases s.len(),
{
    if s.len() == 0 {
        Seq::empty()
    } else {
        render_all(s.drop_last()) + line_of(s.last()) + seq!['\n']
    }
}

/// Three-way comparison of two rows by identifier.
fn cmp_records(a: &Record, b: &Record) -> (o: core::cmp::Ordering)
    ensures
        o is Less ==> a@.id != b@.id && lex_leq(a@.id, b@.id),
        o is Equal ==> a@.id == b@.id,
        o is Greater ==> a@.id != b@.id && lex_leq(b@.id, a@.id),
{
    str_cmp(a.id.as_str(), b.id.as_str())
}

/// Relies on rayon's `par_sort_by` (`ParallelSliceMut`): a stable parallel
/// merge sort. Afterwards the vector is a permutation of what it was,
/// ordered by the comparator; [`cmp_records`] compares by identifier and is
/// a total order, which the sort requires. Stability keeps rows with equal
/// identifiers in their previous order.
#[verifier::external_body]
fn par_sort_records(v: &mut Vec<Record>)
    ensures
        final(v)@.map_values(|r: Record| r@).to_multiset() == old(v)@.map_values(
            |r: Record| r@,
        ).to_multiset(),
        sorted_by_id(final(v)@.map_values(|r: Record| r@)),
        final(v)@.len() == old(v)@.len(),
{
    v.par_sort_by(|a, b| cmp_records(a, b));
}

/// The shared accumulator of the run. Workers' batches are merged in one
/// by one; the caller serialises the merges (the sink itself is a plain
/// value, typically kept behind a lock or owned by a collecting thread).
pub struct Sink {
    rows: Vec<Record>,
}

impl View for Sink {
    type V = Seq<RecordModel>;

    closed spec fn view(&self) -> Seq<RecordModel> {
        self.rows@.map_values(|r: Record| r@)
    }
}

impl Sink {
    /// An empty sink.
    pub fn new() -> (s: Sink)
        ensures
            s@ == Seq::<RecordModel>::empty(),
    {
        let s = Sink { rows: Vec::new() };
        proof {
            assert(s@ =~= Seq::<RecordModel>::empty());
        }
        s
    }

    /// How many rows have been merged so far.
    pub fn len(&self) -> (n: usize)
        ensures
            n == self@.len(),
    {
        self.rows.len()
    }

    /// Takes one worker's batch, whole: afterwards the sink holds exactly
    /// what it held before, followed by the batch in its own order.
    pub fn merge(&mut self, batch: Vec<Record>)
        ensures
            final(self)@ == old(self)@ + batch@.map_values(|r: Record| r@),
    {
        let ghost prev = self.rows@;
        let mut b = batch;
        self.rows.append(&mut b);
        proof {
            assert(self.rows@.map_values(|r: Record| r@) =~= prev.map_values(|r: Record| r@)
                + batch@.map_values(|r: Record| r@));
        }
    }

    /// Sorts the rows by identifier: a permutation of what was merged,
    /// in byte-wise identifier order. Ties keep their merge order, but as
    /// merge order between files depends on scheduling, nothing further is
    /// promised of them.
    pub fn sort_by_id(&mut self)
        ensures
            final(self)@.to_multiset() == old(self)@.to_multiset(),
            sorted_by_id(final(self)@),
            final(self)@.len() == old(self)@.len(),
    {
        par_sort_records(&mut self.rows);
    }

    /// Renders the rows in their current order, one line per row.
    pub fn render(&self) -> (out: String)
        ensures
            out@ == render_all(self@),
    {
        let mut out = String::new();
        let n = self.rows.len();
        let mut i: usize = 0;
        while i < n
            invariant
                n == self.rows@.len(),
                i <= n,
                out@ == render_all(self@.take(i as int)),
            decreases n - i,
        {
            let line = self.rows[i].render_line();
            out.append(line.as_str());
            out.append("\n");
            proof {
                reveal_strlit("\n");
                assert("\n"@ =~= seq!['\n']);
                assert(self@.take(i + 1).drop_last() =~= self@.take(i as int));
                assert(self@.take(i + 1).last() == self@[i as int]);
                assert(out@ =~= render_all(self@.take(i + 1)));
            }
            i = i + 1;
        }
        proof {
            assert(self@.take(n as int) =~= self@);
        }
        out
    }

    /// Sorts and renders in one step: the output text renders some ordering
    /// of exactly the merged rows, sorted by identifier.
    pub fn finalize(self) -> (out: String)
        ensures
            exists|s: Seq<RecordModel>|
                {
                    &&& s.to_multiset() == self@.to_multiset()
                    &&& sorted_by_id(s)
                    &&& out@ == render_all(s)
                },
    {
        let mut sink = self;
        sink.sort_by_id();
        let out = sink.render();
        proof {
            let s = sink@;
            assert({
                &&& s.to_multiset() == self@.to_multiset()
                &&& sorted_by_id(s)
                &&& out@ == render_all(s)
            });
        }
        out
    }
}

/// In a sorted row sequence any two neighbouring rows are in identifier
/// order: reading the finished file top to bottom, the identifier column
/// never goes down.
pub proof fn lemma_sorted_consecutive(s: Seq<RecordModel>, i: int)
    requires
        sorted_by_id(s),
        0 <= i,
        i + 1 < s.len(),
    ensures
        lex_leq(s[i].id, s[i + 1].id),
{
}

/// Counting line breaks in the rendered text gives exactly the number of
/// rows, provided no field embeds a line break of its own.
pub proof fn lemma_output_line_count(s: Seq<RecordModel>)
    requires
        forall|i: int| 0 <= i < s.len() ==> record_clean(#[trigger] s[i]),
    ensures
        count_char(render_all(s), '\n') == s.len(),
    decreases s.len(),
{
    broadcast use lemma_count_char_concat;

    if s.len() > 0 {
        lemma_output_line_count(s.drop_last());
        lemma_line_no_newline(s.last());
        lemma_count_char_single('\n', '\n');
    }
}

/// How many rows a run's batches hold together.
pub open spec fn sum_lens(batches: Seq<Seq<RecordModel>>) -> nat
    decreases batches.len(),
{
    if batches.len() == 0 {
        0
    } else {
        batches.first().len() + sum_lens(batches.drop_first())
    }
}

proof fn lemma_flatten_len(batches: Seq<Seq<RecordModel>>)
    ensures
        batches.flatten().len() == sum_lens(batches),
    decreases batches.len(),
{
    if batches.len() > 0 {
        lemma_flatten_len(batches.drop_first());
    }
}

/// One run, end to end: however the batches were merged and however the
/// sort permuted the rows, the finished text holds one line per edge that
/// the successfully parsed files contributed — the sum of the batch sizes.
pub proof fn lemma_run_line_count(batches: Seq<Seq<RecordModel>>, sorted: Seq<RecordModel>)
    requires
        sorted.to_multiset() == batches.flatten().to_multiset(),
        forall|i: int| 0 <= i < sorted.len() ==> record_clean(#[trigger] sorted[i]),
    ensures
        count_char(render_all(sorted), '\n') == sum_lens(batches),
{
    broadcast use vstd::seq_lib::group_to_multiset_ensures;

    lemma_output_line_count(sorted);
    lemma_flatten_len(batches);
    assert(sorted.len() == sorted.to_multiset().len());
    assert(batches.flatten().len() == batches.flatten().to_multiset().len());
}

/// However a run's batches reach the sink — in whatever order the workers
/// finish — the merged rows are the same collection, so every later step of
/// the pipeline sees the same input.
pub proof fn lemma_merge_order_irrelevant(a: Seq<Seq<RecordModel>>, b: Seq<Seq<RecordModel>>)
    requires
        a.to_multiset() == b.to_multiset(),
    ensures
        a.flatten().to_multiset() == b.flatten().to_multiset(),
    decreases a.len(),
{
    broadcast use vstd::seq_lib::group_to_multiset_ensures;
    broadcast use vstd::multiset::group_multiset_axioms;
    broadcast use vstd::seq_lib::lemma_multiset_commutative;

    if a.len() == 0 {
        assert(a.to_multiset().len() == a.len());
        assert(b.to_multiset().len() == b.len());
        assert(b.len() == 0);
        assert(a.flatten() =~= Seq::<RecordModel>::empty());
        assert(b.flatten() =~= Seq::<RecordModel>::empty());
    } else {
        let x = a.last();
        assert(a.contains(x));
        assert(b.to_multiset().count(x) > 0);
        assert(b.contains(x));
        let i = choose|i: int| 0 <= i < b.len() && b[i] == x;
        assert(a.drop_last() =~= a.remove(a.len() - 1));
        assert(a.drop_last().to_multiset() =~= a.to_multiset().remove(x));
        assert(b.remove(i).to_multiset() =~= b.to_multiset().remove(x));
        lemma_merge_order_irrelevant(a.drop_last(), b.remove(i));

        assert(a.drop_last() + seq![x] =~= a);
        vstd::seq_lib::lemma_flatten_concat(a.drop_last(), seq![x]);
        assert(seq![x].flatten() =~= x) by {
            broadcast use Seq::lemma_flatten_singleton;

        }
        assert(a.flatten().to_multiset() =~= a.drop_last().flatten().to_multiset().add(
            x.to_multiset(),
        ));

        let b1 = b.subrange(0, i);
        let b2 = b.subrange(i + 1, b.len() as int);
        assert(b =~= (b1 + seq![x]) + b2);
        assert(b.remove(i) =~= b1 + b2);
        vstd::seq_lib::lemma_flatten_concat(b1 + seq![x], b2);
        vstd::seq_lib::lemma_flatten_concat(b1, seq![x]);
        vstd::seq_lib::lemma_flatten_concat(b1, b2);
        assert(b.flatten().to_multiset() =~= b1.flatten().to_multiset().add(
            x.to_multiset(),
        ).add(b2.flatten().to_multiset()));
        assert(b.remove(i).flatten().to_multiset() =~= b1.flatten().to_multiset().add(
            b2.flatten().to_multiset(),
        ));
        assert(b.flatten().to_multiset() =~= b.remove(i).flatten().to_multiset().add(
            x.to_multiset(),
        ));
        assert(a.flatten().to_multiset() =~= b.flatten().to_multiset());
    }
}

/// Sequences with the same elements keep the same elements under a map.
proof fn lemma_map_multiset<A, B>(s1: Seq<A>, s2: Seq<A>, f: spec_fn(A) -> B)
    requires
        s1.to_multiset() == s2.to_multiset(),
    ensures
        s1.map_values(f).to_multiset() == s2.map_values(f).to_multiset(),
    decreases s1.len(),
{
    broadcast use vstd::seq_lib::group_to_multiset_ensures;
    broadcast use vstd::multiset::group_multiset_axioms;

    if s1.len() == 0 {
        assert(s1.to_multiset().len() == s1.len());
        assert(s2.to_multiset().len() == s2.len());
        assert(s2.len() == 0);
        assert(s1.map_values(f) =~= Seq::<B>::empty());
        assert(s2.map_values(f) =~= Seq::<B>::empty());
    } else {
        let x = s1.last();
        assert(s1.contains(x));
        assert(s2.to_multiset().count(x) > 0);
        assert(s2.contains(x));
        let i = choose|i: int| 0 <= i < s2.len() && s2[i] == x;
        assert(s1.drop_last() =~= s1.remove(s1.len() - 1));
        assert(s1.drop_last().to_multiset() =~= s1.to_multiset().remove(x));
        assert(s2.remove(i).to_multiset() =~= s2.to_multiset().remove(x));
        lemma_map_multiset(s1.drop_last(), s2.remove(i), f);
        assert(s1.map_values(f) =~= s1.drop_last().map_values(f).push(f(x)));
        assert(s1.map_values(f).to_multiset() =~= s1.drop_last().map_values(
            f,
        ).to_multiset().insert(f(x)));
        assert(s2.remove(i).map_values(f) =~= s2.map_values(f).remove(i));
        assert(s2.map_values(f).remove(i).to_multiset() =~= s2.map_values(f).to_multiset().remove(
            f(x),
        ));
        assert(s2.map_values(f)[i] == f(x));
        assert(s2.map_values(f).contains(f(x)));
        assert(s2.map_values(f).to_multiset().count(f(x)) > 0);
        assert(s2.map_values(f).to_multiset().remove(f(x)).insert(f(x)) =~= s2.map_values(
            f,
        ).to_multiset());
        assert(s1.map_values(f).to_multiset() =~= s2.map_values(f).to_multiset());
    }
}

/// Two runs over the same rows write the same file, line for line in the
/// identifier column: sorting pins the identifier sequence down completely,
/// and the full lines agree as a multiset — only rows whose identifiers
/// tie may swap places between runs.
pub proof fn lemma_output_deterministic(a: Seq<RecordModel>, b: Seq<RecordModel>)
    requires
        a.to_multiset() == b.to_multiset(),
        sorted_by_id(a),
        sorted_by_id(b),
    ensures
        a.map_values(|r: RecordModel| r.id) == b.map_values(|r: RecordModel| r.id),
        a.map_values(|r: RecordModel| line_of(r)).to_multiset() == b.map_values(
            |r: RecordModel| line_of(r),
        ).to_multiset(),
{
    let ids = |r: RecordModel| r.id;
    let leq = |x: Seq<char>, y: Seq<char>| lex_leq(x, y);
    lemma_map_multiset(a, b, ids);
    lemma_map_multiset(a, b, |r: RecordModel| line_of(r));
    assert(vstd::relations::sorted_by(a.map_values(ids), leq)) by {
        assert forall|i: int, j: int| 0 <= i < j < a.map_values(ids).len() implies #[trigger] leq(
            a.map_values(ids)[i],
            a.map_values(ids)[j],
        ) by {
            assert(lex_leq(a[i].id, a[j].id));
        }
    }
    assert(vstd::relations::sorted_by(b.map_values(ids), leq)) by {
        assert forall|i: int, j: int| 0 <= i < j < b.map_values(ids).len() implies #[trigger] leq(
            b.map_values(ids)[i],
            b.map_values(ids)[j],
        ) by {
            assert(lex_leq(b[i].id, b[j].id));
        }
    }
    lemma_lex_total_ordering();
    vstd::seq_lib::lemma_sorted_unique(a.map_values(ids), b.map_values(ids), leq);
}

} // verus!
