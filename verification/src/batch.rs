//! Batching: the scheduler partitions the full key list into consecutive
//! fixed-size batches, fully draining one before the next starts. The
//! partition itself is decided here; running a batch is the caller's side
//! of the boundary.

use vstd::prelude::*;

verus! {

/// Consecutive chunks of at most `k` elements, in order: the first `k`
/// keys, then the next `k`, the last chunk taking whatever remains.
pub open spec fn chunks_of<A>(s: Seq<A>, k: int) -> Seq<Seq<A>>
    decreases s.len() when k >= 1
{
    if s.len() == 0 {
        Seq::empty()
    } else if s.len() <= k {
        seq![s]
    } else {
        seq![s.subrange(0, k)] + chunks_of(s.subrange(k, s.len() as int), k)
    }
}

/// Batch sizing: every batch is non-empty and holds at most `k` keys,
/// every batch but the last holds exactly `k`, and the batch count is the
/// least number of such groups that covers the key list.
pub proof fn lemma_chunk_sizes<A>(s: Seq<A>, k: int)
    requires
        k >= 1,
    ensures
        (chunks_of(s, k).len() == 0) == (s.len() == 0),
        forall|i: int| 0 <= i < chunks_of(s, k).len() ==> 1 <= (#[trigger] chunks_of(s, k)[i]).len()
            <= k,
        forall|i: int| 0 <= i < chunks_of(s, k).len() - 1 ==> (#[trigger] chunks_of(s, k)[i]).len()
            == k,
        s.len() > 0 ==> k * (chunks_of(s, k).len() - 1) < s.len() <= k * chunks_of(s, k).len(),
    decreases s.len(),
{
    if s.len() == 0 {
    } else if s.len() <= k {
        assert(k * (1 - 1) < s.len() <= k * 1) by (nonlinear_arith)
            requires
                k >= 1,
                0 < s.len() <= k,
        ;
    } else {
        let rest = s.subrange(k, s.len() as int);
        lemma_chunk_sizes(rest, k);
        let c = chunks_of(s, k);
        let cr = chunks_of(rest, k);
        assert(forall|i: int| 1 <= i < c.len() ==> c[i] == cr[i - 1]);
        assert(s.len() == k + rest.len());
        assert(k * (c.len() - 1) < s.len() <= k * c.len()) by (nonlinear_arith)
            requires
                k >= 1,
                rest.len() > 0,
                c.len() == cr.len() + 1,
                s.len() == k + rest.len(),
                k * (cr.len() - 1) < rest.len() <= k * cr.len(),
        ;
    }
}

/// Nothing is lost and nothing reordered: the batches, concatenated in
/// order, are exactly the key list.
pub proof fn lemma_chunks_flatten<A>(s: Seq<A>, k: int)
    requires
        k >= 1,
    ensures
        chunks_of(s, k).flatten() == s,
    decreases s.len(),
{
    if s.len() == 0 {
        assert(chunks_of(s, k).flatten() =~= s);
    } else if s.len() <= k {
        let c = chunks_of(s, k);
        assert(c =~= seq![s]);
        assert(c.first() == s);
        assert(c.drop_first() =~= Seq::<Seq<A>>::empty());
        assert(Seq::<Seq<A>>::empty().flatten() =~= Seq::<A>::empty());
        assert(c.flatten() == s + Seq::<A>::empty());
        assert(s + Seq::<A>::empty() =~= s);
    } else {
        let head = s.subrange(0, k);
        let rest = s.subrange(k, s.len() as int);
        lemma_chunks_flatten(rest, k);
        let c = chunks_of(s, k);
        assert(c.first() == head);
        assert(c.drop_first() =~= chunks_of(rest, k));
        assert(c.flatten() == head + chunks_of(rest, k).flatten());
        assert(head + rest =~= s);
    }
}

/// Splits the key list into consecutive batches of at most `batch_size`
/// keys, in order. A batch size of zero is a configuration error, reported
/// before any migration starts: no batches are formed.
#[verifier::loop_isolation(false)]
pub fn make_batches(keys: &Vec<String>, batch_size: usize) -> (r: Option<Vec<Vec<String>>>)
    ensures
        (batch_size == 0) == (r is None),
        (match r {
            Some(b) => b.deep_view() == chunks_of(keys.deep_view(), batch_size as int),
            None => batch_size == 0,
        }),
{
    if batch_size == 0 {
        return None;
    }
    let ghost full: Seq<Seq<char>> = keys.deep_view();
    let ghost k: int = batch_size as int;
    let mut batches: Vec<Vec<String>> = Vec::new();
    let mut pos: usize = 0;
    proof {
        assert(batches.deep_view() =~= Seq::<Seq<Seq<char>>>::empty());
        assert(full.subrange(0, full.len() as int) =~= full);
        assert(Seq::<Seq<Seq<char>>>::empty() + chunks_of(full, k) =~= chunks_of(full, k));
    }
    while pos < keys.len()
        invariant
            pos <= keys.len(),
            chunks_of(full, k) == batches.deep_view() + chunks_of(
                full.subrange(pos as int, full.len() as int),
                k,
            ),
        decreases keys.len() - pos,
    {
        let ghost rest: Seq<Seq<char>> = full.subrange(pos as int, full.len() as int);
        let remaining: usize = keys.len() - pos;
        let take: usize = if remaining < batch_size {
            remaining
        } else {
            batch_size
        };
        let mut chunk: Vec<String> = Vec::new();
        let mut j: usize = 0;
        while j < take
            invariant
                j <= take,
                take <= keys.len() - pos,
                chunk@.len() == j,
                forall|q: int| 0 <= q < j ==> (#[trigger] chunk@[q])@ == full[pos + q],
            decreases take - j,
        {
            chunk.push(keys[pos + j].clone());
            j = j + 1;
        }
        let ghost bdv_old: Seq<Seq<Seq<char>>> = batches.deep_view();
        let ghost cdv: Seq<Seq<char>> = chunk.deep_view();
        proof {
            assert(cdv =~= rest.subrange(0, take as int));
        }
        batches.push(chunk);
        pos = pos + take;
        proof {
            assert(batches.deep_view() =~= bdv_old.push(cdv));
            let rest2 = full.subrange(pos as int, full.len() as int);
            if rest.len() <= k {
                assert(cdv =~= rest);
                assert(chunks_of(rest, k) == seq![rest]);
                assert(rest2 =~= Seq::<Seq<char>>::empty());
                assert(bdv_old + chunks_of(rest, k) =~= bdv_old.push(cdv) + chunks_of(rest2, k));
            } else {
                assert(rest2 =~= rest.subrange(k, rest.len() as int));
                assert(chunks_of(rest, k) == seq![cdv] + chunks_of(rest2, k));
                assert(bdv_old + (seq![cdv] + chunks_of(rest2, k)) =~= bdv_old.push(cdv)
                    + chunks_of(rest2, k));
            }
        }
    }
    proof {
        assert(full.subrange(pos as int, full.len() as int) =~= Seq::<Seq<char>>::empty());
        assert(batches.deep_view() + Seq::<Seq<Seq<char>>>::empty() =~= batches.deep_view());
    }
    Some(batches)
}

} // verus!
