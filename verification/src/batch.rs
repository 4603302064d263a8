//! Planning for the batched account loader: how a list of addresses is
//! cut into bounded chunks and how per-chunk results are reassembled in
//! input order.  The RPC calls themselves happen outside the library;
//! these functions carry the loader's ordering contract.

use vstd::prelude::*;

verus! {

/// Sizing of the batched loader.
pub struct BatchLoadingConfig {
    pub max_batch_size: usize,
    pub max_concurrent_calls: usize,
}

impl BatchLoadingConfig {
    /// The default sizing: chunks of 100 addresses, 64 in flight.
    pub fn default_config() -> (r: BatchLoadingConfig)
        ensures
            r.max_batch_size == 100,
            r.max_concurrent_calls == 64,
    {
        BatchLoadingConfig { max_batch_size: 100, max_concurrent_calls: 64 }
    }
}

/// Cuts `0..total` into consecutive half-open ranges of at most
/// `chunk` items, in order and covering every index exactly once.
pub fn chunk_bounds(total: usize, chunk: usize) -> (r: Vec<(usize, usize)>)
    requires
        chunk > 0,
    ensures
        forall|i: int|
            0 <= i < r@.len() ==> ((#[trigger] r@[i]).0 < r@[i].1 && r@[i].1 <= total && r@[i].1
                - r@[i].0 <= chunk),
        forall|i: int| 0 < i < r@.len() ==> (#[trigger] r@[i]).0 == r@[i - 1].1,
        r@.len() > 0 ==> (r@[0].0 == 0 && r@[r@.len() - 1].1 == total),
        r@.len() == 0 <==> total == 0,
    {
    let mut r: Vec<(usize, usize)> = Vec::new();
    let mut start: usize = 0;
    while start < total
        invariant
            chunk > 0,
            start <= total,
            forall|i: int|
                0 <= i < r@.len() ==> ((#[trigger] r@[i]).0 < r@[i].1 && r@[i].1 <= total
                    && r@[i].1 - r@[i].0 <= chunk),
            forall|i: int| 0 < i < r@.len() ==> (#[trigger] r@[i]).0 == r@[i - 1].1,
            r@.len() > 0 ==> (r@[0].0 == 0 && r@[r@.len() - 1].1 == start),
            r@.len() == 0 ==> start == 0,
        decreases total - start,
    {
        let end = if total - start > chunk {
            start + chunk
        } else {
            total
        };
        r.push((start, end));
        start = end;
    }
    r
}

/// Concatenation of per-chunk results, preserving chunk order and the
/// order inside each chunk.
pub open spec fn flatten_spec<T>(chunks: Seq<Seq<T>>) -> Seq<T>
    decreases chunks.len(),
{
    if chunks.len() == 0 {
        Seq::empty()
    } else {
        flatten_spec(chunks.drop_last()) + chunks.last()
    }
}

/// Reassembles per-chunk results into one vector in input order.
pub fn flatten_results<T>(chunks: Vec<Vec<T>>) -> (r: Vec<T>)
    ensures
        r@ == flatten_spec(chunks@.map_values(|c: Vec<T>| c@)),
{
    let ghost all = chunks@.map_values(|c: Vec<T>| c@);
    let mut rest = chunks;
    let mut r: Vec<T> = Vec::new();
    proof {
        assert(rest@.map_values(|c: Vec<T>| c@) =~= all.subrange(
            all.len() - rest@.len(),
            all.len() as int,
        ));
        assert(r@ =~= flatten_spec(all.subrange(0, all.len() - rest@.len())));
    }
    while rest.len() > 0
        invariant
            rest@.len() <= all.len(),
            rest@.map_values(|c: Vec<T>| c@) =~= all.subrange(
                all.len() - rest@.len(),
                all.len() as int,
            ),
            r@ =~= flatten_spec(all.subrange(0, all.len() - rest@.len())),
        decreases rest@.len(),
    {
        let ghost done = all.len() - rest@.len();
        let ghost pre_rest = rest@;
        let mut c = rest.remove(0);
        let ghost cv = c@;
        proof {
            assert(pre_rest.map_values(|x: Vec<T>| x@)[0] == cv);
            assert(cv == all[done as int]);
            assert(rest@.map_values(|x: Vec<T>| x@) =~= all.subrange(
                done as int + 1,
                all.len() as int,
            )) by {
                assert forall|k: int| 0 <= k < rest@.len() implies (#[trigger] rest@[k])@ == all[
                    done + 1 + k
                ] by {
                    assert(rest@[k] == pre_rest[k + 1]);
                    assert(pre_rest.map_values(|x: Vec<T>| x@)[k + 1] == all[done + 1 + k]);
                }
            }
        }
        let m = c.len();
        let mut j: usize = 0;
        let ghost rbase = r@;
        while j < m
            invariant
                m == cv.len(),
                j <= m,
                c@ =~= cv.subrange(j as int, m as int),
                r@ =~= rbase + cv.subrange(0, j as int),
            decreases m - j,
        {
            let x = c.remove(0);
            proof {
                assert(cv.subrange(j as int, m as int)[0] == cv[j as int]);
            }
            r.push(x);
            proof {
                assert(cv.subrange(0, j as int + 1) =~= cv.subrange(0, j as int).push(
                    cv[j as int],
                ));
                assert(cv.subrange(j as int + 1, m as int) =~= cv.subrange(
                    j as int,
                    m as int,
                ).drop_first());
            }
            j = j + 1;
        }
        proof {
            assert(cv.subrange(0, m as int) =~= cv);
            assert(r@ =~= flatten_spec(all.subrange(0, done as int)) + all[done as int]);
            assert(all.subrange(0, done as int + 1).drop_last() =~= all.subrange(0, done as int));
            assert(all.subrange(0, done as int + 1).last() == all[done as int]);
            assert(r@ =~= flatten_spec(all.subrange(0, done as int + 1)));
        }
    }
    proof {
        assert(all.subrange(0, all.len() as int) =~= all);
    }
    r
}

} // verus!
