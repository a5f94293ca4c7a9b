use vstd::prelude::*;
use vstd::seq_lib::*;

verus! {

/// Number of chunks produced when a payload of `len` bytes is split into
/// pieces of at most `m` bytes each: the ceiling of `len / m`.
pub open spec fn num_chunks(len: nat, m: nat) -> nat
    recommends
        m > 0,
{
    (((len + m - 1) / (m as int)) as nat)
}

/// The byte sequences held by a list of chunks.
pub open spec fn chunk_views(chunks: Seq<Vec<u8>>) -> Seq<Seq<u8>> {
    chunks.map_values(|c: Vec<u8>| c@)
}

/// Every chunk holds exactly `m` bytes.
pub open spec fn all_full(chunks: Seq<Vec<u8>>, m: nat) -> bool {
    forall|k: int| 0 <= k < chunks.len() ==> (#[trigger] chunks[k])@.len() == m
}

/// Every chunk but possibly the last holds exactly `m` bytes.
pub open spec fn full_except_last(chunks: Seq<Vec<u8>>, m: nat) -> bool {
    forall|k: int| 0 <= k < chunks.len() - 1 ==> (#[trigger] chunks[k])@.len() == m
}

/// Split `data` into consecutive chunks of at most `m` bytes: every chunk
/// except the last is exactly `m` bytes, there are exactly `ceil(len / m)`
/// of them, and in order they concatenate back to `data`.
pub fn chunk_bytes(data: &Vec<u8>, m: usize) -> (chunks: Vec<Vec<u8>>)
    requires
        m > 0,
    ensures
        chunks@.len() == num_chunks(data@.len(), m as nat),
        forall|k: int| 0 <= k < chunks@.len() ==> (#[trigger] chunks@[k])@.len() <= m,
        full_except_last(chunks@, m as nat),
        chunk_views(chunks@).flatten() == data@,
{
    let len = data.len();
    let mut chunks: Vec<Vec<u8>> = Vec::new();
    let mut off: usize = 0;
    while off < len
        invariant
            m > 0,
            off <= len,
            len == data@.len(),
            forall|k: int| 0 <= k < chunks@.len() ==> (#[trigger] chunks@[k])@.len() <= m,
            chunk_views(chunks@).flatten() =~= data@.take(off as int),
            (off == chunks@.len() * m && all_full(chunks@, m as nat)) || (off == len
                && chunks@.len() == num_chunks(len as nat, m as nat) && full_except_last(
                chunks@,
                m as nat,
            )),
        decreases len - off,
    {
        let end = if len - off < m {
            len
        } else {
            off + m
        };
        let mut c: Vec<u8> = Vec::new();
        let mut j = off;
        while j < end
            invariant
                off <= j <= end <= len,
                len == data@.len(),
                c@ =~= data@.subrange(off as int, j as int),
            decreases end - j,
        {
            c.push(data[j]);
            j += 1;
        }
        let ghost old_chunks = chunks@;
        let ghost old_off = off as int;
        let ghost n = chunks@.len() as int;
        chunks.push(c);
        proof {
            assert(chunk_views(chunks@) =~= chunk_views(old_chunks).push(c@));
            chunk_views(old_chunks).lemma_flatten_push(c@);
            assert(chunk_views(chunks@).flatten() =~= data@.take(end as int));
        }
        off = end;
        proof {
            if end - old_off == m {
                assert(old_off == n * m);
                assert(off == (n + 1) * m) by (nonlinear_arith)
                    requires
                        old_off == n * m,
                        off == old_off + m,
                {}
            } else {
                // the final, partial chunk: `off` has reached the end
                assert(old_off == n * m && n * m < len < n * m + m);
                assert((((len as int + m - 1) / (m as int)) as int) == n + 1)
                    by (nonlinear_arith)
                    requires
                        m > 0,
                        n >= 0,
                        (n * m) < len < n * m + m,
                {}
            }
        }
    }
    proof {
        if off == chunks@.len() * m && all_full(chunks@, m as nat) {
            let n = chunks@.len() as int;
            assert((((len as int + m - 1) / (m as int)) as int) == n) by (nonlinear_arith)
                requires
                    m > 0,
                    n >= 0,
                    len == n * m,
            {}
        }
        assert(chunk_views(chunks@).flatten() =~= data@);
    }
    chunks
}

} // verus!
