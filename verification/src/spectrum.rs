use vstd::prelude::*;

verus! {

/// Position at which a spectrum of `len` bins is split so that the negative
/// frequencies come first: `(len + 1) / 2`.
pub open spec fn split_pos_spec(len: nat) -> nat {
    (len + 1) / 2
}

/// The spectrum reordered so that the upper part (negative frequencies)
/// comes before the lower part (non-negative frequencies).
pub open spec fn shifted<T>(s: Seq<T>) -> Seq<T> {
    s.subrange(split_pos_spec(s.len()) as int, s.len() as int) + s.subrange(
        0,
        split_pos_spec(s.len()) as int,
    )
}

/// Reorders an FFT output so that negative frequencies precede the
/// non-negative ones (an "fftshift").
pub fn fft_shift<T: Copy>(data: &[T]) -> (r: Vec<T>)
    ensures
        r@ == shifted(data@),
{
    let len = data.len();
    let split = len / 2 + len % 2;
    let mut r: Vec<T> = Vec::with_capacity(len);
    let mut i: usize = split;
    while i < len
        invariant
            split == split_pos_spec(len as nat),
            split <= i <= len,
            len == data@.len(),
            r@ == data@.subrange(split as int, i as int),
        decreases len - i,
    {
        r.push(data[i]);
        i = i + 1;
        assert(r@ =~= data@.subrange(split as int, i as int));
    }
    let mut j: usize = 0;
    while j < split
        invariant
            split == split_pos_spec(len as nat),
            j <= split <= len,
            len == data@.len(),
            r@ == data@.subrange(split as int, len as int) + data@.subrange(0, j as int),
        decreases split - j,
    {
        r.push(data[j]);
        j = j + 1;
        assert(r@ =~= data@.subrange(split as int, len as int) + data@.subrange(0, j as int));
    }
    r
}

/// Frequency number of point `i` of a curve over a spectrum of `dim`
/// bins, drawn from the most negative frequency up.
pub open spec fn centered_freq(dim: int, i: int) -> int {
    i - (dim - (dim + 1) / 2)
}

/// The frequency numbers at which a curve over a spectrum of `dim` bins is
/// sampled, from the most negative up.
pub fn centered_freqs(dim: usize) -> (r: Vec<i32>)
    requires
        dim <= i32::MAX,
    ensures
        r@.len() == dim,
        forall|i: int| 0 <= i < dim ==> #[trigger] r@[i] == centered_freq(dim as int, i),
{
    let d = dim as i32;
    let split_pos = d / 2 + d % 2;
    let offset = d - split_pos;
    let mut r: Vec<i32> = Vec::new();
    let mut i: i32 = 0;
    while i < d
        invariant
            d == dim,
            dim <= i32::MAX,
            split_pos == (d + 1) / 2,
            offset == d - split_pos,
            0 <= i <= d,
            r@.len() == i,
            forall|k: int| 0 <= k < i ==> #[trigger] r@[k] == centered_freq(dim as int, k),
        decreases d - i,
    {
        r.push(i - offset);
        i = i + 1;
    }
    r
}

/// Element range `[start, end)` of chunk `k` (oldest first) among the newest
/// `count` chunks of `len` elements cut into chunks of `chunk` from the end;
/// the oldest chunk of all may be short.
pub open spec fn recent_chunk(len: int, chunk: int, count: int, k: int) -> (int, int) {
    let end = len - (count - 1 - k) * chunk;
    (if end > chunk {
        end - chunk
    } else {
        0
    }, end)
}

/// Number of chunks of `chunk` elements (the first possibly short) that
/// `len` elements make.
pub open spec fn chunk_count(len: int, chunk: int) -> int {
    if len % chunk == 0 {
        len / chunk
    } else {
        len / chunk + 1
    }
}

proof fn lemma_chunk_ends_inside(len: int, chunk: int, j: int)
    requires
        chunk > 0,
        len >= 0,
        0 <= j < chunk_count(len, chunk),
    ensures
        0 <= j * chunk < len,
{
    let q = len / chunk;
    let r = len % chunk;
    vstd::arithmetic::div_mod::lemma_fundamental_div_mod(len, chunk);
    assert(0 <= j * chunk < len) by (nonlinear_arith)
        requires
            chunk > 0,
            0 <= r < chunk,
            len == chunk * q + r,
            0 <= j,
            r == 0 ==> j < q,
            r != 0 ==> j <= q,
    ;
}

/// The element ranges of the newest `max` chunks of a raw history of `len`
/// elements, oldest first; the chunks are cut from the end, so only the
/// oldest one of the whole history may be short.
pub fn recent_chunk_ranges(len: usize, chunk: usize, max: usize) -> (r: Vec<(usize, usize)>)
    requires
        chunk > 0,
    ensures
        r@.len() == (if chunk_count(len as int, chunk as int) < max {
            chunk_count(len as int, chunk as int)
        } else {
            max as int
        }),
        forall|k: int|
            0 <= k < r@.len() ==> {
                let (s, e) = recent_chunk(len as int, chunk as int, r@.len() as int, k);
                &&& #[trigger] r@[k].0 == s
                &&& r@[k].1 == e
            },
{
    let q = len / chunk;
    proof {
        vstd::arithmetic::div_mod::lemma_fundamental_div_mod(len as int, chunk as int);
        assert(chunk > 1 ==> q < len || len == 0) by (nonlinear_arith)
            requires
                chunk > 0,
                q == len / chunk,
                len == chunk * q + len % chunk,
                0 <= len % chunk,
        ;
    }
    let all = if len % chunk == 0 {
        q
    } else {
        q + 1
    };
    let count = if all < max {
        all
    } else {
        max
    };
    let mut r: Vec<(usize, usize)> = Vec::new();
    let mut k: usize = 0;
    while k < count
        invariant
            chunk > 0,
            k <= count,
            count <= chunk_count(len as int, chunk as int),
            r@.len() == k,
            forall|p: int|
                0 <= p < k ==> {
                    let (s, e) = recent_chunk(len as int, chunk as int, count as int, p);
                    &&& #[trigger] r@[p].0 == s
                    &&& r@[p].1 == e
                },
        decreases count - k,
    {
        let j = count - 1 - k;
        proof {
            lemma_chunk_ends_inside(len as int, chunk as int, j as int);
        }
        let e = len - j * chunk;
        let s = if e > chunk {
            e - chunk
        } else {
            0
        };
        r.push((s, e));
        k = k + 1;
    }
    r
}

/// `p` is a power of two.
pub open spec fn is_power_of_two(p: nat) -> bool
    decreases p,
{
    if p == 1 {
        true
    } else if p < 2 || p % 2 != 0 {
        false
    } else {
        is_power_of_two(p / 2)
    }
}

/// Twice a power of two is a power of two.
pub proof fn lemma_double_power_of_two(p: nat)
    requires
        is_power_of_two(p),
    ensures
        is_power_of_two(2 * p),
{
    assert((2 * p) / 2 == p);
    assert((2 * p) % 2 == 0);
}

/// The largest power of two that is at most `n` (`n >= 1`).
pub fn largest_power_of_two_at_most(n: usize) -> (p: usize)
    requires
        n >= 1,
    ensures
        is_power_of_two(p as nat),
        p <= n,
        n < 2 * p,
{
    let mut p: usize = 1;
    while p <= n / 2
        invariant
            1 <= p <= n,
            is_power_of_two(p as nat),
        decreases n - p,
    {
        proof {
            lemma_double_power_of_two(p as nat);
        }
        p = p * 2;
    }
    p
}

/// Number of history rows that the CPU RF transform uses: the newest
/// `min(history_len, max_log)` entries, rounded down to an even count;
/// `None` when fewer than two remain.
pub open spec fn rf_cpu_time_len(max_log: Option<usize>, history_len: nat) -> Option<nat> {
    let cap = match max_log {
        Some(m) => m as nat,
        None => history_len,
    };
    let n = if history_len < cap {
        history_len
    } else {
        cap
    };
    let even = if n % 2 == 1 {
        (n - 1) as nat
    } else {
        n
    };
    if n < 2 || even < 2 {
        None
    } else {
        Some(even)
    }
}

/// Chooses the history window of the CPU RF transform: `(start, time_len)`
/// with the window ending at the newest entry.
pub fn rf_cpu_window(max_log: Option<usize>, history_len: usize) -> (r: Option<(usize, usize)>)
    ensures
        match rf_cpu_time_len(max_log, history_len as nat) {
            None => r is None,
            Some(tl) => r == Some(((history_len - tl) as usize, tl as usize)),
        },
{
    let cap = match max_log {
        Some(m) => m,
        None => history_len,
    };
    let mut time_len = if history_len < cap {
        history_len
    } else {
        cap
    };
    if time_len < 2 {
        return None;
    }
    if time_len % 2 == 1 {
        time_len = time_len - 1;
    }
    if time_len < 2 {
        return None;
    }
    Some((history_len - time_len, time_len))
}

/// Chooses the history window of the GPU RF transform, whose FFT only takes
/// powers of two: `(start, time_len)` with `time_len` the largest power of
/// two up to `max_log` (the history length when there is no limit), and the
/// window ending at the newest entry; `None` when that limit is below two.
pub fn rf_gpu_window(max_log: Option<usize>, history_len: usize) -> (r: Option<(usize, usize)>)
    ensures
        ({
            let cap = match max_log {
                Some(m) => m as int,
                None => history_len as int,
            };
            &&& cap < 2 <==> r is None
            &&& r matches Some((start, tl)) ==> {
                &&& is_power_of_two(tl as nat)
                &&& tl <= cap < 2 * tl
                &&& start == (if history_len > tl {
                    history_len - tl
                } else {
                    0
                })
            }
        }),
{
    let cap = match max_log {
        Some(m) => m,
        None => history_len,
    };
    if cap < 2 {
        return None;
    }
    let time_len = largest_power_of_two_at_most(cap);
    let start = if history_len > time_len {
        history_len - time_len
    } else {
        0
    };
    Some((start, time_len))
}

/// Lays processed history rows out bin-major: element `bin * rows.len() + t`
/// is entry `bin` of row `t`.  `None` when a row does not hold `chunk_size`
/// entries.
pub fn transpose_history<T: Copy>(rows: &Vec<Vec<T>>, chunk_size: usize) -> (r: Option<Vec<T>>)
    requires
        rows@.len() * chunk_size <= usize::MAX,
    ensures
        (exists|t: int| 0 <= t < rows@.len() && #[trigger] rows@[t]@.len() != chunk_size) <==> r
            is None,
        r matches Some(m) ==> {
            &&& m@.len() == rows@.len() * chunk_size
            &&& forall|bin: int, t: int|
                0 <= bin < chunk_size && 0 <= t < rows@.len() ==> #[trigger] m@[bin * rows@.len()
                    + t] == #[trigger] rows@[t]@[bin]
        },
{
    let time_len = rows.len();
    let mut t: usize = 0;
    while t < time_len
        invariant
            time_len == rows@.len(),
            t <= time_len,
            forall|j: int| 0 <= j < t ==> #[trigger] rows@[j]@.len() == chunk_size,
        decreases time_len - t,
    {
        if rows[t].len() != chunk_size {
            return None;
        }
        t = t + 1;
    }
    let mut m: Vec<T> = Vec::new();
    let mut bin: usize = 0;
    while bin < chunk_size
        invariant
            time_len == rows@.len(),
            time_len * chunk_size <= usize::MAX,
            bin <= chunk_size,
            forall|j: int| 0 <= j < time_len ==> #[trigger] rows@[j]@.len() == chunk_size,
            m@.len() == bin * time_len,
            forall|b: int, j: int|
                0 <= b < bin && 0 <= j < time_len ==> #[trigger] m@[b * time_len + j]
                    == #[trigger] rows@[j]@[b],
        decreases chunk_size - bin,
    {
        let mut j: usize = 0;
        while j < time_len
            invariant
                time_len == rows@.len(),
                time_len * chunk_size <= usize::MAX,
                bin < chunk_size,
                j <= time_len,
                forall|k: int| 0 <= k < time_len ==> #[trigger] rows@[k]@.len() == chunk_size,
                m@.len() == bin * time_len + j,
                forall|b: int, k: int|
                    0 <= b < bin && 0 <= k < time_len ==> #[trigger] m@[b * time_len + k]
                        == #[trigger] rows@[k]@[b],
                forall|k: int| 0 <= k < j ==> #[trigger] m@[bin * time_len + k] == rows@[k]@[bin as int],
            decreases time_len - j,
        {
            proof {
                assert((bin + 1) * time_len <= chunk_size * time_len) by (nonlinear_arith)
                    requires
                        bin < chunk_size,
                ;
                assert(bin * time_len + j < (bin + 1) * time_len) by (nonlinear_arith)
                    requires
                        j < time_len,
                ;
            }
            let v = rows[j][bin];
            m.push(v);
            proof {
                assert forall|b: int, k: int|
                    0 <= b < bin && 0 <= k < time_len implies #[trigger] m@[b * time_len + k]
                        == #[trigger] rows@[k]@[b] by {
                    assert(b * time_len + k < bin * time_len) by (nonlinear_arith)
                        requires
                            b < bin,
                            k < time_len,
                    ;
                }
            }
            j = j + 1;
        }
        proof {
            assert(m@.len() == (bin + 1) * time_len) by (nonlinear_arith)
                requires
                    m@.len() == bin * time_len + time_len,
            ;
            assert forall|b: int, k: int|
                0 <= b < bin + 1 && 0 <= k < time_len implies #[trigger] m@[b * time_len + k]
                    == #[trigger] rows@[k]@[b] by {
                if b == bin {
                } else {
                }
            }
        }
        bin = bin + 1;
    }
    proof {
        assert(m@.len() == time_len * chunk_size) by (nonlinear_arith)
            requires
                m@.len() == bin * time_len,
                bin == chunk_size,
        ;
    }
    Some(m)
}

} // verus!
