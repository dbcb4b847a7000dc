//! How a message body is cut into buckets and spread over the data streams.

use vstd::prelude::*;

verus! {

/// `a / b` rounded up.
pub open spec fn ceil_div(a: int, b: int) -> int
    recommends
        b > 0,
{
    (a + b - 1) / b
}

/// Length of each bucket of a `len`-byte message on `nstreams` streams:
/// a message at or above the split threshold, and longer than the stream
/// count, is cut into `nstreams` near-equal parts; any other travels whole.
pub open spec fn spec_bucket_size(len: int, nstreams: int, threshold: int) -> int {
    if len >= threshold && len > nstreams {
        ceil_div(len, nstreams)
    } else {
        len
    }
}

/// Number of buckets a `len`-byte message is cut into: none for an empty message.
pub open spec fn spec_bucket_count(len: int, nstreams: int, threshold: int) -> int {
    if len <= 0 {
        0
    } else {
        ceil_div(len, spec_bucket_size(len, nstreams, threshold))
    }
}

/// One contiguous run of a message body, carried on one data stream.
#[derive(Debug, Clone, Copy, PartialEq, Eq, Structural)]
pub struct Bucket {
    /// Index of the data stream that carries the run.
    pub stream: usize,
    /// Position of the run's first byte in the message body.
    pub offset: usize,
    /// Number of bytes in the run.
    pub len: usize,
}

/// The `k`-th bucket of a `len`-byte message whose first bucket goes to stream `cursor`.
pub open spec fn spec_bucket(len: int, nstreams: int, threshold: int, cursor: int, k: int) -> Bucket {
    let bs = spec_bucket_size(len, nstreams, threshold);
    Bucket {
        stream: ((cursor + k) % nstreams) as usize,
        offset: (k * bs) as usize,
        len: (if len - k * bs < bs {
            len - k * bs
        } else {
            bs
        }) as usize,
    }
}

/// All buckets of a `len`-byte message, in body order, the first on stream `cursor`
/// and each next one on the next stream round the ring.
pub open spec fn spec_plan(len: int, nstreams: int, threshold: int, cursor: int) -> Seq<Bucket> {
    Seq::new(
        spec_bucket_count(len, nstreams, threshold) as nat,
        |k: int| spec_bucket(len, nstreams, threshold, cursor, k),
    )
}

/// Total number of bytes in a run of buckets.
pub open spec fn total_len(s: Seq<Bucket>) -> int
    decreases s.len(),
{
    if s.len() == 0 {
        0
    } else {
        total_len(s.drop_last()) + s.last().len
    }
}

proof fn lemma_ceil_div(a: int, b: int)
    requires
        a >= 0,
        b > 0,
    ensures
        ceil_div(a, b) == a / b + (if a % b == 0 {
            0int
        } else {
            1int
        }),
        ceil_div(a, b) * b >= a,
        a > 0 ==> ceil_div(a, b) >= 1,
        a > 0 ==> (ceil_div(a, b) - 1) * b < a,
{
    let q = a / b;
    let r = a % b;
    assert(a == q * b + r && 0 <= r < b) by (nonlinear_arith)
        requires
            b > 0,
            q == a / b,
            r == a % b,
    ;
    let c = ceil_div(a, b);
    if r == 0 {
        assert(c == q) by (nonlinear_arith)
            requires
                a == q * b,
                b > 0,
                c == (a + b - 1) / b,
        ;
    } else {
        assert(c == q + 1) by (nonlinear_arith)
            requires
                a == q * b + r,
                0 < r < b,
                c == (a + b - 1) / b,
        ;
    }
    assert(c * b >= a) by (nonlinear_arith)
        requires
            a == q * b + r,
            0 <= r < b,
            c == q + (if r == 0 {
                0int
            } else {
                1int
            }),
    ;
    if a > 0 {
        assert(c >= 1 && (c - 1) * b < a) by (nonlinear_arith)
            requires
                a == q * b + r,
                0 <= r < b,
                q >= 0,
                a > 0,
                c == q + (if r == 0 {
                    0int
                } else {
                    1int
                }),
        ;
    }
}

/// Facts about the plan's shape: a non-empty message has a positive bucket size,
/// every bucket but the last is full, and the last one ends the message.
proof fn lemma_plan_shape(len: int, nstreams: int, threshold: int)
    requires
        len > 0,
        nstreams >= 1,
    ensures
        spec_bucket_size(len, nstreams, threshold) >= 1,
        spec_bucket_size(len, nstreams, threshold) <= len,
        spec_bucket_count(len, nstreams, threshold) >= 1,
        spec_bucket_count(len, nstreams, threshold) <= nstreams,
        spec_bucket_count(len, nstreams, threshold) == 1 || spec_bucket_count(
            len,
            nstreams,
            threshold,
        ) < len,
        spec_bucket_count(len, nstreams, threshold) * spec_bucket_size(len, nstreams, threshold)
            >= len,
        (spec_bucket_count(len, nstreams, threshold) - 1) * spec_bucket_size(
            len,
            nstreams,
            threshold,
        ) < len,
{
    let bs = spec_bucket_size(len, nstreams, threshold);
    if len >= threshold && len > nstreams {
        lemma_ceil_div(len, nstreams);
        assert(bs <= len) by (nonlinear_arith)
            requires
                bs * nstreams >= len,
                (bs - 1) * nstreams < len,
                nstreams >= 1,
                len > 0,
        ;
        lemma_ceil_div(len, bs);
        let c = ceil_div(len, bs);
        assert(c <= nstreams) by (nonlinear_arith)
            requires
                bs * nstreams >= len,
                (c - 1) * bs < len,
                bs >= 1,
        ;
    } else {
        lemma_ceil_div(len, bs);
        assert(ceil_div(len, len) == 1) by (nonlinear_arith)
            requires
                len > 0,
        ;
    }
}

/// One step round the ring of streams.
proof fn lemma_next_stream(x: int, s: int, n: int)
    requires
        x >= 0,
        n > 0,
        s == x % n,
    ensures
        (x + 1) % n == if s + 1 == n {
            0
        } else {
            s + 1
        },
{
    vstd::arithmetic::div_mod::lemma_add_mod_noop_right(1, x, n);
    if s + 1 == n {
        vstd::arithmetic::div_mod::lemma_mod_self_0(n);
    } else {
        vstd::arithmetic::div_mod::lemma_small_mod((s + 1) as nat, n as nat);
    }
}

/// The bucket size for a message, as used by both ends of a connection.
pub fn bucket_size(len: usize, nstreams: usize, threshold: usize) -> (r: usize)
    requires
        nstreams >= 1,
    ensures
        r == spec_bucket_size(len as int, nstreams as int, threshold as int),
{
    if len >= threshold && len > nstreams {
        proof {
            lemma_ceil_div(len as int, nstreams as int);
        }
        let extra: usize = if len % nstreams == 0 {
            0
        } else {
            1
        };
        proof {
            lemma_plan_shape(len as int, nstreams as int, threshold as int);
        }
        len / nstreams + extra
    } else {
        len
    }
}

/// Cuts a `len`-byte message into its buckets, the first going to stream `cursor`.
pub fn plan_buckets(len: usize, nstreams: usize, threshold: usize, cursor: usize) -> (r: Vec<
    Bucket,
>)
    requires
        nstreams >= 1,
        cursor < nstreams,
    ensures
        r@ == spec_plan(len as int, nstreams as int, threshold as int, cursor as int),
{
    let mut r: Vec<Bucket> = Vec::new();
    if len == 0 {
        assert(r@ =~= spec_plan(len as int, nstreams as int, threshold as int, cursor as int));
        return r;
    }
    let bs = bucket_size(len, nstreams, threshold);
    proof {
        lemma_plan_shape(len as int, nstreams as int, threshold as int);
        lemma_ceil_div(len as int, bs as int);
    }
    let count: usize = len / bs + if len % bs == 0 {
        0
    } else {
        1
    };
    let ghost spec = spec_plan(len as int, nstreams as int, threshold as int, cursor as int);
    let mut k: usize = 0;
    let mut offset: usize = 0;
    let mut stream: usize = cursor;
    proof {
        vstd::arithmetic::div_mod::lemma_small_mod(cursor as nat, nstreams as nat);
    }
    while k < count
        invariant
            bs == spec_bucket_size(len as int, nstreams as int, threshold as int),
            count == spec_bucket_count(len as int, nstreams as int, threshold as int),
            spec == spec_plan(len as int, nstreams as int, threshold as int, cursor as int),
            1 <= bs <= len,
            (count - 1) * bs < len,
            nstreams >= 1,
            cursor < nstreams,
            k <= count,
            k < count ==> offset == k * bs,
            stream == (cursor + k) % (nstreams as int),
            r@.len() == k,
            forall|j: int| 0 <= j < k ==> r@[j] == spec[j],
        decreases count - k,
    {
        assert(k * bs < len) by (nonlinear_arith)
            requires
                k < count,
                (count - 1) * bs < len,
                bs >= 1,
        ;
        let rest = len - offset;
        let this_len = if rest < bs {
            rest
        } else {
            bs
        };
        r.push(Bucket { stream, offset, len: this_len });
        proof {
            assert((k + 1) * bs == k * bs + bs) by (nonlinear_arith);
            lemma_next_stream(cursor + k, stream as int, nstreams as int);
        }
        if k + 1 < count {
            assert((k + 1) * bs < len) by (nonlinear_arith)
                requires
                    k + 1 < count,
                    (count - 1) * bs < len,
                    bs >= 1,
            ;
            offset = offset + bs;
        }
        stream = if stream + 1 == nstreams {
            0
        } else {
            stream + 1
        };
        k = k + 1;
    }
    assert(r@ =~= spec);
    r
}

proof fn lemma_prefix_total(len: usize, nstreams: usize, threshold: usize, cursor: usize, k: int)
    requires
        len > 0,
        nstreams >= 1,
        0 <= k <= spec_bucket_count(len as int, nstreams as int, threshold as int),
    ensures
        total_len(spec_plan(len as int, nstreams as int, threshold as int, cursor as int).take(k))
            == if k * spec_bucket_size(len as int, nstreams as int, threshold as int) <= len {
            k * spec_bucket_size(len as int, nstreams as int, threshold as int)
        } else {
            len as int
        },
    decreases k,
{
    let plan = spec_plan(len as int, nstreams as int, threshold as int, cursor as int);
    let bs = spec_bucket_size(len as int, nstreams as int, threshold as int);
    let count = spec_bucket_count(len as int, nstreams as int, threshold as int);
    lemma_plan_shape(len as int, nstreams as int, threshold as int);
    if k == 0 {
        assert(plan.take(0) =~= Seq::<Bucket>::empty());
    } else {
        lemma_prefix_total(len, nstreams, threshold, cursor, k - 1);
        assert(plan.take(k).drop_last() =~= plan.take(k - 1));
        assert((k - 1) * bs < len) by (nonlinear_arith)
            requires
                k <= count,
                (count - 1) * bs < len,
                bs >= 1,
        ;
        assert(k * bs == (k - 1) * bs + bs) by (nonlinear_arith);
        assert((k - 1) * bs >= 0) by (nonlinear_arith)
            requires
                k >= 1,
                bs >= 1,
        ;
        assert(plan.take(k).last() == plan[k - 1]);
        let rest = len - (k - 1) * bs;
        assert(plan[k - 1].len == if rest < bs {
            rest
        } else {
            bs
        });
    }
}

/// Bucket conservation: the buckets of a message hold exactly its bytes, there
/// are never more of them than streams, and a non-empty message below the split
/// threshold travels as a single bucket.
pub proof fn lemma_bucket_conservation(len: usize, nstreams: usize, threshold: usize, cursor: usize)
    requires
        nstreams >= 1,
    ensures
        ({
            let plan = spec_plan(len as int, nstreams as int, threshold as int, cursor as int);
            let bs = spec_bucket_size(len as int, nstreams as int, threshold as int);
            &&& total_len(plan) == len
            &&& plan.len() <= nstreams
            &&& plan.len() <= 1 || plan.len() < len
            &&& len > 0 ==> plan.len() == ceil_div(len as int, bs)
            &&& 0 < len < threshold ==> plan.len() == 1
        }),
{
    let plan = spec_plan(len as int, nstreams as int, threshold as int, cursor as int);
    if len == 0 {
        assert(plan.len() == 0);
    } else {
        let count = spec_bucket_count(len as int, nstreams as int, threshold as int);
        let bs = spec_bucket_size(len as int, nstreams as int, threshold as int);
        lemma_plan_shape(len as int, nstreams as int, threshold as int);
        lemma_prefix_total(len, nstreams, threshold, cursor, count);
        assert(plan.take(count) =~= plan);
        if len < threshold {
            lemma_ceil_div(len as int, len as int);
            assert((len as int) / (len as int) == 1 && (len as int) % (len as int) == 0)
                by (nonlinear_arith)
                requires
                    len > 0,
            ;
        }
    }
}

/// The buckets of a message tile its body: the first starts at byte 0, each
/// next one starts where the one before ended, none is empty, and the last ends
/// at the message's length. The receiver, planning from the same length and
/// cursor, therefore places every byte where the sender took it from.
pub proof fn lemma_plan_tiles(len: usize, nstreams: usize, threshold: usize, cursor: usize)
    requires
        nstreams >= 1,
        cursor < nstreams,
    ensures
        ({
            let plan = spec_plan(len as int, nstreams as int, threshold as int, cursor as int);
            &&& len > 0 ==> plan[0].offset == 0 && plan[0].stream == cursor
            &&& forall|k: int| 0 <= k < plan.len() ==> plan[k].len >= 1
            &&& forall|k: int|
                0 <= k < plan.len() - 1 ==> #[trigger] plan[k + 1].offset == plan[k].offset
                    + plan[k].len
            &&& len > 0 ==> plan[plan.len() - 1].offset + plan[plan.len() - 1].len == len
        }),
{
    let plan = spec_plan(len as int, nstreams as int, threshold as int, cursor as int);
    if len > 0 {
        let count = spec_bucket_count(len as int, nstreams as int, threshold as int);
        let bs = spec_bucket_size(len as int, nstreams as int, threshold as int);
        lemma_plan_shape(len as int, nstreams as int, threshold as int);
        vstd::arithmetic::div_mod::lemma_small_mod(cursor as nat, nstreams as nat);
        assert(0 * bs == 0);
        assert forall|k: int| 0 <= k < plan.len() implies plan[k].len >= 1 && plan[k].offset == k
            * bs && plan[k].offset + plan[k].len == if len - k * bs < bs {
            len as int
        } else {
            k * bs + bs
        } by {
            assert(0 <= k * bs < len) by (nonlinear_arith)
                requires
                    0 <= k < count,
                    (count - 1) * bs < len,
                    bs >= 1,
            ;
        }
        assert forall|k: int| 0 <= k < plan.len() - 1 implies #[trigger] plan[k + 1].offset
            == plan[k].offset + plan[k].len by {
            assert((k + 1) * bs < len) by (nonlinear_arith)
                requires
                    0 <= k + 1 < count,
                    (count - 1) * bs < len,
                    bs >= 1,
            ;
            assert((k + 1) * bs == k * bs + bs) by (nonlinear_arith);
        }
        let last = count - 1;
        assert(len - last * bs <= bs) by (nonlinear_arith)
            requires
                count * bs >= len,
                last == count - 1,
        ;
    }
}

/// A message below the split threshold is not striped: every byte of it travels
/// on the one stream the cursor points at.
pub proof fn lemma_no_strip(len: usize, nstreams: usize, threshold: usize, cursor: usize)
    requires
        nstreams >= 1,
        cursor < nstreams,
        len < threshold,
    ensures
        ({
            let plan = spec_plan(len as int, nstreams as int, threshold as int, cursor as int);
            forall|k: int| 0 <= k < plan.len() ==> plan[k].stream == cursor && plan[k].offset == 0
                && plan[k].len == len
        }),
{
    lemma_bucket_conservation(len, nstreams, threshold, cursor);
    vstd::arithmetic::div_mod::lemma_small_mod(cursor as nat, nstreams as nat);
}

} // verus!
