//! Bit-level consensus across the repeated bursts of one transmission.
//!
//! SAME repeats one payload in up to three bursts. The consensus
//! payload is as long as the longest burst; each of its bits is the
//! majority value of that bit across the bursts long enough to cover
//! the position, and a tied vote is broken in favour of the earliest
//! arrival. Majority voting recovers from isolated bit errors that
//! differ between repetitions without any forward error correction in
//! the physical layer.

use vstd::prelude::*;

use crate::transport::Burst;

verus! {

/// Bit `b` (counted from the least significant end) of the byte `v`.
pub open spec fn bit_of(v: u8, b: u8) -> bool {
    (v >> b) & 1 == 1
}

/// The payload byte sequences of a burst history, in arrival order.
pub open spec fn payloads(h: Seq<Burst>) -> Seq<Seq<u8>> {
    h.map(|j: int, bu: Burst| bu.bytes@)
}

/// The reference length of a consensus: the longest payload's length.
pub open spec fn max_len(h: Seq<Seq<u8>>) -> int
    decreases h.len(),
{
    if h.len() == 0 {
        0
    } else {
        let m = max_len(h.drop_last());
        if h.last().len() > m {
            h.last().len() as int
        } else {
            m
        }
    }
}

/// What one payload contributes to the vote at byte position `i`,
/// bit `b`: its own bit if it covers the position, nothing otherwise.
pub open spec fn ballot(s: Seq<u8>, i: int, b: u8) -> Seq<bool> {
    if 0 <= i < s.len() {
        seq![bit_of(s[i], b)]
    } else {
        Seq::empty()
    }
}

/// The bits voting at byte position `i`, bit `b`, in arrival order.
pub open spec fn bits_at(h: Seq<Seq<u8>>, i: int, b: u8) -> Seq<bool>
    decreases h.len(),
{
    if h.len() == 0 {
        Seq::empty()
    } else {
        ballot(h[0], i, b) + bits_at(h.drop_first(), i, b)
    }
}

/// How many of the bits in `s` are set.
pub open spec fn count_true(s: Seq<bool>) -> int
    decreases s.len(),
{
    if s.len() == 0 {
        0
    } else {
        (if s[0] {
            1int
        } else {
            0int
        }) + count_true(s.drop_first())
    }
}

/// Majority vote over an ordered sequence of bits; a tied vote is
/// broken in favour of the earliest bit.
pub open spec fn vote(s: Seq<bool>) -> bool {
    if 2 * count_true(s) > s.len() {
        true
    } else if 2 * count_true(s) < s.len() {
        false
    } else {
        s.len() > 0 && s[0]
    }
}

/// `out` is the consensus of the payloads `h`: it has the reference
/// length, and each of its bits is the (tie-broken) majority vote of
/// that bit across the payloads that cover the position.
pub open spec fn is_consensus(h: Seq<Seq<u8>>, out: Seq<u8>) -> bool {
    &&& out.len() == max_len(h)
    &&& forall|i: int, b: u8|
        0 <= i < out.len() && b < 8 ==> #[trigger] bit_of(out[i], b) == vote(bits_at(h, i, b))
}

/// One more burst adds its payload at the end of the payload view.
pub proof fn lemma_payloads_push(h: Seq<Burst>, bu: Burst)
    ensures
        payloads(h.push(bu)) == payloads(h).push(bu.bytes@),
{
    assert(payloads(h.push(bu)) =~= payloads(h).push(bu.bytes@));
}

/// Every payload fits within the reference length, and some payload
/// reaches it.
proof fn lemma_max_len_bounds(h: Seq<Seq<u8>>)
    ensures
        forall|j: int| 0 <= j < h.len() ==> #[trigger] h[j].len() <= max_len(h),
        h.len() > 0 ==> exists|j: int| 0 <= j < h.len() && max_len(h) == h[j].len(),
    decreases h.len(),
{
    if h.len() > 0 {
        lemma_max_len_bounds(h.drop_last());
        assert(forall|j: int| 0 <= j < h.len() - 1 ==> h.drop_last()[j] == h[j]);
        assert(h.last() == h[h.len() - 1]);
        if h.last().len() >= max_len(h.drop_last()) {
            assert(max_len(h) == h[h.len() - 1].len());
        } else {
            let j = choose|j: int|
                0 <= j < h.drop_last().len() && max_len(h.drop_last()) == h.drop_last()[j].len();
            assert(max_len(h) == h[j].len());
        }
    }
}

proof fn lemma_vote1(a: bool)
    ensures
        vote(seq![a]) == a,
{
    assert(seq![a].drop_first() =~= Seq::<bool>::empty());
    assert(count_true(Seq::<bool>::empty()) == 0);
    assert(count_true(seq![a]) == if a {
        1int
    } else {
        0int
    });
}

proof fn lemma_vote2(a: bool, b: bool)
    ensures
        vote(seq![a, b]) == a,
{
    assert(seq![a, b].drop_first() =~= seq![b]);
    lemma_vote1(b);
    assert(seq![b].drop_first() =~= Seq::<bool>::empty());
    assert(count_true(Seq::<bool>::empty()) == 0);
    assert(count_true(seq![a, b]) == (if a {
        1int
    } else {
        0int
    }) + (if b {
        1int
    } else {
        0int
    }));
}

proof fn lemma_vote3(a: bool, b: bool, c: bool)
    ensures
        vote(seq![a, b, c]) == ((a && b) || (a && c) || (b && c)),
{
    assert(seq![a, b, c].drop_first() =~= seq![b, c]);
    assert(seq![b, c].drop_first() =~= seq![c]);
    assert(seq![c].drop_first() =~= Seq::<bool>::empty());
    assert(count_true(Seq::<bool>::empty()) == 0);
    assert(count_true(seq![c]) == if c {
        1int
    } else {
        0int
    });
    assert(count_true(seq![b, c]) == (if b {
        1int
    } else {
        0int
    }) + (if c {
        1int
    } else {
        0int
    }));
    assert(count_true(seq![a, b, c]) == (if a {
        1int
    } else {
        0int
    }) + (if b {
        1int
    } else {
        0int
    }) + (if c {
        1int
    } else {
        0int
    }));
}

proof fn lemma_bits_at1(h: Seq<Seq<u8>>, i: int, b: u8)
    requires
        h.len() == 1,
    ensures
        bits_at(h, i, b) == ballot(h[0], i, b),
{
    assert(h.drop_first() =~= Seq::<Seq<u8>>::empty());
    assert(bits_at(Seq::<Seq<u8>>::empty(), i, b) =~= Seq::<bool>::empty());
    assert(bits_at(h, i, b) =~= ballot(h[0], i, b) + Seq::<bool>::empty());
    assert(ballot(h[0], i, b) + Seq::<bool>::empty() =~= ballot(h[0], i, b));
}

proof fn lemma_bits_at2(h: Seq<Seq<u8>>, i: int, b: u8)
    requires
        h.len() == 2,
    ensures
        bits_at(h, i, b) == ballot(h[0], i, b) + ballot(h[1], i, b),
{
    let rest = h.drop_first();
    assert(rest.len() == 1 && rest[0] == h[1]);
    lemma_bits_at1(rest, i, b);
    assert(bits_at(h, i, b) =~= ballot(h[0], i, b) + ballot(h[1], i, b));
}

proof fn lemma_bits_at3(h: Seq<Seq<u8>>, i: int, b: u8)
    requires
        h.len() == 3,
    ensures
        bits_at(h, i, b) == ballot(h[0], i, b) + ballot(h[1], i, b) + ballot(h[2], i, b),
{
    let rest = h.drop_first();
    assert(rest.len() == 2 && rest[0] == h[1] && rest[1] == h[2]);
    lemma_bits_at2(rest, i, b);
    assert(bits_at(h, i, b) =~= ballot(h[0], i, b) + (ballot(h[1], i, b) + ballot(
        h[2],
        i,
        b,
    )));
    assert(ballot(h[0], i, b) + (ballot(h[1], i, b) + ballot(h[2], i, b)) =~= ballot(
        h[0],
        i,
        b,
    ) + ballot(h[1], i, b) + ballot(h[2], i, b));
}

/// Each bit of the bytewise three-way majority is the majority of the
/// three bytes' bits.
proof fn lemma_maj3_bits(x: u8, y: u8, z: u8)
    by (bit_vector)
    ensures
        forall|b: u8|
            b < 8 ==> #[trigger] bit_of((x & y) | (x & z) | (y & z), b) == ((bit_of(x, b) && bit_of(
                y,
                b,
            )) || (bit_of(x, b) && bit_of(z, b)) || (bit_of(y, b) && bit_of(z, b))),
{
}

/// Two bytes that agree on all eight bits are the same byte.
pub proof fn lemma_byte_from_bits(x: u8, y: u8)
    requires
        forall|b: u8| b < 8 ==> #[trigger] bit_of(x, b) == bit_of(y, b),
    ensures
        x == y,
{
    assert(x == y) by (bit_vector)
        requires
            bit_of(x, 0) == bit_of(y, 0),
            bit_of(x, 1) == bit_of(y, 1),
            bit_of(x, 2) == bit_of(y, 2),
            bit_of(x, 3) == bit_of(y, 3),
            bit_of(x, 4) == bit_of(y, 4),
            bit_of(x, 5) == bit_of(y, 5),
            bit_of(x, 6) == bit_of(y, 6),
            bit_of(x, 7) == bit_of(y, 7),
    ;
}

/// The consensus predicate pins the payload: two consensus payloads of
/// the same history are equal.
pub proof fn lemma_consensus_unique(h: Seq<Seq<u8>>, a: Seq<u8>, b: Seq<u8>)
    requires
        is_consensus(h, a),
        is_consensus(h, b),
    ensures
        a == b,
{
    assert forall|i: int| 0 <= i < a.len() implies a[i] == b[i] by {
        assert(forall|bb: u8| bb < 8 ==> #[trigger] bit_of(a[i], bb) == bit_of(b[i], bb));
        lemma_byte_from_bits(a[i], b[i]);
    }
    assert(a =~= b);
}

/// The consensus of a single burst is the burst itself: with one
/// payload every position has exactly one voter.
pub proof fn lemma_consensus_singleton(p: Seq<u8>)
    ensures
        is_consensus(seq![p], p),
{
    assert(seq![p].drop_last() =~= Seq::<Seq<u8>>::empty());
    assert(max_len(Seq::<Seq<u8>>::empty()) == 0);
    assert(seq![p].last() == p);
    assert(max_len(seq![p]) == p.len());
    assert forall|i: int, b: u8| 0 <= i < p.len() && b < 8 implies #[trigger] bit_of(p[i], b)
        == vote(bits_at(seq![p], i, b)) by {
        lemma_bits_at1(seq![p], i, b);
        assert(ballot(p, i, b) == seq![bit_of(p[i], b)]);
        lemma_vote1(bit_of(p[i], b));
    }
}

/// The consensus payload is as long as the longest burst: shorter
/// bursts stop contributing at their own length, they never shorten
/// the result.
pub proof fn lemma_consensus_len(h: Seq<Seq<u8>>, out: Seq<u8>)
    requires
        is_consensus(h, out),
    ensures
        out.len() == max_len(h),
        forall|j: int| 0 <= j < h.len() ==> #[trigger] h[j].len() <= out.len(),
{
    lemma_max_len_bounds(h);
}

/// With three bursts all covering a position, a bit that two of them
/// agree on decides the consensus at that position: the majority
/// overrules the dissenting burst.
pub proof fn lemma_majority_bit(
    h: Seq<Seq<u8>>,
    out: Seq<u8>,
    i: int,
    b: u8,
    j: int,
    k: int,
    v: bool,
)
    requires
        is_consensus(h, out),
        h.len() == 3,
        0 <= i < out.len(),
        b < 8,
        i < h[0].len(),
        i < h[1].len(),
        i < h[2].len(),
        0 <= j < k < 3,
        bit_of(h[j][i], b) == v,
        bit_of(h[k][i], b) == v,
    ensures
        bit_of(out[i], b) == v,
{
    lemma_bits_at3(h, i, b);
    assert(ballot(h[0], i, b) + ballot(h[1], i, b) + ballot(h[2], i, b) =~= seq![
        bit_of(h[0][i], b),
        bit_of(h[1][i], b),
        bit_of(h[2][i], b),
    ]);
    lemma_vote3(bit_of(h[0][i], b), bit_of(h[1][i], b), bit_of(h[2][i], b));
}

/// A position that only one of three bursts covers is decided by that
/// burst alone: the bursts too short to reach it cast no vote there.
pub proof fn lemma_sole_cover(h: Seq<Seq<u8>>, out: Seq<u8>, i: int, j: int)
    requires
        is_consensus(h, out),
        h.len() == 3,
        0 <= i < out.len(),
        0 <= j < 3,
        i < h[j].len(),
        forall|k: int| 0 <= k < 3 && k != j ==> h[k].len() <= i,
    ensures
        out[i] == h[j][i],
{
    assert forall|b: u8| b < 8 implies #[trigger] bit_of(out[i], b) == bit_of(h[j][i], b) by {
        lemma_bits_at3(h, i, b);
        if j == 0 {
            assert(h[1].len() <= i && h[2].len() <= i);
            assert(ballot(h[0], i, b) + ballot(h[1], i, b) + ballot(h[2], i, b) =~= seq![
                bit_of(h[0][i], b),
            ]);
        } else if j == 1 {
            assert(h[0].len() <= i && h[2].len() <= i);
            assert(ballot(h[0], i, b) + ballot(h[1], i, b) + ballot(h[2], i, b) =~= seq![
                bit_of(h[1][i], b),
            ]);
        } else {
            assert(h[0].len() <= i && h[1].len() <= i);
            assert(ballot(h[0], i, b) + ballot(h[1], i, b) + ballot(h[2], i, b) =~= seq![
                bit_of(h[2][i], b),
            ]);
        }
        lemma_vote1(bit_of(h[j][i], b));
    }
    lemma_byte_from_bits(out[i], h[j][i]);
}

/// Bursts that are byte-for-byte identical reach consensus on exactly
/// that payload, however many of them (one to three) arrived.
pub proof fn lemma_consensus_identical(h: Seq<Seq<u8>>, p: Seq<u8>)
    requires
        1 <= h.len() <= 3,
        forall|j: int| 0 <= j < h.len() ==> h[j] == p,
    ensures
        is_consensus(h, p),
{
    lemma_max_len_bounds(h);
    assert(max_len(h) == p.len());
    assert forall|i: int, b: u8| 0 <= i < p.len() && b < 8 implies #[trigger] bit_of(p[i], b)
        == vote(bits_at(h, i, b)) by {
        let x = bit_of(p[i], b);
        if h.len() == 1 {
            lemma_bits_at1(h, i, b);
            assert(ballot(h[0], i, b) =~= seq![x]);
            lemma_vote1(x);
        } else if h.len() == 2 {
            lemma_bits_at2(h, i, b);
            assert(ballot(h[0], i, b) + ballot(h[1], i, b) =~= seq![x, x]);
            lemma_vote2(x, x);
        } else {
            lemma_bits_at3(h, i, b);
            assert(ballot(h[0], i, b) + ballot(h[1], i, b) + ballot(h[2], i, b) =~= seq![
                x,
                x,
                x,
            ]);
            lemma_vote3(x, x, x);
        }
    }
}

/// With exactly one burst in the history, the finalized payload is
/// that burst's bytes: a single burst is decoded directly, no vote
/// can change it.
pub proof fn lemma_single_burst_payload(h: Seq<Burst>, p: Seq<u8>)
    requires
        h.len() == 1,
        is_consensus(payloads(h), p),
    ensures
        p == h[0].bytes@,
{
    lemma_consensus_singleton(h[0].bytes@);
    assert(payloads(h) =~= seq![h[0].bytes@]);
    lemma_consensus_unique(payloads(h), p, h[0].bytes@);
}

/// The length of the longest payload in the history.
fn longest_len(h: &Vec<Burst>) -> (m: usize)
    ensures
        m as int == max_len(payloads(h@)),
{
    let ghost hp = payloads(h@);
    let mut m: usize = 0;
    let mut j: usize = 0;
    while j < h.len()
        invariant
            hp == payloads(h@),
            j <= h@.len(),
            m as int == max_len(hp.take(j as int)),
        decreases h@.len() - j,
    {
        proof {
            assert(hp.take(j + 1).drop_last() =~= hp.take(j as int));
            assert(hp.take(j + 1).last() == hp[j as int]);
            assert(hp[j as int] == h@[j as int].bytes@);
        }
        let l = h[j].bytes.len();
        if l > m {
            m = l;
        }
        j += 1;
    }
    proof {
        assert(hp.take(h@.len() as int) =~= hp);
    }
    m
}

/// The per-position consensus byte: the vote of every bit at byte
/// position `i`, assembled into one byte.
///
/// With one or two voters the vote always returns the earliest
/// voter's bit, so the byte is the earliest covering payload's byte;
/// only a position covered by all three bursts takes the bytewise
/// three-way majority.
fn consensus_byte(h: &Vec<Burst>, i: usize) -> (r: u8)
    requires
        1 <= h@.len() <= 3,
        (i as int) < max_len(payloads(h@)),
    ensures
        forall|b: u8| b < 8 ==> #[trigger] bit_of(r, b) == vote(bits_at(payloads(h@), i as int, b)),
{
    let ghost hp = payloads(h@);
    proof {
        lemma_max_len_bounds(hp);
        assert(forall|j: int| 0 <= j < h@.len() ==> hp[j] == h@[j].bytes@);
    }
    if h.len() == 1 {
        let x = h[0].bytes[i];
        assert forall|b: u8| b < 8 implies #[trigger] bit_of(x, b) == vote(
            bits_at(hp, i as int, b),
        ) by {
            lemma_bits_at1(hp, i as int, b);
            lemma_vote1(bit_of(hp[0][i as int], b));
        }
        x
    } else if h.len() == 2 {
        let c0 = i < h[0].bytes.len();
        let c1 = i < h[1].bytes.len();
        let x = if c0 {
            h[0].bytes[i]
        } else {
            h[1].bytes[i]
        };
        assert forall|b: u8| b < 8 implies #[trigger] bit_of(x, b) == vote(
            bits_at(hp, i as int, b),
        ) by {
            lemma_bits_at2(hp, i as int, b);
            if c0 && c1 {
                assert(ballot(hp[0], i as int, b) + ballot(hp[1], i as int, b) =~= seq![
                    bit_of(hp[0][i as int], b),
                    bit_of(hp[1][i as int], b),
                ]);
                lemma_vote2(bit_of(hp[0][i as int], b), bit_of(hp[1][i as int], b));
            } else if c0 {
                assert(ballot(hp[0], i as int, b) + ballot(hp[1], i as int, b) =~= seq![
                    bit_of(hp[0][i as int], b),
                ]);
                lemma_vote1(bit_of(hp[0][i as int], b));
            } else {
                assert(c1);
                assert(ballot(hp[0], i as int, b) + ballot(hp[1], i as int, b) =~= seq![
                    bit_of(hp[1][i as int], b),
                ]);
                lemma_vote1(bit_of(hp[1][i as int], b));
            }
        }
        x
    } else {
        let c0 = i < h[0].bytes.len();
        let c1 = i < h[1].bytes.len();
        let c2 = i < h[2].bytes.len();
        assert(c0 || c1 || c2);
        if c0 && c1 && c2 {
            let x = h[0].bytes[i];
            let y = h[1].bytes[i];
            let z = h[2].bytes[i];
            let r = (x & y) | (x & z) | (y & z);
            assert forall|b: u8| b < 8 implies #[trigger] bit_of(r, b) == vote(
                bits_at(hp, i as int, b),
            ) by {
                lemma_bits_at3(hp, i as int, b);
                assert(ballot(hp[0], i as int, b) + ballot(hp[1], i as int, b) + ballot(
                    hp[2],
                    i as int,
                    b,
                ) =~= seq![
                    bit_of(hp[0][i as int], b),
                    bit_of(hp[1][i as int], b),
                    bit_of(hp[2][i as int], b),
                ]);
                lemma_vote3(
                    bit_of(hp[0][i as int], b),
                    bit_of(hp[1][i as int], b),
                    bit_of(hp[2][i as int], b),
                );
                lemma_maj3_bits(x, y, z);
            }
            r
        } else {
            let x = if c0 {
                h[0].bytes[i]
            } else if c1 {
                h[1].bytes[i]
            } else {
                h[2].bytes[i]
            };
            assert forall|b: u8| b < 8 implies #[trigger] bit_of(x, b) == vote(
                bits_at(hp, i as int, b),
            ) by {
                lemma_bits_at3(hp, i as int, b);
                let s0 = ballot(hp[0], i as int, b);
                let s1 = ballot(hp[1], i as int, b);
                let s2 = ballot(hp[2], i as int, b);
                if c0 && c1 {
                    assert(s0 + s1 + s2 =~= seq![
                        bit_of(hp[0][i as int], b),
                        bit_of(hp[1][i as int], b),
                    ]);
                    lemma_vote2(bit_of(hp[0][i as int], b), bit_of(hp[1][i as int], b));
                } else if c0 && c2 {
                    assert(s0 + s1 + s2 =~= seq![
                        bit_of(hp[0][i as int], b),
                        bit_of(hp[2][i as int], b),
                    ]);
                    lemma_vote2(bit_of(hp[0][i as int], b), bit_of(hp[2][i as int], b));
                } else if c1 && c2 {
                    assert(s0 + s1 + s2 =~= seq![
                        bit_of(hp[1][i as int], b),
                        bit_of(hp[2][i as int], b),
                    ]);
                    lemma_vote2(bit_of(hp[1][i as int], b), bit_of(hp[2][i as int], b));
                } else if c0 {
                    assert(s0 + s1 + s2 =~= seq![bit_of(hp[0][i as int], b)]);
                    lemma_vote1(bit_of(hp[0][i as int], b));
                } else if c1 {
                    assert(s0 + s1 + s2 =~= seq![bit_of(hp[1][i as int], b)]);
                    lemma_vote1(bit_of(hp[1][i as int], b));
                } else {
                    assert(s0 + s1 + s2 =~= seq![bit_of(hp[2][i as int], b)]);
                    lemma_vote1(bit_of(hp[2][i as int], b));
                }
            }
            x
        }
    }
}

/// Build the consensus payload of a burst history.
///
/// The result is as long as the longest burst; each bit is decided by
/// majority vote among the bursts that cover its position, ties going
/// to the earliest arrival.
pub fn consensus(h: &Vec<Burst>) -> (out: Vec<u8>)
    requires
        1 <= h@.len() <= 3,
    ensures
        is_consensus(payloads(h@), out@),
{
    let ghost hp = payloads(h@);
    let m = longest_len(h);
    let mut out: Vec<u8> = Vec::new();
    let mut i: usize = 0;
    while i < m
        invariant
            1 <= h@.len() <= 3,
            hp == payloads(h@),
            m as int == max_len(hp),
            i <= m,
            out@.len() == i,
            forall|k: int, b: u8|
                0 <= k < i && b < 8 ==> #[trigger] bit_of(out@[k], b) == vote(bits_at(hp, k, b)),
        decreases m - i,
    {
        let byte = consensus_byte(h, i);
        out.push(byte);
        i += 1;
    }
    out
}

} // verus!
