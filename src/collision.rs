//! Classifying collision-start pairs by the roles of the entities in them.
use vstd::prelude::*;

verus! {

/// Entity `e` is one side of the pair.
pub open spec fn involves(p: (u64, u64), e: u64) -> bool {
    p.0 == e || p.1 == e
}

/// Number of pairs that put the stone in the hole sensor.
pub open spec fn hole_hits(pairs: Seq<(u64, u64)>, stone: u64, hole: u64) -> nat
    decreases pairs.len(),
{
    if pairs.len() == 0 {
        0
    } else {
        hole_hits(pairs.drop_last(), stone, hole) + if involves(pairs.last(), stone) && involves(
            pairs.last(),
            hole,
        ) {
            1nat
        } else {
            0nat
        }
    }
}

/// Indices of the powerups `ps` that are a side of pair `p`, in order.
pub open spec fn powerups_touched(p: (u64, u64), ps: Seq<u64>) -> Seq<usize>
    decreases ps.len(),
{
    if ps.len() == 0 {
        seq![]
    } else {
        let rest = powerups_touched(p, ps.drop_last());
        if involves(p, ps.last()) {
            rest.push((ps.len() - 1) as usize)
        } else {
            rest
        }
    }
}

/// For each pair that involves the stone, the powerups it touches.
pub open spec fn powerup_hits(pairs: Seq<(u64, u64)>, stone: u64, ps: Seq<u64>) -> Seq<usize>
    decreases pairs.len(),
{
    if pairs.len() == 0 {
        seq![]
    } else {
        powerup_hits(pairs.drop_last(), stone, ps) + if involves(pairs.last(), stone) {
            powerups_touched(pairs.last(), ps)
        } else {
            seq![]
        }
    }
}

/// How many of the collision-start pairs put the stone into the hole sensor:
/// one stone-in-hole event for each.
pub fn detect_collisions(pairs: &Vec<(u64, u64)>, stone: u64, hole: u64) -> (n: usize)
    ensures
        n == hole_hits(pairs@, stone, hole),
{
    let mut n: usize = 0;
    let mut k: usize = 0;
    while k < pairs.len()
        invariant
            k <= pairs@.len(),
            n <= k,
            n == hole_hits(pairs@.take(k as int), stone, hole),
        decreases pairs@.len() - k,
    {
        let (a, b) = pairs[k];
        proof {
            assert(pairs@.take(k as int + 1).drop_last() =~= pairs@.take(k as int));
        }
        if (a == stone || b == stone) && (a == hole || b == hole) {
            n = n + 1;
        }
        k = k + 1;
    }
    assert(pairs@.take(pairs@.len() as int) =~= pairs@);
    n
}

/// The powerups (by index into `powerups`) hit by the stone: for each
/// collision-start pair involving the stone, every powerup on its other side.
pub fn detect_powerup_collisions(pairs: &Vec<(u64, u64)>, stone: u64, powerups: &Vec<u64>) -> (hits: Vec<usize>)
    ensures
        hits@ == powerup_hits(pairs@, stone, powerups@),
{
    let mut hits: Vec<usize> = Vec::new();
    let mut k: usize = 0;
    while k < pairs.len()
        invariant
            k <= pairs@.len(),
            hits@ == powerup_hits(pairs@.take(k as int), stone, powerups@),
        decreases pairs@.len() - k,
    {
        let p = pairs[k];
        proof {
            assert(pairs@.take(k as int + 1).drop_last() =~= pairs@.take(k as int));
        }
        let ghost before = hits@;
        if p.0 == stone || p.1 == stone {
            let mut i: usize = 0;
            while i < powerups.len()
                invariant
                    i <= powerups@.len(),
                    hits@ == before + powerups_touched(p, powerups@.take(i as int)),
                decreases powerups@.len() - i,
            {
                proof {
                    assert(powerups@.take(i as int + 1).drop_last() =~= powerups@.take(i as int));
                }
                let e = powerups[i];
                if p.0 == e || p.1 == e {
                    hits.push(i);
                    proof {
                        assert(hits@ =~= before + powerups_touched(p, powerups@.take(i as int + 1)));
                    }
                }
                i = i + 1;
            }
            assert(powerups@.take(powerups@.len() as int) =~= powerups@);
        } else {
            assert(hits@ =~= before + seq![]);
        }
        k = k + 1;
    }
    assert(pairs@.take(pairs@.len() as int) =~= pairs@);
    hits
}

} // verus!
