//! The fixed integer transform that turns raw per-voice pitch deltas into
//! total/contrary-motion components.
//!
//! For each adjacent pair of frames the elementwise delta `d` is multiplied
//! by the fixed 4x4 matrix
//! `[[1,1,1,1], [1,-1,-1,1], [1,-1,1,-1], [1,1,-1,-1]]`:
//! row 0 is the sum of all voice deltas ("total motion"), rows 1-3 are the
//! signed combinations expressing pairwise contrary motion.

use vstd::prelude::*;

verus! {

/// Magnitude bound on a frame component under which the transform cannot
/// overflow an `i32` (pitches are 0..=127, far below this).
pub const FRAME_BOUND: i32 = 0x200_0000;

/// The pitch delta of voice `j` between two frames.
pub open spec fn delta(a: Seq<i32>, b: Seq<i32>, j: int) -> int {
    b[j] - a[j]
}

/// Component `row` of the motion vector of the adjacent frame pair `(a, b)`:
/// the fixed matrix applied to the elementwise delta.
pub open spec fn motion_component(a: Seq<i32>, b: Seq<i32>, row: int) -> int {
    if row == 0 {
        delta(a, b, 0) + delta(a, b, 1) + delta(a, b, 2) + delta(a, b, 3)
    } else if row == 1 {
        delta(a, b, 0) - delta(a, b, 1) - delta(a, b, 2) + delta(a, b, 3)
    } else if row == 2 {
        delta(a, b, 0) - delta(a, b, 1) + delta(a, b, 2) - delta(a, b, 3)
    } else {
        delta(a, b, 0) + delta(a, b, 1) - delta(a, b, 2) - delta(a, b, 3)
    }
}

/// All four components of a frame are within `FRAME_BOUND` in magnitude.
pub open spec fn frame_ok(f: Seq<i32>) -> bool {
    forall|j: int| 0 <= j < 4 ==> -(FRAME_BOUND as int) <= #[trigger] f[j] <= FRAME_BOUND as int
}

proof fn lemma_prod_bound(x: int, y: int)
    requires
        -0x400_0000 <= x <= 0x400_0000,
        -7 <= y <= 7,
    ensures
        -0x1C00_0000 <= x * y <= 0x1C00_0000,
{
    assert(-0x1C00_0000 <= x * y <= 0x1C00_0000) by (nonlinear_arith)
        requires
            -0x400_0000 <= x <= 0x400_0000,
            -7 <= y <= 7,
    ;
}

/// Multiply the column vector `d` by the 4x4 matrix `t` (row by row).
pub fn matmul4x4(d: [i32; 4], t: [[i32; 4]; 4]) -> (r: [i32; 4])
    requires
        forall|j: int| 0 <= j < 4 ==> -0x400_0000 <= #[trigger] d@[j] <= 0x400_0000,
        forall|i: int, j: int| 0 <= i < 4 && 0 <= j < 4 ==> -7 <= #[trigger] t@[i]@[j] <= 7,
    ensures
        forall|i: int| 0 <= i < 4 ==> #[trigger] r@[i]
            == d@[0] * t@[i]@[0] + d@[1] * t@[i]@[1] + d@[2] * t@[i]@[2] + d@[3] * t@[i]@[3],
{
    proof {
        let dd = d@;
        let tt = t@;
        lemma_prod_bound(dd[0] as int, tt[0]@[0] as int);
        lemma_prod_bound(dd[1] as int, tt[0]@[1] as int);
        lemma_prod_bound(dd[2] as int, tt[0]@[2] as int);
        lemma_prod_bound(dd[3] as int, tt[0]@[3] as int);
        lemma_prod_bound(dd[0] as int, tt[1]@[0] as int);
        lemma_prod_bound(dd[1] as int, tt[1]@[1] as int);
        lemma_prod_bound(dd[2] as int, tt[1]@[2] as int);
        lemma_prod_bound(dd[3] as int, tt[1]@[3] as int);
        lemma_prod_bound(dd[0] as int, tt[2]@[0] as int);
        lemma_prod_bound(dd[1] as int, tt[2]@[1] as int);
        lemma_prod_bound(dd[2] as int, tt[2]@[2] as int);
        lemma_prod_bound(dd[3] as int, tt[2]@[3] as int);
        lemma_prod_bound(dd[0] as int, tt[3]@[0] as int);
        lemma_prod_bound(dd[1] as int, tt[3]@[1] as int);
        lemma_prod_bound(dd[2] as int, tt[3]@[2] as int);
        lemma_prod_bound(dd[3] as int, tt[3]@[3] as int);
    }
    [
        d[0] * t[0][0] + d[1] * t[0][1] + d[2] * t[0][2] + d[3] * t[0][3],
        d[0] * t[1][0] + d[1] * t[1][1] + d[2] * t[1][2] + d[3] * t[1][3],
        d[0] * t[2][0] + d[1] * t[2][1] + d[2] * t[2][2] + d[3] * t[2][3],
        d[0] * t[3][0] + d[1] * t[3][1] + d[2] * t[3][2] + d[3] * t[3][3],
    ]
}

/// Elementwise difference `b - a` of two frames.
pub fn matdif4x1(a: [i32; 4], b: [i32; 4]) -> (r: [i32; 4])
    requires
        frame_ok(a@),
        frame_ok(b@),
    ensures
        forall|j: int| 0 <= j < 4 ==> #[trigger] r@[j] == b@[j] - a@[j],
{
    [b[0] - a[0], b[1] - a[1], b[2] - a[2], b[3] - a[3]]
}

/// The motion vector of one adjacent frame pair.
pub fn transform(start: [i32; 4], end: [i32; 4]) -> (r: [i32; 4])
    requires
        frame_ok(start@),
        frame_ok(end@),
    ensures
        forall|row: int| 0 <= row < 4 ==> #[trigger] r@[row] == motion_component(start@, end@, row),
{
    let d = matdif4x1(start, end);
    let t: [[i32; 4]; 4] = [
        [1, 1, 1, 1],    // total motion
        [1, -1, -1, 1],  // x contrary
        [1, -1, 1, -1],  // y contrary
        [1, 1, -1, -1],  // z contrary
    ];
    let r = matmul4x4(d, t);
    proof {
        assert(r@[0] == motion_component(start@, end@, 0));
        assert(r@[1] == motion_component(start@, end@, 1));
        assert(r@[2] == motion_component(start@, end@, 2));
        assert(r@[3] == motion_component(start@, end@, 3));
    }
    r
}

/// Turn a frame sequence of length `N >= 1` into the sequence of `N - 1`
/// motion vectors of its adjacent pairs.
pub fn convert(voice_leadings: Vec<[i32; 4]>) -> (r: Vec<[i32; 4]>)
    requires
        voice_leadings@.len() >= 1,
        forall|i: int| 0 <= i < voice_leadings@.len() ==> frame_ok(#[trigger] voice_leadings@[i]@),
    ensures
        r@.len() == voice_leadings@.len() - 1,
        forall|i: int, row: int|
            0 <= i < r@.len() && 0 <= row < 4 ==> #[trigger] r@[i]@[row]
                == motion_component(voice_leadings@[i]@, voice_leadings@[i + 1]@, row),
{
    let mut out: Vec<[i32; 4]> = Vec::<[i32; 4]>::new();
    let n = voice_leadings.len();
    for i in 0..n - 1
        invariant
            n == voice_leadings@.len(),
            n >= 1,
            forall|k: int| 0 <= k < n ==> frame_ok(#[trigger] voice_leadings@[k]@),
            out@.len() == i,
            forall|k: int, row: int|
                0 <= k < i && 0 <= row < 4 ==> #[trigger] out@[k]@[row]
                    == motion_component(voice_leadings@[k]@, voice_leadings@[k + 1]@, row),
    {
        let cur = voice_leadings[i];
        let next = voice_leadings[i + 1];
        out.push(transform(cur, next));
    }
    out
}

/// Law: the total-motion component (row 0) of every motion vector is the sum
/// of the four per-voice deltas of its frame pair.
pub proof fn lemma_total_motion_is_delta_sum(a: Seq<i32>, b: Seq<i32>)
    ensures
        motion_component(a, b, 0) == delta(a, b, 0) + delta(a, b, 1) + delta(a, b, 2) + delta(a, b, 3),
{
}

/// Law: a motion vector depends only on its own adjacent frame pair; two
/// frame sequences that agree at positions `i` and `i + 1` yield the same
/// motion vector at `i`, whatever stands elsewhere in them.
pub proof fn lemma_motion_depends_only_on_adjacent_pair(
    s1: Seq<[i32; 4]>,
    s2: Seq<[i32; 4]>,
    i: int,
)
    requires
        0 <= i,
        i + 1 < s1.len(),
        i + 1 < s2.len(),
        s1[i] == s2[i],
        s1[i + 1] == s2[i + 1],
    ensures
        forall|row: int| 0 <= row < 4 ==>
            #[trigger] motion_component(s1[i]@, s1[i + 1]@, row)
                == motion_component(s2[i]@, s2[i + 1]@, row),
{
}

} // verus!
