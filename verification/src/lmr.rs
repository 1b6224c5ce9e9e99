//! The late-move-reduction schedule.
//!
//! A late quiet move at `depth` plies to go, `move_count` moves into the list,
//! is reduced by the whole part of `0.75 + ln(depth) * ln(move_count) / 2.25`
//! plies: slowly (logarithmically) more for deeper nodes and later moves. The
//! schedule is kept as a table of integers: for each depth, the move counts at
//! which the reduction reaches 1, 2, ..., 15 plies (256 where it never does
//! below 256 moves). `extras/lmr_steps.py` prints it from the formula; it is
//! cut into blocks of 16 depths.

use vstd::prelude::*;

verus! {

/// Reduction steps per depth.
pub const STEPS: usize = 15;

/// The move count at which the reduction at `depth` reaches `k + 1` plies.
pub closed spec fn step(depth: int, k: int) -> int {
    let i = (depth % 16) * 15 + k;
    let block = depth / 16;
    if block == 0 {
        LMR_STEPS_0@[i] as int
    } else if block == 1 {
        LMR_STEPS_1@[i] as int
    } else if block == 2 {
        LMR_STEPS_2@[i] as int
    } else if block == 3 {
        LMR_STEPS_3@[i] as int
    } else if block == 4 {
        LMR_STEPS_4@[i] as int
    } else if block == 5 {
        LMR_STEPS_5@[i] as int
    } else if block == 6 {
        LMR_STEPS_6@[i] as int
    } else if block == 7 {
        LMR_STEPS_7@[i] as int
    } else if block == 8 {
        LMR_STEPS_8@[i] as int
    } else if block == 9 {
        LMR_STEPS_9@[i] as int
    } else if block == 10 {
        LMR_STEPS_10@[i] as int
    } else if block == 11 {
        LMR_STEPS_11@[i] as int
    } else if block == 12 {
        LMR_STEPS_12@[i] as int
    } else if block == 13 {
        LMR_STEPS_13@[i] as int
    } else if block == 14 {
        LMR_STEPS_14@[i] as int
    } else {
        LMR_STEPS_15@[i] as int
    }
}

fn step_of(depth: u8, k: usize) -> (r: u16)
    requires
        k < STEPS,
    ensures
        r == step(depth as int, k as int),
{
    let i: usize = (depth as usize % 16) * STEPS + k;
    match depth / 16 {
        0 => LMR_STEPS_0[i],
        1 => LMR_STEPS_1[i],
        2 => LMR_STEPS_2[i],
        3 => LMR_STEPS_3[i],
        4 => LMR_STEPS_4[i],
        5 => LMR_STEPS_5[i],
        6 => LMR_STEPS_6[i],
        7 => LMR_STEPS_7[i],
        8 => LMR_STEPS_8[i],
        9 => LMR_STEPS_9[i],
        10 => LMR_STEPS_10[i],
        11 => LMR_STEPS_11[i],
        12 => LMR_STEPS_12[i],
        13 => LMR_STEPS_13[i],
        14 => LMR_STEPS_14[i],
        _ => LMR_STEPS_15[i],
    }
}

/// The number of steps of the schedule that `count` has reached at `depth`,
/// counting only the first `k` steps.
pub closed spec fn steps_reached(depth: int, count: int, k: int) -> int
    decreases k,
{
    if k <= 0 {
        0
    } else {
        steps_reached(depth, count, k - 1) + if step(depth, k - 1) <= count {
            1int
        } else {
            0
        }
    }
}

/// The schedule's reduction at `depth` for the `move_count`-th move; counts
/// from 256 on read as 255.
pub closed spec fn spec_reduction(depth: int, move_count: int) -> int {
    steps_reached(depth, if move_count < 256 { move_count } else { 255 }, STEPS as int)
}

/// The reduction of the schedule for a late quiet move.
pub fn reduction_of(depth: u8, move_count: usize) -> (r: u8)
    ensures
        r == spec_reduction(depth as int, move_count as int),
{
    let count: u16 = if move_count < 256 {
        move_count as u16
    } else {
        255
    };
    let mut r: u8 = 0;
    let mut k: usize = 0;
    while k < STEPS
        invariant
            k <= STEPS,
            count == (if move_count < 256 { move_count as int } else { 255 }),
            r == steps_reached(depth as int, count as int, k as int),
            r <= k,
        decreases STEPS - k,
    {
        if step_of(depth, k) <= count {
            r = r + 1;
        }
        k = k + 1;
    }
    r
}

pub const LMR_STEPS_0: [u16; 240] = [
    256, 256, 256, 256, 256, 256, 256, 256, 256, 256, 256, 256, 256, 256, 256,  // depth 0
    256, 256, 256, 256, 256, 256, 256, 256, 256, 256, 256, 256, 256, 256, 256,  // depth 1
    3, 58, 256, 256, 256, 256, 256, 256, 256, 256, 256, 256, 256, 256, 256,  // depth 2
    2, 13, 101, 256, 256, 256, 256, 256, 256, 256, 256, 256, 256, 256, 256,  // depth 3
    2, 8, 39, 196, 256, 256, 256, 256, 256, 256, 256, 256, 256, 256, 256,  // depth 4
    2, 6, 24, 95, 256, 256, 256, 256, 256, 256, 256, 256, 256, 256, 256,  // depth 5
    2, 5, 17, 60, 208, 256, 256, 256, 256, 256, 256, 256, 256, 256, 256,  // depth 6
    2, 5, 14, 43, 137, 256, 256, 256, 256, 256, 256, 256, 256, 256, 256,  // depth 7
    2, 4, 12, 34, 100, 256, 256, 256, 256, 256, 256, 256, 256, 256, 256,  // depth 8
    2, 4, 11, 28, 78, 217, 256, 256, 256, 256, 256, 256, 256, 256, 256,  // depth 9
    2, 4, 10, 24, 64, 170, 256, 256, 256, 256, 256, 256, 256, 256, 256,  // depth 10
    2, 4, 9, 22, 54, 138, 256, 256, 256, 256, 256, 256, 256, 256, 256,  // depth 11
    2, 4, 8, 19, 47, 117, 256, 256, 256, 256, 256, 256, 256, 256, 256,  // depth 12
    2, 3, 8, 18, 42, 101, 241, 256, 256, 256, 256, 256, 256, 256, 256,  // depth 13
    2, 3, 7, 16, 38, 88, 207, 256, 256, 256, 256, 256, 256, 256, 256,  // depth 14
    2, 3, 7, 15, 35, 79, 180, 256, 256, 256, 256, 256, 256, 256, 256,  // depth 15
];

pub const LMR_STEPS_1: [u16; 240] = [
    2, 3, 7, 14, 32, 71, 160, 256, 256, 256, 256, 256, 256, 256, 256,  // depth 16
    2, 3, 6, 14, 30, 65, 144, 256, 256, 256, 256, 256, 256, 256, 256,  // depth 17
    2, 3, 6, 13, 28, 60, 130, 256, 256, 256, 256, 256, 256, 256, 256,  // depth 18
    2, 3, 6, 12, 26, 56, 119, 255, 256, 256, 256, 256, 256, 256, 256,  // depth 19
    2, 3, 6, 12, 25, 52, 110, 232, 256, 256, 256, 256, 256, 256, 256,  // depth 20
    2, 3, 6, 12, 24, 49, 102, 213, 256, 256, 256, 256, 256, 256, 256,  // depth 21
    2, 3, 6, 11, 23, 46, 95, 196, 256, 256, 256, 256, 256, 256, 256,  // depth 22
    2, 3, 6, 11, 22, 44, 89, 182, 256, 256, 256, 256, 256, 256, 256,  // depth 23
    2, 3, 5, 10, 21, 42, 84, 170, 256, 256, 256, 256, 256, 256, 256,  // depth 24
    2, 3, 5, 10, 20, 40, 79, 159, 256, 256, 256, 256, 256, 256, 256,  // depth 25
    2, 3, 5, 10, 19, 38, 75, 150, 256, 256, 256, 256, 256, 256, 256,  // depth 26
    2, 3, 5, 10, 19, 37, 72, 142, 256, 256, 256, 256, 256, 256, 256,  // depth 27
    2, 3, 5, 9, 18, 35, 69, 134, 256, 256, 256, 256, 256, 256, 256,  // depth 28
    2, 3, 5, 9, 18, 34, 66, 128, 248, 256, 256, 256, 256, 256, 256,  // depth 29
    2, 3, 5, 9, 17, 33, 63, 122, 235, 256, 256, 256, 256, 256, 256,  // depth 30
    2, 3, 5, 9, 17, 32, 61, 116, 223, 256, 256, 256, 256, 256, 256,  // depth 31
];

pub const LMR_STEPS_2: [u16; 240] = [
    2, 3, 5, 9, 16, 31, 58, 111, 212, 256, 256, 256, 256, 256, 256,  // depth 32
    2, 3, 5, 9, 16, 30, 56, 107, 203, 256, 256, 256, 256, 256, 256,  // depth 33
    2, 3, 5, 8, 16, 29, 54, 103, 194, 256, 256, 256, 256, 256, 256,  // depth 34
    2, 3, 5, 8, 15, 28, 53, 99, 186, 256, 256, 256, 256, 256, 256,  // depth 35
    2, 3, 5, 8, 15, 28, 51, 95, 178, 256, 256, 256, 256, 256, 256,  // depth 36
    2, 3, 5, 8, 15, 27, 50, 92, 171, 256, 256, 256, 256, 256, 256,  // depth 37
    2, 3, 5, 8, 14, 26, 48, 89, 165, 256, 256, 256, 256, 256, 256,  // depth 38
    2, 3, 4, 8, 14, 26, 47, 86, 159, 256, 256, 256, 256, 256, 256,  // depth 39
    2, 3, 4, 8, 14, 25, 46, 84, 154, 256, 256, 256, 256, 256, 256,  // depth 40
    2, 3, 4, 8, 14, 25, 45, 81, 149, 256, 256, 256, 256, 256, 256,  // depth 41
    2, 3, 4, 8, 13, 24, 44, 79, 144, 256, 256, 256, 256, 256, 256,  // depth 42
    2, 3, 4, 7, 13, 24, 43, 77, 140, 254, 256, 256, 256, 256, 256,  // depth 43
    2, 3, 4, 7, 13, 23, 42, 75, 136, 245, 256, 256, 256, 256, 256,  // depth 44
    2, 3, 4, 7, 13, 23, 41, 73, 132, 237, 256, 256, 256, 256, 256,  // depth 45
    2, 3, 4, 7, 13, 22, 40, 71, 128, 230, 256, 256, 256, 256, 256,  // depth 46
    2, 3, 4, 7, 12, 22, 39, 70, 125, 223, 256, 256, 256, 256, 256,  // depth 47
];

pub const LMR_STEPS_3: [u16; 240] = [
    2, 3, 4, 7, 12, 22, 38, 68, 121, 217, 256, 256, 256, 256, 256,  // depth 48
    2, 3, 4, 7, 12, 21, 38, 67, 118, 211, 256, 256, 256, 256, 256,  // depth 49
    2, 3, 4, 7, 12, 21, 37, 65, 116, 205, 256, 256, 256, 256, 256,  // depth 50
    2, 3, 4, 7, 12, 21, 36, 64, 113, 200, 256, 256, 256, 256, 256,  // depth 51
    2, 3, 4, 7, 12, 20, 36, 63, 110, 194, 256, 256, 256, 256, 256,  // depth 52
    2, 3, 4, 7, 12, 20, 35, 61, 108, 190, 256, 256, 256, 256, 256,  // depth 53
    2, 3, 4, 7, 11, 20, 34, 60, 105, 185, 256, 256, 256, 256, 256,  // depth 54
    2, 3, 4, 7, 11, 20, 34, 59, 103, 181, 256, 256, 256, 256, 256,  // depth 55
    2, 3, 4, 7, 11, 19, 33, 58, 101, 176, 256, 256, 256, 256, 256,  // depth 56
    2, 3, 4, 7, 11, 19, 33, 57, 99, 173, 256, 256, 256, 256, 256,  // depth 57
    2, 2, 4, 7, 11, 19, 32, 56, 97, 169, 256, 256, 256, 256, 256,  // depth 58
    2, 2, 4, 7, 11, 19, 32, 55, 95, 165, 256, 256, 256, 256, 256,  // depth 59
    2, 2, 4, 6, 11, 18, 32, 54, 94, 162, 256, 256, 256, 256, 256,  // depth 60
    2, 2, 4, 6, 11, 18, 31, 53, 92, 159, 256, 256, 256, 256, 256,  // depth 61
    2, 2, 4, 6, 11, 18, 31, 53, 90, 155, 256, 256, 256, 256, 256,  // depth 62
    2, 2, 4, 6, 11, 18, 30, 52, 89, 152, 256, 256, 256, 256, 256,  // depth 63
];

pub const LMR_STEPS_4: [u16; 240] = [
    2, 2, 4, 6, 10, 18, 30, 51, 87, 150, 256, 256, 256, 256, 256,  // depth 64
    2, 2, 4, 6, 10, 17, 30, 50, 86, 147, 251, 256, 256, 256, 256,  // depth 65
    2, 2, 4, 6, 10, 17, 29, 50, 84, 144, 246, 256, 256, 256, 256,  // depth 66
    2, 2, 4, 6, 10, 17, 29, 49, 83, 142, 242, 256, 256, 256, 256,  // depth 67
    2, 2, 4, 6, 10, 17, 29, 48, 82, 139, 237, 256, 256, 256, 256,  // depth 68
    2, 2, 4, 6, 10, 17, 28, 48, 81, 137, 233, 256, 256, 256, 256,  // depth 69
    2, 2, 4, 6, 10, 17, 28, 47, 79, 135, 228, 256, 256, 256, 256,  // depth 70
    2, 2, 4, 6, 10, 16, 28, 46, 78, 132, 224, 256, 256, 256, 256,  // depth 71
    2, 2, 4, 6, 10, 16, 27, 46, 77, 130, 220, 256, 256, 256, 256,  // depth 72
    2, 2, 4, 6, 10, 16, 27, 45, 76, 128, 217, 256, 256, 256, 256,  // depth 73
    2, 2, 4, 6, 10, 16, 27, 45, 75, 126, 213, 256, 256, 256, 256,  // depth 74
    2, 2, 4, 6, 10, 16, 26, 44, 74, 125, 209, 256, 256, 256, 256,  // depth 75
    2, 2, 4, 6, 10, 16, 26, 44, 73, 123, 206, 256, 256, 256, 256,  // depth 76
    2, 2, 4, 6, 10, 16, 26, 43, 72, 121, 203, 256, 256, 256, 256,  // depth 77
    2, 2, 4, 6, 9, 16, 26, 43, 71, 119, 200, 256, 256, 256, 256,  // depth 78
    2, 2, 4, 6, 9, 15, 25, 42, 70, 118, 197, 256, 256, 256, 256,  // depth 79
];

pub const LMR_STEPS_5: [u16; 240] = [
    2, 2, 4, 6, 9, 15, 25, 42, 70, 116, 194, 256, 256, 256, 256,  // depth 80
    2, 2, 4, 6, 9, 15, 25, 41, 69, 114, 191, 256, 256, 256, 256,  // depth 81
    2, 2, 4, 6, 9, 15, 25, 41, 68, 113, 188, 256, 256, 256, 256,  // depth 82
    2, 2, 4, 6, 9, 15, 25, 41, 67, 112, 185, 256, 256, 256, 256,  // depth 83
    2, 2, 4, 6, 9, 15, 24, 40, 66, 110, 183, 256, 256, 256, 256,  // depth 84
    2, 2, 4, 6, 9, 15, 24, 40, 66, 109, 180, 256, 256, 256, 256,  // depth 85
    2, 2, 4, 6, 9, 15, 24, 39, 65, 107, 178, 256, 256, 256, 256,  // depth 86
    2, 2, 4, 6, 9, 15, 24, 39, 64, 106, 175, 256, 256, 256, 256,  // depth 87
    2, 2, 4, 6, 9, 14, 24, 39, 64, 105, 173, 256, 256, 256, 256,  // depth 88
    2, 2, 4, 6, 9, 14, 23, 38, 63, 104, 171, 256, 256, 256, 256,  // depth 89
    2, 2, 4, 6, 9, 14, 23, 38, 62, 103, 169, 256, 256, 256, 256,  // depth 90
    2, 2, 4, 6, 9, 14, 23, 38, 62, 101, 167, 256, 256, 256, 256,  // depth 91
    2, 2, 4, 6, 9, 14, 23, 37, 61, 100, 165, 256, 256, 256, 256,  // depth 92
    2, 2, 4, 6, 9, 14, 23, 37, 61, 99, 163, 256, 256, 256, 256,  // depth 93
    2, 2, 4, 6, 9, 14, 23, 37, 60, 98, 161, 256, 256, 256, 256,  // depth 94
    2, 2, 4, 5, 9, 14, 22, 36, 59, 97, 159, 256, 256, 256, 256,  // depth 95
];

pub const LMR_STEPS_6: [u16; 240] = [
    2, 2, 4, 5, 9, 14, 22, 36, 59, 96, 157, 256, 256, 256, 256,  // depth 96
    2, 2, 4, 5, 9, 14, 22, 36, 58, 95, 155, 253, 256, 256, 256,  // depth 97
    2, 2, 4, 5, 9, 14, 22, 36, 58, 94, 153, 250, 256, 256, 256,  // depth 98
    2, 2, 4, 5, 9, 14, 22, 35, 57, 93, 152, 247, 256, 256, 256,  // depth 99
    2, 2, 4, 5, 8, 14, 22, 35, 57, 92, 150, 244, 256, 256, 256,  // depth 100
    2, 2, 3, 5, 8, 13, 22, 35, 56, 91, 148, 241, 256, 256, 256,  // depth 101
    2, 2, 3, 5, 8, 13, 21, 35, 56, 91, 147, 239, 256, 256, 256,  // depth 102
    2, 2, 3, 5, 8, 13, 21, 34, 55, 90, 145, 236, 256, 256, 256,  // depth 103
    2, 2, 3, 5, 8, 13, 21, 34, 55, 89, 144, 233, 256, 256, 256,  // depth 104
    2, 2, 3, 5, 8, 13, 21, 34, 54, 88, 142, 231, 256, 256, 256,  // depth 105
    2, 2, 3, 5, 8, 13, 21, 34, 54, 87, 141, 228, 256, 256, 256,  // depth 106
    2, 2, 3, 5, 8, 13, 21, 33, 54, 86, 140, 226, 256, 256, 256,  // depth 107
    2, 2, 3, 5, 8, 13, 21, 33, 53, 86, 138, 223, 256, 256, 256,  // depth 108
    2, 2, 3, 5, 8, 13, 21, 33, 53, 85, 137, 221, 256, 256, 256,  // depth 109
    2, 2, 3, 5, 8, 13, 20, 33, 52, 84, 136, 219, 256, 256, 256,  // depth 110
    2, 2, 3, 5, 8, 13, 20, 32, 52, 84, 134, 216, 256, 256, 256,  // depth 111
];

pub const LMR_STEPS_7: [u16; 240] = [
    2, 2, 3, 5, 8, 13, 20, 32, 52, 83, 133, 214, 256, 256, 256,  // depth 112
    2, 2, 3, 5, 8, 13, 20, 32, 51, 82, 132, 212, 256, 256, 256,  // depth 113
    2, 2, 3, 5, 8, 13, 20, 32, 51, 81, 131, 210, 256, 256, 256,  // depth 114
    2, 2, 3, 5, 8, 13, 20, 32, 51, 81, 130, 208, 256, 256, 256,  // depth 115
    2, 2, 3, 5, 8, 13, 20, 31, 50, 80, 128, 206, 256, 256, 256,  // depth 116
    2, 2, 3, 5, 8, 12, 20, 31, 50, 80, 127, 204, 256, 256, 256,  // depth 117
    2, 2, 3, 5, 8, 12, 20, 31, 49, 79, 126, 202, 256, 256, 256,  // depth 118
    2, 2, 3, 5, 8, 12, 19, 31, 49, 78, 125, 200, 256, 256, 256,  // depth 119
    2, 2, 3, 5, 8, 12, 19, 31, 49, 78, 124, 198, 256, 256, 256,  // depth 120
    2, 2, 3, 5, 8, 12, 19, 31, 48, 77, 123, 196, 256, 256, 256,  // depth 121
    2, 2, 3, 5, 8, 12, 19, 30, 48, 77, 122, 195, 256, 256, 256,  // depth 122
    2, 2, 3, 5, 8, 12, 19, 30, 48, 76, 121, 193, 256, 256, 256,  // depth 123
    2, 2, 3, 5, 8, 12, 19, 30, 48, 76, 120, 191, 256, 256, 256,  // depth 124
    2, 2, 3, 5, 8, 12, 19, 30, 47, 75, 119, 190, 256, 256, 256,  // depth 125
    2, 2, 3, 5, 8, 12, 19, 30, 47, 74, 118, 188, 256, 256, 256,  // depth 126
    2, 2, 3, 5, 8, 12, 19, 30, 47, 74, 117, 186, 256, 256, 256,  // depth 127
];

pub const LMR_STEPS_8: [u16; 240] = [
    2, 2, 3, 5, 8, 12, 19, 29, 46, 73, 116, 185, 256, 256, 256,  // depth 128
    2, 2, 3, 5, 8, 12, 19, 29, 46, 73, 116, 183, 256, 256, 256,  // depth 129
    2, 2, 3, 5, 8, 12, 18, 29, 46, 72, 115, 182, 256, 256, 256,  // depth 130
    2, 2, 3, 5, 8, 12, 18, 29, 46, 72, 114, 180, 256, 256, 256,  // depth 131
    2, 2, 3, 5, 8, 12, 18, 29, 45, 71, 113, 179, 256, 256, 256,  // depth 132
    2, 2, 3, 5, 8, 12, 18, 29, 45, 71, 112, 177, 256, 256, 256,  // depth 133
    2, 2, 3, 5, 8, 12, 18, 28, 45, 71, 111, 176, 256, 256, 256,  // depth 134
    2, 2, 3, 5, 8, 12, 18, 28, 45, 70, 111, 175, 256, 256, 256,  // depth 135
    2, 2, 3, 5, 8, 12, 18, 28, 44, 70, 110, 173, 256, 256, 256,  // depth 136
    2, 2, 3, 5, 7, 12, 18, 28, 44, 69, 109, 172, 256, 256, 256,  // depth 137
    2, 2, 3, 5, 7, 11, 18, 28, 44, 69, 108, 171, 256, 256, 256,  // depth 138
    2, 2, 3, 5, 7, 11, 18, 28, 44, 68, 108, 169, 256, 256, 256,  // depth 139
    2, 2, 3, 5, 7, 11, 18, 28, 43, 68, 107, 168, 256, 256, 256,  // depth 140
    2, 2, 3, 5, 7, 11, 18, 28, 43, 68, 106, 167, 256, 256, 256,  // depth 141
    2, 2, 3, 5, 7, 11, 18, 27, 43, 67, 105, 166, 256, 256, 256,  // depth 142
    2, 2, 3, 5, 7, 11, 18, 27, 43, 67, 105, 165, 256, 256, 256,  // depth 143
];

pub const LMR_STEPS_9: [u16; 240] = [
    2, 2, 3, 5, 7, 11, 17, 27, 42, 66, 104, 163, 256, 256, 256,  // depth 144
    2, 2, 3, 5, 7, 11, 17, 27, 42, 66, 103, 162, 255, 256, 256,  // depth 145
    2, 2, 3, 5, 7, 11, 17, 27, 42, 66, 103, 161, 253, 256, 256,  // depth 146
    2, 2, 3, 5, 7, 11, 17, 27, 42, 65, 102, 160, 251, 256, 256,  // depth 147
    2, 2, 3, 5, 7, 11, 17, 27, 42, 65, 101, 159, 249, 256, 256,  // depth 148
    2, 2, 3, 5, 7, 11, 17, 27, 41, 65, 101, 158, 247, 256, 256,  // depth 149
    2, 2, 3, 5, 7, 11, 17, 26, 41, 64, 100, 157, 245, 256, 256,  // depth 150
    2, 2, 3, 5, 7, 11, 17, 26, 41, 64, 100, 156, 244, 256, 256,  // depth 151
    2, 2, 3, 5, 7, 11, 17, 26, 41, 63, 99, 155, 242, 256, 256,  // depth 152
    2, 2, 3, 5, 7, 11, 17, 26, 41, 63, 98, 154, 240, 256, 256,  // depth 153
    2, 2, 3, 5, 7, 11, 17, 26, 40, 63, 98, 153, 238, 256, 256,  // depth 154
    2, 2, 3, 5, 7, 11, 17, 26, 40, 62, 97, 152, 237, 256, 256,  // depth 155
    2, 2, 3, 5, 7, 11, 17, 26, 40, 62, 97, 151, 235, 256, 256,  // depth 156
    2, 2, 3, 5, 7, 11, 17, 26, 40, 62, 96, 150, 234, 256, 256,  // depth 157
    2, 2, 3, 5, 7, 11, 17, 26, 40, 62, 96, 149, 232, 256, 256,  // depth 158
    2, 2, 3, 5, 7, 11, 17, 25, 39, 61, 95, 148, 230, 256, 256,  // depth 159
];

pub const LMR_STEPS_10: [u16; 240] = [
    2, 2, 3, 5, 7, 11, 16, 25, 39, 61, 95, 147, 229, 256, 256,  // depth 160
    2, 2, 3, 5, 7, 11, 16, 25, 39, 61, 94, 146, 227, 256, 256,  // depth 161
    2, 2, 3, 5, 7, 11, 16, 25, 39, 60, 94, 145, 226, 256, 256,  // depth 162
    2, 2, 3, 5, 7, 11, 16, 25, 39, 60, 93, 144, 224, 256, 256,  // depth 163
    2, 2, 3, 5, 7, 11, 16, 25, 39, 60, 93, 144, 223, 256, 256,  // depth 164
    2, 2, 3, 5, 7, 11, 16, 25, 38, 59, 92, 143, 221, 256, 256,  // depth 165
    2, 2, 3, 5, 7, 11, 16, 25, 38, 59, 92, 142, 220, 256, 256,  // depth 166
    2, 2, 3, 5, 7, 11, 16, 25, 38, 59, 91, 141, 219, 256, 256,  // depth 167
    2, 2, 3, 5, 7, 11, 16, 25, 38, 59, 91, 140, 217, 256, 256,  // depth 168
    2, 2, 3, 5, 7, 11, 16, 25, 38, 58, 90, 139, 216, 256, 256,  // depth 169
    2, 2, 3, 5, 7, 10, 16, 24, 38, 58, 90, 139, 215, 256, 256,  // depth 170
    2, 2, 3, 5, 7, 10, 16, 24, 37, 58, 89, 138, 213, 256, 256,  // depth 171
    2, 2, 3, 5, 7, 10, 16, 24, 37, 58, 89, 137, 212, 256, 256,  // depth 172
    2, 2, 3, 5, 7, 10, 16, 24, 37, 57, 88, 136, 211, 256, 256,  // depth 173
    2, 2, 3, 5, 7, 10, 16, 24, 37, 57, 88, 136, 210, 256, 256,  // depth 174
    2, 2, 3, 5, 7, 10, 16, 24, 37, 57, 87, 135, 208, 256, 256,  // depth 175
];

pub const LMR_STEPS_11: [u16; 240] = [
    2, 2, 3, 5, 7, 10, 16, 24, 37, 56, 87, 134, 207, 256, 256,  // depth 176
    2, 2, 3, 5, 7, 10, 16, 24, 37, 56, 87, 133, 206, 256, 256,  // depth 177
    2, 2, 3, 5, 7, 10, 16, 24, 36, 56, 86, 133, 205, 256, 256,  // depth 178
    2, 2, 3, 5, 7, 10, 16, 24, 36, 56, 86, 132, 204, 256, 256,  // depth 179
    2, 2, 3, 5, 7, 10, 15, 24, 36, 56, 85, 131, 202, 256, 256,  // depth 180
    2, 2, 3, 5, 7, 10, 15, 24, 36, 55, 85, 131, 201, 256, 256,  // depth 181
    2, 2, 3, 5, 7, 10, 15, 23, 36, 55, 85, 130, 200, 256, 256,  // depth 182
    2, 2, 3, 5, 7, 10, 15, 23, 36, 55, 84, 129, 199, 256, 256,  // depth 183
    2, 2, 3, 5, 7, 10, 15, 23, 36, 55, 84, 129, 198, 256, 256,  // depth 184
    2, 2, 3, 5, 7, 10, 15, 23, 36, 54, 83, 128, 197, 256, 256,  // depth 185
    2, 2, 3, 5, 7, 10, 15, 23, 35, 54, 83, 127, 196, 256, 256,  // depth 186
    2, 2, 3, 5, 7, 10, 15, 23, 35, 54, 83, 127, 195, 256, 256,  // depth 187
    2, 2, 3, 5, 7, 10, 15, 23, 35, 54, 82, 126, 194, 256, 256,  // depth 188
    2, 2, 3, 5, 7, 10, 15, 23, 35, 54, 82, 126, 193, 256, 256,  // depth 189
    2, 2, 3, 5, 7, 10, 15, 23, 35, 53, 82, 125, 192, 256, 256,  // depth 190
    2, 2, 3, 5, 7, 10, 15, 23, 35, 53, 81, 124, 191, 256, 256,  // depth 191
];

pub const LMR_STEPS_12: [u16; 240] = [
    2, 2, 3, 5, 7, 10, 15, 23, 35, 53, 81, 124, 190, 256, 256,  // depth 192
    2, 2, 3, 5, 7, 10, 15, 23, 35, 53, 81, 123, 189, 256, 256,  // depth 193
    2, 2, 3, 5, 7, 10, 15, 23, 34, 52, 80, 123, 188, 256, 256,  // depth 194
    2, 2, 3, 5, 7, 10, 15, 23, 34, 52, 80, 122, 187, 256, 256,  // depth 195
    2, 2, 3, 4, 7, 10, 15, 22, 34, 52, 80, 121, 186, 256, 256,  // depth 196
    2, 2, 3, 4, 7, 10, 15, 22, 34, 52, 79, 121, 185, 256, 256,  // depth 197
    2, 2, 3, 4, 7, 10, 15, 22, 34, 52, 79, 120, 184, 256, 256,  // depth 198
    2, 2, 3, 4, 7, 10, 15, 22, 34, 52, 79, 120, 183, 256, 256,  // depth 199
    2, 2, 3, 4, 7, 10, 15, 22, 34, 51, 78, 119, 182, 256, 256,  // depth 200
    2, 2, 3, 4, 7, 10, 15, 22, 34, 51, 78, 119, 181, 256, 256,  // depth 201
    2, 2, 3, 4, 7, 10, 15, 22, 34, 51, 78, 118, 180, 256, 256,  // depth 202
    2, 2, 3, 4, 7, 10, 15, 22, 33, 51, 77, 118, 180, 256, 256,  // depth 203
    2, 2, 3, 4, 7, 10, 15, 22, 33, 51, 77, 117, 179, 256, 256,  // depth 204
    2, 2, 3, 4, 7, 10, 15, 22, 33, 50, 77, 117, 178, 256, 256,  // depth 205
    2, 2, 3, 4, 7, 10, 15, 22, 33, 50, 76, 116, 177, 256, 256,  // depth 206
    2, 2, 3, 4, 7, 10, 14, 22, 33, 50, 76, 116, 176, 256, 256,  // depth 207
];

pub const LMR_STEPS_13: [u16; 240] = [
    2, 2, 3, 4, 6, 10, 14, 22, 33, 50, 76, 115, 175, 256, 256,  // depth 208
    2, 2, 3, 4, 6, 10, 14, 22, 33, 50, 75, 115, 175, 256, 256,  // depth 209
    2, 2, 3, 4, 6, 10, 14, 22, 33, 50, 75, 114, 174, 256, 256,  // depth 210
    2, 2, 3, 4, 6, 10, 14, 22, 33, 49, 75, 114, 173, 256, 256,  // depth 211
    2, 2, 3, 4, 6, 10, 14, 22, 32, 49, 75, 113, 172, 256, 256,  // depth 212
    2, 2, 3, 4, 6, 10, 14, 21, 32, 49, 74, 113, 171, 256, 256,  // depth 213
    2, 2, 3, 4, 6, 10, 14, 21, 32, 49, 74, 112, 171, 256, 256,  // depth 214
    2, 2, 3, 4, 6, 10, 14, 21, 32, 49, 74, 112, 170, 256, 256,  // depth 215
    2, 2, 3, 4, 6, 10, 14, 21, 32, 49, 74, 111, 169, 256, 256,  // depth 216
    2, 2, 3, 4, 6, 9, 14, 21, 32, 48, 73, 111, 168, 256, 256,  // depth 217
    2, 2, 3, 4, 6, 9, 14, 21, 32, 48, 73, 111, 168, 254, 256,  // depth 218
    2, 2, 3, 4, 6, 9, 14, 21, 32, 48, 73, 110, 167, 253, 256,  // depth 219
    2, 2, 3, 4, 6, 9, 14, 21, 32, 48, 72, 110, 166, 252, 256,  // depth 220
    2, 2, 3, 4, 6, 9, 14, 21, 32, 48, 72, 109, 165, 251, 256,  // depth 221
    2, 2, 3, 4, 6, 9, 14, 21, 32, 48, 72, 109, 165, 250, 256,  // depth 222
    2, 2, 3, 4, 6, 9, 14, 21, 31, 47, 72, 108, 164, 249, 256,  // depth 223
];

pub const LMR_STEPS_14: [u16; 240] = [
    2, 2, 3, 4, 6, 9, 14, 21, 31, 47, 71, 108, 163, 247, 256,  // depth 224
    2, 2, 3, 4, 6, 9, 14, 21, 31, 47, 71, 108, 163, 246, 256,  // depth 225
    2, 2, 3, 4, 6, 9, 14, 21, 31, 47, 71, 107, 162, 245, 256,  // depth 226
    2, 2, 3, 4, 6, 9, 14, 21, 31, 47, 71, 107, 161, 244, 256,  // depth 227
    2, 2, 3, 4, 6, 9, 14, 21, 31, 47, 70, 106, 161, 243, 256,  // depth 228
    2, 2, 3, 4, 6, 9, 14, 21, 31, 47, 70, 106, 160, 242, 256,  // depth 229
    2, 2, 3, 4, 6, 9, 14, 21, 31, 46, 70, 106, 159, 241, 256,  // depth 230
    2, 2, 3, 4, 6, 9, 14, 21, 31, 46, 70, 105, 159, 240, 256,  // depth 231
    2, 2, 3, 4, 6, 9, 14, 20, 31, 46, 70, 105, 158, 239, 256,  // depth 232
    2, 2, 3, 4, 6, 9, 14, 20, 31, 46, 69, 104, 158, 238, 256,  // depth 233
    2, 2, 3, 4, 6, 9, 14, 20, 31, 46, 69, 104, 157, 237, 256,  // depth 234
    2, 2, 3, 4, 6, 9, 14, 20, 30, 46, 69, 104, 156, 236, 256,  // depth 235
    2, 2, 3, 4, 6, 9, 14, 20, 30, 46, 69, 103, 156, 235, 256,  // depth 236
    2, 2, 3, 4, 6, 9, 14, 20, 30, 45, 68, 103, 155, 234, 256,  // depth 237
    2, 2, 3, 4, 6, 9, 14, 20, 30, 45, 68, 103, 154, 233, 256,  // depth 238
    2, 2, 3, 4, 6, 9, 14, 20, 30, 45, 68, 102, 154, 232, 256,  // depth 239
];

pub const LMR_STEPS_15: [u16; 240] = [
    2, 2, 3, 4, 6, 9, 14, 20, 30, 45, 68, 102, 153, 231, 256,  // depth 240
    2, 2, 3, 4, 6, 9, 13, 20, 30, 45, 68, 101, 153, 230, 256,  // depth 241
    2, 2, 3, 4, 6, 9, 13, 20, 30, 45, 67, 101, 152, 229, 256,  // depth 242
    2, 2, 3, 4, 6, 9, 13, 20, 30, 45, 67, 101, 152, 228, 256,  // depth 243
    2, 2, 3, 4, 6, 9, 13, 20, 30, 45, 67, 100, 151, 227, 256,  // depth 244
    2, 2, 3, 4, 6, 9, 13, 20, 30, 44, 67, 100, 150, 226, 256,  // depth 245
    2, 2, 3, 4, 6, 9, 13, 20, 30, 44, 66, 100, 150, 225, 256,  // depth 246
    2, 2, 3, 4, 6, 9, 13, 20, 30, 44, 66, 99, 149, 224, 256,  // depth 247
    2, 2, 3, 4, 6, 9, 13, 20, 29, 44, 66, 99, 149, 224, 256,  // depth 248
    2, 2, 3, 4, 6, 9, 13, 20, 29, 44, 66, 99, 148, 223, 256,  // depth 249
    2, 2, 3, 4, 6, 9, 13, 20, 29, 44, 66, 98, 148, 222, 256,  // depth 250
    2, 2, 3, 4, 6, 9, 13, 20, 29, 44, 65, 98, 147, 221, 256,  // depth 251
    2, 2, 3, 4, 6, 9, 13, 20, 29, 44, 65, 98, 147, 220, 256,  // depth 252
    2, 2, 3, 4, 6, 9, 13, 20, 29, 44, 65, 97, 146, 219, 256,  // depth 253
    2, 2, 3, 4, 6, 9, 13, 20, 29, 43, 65, 97, 146, 218, 256,  // depth 254
    2, 2, 3, 4, 6, 9, 13, 19, 29, 43, 65, 97, 145, 218, 256,  // depth 255
];

} // verus!
