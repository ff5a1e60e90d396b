//! The gaps between consecutive odd primes below 2^16.
use vstd::prelude::*;

verus! {

/// Half the gap minus one between odd primes, from index 0 on.
pub const HALF_GAPS_0: [u8; 1000] = [
    0, 0, 1, 0, 1, 0, 1, 2, 0, 2, 1, 0, 1, 2, 2, 0, 2, 1, 0, 2,
    1, 2, 3, 1, 0, 1, 0, 1, 6, 1, 2, 0, 4, 0, 2, 2, 1, 2, 2, 0,
    4, 0, 1, 0, 5, 5, 1, 0, 1, 2, 0, 4, 2, 2, 2, 0, 2, 1, 0, 4,
    6, 1, 0, 1, 6, 2, 4, 0, 1, 2, 3, 2, 2, 1, 2, 3, 1, 3, 4, 0,
    4, 0, 2, 1, 2, 3, 1, 0, 1, 5, 3, 1, 3, 1, 2, 5, 0, 8, 2, 4,
    2, 2, 0, 2, 4, 2, 2, 0, 2, 2, 1, 0, 5, 4, 0, 1, 2, 2, 0, 5,
    1, 2, 3, 4, 3, 4, 3, 2, 2, 1, 3, 2, 1, 3, 1, 6, 4, 5, 0, 4,
    0, 1, 0, 4, 6, 1, 0, 1, 6, 1, 0, 1, 9, 1, 3, 4, 3, 1, 2, 2,
    6, 1, 2, 2, 3, 2, 5, 1, 2, 0, 4, 0, 2, 4, 0, 4, 0, 2, 8, 1,
    0, 1, 2, 2, 3, 2, 2, 10, 0, 4, 3, 4, 2, 2, 3, 5, 1, 2, 2, 0,
    2, 5, 4, 8, 0, 1, 2, 0, 2, 1, 0, 1, 5, 0, 2, 16, 2, 2, 3, 8,
    4, 6, 1, 0, 1, 2, 3, 1, 0, 2, 5, 4, 0, 1, 0, 1, 2, 5, 5, 3,
    5, 2, 1, 2, 3, 1, 3, 1, 6, 1, 2, 0, 1, 2, 0, 2, 4, 9, 2, 1,
    0, 11, 1, 0, 4, 5, 0, 4, 3, 2, 2, 2, 8, 2, 1, 0, 5, 4, 5, 3,
    7, 6, 2, 1, 0, 1, 0, 4, 5, 2, 2, 8, 0, 7, 0, 10, 2, 3, 2, 1,
    0, 1, 3, 2, 4, 0, 4, 6, 4, 2, 5, 0, 1, 0, 4, 5, 0, 7, 0, 2,
    1, 0, 4, 3, 8, 11, 1, 2, 3, 7, 0, 1, 3, 7, 0, 1, 3, 2, 2, 1,
    5, 0, 10, 2, 0, 2, 1, 2, 6, 2, 1, 0, 2, 1, 2, 5, 2, 2, 6, 1,
    2, 5, 3, 2, 1, 12, 8, 4, 3, 1, 2, 0, 2, 10, 5, 0, 7, 3, 1, 5,
    6, 4, 0, 1, 3, 2, 2, 1, 0, 1, 2, 3, 1, 0, 2, 4, 0, 4, 3, 1,
    6, 4, 5, 0, 2, 1, 0, 7, 6, 1, 2, 3, 2, 1, 8, 3, 4, 2, 2, 3,
    4, 5, 6, 1, 2, 2, 0, 13, 0, 4, 3, 1, 6, 1, 3, 5, 2, 5, 1, 2,
    9, 4, 0, 7, 12, 1, 0, 5, 2, 1, 5, 2, 3, 1, 3, 10, 0, 1, 0, 5,
    13, 0, 2, 2, 2, 1, 2, 0, 5, 1, 5, 0, 4, 0, 7, 0, 7, 2, 9, 7,
    3, 1, 0, 1, 0, 10, 3, 5, 2, 4, 0, 1, 2, 0, 2, 4, 0, 5, 4, 0,
    4, 6, 2, 1, 2, 3, 2, 2, 7, 5, 0, 1, 6, 2, 1, 3, 4, 3, 2, 2,
    10, 2, 0, 4, 6, 1, 2, 8, 0, 4, 6, 1, 0, 4, 6, 1, 3, 8, 1, 2,
    0, 1, 2, 0, 5, 1, 9, 10, 5, 0, 1, 2, 2, 0, 2, 10, 0, 2, 7, 2,
    5, 0, 2, 5, 7, 0, 1, 2, 6, 1, 0, 8, 11, 4, 2, 0, 4, 0, 4, 0,
    4, 2, 0, 4, 0, 4, 2, 3, 14, 4, 0, 4, 3, 2, 4, 8, 2, 5, 5, 0,
    8, 2, 1, 2, 2, 8, 0, 4, 6, 2, 1, 0, 1, 11, 0, 5, 2, 7, 3, 2,
    2, 8, 7, 0, 1, 2, 0, 2, 2, 4, 2, 5, 5, 8, 0, 2, 1, 8, 3, 11,
    1, 0, 1, 2, 0, 5, 1, 6, 14, 4, 2, 5, 6, 2, 4, 5, 0, 1, 2, 3,
    2, 4, 0, 1, 6, 2, 2, 1, 2, 0, 4, 0, 7, 5, 3, 8, 1, 2, 5, 0,
    2, 2, 2, 13, 2, 6, 1, 3, 4, 3, 5, 8, 1, 0, 1, 11, 5, 2, 0, 7,
    2, 2, 6, 4, 6, 1, 14, 2, 2, 2, 3, 2, 1, 0, 5, 2, 1, 0, 2, 10,
    2, 0, 1, 8, 0, 1, 5, 0, 2, 1, 12, 2, 2, 1, 3, 4, 15, 7, 0, 2,
    1, 0, 1, 0, 4, 6, 2, 1, 3, 4, 2, 9, 1, 0, 2, 14, 1, 3, 4, 2,
    2, 3, 2, 5, 1, 2, 0, 2, 1, 2, 0, 4, 0, 7, 2, 9, 1, 5, 6, 13,
    2, 9, 1, 8, 3, 2, 1, 2, 6, 2, 2, 4, 0, 4, 5, 3, 4, 0, 4, 3,
    5, 4, 11, 0, 1, 3, 2, 1, 3, 8, 4, 2, 2, 0, 2, 4, 5, 0, 4, 2,
    2, 2, 3, 2, 4, 2, 0, 2, 2, 2, 4, 3, 11, 2, 10, 0, 8, 1, 3, 4,
    14, 3, 8, 1, 0, 4, 2, 0, 2, 1, 8, 3, 5, 8, 7, 2, 0, 5, 2, 4,
    0, 4, 0, 2, 4, 6, 1, 11, 0, 7, 0, 4, 0, 4, 9, 1, 0, 1, 3, 7,
    2, 2, 0, 5, 7, 3, 1, 2, 14, 0, 4, 0, 2, 1, 2, 2, 3, 2, 1, 5,
    2, 3, 5, 1, 6, 5, 4, 11, 2, 5, 2, 0, 10, 3, 8, 4, 2, 6, 1, 0,
    2, 4, 3, 2, 1, 2, 14, 6, 4, 0, 5, 4, 0, 7, 0, 8, 11, 8, 2, 7,
    8, 2, 0, 8, 1, 2, 0, 4, 3, 4, 2, 2, 3, 1, 2, 0, 4, 0, 5, 1,
    2, 2, 0, 5, 1, 6, 8, 1, 2, 9, 1, 3, 2, 1, 3, 1, 6, 2, 1, 6,
    5, 1, 0, 14, 1, 11, 2, 2, 5, 5, 6, 2, 1, 0, 1, 8, 2, 5, 3, 2,
];

/// Half the gap minus one between odd primes, from index 1000 on.
pub const HALF_GAPS_1: [u8; 1000] = [
    1, 5, 0, 5, 14, 7, 0, 2, 10, 6, 2, 4, 5, 2, 0, 1, 3, 4, 2, 2,
    11, 6, 2, 1, 3, 5, 8, 4, 0, 4, 0, 1, 2, 9, 2, 1, 6, 1, 0, 1,
    6, 2, 5, 11, 4, 2, 3, 4, 0, 14, 1, 2, 0, 5, 1, 6, 2, 16, 5, 3,
    2, 4, 0, 1, 9, 4, 3, 7, 0, 4, 6, 1, 0, 5, 2, 7, 2, 3, 1, 3,
    1, 2, 3, 2, 2, 5, 2, 1, 2, 2, 3, 8, 1, 9, 1, 5, 0, 4, 2, 0,
    4, 5, 0, 1, 9, 2, 14, 2, 1, 3, 4, 5, 2, 0, 13, 0, 2, 1, 0, 7,
    5, 0, 2, 4, 3, 11, 5, 2, 8, 2, 1, 6, 2, 1, 5, 3, 2, 5, 1, 2,
    5, 2, 5, 0, 7, 9, 1, 0, 4, 8, 3, 1, 6, 1, 0, 2, 10, 2, 6, 2,
    2, 4, 2, 0, 4, 0, 1, 0, 10, 0, 1, 2, 2, 5, 2, 6, 4, 5, 2, 3,
    1, 17, 6, 5, 2, 1, 2, 0, 5, 2, 5, 7, 0, 4, 3, 10, 0, 5, 2, 1,
    2, 8, 0, 5, 2, 1, 5, 3, 2, 5, 1, 2, 5, 2, 0, 5, 5, 1, 6, 2,
    7, 2, 0, 4, 3, 8, 2, 16, 0, 13, 0, 10, 2, 0, 4, 5, 0, 2, 1, 3,
    10, 2, 0, 4, 3, 1, 2, 3, 1, 5, 8, 5, 9, 1, 2, 2, 3, 1, 0, 7,
    5, 0, 4, 3, 4, 0, 1, 2, 6, 5, 10, 3, 13, 0, 1, 9, 1, 0, 1, 6,
    4, 5, 0, 5, 7, 0, 13, 3, 10, 3, 1, 2, 2, 6, 1, 3, 5, 2, 2, 1,
    9, 1, 8, 0, 5, 2, 1, 2, 6, 8, 4, 3, 4, 15, 2, 4, 2, 2, 0, 2,
    7, 2, 0, 5, 2, 13, 0, 4, 3, 7, 2, 3, 2, 4, 11, 9, 4, 0, 4, 0,
    5, 1, 2, 9, 1, 0, 5, 8, 4, 0, 4, 0, 1, 9, 7, 12, 1, 3, 2, 1,
    5, 2, 3, 5, 5, 2, 1, 3, 10, 0, 7, 6, 4, 2, 5, 5, 6, 2, 1, 9,
    1, 5, 2, 0, 2, 2, 7, 3, 10, 0, 13, 3, 2, 1, 9, 1, 5, 11, 9, 1,
    3, 4, 0, 7, 0, 5, 5, 16, 0, 1, 2, 5, 2, 2, 3, 2, 1, 0, 2, 11,
    1, 9, 4, 2, 2, 6, 1, 2, 2, 0, 5, 2, 4, 0, 4, 2, 9, 1, 12, 1,
    0, 2, 10, 0, 11, 1, 2, 0, 1, 2, 11, 2, 3, 1, 0, 16, 2, 3, 7, 5,
    0, 4, 0, 4, 2, 3, 1, 3, 5, 10, 2, 6, 1, 12, 1, 0, 5, 4, 3, 1,
    3, 5, 1, 6, 2, 7, 2, 3, 1, 2, 2, 3, 2, 4, 5, 0, 2, 2, 7, 3,
    2, 2, 5, 4, 0, 2, 8, 1, 2, 2, 2, 5, 8, 3, 2, 4, 3, 8, 1, 6,
    2, 8, 4, 3, 4, 5, 0, 2, 5, 5, 17, 1, 2, 3, 1, 2, 0, 1, 8, 5,
    2, 3, 2, 2, 1, 8, 0, 1, 0, 11, 1, 2, 2, 6, 14, 2, 1, 2, 5, 2,
    9, 1, 3, 1, 3, 2, 2, 1, 14, 0, 4, 5, 3, 4, 3, 11, 2, 5, 1, 6,
    1, 2, 0, 13, 6, 7, 0, 5, 2, 1, 9, 4, 2, 2, 2, 3, 4, 5, 6, 4,
    6, 7, 6, 4, 6, 2, 7, 2, 3, 2, 7, 9, 4, 0, 2, 1, 0, 1, 5, 0,
    4, 0, 2, 10, 2, 0, 1, 8, 3, 4, 3, 10, 0, 4, 8, 6, 1, 0, 1, 8,
    0, 1, 2, 3, 4, 0, 14, 1, 14, 0, 4, 0, 8, 1, 8, 2, 6, 4, 0, 1,
    9, 17, 2, 1, 2, 6, 1, 9, 4, 6, 10, 2, 0, 14, 5, 4, 8, 0, 1, 6,
    2, 10, 8, 0, 5, 2, 1, 3, 1, 3, 2, 4, 0, 5, 8, 4, 6, 7, 6, 1,
    2, 2, 0, 2, 1, 0, 13, 0, 13, 2, 0, 1, 2, 6, 1, 5, 6, 7, 6, 1,
    2, 3, 2, 1, 2, 2, 2, 3, 1, 3, 1, 6, 7, 3, 2, 1, 5, 3, 7, 0,
    4, 3, 1, 2, 12, 2, 4, 3, 1, 2, 5, 6, 14, 1, 6, 10, 3, 5, 1, 2,
    3, 4, 2, 6, 4, 2, 0, 4, 5, 5, 6, 2, 2, 8, 4, 2, 3, 8, 1, 2,
    0, 2, 4, 0, 4, 3, 2, 2, 4, 0, 8, 4, 0, 5, 1, 2, 3, 4, 5, 6,
    5, 1, 3, 4, 2, 2, 9, 1, 6, 7, 6, 4, 3, 4, 5, 0, 8, 2, 5, 4,
    5, 0, 1, 0, 5, 2, 1, 3, 1, 21, 1, 0, 1, 0, 4, 5, 2, 2, 6, 1,
    2, 2, 2, 3, 2, 17, 8, 1, 2, 0, 5, 2, 2, 2, 1, 6, 10, 5, 0, 8,
    4, 2, 12, 11, 1, 0, 1, 0, 1, 6, 1, 2, 2, 3, 7, 5, 0, 20, 1, 0,
    1, 11, 2, 2, 0, 8, 1, 6, 2, 13, 8, 6, 2, 4, 5, 0, 2, 5, 14, 2,
    1, 2, 2, 6, 1, 0, 11, 1, 2, 2, 12, 4, 8, 2, 3, 2, 2, 14, 1, 5,
    5, 0, 7, 0, 2, 1, 5, 8, 0, 2, 1, 12, 5, 2, 5, 1, 11, 11, 5, 2,
    0, 5, 13, 3, 1, 2, 5, 0, 8, 2, 1, 2, 2, 9, 7, 0, 2, 2, 8, 4,
    2, 0, 1, 3, 2, 2, 11, 7, 2, 3, 4, 2, 6, 10, 3, 7, 2, 0, 5, 1,
    0, 10, 3, 8, 16, 0, 2, 8, 1, 2, 2, 3, 4, 3, 8, 2, 1, 0, 1, 3,
];

/// Half the gap minus one between odd primes, from index 2000 on.
pub const HALF_GAPS_2: [u8; 1000] = [
    7, 0, 5, 5, 2, 8, 1, 2, 2, 2, 0, 2, 5, 4, 9, 5, 8, 1, 2, 0,
    7, 0, 4, 6, 1, 14, 0, 4, 5, 0, 11, 2, 7, 3, 4, 0, 5, 10, 2, 0,
    7, 9, 4, 0, 5, 5, 8, 4, 5, 2, 0, 4, 0, 2, 4, 8, 0, 5, 2, 1,
    2, 0, 11, 13, 0, 1, 0, 4, 0, 7, 5, 3, 10, 0, 2, 1, 0, 4, 2, 9,
    5, 4, 3, 5, 2, 2, 2, 1, 8, 0, 1, 5, 8, 0, 5, 2, 1, 0, 7, 5,
    5, 6, 1, 3, 8, 1, 5, 6, 2, 2, 1, 3, 2, 1, 9, 5, 4, 6, 1, 0,
    7, 0, 5, 14, 1, 2, 11, 9, 11, 4, 3, 5, 4, 5, 2, 5, 5, 2, 3, 7,
    6, 2, 1, 2, 17, 9, 4, 14, 5, 0, 1, 0, 13, 5, 6, 2, 10, 3, 1, 8,
    2, 6, 8, 1, 2, 0, 2, 16, 8, 0, 7, 2, 8, 0, 11, 1, 0, 2, 5, 2,
    5, 4, 3, 2, 7, 5, 3, 4, 6, 19, 2, 0, 2, 1, 5, 6, 1, 0, 1, 0,
    1, 3, 2, 4, 2, 2, 0, 2, 2, 2, 5, 2, 11, 4, 0, 4, 2, 5, 2, 2,
    6, 2, 2, 25, 9, 2, 4, 0, 4, 3, 4, 5, 5, 0, 2, 1, 6, 7, 3, 5,
    2, 10, 0, 4, 3, 2, 10, 0, 10, 2, 3, 4, 5, 5, 0, 4, 2, 5, 0, 1,
    6, 4, 0, 2, 8, 1, 5, 3, 8, 5, 2, 2, 1, 2, 2, 6, 1, 0, 5, 5,
    1, 2, 8, 8, 5, 0, 7, 5, 3, 8, 4, 12, 1, 2, 3, 2, 2, 1, 0, 4,
    9, 1, 2, 3, 1, 9, 4, 0, 16, 0, 1, 11, 0, 5, 5, 4, 2, 0, 5, 14,
    2, 5, 7, 5, 0, 10, 8, 5, 6, 4, 0, 5, 5, 1, 0, 1, 2, 5, 0, 7,
    8, 0, 19, 3, 7, 2, 3, 4, 0, 1, 8, 3, 4, 3, 5, 1, 8, 0, 8, 4,
    0, 1, 0, 1, 3, 13, 0, 2, 10, 5, 2, 6, 8, 1, 2, 3, 2, 2, 4, 3,
    1, 0, 8, 4, 2, 9, 10, 3, 2, 14, 1, 0, 1, 8, 2, 14, 0, 1, 3, 2,
    1, 2, 5, 6, 16, 6, 2, 1, 0, 2, 1, 6, 1, 0, 2, 13, 0, 1, 2, 3,
    4, 0, 4, 0, 4, 0, 1, 14, 0, 5, 5, 4, 8, 5, 6, 4, 0, 5, 2, 4,
    2, 6, 5, 1, 6, 1, 8, 0, 4, 3, 1, 3, 4, 5, 8, 8, 3, 2, 8, 7,
    6, 2, 2, 4, 6, 1, 2, 0, 5, 5, 1, 2, 2, 5, 0, 7, 0, 5, 2, 1,
    6, 2, 1, 0, 5, 8, 1, 17, 8, 5, 5, 0, 1, 0, 1, 3, 5, 1, 17, 2,
    8, 0, 5, 4, 2, 5, 11, 3, 2, 2, 7, 5, 0, 8, 4, 9, 4, 0, 2, 8,
    1, 0, 19, 2, 0, 7, 0, 1, 3, 8, 4, 5, 2, 0, 4, 3, 1, 2, 5, 0,
    4, 8, 3, 2, 1, 9, 1, 2, 17, 2, 0, 4, 2, 11, 2, 6, 7, 2, 8, 0,
    4, 9, 4, 3, 2, 1, 2, 0, 4, 0, 5, 1, 0, 1, 3, 4, 2, 5, 8, 6,
    5, 7, 3, 2, 7, 3, 1, 0, 2, 8, 11, 8, 4, 5, 0, 1, 6, 4, 2, 2,
    2, 8, 5, 0, 13, 8, 6, 7, 5, 6, 11, 5, 10, 2, 0, 4, 3, 1, 0, 1,
    6, 5, 2, 1, 2, 6, 1, 0, 1, 14, 2, 0, 2, 4, 0, 14, 10, 0, 1, 2,
    3, 2, 2, 7, 5, 5, 2, 3, 1, 0, 11, 5, 1, 2, 3, 2, 2, 4, 0, 2,
    5, 13, 6, 2, 1, 5, 3, 2, 5, 1, 2, 6, 2, 5, 4, 2, 2, 3, 2, 2,
    1, 0, 1, 3, 5, 1, 6, 8, 4, 0, 7, 2, 9, 2, 4, 3, 1, 14, 17, 5,
    3, 10, 5, 0, 2, 5, 7, 2, 2, 0, 8, 1, 12, 1, 3, 8, 4, 3, 4, 2,
    6, 1, 9, 10, 8, 5, 3, 13, 5, 2, 2, 3, 2, 5, 11, 7, 6, 1, 6, 5,
    2, 4, 5, 9, 2, 1, 3, 8, 5, 8, 4, 0, 1, 9, 4, 6, 1, 2, 0, 4,
    11, 8, 0, 1, 9, 7, 6, 4, 6, 2, 1, 2, 9, 2, 4, 2, 0, 5, 2, 14,
    4, 3, 2, 1, 2, 3, 19, 0, 1, 0, 5, 8, 1, 2, 3, 4, 2, 8, 8, 0,
    5, 7, 3, 2, 1, 2, 2, 0, 25, 6, 1, 9, 7, 0, 1, 2, 5, 0, 2, 5,
    5, 2, 1, 6, 4, 2, 2, 6, 4, 6, 7, 3, 2, 5, 1, 3, 10, 2, 0, 8,
    10, 2, 0, 8, 2, 7, 6, 4, 2, 5, 0, 2, 1, 3, 8, 5, 7, 0, 1, 6,
    1, 3, 5, 5, 14, 7, 3, 1, 0, 2, 10, 5, 3, 4, 2, 2, 2, 6, 2, 8,
    4, 5, 0, 4, 0, 1, 12, 1, 5, 3, 1, 8, 3, 4, 6, 7, 2, 2, 3, 4,
    2, 3, 2, 5, 4, 9, 4, 3, 1, 5, 12, 8, 1, 5, 8, 2, 14, 2, 3, 2,
    10, 5, 0, 1, 2, 2, 0, 4, 0, 1, 2, 2, 0, 2, 10, 8, 2, 8, 5, 3,
    5, 2, 4, 5, 0, 7, 0, 4, 0, 4, 8, 2, 9, 1, 0, 2, 10, 2, 2, 8,
    2, 6, 5, 7, 0, 2, 2, 1, 6, 5, 1, 0, 8, 7, 17, 5, 2, 6, 13, 0,
    5, 2, 5, 2, 1, 0, 7, 14, 3, 11, 2, 14, 4, 0, 8, 1, 2, 5, 3, 10,
];

/// Half the gap minus one between odd primes, from index 3000 on.
pub const HALF_GAPS_3: [u8; 1000] = [
    0, 2, 10, 8, 0, 4, 0, 4, 14, 0, 13, 2, 6, 7, 2, 9, 7, 0, 2, 1,
    15, 1, 0, 1, 2, 0, 5, 1, 2, 2, 5, 0, 2, 1, 2, 3, 2, 1, 9, 1,
    15, 4, 3, 7, 0, 10, 0, 1, 2, 3, 2, 7, 6, 1, 8, 3, 1, 9, 2, 5,
    5, 2, 4, 0, 4, 0, 5, 13, 5, 8, 0, 8, 4, 3, 4, 23, 0, 1, 2, 3,
    4, 0, 4, 14, 0, 17, 2, 4, 2, 0, 8, 1, 2, 3, 7, 6, 7, 2, 6, 1,
    9, 1, 2, 0, 4, 5, 0, 2, 5, 2, 2, 1, 5, 0, 2, 1, 5, 2, 3, 1,
    0, 2, 8, 4, 2, 3, 5, 2, 10, 0, 2, 5, 8, 1, 6, 2, 1, 9, 2, 7,
    3, 1, 3, 10, 3, 5, 2, 2, 7, 5, 8, 14, 3, 1, 0, 1, 2, 12, 1, 6,
    11, 10, 2, 0, 2, 4, 2, 6, 2, 2, 5, 4, 2, 0, 5, 4, 5, 3, 8, 8,
    4, 2, 3, 7, 2, 2, 3, 7, 9, 1, 0, 4, 0, 4, 5, 2, 3, 2, 4, 9,
    4, 8, 12, 1, 2, 14, 0, 1, 3, 2, 5, 5, 8, 1, 3, 10, 2, 0, 5, 16,
    2, 8, 5, 2, 0, 13, 6, 7, 6, 1, 6, 5, 1, 2, 2, 0, 17, 1, 2, 9,
    5, 11, 2, 10, 0, 7, 8, 5, 5, 8, 0, 2, 2, 2, 1, 2, 6, 1, 0, 10,
    3, 5, 2, 4, 2, 3, 5, 8, 5, 2, 4, 0, 10, 6, 2, 2, 1, 8, 2, 9,
    10, 0, 5, 11, 1, 8, 8, 0, 10, 0, 1, 5, 3, 5, 4, 6, 1, 0, 8, 7,
    18, 2, 2, 2, 5, 4, 2, 5, 3, 2, 1, 2, 6, 14, 2, 4, 3, 10, 2, 3,
    5, 4, 0, 4, 0, 2, 4, 0, 4, 5, 8, 9, 2, 1, 3, 10, 2, 2, 14, 2,
    6, 2, 5, 5, 2, 4, 0, 4, 14, 0, 7, 3, 1, 0, 2, 8, 1, 0, 2, 1,
    12, 1, 3, 2, 4, 0, 1, 2, 3, 1, 2, 14, 5, 0, 2, 2, 1, 9, 10, 3,
    1, 0, 1, 35, 3, 1, 3, 10, 0, 1, 6, 4, 0, 1, 9, 2, 4, 8, 2, 9,
    7, 2, 3, 2, 1, 9, 5, 10, 0, 1, 0, 5, 4, 8, 0, 10, 2, 8, 14, 0,
    4, 6, 4, 3, 7, 24, 2, 4, 3, 4, 5, 2, 8, 0, 10, 2, 0, 1, 2, 3,
    2, 2, 4, 8, 0, 10, 0, 7, 6, 4, 2, 0, 5, 4, 9, 1, 6, 2, 1, 17,
    0, 1, 2, 5, 0, 1, 6, 5, 2, 1, 2, 0, 2, 1, 9, 4, 0, 4, 2, 5,
    0, 11, 5, 5, 2, 2, 1, 11, 0, 1, 11, 0, 2, 1, 2, 3, 7, 2, 0, 4,
    5, 6, 2, 16, 2, 6, 2, 1, 0, 14, 10, 3, 1, 2, 3, 1, 0, 13, 0, 2,
    1, 12, 8, 10, 0, 2, 7, 2, 0, 7, 5, 0, 5, 1, 2, 2, 6, 4, 2, 3,
    5, 1, 8, 0, 4, 3, 7, 2, 2, 14, 0, 4, 8, 0, 4, 3, 1, 3, 5, 11,
    19, 0, 5, 4, 2, 5, 0, 5, 1, 0, 1, 2, 8, 6, 5, 2, 1, 6, 14, 1,
    3, 4, 3, 2, 4, 8, 3, 1, 6, 7, 2, 3, 1, 2, 0, 4, 0, 5, 1, 0,
    1, 2, 3, 1, 2, 15, 11, 4, 3, 8, 4, 0, 2, 4, 0, 1, 8, 2, 5, 0,
    7, 0, 10, 2, 2, 3, 8, 1, 8, 5, 3, 2, 1, 9, 2, 14, 10, 5, 0, 2,
    8, 1, 30, 1, 0, 5, 2, 4, 0, 5, 5, 13, 0, 1, 6, 10, 2, 0, 2, 2,
    4, 6, 1, 0, 4, 2, 3, 4, 6, 4, 2, 0, 5, 10, 8, 3, 4, 8, 5, 0,
    5, 1, 5, 0, 4, 0, 2, 8, 2, 2, 16, 2, 0, 5, 1, 2, 8, 8, 0, 7,
    2, 2, 3, 2, 4, 8, 3, 4, 3, 4, 0, 1, 8, 12, 5, 10, 0, 1, 0, 10,
    2, 2, 6, 7, 2, 9, 4, 5, 0, 8, 20, 1, 11, 0, 2, 4, 5, 0, 2, 4,
    3, 1, 2, 5, 5, 3, 1, 2, 5, 14, 9, 2, 11, 2, 4, 5, 0, 4, 9, 2,
    2, 1, 5, 6, 4, 8, 5, 3, 2, 5, 1, 6, 4, 0, 5, 14, 7, 0, 5, 2,
    1, 0, 1, 2, 12, 1, 8, 0, 1, 2, 6, 26, 2, 25, 0, 7, 2, 2, 5, 12,
    1, 0, 2, 10, 2, 0, 5, 5, 2, 4, 8, 0, 5, 5, 4, 8, 5, 2, 3, 2,
    4, 2, 3, 1, 0, 1, 9, 11, 2, 2, 4, 6, 4, 0, 10, 2, 6, 4, 12, 1,
    8, 3, 5, 5, 4, 5, 2, 3, 7, 2, 3, 2, 2, 10, 0, 4, 9, 4, 2, 21,
    8, 2, 4, 0, 1, 2, 6, 1, 12, 1, 0, 5, 4, 3, 1, 3, 5, 1, 5, 3,
    10, 3, 2, 4, 8, 2, 2, 3, 2, 5, 1, 3, 8, 4, 5, 2, 5, 0, 2, 1,
    0, 7, 5, 5, 6, 4, 6, 2, 4, 5, 0, 5, 2, 1, 2, 0, 5, 1, 12, 2,
    8, 2, 4, 2, 0, 8, 4, 3, 1, 12, 4, 9, 2, 7, 9, 5, 4, 3, 4, 0,
    7, 2, 9, 4, 9, 1, 14, 0, 1, 3, 7, 0, 8, 1, 0, 2, 4, 8, 5, 6,
    8, 2, 7, 9, 2, 1, 3, 2, 1, 2, 5, 3, 4, 0, 5, 2, 1, 0, 2, 4,
    0, 7, 5, 6, 4, 2, 3, 2, 13, 0, 2, 8, 14, 16, 0, 7, 5, 0, 8, 7,
];

/// Half the gap minus one between odd primes, from index 4000 on.
pub const HALF_GAPS_4: [u8; 1000] = [
    2, 3, 4, 3, 4, 3, 4, 21, 2, 2, 1, 9, 1, 0, 1, 6, 13, 3, 2, 7,
    6, 14, 2, 14, 1, 6, 4, 2, 2, 3, 1, 8, 5, 2, 0, 10, 5, 3, 2, 5,
    1, 6, 1, 2, 0, 1, 8, 9, 2, 7, 18, 7, 0, 1, 2, 0, 19, 20, 6, 1,
    2, 0, 11, 4, 2, 0, 8, 4, 5, 0, 7, 0, 2, 7, 2, 3, 1, 0, 4, 2,
    3, 4, 0, 8, 7, 3, 5, 8, 5, 2, 5, 4, 2, 2, 8, 5, 6, 1, 0, 4,
    9, 2, 5, 2, 7, 12, 1, 8, 0, 1, 15, 4, 3, 2, 1, 2, 2, 6, 2, 8,
    1, 0, 8, 4, 3, 4, 3, 4, 0, 1, 2, 0, 4, 20, 3, 5, 1, 2, 8, 0,
    7, 3, 1, 0, 4, 6, 5, 4, 9, 1, 3, 4, 18, 1, 2, 0, 4, 9, 4, 5,
    2, 5, 12, 5, 1, 3, 13, 3, 1, 3, 11, 2, 4, 3, 2, 7, 5, 3, 4, 5,
    3, 10, 2, 0, 4, 0, 2, 4, 2, 2, 3, 2, 1, 6, 13, 3, 7, 8, 3, 1,
    2, 9, 1, 8, 2, 0, 11, 11, 2, 2, 5, 5, 1, 0, 10, 0, 4, 2, 3, 5,
    1, 9, 8, 2, 1, 5, 11, 2, 2, 26, 3, 2, 1, 12, 17, 1, 0, 1, 12, 5,
    5, 1, 2, 2, 3, 5, 4, 0, 5, 7, 8, 2, 3, 2, 5, 8, 4, 0, 26, 1,
    0, 4, 14, 5, 3, 1, 3, 7, 6, 5, 2, 1, 2, 5, 2, 0, 1, 6, 5, 1,
    6, 2, 11, 2, 2, 4, 5, 5, 9, 8, 2, 2, 7, 3, 1, 2, 9, 1, 15, 1,
    6, 4, 0, 2, 5, 7, 0, 1, 2, 5, 0, 4, 3, 2, 1, 0, 4, 6, 2, 2,
    5, 8, 16, 3, 4, 2, 11, 2, 0, 4, 5, 0, 14, 4, 6, 5, 5, 7, 2, 2,
    0, 8, 1, 2, 14, 6, 1, 2, 2, 0, 2, 1, 2, 6, 2, 1, 3, 4, 5, 2,
    15, 4, 3, 10, 0, 4, 2, 11, 3, 1, 14, 2, 0, 5, 7, 3, 2, 1, 2, 3,
    7, 6, 2, 2, 1, 0, 4, 5, 0, 7, 6, 1, 0, 1, 9, 8, 4, 0, 4, 2,
    5, 14, 3, 8, 5, 4, 0, 2, 2, 1, 5, 5, 0, 1, 5, 8, 11, 0, 4, 2,
    3, 7, 3, 2, 5, 4, 6, 2, 5, 2, 2, 1, 0, 11, 1, 2, 3, 2, 1, 0,
    1, 2, 6, 1, 3, 4, 11, 11, 5, 0, 2, 5, 10, 14, 0, 2, 8, 4, 2, 2,
    3, 1, 0, 2, 4, 3, 4, 2, 3, 7, 2, 6, 2, 1, 11, 3, 4, 0, 5, 2,
    1, 17, 0, 10, 2, 3, 2, 4, 3, 2, 5, 4, 6, 4, 2, 8, 5, 0, 5, 1,
    12, 4, 6, 7, 8, 3, 8, 5, 5, 2, 7, 6, 11, 4, 5, 3, 10, 2, 0, 4,
    29, 2, 0, 1, 3, 7, 6, 4, 2, 11, 2, 5, 8, 11, 0, 14, 1, 0, 5, 2,
    4, 0, 1, 6, 2, 7, 0, 4, 3, 10, 9, 2, 1, 15, 2, 8, 1, 0, 1, 0,
    1, 3, 25, 6, 10, 0, 10, 9, 4, 3, 4, 0, 2, 1, 6, 1, 2, 9, 1, 2,
    0, 5, 5, 2, 5, 7, 0, 5, 4, 3, 1, 2, 0, 13, 5, 3, 4, 5, 0, 1,
    6, 13, 3, 2, 1, 0, 1, 2, 0, 5, 28, 2, 6, 4, 0, 2, 13, 15, 1, 14,
    3, 2, 1, 2, 5, 5, 0, 1, 2, 2, 6, 7, 3, 14, 1, 0, 4, 3, 2, 1,
    2, 12, 1, 5, 0, 4, 8, 5, 5, 8, 0, 1, 5, 3, 5, 4, 9, 1, 3, 7,
    5, 3, 2, 7, 3, 4, 5, 6, 2, 1, 3, 5, 1, 9, 2, 19, 3, 7, 2, 17,
    0, 2, 1, 2, 0, 10, 8, 0, 4, 2, 17, 6, 5, 1, 8, 3, 1, 6, 4, 0,
    4, 3, 1, 0, 8, 7, 5, 6, 4, 6, 2, 2, 20, 4, 2, 2, 9, 4, 3, 5,
    1, 5, 8, 0, 4, 6, 8, 4, 8, 3, 2, 1, 6, 2, 4, 14, 6, 2, 2, 1,
    5, 18, 1, 0, 1, 2, 3, 5, 4, 2, 8, 2, 24, 2, 1, 2, 5, 3, 4, 15,
    2, 10, 0, 4, 5, 8, 0, 2, 1, 14, 3, 2, 2, 8, 4, 0, 1, 5, 9, 4,
    3, 11, 4, 0, 2, 10, 2, 0, 8, 4, 5, 0, 14, 8, 5, 13, 0, 2, 1, 2,
    6, 2, 5, 4, 3, 1, 5, 12, 4, 3, 2, 7, 0, 4, 8, 6, 2, 1, 2, 6,
    7, 0, 2, 1, 5, 9, 1, 9, 1, 2, 5, 0, 17, 1, 2, 0, 4, 0, 10, 3,
    2, 4, 5, 5, 8, 6, 11, 17, 1, 9, 11, 4, 2, 0, 13, 2, 8, 3, 1, 2,
    3, 2, 1, 0, 5, 13, 8, 6, 7, 6, 8, 4, 3, 2, 1, 2, 2, 3, 10, 5,
    0, 4, 8, 2, 0, 8, 4, 0, 5, 4, 8, 15, 2, 1, 2, 2, 3, 2, 2, 4,
    9, 2, 5, 4, 3, 4, 6, 2, 4, 6, 1, 0, 10, 8, 0, 4, 0, 1, 9, 1,
    0, 16, 0, 5, 2, 4, 0, 4, 8, 2, 6, 5, 5, 10, 3, 2, 7, 2, 3, 1,
    5, 2, 3, 1, 17, 2, 2, 9, 11, 2, 5, 8, 4, 0, 4, 12, 2, 7, 3, 2,
    1, 11, 8, 3, 5, 5, 4, 8, 5, 0, 11, 1, 5, 8, 5, 6, 4, 0, 1, 11,
    5, 6, 4, 2, 0, 2, 1, 2, 12, 1, 2, 2, 0, 10, 3, 8, 1, 8, 3, 1,
];

/// Half the gap minus one between odd primes, from index 5000 on.
pub const HALF_GAPS_5: [u8; 1000] = [
    11, 0, 5, 5, 1, 0, 25, 0, 8, 2, 1, 2, 5, 0, 2, 5, 4, 3, 1, 0,
    11, 4, 0, 4, 0, 5, 2, 8, 19, 2, 9, 7, 0, 5, 2, 4, 5, 0, 1, 2,
    6, 5, 5, 10, 2, 3, 1, 0, 7, 8, 5, 0, 2, 7, 2, 0, 2, 1, 5, 14,
    3, 7, 0, 8, 4, 11, 0, 2, 11, 1, 0, 10, 0, 7, 0, 2, 5, 1, 8, 3,
    1, 6, 1, 8, 11, 2, 0, 2, 4, 0, 4, 18, 2, 4, 6, 2, 2, 11, 1, 0,
    5, 7, 6, 7, 5, 0, 2, 4, 12, 1, 0, 5, 2, 1, 5, 3, 5, 4, 8, 2,
    6, 13, 0, 2, 4, 0, 1, 6, 16, 0, 2, 10, 0, 4, 6, 1, 0, 7, 3, 4,
    2, 3, 4, 3, 1, 2, 0, 7, 2, 2, 8, 14, 6, 2, 1, 14, 0, 4, 6, 1,
    9, 4, 3, 1, 3, 8, 1, 6, 2, 1, 11, 2, 2, 8, 8, 0, 17, 2, 4, 6,
    5, 1, 2, 0, 14, 2, 1, 0, 2, 13, 9, 1, 9, 5, 11, 7, 8, 5, 6, 2,
    1, 5, 15, 5, 2, 4, 3, 4, 2, 8, 0, 7, 6, 2, 10, 2, 5, 0, 8, 1,
    3, 14, 5, 1, 5, 0, 4, 18, 10, 0, 1, 6, 2, 5, 11, 1, 0, 1, 6, 5,
    4, 0, 7, 2, 9, 1, 9, 10, 5, 0, 1, 0, 5, 10, 11, 2, 2, 0, 2, 1,
    2, 0, 4, 5, 5, 2, 0, 2, 7, 3, 2, 1, 8, 5, 5, 6, 1, 5, 2, 3,
    2, 8, 2, 4, 5, 6, 2, 1, 3, 10, 2, 0, 13, 8, 0, 8, 4, 2, 6, 4,
    0, 4, 6, 2, 4, 0, 10, 2, 3, 2, 7, 5, 3, 10, 0, 1, 6, 8, 5, 2,
    11, 2, 4, 0, 5, 10, 8, 2, 9, 2, 4, 6, 1, 0, 2, 5, 10, 6, 5, 1,
    2, 3, 10, 0, 4, 5, 3, 19, 0, 2, 4, 3, 1, 20, 9, 1, 15, 5, 4, 2,
    5, 5, 0, 4, 3, 2, 1, 3, 1, 12, 8, 1, 3, 13, 2, 8, 2, 5, 0, 4,
    2, 2, 6, 4, 5, 6, 11, 2, 1, 9, 10, 0, 8, 1, 2, 5, 0, 7, 8, 6,
    2, 2, 1, 2, 3, 8, 1, 6, 14, 1, 8, 3, 4, 0, 1, 3, 5, 1, 5, 8,
    0, 5, 4, 0, 7, 3, 1, 14, 0, 2, 13, 0, 4, 0, 8, 4, 6, 1, 12, 2,
    8, 1, 9, 2, 1, 3, 8, 1, 5, 12, 11, 1, 9, 10, 0, 8, 10, 0, 1, 5,
    0, 2, 2, 2, 1, 2, 6, 1, 11, 5, 2, 8, 0, 5, 13, 6, 1, 2, 3, 10,
    2, 5, 8, 3, 1, 9, 2, 1, 2, 0, 8, 2, 1, 5, 5, 3, 13, 2, 3, 4,
    0, 11, 5, 4, 11, 3, 4, 9, 5, 2, 5, 5, 1, 6, 5, 11, 16, 8, 3, 4,
    2, 8, 3, 1, 3, 7, 6, 2, 1, 2, 11, 0, 2, 1, 2, 0, 7, 2, 2, 9,
    11, 1, 0, 1, 6, 1, 8, 0, 2, 5, 1, 6, 1, 0, 8, 7, 2, 2, 0, 7,
    9, 2, 2, 14, 1, 3, 2, 11, 7, 2, 2, 3, 5, 14, 1, 8, 8, 3, 1, 12,
    4, 0, 10, 3, 4, 6, 2, 1, 8, 3, 5, 13, 0, 2, 1, 5, 2, 11, 2, 3,
    4, 9, 7, 3, 14, 2, 2, 1, 0, 4, 6, 2, 4, 15, 10, 8, 0, 1, 0, 1,
    3, 10, 3, 8, 5, 13, 0, 7, 5, 8, 6, 4, 8, 5, 2, 15, 4, 6, 2, 4,
    0, 4, 0, 2, 10, 0, 1, 2, 3, 4, 2, 6, 2, 1, 5, 14, 11, 2, 2, 3,
    2, 1, 0, 1, 2, 3, 2, 2, 10, 8, 3, 1, 0, 8, 2, 1, 0, 7, 8, 9,
    4, 2, 2, 14, 0, 5, 13, 2, 2, 2, 0, 5, 4, 3, 8, 8, 1, 3, 8, 4,
    0, 13, 0, 4, 6, 1, 0, 14, 5, 10, 12, 4, 3, 2, 4, 3, 7, 6, 2, 2,
    4, 6, 2, 1, 0, 4, 5, 0, 2, 4, 3, 1, 0, 4, 12, 10, 2, 0, 5, 8,
    1, 12, 1, 3, 4, 2, 6, 4, 0, 8, 2, 4, 9, 2, 2, 1, 11, 0, 1, 3,
    2, 7, 6, 7, 8, 0, 1, 5, 0, 4, 0, 2, 5, 4, 2, 2, 9, 2, 1, 2,
    18, 1, 2, 5, 6, 1, 5, 3, 4, 5, 5, 3, 1, 2, 6, 4, 2, 5, 0, 4,
    8, 0, 8, 4, 3, 4, 0, 5, 1, 6, 13, 0, 7, 0, 8, 2, 4, 2, 3, 7,
    6, 14, 4, 9, 2, 4, 11, 0, 13, 0, 5, 7, 2, 3, 17, 1, 3, 1, 6, 5,
    4, 3, 5, 1, 2, 3, 1, 2, 6, 10, 3, 2, 1, 0, 4, 2, 9, 4, 3, 2,
    2, 10, 8, 0, 7, 2, 9, 1, 12, 1, 6, 10, 6, 1, 5, 2, 3, 1, 2, 2,
    12, 4, 0, 8, 8, 1, 0, 7, 0, 8, 1, 2, 3, 1, 2, 5, 0, 2, 2, 13,
    18, 1, 3, 7, 12, 1, 0, 4, 5, 0, 4, 3, 2, 4, 5, 0, 4, 0, 11, 1,
    14, 12, 2, 2, 8, 2, 2, 10, 0, 4, 8, 12, 1, 8, 3, 2, 2, 5, 7, 2,
    3, 7, 2, 3, 7, 0, 20, 28, 3, 1, 2, 0, 1, 3, 7, 2, 9, 1, 5, 5,
    2, 5, 0, 4, 0, 2, 10, 0, 4, 2, 3, 2, 4, 6, 2, 2, 1, 8, 3, 4,
    3, 7, 6, 4, 0, 4, 0, 5, 2, 1, 9, 4, 3, 25, 3, 4, 2, 0, 4, 3,
];

/// Half the gap minus one between odd primes, from index 6000 on.
pub const HALF_GAPS_6: [u8; 540] = [
    4, 2, 2, 3, 4, 0, 10, 0, 1, 2, 6, 1, 0, 11, 5, 1, 12, 8, 1, 2,
    6, 14, 2, 1, 2, 0, 10, 3, 1, 2, 0, 10, 2, 3, 7, 2, 6, 1, 2, 8,
    3, 5, 2, 5, 11, 14, 7, 3, 16, 3, 10, 2, 6, 4, 8, 6, 1, 5, 3, 1,
    17, 2, 2, 0, 4, 0, 1, 9, 2, 2, 4, 5, 2, 0, 19, 3, 2, 13, 2, 0,
    5, 8, 1, 11, 6, 2, 2, 4, 9, 4, 6, 7, 6, 7, 2, 3, 17, 1, 5, 5,
    2, 5, 24, 5, 2, 1, 2, 2, 3, 2, 4, 0, 4, 0, 8, 4, 6, 7, 3, 2,
    1, 9, 1, 0, 4, 2, 6, 8, 4, 18, 4, 8, 0, 4, 0, 5, 1, 0, 1, 6,
    2, 4, 3, 19, 2, 9, 1, 5, 3, 2, 16, 3, 10, 3, 5, 4, 0, 7, 20, 5,
    3, 10, 3, 10, 3, 2, 16, 0, 2, 1, 6, 2, 7, 0, 10, 2, 3, 11, 10, 2,
    0, 5, 1, 2, 6, 1, 3, 11, 1, 2, 2, 0, 10, 9, 2, 1, 6, 1, 2, 2,
    3, 2, 4, 2, 3, 2, 7, 6, 2, 2, 10, 2, 11, 15, 2, 8, 2, 8, 4, 3,
    14, 8, 2, 7, 5, 2, 5, 0, 2, 1, 5, 3, 2, 10, 3, 2, 1, 6, 4, 8,
    9, 4, 0, 2, 1, 0, 13, 8, 0, 4, 2, 2, 2, 6, 19, 11, 0, 1, 3, 5,
    1, 9, 1, 15, 8, 7, 2, 17, 3, 2, 1, 2, 6, 1, 2, 12, 2, 4, 6, 8,
    4, 2, 2, 6, 4, 2, 2, 6, 2, 11, 1, 6, 10, 3, 5, 4, 3, 5, 8, 4,
    8, 3, 11, 4, 3, 1, 11, 2, 8, 2, 0, 4, 14, 0, 4, 0, 1, 0, 19, 0,
    13, 3, 2, 2, 8, 2, 4, 6, 1, 8, 14, 8, 0, 5, 14, 2, 14, 1, 8, 5,
    0, 1, 6, 2, 4, 2, 3, 2, 4, 5, 0, 2, 5, 4, 0, 8, 1, 9, 1, 2,
    6, 2, 2, 10, 2, 2, 3, 8, 8, 4, 0, 4, 0, 2, 1, 2, 5, 8, 0, 4,
    3, 1, 8, 0, 2, 2, 2, 4, 3, 4, 2, 8, 5, 3, 5, 2, 1, 2, 6, 7,
    0, 5, 1, 2, 18, 2, 2, 7, 9, 13, 9, 4, 2, 2, 6, 1, 12, 1, 6, 4,
    8, 6, 13, 0, 1, 6, 7, 0, 13, 2, 3, 2, 16, 3, 1, 8, 0, 7, 3, 2,
    19, 3, 8, 1, 14, 2, 5, 0, 14, 2, 4, 6, 19, 6, 4, 0, 5, 4, 3, 1,
    3, 2, 2, 13, 0, 1, 5, 6, 7, 3, 14, 7, 8, 0, 4, 8, 2, 15, 1, 8,
    2, 0, 5, 4, 8, 0, 2, 4, 6, 8, 13, 2, 3, 7, 0, 1, 9, 4, 3, 8,
    4, 0, 4, 3, 1, 2, 5, 2, 9, 1, 0, 2, 1, 9, 4, 12, 8, 4, 0, 8,
    2, 7, 6, 1, 12, 1, 6, 4, 5, 6, 2, 2, 1, 6, 4, 0, 14, 8, 10, 0,
];

/// The number of odd primes below 2^16.
pub const NUM_ODD_PRIMES: usize = 6541;

/// Half the gap minus one between the `i`-th and the next odd prime in the
/// table; zero past its end.
#[verifier::opaque]
pub open spec fn half_gap(i: int) -> nat {
    if i < 0 {
        0
    } else if i < 1000 {
        HALF_GAPS_0@[i] as nat
    } else if i < 2000 {
        HALF_GAPS_1@[i - 1000] as nat
    } else if i < 3000 {
        HALF_GAPS_2@[i - 2000] as nat
    } else if i < 4000 {
        HALF_GAPS_3@[i - 3000] as nat
    } else if i < 5000 {
        HALF_GAPS_4@[i - 4000] as nat
    } else if i < 6000 {
        HALF_GAPS_5@[i - 5000] as nat
    } else if i < 6540 {
        HALF_GAPS_6@[i - 6000] as nat
    } else {
        0
    }
}


/// Half the gap minus one after the `i`-th odd prime.
pub fn get_half_gap(i: usize) -> (g: u8)
    ensures
        g == half_gap(i as int),
{
    reveal(half_gap);
    if i < 1000 {
        let t: &[u8; 1000] = &HALF_GAPS_0;
        t[i]
    } else if i < 2000 {
        let t: &[u8; 1000] = &HALF_GAPS_1;
        t[i - 1000]
    } else if i < 3000 {
        let t: &[u8; 1000] = &HALF_GAPS_2;
        t[i - 2000]
    } else if i < 4000 {
        let t: &[u8; 1000] = &HALF_GAPS_3;
        t[i - 3000]
    } else if i < 5000 {
        let t: &[u8; 1000] = &HALF_GAPS_4;
        t[i - 4000]
    } else if i < 6000 {
        let t: &[u8; 1000] = &HALF_GAPS_5;
        t[i - 5000]
    } else if i < 6540 {
        let t: &[u8; 540] = &HALF_GAPS_6;
        t[i - 6000]
    } else {
        0
    }
}



/// Every half gap fits in a byte.
pub proof fn lemma_half_gap_bound(i: int)
    ensures
        half_gap(i) < 256,
{
    reveal(half_gap);
}

} // verus!
