use vstd::prelude::*;
use vstd::arithmetic::power::pow;
use crate::error::NumbersError;
use crate::modular::powm_spec;
use crate::table_spec::{
    is_dlog_table, is_exp_table, is_table_modulus, lemma_tables_from_rows, rows_hold, table_root,
};

verus! {

// Powers of the generator: entry `i` is `g^i mod p`.
const EXP_2: [u16; 2] = [1, 1];

const EXP_3: [u16; 3] = [1, 2, 1];

const EXP_5: [u16; 5] = [1, 2, 4, 3, 1];

const EXP_7: [u16; 7] = [1, 3, 2, 6, 4, 5, 1];

const EXP_11: [u16; 11] = [1, 2, 4, 8, 5, 10, 9, 7, 3, 6, 1];

const EXP_13: [u16; 13] = [1, 2, 4, 8, 3, 6, 12, 11, 9, 5, 10, 7, 1];

const EXP_17: [u16; 17] = [1, 3, 9, 10, 13, 5, 15, 11, 16, 14, 8, 7, 4, 12, 2, 6, 1];

const EXP_19: [u16; 19] = [
    1, 2, 4, 8, 16, 13, 7, 14, 9, 18, 17, 15, 11, 3, 6, 12, 5, 10, 1
];

const EXP_23: [u16; 23] = [
    1, 5, 2, 10, 4, 20, 8, 17, 16, 11, 9, 22, 18, 21, 13, 19, 3, 15, 6, 7,
    12, 14, 1
];

const EXP_29: [u16; 29] = [
    1, 2, 4, 8, 16, 3, 6, 12, 24, 19, 9, 18, 7, 14, 28, 27, 25, 21, 13, 26,
    23, 17, 5, 10, 20, 11, 22, 15, 1
];

const EXP_31: [u16; 31] = [
    1, 3, 9, 27, 19, 26, 16, 17, 20, 29, 25, 13, 8, 24, 10, 30, 28, 22, 4,
    12, 5, 15, 14, 11, 2, 6, 18, 23, 7, 21, 1
];

const EXP_37: [u16; 37] = [
    1, 2, 4, 8, 16, 32, 27, 17, 34, 31, 25, 13, 26, 15, 30, 23, 9, 18, 36,
    35, 33, 29, 21, 5, 10, 20, 3, 6, 12, 24, 11, 22, 7, 14, 28, 19, 1
];

const EXP_41: [u16; 41] = [
    1, 6, 36, 11, 25, 27, 39, 29, 10, 19, 32, 28, 4, 24, 21, 3, 18, 26, 33,
    34, 40, 35, 5, 30, 16, 14, 2, 12, 31, 22, 9, 13, 37, 17, 20, 38, 23, 15,
    8, 7, 1
];

const EXP_43: [u16; 43] = [
    1, 3, 9, 27, 38, 28, 41, 37, 25, 32, 10, 30, 4, 12, 36, 22, 23, 26, 35,
    19, 14, 42, 40, 34, 16, 5, 15, 2, 6, 18, 11, 33, 13, 39, 31, 7, 21, 20,
    17, 8, 24, 29, 1
];

const EXP_47: [u16; 47] = [
    1, 5, 25, 31, 14, 23, 21, 11, 8, 40, 12, 13, 18, 43, 27, 41, 17, 38, 2,
    10, 3, 15, 28, 46, 42, 22, 16, 33, 24, 26, 36, 39, 7, 35, 34, 29, 4, 20,
    6, 30, 9, 45, 37, 44, 32, 19, 1
];

const EXP_53: [u16; 53] = [
    1, 2, 4, 8, 16, 32, 11, 22, 44, 35, 17, 34, 15, 30, 7, 14, 28, 3, 6, 12,
    24, 48, 43, 33, 13, 26, 52, 51, 49, 45, 37, 21, 42, 31, 9, 18, 36, 19,
    38, 23, 46, 39, 25, 50, 47, 41, 29, 5, 10, 20, 40, 27, 1
];

const EXP_59: [u16; 59] = [
    1, 2, 4, 8, 16, 32, 5, 10, 20, 40, 21, 42, 25, 50, 41, 23, 46, 33, 7,
    14, 28, 56, 53, 47, 35, 11, 22, 44, 29, 58, 57, 55, 51, 43, 27, 54, 49,
    39, 19, 38, 17, 34, 9, 18, 36, 13, 26, 52, 45, 31, 3, 6, 12, 24, 48, 37,
    15, 30, 1
];

const EXP_61: [u16; 61] = [
    1, 2, 4, 8, 16, 32, 3, 6, 12, 24, 48, 35, 9, 18, 36, 11, 22, 44, 27, 54,
    47, 33, 5, 10, 20, 40, 19, 38, 15, 30, 60, 59, 57, 53, 45, 29, 58, 55,
    49, 37, 13, 26, 52, 43, 25, 50, 39, 17, 34, 7, 14, 28, 56, 51, 41, 21,
    42, 23, 46, 31, 1
];

const EXP_67: [u16; 67] = [
    1, 2, 4, 8, 16, 32, 64, 61, 55, 43, 19, 38, 9, 18, 36, 5, 10, 20, 40,
    13, 26, 52, 37, 7, 14, 28, 56, 45, 23, 46, 25, 50, 33, 66, 65, 63, 59,
    51, 35, 3, 6, 12, 24, 48, 29, 58, 49, 31, 62, 57, 47, 27, 54, 41, 15,
    30, 60, 53, 39, 11, 22, 44, 21, 42, 17, 34, 1
];

const EXP_71: [u16; 71] = [
    1, 7, 49, 59, 58, 51, 2, 14, 27, 47, 45, 31, 4, 28, 54, 23, 19, 62, 8,
    56, 37, 46, 38, 53, 16, 41, 3, 21, 5, 35, 32, 11, 6, 42, 10, 70, 64, 22,
    12, 13, 20, 69, 57, 44, 24, 26, 40, 67, 43, 17, 48, 52, 9, 63, 15, 34,
    25, 33, 18, 55, 30, 68, 50, 66, 36, 39, 60, 65, 29, 61, 1
];

const EXP_73: [u16; 73] = [
    1, 5, 25, 52, 41, 59, 3, 15, 2, 10, 50, 31, 9, 45, 6, 30, 4, 20, 27, 62,
    18, 17, 12, 60, 8, 40, 54, 51, 36, 34, 24, 47, 16, 7, 35, 29, 72, 68,
    48, 21, 32, 14, 70, 58, 71, 63, 23, 42, 64, 28, 67, 43, 69, 53, 46, 11,
    55, 56, 61, 13, 65, 33, 19, 22, 37, 39, 49, 26, 57, 66, 38, 44, 1
];

const EXP_79: [u16; 79] = [
    1, 3, 9, 27, 2, 6, 18, 54, 4, 12, 36, 29, 8, 24, 72, 58, 16, 48, 65, 37,
    32, 17, 51, 74, 64, 34, 23, 69, 49, 68, 46, 59, 19, 57, 13, 39, 38, 35,
    26, 78, 76, 70, 52, 77, 73, 61, 25, 75, 67, 43, 50, 71, 55, 7, 21, 63,
    31, 14, 42, 47, 62, 28, 5, 15, 45, 56, 10, 30, 11, 33, 20, 60, 22, 66,
    40, 41, 44, 53, 1
];

const EXP_83: [u16; 83] = [
    1, 2, 4, 8, 16, 32, 64, 45, 7, 14, 28, 56, 29, 58, 33, 66, 49, 15, 30,
    60, 37, 74, 65, 47, 11, 22, 44, 5, 10, 20, 40, 80, 77, 71, 59, 35, 70,
    57, 31, 62, 41, 82, 81, 79, 75, 67, 51, 19, 38, 76, 69, 55, 27, 54, 25,
    50, 17, 34, 68, 53, 23, 46, 9, 18, 36, 72, 61, 39, 78, 73, 63, 43, 3, 6,
    12, 24, 48, 13, 26, 52, 21, 42, 1
];

const EXP_89: [u16; 89] = [
    1, 3, 9, 27, 81, 65, 17, 51, 64, 14, 42, 37, 22, 66, 20, 60, 2, 6, 18,
    54, 73, 41, 34, 13, 39, 28, 84, 74, 44, 43, 40, 31, 4, 12, 36, 19, 57,
    82, 68, 26, 78, 56, 79, 59, 88, 86, 80, 62, 8, 24, 72, 38, 25, 75, 47,
    52, 67, 23, 69, 29, 87, 83, 71, 35, 16, 48, 55, 76, 50, 61, 5, 15, 45,
    46, 49, 58, 85, 77, 53, 70, 32, 7, 21, 63, 11, 33, 10, 30, 1
];

const EXP_97: [u16; 97] = [
    1, 5, 25, 28, 43, 21, 8, 40, 6, 30, 53, 71, 64, 29, 48, 46, 36, 83, 27,
    38, 93, 77, 94, 82, 22, 13, 65, 34, 73, 74, 79, 7, 35, 78, 2, 10, 50,
    56, 86, 42, 16, 80, 12, 60, 9, 45, 31, 58, 96, 92, 72, 69, 54, 76, 89,
    57, 91, 67, 44, 26, 33, 68, 49, 51, 61, 14, 70, 59, 4, 20, 3, 15, 75,
    84, 32, 63, 24, 23, 18, 90, 62, 19, 95, 87, 47, 41, 11, 55, 81, 17, 85,
    37, 88, 52, 66, 39, 1
];

const EXP_101: [u16; 101] = [
    1, 2, 4, 8, 16, 32, 64, 27, 54, 7, 14, 28, 56, 11, 22, 44, 88, 75, 49,
    98, 95, 89, 77, 53, 5, 10, 20, 40, 80, 59, 17, 34, 68, 35, 70, 39, 78,
    55, 9, 18, 36, 72, 43, 86, 71, 41, 82, 63, 25, 50, 100, 99, 97, 93, 85,
    69, 37, 74, 47, 94, 87, 73, 45, 90, 79, 57, 13, 26, 52, 3, 6, 12, 24,
    48, 96, 91, 81, 61, 21, 42, 84, 67, 33, 66, 31, 62, 23, 46, 92, 83, 65,
    29, 58, 15, 30, 60, 19, 38, 76, 51, 1
];

const EXP_103: [u16; 103] = [
    1, 5, 25, 22, 7, 35, 72, 51, 49, 39, 92, 48, 34, 67, 26, 27, 32, 57, 79,
    86, 18, 90, 38, 87, 23, 12, 60, 94, 58, 84, 8, 40, 97, 73, 56, 74, 61,
    99, 83, 3, 15, 75, 66, 21, 2, 10, 50, 44, 14, 70, 41, 102, 98, 78, 81,
    96, 68, 31, 52, 54, 64, 11, 55, 69, 36, 77, 76, 71, 46, 24, 17, 85, 13,
    65, 16, 80, 91, 43, 9, 45, 19, 95, 63, 6, 30, 47, 29, 42, 4, 20, 100,
    88, 28, 37, 82, 101, 93, 53, 59, 89, 33, 62, 1
];

const EXP_107: [u16; 107] = [
    1, 2, 4, 8, 16, 32, 64, 21, 42, 84, 61, 15, 30, 60, 13, 26, 52, 104,
    101, 95, 83, 59, 11, 22, 44, 88, 69, 31, 62, 17, 34, 68, 29, 58, 9, 18,
    36, 72, 37, 74, 41, 82, 57, 7, 14, 28, 56, 5, 10, 20, 40, 80, 53, 106,
    105, 103, 99, 91, 75, 43, 86, 65, 23, 46, 92, 77, 47, 94, 81, 55, 3, 6,
    12, 24, 48, 96, 85, 63, 19, 38, 76, 45, 90, 73, 39, 78, 49, 98, 89, 71,
    35, 70, 33, 66, 25, 50, 100, 93, 79, 51, 102, 97, 87, 67, 27, 54, 1
];

const EXP_109: [u16; 109] = [
    1, 6, 36, 107, 97, 37, 4, 24, 35, 101, 61, 39, 16, 96, 31, 77, 26, 47,
    64, 57, 15, 90, 104, 79, 38, 10, 60, 33, 89, 98, 43, 40, 22, 23, 29, 65,
    63, 51, 88, 92, 7, 42, 34, 95, 25, 41, 28, 59, 27, 53, 100, 55, 3, 18,
    108, 103, 73, 2, 12, 72, 105, 85, 74, 8, 48, 70, 93, 13, 78, 32, 83, 62,
    45, 52, 94, 19, 5, 30, 71, 99, 49, 76, 20, 11, 66, 69, 87, 86, 80, 44,
    46, 58, 21, 17, 102, 67, 75, 14, 84, 68, 81, 50, 82, 56, 9, 54, 106, 91,
    1
];

const EXP_113: [u16; 113] = [
    1, 3, 9, 27, 81, 17, 51, 40, 7, 21, 63, 76, 2, 6, 18, 54, 49, 34, 102,
    80, 14, 42, 13, 39, 4, 12, 36, 108, 98, 68, 91, 47, 28, 84, 26, 78, 8,
    24, 72, 103, 83, 23, 69, 94, 56, 55, 52, 43, 16, 48, 31, 93, 53, 46, 25,
    75, 112, 110, 104, 86, 32, 96, 62, 73, 106, 92, 50, 37, 111, 107, 95,
    59, 64, 79, 11, 33, 99, 71, 100, 74, 109, 101, 77, 5, 15, 45, 22, 66,
    85, 29, 87, 35, 105, 89, 41, 10, 30, 90, 44, 19, 57, 58, 61, 70, 97, 65,
    82, 20, 60, 67, 88, 38, 1
];

// Discrete logarithms: entry `x` is the exponent `i` with `g^i mod p == x`.
// Entry 0 is unused and holds 0.
const DLOG_2: [u16; 2] = [0, 0];

const DLOG_3: [u16; 3] = [0, 0, 1];

const DLOG_5: [u16; 5] = [0, 0, 1, 3, 2];

const DLOG_7: [u16; 7] = [0, 0, 2, 1, 4, 5, 3];

const DLOG_11: [u16; 11] = [0, 0, 1, 8, 2, 4, 9, 7, 3, 6, 5];

const DLOG_13: [u16; 13] = [0, 0, 1, 4, 2, 9, 5, 11, 3, 8, 10, 7, 6];

const DLOG_17: [u16; 17] = [0, 0, 14, 1, 12, 5, 15, 11, 10, 2, 3, 7, 13, 4, 9, 6, 8];

const DLOG_19: [u16; 19] = [
    0, 0, 1, 13, 2, 16, 14, 6, 3, 8, 17, 12, 15, 5, 7, 11, 4, 10, 9
];

const DLOG_23: [u16; 23] = [
    0, 0, 2, 16, 4, 1, 18, 19, 6, 10, 3, 9, 20, 14, 21, 17, 8, 7, 12, 15, 5,
    13, 11
];

const DLOG_29: [u16; 29] = [
    0, 0, 1, 5, 2, 22, 6, 12, 3, 10, 23, 25, 7, 18, 13, 27, 4, 21, 11, 9,
    24, 17, 26, 20, 8, 16, 19, 15, 14
];

const DLOG_31: [u16; 31] = [
    0, 0, 24, 1, 18, 20, 25, 28, 12, 2, 14, 23, 19, 11, 22, 21, 6, 7, 26, 4,
    8, 29, 17, 27, 13, 10, 5, 3, 16, 9, 15
];

const DLOG_37: [u16; 37] = [
    0, 0, 1, 26, 2, 23, 27, 32, 3, 16, 24, 30, 28, 11, 33, 13, 4, 7, 17, 35,
    25, 22, 31, 15, 29, 10, 12, 6, 34, 21, 14, 9, 5, 20, 8, 19, 18
];

const DLOG_41: [u16; 41] = [
    0, 0, 26, 15, 12, 22, 1, 39, 38, 30, 8, 3, 27, 31, 25, 37, 24, 33, 16,
    9, 34, 14, 29, 36, 13, 4, 17, 5, 11, 7, 23, 28, 10, 18, 19, 21, 2, 32,
    35, 6, 20
];

const DLOG_43: [u16; 43] = [
    0, 0, 27, 1, 12, 25, 28, 35, 39, 2, 10, 30, 13, 32, 20, 26, 24, 38, 29,
    19, 37, 36, 15, 16, 40, 8, 17, 3, 5, 41, 11, 34, 9, 31, 23, 18, 14, 7,
    4, 33, 22, 6, 21
];

const DLOG_47: [u16; 47] = [
    0, 0, 18, 20, 36, 1, 38, 32, 8, 40, 19, 7, 10, 11, 4, 21, 26, 16, 12,
    45, 37, 6, 25, 5, 28, 2, 29, 14, 22, 35, 39, 3, 44, 27, 34, 33, 30, 42,
    17, 31, 9, 15, 24, 13, 43, 41, 23
];

const DLOG_53: [u16; 53] = [
    0, 0, 1, 17, 2, 47, 18, 14, 3, 34, 48, 6, 19, 24, 15, 12, 4, 10, 35, 37,
    49, 31, 7, 39, 20, 42, 25, 51, 16, 46, 13, 33, 5, 23, 11, 9, 36, 30, 38,
    41, 50, 45, 32, 22, 8, 29, 40, 44, 21, 28, 43, 27, 26
];

const DLOG_59: [u16; 59] = [
    0, 0, 1, 50, 2, 6, 51, 18, 3, 42, 7, 25, 52, 45, 19, 56, 4, 40, 43, 38,
    8, 10, 26, 15, 53, 12, 46, 34, 20, 28, 57, 49, 5, 17, 41, 24, 44, 55,
    39, 37, 9, 14, 11, 33, 27, 48, 16, 23, 54, 36, 13, 32, 47, 22, 35, 31,
    21, 30, 29
];

const DLOG_61: [u16; 61] = [
    0, 0, 1, 6, 2, 22, 7, 49, 3, 12, 23, 15, 8, 40, 50, 28, 4, 47, 13, 26,
    24, 55, 16, 57, 9, 44, 41, 18, 51, 35, 29, 59, 5, 21, 48, 11, 14, 39,
    27, 46, 25, 54, 56, 43, 17, 34, 58, 20, 10, 38, 45, 53, 42, 33, 19, 37,
    52, 32, 36, 31, 30
];

const DLOG_67: [u16; 67] = [
    0, 0, 1, 39, 2, 15, 40, 23, 3, 12, 16, 59, 41, 19, 24, 54, 4, 64, 13,
    10, 17, 62, 60, 28, 42, 30, 20, 51, 25, 44, 55, 47, 5, 32, 65, 38, 14,
    22, 11, 58, 18, 53, 63, 9, 61, 27, 29, 50, 43, 46, 31, 37, 21, 57, 52,
    8, 26, 49, 45, 36, 56, 7, 48, 35, 6, 34, 33
];

const DLOG_71: [u16; 71] = [
    0, 0, 6, 26, 12, 28, 32, 1, 18, 52, 34, 31, 38, 39, 7, 54, 24, 49, 58,
    16, 40, 27, 37, 15, 44, 56, 45, 8, 13, 68, 60, 11, 30, 57, 55, 29, 64,
    20, 22, 65, 46, 25, 33, 48, 43, 10, 21, 9, 50, 2, 62, 5, 51, 23, 14, 59,
    19, 42, 4, 3, 66, 69, 17, 53, 36, 67, 63, 47, 61, 41, 35
];

const DLOG_73: [u16; 73] = [
    0, 0, 8, 6, 16, 1, 14, 33, 24, 12, 9, 55, 22, 59, 41, 7, 32, 21, 20, 62,
    17, 39, 63, 46, 30, 2, 67, 18, 49, 35, 15, 11, 40, 61, 29, 34, 28, 64,
    70, 65, 25, 4, 47, 51, 71, 13, 54, 31, 38, 66, 10, 27, 3, 53, 26, 56,
    57, 68, 43, 5, 23, 58, 19, 45, 48, 60, 69, 50, 37, 52, 42, 44, 36
];

const DLOG_79: [u16; 79] = [
    0, 0, 4, 1, 8, 62, 5, 53, 12, 2, 66, 68, 9, 34, 57, 63, 16, 21, 6, 32,
    70, 54, 72, 26, 13, 46, 38, 3, 61, 11, 67, 56, 20, 69, 25, 37, 10, 19,
    36, 35, 74, 75, 58, 49, 76, 64, 30, 59, 17, 28, 50, 22, 42, 77, 7, 52,
    65, 33, 15, 31, 71, 45, 60, 55, 24, 18, 73, 48, 29, 27, 41, 51, 14, 44,
    23, 47, 40, 43, 39
];

const DLOG_83: [u16; 83] = [
    0, 0, 1, 72, 2, 27, 73, 8, 3, 62, 28, 24, 74, 77, 9, 17, 4, 56, 63, 47,
    29, 80, 25, 60, 75, 54, 78, 52, 10, 12, 18, 38, 5, 14, 57, 35, 64, 20,
    48, 67, 30, 40, 81, 71, 26, 7, 61, 23, 76, 16, 55, 46, 79, 59, 53, 51,
    11, 37, 13, 34, 19, 66, 39, 70, 6, 22, 15, 45, 58, 50, 36, 33, 65, 69,
    21, 44, 49, 32, 68, 43, 31, 42, 41
];

const DLOG_89: [u16; 89] = [
    0, 0, 16, 1, 32, 70, 17, 81, 48, 2, 86, 84, 33, 23, 9, 71, 64, 6, 18,
    35, 14, 82, 12, 57, 49, 52, 39, 3, 25, 59, 87, 31, 80, 85, 22, 63, 34,
    11, 51, 24, 30, 21, 10, 29, 28, 72, 73, 54, 65, 74, 68, 7, 55, 78, 19,
    66, 41, 36, 75, 43, 15, 69, 47, 83, 8, 5, 13, 56, 38, 58, 79, 62, 50,
    20, 27, 53, 67, 77, 40, 42, 46, 4, 37, 61, 26, 76, 45, 60, 44
];

const DLOG_97: [u16; 97] = [
    0, 0, 34, 70, 68, 1, 8, 31, 6, 44, 35, 86, 42, 25, 65, 71, 40, 89, 78,
    81, 69, 5, 24, 77, 76, 2, 59, 18, 3, 13, 9, 46, 74, 60, 27, 32, 16, 91,
    19, 95, 7, 85, 39, 4, 58, 45, 15, 84, 14, 62, 36, 63, 93, 10, 52, 87,
    37, 55, 47, 67, 43, 64, 80, 75, 12, 26, 94, 57, 61, 51, 66, 11, 50, 28,
    29, 72, 53, 21, 33, 30, 41, 88, 23, 17, 73, 90, 38, 83, 92, 54, 79, 56,
    49, 20, 22, 82, 48
];

const DLOG_101: [u16; 101] = [
    0, 0, 1, 69, 2, 24, 70, 9, 3, 38, 25, 13, 71, 66, 10, 93, 4, 30, 39, 96,
    26, 78, 14, 86, 72, 48, 67, 7, 11, 91, 94, 84, 5, 82, 31, 33, 40, 56,
    97, 35, 27, 45, 79, 42, 15, 62, 87, 58, 73, 18, 49, 99, 68, 23, 8, 37,
    12, 65, 92, 29, 95, 77, 85, 47, 6, 90, 83, 81, 32, 55, 34, 44, 41, 61,
    57, 17, 98, 22, 36, 64, 28, 76, 46, 89, 80, 54, 43, 60, 16, 21, 63, 75,
    88, 53, 59, 20, 74, 52, 19, 51, 50
];

const DLOG_103: [u16; 103] = [
    0, 0, 44, 39, 88, 1, 83, 4, 30, 78, 45, 61, 25, 72, 48, 40, 74, 70, 20,
    80, 89, 43, 3, 24, 69, 2, 14, 15, 92, 86, 84, 57, 16, 100, 12, 5, 64,
    93, 22, 9, 31, 50, 87, 77, 47, 79, 68, 85, 11, 8, 46, 7, 58, 97, 59, 62,
    34, 17, 28, 98, 26, 36, 101, 82, 60, 73, 42, 13, 56, 63, 49, 67, 6, 33,
    35, 41, 66, 65, 53, 18, 75, 54, 94, 38, 29, 71, 19, 23, 91, 99, 21, 76,
    10, 96, 27, 81, 55, 32, 52, 37, 90, 95, 51
];

const DLOG_107: [u16; 107] = [
    0, 0, 1, 70, 2, 47, 71, 43, 3, 34, 48, 22, 72, 14, 44, 11, 4, 29, 35,
    78, 49, 7, 23, 62, 73, 94, 15, 104, 45, 32, 12, 27, 5, 92, 30, 90, 36,
    38, 79, 84, 50, 40, 8, 59, 24, 81, 63, 66, 74, 86, 95, 99, 16, 52, 105,
    69, 46, 42, 33, 21, 13, 10, 28, 77, 6, 61, 93, 103, 31, 26, 91, 89, 37,
    83, 39, 58, 80, 65, 85, 98, 51, 68, 41, 20, 9, 76, 60, 102, 25, 88, 82,
    57, 64, 97, 67, 19, 75, 101, 87, 56, 96, 18, 100, 55, 17, 54, 53
];

const DLOG_109: [u16; 109] = [
    0, 0, 57, 52, 6, 76, 1, 40, 63, 104, 25, 83, 58, 67, 97, 20, 12, 93, 53,
    75, 82, 92, 32, 33, 7, 44, 16, 48, 46, 34, 77, 14, 69, 27, 42, 8, 2, 5,
    24, 11, 31, 45, 41, 30, 89, 72, 90, 17, 64, 80, 101, 37, 73, 49, 105,
    51, 103, 19, 91, 47, 26, 10, 71, 36, 18, 35, 84, 95, 99, 85, 65, 78, 59,
    56, 62, 96, 81, 15, 68, 23, 88, 100, 102, 70, 98, 61, 87, 86, 38, 28,
    21, 107, 39, 66, 74, 43, 13, 4, 29, 79, 50, 9, 94, 55, 22, 60, 106, 3,
    54
];

const DLOG_113: [u16; 113] = [
    0, 0, 12, 1, 24, 83, 13, 8, 36, 2, 95, 74, 25, 22, 20, 84, 48, 5, 14,
    99, 107, 9, 86, 41, 37, 54, 34, 3, 32, 89, 96, 50, 60, 75, 17, 91, 26,
    67, 111, 23, 7, 94, 21, 47, 98, 85, 53, 31, 49, 16, 66, 6, 46, 52, 15,
    45, 44, 100, 101, 71, 108, 102, 62, 10, 72, 105, 87, 109, 29, 42, 103,
    77, 38, 63, 79, 55, 11, 82, 35, 73, 19, 4, 106, 40, 33, 88, 59, 90, 110,
    93, 97, 30, 65, 51, 43, 70, 61, 104, 28, 76, 78, 81, 18, 39, 58, 92, 64,
    69, 27, 80, 57, 68, 56
];

/// The table of powers for the modulus `m`; empty where `m` has no table.
pub closed spec fn exp_table(m: int) -> Seq<u16> {
    if m == 2 {
        EXP_2@
    } else if m == 3 {
        EXP_3@
    } else if m == 5 {
        EXP_5@
    } else if m == 7 {
        EXP_7@
    } else if m == 11 {
        EXP_11@
    } else if m == 13 {
        EXP_13@
    } else if m == 17 {
        EXP_17@
    } else if m == 19 {
        EXP_19@
    } else if m == 23 {
        EXP_23@
    } else if m == 29 {
        EXP_29@
    } else if m == 31 {
        EXP_31@
    } else if m == 37 {
        EXP_37@
    } else if m == 41 {
        EXP_41@
    } else if m == 43 {
        EXP_43@
    } else if m == 47 {
        EXP_47@
    } else if m == 53 {
        EXP_53@
    } else if m == 59 {
        EXP_59@
    } else if m == 61 {
        EXP_61@
    } else if m == 67 {
        EXP_67@
    } else if m == 71 {
        EXP_71@
    } else if m == 73 {
        EXP_73@
    } else if m == 79 {
        EXP_79@
    } else if m == 83 {
        EXP_83@
    } else if m == 89 {
        EXP_89@
    } else if m == 97 {
        EXP_97@
    } else if m == 101 {
        EXP_101@
    } else if m == 103 {
        EXP_103@
    } else if m == 107 {
        EXP_107@
    } else if m == 109 {
        EXP_109@
    } else if m == 113 {
        EXP_113@
    } else {
        Seq::empty()
    }
}

/// The table of discrete logarithms for the modulus `m`; empty where `m` has
/// no table.
pub closed spec fn dlog_table(m: int) -> Seq<u16> {
    if m == 2 {
        DLOG_2@
    } else if m == 3 {
        DLOG_3@
    } else if m == 5 {
        DLOG_5@
    } else if m == 7 {
        DLOG_7@
    } else if m == 11 {
        DLOG_11@
    } else if m == 13 {
        DLOG_13@
    } else if m == 17 {
        DLOG_17@
    } else if m == 19 {
        DLOG_19@
    } else if m == 23 {
        DLOG_23@
    } else if m == 29 {
        DLOG_29@
    } else if m == 31 {
        DLOG_31@
    } else if m == 37 {
        DLOG_37@
    } else if m == 41 {
        DLOG_41@
    } else if m == 43 {
        DLOG_43@
    } else if m == 47 {
        DLOG_47@
    } else if m == 53 {
        DLOG_53@
    } else if m == 59 {
        DLOG_59@
    } else if m == 61 {
        DLOG_61@
    } else if m == 67 {
        DLOG_67@
    } else if m == 71 {
        DLOG_71@
    } else if m == 73 {
        DLOG_73@
    } else if m == 79 {
        DLOG_79@
    } else if m == 83 {
        DLOG_83@
    } else if m == 89 {
        DLOG_89@
    } else if m == 97 {
        DLOG_97@
    } else if m == 101 {
        DLOG_101@
    } else if m == 103 {
        DLOG_103@
    } else if m == 107 {
        DLOG_107@
    } else if m == 109 {
        DLOG_109@
    } else if m == 113 {
        DLOG_113@
    } else {
        Seq::empty()
    }
}

#[verifier::spinoff_prover]
proof fn lemma_rows_2()
    ensures
        rows_hold(EXP_2@, DLOG_2@, 1, 2, 0, 1),
{
    reveal_with_fuel(rows_hold, 2);
}

#[verifier::spinoff_prover]
proof fn lemma_tables_2()
    ensures
        is_exp_table(EXP_2@, 1, 2),
        is_dlog_table(DLOG_2@, 1, 2),
{
    lemma_rows_2();
    lemma_tables_from_rows(EXP_2@, DLOG_2@, 1, 2);
}

#[verifier::spinoff_prover]
proof fn lemma_rows_3()
    ensures
        rows_hold(EXP_3@, DLOG_3@, 2, 3, 0, 2),
{
    reveal_with_fuel(rows_hold, 3);
}

#[verifier::spinoff_prover]
proof fn lemma_tables_3()
    ensures
        is_exp_table(EXP_3@, 2, 3),
        is_dlog_table(DLOG_3@, 2, 3),
{
    lemma_rows_3();
    lemma_tables_from_rows(EXP_3@, DLOG_3@, 2, 3);
}

#[verifier::spinoff_prover]
proof fn lemma_rows_5()
    ensures
        rows_hold(EXP_5@, DLOG_5@, 2, 5, 0, 4),
{
    reveal_with_fuel(rows_hold, 5);
}

#[verifier::spinoff_prover]
proof fn lemma_tables_5()
    ensures
        is_exp_table(EXP_5@, 2, 5),
        is_dlog_table(DLOG_5@, 2, 5),
{
    lemma_rows_5();
    lemma_tables_from_rows(EXP_5@, DLOG_5@, 2, 5);
}

#[verifier::spinoff_prover]
proof fn lemma_rows_7()
    ensures
        rows_hold(EXP_7@, DLOG_7@, 3, 7, 0, 6),
{
    reveal_with_fuel(rows_hold, 7);
}

#[verifier::spinoff_prover]
proof fn lemma_tables_7()
    ensures
        is_exp_table(EXP_7@, 3, 7),
        is_dlog_table(DLOG_7@, 3, 7),
{
    lemma_rows_7();
    lemma_tables_from_rows(EXP_7@, DLOG_7@, 3, 7);
}

#[verifier::spinoff_prover]
proof fn lemma_rows_11()
    ensures
        rows_hold(EXP_11@, DLOG_11@, 2, 11, 0, 10),
{
    reveal_with_fuel(rows_hold, 11);
}

#[verifier::spinoff_prover]
proof fn lemma_tables_11()
    ensures
        is_exp_table(EXP_11@, 2, 11),
        is_dlog_table(DLOG_11@, 2, 11),
{
    lemma_rows_11();
    lemma_tables_from_rows(EXP_11@, DLOG_11@, 2, 11);
}

#[verifier::spinoff_prover]
proof fn lemma_rows_13()
    ensures
        rows_hold(EXP_13@, DLOG_13@, 2, 13, 0, 12),
{
    reveal_with_fuel(rows_hold, 13);
}

#[verifier::spinoff_prover]
proof fn lemma_tables_13()
    ensures
        is_exp_table(EXP_13@, 2, 13),
        is_dlog_table(DLOG_13@, 2, 13),
{
    lemma_rows_13();
    lemma_tables_from_rows(EXP_13@, DLOG_13@, 2, 13);
}

#[verifier::spinoff_prover]
proof fn lemma_rows_17()
    ensures
        rows_hold(EXP_17@, DLOG_17@, 3, 17, 0, 16),
{
    reveal_with_fuel(rows_hold, 17);
}

#[verifier::spinoff_prover]
proof fn lemma_tables_17()
    ensures
        is_exp_table(EXP_17@, 3, 17),
        is_dlog_table(DLOG_17@, 3, 17),
{
    lemma_rows_17();
    lemma_tables_from_rows(EXP_17@, DLOG_17@, 3, 17);
}

#[verifier::spinoff_prover]
proof fn lemma_rows_19()
    ensures
        rows_hold(EXP_19@, DLOG_19@, 2, 19, 0, 18),
{
    reveal_with_fuel(rows_hold, 19);
}

#[verifier::spinoff_prover]
proof fn lemma_tables_19()
    ensures
        is_exp_table(EXP_19@, 2, 19),
        is_dlog_table(DLOG_19@, 2, 19),
{
    lemma_rows_19();
    lemma_tables_from_rows(EXP_19@, DLOG_19@, 2, 19);
}

#[verifier::spinoff_prover]
proof fn lemma_rows_23()
    ensures
        rows_hold(EXP_23@, DLOG_23@, 5, 23, 0, 22),
{
    reveal_with_fuel(rows_hold, 23);
}

#[verifier::spinoff_prover]
proof fn lemma_tables_23()
    ensures
        is_exp_table(EXP_23@, 5, 23),
        is_dlog_table(DLOG_23@, 5, 23),
{
    lemma_rows_23();
    lemma_tables_from_rows(EXP_23@, DLOG_23@, 5, 23);
}

#[verifier::spinoff_prover]
proof fn lemma_rows_29()
    ensures
        rows_hold(EXP_29@, DLOG_29@, 2, 29, 0, 28),
{
    reveal_with_fuel(rows_hold, 29);
}

#[verifier::spinoff_prover]
proof fn lemma_tables_29()
    ensures
        is_exp_table(EXP_29@, 2, 29),
        is_dlog_table(DLOG_29@, 2, 29),
{
    lemma_rows_29();
    lemma_tables_from_rows(EXP_29@, DLOG_29@, 2, 29);
}

#[verifier::spinoff_prover]
proof fn lemma_rows_31()
    ensures
        rows_hold(EXP_31@, DLOG_31@, 3, 31, 0, 30),
{
    reveal_with_fuel(rows_hold, 31);
}

#[verifier::spinoff_prover]
proof fn lemma_tables_31()
    ensures
        is_exp_table(EXP_31@, 3, 31),
        is_dlog_table(DLOG_31@, 3, 31),
{
    lemma_rows_31();
    lemma_tables_from_rows(EXP_31@, DLOG_31@, 3, 31);
}

#[verifier::spinoff_prover]
proof fn lemma_rows_37()
    ensures
        rows_hold(EXP_37@, DLOG_37@, 2, 37, 0, 36),
{
    reveal_with_fuel(rows_hold, 37);
}

#[verifier::spinoff_prover]
proof fn lemma_tables_37()
    ensures
        is_exp_table(EXP_37@, 2, 37),
        is_dlog_table(DLOG_37@, 2, 37),
{
    lemma_rows_37();
    lemma_tables_from_rows(EXP_37@, DLOG_37@, 2, 37);
}

#[verifier::spinoff_prover]
proof fn lemma_rows_41()
    ensures
        rows_hold(EXP_41@, DLOG_41@, 6, 41, 0, 40),
{
    reveal_with_fuel(rows_hold, 41);
}

#[verifier::spinoff_prover]
proof fn lemma_tables_41()
    ensures
        is_exp_table(EXP_41@, 6, 41),
        is_dlog_table(DLOG_41@, 6, 41),
{
    lemma_rows_41();
    lemma_tables_from_rows(EXP_41@, DLOG_41@, 6, 41);
}

#[verifier::spinoff_prover]
proof fn lemma_rows_43()
    ensures
        rows_hold(EXP_43@, DLOG_43@, 3, 43, 0, 42),
{
    reveal_with_fuel(rows_hold, 43);
}

#[verifier::spinoff_prover]
proof fn lemma_tables_43()
    ensures
        is_exp_table(EXP_43@, 3, 43),
        is_dlog_table(DLOG_43@, 3, 43),
{
    lemma_rows_43();
    lemma_tables_from_rows(EXP_43@, DLOG_43@, 3, 43);
}

#[verifier::spinoff_prover]
proof fn lemma_rows_47()
    ensures
        rows_hold(EXP_47@, DLOG_47@, 5, 47, 0, 46),
{
    reveal_with_fuel(rows_hold, 47);
}

#[verifier::spinoff_prover]
proof fn lemma_tables_47()
    ensures
        is_exp_table(EXP_47@, 5, 47),
        is_dlog_table(DLOG_47@, 5, 47),
{
    lemma_rows_47();
    lemma_tables_from_rows(EXP_47@, DLOG_47@, 5, 47);
}

#[verifier::spinoff_prover]
proof fn lemma_rows_53()
    ensures
        rows_hold(EXP_53@, DLOG_53@, 2, 53, 0, 52),
{
    reveal_with_fuel(rows_hold, 53);
}

#[verifier::spinoff_prover]
proof fn lemma_tables_53()
    ensures
        is_exp_table(EXP_53@, 2, 53),
        is_dlog_table(DLOG_53@, 2, 53),
{
    lemma_rows_53();
    lemma_tables_from_rows(EXP_53@, DLOG_53@, 2, 53);
}

#[verifier::spinoff_prover]
proof fn lemma_rows_59()
    ensures
        rows_hold(EXP_59@, DLOG_59@, 2, 59, 0, 58),
{
    reveal_with_fuel(rows_hold, 59);
}

#[verifier::spinoff_prover]
proof fn lemma_tables_59()
    ensures
        is_exp_table(EXP_59@, 2, 59),
        is_dlog_table(DLOG_59@, 2, 59),
{
    lemma_rows_59();
    lemma_tables_from_rows(EXP_59@, DLOG_59@, 2, 59);
}

#[verifier::spinoff_prover]
proof fn lemma_rows_61()
    ensures
        rows_hold(EXP_61@, DLOG_61@, 2, 61, 0, 60),
{
    reveal_with_fuel(rows_hold, 61);
}

#[verifier::spinoff_prover]
proof fn lemma_tables_61()
    ensures
        is_exp_table(EXP_61@, 2, 61),
        is_dlog_table(DLOG_61@, 2, 61),
{
    lemma_rows_61();
    lemma_tables_from_rows(EXP_61@, DLOG_61@, 2, 61);
}

#[verifier::spinoff_prover]
proof fn lemma_rows_67_low()
    ensures
        rows_hold(EXP_67@, DLOG_67@, 2, 67, 0, 64),
{
    reveal_with_fuel(rows_hold, 65);
}

#[verifier::spinoff_prover]
proof fn lemma_rows_67_high()
    ensures
        rows_hold(EXP_67@, DLOG_67@, 2, 67, 64, 66),
{
    reveal_with_fuel(rows_hold, 3);
}

#[verifier::spinoff_prover]
proof fn lemma_tables_67()
    ensures
        is_exp_table(EXP_67@, 2, 67),
        is_dlog_table(DLOG_67@, 2, 67),
{
    lemma_rows_67_low();
    lemma_rows_67_high();
    lemma_tables_from_rows(EXP_67@, DLOG_67@, 2, 67);
}

#[verifier::spinoff_prover]
proof fn lemma_rows_71_low()
    ensures
        rows_hold(EXP_71@, DLOG_71@, 7, 71, 0, 64),
{
    reveal_with_fuel(rows_hold, 65);
}

#[verifier::spinoff_prover]
proof fn lemma_rows_71_high()
    ensures
        rows_hold(EXP_71@, DLOG_71@, 7, 71, 64, 70),
{
    reveal_with_fuel(rows_hold, 7);
}

#[verifier::spinoff_prover]
proof fn lemma_tables_71()
    ensures
        is_exp_table(EXP_71@, 7, 71),
        is_dlog_table(DLOG_71@, 7, 71),
{
    lemma_rows_71_low();
    lemma_rows_71_high();
    lemma_tables_from_rows(EXP_71@, DLOG_71@, 7, 71);
}

#[verifier::spinoff_prover]
proof fn lemma_rows_73_low()
    ensures
        rows_hold(EXP_73@, DLOG_73@, 5, 73, 0, 64),
{
    reveal_with_fuel(rows_hold, 65);
}

#[verifier::spinoff_prover]
proof fn lemma_rows_73_high()
    ensures
        rows_hold(EXP_73@, DLOG_73@, 5, 73, 64, 72),
{
    reveal_with_fuel(rows_hold, 9);
}

#[verifier::spinoff_prover]
proof fn lemma_tables_73()
    ensures
        is_exp_table(EXP_73@, 5, 73),
        is_dlog_table(DLOG_73@, 5, 73),
{
    lemma_rows_73_low();
    lemma_rows_73_high();
    lemma_tables_from_rows(EXP_73@, DLOG_73@, 5, 73);
}

#[verifier::spinoff_prover]
proof fn lemma_rows_79_low()
    ensures
        rows_hold(EXP_79@, DLOG_79@, 3, 79, 0, 64),
{
    reveal_with_fuel(rows_hold, 65);
}

#[verifier::spinoff_prover]
proof fn lemma_rows_79_high()
    ensures
        rows_hold(EXP_79@, DLOG_79@, 3, 79, 64, 78),
{
    reveal_with_fuel(rows_hold, 15);
}

#[verifier::spinoff_prover]
proof fn lemma_tables_79()
    ensures
        is_exp_table(EXP_79@, 3, 79),
        is_dlog_table(DLOG_79@, 3, 79),
{
    lemma_rows_79_low();
    lemma_rows_79_high();
    lemma_tables_from_rows(EXP_79@, DLOG_79@, 3, 79);
}

#[verifier::spinoff_prover]
proof fn lemma_rows_83_low()
    ensures
        rows_hold(EXP_83@, DLOG_83@, 2, 83, 0, 64),
{
    reveal_with_fuel(rows_hold, 65);
}

#[verifier::spinoff_prover]
proof fn lemma_rows_83_high()
    ensures
        rows_hold(EXP_83@, DLOG_83@, 2, 83, 64, 82),
{
    reveal_with_fuel(rows_hold, 19);
}

#[verifier::spinoff_prover]
proof fn lemma_tables_83()
    ensures
        is_exp_table(EXP_83@, 2, 83),
        is_dlog_table(DLOG_83@, 2, 83),
{
    lemma_rows_83_low();
    lemma_rows_83_high();
    lemma_tables_from_rows(EXP_83@, DLOG_83@, 2, 83);
}

#[verifier::spinoff_prover]
proof fn lemma_rows_89_low()
    ensures
        rows_hold(EXP_89@, DLOG_89@, 3, 89, 0, 64),
{
    reveal_with_fuel(rows_hold, 65);
}

#[verifier::spinoff_prover]
proof fn lemma_rows_89_high()
    ensures
        rows_hold(EXP_89@, DLOG_89@, 3, 89, 64, 88),
{
    reveal_with_fuel(rows_hold, 25);
}

#[verifier::spinoff_prover]
proof fn lemma_tables_89()
    ensures
        is_exp_table(EXP_89@, 3, 89),
        is_dlog_table(DLOG_89@, 3, 89),
{
    lemma_rows_89_low();
    lemma_rows_89_high();
    lemma_tables_from_rows(EXP_89@, DLOG_89@, 3, 89);
}

#[verifier::spinoff_prover]
proof fn lemma_rows_97_low()
    ensures
        rows_hold(EXP_97@, DLOG_97@, 5, 97, 0, 64),
{
    reveal_with_fuel(rows_hold, 65);
}

#[verifier::spinoff_prover]
proof fn lemma_rows_97_high()
    ensures
        rows_hold(EXP_97@, DLOG_97@, 5, 97, 64, 96),
{
    reveal_with_fuel(rows_hold, 33);
}

#[verifier::spinoff_prover]
proof fn lemma_tables_97()
    ensures
        is_exp_table(EXP_97@, 5, 97),
        is_dlog_table(DLOG_97@, 5, 97),
{
    lemma_rows_97_low();
    lemma_rows_97_high();
    lemma_tables_from_rows(EXP_97@, DLOG_97@, 5, 97);
}

#[verifier::spinoff_prover]
proof fn lemma_rows_101_low()
    ensures
        rows_hold(EXP_101@, DLOG_101@, 2, 101, 0, 64),
{
    reveal_with_fuel(rows_hold, 65);
}

#[verifier::spinoff_prover]
proof fn lemma_rows_101_high()
    ensures
        rows_hold(EXP_101@, DLOG_101@, 2, 101, 64, 100),
{
    reveal_with_fuel(rows_hold, 37);
}

#[verifier::spinoff_prover]
proof fn lemma_tables_101()
    ensures
        is_exp_table(EXP_101@, 2, 101),
        is_dlog_table(DLOG_101@, 2, 101),
{
    lemma_rows_101_low();
    lemma_rows_101_high();
    lemma_tables_from_rows(EXP_101@, DLOG_101@, 2, 101);
}

#[verifier::spinoff_prover]
proof fn lemma_rows_103_low()
    ensures
        rows_hold(EXP_103@, DLOG_103@, 5, 103, 0, 64),
{
    reveal_with_fuel(rows_hold, 65);
}

#[verifier::spinoff_prover]
proof fn lemma_rows_103_high()
    ensures
        rows_hold(EXP_103@, DLOG_103@, 5, 103, 64, 102),
{
    reveal_with_fuel(rows_hold, 39);
}

#[verifier::spinoff_prover]
proof fn lemma_tables_103()
    ensures
        is_exp_table(EXP_103@, 5, 103),
        is_dlog_table(DLOG_103@, 5, 103),
{
    lemma_rows_103_low();
    lemma_rows_103_high();
    lemma_tables_from_rows(EXP_103@, DLOG_103@, 5, 103);
}

#[verifier::spinoff_prover]
proof fn lemma_rows_107_low()
    ensures
        rows_hold(EXP_107@, DLOG_107@, 2, 107, 0, 64),
{
    reveal_with_fuel(rows_hold, 65);
}

#[verifier::spinoff_prover]
proof fn lemma_rows_107_high()
    ensures
        rows_hold(EXP_107@, DLOG_107@, 2, 107, 64, 106),
{
    reveal_with_fuel(rows_hold, 43);
}

#[verifier::spinoff_prover]
proof fn lemma_tables_107()
    ensures
        is_exp_table(EXP_107@, 2, 107),
        is_dlog_table(DLOG_107@, 2, 107),
{
    lemma_rows_107_low();
    lemma_rows_107_high();
    lemma_tables_from_rows(EXP_107@, DLOG_107@, 2, 107);
}

#[verifier::spinoff_prover]
proof fn lemma_rows_109_low()
    ensures
        rows_hold(EXP_109@, DLOG_109@, 6, 109, 0, 64),
{
    reveal_with_fuel(rows_hold, 65);
}

#[verifier::spinoff_prover]
proof fn lemma_rows_109_high()
    ensures
        rows_hold(EXP_109@, DLOG_109@, 6, 109, 64, 108),
{
    reveal_with_fuel(rows_hold, 45);
}

#[verifier::spinoff_prover]
proof fn lemma_tables_109()
    ensures
        is_exp_table(EXP_109@, 6, 109),
        is_dlog_table(DLOG_109@, 6, 109),
{
    lemma_rows_109_low();
    lemma_rows_109_high();
    lemma_tables_from_rows(EXP_109@, DLOG_109@, 6, 109);
}

#[verifier::spinoff_prover]
proof fn lemma_rows_113_low()
    ensures
        rows_hold(EXP_113@, DLOG_113@, 3, 113, 0, 64),
{
    reveal_with_fuel(rows_hold, 65);
}

#[verifier::spinoff_prover]
proof fn lemma_rows_113_high()
    ensures
        rows_hold(EXP_113@, DLOG_113@, 3, 113, 64, 112),
{
    reveal_with_fuel(rows_hold, 49);
}

#[verifier::spinoff_prover]
proof fn lemma_tables_113()
    ensures
        is_exp_table(EXP_113@, 3, 113),
        is_dlog_table(DLOG_113@, 3, 113),
{
    lemma_rows_113_low();
    lemma_rows_113_high();
    lemma_tables_from_rows(EXP_113@, DLOG_113@, 3, 113);
}

/// Every table holds what its kind of table must hold: the table of powers
/// lists the powers of the generator, and the table of logarithms inverts it.
pub proof fn lemma_tables_hold(m: int)
    requires
        is_table_modulus(m),
    ensures
        is_exp_table(exp_table(m), table_root(m), m),
        is_dlog_table(dlog_table(m), table_root(m), m),
{
    if m == 2 {
        lemma_tables_2();
    } else if m == 3 {
        lemma_tables_3();
    } else if m == 5 {
        lemma_tables_5();
    } else if m == 7 {
        lemma_tables_7();
    } else if m == 11 {
        lemma_tables_11();
    } else if m == 13 {
        lemma_tables_13();
    } else if m == 17 {
        lemma_tables_17();
    } else if m == 19 {
        lemma_tables_19();
    } else if m == 23 {
        lemma_tables_23();
    } else if m == 29 {
        lemma_tables_29();
    } else if m == 31 {
        lemma_tables_31();
    } else if m == 37 {
        lemma_tables_37();
    } else if m == 41 {
        lemma_tables_41();
    } else if m == 43 {
        lemma_tables_43();
    } else if m == 47 {
        lemma_tables_47();
    } else if m == 53 {
        lemma_tables_53();
    } else if m == 59 {
        lemma_tables_59();
    } else if m == 61 {
        lemma_tables_61();
    } else if m == 67 {
        lemma_tables_67();
    } else if m == 71 {
        lemma_tables_71();
    } else if m == 73 {
        lemma_tables_73();
    } else if m == 79 {
        lemma_tables_79();
    } else if m == 83 {
        lemma_tables_83();
    } else if m == 89 {
        lemma_tables_89();
    } else if m == 97 {
        lemma_tables_97();
    } else if m == 101 {
        lemma_tables_101();
    } else if m == 103 {
        lemma_tables_103();
    } else if m == 107 {
        lemma_tables_107();
    } else if m == 109 {
        lemma_tables_109();
    } else if m == 113 {
        lemma_tables_113();
    }
}

/// The discrete logarithms of the residues modulo `m`, and the powers that
/// invert them, lead back to where they started: for a nonzero residue `x`, the
/// power at the logarithm of `x` is `x`, and so is the generator raised to that
/// logarithm by modular exponentiation.
pub proof fn lemma_dlog_inverts_exp(m: int, x: int)
    requires
        is_table_modulus(m),
        0 < x < m,
    ensures
        dlog_table(m).len() == m,
        exp_table(m).len() == m,
        dlog_table(m)[x] < m - 1,
        exp_table(m)[dlog_table(m)[x] as int] == x,
        powm_spec(table_root(m), dlog_table(m)[x] as nat, m) == x,
{
    lemma_tables_hold(m);
    let l = dlog_table(m)[x];
    assert(exp_table(m)[l as int] == pow(table_root(m), l as nat) % m);
    if l == 0 {
        vstd::arithmetic::power::lemma_pow0(table_root(m));
        vstd::arithmetic::div_mod::lemma_small_mod(1, m as nat);
    }
}

fn table_to_vec<const N: usize>(table: &[u16; N]) -> (v: Vec<u16>)
    ensures
        v@ == table@,
{
    let mut v: Vec<u16> = Vec::with_capacity(N);
    let mut i: usize = 0;
    while i < N
        invariant
            i <= N,
            v@ == table@.subrange(0, i as int),
        decreases N - i,
    {
        v.push(table[i]);
        i += 1;
        assert(v@ =~= table@.subrange(0, i as int));
    }
    assert(table@.subrange(0, N as int) =~= table@);
    v
}

/// The discrete logarithms modulo `modulus` to the base `table_root(modulus)`:
/// entry `x` is the exponent to which the root is raised to give `x`. Entry 0
/// is unused, as 0 has no logarithm. A modulus outside the thirty supported
/// primes is refused.
pub fn dlog_truth_table(modulus: u16) -> (r: Result<Vec<u16>, NumbersError>)
    ensures
        is_table_modulus(modulus as int) ==> r.is_ok() && r.unwrap()@ == dlog_table(modulus as int)
            && is_dlog_table(r.unwrap()@, table_root(modulus as int), modulus as int),
        !is_table_modulus(modulus as int) ==> r.is_err() && r.unwrap_err()
            == NumbersError::UnsupportedModulus,
{
    let t = match modulus {
        2 => table_to_vec(&DLOG_2),
        3 => table_to_vec(&DLOG_3),
        5 => table_to_vec(&DLOG_5),
        7 => table_to_vec(&DLOG_7),
        11 => table_to_vec(&DLOG_11),
        13 => table_to_vec(&DLOG_13),
        17 => table_to_vec(&DLOG_17),
        19 => table_to_vec(&DLOG_19),
        23 => table_to_vec(&DLOG_23),
        29 => table_to_vec(&DLOG_29),
        31 => table_to_vec(&DLOG_31),
        37 => table_to_vec(&DLOG_37),
        41 => table_to_vec(&DLOG_41),
        43 => table_to_vec(&DLOG_43),
        47 => table_to_vec(&DLOG_47),
        53 => table_to_vec(&DLOG_53),
        59 => table_to_vec(&DLOG_59),
        61 => table_to_vec(&DLOG_61),
        67 => table_to_vec(&DLOG_67),
        71 => table_to_vec(&DLOG_71),
        73 => table_to_vec(&DLOG_73),
        79 => table_to_vec(&DLOG_79),
        83 => table_to_vec(&DLOG_83),
        89 => table_to_vec(&DLOG_89),
        97 => table_to_vec(&DLOG_97),
        101 => table_to_vec(&DLOG_101),
        103 => table_to_vec(&DLOG_103),
        107 => table_to_vec(&DLOG_107),
        109 => table_to_vec(&DLOG_109),
        113 => table_to_vec(&DLOG_113),
        _ => {
            return Err(NumbersError::UnsupportedModulus);
        },
    };
    proof {
        lemma_tables_hold(modulus as int);
    }
    Ok(t)
}

/// The powers of `table_root(modulus)` modulo `modulus`: entry `i` is the root
/// raised to `i`. A modulus outside the thirty supported primes is refused.
pub fn exp_truth_table(modulus: u16) -> (r: Result<Vec<u16>, NumbersError>)
    ensures
        is_table_modulus(modulus as int) ==> r.is_ok() && r.unwrap()@ == exp_table(modulus as int)
            && is_exp_table(r.unwrap()@, table_root(modulus as int), modulus as int),
        !is_table_modulus(modulus as int) ==> r.is_err() && r.unwrap_err()
            == NumbersError::UnsupportedModulus,
{
    let t = match modulus {
        2 => table_to_vec(&EXP_2),
        3 => table_to_vec(&EXP_3),
        5 => table_to_vec(&EXP_5),
        7 => table_to_vec(&EXP_7),
        11 => table_to_vec(&EXP_11),
        13 => table_to_vec(&EXP_13),
        17 => table_to_vec(&EXP_17),
        19 => table_to_vec(&EXP_19),
        23 => table_to_vec(&EXP_23),
        29 => table_to_vec(&EXP_29),
        31 => table_to_vec(&EXP_31),
        37 => table_to_vec(&EXP_37),
        41 => table_to_vec(&EXP_41),
        43 => table_to_vec(&EXP_43),
        47 => table_to_vec(&EXP_47),
        53 => table_to_vec(&EXP_53),
        59 => table_to_vec(&EXP_59),
        61 => table_to_vec(&EXP_61),
        67 => table_to_vec(&EXP_67),
        71 => table_to_vec(&EXP_71),
        73 => table_to_vec(&EXP_73),
        79 => table_to_vec(&EXP_79),
        83 => table_to_vec(&EXP_83),
        89 => table_to_vec(&EXP_89),
        97 => table_to_vec(&EXP_97),
        101 => table_to_vec(&EXP_101),
        103 => table_to_vec(&EXP_103),
        107 => table_to_vec(&EXP_107),
        109 => table_to_vec(&EXP_109),
        113 => table_to_vec(&EXP_113),
        _ => {
            return Err(NumbersError::UnsupportedModulus);
        },
    };
    proof {
        lemma_tables_hold(modulus as int);
    }
    Ok(t)
}

} // verus!
