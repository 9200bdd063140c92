//! Obfuscated event paths.
//!
//! A generated path hides the hostname of the site behind a random prefix and
//! one of the substitution tables below; `validate` recognises such a path for
//! the hostname it was generated for.
use vstd::prelude::*;
use vstd::utf8::*;
use crate::text::{chars_of, push_char, string_from_chars, same_chars};
use rand::seq::SliceRandom;
use rand::Rng;

verus! {

/// The lengths that a generated random prefix can take.
pub const SIZES: [i32; 24] = [23, 37, 52, 65, 72, 88, 92, 101, 134, 141, 144, 167, 168, 181, 195, 204, 231, 235, 256, 283, 301, 303, 310, 322];

/// The characters that the substitution tables act on.
pub const PLAIN: [char; 38] = [
    'a', 'b', 'c', 'd', 'e', 'f', 'g', 'h', 'i', 'j', 'k', 'l', 'm', 'n', 'o', 'p', 'q', 'r', 's', 't', 'u', 'v', 'w', 'x', 'y', 'z', '0', '1', '2', '3', '4', '5', '6', '7', '8', '9', '-', '.',
];

/// One substitution table per row: `PLAIN[i]` is replaced by `CORRESPONDENCE[row][i]`.
pub const CORRESPONDENCE: [[char; 38]; 24] = [
    ['k', 'd', 'g', 'a', 'j', 'e', 'p', '2', '5', 'y', 't', 'm', 'n', 'w', 'r', 'z', '7', 'x', '3', '8', 'b', '6', 'c', 'u', 'q', 'i', 's', '4', '1', '-', 'v', 'l', '9', 'h', 'o', 'f', '.', '0'],
    ['b', 's', 'y', 'f', '1', 'x', '5', 'v', '3', '.', '4', 'e', 'i', '6', 'q', 'n', 'u', '8', 'm', 'c', '0', 'd', 't', '7', 'l', 'z', 'k', 'a', '-', '2', 'r', 'o', 'j', 'w', '9', 'g', 'h', 'p'],
    ['-', 'x', 's', 'z', 'm', '6', '2', '8', 'f', 'i', 'y', 'o', 'b', '5', 'e', 'r', 'p', 'q', 'n', 'h', 'u', 'c', '0', 'w', 'd', '3', 'g', 'a', '4', '1', 't', 'v', 'k', '7', 'j', '.', '9', 'l'],
    ['3', 'l', 'r', 'a', 'i', 'j', 'q', 'y', 'c', 'b', 'f', 'n', 'e', 'v', '2', '6', '4', 'u', '7', 'o', '5', '9', 'z', 'k', 's', '.', 'd', 'p', 'w', '0', '8', 'g', '1', 'x', '-', 'm', 'h', 't'],
    ['n', 'r', 'm', '4', '3', '7', 'g', 'a', 'u', 'o', 'p', '9', 'i', 'd', 's', 'j', 'v', 'w', '8', 'f', '5', 'x', '6', 'k', 'y', 'z', 'q', '.', 'l', '1', '2', 'e', '0', 'h', 't', 'b', '-', 'c'],
    ['j', '-', 'y', 'i', '7', 'c', '4', '9', 'u', 'f', '8', 'z', 'd', 'q', '3', 'r', 'e', 'o', '6', 'h', 'v', 'k', 'b', '1', 'g', 'm', '.', 'n', 'l', 't', 'w', 'x', 'p', 's', '0', '2', 'a', '5'],
    ['o', 'p', 'g', 'e', 'u', '9', 'f', 't', 'a', 'q', 'b', 'r', 'x', '2', '8', '1', 'n', 'c', '6', 'h', 'l', '5', '-', 's', 'z', '3', '7', 'v', 'y', '4', '.', 'm', 'd', 'i', 'k', 'w', 'j', '0'],
    ['w', 'g', 'i', 'm', '3', 'r', '2', 's', 'a', 'b', '8', 'c', '5', 'h', 'e', 'y', '9', 'p', 'k', 'd', 'l', 'j', 'q', 'u', '0', 'v', '.', '-', 't', '6', 'z', 'x', 'n', '7', 'f', '4', 'o', '1'],
    ['1', '2', 'k', 'e', 'l', 'c', 'x', 'z', 's', '-', 'a', 'y', '8', '9', '5', 'v', 'n', '6', 'h', '0', '3', 'j', 'i', '7', 'g', 'q', '4', 'u', 'd', 'p', '.', 'o', 'r', 'w', 'b', 't', 'f', 'm'],
    ['5', '3', 'g', 'f', 'p', 'u', 'k', 'w', '8', 'e', '2', 'y', 'l', 'm', 'j', 's', 'b', '7', '4', 't', 'x', 'i', 'd', '0', 'z', '-', 'h', '6', 'o', '.', 'c', '9', 'n', '1', 'q', 'a', 'v', 'r'],
    ['1', 'k', 'e', '5', '9', 'x', 'h', 'g', '2', 'v', 'j', 'm', 'f', '4', '.', 'p', 'b', 'q', '7', 'l', 'r', 'i', 'a', '8', 'y', 'z', 'c', '0', 'n', 't', '3', '6', '-', 'd', 'o', 'w', 's', 'u'],
    ['8', 'v', 'b', 'q', 'k', '.', 'y', 'a', '5', 'c', 'n', 'g', '2', '0', 'd', 'j', 'l', '9', 'm', 'e', 'r', 'i', '3', 'x', '6', 's', 'w', '4', 'h', 'o', 'f', 't', '-', '1', 'u', 'p', 'z', '7'],
    ['w', '0', '6', 'k', 'j', '3', 'c', 'b', 't', '7', 'o', '-', 'e', '5', '9', 'd', 'n', 'y', 'x', 'v', 'q', 'i', 'z', 'l', 'f', 'a', '4', 'p', '8', 'h', '.', 'g', '1', 'u', '2', 'm', 's', 'r'],
    ['7', 'x', 'n', 'l', 'r', 'z', 'u', 'a', 'v', 'e', 'd', '1', 'y', '2', 'c', '3', '4', '.', 'k', 'h', 't', 'i', 'f', '6', '-', 'j', 'w', 'o', '0', 'm', '8', 'g', 'b', 's', 'q', 'p', '9', '5'],
    ['d', '1', 's', 'g', '3', '6', 'v', 'n', 'f', 'q', 'w', 'b', '0', 'k', 'c', '5', 'e', '2', 'h', 'p', 'i', 'y', 'j', '4', 't', '9', 'm', 'u', '7', '.', '8', 'r', 'o', 'a', 'x', 'z', '-', 'l'],
    ['c', '2', '7', 'n', 'z', 'm', 'x', 'h', 'i', 'v', '0', '.', 'u', 'g', 'l', '9', 'w', 'b', 'p', 'y', 'e', 'o', '5', 'f', '-', '8', '4', '1', 'q', 'k', 'a', 'd', 's', '3', 'j', 'r', 't', '6'],
    ['2', '0', 'q', '5', 'i', 't', 'h', '9', 'l', 'd', 'u', '6', '-', 'z', 'v', '7', 'x', 'w', 'g', 'c', 'a', '3', 'r', 'e', 'k', 'm', '8', 'b', 'n', '.', 'y', 's', '4', 'j', 'o', 'f', 'p', '1'],
    ['2', 'y', '1', 'z', 'p', '6', 'm', 'u', 'v', 'k', '-', 'd', 'f', 'i', 'g', 'n', 'l', '3', 'q', 'e', 'o', 'r', '0', 'j', '5', 'w', 's', 'h', 'c', 't', 'a', '.', '8', '9', '4', 'b', '7', 'x'],
    ['6', 'e', 'j', 'y', '2', 'b', 'g', '8', 'l', '9', 'z', 'w', 's', 'i', 'h', 'x', 'v', 'm', 'a', '1', '7', '5', 'u', '.', 'r', 'n', '3', '-', 'k', '0', 'c', 'd', 't', 'q', 'p', 'o', 'f', '4'],
    ['w', 'y', 's', '8', 'm', 'b', 'r', 'p', '0', 'k', '4', '9', 'f', 'h', '5', 'x', 'c', 'd', 't', 'i', 'g', 'e', 'q', '-', '3', 'o', 'u', 'a', 'z', '2', '.', 'n', 'v', 'l', 'j', '1', '6', '7'],
    ['8', 's', 'm', '1', '7', 'd', 'y', '0', 'p', 't', '.', '3', 'u', 'q', 'j', 'w', '-', '4', 'x', 'e', 'a', '9', 'o', 'c', 'r', 'h', 'g', 'k', 'v', '6', 'n', '2', 'f', 'z', 'i', 'l', 'b', '5'],
    ['j', 'm', 'k', '9', '4', 'g', 'q', 'd', 'x', 'w', 'y', 'v', '3', 'b', 'c', 'f', '5', '6', '2', 'p', 'e', 'a', 'n', 'i', 't', 'z', '-', '1', 'o', 'l', '8', 'h', 'r', '.', '7', '0', 'u', 's'],
    ['9', '4', 'g', 'z', 'r', '-', 'u', 'o', '.', 'x', '7', 'd', 'w', '3', 't', 'n', 's', 'f', 'l', '1', '2', 'k', 'y', 'i', '0', '5', 'c', 'p', 'j', 'b', 'm', '6', 'a', 'v', '8', 'e', 'h', 'q'],
    ['n', '6', 'o', 'k', 'l', 't', '3', 'a', 'f', 'y', '5', '7', 'm', 'q', 'p', '.', '1', 'e', 'd', 'c', '-', 'u', '4', 's', 'g', 'v', '8', 'r', '0', 'b', '2', 'x', 'z', 'j', '9', 'w', 'i', 'h'],
];

/// The alphabet of generated random prefixes: it cannot spell the product name.
pub const CHARSET: [u8; 61] = [97, 98, 99, 102, 104, 105, 106, 107, 108, 109, 110, 111, 112, 113, 114, 115, 116, 117, 118, 119, 120, 121, 122, 65, 66, 67, 68, 70, 71, 72, 73, 74, 75, 76, 77, 78, 79, 80, 81, 82, 83, 84, 85, 86, 87, 88, 89, 90, 48, 49, 50, 51, 52, 53, 54, 55, 56, 57, 45, 95, 46];

spec fn plain_char_at(i: int) -> char {
    if i == 0 {
        'a'
    } else if i == 1 {
        'b'
    } else if i == 2 {
        'c'
    } else if i == 3 {
        'd'
    } else if i == 4 {
        'e'
    } else if i == 5 {
        'f'
    } else if i == 6 {
        'g'
    } else if i == 7 {
        'h'
    } else if i == 8 {
        'i'
    } else if i == 9 {
        'j'
    } else if i == 10 {
        'k'
    } else if i == 11 {
        'l'
    } else if i == 12 {
        'm'
    } else if i == 13 {
        'n'
    } else if i == 14 {
        'o'
    } else if i == 15 {
        'p'
    } else if i == 16 {
        'q'
    } else if i == 17 {
        'r'
    } else if i == 18 {
        's'
    } else if i == 19 {
        't'
    } else if i == 20 {
        'u'
    } else if i == 21 {
        'v'
    } else if i == 22 {
        'w'
    } else if i == 23 {
        'x'
    } else if i == 24 {
        'y'
    } else if i == 25 {
        'z'
    } else if i == 26 {
        '0'
    } else if i == 27 {
        '1'
    } else if i == 28 {
        '2'
    } else if i == 29 {
        '3'
    } else if i == 30 {
        '4'
    } else if i == 31 {
        '5'
    } else if i == 32 {
        '6'
    } else if i == 33 {
        '7'
    } else if i == 34 {
        '8'
    } else if i == 35 {
        '9'
    } else if i == 36 {
        '-'
    } else if i == 37 {
        '.'
    } else {
        ' '
    }
}

spec fn plain_pos(c: char) -> int {
    match c {
        'a' => 0,
        'b' => 1,
        'c' => 2,
        'd' => 3,
        'e' => 4,
        'f' => 5,
        'g' => 6,
        'h' => 7,
        'i' => 8,
        'j' => 9,
        'k' => 10,
        'l' => 11,
        'm' => 12,
        'n' => 13,
        'o' => 14,
        'p' => 15,
        'q' => 16,
        'r' => 17,
        's' => 18,
        't' => 19,
        'u' => 20,
        'v' => 21,
        'w' => 22,
        'x' => 23,
        'y' => 24,
        'z' => 25,
        '0' => 26,
        '1' => 27,
        '2' => 28,
        '3' => 29,
        '4' => 30,
        '5' => 31,
        '6' => 32,
        '7' => 33,
        '8' => 34,
        '9' => 35,
        '-' => 36,
        '.' => 37,
        _ => -1,
    }
}

spec fn row_char_at_0(i: int) -> char {
    if i == 0 {
        'k'
    } else if i == 1 {
        'd'
    } else if i == 2 {
        'g'
    } else if i == 3 {
        'a'
    } else if i == 4 {
        'j'
    } else if i == 5 {
        'e'
    } else if i == 6 {
        'p'
    } else if i == 7 {
        '2'
    } else if i == 8 {
        '5'
    } else if i == 9 {
        'y'
    } else if i == 10 {
        't'
    } else if i == 11 {
        'm'
    } else if i == 12 {
        'n'
    } else if i == 13 {
        'w'
    } else if i == 14 {
        'r'
    } else if i == 15 {
        'z'
    } else if i == 16 {
        '7'
    } else if i == 17 {
        'x'
    } else if i == 18 {
        '3'
    } else if i == 19 {
        '8'
    } else if i == 20 {
        'b'
    } else if i == 21 {
        '6'
    } else if i == 22 {
        'c'
    } else if i == 23 {
        'u'
    } else if i == 24 {
        'q'
    } else if i == 25 {
        'i'
    } else if i == 26 {
        's'
    } else if i == 27 {
        '4'
    } else if i == 28 {
        '1'
    } else if i == 29 {
        '-'
    } else if i == 30 {
        'v'
    } else if i == 31 {
        'l'
    } else if i == 32 {
        '9'
    } else if i == 33 {
        'h'
    } else if i == 34 {
        'o'
    } else if i == 35 {
        'f'
    } else if i == 36 {
        '.'
    } else if i == 37 {
        '0'
    } else {
        ' '
    }
}

spec fn row_pos_0(c: char) -> int {
    match c {
        'k' => 0,
        'd' => 1,
        'g' => 2,
        'a' => 3,
        'j' => 4,
        'e' => 5,
        'p' => 6,
        '2' => 7,
        '5' => 8,
        'y' => 9,
        't' => 10,
        'm' => 11,
        'n' => 12,
        'w' => 13,
        'r' => 14,
        'z' => 15,
        '7' => 16,
        'x' => 17,
        '3' => 18,
        '8' => 19,
        'b' => 20,
        '6' => 21,
        'c' => 22,
        'u' => 23,
        'q' => 24,
        'i' => 25,
        's' => 26,
        '4' => 27,
        '1' => 28,
        '-' => 29,
        'v' => 30,
        'l' => 31,
        '9' => 32,
        'h' => 33,
        'o' => 34,
        'f' => 35,
        '.' => 36,
        '0' => 37,
        _ => -1,
    }
}

proof fn lemma_row_0()
    ensures
        forall|i: int| 0 <= i < 38 ==> {
            &&& CORRESPONDENCE@[0]@[i] == row_char_at_0(i)
            &&& row_pos_0(row_char_at_0(i)) == i
            &&& plain_pos(row_char_at_0(i)) >= 0
        },
        forall|c: char| row_pos_0(c) >= 0 ==> {
            &&& row_pos_0(c) < 38
            &&& row_char_at_0(row_pos_0(c)) == c
        },
{
}

spec fn row_char_at_1(i: int) -> char {
    if i == 0 {
        'b'
    } else if i == 1 {
        's'
    } else if i == 2 {
        'y'
    } else if i == 3 {
        'f'
    } else if i == 4 {
        '1'
    } else if i == 5 {
        'x'
    } else if i == 6 {
        '5'
    } else if i == 7 {
        'v'
    } else if i == 8 {
        '3'
    } else if i == 9 {
        '.'
    } else if i == 10 {
        '4'
    } else if i == 11 {
        'e'
    } else if i == 12 {
        'i'
    } else if i == 13 {
        '6'
    } else if i == 14 {
        'q'
    } else if i == 15 {
        'n'
    } else if i == 16 {
        'u'
    } else if i == 17 {
        '8'
    } else if i == 18 {
        'm'
    } else if i == 19 {
        'c'
    } else if i == 20 {
        '0'
    } else if i == 21 {
        'd'
    } else if i == 22 {
        't'
    } else if i == 23 {
        '7'
    } else if i == 24 {
        'l'
    } else if i == 25 {
        'z'
    } else if i == 26 {
        'k'
    } else if i == 27 {
        'a'
    } else if i == 28 {
        '-'
    } else if i == 29 {
        '2'
    } else if i == 30 {
        'r'
    } else if i == 31 {
        'o'
    } else if i == 32 {
        'j'
    } else if i == 33 {
        'w'
    } else if i == 34 {
        '9'
    } else if i == 35 {
        'g'
    } else if i == 36 {
        'h'
    } else if i == 37 {
        'p'
    } else {
        ' '
    }
}

spec fn row_pos_1(c: char) -> int {
    match c {
        'b' => 0,
        's' => 1,
        'y' => 2,
        'f' => 3,
        '1' => 4,
        'x' => 5,
        '5' => 6,
        'v' => 7,
        '3' => 8,
        '.' => 9,
        '4' => 10,
        'e' => 11,
        'i' => 12,
        '6' => 13,
        'q' => 14,
        'n' => 15,
        'u' => 16,
        '8' => 17,
        'm' => 18,
        'c' => 19,
        '0' => 20,
        'd' => 21,
        't' => 22,
        '7' => 23,
        'l' => 24,
        'z' => 25,
        'k' => 26,
        'a' => 27,
        '-' => 28,
        '2' => 29,
        'r' => 30,
        'o' => 31,
        'j' => 32,
        'w' => 33,
        '9' => 34,
        'g' => 35,
        'h' => 36,
        'p' => 37,
        _ => -1,
    }
}

proof fn lemma_row_1()
    ensures
        forall|i: int| 0 <= i < 38 ==> {
            &&& CORRESPONDENCE@[1]@[i] == row_char_at_1(i)
            &&& row_pos_1(row_char_at_1(i)) == i
            &&& plain_pos(row_char_at_1(i)) >= 0
        },
        forall|c: char| row_pos_1(c) >= 0 ==> {
            &&& row_pos_1(c) < 38
            &&& row_char_at_1(row_pos_1(c)) == c
        },
{
}

spec fn row_char_at_2(i: int) -> char {
    if i == 0 {
        '-'
    } else if i == 1 {
        'x'
    } else if i == 2 {
        's'
    } else if i == 3 {
        'z'
    } else if i == 4 {
        'm'
    } else if i == 5 {
        '6'
    } else if i == 6 {
        '2'
    } else if i == 7 {
        '8'
    } else if i == 8 {
        'f'
    } else if i == 9 {
        'i'
    } else if i == 10 {
        'y'
    } else if i == 11 {
        'o'
    } else if i == 12 {
        'b'
    } else if i == 13 {
        '5'
    } else if i == 14 {
        'e'
    } else if i == 15 {
        'r'
    } else if i == 16 {
        'p'
    } else if i == 17 {
        'q'
    } else if i == 18 {
        'n'
    } else if i == 19 {
        'h'
    } else if i == 20 {
        'u'
    } else if i == 21 {
        'c'
    } else if i == 22 {
        '0'
    } else if i == 23 {
        'w'
    } else if i == 24 {
        'd'
    } else if i == 25 {
        '3'
    } else if i == 26 {
        'g'
    } else if i == 27 {
        'a'
    } else if i == 28 {
        '4'
    } else if i == 29 {
        '1'
    } else if i == 30 {
        't'
    } else if i == 31 {
        'v'
    } else if i == 32 {
        'k'
    } else if i == 33 {
        '7'
    } else if i == 34 {
        'j'
    } else if i == 35 {
        '.'
    } else if i == 36 {
        '9'
    } else if i == 37 {
        'l'
    } else {
        ' '
    }
}

spec fn row_pos_2(c: char) -> int {
    match c {
        '-' => 0,
        'x' => 1,
        's' => 2,
        'z' => 3,
        'm' => 4,
        '6' => 5,
        '2' => 6,
        '8' => 7,
        'f' => 8,
        'i' => 9,
        'y' => 10,
        'o' => 11,
        'b' => 12,
        '5' => 13,
        'e' => 14,
        'r' => 15,
        'p' => 16,
        'q' => 17,
        'n' => 18,
        'h' => 19,
        'u' => 20,
        'c' => 21,
        '0' => 22,
        'w' => 23,
        'd' => 24,
        '3' => 25,
        'g' => 26,
        'a' => 27,
        '4' => 28,
        '1' => 29,
        't' => 30,
        'v' => 31,
        'k' => 32,
        '7' => 33,
        'j' => 34,
        '.' => 35,
        '9' => 36,
        'l' => 37,
        _ => -1,
    }
}

proof fn lemma_row_2()
    ensures
        forall|i: int| 0 <= i < 38 ==> {
            &&& CORRESPONDENCE@[2]@[i] == row_char_at_2(i)
            &&& row_pos_2(row_char_at_2(i)) == i
            &&& plain_pos(row_char_at_2(i)) >= 0
        },
        forall|c: char| row_pos_2(c) >= 0 ==> {
            &&& row_pos_2(c) < 38
            &&& row_char_at_2(row_pos_2(c)) == c
        },
{
}

spec fn row_char_at_3(i: int) -> char {
    if i == 0 {
        '3'
    } else if i == 1 {
        'l'
    } else if i == 2 {
        'r'
    } else if i == 3 {
        'a'
    } else if i == 4 {
        'i'
    } else if i == 5 {
        'j'
    } else if i == 6 {
        'q'
    } else if i == 7 {
        'y'
    } else if i == 8 {
        'c'
    } else if i == 9 {
        'b'
    } else if i == 10 {
        'f'
    } else if i == 11 {
        'n'
    } else if i == 12 {
        'e'
    } else if i == 13 {
        'v'
    } else if i == 14 {
        '2'
    } else if i == 15 {
        '6'
    } else if i == 16 {
        '4'
    } else if i == 17 {
        'u'
    } else if i == 18 {
        '7'
    } else if i == 19 {
        'o'
    } else if i == 20 {
        '5'
    } else if i == 21 {
        '9'
    } else if i == 22 {
        'z'
    } else if i == 23 {
        'k'
    } else if i == 24 {
        's'
    } else if i == 25 {
        '.'
    } else if i == 26 {
        'd'
    } else if i == 27 {
        'p'
    } else if i == 28 {
        'w'
    } else if i == 29 {
        '0'
    } else if i == 30 {
        '8'
    } else if i == 31 {
        'g'
    } else if i == 32 {
        '1'
    } else if i == 33 {
        'x'
    } else if i == 34 {
        '-'
    } else if i == 35 {
        'm'
    } else if i == 36 {
        'h'
    } else if i == 37 {
        't'
    } else {
        ' '
    }
}

spec fn row_pos_3(c: char) -> int {
    match c {
        '3' => 0,
        'l' => 1,
        'r' => 2,
        'a' => 3,
        'i' => 4,
        'j' => 5,
        'q' => 6,
        'y' => 7,
        'c' => 8,
        'b' => 9,
        'f' => 10,
        'n' => 11,
        'e' => 12,
        'v' => 13,
        '2' => 14,
        '6' => 15,
        '4' => 16,
        'u' => 17,
        '7' => 18,
        'o' => 19,
        '5' => 20,
        '9' => 21,
        'z' => 22,
        'k' => 23,
        's' => 24,
        '.' => 25,
        'd' => 26,
        'p' => 27,
        'w' => 28,
        '0' => 29,
        '8' => 30,
        'g' => 31,
        '1' => 32,
        'x' => 33,
        '-' => 34,
        'm' => 35,
        'h' => 36,
        't' => 37,
        _ => -1,
    }
}

proof fn lemma_row_3()
    ensures
        forall|i: int| 0 <= i < 38 ==> {
            &&& CORRESPONDENCE@[3]@[i] == row_char_at_3(i)
            &&& row_pos_3(row_char_at_3(i)) == i
            &&& plain_pos(row_char_at_3(i)) >= 0
        },
        forall|c: char| row_pos_3(c) >= 0 ==> {
            &&& row_pos_3(c) < 38
            &&& row_char_at_3(row_pos_3(c)) == c
        },
{
}

spec fn row_char_at_4(i: int) -> char {
    if i == 0 {
        'n'
    } else if i == 1 {
        'r'
    } else if i == 2 {
        'm'
    } else if i == 3 {
        '4'
    } else if i == 4 {
        '3'
    } else if i == 5 {
        '7'
    } else if i == 6 {
        'g'
    } else if i == 7 {
        'a'
    } else if i == 8 {
        'u'
    } else if i == 9 {
        'o'
    } else if i == 10 {
        'p'
    } else if i == 11 {
        '9'
    } else if i == 12 {
        'i'
    } else if i == 13 {
        'd'
    } else if i == 14 {
        's'
    } else if i == 15 {
        'j'
    } else if i == 16 {
        'v'
    } else if i == 17 {
        'w'
    } else if i == 18 {
        '8'
    } else if i == 19 {
        'f'
    } else if i == 20 {
        '5'
    } else if i == 21 {
        'x'
    } else if i == 22 {
        '6'
    } else if i == 23 {
        'k'
    } else if i == 24 {
        'y'
    } else if i == 25 {
        'z'
    } else if i == 26 {
        'q'
    } else if i == 27 {
        '.'
    } else if i == 28 {
        'l'
    } else if i == 29 {
        '1'
    } else if i == 30 {
        '2'
    } else if i == 31 {
        'e'
    } else if i == 32 {
        '0'
    } else if i == 33 {
        'h'
    } else if i == 34 {
        't'
    } else if i == 35 {
        'b'
    } else if i == 36 {
        '-'
    } else if i == 37 {
        'c'
    } else {
        ' '
    }
}

spec fn row_pos_4(c: char) -> int {
    match c {
        'n' => 0,
        'r' => 1,
        'm' => 2,
        '4' => 3,
        '3' => 4,
        '7' => 5,
        'g' => 6,
        'a' => 7,
        'u' => 8,
        'o' => 9,
        'p' => 10,
        '9' => 11,
        'i' => 12,
        'd' => 13,
        's' => 14,
        'j' => 15,
        'v' => 16,
        'w' => 17,
        '8' => 18,
        'f' => 19,
        '5' => 20,
        'x' => 21,
        '6' => 22,
        'k' => 23,
        'y' => 24,
        'z' => 25,
        'q' => 26,
        '.' => 27,
        'l' => 28,
        '1' => 29,
        '2' => 30,
        'e' => 31,
        '0' => 32,
        'h' => 33,
        't' => 34,
        'b' => 35,
        '-' => 36,
        'c' => 37,
        _ => -1,
    }
}

proof fn lemma_row_4()
    ensures
        forall|i: int| 0 <= i < 38 ==> {
            &&& CORRESPONDENCE@[4]@[i] == row_char_at_4(i)
            &&& row_pos_4(row_char_at_4(i)) == i
            &&& plain_pos(row_char_at_4(i)) >= 0
        },
        forall|c: char| row_pos_4(c) >= 0 ==> {
            &&& row_pos_4(c) < 38
            &&& row_char_at_4(row_pos_4(c)) == c
        },
{
}

spec fn row_char_at_5(i: int) -> char {
    if i == 0 {
        'j'
    } else if i == 1 {
        '-'
    } else if i == 2 {
        'y'
    } else if i == 3 {
        'i'
    } else if i == 4 {
        '7'
    } else if i == 5 {
        'c'
    } else if i == 6 {
        '4'
    } else if i == 7 {
        '9'
    } else if i == 8 {
        'u'
    } else if i == 9 {
        'f'
    } else if i == 10 {
        '8'
    } else if i == 11 {
        'z'
    } else if i == 12 {
        'd'
    } else if i == 13 {
        'q'
    } else if i == 14 {
        '3'
    } else if i == 15 {
        'r'
    } else if i == 16 {
        'e'
    } else if i == 17 {
        'o'
    } else if i == 18 {
        '6'
    } else if i == 19 {
        'h'
    } else if i == 20 {
        'v'
    } else if i == 21 {
        'k'
    } else if i == 22 {
        'b'
    } else if i == 23 {
        '1'
    } else if i == 24 {
        'g'
    } else if i == 25 {
        'm'
    } else if i == 26 {
        '.'
    } else if i == 27 {
        'n'
    } else if i == 28 {
        'l'
    } else if i == 29 {
        't'
    } else if i == 30 {
        'w'
    } else if i == 31 {
        'x'
    } else if i == 32 {
        'p'
    } else if i == 33 {
        's'
    } else if i == 34 {
        '0'
    } else if i == 35 {
        '2'
    } else if i == 36 {
        'a'
    } else if i == 37 {
        '5'
    } else {
        ' '
    }
}

spec fn row_pos_5(c: char) -> int {
    match c {
        'j' => 0,
        '-' => 1,
        'y' => 2,
        'i' => 3,
        '7' => 4,
        'c' => 5,
        '4' => 6,
        '9' => 7,
        'u' => 8,
        'f' => 9,
        '8' => 10,
        'z' => 11,
        'd' => 12,
        'q' => 13,
        '3' => 14,
        'r' => 15,
        'e' => 16,
        'o' => 17,
        '6' => 18,
        'h' => 19,
        'v' => 20,
        'k' => 21,
        'b' => 22,
        '1' => 23,
        'g' => 24,
        'm' => 25,
        '.' => 26,
        'n' => 27,
        'l' => 28,
        't' => 29,
        'w' => 30,
        'x' => 31,
        'p' => 32,
        's' => 33,
        '0' => 34,
        '2' => 35,
        'a' => 36,
        '5' => 37,
        _ => -1,
    }
}

proof fn lemma_row_5()
    ensures
        forall|i: int| 0 <= i < 38 ==> {
            &&& CORRESPONDENCE@[5]@[i] == row_char_at_5(i)
            &&& row_pos_5(row_char_at_5(i)) == i
            &&& plain_pos(row_char_at_5(i)) >= 0
        },
        forall|c: char| row_pos_5(c) >= 0 ==> {
            &&& row_pos_5(c) < 38
            &&& row_char_at_5(row_pos_5(c)) == c
        },
{
}

spec fn row_char_at_6(i: int) -> char {
    if i == 0 {
        'o'
    } else if i == 1 {
        'p'
    } else if i == 2 {
        'g'
    } else if i == 3 {
        'e'
    } else if i == 4 {
        'u'
    } else if i == 5 {
        '9'
    } else if i == 6 {
        'f'
    } else if i == 7 {
        't'
    } else if i == 8 {
        'a'
    } else if i == 9 {
        'q'
    } else if i == 10 {
        'b'
    } else if i == 11 {
        'r'
    } else if i == 12 {
        'x'
    } else if i == 13 {
        '2'
    } else if i == 14 {
        '8'
    } else if i == 15 {
        '1'
    } else if i == 16 {
        'n'
    } else if i == 17 {
        'c'
    } else if i == 18 {
        '6'
    } else if i == 19 {
        'h'
    } else if i == 20 {
        'l'
    } else if i == 21 {
        '5'
    } else if i == 22 {
        '-'
    } else if i == 23 {
        's'
    } else if i == 24 {
        'z'
    } else if i == 25 {
        '3'
    } else if i == 26 {
        '7'
    } else if i == 27 {
        'v'
    } else if i == 28 {
        'y'
    } else if i == 29 {
        '4'
    } else if i == 30 {
        '.'
    } else if i == 31 {
        'm'
    } else if i == 32 {
        'd'
    } else if i == 33 {
        'i'
    } else if i == 34 {
        'k'
    } else if i == 35 {
        'w'
    } else if i == 36 {
        'j'
    } else if i == 37 {
        '0'
    } else {
        ' '
    }
}

spec fn row_pos_6(c: char) -> int {
    match c {
        'o' => 0,
        'p' => 1,
        'g' => 2,
        'e' => 3,
        'u' => 4,
        '9' => 5,
        'f' => 6,
        't' => 7,
        'a' => 8,
        'q' => 9,
        'b' => 10,
        'r' => 11,
        'x' => 12,
        '2' => 13,
        '8' => 14,
        '1' => 15,
        'n' => 16,
        'c' => 17,
        '6' => 18,
        'h' => 19,
        'l' => 20,
        '5' => 21,
        '-' => 22,
        's' => 23,
        'z' => 24,
        '3' => 25,
        '7' => 26,
        'v' => 27,
        'y' => 28,
        '4' => 29,
        '.' => 30,
        'm' => 31,
        'd' => 32,
        'i' => 33,
        'k' => 34,
        'w' => 35,
        'j' => 36,
        '0' => 37,
        _ => -1,
    }
}

proof fn lemma_row_6()
    ensures
        forall|i: int| 0 <= i < 38 ==> {
            &&& CORRESPONDENCE@[6]@[i] == row_char_at_6(i)
            &&& row_pos_6(row_char_at_6(i)) == i
            &&& plain_pos(row_char_at_6(i)) >= 0
        },
        forall|c: char| row_pos_6(c) >= 0 ==> {
            &&& row_pos_6(c) < 38
            &&& row_char_at_6(row_pos_6(c)) == c
        },
{
}

spec fn row_char_at_7(i: int) -> char {
    if i == 0 {
        'w'
    } else if i == 1 {
        'g'
    } else if i == 2 {
        'i'
    } else if i == 3 {
        'm'
    } else if i == 4 {
        '3'
    } else if i == 5 {
        'r'
    } else if i == 6 {
        '2'
    } else if i == 7 {
        's'
    } else if i == 8 {
        'a'
    } else if i == 9 {
        'b'
    } else if i == 10 {
        '8'
    } else if i == 11 {
        'c'
    } else if i == 12 {
        '5'
    } else if i == 13 {
        'h'
    } else if i == 14 {
        'e'
    } else if i == 15 {
        'y'
    } else if i == 16 {
        '9'
    } else if i == 17 {
        'p'
    } else if i == 18 {
        'k'
    } else if i == 19 {
        'd'
    } else if i == 20 {
        'l'
    } else if i == 21 {
        'j'
    } else if i == 22 {
        'q'
    } else if i == 23 {
        'u'
    } else if i == 24 {
        '0'
    } else if i == 25 {
        'v'
    } else if i == 26 {
        '.'
    } else if i == 27 {
        '-'
    } else if i == 28 {
        't'
    } else if i == 29 {
        '6'
    } else if i == 30 {
        'z'
    } else if i == 31 {
        'x'
    } else if i == 32 {
        'n'
    } else if i == 33 {
        '7'
    } else if i == 34 {
        'f'
    } else if i == 35 {
        '4'
    } else if i == 36 {
        'o'
    } else if i == 37 {
        '1'
    } else {
        ' '
    }
}

spec fn row_pos_7(c: char) -> int {
    match c {
        'w' => 0,
        'g' => 1,
        'i' => 2,
        'm' => 3,
        '3' => 4,
        'r' => 5,
        '2' => 6,
        's' => 7,
        'a' => 8,
        'b' => 9,
        '8' => 10,
        'c' => 11,
        '5' => 12,
        'h' => 13,
        'e' => 14,
        'y' => 15,
        '9' => 16,
        'p' => 17,
        'k' => 18,
        'd' => 19,
        'l' => 20,
        'j' => 21,
        'q' => 22,
        'u' => 23,
        '0' => 24,
        'v' => 25,
        '.' => 26,
        '-' => 27,
        't' => 28,
        '6' => 29,
        'z' => 30,
        'x' => 31,
        'n' => 32,
        '7' => 33,
        'f' => 34,
        '4' => 35,
        'o' => 36,
        '1' => 37,
        _ => -1,
    }
}

proof fn lemma_row_7()
    ensures
        forall|i: int| 0 <= i < 38 ==> {
            &&& CORRESPONDENCE@[7]@[i] == row_char_at_7(i)
            &&& row_pos_7(row_char_at_7(i)) == i
            &&& plain_pos(row_char_at_7(i)) >= 0
        },
        forall|c: char| row_pos_7(c) >= 0 ==> {
            &&& row_pos_7(c) < 38
            &&& row_char_at_7(row_pos_7(c)) == c
        },
{
}

spec fn row_char_at_8(i: int) -> char {
    if i == 0 {
        '1'
    } else if i == 1 {
        '2'
    } else if i == 2 {
        'k'
    } else if i == 3 {
        'e'
    } else if i == 4 {
        'l'
    } else if i == 5 {
        'c'
    } else if i == 6 {
        'x'
    } else if i == 7 {
        'z'
    } else if i == 8 {
        's'
    } else if i == 9 {
        '-'
    } else if i == 10 {
        'a'
    } else if i == 11 {
        'y'
    } else if i == 12 {
        '8'
    } else if i == 13 {
        '9'
    } else if i == 14 {
        '5'
    } else if i == 15 {
        'v'
    } else if i == 16 {
        'n'
    } else if i == 17 {
        '6'
    } else if i == 18 {
        'h'
    } else if i == 19 {
        '0'
    } else if i == 20 {
        '3'
    } else if i == 21 {
        'j'
    } else if i == 22 {
        'i'
    } else if i == 23 {
        '7'
    } else if i == 24 {
        'g'
    } else if i == 25 {
        'q'
    } else if i == 26 {
        '4'
    } else if i == 27 {
        'u'
    } else if i == 28 {
        'd'
    } else if i == 29 {
        'p'
    } else if i == 30 {
        '.'
    } else if i == 31 {
        'o'
    } else if i == 32 {
        'r'
    } else if i == 33 {
        'w'
    } else if i == 34 {
        'b'
    } else if i == 35 {
        't'
    } else if i == 36 {
        'f'
    } else if i == 37 {
        'm'
    } else {
        ' '
    }
}

spec fn row_pos_8(c: char) -> int {
    match c {
        '1' => 0,
        '2' => 1,
        'k' => 2,
        'e' => 3,
        'l' => 4,
        'c' => 5,
        'x' => 6,
        'z' => 7,
        's' => 8,
        '-' => 9,
        'a' => 10,
        'y' => 11,
        '8' => 12,
        '9' => 13,
        '5' => 14,
        'v' => 15,
        'n' => 16,
        '6' => 17,
        'h' => 18,
        '0' => 19,
        '3' => 20,
        'j' => 21,
        'i' => 22,
        '7' => 23,
        'g' => 24,
        'q' => 25,
        '4' => 26,
        'u' => 27,
        'd' => 28,
        'p' => 29,
        '.' => 30,
        'o' => 31,
        'r' => 32,
        'w' => 33,
        'b' => 34,
        't' => 35,
        'f' => 36,
        'm' => 37,
        _ => -1,
    }
}

proof fn lemma_row_8()
    ensures
        forall|i: int| 0 <= i < 38 ==> {
            &&& CORRESPONDENCE@[8]@[i] == row_char_at_8(i)
            &&& row_pos_8(row_char_at_8(i)) == i
            &&& plain_pos(row_char_at_8(i)) >= 0
        },
        forall|c: char| row_pos_8(c) >= 0 ==> {
            &&& row_pos_8(c) < 38
            &&& row_char_at_8(row_pos_8(c)) == c
        },
{
}

spec fn row_char_at_9(i: int) -> char {
    if i == 0 {
        '5'
    } else if i == 1 {
        '3'
    } else if i == 2 {
        'g'
    } else if i == 3 {
        'f'
    } else if i == 4 {
        'p'
    } else if i == 5 {
        'u'
    } else if i == 6 {
        'k'
    } else if i == 7 {
        'w'
    } else if i == 8 {
        '8'
    } else if i == 9 {
        'e'
    } else if i == 10 {
        '2'
    } else if i == 11 {
        'y'
    } else if i == 12 {
        'l'
    } else if i == 13 {
        'm'
    } else if i == 14 {
        'j'
    } else if i == 15 {
        's'
    } else if i == 16 {
        'b'
    } else if i == 17 {
        '7'
    } else if i == 18 {
        '4'
    } else if i == 19 {
        't'
    } else if i == 20 {
        'x'
    } else if i == 21 {
        'i'
    } else if i == 22 {
        'd'
    } else if i == 23 {
        '0'
    } else if i == 24 {
        'z'
    } else if i == 25 {
        '-'
    } else if i == 26 {
        'h'
    } else if i == 27 {
        '6'
    } else if i == 28 {
        'o'
    } else if i == 29 {
        '.'
    } else if i == 30 {
        'c'
    } else if i == 31 {
        '9'
    } else if i == 32 {
        'n'
    } else if i == 33 {
        '1'
    } else if i == 34 {
        'q'
    } else if i == 35 {
        'a'
    } else if i == 36 {
        'v'
    } else if i == 37 {
        'r'
    } else {
        ' '
    }
}

spec fn row_pos_9(c: char) -> int {
    match c {
        '5' => 0,
        '3' => 1,
        'g' => 2,
        'f' => 3,
        'p' => 4,
        'u' => 5,
        'k' => 6,
        'w' => 7,
        '8' => 8,
        'e' => 9,
        '2' => 10,
        'y' => 11,
        'l' => 12,
        'm' => 13,
        'j' => 14,
        's' => 15,
        'b' => 16,
        '7' => 17,
        '4' => 18,
        't' => 19,
        'x' => 20,
        'i' => 21,
        'd' => 22,
        '0' => 23,
        'z' => 24,
        '-' => 25,
        'h' => 26,
        '6' => 27,
        'o' => 28,
        '.' => 29,
        'c' => 30,
        '9' => 31,
        'n' => 32,
        '1' => 33,
        'q' => 34,
        'a' => 35,
        'v' => 36,
        'r' => 37,
        _ => -1,
    }
}

proof fn lemma_row_9()
    ensures
        forall|i: int| 0 <= i < 38 ==> {
            &&& CORRESPONDENCE@[9]@[i] == row_char_at_9(i)
            &&& row_pos_9(row_char_at_9(i)) == i
            &&& plain_pos(row_char_at_9(i)) >= 0
        },
        forall|c: char| row_pos_9(c) >= 0 ==> {
            &&& row_pos_9(c) < 38
            &&& row_char_at_9(row_pos_9(c)) == c
        },
{
}

spec fn row_char_at_10(i: int) -> char {
    if i == 0 {
        '1'
    } else if i == 1 {
        'k'
    } else if i == 2 {
        'e'
    } else if i == 3 {
        '5'
    } else if i == 4 {
        '9'
    } else if i == 5 {
        'x'
    } else if i == 6 {
        'h'
    } else if i == 7 {
        'g'
    } else if i == 8 {
        '2'
    } else if i == 9 {
        'v'
    } else if i == 10 {
        'j'
    } else if i == 11 {
        'm'
    } else if i == 12 {
        'f'
    } else if i == 13 {
        '4'
    } else if i == 14 {
        '.'
    } else if i == 15 {
        'p'
    } else if i == 16 {
        'b'
    } else if i == 17 {
        'q'
    } else if i == 18 {
        '7'
    } else if i == 19 {
        'l'
    } else if i == 20 {
        'r'
    } else if i == 21 {
        'i'
    } else if i == 22 {
        'a'
    } else if i == 23 {
        '8'
    } else if i == 24 {
        'y'
    } else if i == 25 {
        'z'
    } else if i == 26 {
        'c'
    } else if i == 27 {
        '0'
    } else if i == 28 {
        'n'
    } else if i == 29 {
        't'
    } else if i == 30 {
        '3'
    } else if i == 31 {
        '6'
    } else if i == 32 {
        '-'
    } else if i == 33 {
        'd'
    } else if i == 34 {
        'o'
    } else if i == 35 {
        'w'
    } else if i == 36 {
        's'
    } else if i == 37 {
        'u'
    } else {
        ' '
    }
}

spec fn row_pos_10(c: char) -> int {
    match c {
        '1' => 0,
        'k' => 1,
        'e' => 2,
        '5' => 3,
        '9' => 4,
        'x' => 5,
        'h' => 6,
        'g' => 7,
        '2' => 8,
        'v' => 9,
        'j' => 10,
        'm' => 11,
        'f' => 12,
        '4' => 13,
        '.' => 14,
        'p' => 15,
        'b' => 16,
        'q' => 17,
        '7' => 18,
        'l' => 19,
        'r' => 20,
        'i' => 21,
        'a' => 22,
        '8' => 23,
        'y' => 24,
        'z' => 25,
        'c' => 26,
        '0' => 27,
        'n' => 28,
        't' => 29,
        '3' => 30,
        '6' => 31,
        '-' => 32,
        'd' => 33,
        'o' => 34,
        'w' => 35,
        's' => 36,
        'u' => 37,
        _ => -1,
    }
}

proof fn lemma_row_10()
    ensures
        forall|i: int| 0 <= i < 38 ==> {
            &&& CORRESPONDENCE@[10]@[i] == row_char_at_10(i)
            &&& row_pos_10(row_char_at_10(i)) == i
            &&& plain_pos(row_char_at_10(i)) >= 0
        },
        forall|c: char| row_pos_10(c) >= 0 ==> {
            &&& row_pos_10(c) < 38
            &&& row_char_at_10(row_pos_10(c)) == c
        },
{
}

spec fn row_char_at_11(i: int) -> char {
    if i == 0 {
        '8'
    } else if i == 1 {
        'v'
    } else if i == 2 {
        'b'
    } else if i == 3 {
        'q'
    } else if i == 4 {
        'k'
    } else if i == 5 {
        '.'
    } else if i == 6 {
        'y'
    } else if i == 7 {
        'a'
    } else if i == 8 {
        '5'
    } else if i == 9 {
        'c'
    } else if i == 10 {
        'n'
    } else if i == 11 {
        'g'
    } else if i == 12 {
        '2'
    } else if i == 13 {
        '0'
    } else if i == 14 {
        'd'
    } else if i == 15 {
        'j'
    } else if i == 16 {
        'l'
    } else if i == 17 {
        '9'
    } else if i == 18 {
        'm'
    } else if i == 19 {
        'e'
    } else if i == 20 {
        'r'
    } else if i == 21 {
        'i'
    } else if i == 22 {
        '3'
    } else if i == 23 {
        'x'
    } else if i == 24 {
        '6'
    } else if i == 25 {
        's'
    } else if i == 26 {
        'w'
    } else if i == 27 {
        '4'
    } else if i == 28 {
        'h'
    } else if i == 29 {
        'o'
    } else if i == 30 {
        'f'
    } else if i == 31 {
        't'
    } else if i == 32 {
        '-'
    } else if i == 33 {
        '1'
    } else if i == 34 {
        'u'
    } else if i == 35 {
        'p'
    } else if i == 36 {
        'z'
    } else if i == 37 {
        '7'
    } else {
        ' '
    }
}

spec fn row_pos_11(c: char) -> int {
    match c {
        '8' => 0,
        'v' => 1,
        'b' => 2,
        'q' => 3,
        'k' => 4,
        '.' => 5,
        'y' => 6,
        'a' => 7,
        '5' => 8,
        'c' => 9,
        'n' => 10,
        'g' => 11,
        '2' => 12,
        '0' => 13,
        'd' => 14,
        'j' => 15,
        'l' => 16,
        '9' => 17,
        'm' => 18,
        'e' => 19,
        'r' => 20,
        'i' => 21,
        '3' => 22,
        'x' => 23,
        '6' => 24,
        's' => 25,
        'w' => 26,
        '4' => 27,
        'h' => 28,
        'o' => 29,
        'f' => 30,
        't' => 31,
        '-' => 32,
        '1' => 33,
        'u' => 34,
        'p' => 35,
        'z' => 36,
        '7' => 37,
        _ => -1,
    }
}

proof fn lemma_row_11()
    ensures
        forall|i: int| 0 <= i < 38 ==> {
            &&& CORRESPONDENCE@[11]@[i] == row_char_at_11(i)
            &&& row_pos_11(row_char_at_11(i)) == i
            &&& plain_pos(row_char_at_11(i)) >= 0
        },
        forall|c: char| row_pos_11(c) >= 0 ==> {
            &&& row_pos_11(c) < 38
            &&& row_char_at_11(row_pos_11(c)) == c
        },
{
}

spec fn row_char_at_12(i: int) -> char {
    if i == 0 {
        'w'
    } else if i == 1 {
        '0'
    } else if i == 2 {
        '6'
    } else if i == 3 {
        'k'
    } else if i == 4 {
        'j'
    } else if i == 5 {
        '3'
    } else if i == 6 {
        'c'
    } else if i == 7 {
        'b'
    } else if i == 8 {
        't'
    } else if i == 9 {
        '7'
    } else if i == 10 {
        'o'
    } else if i == 11 {
        '-'
    } else if i == 12 {
        'e'
    } else if i == 13 {
        '5'
    } else if i == 14 {
        '9'
    } else if i == 15 {
        'd'
    } else if i == 16 {
        'n'
    } else if i == 17 {
        'y'
    } else if i == 18 {
        'x'
    } else if i == 19 {
        'v'
    } else if i == 20 {
        'q'
    } else if i == 21 {
        'i'
    } else if i == 22 {
        'z'
    } else if i == 23 {
        'l'
    } else if i == 24 {
        'f'
    } else if i == 25 {
        'a'
    } else if i == 26 {
        '4'
    } else if i == 27 {
        'p'
    } else if i == 28 {
        '8'
    } else if i == 29 {
        'h'
    } else if i == 30 {
        '.'
    } else if i == 31 {
        'g'
    } else if i == 32 {
        '1'
    } else if i == 33 {
        'u'
    } else if i == 34 {
        '2'
    } else if i == 35 {
        'm'
    } else if i == 36 {
        's'
    } else if i == 37 {
        'r'
    } else {
        ' '
    }
}

spec fn row_pos_12(c: char) -> int {
    match c {
        'w' => 0,
        '0' => 1,
        '6' => 2,
        'k' => 3,
        'j' => 4,
        '3' => 5,
        'c' => 6,
        'b' => 7,
        't' => 8,
        '7' => 9,
        'o' => 10,
        '-' => 11,
        'e' => 12,
        '5' => 13,
        '9' => 14,
        'd' => 15,
        'n' => 16,
        'y' => 17,
        'x' => 18,
        'v' => 19,
        'q' => 20,
        'i' => 21,
        'z' => 22,
        'l' => 23,
        'f' => 24,
        'a' => 25,
        '4' => 26,
        'p' => 27,
        '8' => 28,
        'h' => 29,
        '.' => 30,
        'g' => 31,
        '1' => 32,
        'u' => 33,
        '2' => 34,
        'm' => 35,
        's' => 36,
        'r' => 37,
        _ => -1,
    }
}

proof fn lemma_row_12()
    ensures
        forall|i: int| 0 <= i < 38 ==> {
            &&& CORRESPONDENCE@[12]@[i] == row_char_at_12(i)
            &&& row_pos_12(row_char_at_12(i)) == i
            &&& plain_pos(row_char_at_12(i)) >= 0
        },
        forall|c: char| row_pos_12(c) >= 0 ==> {
            &&& row_pos_12(c) < 38
            &&& row_char_at_12(row_pos_12(c)) == c
        },
{
}

spec fn row_char_at_13(i: int) -> char {
    if i == 0 {
        '7'
    } else if i == 1 {
        'x'
    } else if i == 2 {
        'n'
    } else if i == 3 {
        'l'
    } else if i == 4 {
        'r'
    } else if i == 5 {
        'z'
    } else if i == 6 {
        'u'
    } else if i == 7 {
        'a'
    } else if i == 8 {
        'v'
    } else if i == 9 {
        'e'
    } else if i == 10 {
        'd'
    } else if i == 11 {
        '1'
    } else if i == 12 {
        'y'
    } else if i == 13 {
        '2'
    } else if i == 14 {
        'c'
    } else if i == 15 {
        '3'
    } else if i == 16 {
        '4'
    } else if i == 17 {
        '.'
    } else if i == 18 {
        'k'
    } else if i == 19 {
        'h'
    } else if i == 20 {
        't'
    } else if i == 21 {
        'i'
    } else if i == 22 {
        'f'
    } else if i == 23 {
        '6'
    } else if i == 24 {
        '-'
    } else if i == 25 {
        'j'
    } else if i == 26 {
        'w'
    } else if i == 27 {
        'o'
    } else if i == 28 {
        '0'
    } else if i == 29 {
        'm'
    } else if i == 30 {
        '8'
    } else if i == 31 {
        'g'
    } else if i == 32 {
        'b'
    } else if i == 33 {
        's'
    } else if i == 34 {
        'q'
    } else if i == 35 {
        'p'
    } else if i == 36 {
        '9'
    } else if i == 37 {
        '5'
    } else {
        ' '
    }
}

spec fn row_pos_13(c: char) -> int {
    match c {
        '7' => 0,
        'x' => 1,
        'n' => 2,
        'l' => 3,
        'r' => 4,
        'z' => 5,
        'u' => 6,
        'a' => 7,
        'v' => 8,
        'e' => 9,
        'd' => 10,
        '1' => 11,
        'y' => 12,
        '2' => 13,
        'c' => 14,
        '3' => 15,
        '4' => 16,
        '.' => 17,
        'k' => 18,
        'h' => 19,
        't' => 20,
        'i' => 21,
        'f' => 22,
        '6' => 23,
        '-' => 24,
        'j' => 25,
        'w' => 26,
        'o' => 27,
        '0' => 28,
        'm' => 29,
        '8' => 30,
        'g' => 31,
        'b' => 32,
        's' => 33,
        'q' => 34,
        'p' => 35,
        '9' => 36,
        '5' => 37,
        _ => -1,
    }
}

proof fn lemma_row_13()
    ensures
        forall|i: int| 0 <= i < 38 ==> {
            &&& CORRESPONDENCE@[13]@[i] == row_char_at_13(i)
            &&& row_pos_13(row_char_at_13(i)) == i
            &&& plain_pos(row_char_at_13(i)) >= 0
        },
        forall|c: char| row_pos_13(c) >= 0 ==> {
            &&& row_pos_13(c) < 38
            &&& row_char_at_13(row_pos_13(c)) == c
        },
{
}

spec fn row_char_at_14(i: int) -> char {
    if i == 0 {
        'd'
    } else if i == 1 {
        '1'
    } else if i == 2 {
        's'
    } else if i == 3 {
        'g'
    } else if i == 4 {
        '3'
    } else if i == 5 {
        '6'
    } else if i == 6 {
        'v'
    } else if i == 7 {
        'n'
    } else if i == 8 {
        'f'
    } else if i == 9 {
        'q'
    } else if i == 10 {
        'w'
    } else if i == 11 {
        'b'
    } else if i == 12 {
        '0'
    } else if i == 13 {
        'k'
    } else if i == 14 {
        'c'
    } else if i == 15 {
        '5'
    } else if i == 16 {
        'e'
    } else if i == 17 {
        '2'
    } else if i == 18 {
        'h'
    } else if i == 19 {
        'p'
    } else if i == 20 {
        'i'
    } else if i == 21 {
        'y'
    } else if i == 22 {
        'j'
    } else if i == 23 {
        '4'
    } else if i == 24 {
        't'
    } else if i == 25 {
        '9'
    } else if i == 26 {
        'm'
    } else if i == 27 {
        'u'
    } else if i == 28 {
        '7'
    } else if i == 29 {
        '.'
    } else if i == 30 {
        '8'
    } else if i == 31 {
        'r'
    } else if i == 32 {
        'o'
    } else if i == 33 {
        'a'
    } else if i == 34 {
        'x'
    } else if i == 35 {
        'z'
    } else if i == 36 {
        '-'
    } else if i == 37 {
        'l'
    } else {
        ' '
    }
}

spec fn row_pos_14(c: char) -> int {
    match c {
        'd' => 0,
        '1' => 1,
        's' => 2,
        'g' => 3,
        '3' => 4,
        '6' => 5,
        'v' => 6,
        'n' => 7,
        'f' => 8,
        'q' => 9,
        'w' => 10,
        'b' => 11,
        '0' => 12,
        'k' => 13,
        'c' => 14,
        '5' => 15,
        'e' => 16,
        '2' => 17,
        'h' => 18,
        'p' => 19,
        'i' => 20,
        'y' => 21,
        'j' => 22,
        '4' => 23,
        't' => 24,
        '9' => 25,
        'm' => 26,
        'u' => 27,
        '7' => 28,
        '.' => 29,
        '8' => 30,
        'r' => 31,
        'o' => 32,
        'a' => 33,
        'x' => 34,
        'z' => 35,
        '-' => 36,
        'l' => 37,
        _ => -1,
    }
}

proof fn lemma_row_14()
    ensures
        forall|i: int| 0 <= i < 38 ==> {
            &&& CORRESPONDENCE@[14]@[i] == row_char_at_14(i)
            &&& row_pos_14(row_char_at_14(i)) == i
            &&& plain_pos(row_char_at_14(i)) >= 0
        },
        forall|c: char| row_pos_14(c) >= 0 ==> {
            &&& row_pos_14(c) < 38
            &&& row_char_at_14(row_pos_14(c)) == c
        },
{
}

spec fn row_char_at_15(i: int) -> char {
    if i == 0 {
        'c'
    } else if i == 1 {
        '2'
    } else if i == 2 {
        '7'
    } else if i == 3 {
        'n'
    } else if i == 4 {
        'z'
    } else if i == 5 {
        'm'
    } else if i == 6 {
        'x'
    } else if i == 7 {
        'h'
    } else if i == 8 {
        'i'
    } else if i == 9 {
        'v'
    } else if i == 10 {
        '0'
    } else if i == 11 {
        '.'
    } else if i == 12 {
        'u'
    } else if i == 13 {
        'g'
    } else if i == 14 {
        'l'
    } else if i == 15 {
        '9'
    } else if i == 16 {
        'w'
    } else if i == 17 {
        'b'
    } else if i == 18 {
        'p'
    } else if i == 19 {
        'y'
    } else if i == 20 {
        'e'
    } else if i == 21 {
        'o'
    } else if i == 22 {
        '5'
    } else if i == 23 {
        'f'
    } else if i == 24 {
        '-'
    } else if i == 25 {
        '8'
    } else if i == 26 {
        '4'
    } else if i == 27 {
        '1'
    } else if i == 28 {
        'q'
    } else if i == 29 {
        'k'
    } else if i == 30 {
        'a'
    } else if i == 31 {
        'd'
    } else if i == 32 {
        's'
    } else if i == 33 {
        '3'
    } else if i == 34 {
        'j'
    } else if i == 35 {
        'r'
    } else if i == 36 {
        't'
    } else if i == 37 {
        '6'
    } else {
        ' '
    }
}

spec fn row_pos_15(c: char) -> int {
    match c {
        'c' => 0,
        '2' => 1,
        '7' => 2,
        'n' => 3,
        'z' => 4,
        'm' => 5,
        'x' => 6,
        'h' => 7,
        'i' => 8,
        'v' => 9,
        '0' => 10,
        '.' => 11,
        'u' => 12,
        'g' => 13,
        'l' => 14,
        '9' => 15,
        'w' => 16,
        'b' => 17,
        'p' => 18,
        'y' => 19,
        'e' => 20,
        'o' => 21,
        '5' => 22,
        'f' => 23,
        '-' => 24,
        '8' => 25,
        '4' => 26,
        '1' => 27,
        'q' => 28,
        'k' => 29,
        'a' => 30,
        'd' => 31,
        's' => 32,
        '3' => 33,
        'j' => 34,
        'r' => 35,
        't' => 36,
        '6' => 37,
        _ => -1,
    }
}

proof fn lemma_row_15()
    ensures
        forall|i: int| 0 <= i < 38 ==> {
            &&& CORRESPONDENCE@[15]@[i] == row_char_at_15(i)
            &&& row_pos_15(row_char_at_15(i)) == i
            &&& plain_pos(row_char_at_15(i)) >= 0
        },
        forall|c: char| row_pos_15(c) >= 0 ==> {
            &&& row_pos_15(c) < 38
            &&& row_char_at_15(row_pos_15(c)) == c
        },
{
}

spec fn row_char_at_16(i: int) -> char {
    if i == 0 {
        '2'
    } else if i == 1 {
        '0'
    } else if i == 2 {
        'q'
    } else if i == 3 {
        '5'
    } else if i == 4 {
        'i'
    } else if i == 5 {
        't'
    } else if i == 6 {
        'h'
    } else if i == 7 {
        '9'
    } else if i == 8 {
        'l'
    } else if i == 9 {
        'd'
    } else if i == 10 {
        'u'
    } else if i == 11 {
        '6'
    } else if i == 12 {
        '-'
    } else if i == 13 {
        'z'
    } else if i == 14 {
        'v'
    } else if i == 15 {
        '7'
    } else if i == 16 {
        'x'
    } else if i == 17 {
        'w'
    } else if i == 18 {
        'g'
    } else if i == 19 {
        'c'
    } else if i == 20 {
        'a'
    } else if i == 21 {
        '3'
    } else if i == 22 {
        'r'
    } else if i == 23 {
        'e'
    } else if i == 24 {
        'k'
    } else if i == 25 {
        'm'
    } else if i == 26 {
        '8'
    } else if i == 27 {
        'b'
    } else if i == 28 {
        'n'
    } else if i == 29 {
        '.'
    } else if i == 30 {
        'y'
    } else if i == 31 {
        's'
    } else if i == 32 {
        '4'
    } else if i == 33 {
        'j'
    } else if i == 34 {
        'o'
    } else if i == 35 {
        'f'
    } else if i == 36 {
        'p'
    } else if i == 37 {
        '1'
    } else {
        ' '
    }
}

spec fn row_pos_16(c: char) -> int {
    match c {
        '2' => 0,
        '0' => 1,
        'q' => 2,
        '5' => 3,
        'i' => 4,
        't' => 5,
        'h' => 6,
        '9' => 7,
        'l' => 8,
        'd' => 9,
        'u' => 10,
        '6' => 11,
        '-' => 12,
        'z' => 13,
        'v' => 14,
        '7' => 15,
        'x' => 16,
        'w' => 17,
        'g' => 18,
        'c' => 19,
        'a' => 20,
        '3' => 21,
        'r' => 22,
        'e' => 23,
        'k' => 24,
        'm' => 25,
        '8' => 26,
        'b' => 27,
        'n' => 28,
        '.' => 29,
        'y' => 30,
        's' => 31,
        '4' => 32,
        'j' => 33,
        'o' => 34,
        'f' => 35,
        'p' => 36,
        '1' => 37,
        _ => -1,
    }
}

proof fn lemma_row_16()
    ensures
        forall|i: int| 0 <= i < 38 ==> {
            &&& CORRESPONDENCE@[16]@[i] == row_char_at_16(i)
            &&& row_pos_16(row_char_at_16(i)) == i
            &&& plain_pos(row_char_at_16(i)) >= 0
        },
        forall|c: char| row_pos_16(c) >= 0 ==> {
            &&& row_pos_16(c) < 38
            &&& row_char_at_16(row_pos_16(c)) == c
        },
{
}

spec fn row_char_at_17(i: int) -> char {
    if i == 0 {
        '2'
    } else if i == 1 {
        'y'
    } else if i == 2 {
        '1'
    } else if i == 3 {
        'z'
    } else if i == 4 {
        'p'
    } else if i == 5 {
        '6'
    } else if i == 6 {
        'm'
    } else if i == 7 {
        'u'
    } else if i == 8 {
        'v'
    } else if i == 9 {
        'k'
    } else if i == 10 {
        '-'
    } else if i == 11 {
        'd'
    } else if i == 12 {
        'f'
    } else if i == 13 {
        'i'
    } else if i == 14 {
        'g'
    } else if i == 15 {
        'n'
    } else if i == 16 {
        'l'
    } else if i == 17 {
        '3'
    } else if i == 18 {
        'q'
    } else if i == 19 {
        'e'
    } else if i == 20 {
        'o'
    } else if i == 21 {
        'r'
    } else if i == 22 {
        '0'
    } else if i == 23 {
        'j'
    } else if i == 24 {
        '5'
    } else if i == 25 {
        'w'
    } else if i == 26 {
        's'
    } else if i == 27 {
        'h'
    } else if i == 28 {
        'c'
    } else if i == 29 {
        't'
    } else if i == 30 {
        'a'
    } else if i == 31 {
        '.'
    } else if i == 32 {
        '8'
    } else if i == 33 {
        '9'
    } else if i == 34 {
        '4'
    } else if i == 35 {
        'b'
    } else if i == 36 {
        '7'
    } else if i == 37 {
        'x'
    } else {
        ' '
    }
}

spec fn row_pos_17(c: char) -> int {
    match c {
        '2' => 0,
        'y' => 1,
        '1' => 2,
        'z' => 3,
        'p' => 4,
        '6' => 5,
        'm' => 6,
        'u' => 7,
        'v' => 8,
        'k' => 9,
        '-' => 10,
        'd' => 11,
        'f' => 12,
        'i' => 13,
        'g' => 14,
        'n' => 15,
        'l' => 16,
        '3' => 17,
        'q' => 18,
        'e' => 19,
        'o' => 20,
        'r' => 21,
        '0' => 22,
        'j' => 23,
        '5' => 24,
        'w' => 25,
        's' => 26,
        'h' => 27,
        'c' => 28,
        't' => 29,
        'a' => 30,
        '.' => 31,
        '8' => 32,
        '9' => 33,
        '4' => 34,
        'b' => 35,
        '7' => 36,
        'x' => 37,
        _ => -1,
    }
}

proof fn lemma_row_17()
    ensures
        forall|i: int| 0 <= i < 38 ==> {
            &&& CORRESPONDENCE@[17]@[i] == row_char_at_17(i)
            &&& row_pos_17(row_char_at_17(i)) == i
            &&& plain_pos(row_char_at_17(i)) >= 0
        },
        forall|c: char| row_pos_17(c) >= 0 ==> {
            &&& row_pos_17(c) < 38
            &&& row_char_at_17(row_pos_17(c)) == c
        },
{
}

spec fn row_char_at_18(i: int) -> char {
    if i == 0 {
        '6'
    } else if i == 1 {
        'e'
    } else if i == 2 {
        'j'
    } else if i == 3 {
        'y'
    } else if i == 4 {
        '2'
    } else if i == 5 {
        'b'
    } else if i == 6 {
        'g'
    } else if i == 7 {
        '8'
    } else if i == 8 {
        'l'
    } else if i == 9 {
        '9'
    } else if i == 10 {
        'z'
    } else if i == 11 {
        'w'
    } else if i == 12 {
        's'
    } else if i == 13 {
        'i'
    } else if i == 14 {
        'h'
    } else if i == 15 {
        'x'
    } else if i == 16 {
        'v'
    } else if i == 17 {
        'm'
    } else if i == 18 {
        'a'
    } else if i == 19 {
        '1'
    } else if i == 20 {
        '7'
    } else if i == 21 {
        '5'
    } else if i == 22 {
        'u'
    } else if i == 23 {
        '.'
    } else if i == 24 {
        'r'
    } else if i == 25 {
        'n'
    } else if i == 26 {
        '3'
    } else if i == 27 {
        '-'
    } else if i == 28 {
        'k'
    } else if i == 29 {
        '0'
    } else if i == 30 {
        'c'
    } else if i == 31 {
        'd'
    } else if i == 32 {
        't'
    } else if i == 33 {
        'q'
    } else if i == 34 {
        'p'
    } else if i == 35 {
        'o'
    } else if i == 36 {
        'f'
    } else if i == 37 {
        '4'
    } else {
        ' '
    }
}

spec fn row_pos_18(c: char) -> int {
    match c {
        '6' => 0,
        'e' => 1,
        'j' => 2,
        'y' => 3,
        '2' => 4,
        'b' => 5,
        'g' => 6,
        '8' => 7,
        'l' => 8,
        '9' => 9,
        'z' => 10,
        'w' => 11,
        's' => 12,
        'i' => 13,
        'h' => 14,
        'x' => 15,
        'v' => 16,
        'm' => 17,
        'a' => 18,
        '1' => 19,
        '7' => 20,
        '5' => 21,
        'u' => 22,
        '.' => 23,
        'r' => 24,
        'n' => 25,
        '3' => 26,
        '-' => 27,
        'k' => 28,
        '0' => 29,
        'c' => 30,
        'd' => 31,
        't' => 32,
        'q' => 33,
        'p' => 34,
        'o' => 35,
        'f' => 36,
        '4' => 37,
        _ => -1,
    }
}

proof fn lemma_row_18()
    ensures
        forall|i: int| 0 <= i < 38 ==> {
            &&& CORRESPONDENCE@[18]@[i] == row_char_at_18(i)
            &&& row_pos_18(row_char_at_18(i)) == i
            &&& plain_pos(row_char_at_18(i)) >= 0
        },
        forall|c: char| row_pos_18(c) >= 0 ==> {
            &&& row_pos_18(c) < 38
            &&& row_char_at_18(row_pos_18(c)) == c
        },
{
}

spec fn row_char_at_19(i: int) -> char {
    if i == 0 {
        'w'
    } else if i == 1 {
        'y'
    } else if i == 2 {
        's'
    } else if i == 3 {
        '8'
    } else if i == 4 {
        'm'
    } else if i == 5 {
        'b'
    } else if i == 6 {
        'r'
    } else if i == 7 {
        'p'
    } else if i == 8 {
        '0'
    } else if i == 9 {
        'k'
    } else if i == 10 {
        '4'
    } else if i == 11 {
        '9'
    } else if i == 12 {
        'f'
    } else if i == 13 {
        'h'
    } else if i == 14 {
        '5'
    } else if i == 15 {
        'x'
    } else if i == 16 {
        'c'
    } else if i == 17 {
        'd'
    } else if i == 18 {
        't'
    } else if i == 19 {
        'i'
    } else if i == 20 {
        'g'
    } else if i == 21 {
        'e'
    } else if i == 22 {
        'q'
    } else if i == 23 {
        '-'
    } else if i == 24 {
        '3'
    } else if i == 25 {
        'o'
    } else if i == 26 {
        'u'
    } else if i == 27 {
        'a'
    } else if i == 28 {
        'z'
    } else if i == 29 {
        '2'
    } else if i == 30 {
        '.'
    } else if i == 31 {
        'n'
    } else if i == 32 {
        'v'
    } else if i == 33 {
        'l'
    } else if i == 34 {
        'j'
    } else if i == 35 {
        '1'
    } else if i == 36 {
        '6'
    } else if i == 37 {
        '7'
    } else {
        ' '
    }
}

spec fn row_pos_19(c: char) -> int {
    match c {
        'w' => 0,
        'y' => 1,
        's' => 2,
        '8' => 3,
        'm' => 4,
        'b' => 5,
        'r' => 6,
        'p' => 7,
        '0' => 8,
        'k' => 9,
        '4' => 10,
        '9' => 11,
        'f' => 12,
        'h' => 13,
        '5' => 14,
        'x' => 15,
        'c' => 16,
        'd' => 17,
        't' => 18,
        'i' => 19,
        'g' => 20,
        'e' => 21,
        'q' => 22,
        '-' => 23,
        '3' => 24,
        'o' => 25,
        'u' => 26,
        'a' => 27,
        'z' => 28,
        '2' => 29,
        '.' => 30,
        'n' => 31,
        'v' => 32,
        'l' => 33,
        'j' => 34,
        '1' => 35,
        '6' => 36,
        '7' => 37,
        _ => -1,
    }
}

proof fn lemma_row_19()
    ensures
        forall|i: int| 0 <= i < 38 ==> {
            &&& CORRESPONDENCE@[19]@[i] == row_char_at_19(i)
            &&& row_pos_19(row_char_at_19(i)) == i
            &&& plain_pos(row_char_at_19(i)) >= 0
        },
        forall|c: char| row_pos_19(c) >= 0 ==> {
            &&& row_pos_19(c) < 38
            &&& row_char_at_19(row_pos_19(c)) == c
        },
{
}

spec fn row_char_at_20(i: int) -> char {
    if i == 0 {
        '8'
    } else if i == 1 {
        's'
    } else if i == 2 {
        'm'
    } else if i == 3 {
        '1'
    } else if i == 4 {
        '7'
    } else if i == 5 {
        'd'
    } else if i == 6 {
        'y'
    } else if i == 7 {
        '0'
    } else if i == 8 {
        'p'
    } else if i == 9 {
        't'
    } else if i == 10 {
        '.'
    } else if i == 11 {
        '3'
    } else if i == 12 {
        'u'
    } else if i == 13 {
        'q'
    } else if i == 14 {
        'j'
    } else if i == 15 {
        'w'
    } else if i == 16 {
        '-'
    } else if i == 17 {
        '4'
    } else if i == 18 {
        'x'
    } else if i == 19 {
        'e'
    } else if i == 20 {
        'a'
    } else if i == 21 {
        '9'
    } else if i == 22 {
        'o'
    } else if i == 23 {
        'c'
    } else if i == 24 {
        'r'
    } else if i == 25 {
        'h'
    } else if i == 26 {
        'g'
    } else if i == 27 {
        'k'
    } else if i == 28 {
        'v'
    } else if i == 29 {
        '6'
    } else if i == 30 {
        'n'
    } else if i == 31 {
        '2'
    } else if i == 32 {
        'f'
    } else if i == 33 {
        'z'
    } else if i == 34 {
        'i'
    } else if i == 35 {
        'l'
    } else if i == 36 {
        'b'
    } else if i == 37 {
        '5'
    } else {
        ' '
    }
}

spec fn row_pos_20(c: char) -> int {
    match c {
        '8' => 0,
        's' => 1,
        'm' => 2,
        '1' => 3,
        '7' => 4,
        'd' => 5,
        'y' => 6,
        '0' => 7,
        'p' => 8,
        't' => 9,
        '.' => 10,
        '3' => 11,
        'u' => 12,
        'q' => 13,
        'j' => 14,
        'w' => 15,
        '-' => 16,
        '4' => 17,
        'x' => 18,
        'e' => 19,
        'a' => 20,
        '9' => 21,
        'o' => 22,
        'c' => 23,
        'r' => 24,
        'h' => 25,
        'g' => 26,
        'k' => 27,
        'v' => 28,
        '6' => 29,
        'n' => 30,
        '2' => 31,
        'f' => 32,
        'z' => 33,
        'i' => 34,
        'l' => 35,
        'b' => 36,
        '5' => 37,
        _ => -1,
    }
}

proof fn lemma_row_20()
    ensures
        forall|i: int| 0 <= i < 38 ==> {
            &&& CORRESPONDENCE@[20]@[i] == row_char_at_20(i)
            &&& row_pos_20(row_char_at_20(i)) == i
            &&& plain_pos(row_char_at_20(i)) >= 0
        },
        forall|c: char| row_pos_20(c) >= 0 ==> {
            &&& row_pos_20(c) < 38
            &&& row_char_at_20(row_pos_20(c)) == c
        },
{
}

spec fn row_char_at_21(i: int) -> char {
    if i == 0 {
        'j'
    } else if i == 1 {
        'm'
    } else if i == 2 {
        'k'
    } else if i == 3 {
        '9'
    } else if i == 4 {
        '4'
    } else if i == 5 {
        'g'
    } else if i == 6 {
        'q'
    } else if i == 7 {
        'd'
    } else if i == 8 {
        'x'
    } else if i == 9 {
        'w'
    } else if i == 10 {
        'y'
    } else if i == 11 {
        'v'
    } else if i == 12 {
        '3'
    } else if i == 13 {
        'b'
    } else if i == 14 {
        'c'
    } else if i == 15 {
        'f'
    } else if i == 16 {
        '5'
    } else if i == 17 {
        '6'
    } else if i == 18 {
        '2'
    } else if i == 19 {
        'p'
    } else if i == 20 {
        'e'
    } else if i == 21 {
        'a'
    } else if i == 22 {
        'n'
    } else if i == 23 {
        'i'
    } else if i == 24 {
        't'
    } else if i == 25 {
        'z'
    } else if i == 26 {
        '-'
    } else if i == 27 {
        '1'
    } else if i == 28 {
        'o'
    } else if i == 29 {
        'l'
    } else if i == 30 {
        '8'
    } else if i == 31 {
        'h'
    } else if i == 32 {
        'r'
    } else if i == 33 {
        '.'
    } else if i == 34 {
        '7'
    } else if i == 35 {
        '0'
    } else if i == 36 {
        'u'
    } else if i == 37 {
        's'
    } else {
        ' '
    }
}

spec fn row_pos_21(c: char) -> int {
    match c {
        'j' => 0,
        'm' => 1,
        'k' => 2,
        '9' => 3,
        '4' => 4,
        'g' => 5,
        'q' => 6,
        'd' => 7,
        'x' => 8,
        'w' => 9,
        'y' => 10,
        'v' => 11,
        '3' => 12,
        'b' => 13,
        'c' => 14,
        'f' => 15,
        '5' => 16,
        '6' => 17,
        '2' => 18,
        'p' => 19,
        'e' => 20,
        'a' => 21,
        'n' => 22,
        'i' => 23,
        't' => 24,
        'z' => 25,
        '-' => 26,
        '1' => 27,
        'o' => 28,
        'l' => 29,
        '8' => 30,
        'h' => 31,
        'r' => 32,
        '.' => 33,
        '7' => 34,
        '0' => 35,
        'u' => 36,
        's' => 37,
        _ => -1,
    }
}

proof fn lemma_row_21()
    ensures
        forall|i: int| 0 <= i < 38 ==> {
            &&& CORRESPONDENCE@[21]@[i] == row_char_at_21(i)
            &&& row_pos_21(row_char_at_21(i)) == i
            &&& plain_pos(row_char_at_21(i)) >= 0
        },
        forall|c: char| row_pos_21(c) >= 0 ==> {
            &&& row_pos_21(c) < 38
            &&& row_char_at_21(row_pos_21(c)) == c
        },
{
}

spec fn row_char_at_22(i: int) -> char {
    if i == 0 {
        '9'
    } else if i == 1 {
        '4'
    } else if i == 2 {
        'g'
    } else if i == 3 {
        'z'
    } else if i == 4 {
        'r'
    } else if i == 5 {
        '-'
    } else if i == 6 {
        'u'
    } else if i == 7 {
        'o'
    } else if i == 8 {
        '.'
    } else if i == 9 {
        'x'
    } else if i == 10 {
        '7'
    } else if i == 11 {
        'd'
    } else if i == 12 {
        'w'
    } else if i == 13 {
        '3'
    } else if i == 14 {
        't'
    } else if i == 15 {
        'n'
    } else if i == 16 {
        's'
    } else if i == 17 {
        'f'
    } else if i == 18 {
        'l'
    } else if i == 19 {
        '1'
    } else if i == 20 {
        '2'
    } else if i == 21 {
        'k'
    } else if i == 22 {
        'y'
    } else if i == 23 {
        'i'
    } else if i == 24 {
        '0'
    } else if i == 25 {
        '5'
    } else if i == 26 {
        'c'
    } else if i == 27 {
        'p'
    } else if i == 28 {
        'j'
    } else if i == 29 {
        'b'
    } else if i == 30 {
        'm'
    } else if i == 31 {
        '6'
    } else if i == 32 {
        'a'
    } else if i == 33 {
        'v'
    } else if i == 34 {
        '8'
    } else if i == 35 {
        'e'
    } else if i == 36 {
        'h'
    } else if i == 37 {
        'q'
    } else {
        ' '
    }
}

spec fn row_pos_22(c: char) -> int {
    match c {
        '9' => 0,
        '4' => 1,
        'g' => 2,
        'z' => 3,
        'r' => 4,
        '-' => 5,
        'u' => 6,
        'o' => 7,
        '.' => 8,
        'x' => 9,
        '7' => 10,
        'd' => 11,
        'w' => 12,
        '3' => 13,
        't' => 14,
        'n' => 15,
        's' => 16,
        'f' => 17,
        'l' => 18,
        '1' => 19,
        '2' => 20,
        'k' => 21,
        'y' => 22,
        'i' => 23,
        '0' => 24,
        '5' => 25,
        'c' => 26,
        'p' => 27,
        'j' => 28,
        'b' => 29,
        'm' => 30,
        '6' => 31,
        'a' => 32,
        'v' => 33,
        '8' => 34,
        'e' => 35,
        'h' => 36,
        'q' => 37,
        _ => -1,
    }
}

proof fn lemma_row_22()
    ensures
        forall|i: int| 0 <= i < 38 ==> {
            &&& CORRESPONDENCE@[22]@[i] == row_char_at_22(i)
            &&& row_pos_22(row_char_at_22(i)) == i
            &&& plain_pos(row_char_at_22(i)) >= 0
        },
        forall|c: char| row_pos_22(c) >= 0 ==> {
            &&& row_pos_22(c) < 38
            &&& row_char_at_22(row_pos_22(c)) == c
        },
{
}

spec fn row_char_at_23(i: int) -> char {
    if i == 0 {
        'n'
    } else if i == 1 {
        '6'
    } else if i == 2 {
        'o'
    } else if i == 3 {
        'k'
    } else if i == 4 {
        'l'
    } else if i == 5 {
        't'
    } else if i == 6 {
        '3'
    } else if i == 7 {
        'a'
    } else if i == 8 {
        'f'
    } else if i == 9 {
        'y'
    } else if i == 10 {
        '5'
    } else if i == 11 {
        '7'
    } else if i == 12 {
        'm'
    } else if i == 13 {
        'q'
    } else if i == 14 {
        'p'
    } else if i == 15 {
        '.'
    } else if i == 16 {
        '1'
    } else if i == 17 {
        'e'
    } else if i == 18 {
        'd'
    } else if i == 19 {
        'c'
    } else if i == 20 {
        '-'
    } else if i == 21 {
        'u'
    } else if i == 22 {
        '4'
    } else if i == 23 {
        's'
    } else if i == 24 {
        'g'
    } else if i == 25 {
        'v'
    } else if i == 26 {
        '8'
    } else if i == 27 {
        'r'
    } else if i == 28 {
        '0'
    } else if i == 29 {
        'b'
    } else if i == 30 {
        '2'
    } else if i == 31 {
        'x'
    } else if i == 32 {
        'z'
    } else if i == 33 {
        'j'
    } else if i == 34 {
        '9'
    } else if i == 35 {
        'w'
    } else if i == 36 {
        'i'
    } else if i == 37 {
        'h'
    } else {
        ' '
    }
}

spec fn row_pos_23(c: char) -> int {
    match c {
        'n' => 0,
        '6' => 1,
        'o' => 2,
        'k' => 3,
        'l' => 4,
        't' => 5,
        '3' => 6,
        'a' => 7,
        'f' => 8,
        'y' => 9,
        '5' => 10,
        '7' => 11,
        'm' => 12,
        'q' => 13,
        'p' => 14,
        '.' => 15,
        '1' => 16,
        'e' => 17,
        'd' => 18,
        'c' => 19,
        '-' => 20,
        'u' => 21,
        '4' => 22,
        's' => 23,
        'g' => 24,
        'v' => 25,
        '8' => 26,
        'r' => 27,
        '0' => 28,
        'b' => 29,
        '2' => 30,
        'x' => 31,
        'z' => 32,
        'j' => 33,
        '9' => 34,
        'w' => 35,
        'i' => 36,
        'h' => 37,
        _ => -1,
    }
}

proof fn lemma_row_23()
    ensures
        forall|i: int| 0 <= i < 38 ==> {
            &&& CORRESPONDENCE@[23]@[i] == row_char_at_23(i)
            &&& row_pos_23(row_char_at_23(i)) == i
            &&& plain_pos(row_char_at_23(i)) >= 0
        },
        forall|c: char| row_pos_23(c) >= 0 ==> {
            &&& row_pos_23(c) < 38
            &&& row_char_at_23(row_pos_23(c)) == c
        },
{
}

spec fn row_char_at(p: int, i: int) -> char {
    if p == 0 {
        row_char_at_0(i)
    } else if p == 1 {
        row_char_at_1(i)
    } else if p == 2 {
        row_char_at_2(i)
    } else if p == 3 {
        row_char_at_3(i)
    } else if p == 4 {
        row_char_at_4(i)
    } else if p == 5 {
        row_char_at_5(i)
    } else if p == 6 {
        row_char_at_6(i)
    } else if p == 7 {
        row_char_at_7(i)
    } else if p == 8 {
        row_char_at_8(i)
    } else if p == 9 {
        row_char_at_9(i)
    } else if p == 10 {
        row_char_at_10(i)
    } else if p == 11 {
        row_char_at_11(i)
    } else if p == 12 {
        row_char_at_12(i)
    } else if p == 13 {
        row_char_at_13(i)
    } else if p == 14 {
        row_char_at_14(i)
    } else if p == 15 {
        row_char_at_15(i)
    } else if p == 16 {
        row_char_at_16(i)
    } else if p == 17 {
        row_char_at_17(i)
    } else if p == 18 {
        row_char_at_18(i)
    } else if p == 19 {
        row_char_at_19(i)
    } else if p == 20 {
        row_char_at_20(i)
    } else if p == 21 {
        row_char_at_21(i)
    } else if p == 22 {
        row_char_at_22(i)
    } else if p == 23 {
        row_char_at_23(i)
    } else {
        ' '
    }
}

spec fn row_pos(p: int, c: char) -> int {
    if p == 0 {
        row_pos_0(c)
    } else if p == 1 {
        row_pos_1(c)
    } else if p == 2 {
        row_pos_2(c)
    } else if p == 3 {
        row_pos_3(c)
    } else if p == 4 {
        row_pos_4(c)
    } else if p == 5 {
        row_pos_5(c)
    } else if p == 6 {
        row_pos_6(c)
    } else if p == 7 {
        row_pos_7(c)
    } else if p == 8 {
        row_pos_8(c)
    } else if p == 9 {
        row_pos_9(c)
    } else if p == 10 {
        row_pos_10(c)
    } else if p == 11 {
        row_pos_11(c)
    } else if p == 12 {
        row_pos_12(c)
    } else if p == 13 {
        row_pos_13(c)
    } else if p == 14 {
        row_pos_14(c)
    } else if p == 15 {
        row_pos_15(c)
    } else if p == 16 {
        row_pos_16(c)
    } else if p == 17 {
        row_pos_17(c)
    } else if p == 18 {
        row_pos_18(c)
    } else if p == 19 {
        row_pos_19(c)
    } else if p == 20 {
        row_pos_20(c)
    } else if p == 21 {
        row_pos_21(c)
    } else if p == 22 {
        row_pos_22(c)
    } else if p == 23 {
        row_pos_23(c)
    } else {
        -1
    }
}

proof fn lemma_rows(p: int)
    requires
        0 <= p < 24,
    ensures
        forall|i: int| 0 <= i < 38 ==> {
            &&& CORRESPONDENCE@[p]@[i] == row_char_at(p, i)
            &&& row_pos(p, row_char_at(p, i)) == i
            &&& plain_pos(row_char_at(p, i)) >= 0
        },
        forall|c: char| row_pos(p, c) >= 0 ==> {
            &&& row_pos(p, c) < 38
            &&& row_char_at(p, row_pos(p, c)) == c
        },
{
    if p == 0 {
        lemma_row_0();
    }
    else if p == 1 {
        lemma_row_1();
    }
    else if p == 2 {
        lemma_row_2();
    }
    else if p == 3 {
        lemma_row_3();
    }
    else if p == 4 {
        lemma_row_4();
    }
    else if p == 5 {
        lemma_row_5();
    }
    else if p == 6 {
        lemma_row_6();
    }
    else if p == 7 {
        lemma_row_7();
    }
    else if p == 8 {
        lemma_row_8();
    }
    else if p == 9 {
        lemma_row_9();
    }
    else if p == 10 {
        lemma_row_10();
    }
    else if p == 11 {
        lemma_row_11();
    }
    else if p == 12 {
        lemma_row_12();
    }
    else if p == 13 {
        lemma_row_13();
    }
    else if p == 14 {
        lemma_row_14();
    }
    else if p == 15 {
        lemma_row_15();
    }
    else if p == 16 {
        lemma_row_16();
    }
    else if p == 17 {
        lemma_row_17();
    }
    else if p == 18 {
        lemma_row_18();
    }
    else if p == 19 {
        lemma_row_19();
    }
    else if p == 20 {
        lemma_row_20();
    }
    else if p == 21 {
        lemma_row_21();
    }
    else if p == 22 {
        lemma_row_22();
    }
    else if p == 23 {
        lemma_row_23();
    }
}

proof fn lemma_plain()
    ensures
        forall|i: int| 0 <= i < 38 ==> {
            &&& PLAIN@[i] == plain_char_at(i)
            &&& plain_pos(plain_char_at(i)) == i
            &&& (plain_char_at(i) as u32) < 128
        },
        forall|c: char| plain_pos(c) >= 0 ==> {
            &&& plain_pos(c) < 38
            &&& plain_char_at(plain_pos(c)) == c
        },
{
}


// ---------------------------------------------------------------------------
// Specification
// ---------------------------------------------------------------------------

/// The substitute of `c` in table `pick`: characters outside `PLAIN` stay.
pub open spec fn encrypt_char(c: char, pick: int) -> char {
    match PLAIN@.index_of_first(c) {
        Some(i) => CORRESPONDENCE@[pick]@[i],
        None => c,
    }
}

/// The inverse substitution of table `index`: characters outside the table stay.
pub open spec fn decrypt_char(c: char, index: int) -> char {
    match CORRESPONDENCE@[index]@.index_of_first(c) {
        Some(i) => PLAIN@[i],
        None => c,
    }
}

pub open spec fn encrypt_seq(s: Seq<char>, pick: int) -> Seq<char> {
    s.map_values(|c: char| encrypt_char(c, pick))
}

pub open spec fn decrypt_seq(s: Seq<char>, index: int) -> Seq<char> {
    s.map_values(|c: char| decrypt_char(c, index))
}

/// The byte length of a character sequence in UTF-8.
pub open spec fn byte_len(s: Seq<char>) -> int {
    encode_utf8(s).len() as int
}

/// The possible path lengths for a hostname of `hostname_len` bytes.
pub open spec fn path_sizes(hostname_len: int) -> Seq<int> {
    SIZES@.map_values(|size: i32| size + hostname_len + 1)
}

/// The random prefix comes first: after each of its characters, the next
/// character of the encrypted hostname, while there is one.
pub open spec fn weave_random_first(random: Seq<char>, hidden: Seq<char>) -> Seq<char>
    decreases random.len(),
{
    if random.len() == 0 {
        seq![]
    } else if hidden.len() == 0 {
        seq![random[0]] + weave_random_first(random.drop_first(), hidden)
    } else {
        seq![random[0], hidden[0]] + weave_random_first(random.drop_first(), hidden.drop_first())
    }
}

/// The encrypted hostname comes first: each of its characters preceded by the
/// next character of the random prefix, while there is one.
pub open spec fn weave_hidden_first(random: Seq<char>, hidden: Seq<char>) -> Seq<char>
    decreases hidden.len(),
{
    if hidden.len() == 0 {
        seq![]
    } else if random.len() == 0 {
        seq![hidden[0]] + weave_hidden_first(random, hidden.drop_first())
    } else {
        seq![random[0], hidden[0]] + weave_hidden_first(random.drop_first(), hidden.drop_first())
    }
}

/// The path that `merge_path` builds from a random prefix and an encrypted
/// hostname.
pub open spec fn generated_path(random: Seq<char>, hidden: Seq<char>) -> Seq<char> {
    if byte_len(random) + byte_len(hidden) >= 2 * byte_len(hidden) {
        seq!['/'] + weave_random_first(random, hidden)
    } else {
        seq!['/'] + weave_hidden_first(random, hidden)
    }
}

/// Reads `k` pairs of characters and keeps the second of each: the kept
/// characters and what is left unread.
pub open spec fn take_pairs(s: Seq<char>, k: nat) -> (Seq<char>, Seq<char>)
    decreases k,
{
    if k == 0 || s.len() == 0 {
        (seq![], s)
    } else if s.len() == 1 {
        (seq![], seq![])
    } else {
        let rest = take_pairs(s.subrange(2, s.len() as int), (k - 1) as nat);
        (seq![s[1]] + rest.0, rest.1)
    }
}

/// The encrypted hostname that `validate` reads out of a path without its
/// leading slash, `new_path_len` and `hostname_len` being byte lengths.
pub open spec fn extracted(new_path: Seq<char>, new_path_len: int, hostname_len: int) -> Seq<
    char,
> {
    if new_path_len < 2 * hostname_len {
        let pairs = take_pairs(new_path, (new_path_len - hostname_len) as nat);
        let tail = hostname_len - (new_path_len - hostname_len);
        let rest = pairs.1;
        pairs.0 + rest.subrange(0, if tail < rest.len() { tail } else { rest.len() as int })
    } else {
        take_pairs(new_path, hostname_len as nat).0
    }
}

/// Whether `validate` accepts `path` for `hostname`.
pub open spec fn validates(hostname: Seq<char>, path: Seq<char>) -> bool {
    let hl = byte_len(hostname);
    let pl = byte_len(path);
    if !path_sizes(hl).contains(pl) {
        false
    } else {
        let hidden = extracted(path.drop_first(), pl - 1, hl);
        exists|index: int| 0 <= index < 24 && decrypt_seq(hidden, index) == hostname
    }
}

/// The precondition of `validate`: the path fits the integer it is compared
/// with, and when its length is one of the expected ones its first character
/// is a single byte (the first byte is dropped).
pub open spec fn validate_requires(hostname: Seq<char>, path: Seq<char>) -> bool {
    &&& byte_len(hostname) + 324 <= i32::MAX
    &&& byte_len(path) <= i32::MAX
    &&& path_sizes(byte_len(hostname)).contains(byte_len(path)) ==> path.len() > 0 && (path[0] as u32)
        < 0x80
}

pub open spec fn charset_char(c: char) -> bool {
    exists|j: int| 0 <= j < CHARSET@.len() && c == (CHARSET@[j] as char)
}

pub open spec fn is_prefix_size(n: int) -> bool {
    exists|k: int| 0 <= k < 24 && n == SIZES@[k]
}

// ---------------------------------------------------------------------------
// Facts about the tables
// ---------------------------------------------------------------------------

proof fn lemma_index_of_first_plain(c: char)
    ensures
        PLAIN@.index_of_first(c) == (if plain_pos(c) >= 0 {
            Some(plain_pos(c))
        } else {
            None
        }),
{
    lemma_plain();
    PLAIN@.index_of_first_ensures(c);
    match PLAIN@.index_of_first(c) {
        Some(k) => {
            assert(PLAIN@[k] == plain_char_at(k));
        },
        None => {
            if plain_pos(c) >= 0 {
                assert(PLAIN@[plain_pos(c)] == c);
            }
        },
    }
}

proof fn lemma_index_of_first_row(p: int, c: char)
    requires
        0 <= p < 24,
    ensures
        CORRESPONDENCE@[p]@.index_of_first(c) == (if row_pos(p, c) >= 0 {
            Some(row_pos(p, c))
        } else {
            None
        }),
{
    lemma_rows(p);
    CORRESPONDENCE@[p]@.index_of_first_ensures(c);
    match CORRESPONDENCE@[p]@.index_of_first(c) {
        Some(k) => {
            assert(CORRESPONDENCE@[p]@[k] == row_char_at(p, k));
        },
        None => {
            if row_pos(p, c) >= 0 {
                assert(CORRESPONDENCE@[p]@[row_pos(p, c)] == c);
            }
        },
    }
}

/// Decrypting with the table that encrypted gives the character back.
pub proof fn lemma_decrypt_encrypt_char(c: char, pick: int)
    requires
        0 <= pick < 24,
    ensures
        decrypt_char(encrypt_char(c, pick), pick) == c,
        (c as u32) < 0x80 ==> (encrypt_char(c, pick) as u32) < 0x80,
{
    lemma_plain();
    lemma_rows(pick);
    lemma_index_of_first_plain(c);
    let e = encrypt_char(c, pick);
    lemma_index_of_first_row(pick, e);
    if plain_pos(c) >= 0 {
        let i = plain_pos(c);
        assert(e == row_char_at(pick, i));
        assert(row_pos(pick, e) == i);
        assert(plain_char_at(plain_pos(e)) == e);
    } else {
        assert(e == c);
        if row_pos(pick, c) >= 0 {
            let j = row_pos(pick, c);
            assert(row_char_at(pick, j) == c);
            assert(plain_pos(c) >= 0);
        }
    }
}

/// Decrypting with the table that encrypted gives the string back.
pub proof fn lemma_decrypt_encrypt(s: Seq<char>, pick: int)
    requires
        0 <= pick < 24,
    ensures
        decrypt_seq(encrypt_seq(s, pick), pick) == s,
        is_ascii_chars(s) ==> is_ascii_chars(encrypt_seq(s, pick)),
{
    assert forall|i: int| 0 <= i < s.len() implies decrypt_char(encrypt_char(s[i], pick), pick)
        == s[i] && ((s[i] as u32) < 0x80 ==> (encrypt_char(s[i], pick) as u32) < 0x80) by {
        lemma_decrypt_encrypt_char(s[i], pick);
    }
    assert(decrypt_seq(encrypt_seq(s, pick), pick) =~= s);
}

// ---------------------------------------------------------------------------
// Lemmas on the path layout
// ---------------------------------------------------------------------------

proof fn lemma_ascii_byte_len(s: Seq<char>)
    requires
        is_ascii_chars(s),
    ensures
        byte_len(s) == s.len(),
{
    is_ascii_chars_encode_utf8(s);
}

proof fn lemma_weave_random_first(random: Seq<char>, hidden: Seq<char>)
    requires
        hidden.len() <= random.len(),
    ensures
        weave_random_first(random, hidden).len() == random.len() + hidden.len(),
        take_pairs(weave_random_first(random, hidden), hidden.len()).0 == hidden,
        is_ascii_chars(random) && is_ascii_chars(hidden) ==> is_ascii_chars(
            weave_random_first(random, hidden),
        ),
    decreases random.len(),
{
    let w = weave_random_first(random, hidden);
    if random.len() == 0 {
    } else if hidden.len() == 0 {
        lemma_weave_random_first(random.drop_first(), hidden);
        if is_ascii_chars(random) && is_ascii_chars(hidden) {
            let t = weave_random_first(random.drop_first(), hidden);
            assert forall|i: int| 0 <= i < w.len() implies (w[i] as u32) < 0x80 by {
                if i > 0 {
                    assert(w[i] == t[i - 1]);
                }
            }
        }
    } else {
        let r2 = random.drop_first();
        let h2 = hidden.drop_first();
        lemma_weave_random_first(r2, h2);
        let t = weave_random_first(r2, h2);
        assert(w.subrange(2, w.len() as int) =~= t);
        assert(take_pairs(w, hidden.len()).0 =~= seq![hidden[0]] + take_pairs(t, h2.len()).0);
        assert(seq![hidden[0]] + h2 =~= hidden);
        if is_ascii_chars(random) && is_ascii_chars(hidden) {
            assert forall|i: int| 0 <= i < w.len() implies (w[i] as u32) < 0x80 by {
                if i > 1 {
                    assert(w[i] == t[i - 2]);
                }
            }
        }
    }
}

proof fn lemma_weave_hidden_first(random: Seq<char>, hidden: Seq<char>)
    requires
        random.len() <= hidden.len(),
    ensures
        weave_hidden_first(random, hidden).len() == random.len() + hidden.len(),
        ({
            let pairs = take_pairs(weave_hidden_first(random, hidden), random.len());
            pairs.0 == hidden.subrange(0, random.len() as int) && pairs.1 == hidden.subrange(
                random.len() as int,
                hidden.len() as int,
            )
        }),
        is_ascii_chars(random) && is_ascii_chars(hidden) ==> is_ascii_chars(
            weave_hidden_first(random, hidden),
        ),
    decreases hidden.len(),
{
    let w = weave_hidden_first(random, hidden);
    if hidden.len() == 0 {
        assert(hidden.subrange(0, 0) =~= Seq::<char>::empty());
    } else if random.len() == 0 {
        lemma_weave_hidden_first(random, hidden.drop_first());
        let t = weave_hidden_first(random, hidden.drop_first());
        assert(hidden.subrange(0, 0) =~= Seq::<char>::empty());
        assert(hidden.subrange(0, hidden.len() as int) =~= hidden);
        assert(w =~= seq![hidden[0]] + t);
        lemma_weave_hidden_first_no_random(hidden);
        if is_ascii_chars(random) && is_ascii_chars(hidden) {
            assert forall|i: int| 0 <= i < w.len() implies (w[i] as u32) < 0x80 by {
                if i > 0 {
                    assert(w[i] == t[i - 1]);
                }
            }
        }
    } else {
        let r2 = random.drop_first();
        let h2 = hidden.drop_first();
        lemma_weave_hidden_first(r2, h2);
        let t = weave_hidden_first(r2, h2);
        assert(w.subrange(2, w.len() as int) =~= t);
        assert(take_pairs(w, random.len()).0 =~= seq![hidden[0]] + take_pairs(t, r2.len()).0);
        assert(take_pairs(w, random.len()).1 == take_pairs(t, r2.len()).1);
        assert(seq![hidden[0]] + h2.subrange(0, r2.len() as int) =~= hidden.subrange(
            0,
            random.len() as int,
        ));
        assert(h2.subrange(r2.len() as int, h2.len() as int) =~= hidden.subrange(
            random.len() as int,
            hidden.len() as int,
        ));
        if is_ascii_chars(random) && is_ascii_chars(hidden) {
            assert forall|i: int| 0 <= i < w.len() implies (w[i] as u32) < 0x80 by {
                if i > 1 {
                    assert(w[i] == t[i - 2]);
                }
            }
        }
    }
}

proof fn lemma_weave_hidden_first_no_random(hidden: Seq<char>)
    ensures
        weave_hidden_first(seq![], hidden) == hidden,
    decreases hidden.len(),
{
    if hidden.len() > 0 {
        lemma_weave_hidden_first_no_random(hidden.drop_first());
        assert(seq![hidden[0]] + hidden.drop_first() =~= hidden);
    }
}

/// A path generated for an ASCII hostname, from a random prefix of one of the
/// expected sizes and any of the tables, is accepted by `validate` for that
/// hostname.
pub proof fn lemma_generated_path_validates(hostname: Seq<char>, random: Seq<char>, pick: int)
    requires
        is_ascii_chars(hostname),
        is_ascii_chars(random),
        is_prefix_size(random.len() as int),
        0 <= pick < 24,
    ensures
        validates(hostname, generated_path(random, encrypt_seq(hostname, pick))),
{
    let hidden = encrypt_seq(hostname, pick);
    lemma_decrypt_encrypt(hostname, pick);
    lemma_ascii_byte_len(hostname);
    lemma_ascii_byte_len(random);
    lemma_ascii_byte_len(hidden);
    let hl = hostname.len() as int;
    let rl = random.len() as int;
    let k = choose|k: int| 0 <= k < 24 && rl == SIZES@[k];
    let path = generated_path(random, hidden);
    let new_path = path.drop_first();
    if rl >= hl {
        lemma_weave_random_first(random, hidden);
        assert(new_path =~= weave_random_first(random, hidden));
    } else {
        lemma_weave_hidden_first(random, hidden);
        assert(new_path =~= weave_hidden_first(random, hidden));
        let pairs = take_pairs(new_path, rl as nat);
        assert(pairs.0 + pairs.1 =~= hidden);
        assert(pairs.1.subrange(0, pairs.1.len() as int) =~= pairs.1);
    }
    assert(is_ascii_chars(path)) by {
        assert forall|i: int| 0 <= i < path.len() implies (path[i] as u32) < 0x80 by {
            if i > 0 {
                assert(path[i] == new_path[i - 1]);
            }
        }
    }
    lemma_ascii_byte_len(path);
    assert(path_sizes(hl)[k] == byte_len(path));
    assert(extracted(new_path, byte_len(path) - 1, hl) == hidden);
    assert(decrypt_seq(hidden, pick) == hostname);
}

/// A path that `generate` can produce for an ASCII hostname starts with `/`,
/// and its length is one of those that `guess_path_sizes` gives for the
/// hostname.
pub proof fn lemma_generated_path_shape(hostname: Seq<char>, random: Seq<char>, pick: int)
    requires
        is_ascii_chars(hostname),
        is_prefix_size(random.len() as int),
        forall|i: int| 0 <= i < random.len() ==> charset_char(#[trigger] random[i]),
        0 <= pick < 24,
    ensures
        generated_path(random, encrypt_seq(hostname, pick)).len() > 0,
        generated_path(random, encrypt_seq(hostname, pick))[0] == '/',
        path_sizes(byte_len(hostname)).contains(
            byte_len(generated_path(random, encrypt_seq(hostname, pick))),
        ),
{
    lemma_generate_then_validate(hostname, random, pick);
}

/// Every path that `generate` can produce for an ASCII hostname is accepted by
/// `validate` for that hostname, and meets `validate`'s precondition when the
/// hostname is short enough for the length check.
pub proof fn lemma_generate_then_validate(hostname: Seq<char>, random: Seq<char>, pick: int)
    requires
        is_ascii_chars(hostname),
        is_prefix_size(random.len() as int),
        forall|i: int| 0 <= i < random.len() ==> charset_char(#[trigger] random[i]),
        0 <= pick < 24,
    ensures
        validates(hostname, generated_path(random, encrypt_seq(hostname, pick))),
        byte_len(hostname) + 324 <= i32::MAX ==> validate_requires(
            hostname,
            generated_path(random, encrypt_seq(hostname, pick)),
        ),
{
    lemma_random_string_bytes(random);
    lemma_generated_path_validates(hostname, random, pick);
    let hidden = encrypt_seq(hostname, pick);
    lemma_decrypt_encrypt(hostname, pick);
    lemma_ascii_byte_len(hostname);
    lemma_ascii_byte_len(hidden);
    let path = generated_path(random, hidden);
    let k = choose|k: int| 0 <= k < 24 && random.len() == SIZES@[k];
    assert(SIZES@[k] <= 322) by {
        assert(SIZES@[k] == [23i32, 37, 52, 65, 72, 88, 92, 101, 134, 141, 144, 167, 168, 181,
            195, 204, 231, 235, 256, 283, 301, 303, 310, 322]@[k]);
    }
    if random.len() >= hostname.len() {
        lemma_weave_random_first(random, hidden);
    } else {
        lemma_weave_hidden_first(random, hidden);
    }
    assert(is_ascii_chars(path)) by {
        let new_path = path.drop_first();
        if random.len() >= hostname.len() {
            assert(new_path =~= weave_random_first(random, hidden));
        } else {
            assert(new_path =~= weave_hidden_first(random, hidden));
        }
        assert forall|i: int| 0 <= i < path.len() implies (path[i] as u32) < 0x80 by {
            if i > 0 {
                assert(path[i] == new_path[i - 1]);
            }
        }
    }
    lemma_ascii_byte_len(path);
}

// ---------------------------------------------------------------------------
// Outside calls: the random choices
// ---------------------------------------------------------------------------

/// `rand::Rng::gen_range(0..bound)` on the thread-local generator: a number
/// below `bound`, chosen at random.
#[verifier::external_body]
fn random_below(bound: usize) -> (r: usize)
    requires
        bound > 0,
    ensures
        r < bound,
{
    rand::thread_rng().gen_range(0..bound)
}

/// `rand::seq::SliceRandom::choose` on the thread-local generator: one element
/// of a non-empty slice, chosen at random.
#[verifier::external_body]
fn choose_byte(bytes: &[u8]) -> (r: u8)
    requires
        bytes@.len() > 0,
    ensures
        bytes@.contains(r),
{
    *bytes.choose(&mut rand::thread_rng()).unwrap()
}

// ---------------------------------------------------------------------------
// Executable functions
// ---------------------------------------------------------------------------

/// The first position of `c` in a table row.
fn position_in(row: &[char; 38], c: char) -> (r: Option<usize>)
    ensures
        r matches Some(i) ==> row@.index_of_first(c) == Some(i as int) && i < 38 && row@[i as int]
            == c,
        r is None ==> row@.index_of_first(c) is None,
{
    let mut i: usize = 0;
    while i < 38
        invariant
            i <= 38,
            row@.len() == 38,
            forall|k: int| 0 <= k < i ==> row@[k] != c,
        decreases 38 - i,
    {
        if row[i] == c {
            proof {
                row@.index_of_first_ensures(c);
                match row@.index_of_first(c) {
                    Some(k) => {
                        if k < i {
                        } else if k > i {
                        }
                    },
                    None => {
                        assert(row@[i as int] == c);
                    },
                }
            }
            return Some(i);
        }
        i = i + 1;
    }
    proof {
        row@.index_of_first_ensures(c);
    }
    None
}

/// Replaces each character of `input` by its substitute in table `pick`.
pub fn encrypt_string_with(input: &str, pick: usize) -> (r: String)
    requires
        pick < 24,
    ensures
        r@ == encrypt_seq(input@, pick as int),
{
    let chars = chars_of(input);
    let mut result = String::new();
    let mut i: usize = 0;
    while i < chars.len()
        invariant
            pick < 24,
            i <= chars@.len(),
            chars@ == input@,
            result@ == encrypt_seq(input@.subrange(0, i as int), pick as int),
        decreases chars@.len() - i,
    {
        let c = chars[i];
        let e = match position_in(&PLAIN, c) {
            Some(k) => CORRESPONDENCE[pick][k],
            None => c,
        };
        push_char(&mut result, e);
        i = i + 1;
        proof {
            assert(encrypt_seq(input@.subrange(0, i as int), pick as int) =~= encrypt_seq(
                input@.subrange(0, i - 1),
                pick as int,
            ).push(e));
        }
    }
    proof {
        assert(input@.subrange(0, input@.len() as int) =~= input@);
    }
    result
}

/// Encrypts a string with a substitution table chosen at random: each
/// character found in `PLAIN` is replaced by the character at the same
/// position in the chosen row of `CORRESPONDENCE`; other characters stay.
pub fn encrypt_string(input: &str) -> (r: String)
    ensures
        exists|pick: int| 0 <= pick < 24 && r@ == encrypt_seq(input@, pick),
{
    let pick = random_below(24);
    encrypt_string_with(input, pick)
}

/// Decrypts a string with table `correspondence_index`: each character found
/// in that row is replaced by the character at the same position in
/// `PLAIN`; other characters stay.
pub fn decrypt_string(input: &str, correspondence_index: usize) -> (r: String)
    requires
        correspondence_index < 24,
    ensures
        r@ == decrypt_seq(input@, correspondence_index as int),
{
    let chars = chars_of(input);
    let r = decrypt_chars(&chars, correspondence_index);
    string_from_chars(r.as_slice())
}

fn decrypt_chars(chars: &Vec<char>, correspondence_index: usize) -> (r: Vec<char>)
    requires
        correspondence_index < 24,
    ensures
        r@ == decrypt_seq(chars@, correspondence_index as int),
{
    let mut result: Vec<char> = Vec::new();
    let mut i: usize = 0;
    while i < chars.len()
        invariant
            correspondence_index < 24,
            i <= chars@.len(),
            result@ == decrypt_seq(chars@.subrange(0, i as int), correspondence_index as int),
        decreases chars@.len() - i,
    {
        let c = chars[i];
        let d = match position_in(&CORRESPONDENCE[correspondence_index], c) {
            Some(k) => PLAIN[k],
            None => c,
        };
        result.push(d);
        i = i + 1;
        proof {
            assert(decrypt_seq(chars@.subrange(0, i as int), correspondence_index as int)
                =~= decrypt_seq(chars@.subrange(0, i - 1), correspondence_index as int).push(d));
        }
    }
    proof {
        assert(chars@.subrange(0, chars@.len() as int) =~= chars@);
    }
    result
}

/// The possible lengths of a path generated for `hostname`: each size of
/// `SIZES` plus the byte length of the hostname and one for the leading slash.
pub fn guess_path_sizes(hostname: &str) -> (r: Vec<i32>)
    requires
        hostname.len() + 324 <= i32::MAX,
    ensures
        r@.len() == 24,
        forall|i: int| 0 <= i < 24 ==> r@[i] as int == path_sizes(hostname.len() as int)[i],
{
    let hostname_len = hostname.len() as i32;
    let mut merged: Vec<i32> = Vec::new();
    let mut i: usize = 0;
    while i < 24
        invariant
            i <= 24,
            hostname_len == hostname.len(),
            hostname.len() + 324 <= i32::MAX,
            merged@.len() == i,
            forall|k: int| 0 <= k < i ==> merged@[k] as int == SIZES@[k] + hostname_len + 1,
        decreases 24 - i,
    {
        assert(SIZES@[i as int] <= 323) by {
            assert(SIZES@[i as int] == [23i32, 37, 52, 65, 72, 88, 92, 101, 134, 141, 144, 167,
                168, 181, 195, 204, 231, 235, 256, 283, 301, 303, 310, 322]@[i as int]);
        }
        merged.push(SIZES[i] + hostname_len + 1);
        i = i + 1;
    }
    merged
}

/// A random string of `len` characters drawn from `CHARSET`.
pub fn generate_random_string(len: usize) -> (r: String)
    ensures
        r@.len() == len,
        forall|i: int| 0 <= i < len ==> charset_char(#[trigger] r@[i]),
{
    let mut result = String::new();
    let mut i: usize = 0;
    while i < len
        invariant
            i <= len,
            result@.len() == i,
            forall|k: int| 0 <= k < i ==> charset_char(#[trigger] result@[k]),
        decreases len - i,
    {
        let b = choose_byte(&CHARSET);
        let c = b as char;
        proof {
            let j = choose|j: int| 0 <= j < CHARSET@.len() && CHARSET@[j] == b;
            assert(c == (CHARSET@[j] as char));
        }
        let ghost before = result@;
        push_char(&mut result, c);
        proof {
            assert forall|k: int| 0 <= k < i + 1 implies charset_char(#[trigger] result@[k]) by {
                if k < i {
                    assert(result@[k] == before[k]);
                }
            }
        }
        i = i + 1;
    }
    result
}

/// Merges a random prefix and an encrypted hostname into a path that starts
/// with a slash. When the prefix is at least as long as the encrypted hostname
/// (in bytes), each character of the prefix is followed by the next character
/// of the encrypted hostname; otherwise each character of the encrypted
/// hostname is preceded by the next character of the prefix.
pub fn merge_path(random_string: &str, encrypted_hostname: &str) -> (r: String)
    requires
        byte_len(random_string@) + byte_len(encrypted_hostname@) <= usize::MAX,
        2 * byte_len(encrypted_hostname@) <= usize::MAX,
    ensures
        r@ == generated_path(random_string@, encrypted_hostname@),
{
    proof {
        assert(random_string.len() == byte_len(random_string@));
        assert(encrypted_hostname.len() == byte_len(encrypted_hostname@));
    }
    let random_string_len = random_string.len();
    let encrypted_hostname_len = encrypted_hostname.len();
    let total_len = random_string_len + encrypted_hostname_len;
    let random = chars_of(random_string);
    let hidden = chars_of(encrypted_hostname);
    let mut result = String::new();
    push_char(&mut result, '/');
    proof {
        assert(random@.subrange(0, random@.len() as int) =~= random@);
        assert(hidden@.subrange(0, hidden@.len() as int) =~= hidden@);
    }
    if total_len >= encrypted_hostname_len * 2 {
        let mut i: usize = 0;
        let mut j: usize = 0;
        while i < random.len()
            invariant
                i <= random@.len(),
                j <= hidden@.len(),
                j == i || j == hidden@.len(),
                j < hidden@.len() ==> j == i,
                random@ == random_string@,
                hidden@ == encrypted_hostname@,
                seq!['/'] + weave_random_first(random@, hidden@) == result@
                    + weave_random_first(
                    random@.subrange(i as int, random@.len() as int),
                    hidden@.subrange(j as int, hidden@.len() as int),
                ),
            decreases random@.len() - i,
        {
            let ghost r_rest = random@.subrange(i as int, random@.len() as int);
            let ghost h_rest = hidden@.subrange(j as int, hidden@.len() as int);
            push_char(&mut result, random[i]);
            proof {
                assert(r_rest.drop_first() =~= random@.subrange(i + 1, random@.len() as int));
            }
            if j < hidden.len() {
                push_char(&mut result, hidden[j]);
                proof {
                    assert(h_rest.drop_first() =~= hidden@.subrange(j + 1, hidden@.len() as int));
                    assert(result@ + weave_random_first(r_rest.drop_first(), h_rest.drop_first())
                        =~= (result@.drop_last().drop_last()) + (seq![r_rest[0], h_rest[0]]
                        + weave_random_first(r_rest.drop_first(), h_rest.drop_first())));
                }
                j = j + 1;
            } else {
                proof {
                    assert(h_rest.len() == 0);
                    assert(result@ + weave_random_first(r_rest.drop_first(), h_rest) =~= (
                    result@.drop_last()) + (seq![r_rest[0]] + weave_random_first(
                        r_rest.drop_first(),
                        h_rest,
                    )));
                }
            }
            i = i + 1;
        }
        proof {
            assert(random@.subrange(i as int, random@.len() as int).len() == 0);
            assert(result@ + seq![] =~= result@);
        }
    } else {
        let mut i: usize = 0;
        let mut j: usize = 0;
        while j < hidden.len()
            invariant
                i <= random@.len(),
                j <= hidden@.len(),
                i == j || i == random@.len(),
                i < random@.len() ==> i == j,
                random@ == random_string@,
                hidden@ == encrypted_hostname@,
                seq!['/'] + weave_hidden_first(random@, hidden@) == result@
                    + weave_hidden_first(
                    random@.subrange(i as int, random@.len() as int),
                    hidden@.subrange(j as int, hidden@.len() as int),
                ),
            decreases hidden@.len() - j,
        {
            let ghost r_rest = random@.subrange(i as int, random@.len() as int);
            let ghost h_rest = hidden@.subrange(j as int, hidden@.len() as int);
            proof {
                assert(h_rest.drop_first() =~= hidden@.subrange(j + 1, hidden@.len() as int));
            }
            if i < random.len() {
                push_char(&mut result, random[i]);
                push_char(&mut result, hidden[j]);
                proof {
                    assert(r_rest.drop_first() =~= random@.subrange(i + 1, random@.len() as int));
                    assert(result@ + weave_hidden_first(r_rest.drop_first(), h_rest.drop_first())
                        =~= (result@.drop_last().drop_last()) + (seq![r_rest[0], h_rest[0]]
                        + weave_hidden_first(r_rest.drop_first(), h_rest.drop_first())));
                }
                i = i + 1;
            } else {
                push_char(&mut result, hidden[j]);
                proof {
                    assert(r_rest.len() == 0);
                    assert(result@ + weave_hidden_first(r_rest, h_rest.drop_first()) =~= (
                    result@.drop_last()) + (seq![h_rest[0]] + weave_hidden_first(
                        r_rest,
                        h_rest.drop_first(),
                    )));
                }
            }
            j = j + 1;
        }
        proof {
            assert(hidden@.subrange(j as int, hidden@.len() as int).len() == 0);
            assert(result@ + seq![] =~= result@);
        }
    }
    result
}

/// Generates a path for `hostname`: a random prefix of a size drawn from
/// `SIZES`, merged with the hostname encrypted by a table drawn at random.
pub fn generate(hostname: &str) -> (r: String)
    requires
        byte_len(hostname@) + 400 <= usize::MAX / 2,
    ensures
        exists|random: Seq<char>, pick: int|
            {
                &&& 0 <= pick < 24
                &&& is_prefix_size(random.len() as int)
                &&& forall|i: int| 0 <= i < random.len() ==> charset_char(#[trigger] random[i])
                &&& r@ == generated_path(random, encrypt_seq(hostname@, pick))
            },
{
    let k = random_below(24);
    let size = SIZES[k];
    assert(23 <= size <= 322) by {
        assert(SIZES@[k as int] == [23i32, 37, 52, 65, 72, 88, 92, 101, 134, 141, 144, 167, 168,
            181, 195, 204, 231, 235, 256, 283, 301, 303, 310, 322]@[k as int]);
    }
    let random_string = generate_random_string(size as usize);
    let pick = random_below(24);
    let encrypted_hostname = encrypt_string_with(hostname, pick);
    proof {
        lemma_random_string_bytes(random_string@);
        lemma_encrypt_byte_len(hostname@, pick as int);
    }
    let r = merge_path(random_string.as_str(), encrypted_hostname.as_str());
    proof {
        assert(is_prefix_size(random_string@.len() as int));
    }
    r
}

proof fn lemma_random_string_bytes(s: Seq<char>)
    requires
        forall|i: int| 0 <= i < s.len() ==> charset_char(#[trigger] s[i]),
    ensures
        is_ascii_chars(s),
        byte_len(s) == s.len(),
{
    assert forall|i: int| 0 <= i < s.len() implies (s[i] as u32) < 0x80 by {
        assert(charset_char(s[i]));
        let j = choose|j: int| 0 <= j < CHARSET@.len() && s[i] == (CHARSET@[j] as char);
        assert(CHARSET@[j] < 0x80) by {
            assert(CHARSET@[j] == [97u8, 98, 99, 102, 104, 105, 106, 107, 108, 109, 110, 111, 112,
                113, 114, 115, 116, 117, 118, 119, 120, 121, 122, 65, 66, 67, 68, 70, 71, 72, 73, 74,
                75, 76, 77, 78, 79, 80, 81, 82, 83, 84, 85, 86, 87, 88, 89, 90, 48, 49, 50, 51, 52,
                53, 54, 55, 56, 57, 45, 95, 46]@[j]);
        }
    }
    is_ascii_chars_encode_utf8(s);
}

/// Encryption keeps the byte length of a string.
proof fn lemma_encrypt_byte_len(s: Seq<char>, pick: int)
    requires
        0 <= pick < 24,
    ensures
        byte_len(encrypt_seq(s, pick)) == byte_len(s),
    decreases s.len(),
{
    let e = encrypt_seq(s, pick);
    if s.len() > 0 {
        lemma_encrypt_byte_len(s.drop_first(), pick);
        assert(e.drop_first() =~= encrypt_seq(s.drop_first(), pick));
        lemma_decrypt_encrypt_char(s[0], pick);
        lemma_plain();
        lemma_rows(pick);
        lemma_index_of_first_plain(s[0]);
        if plain_pos(s[0]) >= 0 {
            let i = plain_pos(s[0]);
            assert(e[0] == row_char_at(pick, i));
            assert(plain_char_at(plain_pos(e[0])) == e[0]);
            assert(plain_char_at(i) == s[0]);
            assert((e[0] as u32) < 0x80 && (s[0] as u32) < 0x80);
            assert(encode_scalar(e[0] as u32).len() == 1);
            assert(encode_scalar(s[0] as u32).len() == 1);
        }
    }
}

/// Whether `path` is a path generated for `hostname`: its length is one of the
/// expected ones, and the characters at the places where generation puts the
/// encrypted hostname decrypt to the hostname with one of the tables.
pub fn validate(hostname: &str, path: &str) -> (r: bool)
    requires
        validate_requires(hostname@, path@),
    ensures
        r == validates(hostname@, path@),
        r ==> path_sizes(byte_len(hostname@)).contains(byte_len(path@)),
{
    proof {
        assert(hostname.len() == byte_len(hostname@));
        assert(path.len() == byte_len(path@));
    }
    let sizes = guess_path_sizes(hostname);
    let path_len = path.len() as i32;
    let mut found = false;
    let mut s: usize = 0;
    while s < sizes.len()
        invariant
            s <= sizes@.len(),
            sizes@.len() == 24,
            path_len == path.len(),
            forall|i: int| 0 <= i < 24 ==> sizes@[i] as int == path_sizes(hostname.len() as int)[i],
            found == exists|i: int| 0 <= i < s && path_sizes(hostname.len() as int)[i] == path_len,
        decreases sizes@.len() - s,
    {
        if sizes[s] == path_len {
            found = true;
        }
        s = s + 1;
    }
    proof {
        let ps = path_sizes(hostname.len() as int);
        if found {
            let i = choose|i: int| 0 <= i < 24 && ps[i] == path_len;
            assert(ps.contains(path.len() as int));
        } else {
            if ps.contains(path.len() as int) {
                let i = choose|i: int| 0 <= i < ps.len() && ps[i] == path.len();
                assert(ps[i] == path_len);
            }
        }
    }
    if !found {
        return false;
    }
    let chars = chars_of(path);
    let new_path = crate::text::slice_chars(chars.as_slice(), 1, chars.len());
    let hostname_len = hostname.len();
    let new_path_len = path.len() - 1;
    proof {
        let i = choose|i: int| 0 <= i < 24 && path_sizes(hostname.len() as int)[i] == path_len;
        assert(SIZES@[i] >= 23) by {
            assert(SIZES@[i] == [23i32, 37, 52, 65, 72, 88, 92, 101, 134, 141, 144, 167, 168, 181,
                195, 204, 231, 235, 256, 283, 301, 303, 310, 322]@[i]);
        }
        assert(new_path@ =~= path@.drop_first());
    }
    let mut encrypted: Vec<char> = Vec::new();
    let mut pos: usize = 0;
    proof {
        assert(new_path@.subrange(0, new_path@.len() as int) =~= new_path@);
        assert(encrypted@ + take_pairs(new_path@, hostname_len as nat).0 =~= take_pairs(
            new_path@,
            hostname_len as nat,
        ).0);
        assert(encrypted@ + take_pairs(new_path@, (new_path_len - hostname_len) as nat).0
            =~= take_pairs(new_path@, (new_path_len - hostname_len) as nat).0);
    }
    let ghost total: int = extracted(new_path@, new_path_len as int, hostname_len as int).len() as int;
    if new_path_len < hostname_len * 2 {
        let pairs = new_path_len - hostname_len;
        let mut n: usize = 0;
        while n < pairs
            invariant
                n <= pairs,
                pos <= new_path@.len(),
                take_pairs(new_path@, pairs as nat) == (encrypted@ + take_pairs(
                    new_path@.subrange(pos as int, new_path@.len() as int),
                    (pairs - n) as nat,
                ).0, take_pairs(
                    new_path@.subrange(pos as int, new_path@.len() as int),
                    (pairs - n) as nat,
                ).1),
            decreases pairs - n,
        {
            let ghost rest = new_path@.subrange(pos as int, new_path@.len() as int);
            if pos < new_path.len() {
                pos = pos + 1;
                if pos < new_path.len() {
                    encrypted.push(new_path[pos]);
                    pos = pos + 1;
                    proof {
                        assert(rest.subrange(2, rest.len() as int) =~= new_path@.subrange(
                            pos as int,
                            new_path@.len() as int,
                        ));
                        assert(rest[1] == new_path@[pos - 1]);
                    }
                } else {
                    proof {
                        assert(new_path@.subrange(pos as int, new_path@.len() as int)
                            =~= Seq::<char>::empty());
                        lemma_take_pairs_empty((pairs - n - 1) as nat);
                    }
                }
            } else {
                proof {
                    lemma_take_pairs_empty((pairs - n - 1) as nat);
                }
            }
            n = n + 1;
        }
        proof {
            assert(take_pairs(new_path@.subrange(pos as int, new_path@.len() as int), 0).0
                =~= Seq::<char>::empty());
            assert(encrypted@ + Seq::<char>::empty() =~= encrypted@);
        }
        let tail = hostname_len - pairs;
        let ghost rest = new_path@.subrange(pos as int, new_path@.len() as int);
        let ghost base = encrypted@;
        let mut m: usize = 0;
        while m < tail
            invariant
                m <= tail,
                pos <= new_path@.len(),
                rest == new_path@.subrange(pos - (encrypted@.len() - base.len()), new_path@.len() as int),
                encrypted@.len() >= base.len(),
                encrypted@ == base + rest.subrange(0, encrypted@.len() - base.len()),
                encrypted@.len() - base.len() == (if m < rest.len() { m as int } else { rest.len() as int }),
                pos - (encrypted@.len() - base.len()) >= 0,
            decreases tail - m,
        {
            if pos < new_path.len() {
                encrypted.push(new_path[pos]);
                pos = pos + 1;
                proof {
                    assert(encrypted@ =~= base + rest.subrange(0, encrypted@.len() - base.len()));
                }
            }
            m = m + 1;
        }
    } else {
        let mut n: usize = 0;
        while n < hostname_len
            invariant
                n <= hostname_len,
                pos <= new_path@.len(),
                take_pairs(new_path@, hostname_len as nat).0 == encrypted@ + take_pairs(
                    new_path@.subrange(pos as int, new_path@.len() as int),
                    (hostname_len - n) as nat,
                ).0,
            decreases hostname_len - n,
        {
            let ghost rest = new_path@.subrange(pos as int, new_path@.len() as int);
            if pos < new_path.len() {
                pos = pos + 1;
                if pos < new_path.len() {
                    encrypted.push(new_path[pos]);
                    pos = pos + 1;
                    proof {
                        assert(rest.subrange(2, rest.len() as int) =~= new_path@.subrange(
                            pos as int,
                            new_path@.len() as int,
                        ));
                        assert(rest[1] == new_path@[pos - 1]);
                    }
                } else {
                    proof {
                        assert(new_path@.subrange(pos as int, new_path@.len() as int)
                            =~= Seq::<char>::empty());
                        lemma_take_pairs_empty((hostname_len - n - 1) as nat);
                    }
                }
            } else {
                proof {
                    lemma_take_pairs_empty((hostname_len - n - 1) as nat);
                }
            }
            n = n + 1;
        }
        proof {
            assert(encrypted@ + Seq::<char>::empty() =~= encrypted@);
        }
    }
    proof {
        assert(encrypted@ =~= extracted(new_path@, new_path_len as int, hostname_len as int));
    }
    let host_chars = chars_of(hostname);
    let mut index: usize = 0;
    while index < 24
        invariant
            index <= 24,
            host_chars@ == hostname@,
            encrypted@ == extracted(path@.drop_first(), byte_len(path@) - 1, byte_len(hostname@)),
            path_sizes(byte_len(hostname@)).contains(byte_len(path@)),
            forall|k: int| 0 <= k < index ==> decrypt_seq(encrypted@, k) != hostname@,
        decreases 24 - index,
    {
        let decrypted = decrypt_chars(&encrypted, index);
        if same_chars(&decrypted, &host_chars) {
            proof {
                assert(decrypt_seq(encrypted@, index as int) == hostname@);
            }
            return true;
        }
        index = index + 1;
    }
    false
}

proof fn lemma_take_pairs_empty(k: nat)
    ensures
        take_pairs(Seq::<char>::empty(), k) == (Seq::<char>::empty(), Seq::<char>::empty()),
{
}

} // verus!
