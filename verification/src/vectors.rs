//! Routines on vectors: reversing and sorting numbers, a fixed round trip, a
//! 9 by 9 table of bytes, a table of 32 scrambled words, and a walk that
//! swaps bytes.

use crate::bits::{rotate_left, rotate_right, rotated_left, rotated_right};
use vstd::prelude::*;

verus! {

/// No element is larger than a later one.
pub open spec fn ascending(s: Seq<i32>) -> bool {
    forall|i: int, j: int| 0 <= i < j < s.len() ==> s[i] <= s[j]
}

/// Reverses the order of the elements in place.
pub fn reverse(v: &mut Vec<i32>)
    ensures
        final(v)@ == old(v)@.reverse(),
{
    let n = v.len();
    let mut i: usize = 0;
    while i < n / 2
        invariant
            n == v.len(),
            n == old(v).len(),
            i <= n / 2,
            forall|k: int| 0 <= k < i ==> v[k] == old(v)[n - 1 - k],
            forall|k: int| n - i <= k < n ==> v[k] == old(v)[n - 1 - k],
            forall|k: int| i <= k < n - i ==> v[k] == old(v)[k],
        decreases n / 2 - i,
    {
        let front = v[i];
        let back = v[n - 1 - i];
        v.set(i, back);
        v.set(n - 1 - i, front);
        i = i + 1;
    }
    assert(v@ =~= old(v)@.reverse());
}

/// Sorts the elements in place into ascending order. What comes out holds
/// exactly the elements that went in, each as often as before.
pub fn sort(v: &mut Vec<i32>)
    ensures
        ascending(final(v)@),
        final(v)@.to_multiset() == old(v)@.to_multiset(),
{
    let mut out: Vec<i32> = Vec::new();
    assert(v@.take(0) =~= out@);
    for i in 0..v.len()
        invariant
            v@ == old(v)@,
            out.len() == i,
            ascending(out@),
            out@.to_multiset() == v@.take(i as int).to_multiset(),
    {
        let item = v[i];
        let mut at: usize = 0;
        while at < out.len() && out[at] <= item
            invariant
                at <= out.len(),
                forall|k: int| 0 <= k < at ==> out[k] <= item,
            decreases out.len() - at,
        {
            at = at + 1;
        }
        proof {
            vstd::seq_lib::to_multiset_insert(out@, at as int, item);
            vstd::seq_lib::to_multiset_build(v@.take(i as int), item);
            assert(v@.take(i + 1) =~= v@.take(i as int).push(item));
        }
        out.insert(at, item);
    }
    assert(v@.take(v.len() as int) =~= v@);
    *v = out;
}

/// Ascending order, as a relation between two numbers.
pub open spec fn at_most() -> spec_fn(i32, i32) -> bool {
    |a: i32, b: i32| a <= b
}

/// Makes the list 1, 2, 3, 4, appends 5 and takes it off again, appends 6,
/// reverses the list and sorts it.
pub fn useless_vector_op() -> (v: Vec<i32>)
    ensures
        v@ == seq![1i32, 2, 3, 4, 6],
{
    let mut v: Vec<i32> = vec![1, 2, 3, 4];
    v.push(5);
    v.pop();
    v.push(6);
    let ghost built = v@;
    reverse(&mut v);
    sort(&mut v);
    proof {
        assert(built =~= seq![1i32, 2, 3, 4, 6]);
        built.lemma_reverse_to_multiset();
        assert(vstd::relations::sorted_by(built, at_most()));
        assert(vstd::relations::sorted_by(v@, at_most()));
        assert(vstd::relations::total_ordering(at_most()));
        vstd::seq_lib::lemma_sorted_unique(v@, built, at_most());
    }
    v
}

/// What the position (`row`, `column`) stirs into the running value of the
/// table.
pub open spec fn stir(row: usize, column: usize) -> i32 {
    (((row * column + 1) as i32) << (column % 3)) | ((row << 2) as i32)
}

/// The running value of the table after `steps` positions, counted row by
/// row, have been stirred into the start value `x`.
pub open spec fn stirred(x: i32, steps: nat) -> i32
    decreases steps,
{
    if steps == 0 {
        x
    } else {
        let before = (steps - 1) as nat;
        stirred(x, before) ^ stir((before / 9) as usize, (before % 9) as usize)
    }
}

/// The byte that a running value leaves in the table: the value multiplied
/// by 31337 (wrapping) and combined with a constant, taken modulo 256.
pub open spec fn table_byte(value: i32) -> u8 {
    ((value.wrapping_mul(31337) ^ 0x6C_6F6C) % 256) as u8
}

/// The byte at (`row`, `column`) of the table grown from `x`.
pub open spec fn table_entry(x: i32, row: int, column: int) -> u8 {
    table_byte(stirred(x, (9 * row + column + 1) as nat))
}

/// Fills a table of 9 rows and 9 columns, row by row: each position stirs
/// itself into the running value that started as `x`, and the byte of the
/// running value is written there.
pub fn malbolge_matrix(x: i32) -> (matrix: Vec<Vec<u8>>)
    ensures
        matrix.len() == 9,
        forall|row: int| 0 <= row < 9 ==> (#[trigger] matrix[row]).len() == 9,
        forall|row: int, column: int|
            0 <= row < 9 && 0 <= column < 9 ==> #[trigger] matrix[row][column] == table_entry(
                x,
                row,
                column,
            ),
{
    let mut running: i32 = x;
    let mut matrix: Vec<Vec<u8>> = Vec::new();
    for i in 0..9usize
        invariant
            matrix.len() == i,
            running == stirred(x, (9 * i) as nat),
            forall|row: int| 0 <= row < i ==> (#[trigger] matrix[row]).len() == 9,
            forall|row: int, column: int|
                0 <= row < i && 0 <= column < 9 ==> #[trigger] matrix[row][column] == table_entry(
                    x,
                    row,
                    column,
                ),
    {
        let mut line: Vec<u8> = Vec::new();
        for j in 0..9usize
            invariant
                i < 9,
                line.len() == j,
                running == stirred(x, (9 * i + j) as nat),
                forall|column: int|
                    0 <= column < j ==> #[trigger] line[column] == table_entry(x, i as int, column),
        {
            let ghost before: nat = (9 * i + j) as nat;
            assert(before / 9 == i && before % 9 == j);
            assert(i * j <= 64) by (nonlinear_arith)
                requires
                    i < 9,
                    j < 9,
            ;
            running = running ^ ((((i * j + 1) as i32) << (j % 3)) | ((i << 2) as i32));
            assert(running == stirred(x, before + 1));
            let rest: i32 = (running.wrapping_mul(31337) ^ 0x6C_6F6C) % 256;
            assert((rest as u8) == (if rest < 0 { rest + 256 } else { rest as int })) by (bit_vector)
                requires
                    -256 < rest < 256,
            ;
            line.push(#[verifier::truncate] (rest as u8));
        }
        matrix.push(line);
    }
    matrix
}

/// The word at position `i` of the table scrambled from `seed`.
pub open spec fn scrambled(seed: u64, i: int) -> u64 {
    let start = seed ^ rotated_left(i as u64, i as u32);
    rotated_right(start.wrapping_mul(0x1337_5EED), ((i * 7) % 64) as u32) ^ 0xCAFE_BABE
}

/// Makes 32 words out of `seed`: word `i` starts as the seed combined with
/// `i` rotated left by `i`, and is then multiplied (wrapping), rotated right
/// by `7 * i` modulo 64, and combined with a constant.
pub fn chaotic_permute(seed: u64) -> (v: Vec<u64>)
    ensures
        v.len() == 32,
        forall|i: int| 0 <= i < 32 ==> #[trigger] v[i] == scrambled(seed, i),
{
    let mut v: Vec<u64> = Vec::new();
    for i in 0..32u32
        invariant
            v.len() == i,
            forall|k: int| 0 <= k < i ==> #[trigger] v[k] == seed ^ rotated_left(k as u64, k as u32),
    {
        v.push(seed ^ rotate_left(i as u64, i));
    }
    for i in 0..32usize
        invariant
            v.len() == 32,
            forall|k: int| 0 <= k < i ==> #[trigger] v[k] == scrambled(seed, k),
            forall|k: int| i <= k < 32 ==> #[trigger] v[k] == seed ^ rotated_left(k as u64, k as u32),
    {
        let word = rotate_right(v[i].wrapping_mul(0x1337_5EED), (i * 7 % 64) as u32) ^ 0xCAFE_BABE;
        v.set(i, word);
    }
    v
}

/// The buffer with the bytes at `i` and `j` exchanged.
pub open spec fn swapped(s: Seq<u8>, i: int, j: int) -> Seq<u8> {
    s.update(i, s[j]).update(j, s[i])
}

/// Where a round that stands at `i` goes on: three places further, wrapping
/// round the end of the buffer, and from there, if the byte it finds is even,
/// to seven times that place plus thirteen, wrapping round again.
pub open spec fn next_place(s: Seq<u8>, i: int) -> int {
    let hop = (i + 3) % (s.len() as int);
    if s[hop] & 1 == 0 {
        (hop * 7 + 13) % (s.len() as int)
    } else {
        hop
    }
}

/// The buffer after the round that stands at `i`: the byte there has changed
/// places with the byte at the place that its own value and `i` select.
pub open spec fn after_round(s: Seq<u8>, i: int) -> Seq<u8> {
    swapped(s, i, (s[i] + i * 31) % (s.len() as int))
}

/// Exchanging two bytes keeps the bytes: the buffer holds the same values as
/// before, each as often as before.
pub proof fn lemma_swapped_keeps_the_bytes(s: Seq<u8>, i: int, j: int)
    requires
        0 <= i < s.len(),
        0 <= j < s.len(),
    ensures
        swapped(s, i, j).len() == s.len(),
        swapped(s, i, j).to_multiset() == s.to_multiset(),
{
    let half = s.update(i, s[j]);
    vstd::seq_lib::to_multiset_update(s, i, s[j]);
    vstd::seq_lib::to_multiset_update(half, j, s[i]);
    vstd::seq_lib::to_multiset_contains(s, s[i]);
    vstd::seq_lib::to_multiset_contains(s, s[j]);
    assert(s.contains(s[i]));
    assert(s.contains(s[j]));
    assert(swapped(s, i, j).to_multiset() =~= s.to_multiset());
}

/// One round of the walk at place `i`: exchanges two bytes and says where
/// the walk goes on. The buffer keeps its bytes, and the place to go on at
/// lies inside the buffer again, whatever the buffer holds.
pub fn shuffle_round(data: &mut Vec<u8>, i: usize) -> (next: usize)
    requires
        i < old(data).len(),
        old(data).len() <= usize::MAX / 32,
    ensures
        final(data)@ == after_round(old(data)@, i as int),
        final(data)@.to_multiset() == old(data)@.to_multiset(),
        next == next_place(final(data)@, i as int),
        next < final(data).len(),
{
    let n = data.len();
    let j = (data[i] as usize + i * 31) % n;
    proof {
        lemma_swapped_keeps_the_bytes(data@, i as int, j as int);
    }
    let here = data[i];
    let there = data[j];
    data.set(i, there);
    data.set(j, here);
    let hop = (i + 3) % n;
    if data[hop] & 1 == 0 {
        (hop * 7 + 13) % n
    } else {
        hop
    }
}

/// Walks over the buffer, one [`shuffle_round`] after the other, until the
/// walk leaves the buffer. Since no round ever leaves a buffer that holds
/// anything, only the empty buffer is accepted; it comes back as it is.
pub fn entropic_shuffle(data: Vec<u8>) -> (shuffled: Vec<u8>)
    requires
        data@.len() == 0,
    ensures
        shuffled@ == data@,
{
    let mut data = data;
    let mut i: usize = 0;
    while i < data.len()
        invariant
            data@.len() == 0,
        decreases data.len() - i,
    {
        i = shuffle_round(&mut data, i);
    }
    data
}

} // verus!
