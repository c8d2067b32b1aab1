//! Cover perceptual-hash comparison: the Hamming distance between two
//! 64-bit hash patterns.
use vstd::prelude::*;

verus! {

/// Number of one bits.
pub open spec fn popcount(x: u64) -> nat
    decreases x,
{
    if x == 0 {
        0
    } else {
        (x % 2) as nat + popcount(x / 2)
    }
}

proof fn lemma_popcount_bound(x: u64, n: nat)
    requires
        x < pow2(n),
    ensures
        popcount(x) <= n,
    decreases n,
{
    if x != 0 {
        assert(n > 0);
        assert(x / 2 < pow2((n - 1) as nat)) by {
            assert(pow2(n) == 2 * pow2((n - 1) as nat));
        }
        lemma_popcount_bound(x / 2, (n - 1) as nat);
    }
}

pub open spec fn pow2(n: nat) -> nat
    decreases n,
{
    if n == 0 {
        1
    } else {
        2 * pow2((n - 1) as nat)
    }
}

/// Bits in which two hashes differ.
pub open spec fn hamming(a: i64, b: i64) -> nat {
    popcount((a ^ b) as u64)
}

/// Hamming distance between two 64-bit hash patterns, `0..=64`.
pub fn hamming_distance(a: i64, b: i64) -> (r: u32)
    ensures
        r == hamming(a, b),
        r <= 64,
{
    let x0: u64 = (a ^ b) as u64;
    let mut x: u64 = x0;
    let mut c: u32 = 0;
    proof {
        reveal_with_fuel(pow2, 65);
        assert(pow2(64) == 0x1_0000_0000_0000_0000);
        lemma_popcount_bound(x0, 64);
    }
    while x != 0
        invariant
            c + popcount(x) == popcount(x0),
            popcount(x0) <= 64,
        decreases x,
    {
        c = c + (x % 2) as u32;
        x = x / 2;
    }
    c
}

proof fn lemma_popcount_zero(x: u64)
    ensures
        (popcount(x) == 0) == (x == 0),
    decreases x,
{
    if x != 0 {
        lemma_popcount_zero(x / 2);
    }
}

proof fn lemma_xor_halves(x: u64, y: u64)
    by (bit_vector)
    ensures
        (x ^ y) % 2 == (if x % 2 == y % 2 { 0u64 } else { 1u64 }),
        (x ^ y) / 2 == (x / 2) ^ (y / 2),
{
}

proof fn lemma_popcount_xor(x: u64, y: u64)
    ensures
        popcount(x ^ y) <= popcount(x) + popcount(y),
    decreases x + y,
{
    if x == 0 {
        assert(x ^ y == y) by (bit_vector)
            requires
                x == 0,
        ;
    } else if y == 0 {
        assert(x ^ y == x) by (bit_vector)
            requires
                y == 0,
        ;
    } else {
        lemma_xor_halves(x, y);
        lemma_popcount_xor(x / 2, y / 2);
    }
}

proof fn lemma_xor_chain(a: i64, b: i64, c: i64)
    by (bit_vector)
    ensures
        (a ^ c) as u64 == ((a ^ b) as u64) ^ ((b ^ c) as u64),
        ((a ^ b) as u64 == 0) == (a == b),
{
}

/// Hamming distance is a metric on hash patterns: zero exactly between
/// equal hashes, symmetric, and within the sum of the distances through
/// any third hash.
pub proof fn lemma_hamming_metric(a: i64, b: i64, c: i64)
    ensures
        hamming(a, a) == 0,
        (hamming(a, b) == 0) == (a == b),
        hamming(a, b) == hamming(b, a),
        hamming(a, c) <= hamming(a, b) + hamming(b, c),
{
    assert(a ^ a == 0i64) by (bit_vector);
    assert(a ^ b == b ^ a) by (bit_vector);
    lemma_xor_chain(a, b, c);
    lemma_popcount_zero((a ^ b) as u64);
    lemma_popcount_xor((a ^ b) as u64, (b ^ c) as u64);
}

// ───────── average and difference hashes ─────────

/// Side of the average-hash grid, and height of the difference-hash grid.
pub const HASH_SIDE: u32 = 8;

/// Width of the difference-hash grid: one more column than bits per row.
pub const DHASH_WIDTH: u32 = 9;

/// Bit `j` (0 the lowest) of a 64-bit hash pattern.
pub open spec fn hash_bit(h: i64, j: int) -> bool {
    ((h as u64) >> (j as u64)) & 1u64 == 1u64
}

/// Sum of a run of grayscale samples.
pub open spec fn luma_sum(px: Seq<u8>) -> nat
    decreases px.len(),
{
    if px.len() == 0 {
        0
    } else {
        luma_sum(px.drop_last()) + px.last() as nat
    }
}

/// Mean brightness of a grid, rounded down.
pub open spec fn luma_mean(px: Seq<u8>) -> int {
    luma_sum(px) as int / px.len() as int
}

/// `h` is the average hash of the 8×8 grid `px`: bit `j` is set exactly when
/// sample `j` (row by row) is brighter than the grid's mean.
pub open spec fn is_ahash_of(px: Seq<u8>, h: i64) -> bool {
    forall|j: int| 0 <= j < 64 ==> #[trigger] hash_bit(h, j) == (px[j] > luma_mean(px))
}

/// Sample index of the left pixel compared for bit `j` of a difference
/// hash over a 9-wide grid.
pub open spec fn dhash_left(j: int) -> int {
    (j / 8) * 9 + j % 8
}

/// `h` is the difference hash of the 9×8 grid `px`: bit `j` is set exactly
/// when, in row `j / 8`, pixel `j % 8` is darker than its right neighbour.
pub open spec fn is_dhash_of(px: Seq<u8>, h: i64) -> bool {
    forall|j: int| 0 <= j < 64 ==> #[trigger] hash_bit(h, j) == (px[dhash_left(j)] < px[dhash_left(j) + 1])
}

proof fn lemma_set_bit(b: u64, i: u64, j: u64)
    by (bit_vector)
    requires
        i < 64,
        j < 64,
    ensures
        ((b | (1u64 << i)) >> j) & 1u64 == (if i == j { 1u64 } else { (b >> j) & 1u64 }),
{
}

proof fn lemma_zero_bits(j: u64)
    by (bit_vector)
    requires
        j < 64,
    ensures
        (0u64 >> j) & 1u64 == 0u64,
{
}

proof fn lemma_reinterpret(b: u64)
    by (bit_vector)
    ensures
        (b as i64) as u64 == b,
{
}

/// Bit `j` of an unsigned pattern, as 0 or 1.
spec fn bit_at(b: u64, j: int) -> u64 {
    (b >> (j as u64)) & 1u64
}

/// A 64-bit pattern from 64 decisions: bit `j` set exactly when `set[j]`.
fn pack_bits(set: &Vec<bool>) -> (r: i64)
    requires
        set@.len() == 64,
    ensures
        forall|j: int| 0 <= j < 64 ==> #[trigger] hash_bit(r, j) == set@[j],
{
    let mut bits: u64 = 0;
    let mut i: usize = 0;
    assert forall|j: int| 0 <= j < 64 implies #[trigger] bit_at(bits, j) == 0u64 by {
        lemma_zero_bits(j as u64);
    }
    while i < 64
        invariant
            set@.len() == 64,
            i <= 64,
            forall|j: int| 0 <= j < i ==> ((#[trigger] bit_at(bits, j) == 1u64) == set@[j]),
            forall|j: int| i <= j < 64 ==> #[trigger] bit_at(bits, j) == 0u64,
        decreases 64 - i,
    {
        let ghost before = bits;
        if set[i] {
            bits = bits | (1u64 << (i as u64));
        }
        assert forall|j: int| 0 <= j < 64 implies #[trigger] bit_at(bits, j) == (if j == i {
            if set@[i as int] { 1u64 } else { 0u64 }
        } else {
            bit_at(before, j)
        }) by {
            if set@[i as int] {
                lemma_set_bit(before, i as u64, j as u64);
            }
        }
        i = i + 1;
    }
    proof {
        lemma_reinterpret(bits);
        assert forall|j: int| 0 <= j < 64 implies #[trigger] hash_bit(bits as i64, j) == set@[j] by {
            assert(bit_at(bits, j) == 1u64 <==> set@[j]);
        }
    }
    bits as i64
}

proof fn lemma_luma_sum_bound(px: Seq<u8>)
    ensures
        luma_sum(px) <= 255 * px.len(),
    decreases px.len(),
{
    if px.len() > 0 {
        lemma_luma_sum_bound(px.drop_last());
    }
}

/// The average hash of an 8×8 grayscale grid, samples row by row.
pub fn ahash_bits(px: &Vec<u8>) -> (r: i64)
    requires
        px@.len() == 64,
    ensures
        is_ahash_of(px@, r),
{
    let mut sum: u32 = 0;
    let mut i: usize = 0;
    while i < px.len()
        invariant
            px@.len() == 64,
            i <= 64,
            sum == luma_sum(px@.take(i as int)),
            sum <= 255 * i,
        decreases 64 - i,
    {
        assert(px@.take(i + 1).drop_last() =~= px@.take(i as int));
        sum = sum + px[i] as u32;
        i = i + 1;
    }
    assert(px@.take(64) =~= px@);
    let mean: u32 = sum / 64;
    let mut set: Vec<bool> = Vec::new();
    let mut k: usize = 0;
    while k < 64
        invariant
            px@.len() == 64,
            k <= 64,
            mean == luma_mean(px@),
            set@.len() == k,
            forall|j: int| 0 <= j < k ==> set@[j] == (px@[j] > luma_mean(px@)),
        decreases 64 - k,
    {
        set.push(px[k] as u32 > mean);
        k = k + 1;
    }
    pack_bits(&set)
}

/// The difference hash of a 9×8 grayscale grid, samples row by row.
pub fn dhash_bits(px: &Vec<u8>) -> (r: i64)
    requires
        px@.len() == 72,
    ensures
        is_dhash_of(px@, r),
{
    let mut set: Vec<bool> = Vec::new();
    let mut k: usize = 0;
    while k < 64
        invariant
            px@.len() == 72,
            k <= 64,
            set@.len() == k,
            forall|j: int| 0 <= j < k ==> set@[j] == (px@[dhash_left(j)] < px@[dhash_left(j) + 1]),
        decreases 64 - k,
    {
        let y: usize = k / 8;
        let x: usize = k % 8;
        assert(y * 9 + x + 1 < 72) by (nonlinear_arith)
            requires
                y < 8,
                x < 8,
        ;
        let left = px[y * 9 + x];
        let right = px[y * 9 + x + 1];
        set.push(left < right);
        k = k + 1;
    }
    pack_bits(&set)
}

/// The grayscale grid of an encoded image: decoded, resized to
/// `width`×`height` with the triangle filter, one byte per pixel row by
/// row; `None` where the bytes do not decode.
pub uninterp spec fn decoded_luma(bytes: Seq<u8>, width: u32, height: u32) -> Option<Seq<u8>>;

/// Calls `image::load_from_memory`, then `DynamicImage::resize_exact` with
/// `FilterType::Triangle` and `to_luma8`. Claimed: the result is
/// `decoded_luma` of the arguments, `None` exactly when decoding fails, and
/// a grid holds `width * height` bytes (the resized image has exactly those
/// dimensions and one channel). What the grid holds is not stated.
#[verifier::external_body]
fn luma_grid(bytes: &[u8], width: u32, height: u32) -> (r: Option<Vec<u8>>)
    requires
        0 < width,
        0 < height,
    ensures
        match r {
            Some(v) => decoded_luma(bytes@, width, height) == Some(v@) && v@.len() == width * height,
            None => decoded_luma(bytes@, width, height) is None,
        },
{
    match image::load_from_memory(bytes) {
        Ok(img) => Some(
            img.resize_exact(width, height, image::imageops::FilterType::Triangle).to_luma8().into_raw(),
        ),
        Err(_) => None,
    }
}

/// The 64-bit average hash of an encoded image: `None` where it does not
/// decode, else the average hash of its 8×8 grayscale grid.
pub fn ahash(bytes: &[u8]) -> (r: Option<i64>)
    ensures
        r.is_some() == decoded_luma(bytes@, 8, 8).is_some(),
        r matches Some(h) ==> is_ahash_of(decoded_luma(bytes@, 8, 8).unwrap(), h),
{
    match luma_grid(bytes, HASH_SIDE, HASH_SIDE) {
        Some(px) => Some(ahash_bits(&px)),
        None => None,
    }
}

/// The 64-bit difference hash of an encoded image: `None` where it does not
/// decode, else the difference hash of its 9×8 grayscale grid.
pub fn dhash(bytes: &[u8]) -> (r: Option<i64>)
    ensures
        r.is_some() == decoded_luma(bytes@, 9, 8).is_some(),
        r matches Some(h) ==> is_dhash_of(decoded_luma(bytes@, 9, 8).unwrap(), h),
{
    match luma_grid(bytes, DHASH_WIDTH, HASH_SIDE) {
        Some(px) => Some(dhash_bits(&px)),
        None => None,
    }
}

proof fn lemma_flat_sum(px: Seq<u8>, v: u8)
    requires
        forall|i: int| 0 <= i < px.len() ==> px[i] == v,
    ensures
        luma_sum(px) == px.len() * (v as nat),
    decreases px.len(),
{
    if px.len() > 0 {
        lemma_flat_sum(px.drop_last(), v);
        assert(px.last() == v);
        assert(px.len() * (v as nat) == (px.len() - 1) * (v as nat) + v as nat) by (nonlinear_arith);
    }
}

/// A flat image hashes to no set bit: in a grid whose samples are all the
/// same no sample is brighter than the mean, and no pixel is darker than
/// its right neighbour.
pub proof fn lemma_flat_grid_hashes_empty(px: Seq<u8>, h: i64, v: u8)
    requires
        px.len() >= 64,
        forall|i: int| 0 <= i < px.len() ==> px[i] == v,
    ensures
        is_ahash_of(px, h) ==> forall|j: int| 0 <= j < 64 ==> !#[trigger] hash_bit(h, j),
        (px.len() >= 72 && is_dhash_of(px, h)) ==> forall|j: int| 0 <= j < 64 ==> !#[trigger] hash_bit(h, j),
{
    lemma_flat_sum(px, v);
    assert(luma_mean(px) == v as int) by {
        assert(luma_sum(px) as int == px.len() as int * (v as int));
        vstd::arithmetic::div_mod::lemma_div_multiples_vanish(v as int, px.len() as int);
        assert(px.len() as int * (v as int) == (v as int) * (px.len() as int)) by (nonlinear_arith);
    }
    if px.len() >= 72 && is_dhash_of(px, h) {
        assert forall|j: int| 0 <= j < 64 implies !#[trigger] hash_bit(h, j) by {
            assert(0 <= dhash_left(j) && dhash_left(j) + 1 < 72) by {
                assert(0 <= j / 8 < 8);
                assert(0 <= j % 8 < 8);
            }
        }
    }
}

// ───────── archive covers and the backfill sweep ─────────

/// The hash triple (perceptual, difference, average) of an archive's
/// cover page, with the page's dimensions.
#[derive(Clone, Copy, Debug)]
pub struct ArchiveCoverHashes {
    pub hashes: (i64, i64, i64),
    pub width: i32,
    pub height: i32,
}

/// The most cover rows one backfill sweep visits.
pub const BACKFILL_BATCH_CAP: usize = 500;

/// What became of one cover row in a backfill sweep.
#[derive(Clone, Copy, Debug, PartialEq, Eq)]
pub enum BackfillRowResult {
    /// The hashes were written.
    Hashed,
    /// The parent issue is gone, or its archive could not be read or
    /// decoded.
    Skipped,
    /// Writing the hashes failed.
    Errored,
}

/// Tallies of a backfill sweep.
#[derive(Clone, Copy, Debug)]
pub struct BackfillOutcome {
    /// Rows visited.
    pub considered: usize,
    pub hashed: usize,
    pub skipped: usize,
    pub errored: usize,
}

impl BackfillOutcome {
    /// A sweep over `considered` rows, none handled yet.
    pub fn start(considered: usize) -> (r: Self)
        ensures
            r.considered == considered,
            r.hashed == 0 && r.skipped == 0 && r.errored == 0,
    {
        BackfillOutcome { considered, hashed: 0, skipped: 0, errored: 0 }
    }

    /// The rows handled so far.
    pub open spec fn handled(&self) -> int {
        self.hashed + self.skipped + self.errored
    }

    /// Count one handled row.
    pub fn record(&mut self, result: BackfillRowResult)
        requires
            old(self).handled() < old(self).considered,
        ensures
            final(self).considered == old(self).considered,
            final(self).handled() == old(self).handled() + 1,
            final(self).hashed == old(self).hashed + if result == BackfillRowResult::Hashed { 1int } else { 0 },
            final(self).skipped == old(self).skipped + if result == BackfillRowResult::Skipped { 1int } else { 0 },
            final(self).errored == old(self).errored + if result == BackfillRowResult::Errored { 1int } else { 0 },
    {
        match result {
            BackfillRowResult::Hashed => self.hashed = self.hashed + 1,
            BackfillRowResult::Skipped => self.skipped = self.skipped + 1,
            BackfillRowResult::Errored => self.errored = self.errored + 1,
        }
    }

    /// The tallies of a whole sweep: each row counted once under its
    /// result.
    pub fn tally(results: &Vec<BackfillRowResult>) -> (r: Self)
        ensures
            r.considered == results@.len(),
            r.handled() == results@.len(),
            r.hashed == results@.filter(|x: BackfillRowResult| x == BackfillRowResult::Hashed).len(),
            r.skipped == results@.filter(|x: BackfillRowResult| x == BackfillRowResult::Skipped).len(),
            r.errored == results@.filter(|x: BackfillRowResult| x == BackfillRowResult::Errored).len(),
    {
        let mut out = BackfillOutcome::start(results.len());
        let mut i: usize = 0;
        while i < results.len()
            invariant
                i <= results@.len(),
                out.considered == results@.len(),
                out.handled() == i,
                out.hashed == results@.take(i as int).filter(|x: BackfillRowResult| x == BackfillRowResult::Hashed).len(),
                out.skipped == results@.take(i as int).filter(|x: BackfillRowResult| x == BackfillRowResult::Skipped).len(),
                out.errored == results@.take(i as int).filter(|x: BackfillRowResult| x == BackfillRowResult::Errored).len(),
            decreases results@.len() - i,
        {
            let ghost pre = results@.take(i as int);
            let ghost post = results@.take(i + 1);
            assert(post =~= pre.push(results@[i as int]));
            reveal(Seq::filter);
            assert(post.drop_last() =~= pre);
            out.record(results[i]);
            i = i + 1;
        }
        assert(results@.take(results@.len() as int) =~= results@);
        out
    }
}

/// The archive page a cover is read from: the issue's cover page index,
/// negative values read as the first page.
pub fn cover_page(index: i32) -> (r: usize)
    ensures
        r == (if index < 0 { 0 } else { index as int }),
{
    if index < 0 {
        0
    } else {
        index as usize
    }
}

} // verus!
