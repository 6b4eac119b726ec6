//! Dominant-color extraction: quantized frequency counting over a
//! fixed 4096-bucket table, highest-frequency-first selection with a
//! pinned tie-break (ascending bucket key), greedy diversity selection
//! and the complementary fallback fill.
//!
//! The fixed table walk and the explicit tie-break make the whole
//! stage a function of the pixels alone.

use crate::color::{
    color_distance, hsl_to_rgb, rgb_to_hsl, spec_color_distance, spec_hsl_to_rgb,
    spec_rgb_to_hsl, Hsl, Rgb,
};
use crate::hue::{rotate_hue, spec_rotate_hue};
use vstd::pervasive::VecAdditionalExecFns;
use vstd::prelude::*;

verus! {

/// One quantized color with its pixel frequency.
#[derive(Clone, Copy, Debug, PartialEq, Eq, Structural)]
pub struct Bucket {
    pub key: u32,
    pub count: u64,
}

/// Pixels far too dark or bright are left out of the count.
pub open spec fn spec_pixel_kept(c: Rgb) -> bool {
    let br = (c.r + c.g + c.b) / 3;
    20 <= br && br <= 240
}

/// Table index of a pixel: each channel quantized to 16 levels.
pub open spec fn spec_bucket_index(c: Rgb) -> int {
    (c.r as int / 16) * 256 + (c.g as int / 16) * 16 + (c.b as int / 16)
}

/// The color a bucket stands for: the quantized channel values.
pub open spec fn spec_bucket_color(key: int) -> Rgb {
    Rgb {
        r: ((key / 256) * 16 % 256) as u8,
        g: ((key / 16 % 16) * 16) as u8,
        b: ((key % 16) * 16) as u8,
    }
}

pub open spec fn spec_bump(h: Seq<u64>, c: Rgb) -> Seq<u64> {
    if spec_pixel_kept(c) {
        let i = spec_bucket_index(c);
        h.update(i, (h[i] + 1) as u64)
    } else {
        h
    }
}

/// Frequency table over the quantized pixels.
pub open spec fn spec_histogram(pixels: Seq<Rgb>) -> Seq<u64>
    decreases pixels.len(),
{
    if pixels.len() == 0 {
        Seq::new(4096, |i: int| 0u64)
    } else {
        spec_bump(spec_histogram(pixels.drop_last()), pixels.last())
    }
}

pub proof fn lemma_histogram_bounds(pixels: Seq<Rgb>)
    ensures
        spec_histogram(pixels).len() == 4096,
        forall|i: int|
            0 <= i < 4096 ==> #[trigger] spec_histogram(pixels)[i] <= pixels.len(),
    decreases pixels.len(),
{
    if pixels.len() > 0 {
        lemma_histogram_bounds(pixels.drop_last());
    }
}

/// Count quantized pixel frequencies into the fixed table.
pub fn histogram(pixels: &Vec<Rgb>) -> (h: Vec<u64>)
    ensures
        h@ == spec_histogram(pixels@),
        h@.len() == 4096,
{
    let mut h: Vec<u64> = Vec::new();
    let mut i: usize = 0;
    while i < 4096
        invariant
            0 <= i <= 4096,
            h@ =~= Seq::new(i as nat, |j: int| 0u64),
        decreases 4096 - i,
    {
        h.push(0);
        proof {
            assert(h@ =~= Seq::new((i + 1) as nat, |j: int| 0u64));
        }
        i = i + 1;
    }
    proof {
        assert(h@ =~= spec_histogram(pixels@.take(0)));
    }
    let mut j: usize = 0;
    while j < pixels.len()
        invariant
            0 <= j <= pixels@.len(),
            h@ == spec_histogram(pixels@.take(j as int)),
            h@.len() == 4096,
        decreases pixels@.len() - j,
    {
        let p = pixels[j];
        proof {
            assert(pixels@.take(j + 1).drop_last() =~= pixels@.take(j as int));
            assert(pixels@.take(j + 1).last() == pixels@[j as int]);
            lemma_histogram_bounds(pixels@.take(j as int));
        }
        let br = (p.r as u32 + p.g as u32 + p.b as u32) / 3;
        if 20 <= br && br <= 240 {
            let idx: usize = ((p.r / 16) as usize) * 256 + ((p.g / 16) as usize) * 16 + ((p.b
                / 16) as usize);
            let c = h[idx];
            h.set(idx, c + 1);
        }
        j = j + 1;
    }
    proof {
        assert(pixels@.take(pixels@.len() as int) =~= pixels@);
    }
    h
}

/// The nonzero buckets of the first `n` table entries, in key order.
pub open spec fn spec_buckets_upto(h: Seq<u64>, n: int) -> Seq<Bucket>
    decreases n,
{
    if n <= 0 {
        Seq::empty()
    } else {
        spec_buckets_upto(h, n - 1) + if h[n - 1] > 0 {
            seq![Bucket { key: (n - 1) as u32, count: h[n - 1] }]
        } else {
            Seq::empty()
        }
    }
}

pub open spec fn spec_buckets(h: Seq<u64>) -> Seq<Bucket> {
    spec_buckets_upto(h, 4096)
}

/// Collect the nonzero buckets in ascending key order.
pub fn nonzero_buckets(h: &Vec<u64>) -> (r: Vec<Bucket>)
    requires
        h@.len() == 4096,
    ensures
        r@ == spec_buckets(h@),
{
    let mut r: Vec<Bucket> = Vec::new();
    let mut i: usize = 0;
    while i < 4096
        invariant
            0 <= i <= 4096,
            h@.len() == 4096,
            r@ == spec_buckets_upto(h@, i as int),
        decreases 4096 - i,
    {
        let c = h[i];
        if c > 0 {
            r.push(Bucket { key: i as u32, count: c });
        }
        proof {
            if c > 0 {
                assert(r@ =~= spec_buckets_upto(h@, i as int) + seq![
                    Bucket { key: i as u32, count: h@[i as int] },
                ]);
            } else {
                assert(r@ =~= spec_buckets_upto(h@, i as int) + Seq::<Bucket>::empty());
            }
        }
        i = i + 1;
    }
    r
}

/// Bucket priority: higher count first, lower key on equal counts.
pub open spec fn spec_better(a: Bucket, b: Bucket) -> bool {
    a.count > b.count || (a.count == b.count && a.key < b.key)
}

/// Index of the best bucket, scanning left to right and keeping the
/// earlier one unless a strictly better one appears.
pub open spec fn spec_arg_best(s: Seq<Bucket>) -> int
    recommends
        s.len() > 0,
    decreases s.len(),
{
    if s.len() <= 1 {
        0
    } else {
        let rest = spec_arg_best(s.drop_last());
        if spec_better(s.last(), s[rest]) {
            s.len() - 1
        } else {
            rest
        }
    }
}

proof fn lemma_arg_best_in_range(s: Seq<Bucket>)
    requires
        s.len() > 0,
    ensures
        0 <= spec_arg_best(s) < s.len(),
    decreases s.len(),
{
    if s.len() > 1 {
        lemma_arg_best_in_range(s.drop_last());
    }
}

fn find_best(v: &Vec<Bucket>) -> (b: usize)
    requires
        v@.len() > 0,
    ensures
        b == spec_arg_best(v@),
        b < v@.len(),
{
    let mut best: usize = 0;
    let mut i: usize = 1;
    proof {
        lemma_arg_best_in_range(v@);
        assert(v@.take(1).len() == 1);
    }
    while i < v.len()
        invariant
            1 <= i <= v@.len(),
            best < i,
            best == spec_arg_best(v@.take(i as int)),
        decreases v@.len() - i,
    {
        proof {
            assert(v@.take(i + 1).drop_last() =~= v@.take(i as int));
            lemma_arg_best_in_range(v@.take(i as int));
        }
        let cand = v[i];
        let cur = v[best];
        if cand.count > cur.count || (cand.count == cur.count && cand.key < cur.key) {
            best = i;
        }
        i = i + 1;
    }
    proof {
        assert(v@.take(v@.len() as int) =~= v@);
    }
    best
}

/// The `k` best buckets, best first: repeatedly take the highest
/// count, breaking ties by the lower key.
pub open spec fn spec_top_k(s: Seq<Bucket>, k: int) -> Seq<Bucket>
    decreases k,
{
    if k <= 0 || s.len() == 0 {
        Seq::empty()
    } else {
        let b = spec_arg_best(s);
        seq![s[b]] + spec_top_k(s.remove(b), k - 1)
    }
}

pub proof fn lemma_top_k_len(s: Seq<Bucket>, k: int)
    ensures
        spec_top_k(s, k).len() == if k < 0 {
            0
        } else if k <= s.len() {
            k
        } else {
            s.len() as int
        },
    decreases k,
{
    if k <= 0 || s.len() == 0 {
    } else {
        let b = spec_arg_best(s);
        lemma_arg_best_in_range(s);
        s.remove_ensures(b);
        lemma_top_k_len(s.remove(b), k - 1);
    }
}

/// Every key of the selection already occurred in the input.
pub proof fn lemma_top_k_keys(s: Seq<Bucket>, k: int, n: int)
    requires
        forall|i: int| 0 <= i < s.len() ==> (#[trigger] s[i]).key < n,
    ensures
        forall|j: int|
            0 <= j < spec_top_k(s, k).len() ==> (#[trigger] spec_top_k(s, k)[j]).key < n,
    decreases k,
{
    if k <= 0 || s.len() == 0 {
    } else {
        let b = spec_arg_best(s);
        lemma_arg_best_in_range(s);
        s.remove_ensures(b);
        assert(forall|i: int|
            0 <= i < s.remove(b).len() ==> (#[trigger] s.remove(b)[i]).key < n);
        lemma_top_k_keys(s.remove(b), k - 1, n);
        assert forall|j: int| 0 <= j < spec_top_k(s, k).len() implies (#[trigger] spec_top_k(
            s,
            k,
        )[j]).key < n by {
            if j == 0 {
                assert(spec_top_k(s, k)[0] == s[b]);
            } else {
                assert(spec_top_k(s, k)[j] == spec_top_k(s.remove(b), k - 1)[j - 1]);
            }
        }
    }
}

/// Select the `k` highest-frequency buckets, deterministically.
pub fn top_buckets(v: Vec<Bucket>, k: usize) -> (r: Vec<Bucket>)
    ensures
        r@ == spec_top_k(v@, k as int),
{
    let ghost orig = v@;
    let mut remaining = v;
    let mut out: Vec<Bucket> = Vec::new();
    let mut i: usize = 0;
    proof {
        assert(Seq::<Bucket>::empty() + spec_top_k(orig, k as int) =~= spec_top_k(
            orig,
            k as int,
        ));
    }
    while i < k && remaining.len() > 0
        invariant
            0 <= i <= k,
            out@ + spec_top_k(remaining@, k - i) == spec_top_k(orig, k as int),
        decreases k - i,
    {
        let b = find_best(&remaining);
        let ghost rem0 = remaining@;
        let ghost out0 = out@;
        let x = remaining.remove(b);
        out.push(x);
        proof {
            assert(spec_top_k(rem0, k - i) == seq![x] + spec_top_k(remaining@, k - i - 1));
            assert(out@ + spec_top_k(remaining@, k - i - 1) =~= out0 + spec_top_k(rem0, k - i));
        }
        i = i + 1;
    }
    proof {
        assert(out@ + Seq::<Bucket>::empty() =~= out@);
    }
    out
}

/// Every already-accepted color is farther than `thr` from `c`.
pub open spec fn spec_all_far(acc: Seq<Rgb>, c: Rgb, thr: int) -> bool {
    forall|i: int| 0 <= i < acc.len() ==> spec_color_distance(#[trigger] acc[i], c) > thr
}

/// Greedy diversity selection over the candidates, in order.
pub open spec fn spec_select_rec(cands: Seq<Rgb>, acc: Seq<Rgb>, thr: int, count: int) -> Seq<
    Rgb,
>
    decreases cands.len(),
{
    if acc.len() >= count || cands.len() == 0 {
        acc
    } else if spec_all_far(acc, cands[0], thr) {
        spec_select_rec(cands.skip(1), acc.push(cands[0]), thr, count)
    } else {
        spec_select_rec(cands.skip(1), acc, thr, count)
    }
}

pub open spec fn spec_select_diverse(cands: Seq<Rgb>, thr: int, count: int) -> Seq<Rgb> {
    spec_select_rec(cands, Seq::empty(), thr, count)
}

/// Every pair of distinct entries is farther apart than `thr`.
pub open spec fn spec_pairwise_diverse(s: Seq<Rgb>, thr: int) -> bool {
    forall|i: int, j: int|
        0 <= i < j < s.len() ==> #[trigger] spec_color_distance(s[i], s[j]) > thr
}

proof fn lemma_select_rec_pairwise(cands: Seq<Rgb>, acc: Seq<Rgb>, thr: int, count: int)
    requires
        spec_pairwise_diverse(acc, thr),
    ensures
        spec_pairwise_diverse(spec_select_rec(cands, acc, thr, count), thr),
    decreases cands.len(),
{
    if acc.len() >= count || cands.len() == 0 {
    } else if spec_all_far(acc, cands[0], thr) {
        let acc2 = acc.push(cands[0]);
        assert forall|i: int, j: int| 0 <= i < j < acc2.len() implies #[trigger] spec_color_distance(
            acc2[i],
            acc2[j],
        ) > thr by {
            if j < acc.len() {
                assert(spec_color_distance(acc[i], acc[j]) > thr);
            } else {
                assert(acc2[j] == cands[0]);
                assert(spec_color_distance(acc[i], cands[0]) > thr);
            }
        }
        lemma_select_rec_pairwise(cands.skip(1), acc2, thr, count);
    } else {
        lemma_select_rec_pairwise(cands.skip(1), acc, thr, count);
    }
}

/// The diversity invariant: every pair the selection accepted is farther
/// apart than the threshold; only the later fallback fill may violate
/// it.
pub proof fn lemma_diversity_invariant(cands: Seq<Rgb>, thr: int, count: int)
    ensures
        spec_pairwise_diverse(spec_select_diverse(cands, thr, count), thr),
{
    lemma_select_rec_pairwise(cands, Seq::empty(), thr, count);
}

fn all_far(acc: &Vec<Rgb>, c: &Rgb, thr: u32) -> (r: bool)
    ensures
        r == spec_all_far(acc@, *c, thr as int),
{
    let mut i: usize = 0;
    while i < acc.len()
        invariant
            0 <= i <= acc@.len(),
            forall|k: int| 0 <= k < i ==> spec_color_distance(#[trigger] acc@[k], *c) > thr,
        decreases acc@.len() - i,
    {
        if color_distance(&acc[i], c) <= thr {
            return false;
        }
        i = i + 1;
    }
    true
}

/// Accept candidates in order, keeping only those farther than `thr`
/// from everything already accepted, until `count` are kept.
pub fn select_diverse(cands: &Vec<Rgb>, thr: u32, count: usize) -> (r: Vec<Rgb>)
    ensures
        r@ == spec_select_diverse(cands@, thr as int, count as int),
        spec_pairwise_diverse(r@, thr as int),
        r@.len() <= count,
{
    let mut acc: Vec<Rgb> = Vec::new();
    let mut i: usize = 0;
    proof {
        assert(cands@.skip(0) =~= cands@);
    }
    while i < cands.len() && acc.len() < count
        invariant
            0 <= i <= cands@.len(),
            acc@.len() <= count,
            spec_select_rec(cands@.skip(i as int), acc@, thr as int, count as int)
                == spec_select_diverse(cands@, thr as int, count as int),
            spec_pairwise_diverse(acc@, thr as int),
        decreases cands@.len() - i,
    {
        let c = cands[i];
        proof {
            assert(cands@.skip(i as int).skip(1) =~= cands@.skip(i as int + 1));
            assert(cands@.skip(i as int)[0] == cands@[i as int]);
        }
        if all_far(&acc, &c, thr) {
            let ghost acc0 = acc@;
            acc.push(c);
            proof {
                assert forall|a: int, b: int| 0 <= a < b < acc@.len() implies #[trigger] spec_color_distance(
                    acc@[a],
                    acc@[b],
                ) > thr by {
                    if b < acc0.len() {
                        assert(spec_color_distance(acc0[a], acc0[b]) > thr);
                    } else {
                        assert(acc@[b] == c);
                        assert(spec_color_distance(acc0[a], c) > thr);
                    }
                }
            }
        }
        i = i + 1;
    }
    proof {
        if i == cands@.len() {
            assert(cands@.skip(i as int) =~= Seq::<Rgb>::empty());
        }
    }
    acc
}

/// The fallback color: the last accepted color's complement, more
/// saturated and at middle lightness; a mid gray when nothing was
/// accepted at all.
pub open spec fn spec_complementary_of(existing: Seq<Rgb>) -> Rgb {
    if existing.len() == 0 {
        Rgb { r: 128, g: 128, b: 128 }
    } else {
        let x = spec_rgb_to_hsl(existing.last());
        let s2 = if x.s + 200 > 1000 {
            1000
        } else {
            x.s + 200
        };
        spec_hsl_to_rgb(
            Hsl { h: spec_rotate_hue(x.h as int, 180) as u32, s: s2 as u32, l: 500 },
        )
    }
}

/// Generate the complementary fallback color for a partial palette.
pub fn complementary_of(existing: &Vec<Rgb>) -> (c: Rgb)
    ensures
        c == spec_complementary_of(existing@),
{
    if existing.len() == 0 {
        Rgb { r: 128, g: 128, b: 128 }
    } else {
        let x = rgb_to_hsl(existing[existing.len() - 1]);
        proof {
            assert(existing@[existing@.len() - 1] == existing@.last());
        }
        let h2 = rotate_hue(x.h, 180);
        let s2 = if x.s + 200 > 1000 {
            1000
        } else {
            x.s + 200
        };
        hsl_to_rgb(Hsl { h: h2, s: s2, l: 500 })
    }
}

/// Append complementary fallback colors until `count` entries exist.
pub open spec fn spec_fill(s: Seq<Rgb>, count: int) -> Seq<Rgb>
    decreases count - s.len(),
        when s.len() <= count
{
    if s.len() >= count {
        s
    } else {
        spec_fill(s.push(spec_complementary_of(s)), count)
    }
}

/// Top a partial palette up to exactly `count` colors.
pub fn fill_complementary(sel: Vec<Rgb>, count: usize) -> (r: Vec<Rgb>)
    requires
        sel@.len() <= count,
    ensures
        r@ == spec_fill(sel@, count as int),
        r@.len() == count,
{
    let ghost orig = sel@;
    let mut out = sel;
    while out.len() < count
        invariant
            out@.len() <= count,
            spec_fill(out@, count as int) == spec_fill(orig, count as int),
        decreases count - out@.len(),
    {
        let c = complementary_of(&out);
        out.push(c);
    }
    out
}

proof fn lemma_select_rec_len(cands: Seq<Rgb>, acc: Seq<Rgb>, thr: int, count: int)
    ensures
        acc.len() <= spec_select_rec(cands, acc, thr, count).len(),
        spec_select_rec(cands, acc, thr, count).len() <= if acc.len() >= count {
            acc.len() as int
        } else {
            count
        },
    decreases cands.len(),
{
    if acc.len() >= count || cands.len() == 0 {
    } else if spec_all_far(acc, cands[0], thr) {
        lemma_select_rec_len(cands.skip(1), acc.push(cands[0]), thr, count);
    } else {
        lemma_select_rec_len(cands.skip(1), acc, thr, count);
    }
}

proof fn lemma_fill_keeps_prefix(s: Seq<Rgb>, count: int)
    requires
        s.len() <= count,
    ensures
        spec_fill(s, count).len() == count,
        spec_fill(s, count).take(s.len() as int) == s,
    decreases count - s.len(),
{
    if s.len() < count {
        let s2 = s.push(spec_complementary_of(s));
        lemma_fill_keeps_prefix(s2, count);
        assert(spec_fill(s, count).take(s.len() as int) =~= s);
    } else {
        assert(spec_fill(s, count).take(s.len() as int) =~= s);
    }
}

/// The diversity invariant at the whole-stage level: the accepted
/// colors stand unchanged at the front of the extracted palette, and
/// every pair of them is farther apart than the threshold; only the
/// fallback fills behind them may sit closer.
pub proof fn lemma_candidate_palette_diversity(pixels: Seq<Rgb>, thr: int, count: int)
    requires
        count >= 0,
    ensures
        ({
            let h = spec_histogram(pixels);
            let top = spec_top_k(spec_buckets(h), 3 * count);
            let cands = top.map_values(|b: Bucket| spec_bucket_color(b.key as int));
            let sel = spec_select_diverse(cands, thr, count);
            let palette = spec_extract_palette(pixels, thr, count);
            &&& sel.len() <= palette.len()
            &&& palette.take(sel.len() as int) == sel
            &&& spec_pairwise_diverse(sel, thr)
        }),
{
    let h = spec_histogram(pixels);
    let top = spec_top_k(spec_buckets(h), 3 * count);
    let cands = top.map_values(|b: Bucket| spec_bucket_color(b.key as int));
    let sel = spec_select_diverse(cands, thr, count);
    lemma_select_rec_len(cands, Seq::empty(), thr, count);
    lemma_fill_keeps_prefix(sel, count);
    lemma_diversity_invariant(cands, thr, count);
}

/// The whole extraction stage as one function of the pixels.
pub open spec fn spec_extract_palette(pixels: Seq<Rgb>, thr: int, count: int) -> Seq<Rgb> {
    let h = spec_histogram(pixels);
    let top = spec_top_k(spec_buckets(h), 3 * count);
    let cands = top.map_values(|b: Bucket| spec_bucket_color(b.key as int));
    spec_fill(spec_select_diverse(cands, thr, count), count)
}

/// Turn the chosen buckets back into their quantized colors.
pub fn bucket_colors(top: &Vec<Bucket>) -> (r: Vec<Rgb>)
    ensures
        r@ == top@.map_values(|b: Bucket| spec_bucket_color(b.key as int)),
{
    let mut r: Vec<Rgb> = Vec::new();
    let mut i: usize = 0;
    while i < top.len()
        invariant
            0 <= i <= top@.len(),
            r@.len() == i,
            forall|k: int|
                0 <= k < i ==> r@[k] == spec_bucket_color(#[trigger] top@[k].key as int),
        decreases top@.len() - i,
    {
        let b = top[i];
        let key = b.key;
        let r8: u32 = (key / 256) * 16 % 256;
        let g8: u32 = (key / 16 % 16) * 16;
        let b8: u32 = (key % 16) * 16;
        r.push(Rgb { r: r8 as u8, g: g8 as u8, b: b8 as u8 });
        i = i + 1;
    }
    proof {
        assert(r@ =~= top@.map_values(|b: Bucket| spec_bucket_color(b.key as int)));
    }
    r
}

} // verus!
