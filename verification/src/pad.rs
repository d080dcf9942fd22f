//! Presentation-attack-detection heuristics, per session: a bounded ring of
//! recent perceptual hashes with timestamps (replay / duplicate detection)
//! and a flicker metric over a small grayscale snapshot.
//!
//! The 64-bit perceptual hash of a frame is a pure function of the image
//! bytes; callers compute it and hand it in, and the engine here is verified
//! for every hash value. The flicker score is carried in permille (the mean
//! absolute pixel difference divided by 255, times 1000, truncated).

use std::collections::VecDeque;
use vstd::prelude::*;

verus! {

/// Configuration of the PAD engine.
pub struct PadConfig {
    pub replay_window_ms: u64,
    pub allow_clock_skew_ms: u64,
    pub max_recent_hashes: usize,
    pub duplicate_hamming_threshold: u32,
    pub flicker_size: u32,
    pub flicker_suspect_threshold_permille: u32,
}

impl Default for PadConfig {
    /// The stock configuration: 5 s replay window, 1 s clock skew, 32 recent
    /// hashes, exact-match duplicates, 32x32 flicker plane, 0.2 flicker
    /// suspicion threshold.
    fn default() -> (c: Self)
        ensures
            c.replay_window_ms == 5000,
            c.allow_clock_skew_ms == 1000,
            c.max_recent_hashes == 32,
            c.duplicate_hamming_threshold == 0,
            c.flicker_size == 32,
            c.flicker_suspect_threshold_permille == 200,
    {
        PadConfig {
            replay_window_ms: 5000,
            allow_clock_skew_ms: 1000,
            max_recent_hashes: 32,
            duplicate_hamming_threshold: 0,
            flicker_size: 32,
            flicker_suspect_threshold_permille: 200,
        }
    }
}

/// Mutable PAD state of one session.
pub struct PadState {
    pub last_ts: Option<u64>,
    pub recent_hashes: VecDeque<(u64, u64)>,
    pub last_small_gray: Option<Vec<u8>>,
}

impl Default for PadState {
    /// A fresh state: no timestamp seen, empty ring, no grayscale reference.
    fn default() -> (s: Self)
        ensures
            s.last_ts is None,
            s.recent_hashes@ =~= Seq::<(u64, u64)>::empty(),
            s.last_small_gray is None,
    {
        PadState { last_ts: None, recent_hashes: VecDeque::new(), last_small_gray: None }
    }
}

/// The signals the engine emits for one frame.
#[derive(Clone, Copy, Debug, PartialEq, Eq, Structural)]
pub struct PadSignals {
    pub suspected_replay: bool,
    pub duplicate_hash: bool,
    pub flicker_permille: u32,
}

/// How many bits of a value are set.
pub open spec fn popcount(x: nat) -> nat
    decreases x,
{
    if x == 0 {
        0
    } else {
        x % 2 + popcount(x / 2)
    }
}

/// A value below 2^k has at most k set bits.
proof fn lemma_popcount_bound(x: nat, k: nat)
    requires
        x < vstd::arithmetic::power2::pow2(k),
    ensures
        popcount(x) <= k,
    decreases k,
{
    if k == 0 {
        vstd::arithmetic::power2::lemma2_to64();
    } else {
        vstd::arithmetic::power2::lemma_pow2_unfold(k);
        lemma_popcount_bound(x / 2, (k - 1) as nat);
    }
}

/// Number of differing bits between two 64-bit hashes.
pub fn hamming_distance_u64(a: u64, b: u64) -> (r: u32)
    ensures
        r == popcount((a ^ b) as nat),
{
    let mut x: u64 = a ^ b;
    let mut c: u32 = 0;
    proof {
        vstd::arithmetic::power2::lemma2_to64_rest();
        assert(vstd::arithmetic::power2::pow2(64) == 0x1_0000_0000_0000_0000);
        lemma_popcount_bound((a ^ b) as nat, 64);
    }
    while x != 0
        invariant
            c + popcount(x as nat) == popcount((a ^ b) as nat),
            popcount((a ^ b) as nat) <= 64,
            c <= 64,
        decreases x,
    {
        c = c + (x % 2) as u32;
        x = x / 2;
    }
    c
}

/// Whether a ring entry with timestamp `t` has aged out at time `ts`
/// (saturating: timestamps ahead of `ts` never age out).
pub open spec fn too_old(ts: u64, t: u64, window: u64) -> bool {
    ts > t && ts - t > window
}

/// The ring after evicting aged-out entries from the front.
pub open spec fn ring_evict(ring: Seq<(u64, u64)>, ts: u64, window: u64) -> Seq<(u64, u64)>
    decreases ring.len(),
{
    if ring.len() > 0 && too_old(ts, ring[0].1, window) {
        ring_evict(ring.drop_first(), ts, window)
    } else {
        ring
    }
}

/// Whether some ring entry is within Hamming distance `thr` of `hash`.
pub open spec fn ring_has_duplicate(ring: Seq<(u64, u64)>, hash: u64, thr: u32) -> bool {
    exists|i: int| 0 <= i < ring.len() && popcount((ring[i].0 ^ hash) as nat) <= thr
}

/// The ring after capping its size at `max` (evicting the oldest).
pub open spec fn ring_cap(ring: Seq<(u64, u64)>, max: usize) -> Seq<(u64, u64)> {
    if ring.len() > max {
        ring.drop_first()
    } else {
        ring
    }
}

/// The ring after one processed frame: evict aged entries, insert the new
/// hash, cap the size.
pub open spec fn ring_after(
    ring: Seq<(u64, u64)>,
    ts: u64,
    hash: u64,
    window: u64,
    max: usize,
) -> Seq<(u64, u64)> {
    ring_cap(ring_evict(ring, ts, window).push((hash, ts)), max)
}

/// Ring timestamps are in non-decreasing order.
pub open spec fn ring_sorted(ring: Seq<(u64, u64)>) -> bool {
    forall|i: int, j: int| 0 <= i <= j < ring.len() ==> ring[i].1 <= ring[j].1
}

/// Every ring entry is within the replay window of the newest entry, which
/// carries the largest timestamp.
pub open spec fn ring_fresh(ring: Seq<(u64, u64)>, window: u64) -> bool {
    forall|i: int|
        0 <= i < ring.len() ==> ring.last().1 >= ring[i].1 && ring.last().1 - ring[i].1 <= window
}

/// The bounded-buffer invariant of the PAD state: the ring holds at most
/// `max_recent_hashes` entries, in timestamp order, all within the replay
/// window of the newest entry, and none newer than the last seen timestamp.
pub open spec fn pad_wf(state: PadState, config: PadConfig) -> bool {
    &&& state.recent_hashes@.len() <= config.max_recent_hashes
    &&& ring_sorted(state.recent_hashes@)
    &&& ring_fresh(state.recent_hashes@, config.replay_window_ms)
    &&& (state.last_ts matches Some(t) ==> forall|i: int|
        0 <= i < state.recent_hashes@.len() ==> state.recent_hashes@[i].1 <= t)
    &&& (state.last_ts is None ==> state.recent_hashes@.len() == 0)
}

/// The absolute difference of two pixel values.
pub open spec fn abs_diff(a: u8, b: u8) -> int {
    if a >= b {
        a - b
    } else {
        b - a
    }
}

/// Sum of absolute pixel differences over the first `n` positions.
pub open spec fn abs_diff_sum(a: Seq<u8>, b: Seq<u8>, n: int) -> int
    decreases n,
{
    if n <= 0 {
        0
    } else {
        abs_diff_sum(a, b, n - 1) + abs_diff(a[n - 1], b[n - 1])
    }
}

/// The flicker score in permille: the mean absolute pixel difference over
/// the common prefix, as a fraction of 255, truncated to permille.
pub open spec fn flicker_permille_spec(prev: Seq<u8>, curr: Seq<u8>) -> int {
    let len = if prev.len() <= curr.len() {
        prev.len() as int
    } else {
        curr.len() as int
    };
    if len > 0 {
        1000 * abs_diff_sum(prev, curr, len) / (255 * len)
    } else {
        0
    }
}

/// Whether the engine treats a frame as decoded: the caller derived a
/// perceptual hash and the bytes decode as an image.
pub open spec fn frame_decoded(bytes: Seq<u8>, phash: Option<u64>) -> bool {
    phash is Some && image_decodable(bytes)
}

/// Whether the image bytes decode; decodability depends on the bytes alone.
pub uninterp spec fn image_decodable(bytes: Seq<u8>) -> bool;

/// The side x side luminance downscale of decodable image bytes.
pub uninterp spec fn luma_small_of(bytes: Seq<u8>, side: int) -> Seq<u8>;

/// Relies on image::load_from_memory, DynamicImage::to_luma8 and
/// image::imageops::resize with the triangular filter: whether the bytes
/// decode, and the downscaled luminance plane, depend on the bytes alone,
/// and resizing to side x side yields exactly side*side luminance bytes.
#[verifier::external_body]
fn decode_luma_small(bytes: &Vec<u8>, side: u32) -> (r: Option<Vec<u8>>)
    ensures
        r is Some <==> image_decodable(bytes@),
        r matches Some(g) ==> g@ == luma_small_of(bytes@, side as int) && g@.len() == side * side,
{
    match image::load_from_memory(bytes.as_slice()) {
        Ok(img) => Some(
            image::imageops::resize(
                &img.to_luma8(),
                side,
                side,
                image::imageops::FilterType::Triangle,
            ).into_raw(),
        ),
        Err(_) => None,
    }
}

/// Whether the front ring entry exists and has aged out at time `ts`.
fn evict_front_needed(q: &VecDeque<(u64, u64)>, ts: u64, window: u64) -> (r: bool)
    ensures
        r == (q@.len() > 0 && too_old(ts, q@[0].1, window)),
{
    if q.len() == 0 {
        return false;
    }
    let t = q[0].1;
    ts > t && ts - t > window
}

/// The flicker score between the previous and current small grayscale
/// planes.
fn flicker_of(prev: &Vec<u8>, curr: &Vec<u8>) -> (r: u32)
    ensures
        r == flicker_permille_spec(prev@, curr@),
        r <= 1000,
{
    let len: usize = if prev.len() <= curr.len() {
        prev.len()
    } else {
        curr.len()
    };
    if len == 0 {
        return 0;
    }
    let mut sum: u128 = 0;
    let mut i: usize = 0;
    while i < len
        invariant
            0 <= i <= len,
            len <= prev@.len(),
            len <= curr@.len(),
            sum == abs_diff_sum(prev@, curr@, i as int),
            sum <= 255 * i,
        decreases len - i,
    {
        let p = prev[i];
        let c = curr[i];
        let d: u8 = if p >= c {
            p - c
        } else {
            c - p
        };
        sum = sum + d as u128;
        i = i + 1;
    }
    let num: u128 = 1000 * sum;
    let den: u128 = 255 * (len as u128);
    let q: u128 = num / den;
    proof {
        assert(sum <= 255 * (len as int));
        assert(num <= 1000 * (255 * (len as int)));
        vstd::arithmetic::div_mod::lemma_div_is_ordered(
            num as int,
            1000 * (255 * (len as int)),
            den as int,
        );
        assert((1000 * (255 * (len as int))) / (255 * (len as int)) == 1000) by {
            vstd::arithmetic::div_mod::lemma_div_by_multiple(1000, 255 * (len as int));
        };
    }
    q as u32
}

/// Evicting drops a fully aged-out prefix and nothing else.
proof fn lemma_evict_skip(ring: Seq<(u64, u64)>, ts: u64, window: u64) -> (k: int)
    ensures
        0 <= k <= ring.len(),
        ring_evict(ring, ts, window) == ring.skip(k),
        forall|i: int| 0 <= i < k ==> too_old(ts, ring[i].1, window),
    decreases ring.len(),
{
    if ring.len() > 0 && too_old(ts, ring[0].1, window) {
        let k0 = lemma_evict_skip(ring.drop_first(), ts, window);
        assert(ring.drop_first().skip(k0) =~= ring.skip(k0 + 1));
        assert forall|i: int| 0 <= i < k0 + 1 implies too_old(ts, #[trigger] ring[i].1, window) by {
            if i > 0 {
                assert(ring.drop_first()[i - 1] == ring[i]);
            }
        };
        k0 + 1
    } else {
        assert(ring.skip(0) =~= ring);
        0
    }
}

/// After eviction, the front entry (if any) is within the window.
proof fn lemma_evict_front_ok(ring: Seq<(u64, u64)>, ts: u64, window: u64)
    ensures
        ring_evict(ring, ts, window).len() > 0 ==> !too_old(
            ts,
            ring_evict(ring, ts, window)[0].1,
            window,
        ),
    decreases ring.len(),
{
    if ring.len() > 0 && too_old(ts, ring[0].1, window) {
        lemma_evict_front_ok(ring.drop_first(), ts, window);
    }
}

/// An entry still within the window survives eviction.
proof fn lemma_evict_keeps_fresh(ring: Seq<(u64, u64)>, ts: u64, window: u64, i: int)
    requires
        0 <= i < ring.len(),
        !too_old(ts, ring[i].1, window),
    ensures
        exists|j: int|
            0 <= j < ring_evict(ring, ts, window).len() && ring_evict(ring, ts, window)[j]
                == ring[i],
{
    let k = lemma_evict_skip(ring, ts, window);
    assert(i >= k);
    assert(ring.skip(k)[i - k] == ring[i]);
}

/// One processed frame preserves the bounded-buffer invariant, provided
/// timestamps do not run backwards.
proof fn lemma_ring_after_wf(ring: Seq<(u64, u64)>, ts: u64, hash: u64, window: u64, max: usize)
    requires
        ring_sorted(ring),
        ring.len() <= max,
        forall|i: int| 0 <= i < ring.len() ==> ring[i].1 <= ts,
    ensures
        ring_after(ring, ts, hash, window, max).len() <= max,
        ring_sorted(ring_after(ring, ts, hash, window, max)),
        ring_fresh(ring_after(ring, ts, hash, window, max), window),
        forall|i: int|
            0 <= i < ring_after(ring, ts, hash, window, max).len() ==> ring_after(
                ring,
                ts,
                hash,
                window,
                max,
            )[i].1 <= ts,
{
    let k = lemma_evict_skip(ring, ts, window);
    let ev = ring_evict(ring, ts, window);
    let pushed = ev.push((hash, ts));
    assert(forall|i: int| 0 <= i < ev.len() ==> ev[i] == ring[i + k]);
    assert(ring_sorted(pushed));
    assert(forall|i: int| 0 <= i < ev.len() ==> !too_old(ts, #[trigger] ev[i].1, window)) by {
        if ev.len() > 0 {
            lemma_evict_front_ok(ring, ts, window);
            assert(!too_old(ts, ev[0].1, window));
            assert(forall|i: int|
                0 <= i < ev.len() ==> ev[0].1 <= #[trigger] ev[i].1 && ev[i].1 <= ts);
        }
    };
    assert(pushed.last() == (hash, ts));
    assert(ring_fresh(pushed, window));
    let capped = ring_cap(pushed, max);
    if pushed.len() > max {
        assert(capped =~= pushed.drop_first());
        assert(forall|i: int| 0 <= i < capped.len() ==> capped[i] == pushed[i + 1]);
        if capped.len() > 0 {
            assert(capped.last() == pushed.last());
        }
    }
}

/// The full relation of one engine step: what the signals say and how the
/// state moves, for a frame at time `ts` with the given bytes and hash.
pub open spec fn pad_step(
    config: PadConfig,
    pre: PadState,
    post: PadState,
    ts: u64,
    bytes: Seq<u8>,
    phash: Option<u64>,
    sig: PadSignals,
) -> bool {
    &&& post.last_ts == Some(ts)
    &&& frame_decoded(bytes, phash) ==> {
        &&& sig.suspected_replay == (pre.last_ts matches Some(prev) && ts as int
            + config.allow_clock_skew_ms < prev)
        &&& post.recent_hashes@ == ring_after(
            pre.recent_hashes@,
            ts,
            phash.unwrap(),
            config.replay_window_ms,
            config.max_recent_hashes,
        )
        &&& sig.duplicate_hash == ring_has_duplicate(
            ring_evict(pre.recent_hashes@, ts, config.replay_window_ms),
            phash.unwrap(),
            config.duplicate_hamming_threshold,
        )
        &&& post.last_small_gray matches Some(g) && g@ == luma_small_of(
            bytes,
            config.flicker_size as int,
        )
        &&& (pre.last_small_gray matches Some(prev) ==> sig.flicker_permille
            == flicker_permille_spec(prev@, luma_small_of(bytes, config.flicker_size as int)))
        &&& (pre.last_small_gray is None ==> sig.flicker_permille == 0)
    }
    &&& !frame_decoded(bytes, phash) ==> {
        &&& post.recent_hashes@ == pre.recent_hashes@
        &&& post.last_small_gray == pre.last_small_gray
        &&& sig.suspected_replay == false
        &&& sig.duplicate_hash == false
        &&& sig.flicker_permille == 0
    }
}

/// Scanning one more ring entry extends the duplicate check by exactly that
/// entry.
proof fn lemma_duplicate_scan_step(ring: Seq<(u64, u64)>, h: u64, thr: u32, i: int)
    requires
        0 <= i < ring.len(),
    ensures
        ring_has_duplicate(ring.take(i + 1), h, thr) == (ring_has_duplicate(ring.take(i), h, thr)
            || popcount((ring[i].0 ^ h) as nat) <= thr),
{
    let a = ring.take(i);
    let b = ring.take(i + 1);
    assert(forall|j: int| 0 <= j < i ==> a[j] == b[j]);
    assert(b[i] == ring[i]);
    if ring_has_duplicate(b, h, thr) {
        let w = choose|w: int| 0 <= w < b.len() && popcount((b[w].0 ^ h) as nat) <= thr;
        if w < i {
            assert(popcount((a[w].0 ^ h) as nat) <= thr);
        }
    }
    if ring_has_duplicate(a, h, thr) {
        let w = choose|w: int| 0 <= w < a.len() && popcount((a[w].0 ^ h) as nat) <= thr;
        assert(popcount((b[w].0 ^ h) as nat) <= thr);
    }
    if popcount((ring[i].0 ^ h) as nat) <= thr {
        assert(popcount((b[i].0 ^ h) as nat) <= thr);
    }
}

/// Process one frame. When the frame decoded: flag a replay if its
/// timestamp runs backwards past the clock-skew allowance, evict aged
/// hashes, report duplicates, insert the new hash, cap the ring, and
/// report the flicker score against the previous small grayscale plane. An
/// undecoded frame reports nothing and only records the timestamp.
pub fn process_frame(
    config: &PadConfig,
    state: &mut PadState,
    ts: u64,
    bytes: &Vec<u8>,
    phash: Option<u64>,
) -> (sig: PadSignals)
    ensures
        pad_step(*config, *old(state), *final(state), ts, bytes@, phash, sig),
        pad_wf(*old(state), *config) && (old(state).last_ts matches Some(prev) ==> prev <= ts)
            ==> pad_wf(*final(state), *config),
{
    let mut replay_candidate = false;
    match state.last_ts {
        Some(prev) => {
            if ts.saturating_add(config.allow_clock_skew_ms) < prev {
                replay_candidate = true;
            }
        },
        None => {},
    }
    state.last_ts = Some(ts);
    let mut suspected_replay = false;
    let mut duplicate_hash = false;
    let mut flicker_permille: u32 = 0;
    if let Some(h) = phash {
        if let Some(small) = decode_luma_small(bytes, config.flicker_size) {
            suspected_replay = replay_candidate;
            while evict_front_needed(&state.recent_hashes, ts, config.replay_window_ms)
                invariant
                    ring_evict(state.recent_hashes@, ts, config.replay_window_ms) == ring_evict(
                        old(state).recent_hashes@,
                        ts,
                        config.replay_window_ms,
                    ),
                    state.last_ts == Some(ts),
                    state.last_small_gray == old(state).last_small_gray,
                decreases state.recent_hashes@.len(),
            {
                state.recent_hashes.pop_front();
            }
            let ghost evicted = state.recent_hashes@;
            proof {
                assert(evicted == ring_evict(
                    old(state).recent_hashes@,
                    ts,
                    config.replay_window_ms,
                ));
            }
            let mut i: usize = 0;
            while i < state.recent_hashes.len()
                invariant
                    0 <= i <= state.recent_hashes@.len(),
                    state.recent_hashes@ == evicted,
                    state.last_ts == Some(ts),
                    state.last_small_gray == old(state).last_small_gray,
                    duplicate_hash == ring_has_duplicate(
                        evicted.take(i as int),
                        h,
                        config.duplicate_hamming_threshold,
                    ),
                decreases state.recent_hashes@.len() - i,
            {
                let entry = state.recent_hashes[i];
                let hd = hamming_distance_u64(entry.0, h);
                proof {
                    lemma_duplicate_scan_step(
                        evicted,
                        h,
                        config.duplicate_hamming_threshold,
                        i as int,
                    );
                }
                if hd <= config.duplicate_hamming_threshold {
                    duplicate_hash = true;
                }
                i = i + 1;
            }
            proof {
                assert(evicted.take(evicted.len() as int) =~= evicted);
            }
            state.recent_hashes.push_back((h, ts));
            if state.recent_hashes.len() > config.max_recent_hashes {
                state.recent_hashes.pop_front();
            }
            match &state.last_small_gray {
                Some(prev) => {
                    flicker_permille = flicker_of(prev, &small);
                },
                None => {},
            }
            state.last_small_gray = Some(small);
            proof {
                if pad_wf(*old(state), *config) && (old(state).last_ts matches Some(prev) ==> prev
                    <= ts) {
                    lemma_ring_after_wf(
                        old(state).recent_hashes@,
                        ts,
                        h,
                        config.replay_window_ms,
                        config.max_recent_hashes,
                    );
                }
            }
        }
    }
    PadSignals { suspected_replay, duplicate_hash, flicker_permille }
}

/// A hash differs from itself in no bit.
pub proof fn lemma_hamming_self_zero(h: u64)
    ensures
        popcount((h ^ h) as nat) == 0,
{
    assert(h ^ h == 0) by (bit_vector);
}

/// Duplicate symmetry over two engine steps: two decoded frames carrying
/// the same perceptual hash — as two identical images do — within the
/// replay window of each other make the second step report a duplicate,
/// whatever the Hamming threshold, provided the ring holds at least one
/// entry.
pub proof fn lemma_duplicate_symmetry(
    config: PadConfig,
    s0: PadState,
    s1: PadState,
    s2: PadState,
    ts1: u64,
    ts2: u64,
    bytes1: Seq<u8>,
    bytes2: Seq<u8>,
    h: u64,
    sig1: PadSignals,
    sig2: PadSignals,
)
    requires
        config.max_recent_hashes >= 1,
        pad_step(config, s0, s1, ts1, bytes1, Some(h), sig1),
        pad_step(config, s1, s2, ts2, bytes2, Some(h), sig2),
        image_decodable(bytes1),
        image_decodable(bytes2),
        ts1 <= ts2,
        ts2 - ts1 <= config.replay_window_ms,
    ensures
        sig2.duplicate_hash,
{
    lemma_duplicate_within_window(
        s0.recent_hashes@,
        ts1,
        ts2,
        h,
        config.replay_window_ms,
        config.max_recent_hashes,
        config.duplicate_hamming_threshold,
    );
}

/// Duplicate symmetry on the ring model: once a frame's hash has entered
/// the ring (the ring can hold at least one entry), the same hash
/// re-presented within the replay window is reported as a duplicate,
/// whatever the Hamming threshold.
pub proof fn lemma_duplicate_within_window(
    ring: Seq<(u64, u64)>,
    ts1: u64,
    ts2: u64,
    h: u64,
    window: u64,
    max: usize,
    thr: u32,
)
    requires
        max >= 1,
        ts1 <= ts2,
        ts2 - ts1 <= window,
    ensures
        ring_has_duplicate(
            ring_evict(ring_after(ring, ts1, h, window, max), ts2, window),
            h,
            thr,
        ),
{
    let ring1 = ring_after(ring, ts1, h, window, max);
    let pushed = ring_evict(ring, ts1, window).push((h, ts1));
    assert(pushed.last() == (h, ts1));
    assert(ring1.len() >= 1);
    assert(ring1.last() == (h, ts1));
    let last = ring1.len() - 1;
    assert(ring1[last as int] == (h, ts1));
    assert(!too_old(ts2, ts1, window));
    lemma_evict_keeps_fresh(ring1, ts2, window, last as int);
    let ev = ring_evict(ring1, ts2, window);
    let j = choose|j: int| 0 <= j < ev.len() && ev[j] == ring1[last as int];
    lemma_hamming_self_zero(h);
    assert(popcount((ev[j].0 ^ h) as nat) <= thr);
}

} // verus!
