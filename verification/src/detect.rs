//! Finding where tracks start: where the signal rises after a long enough silence.

use vstd::prelude::*;

verus! {

/// What counts as a gap and as a track.
pub struct DetectParams {
    /// Minimum length of a silent stretch to count as a gap, in analysis windows.
    pub min_gap_windows: usize,
    /// Minimum track length, in milliseconds (suppresses spurious splits).
    pub min_track_ms: usize,
}

impl Default for DetectParams {
    fn default() -> (r: DetectParams)
        ensures
            r == (DetectParams { min_gap_windows: 100, min_track_ms: 15_000 }),
    {
        DetectParams { min_gap_windows: 100, min_track_ms: 15_000 }
    }
}

/// The length of an analysis window in frames: 10 ms.
pub open spec fn window_spec(sample_rate: u32) -> nat {
    if sample_rate < 100 {
        1
    } else {
        (sample_rate / 100) as nat
    }
}

/// The length of an analysis window in frames: 10 ms.
pub fn window_frames(sample_rate: u32) -> (r: usize)
    ensures
        r == window_spec(sample_rate),
        r > 0,
{
    if sample_rate < 100 {
        1
    } else {
        (sample_rate / 100) as usize
    }
}

/// The number of whole analysis windows in a number of frames.
pub open spec fn window_count_spec(frames: nat, sample_rate: u32) -> nat {
    frames / window_spec(sample_rate)
}

/// The number of whole analysis windows in a number of frames.
pub fn window_count(frames: usize, sample_rate: u32) -> (r: usize)
    ensures
        r == window_count_spec(frames as nat, sample_rate),
        r * window_spec(sample_rate) <= frames,
{
    let win = window_frames(sample_rate);
    proof {
        vstd::arithmetic::div_mod::lemma_fundamental_div_mod(frames as int, win as int);
        vstd::arithmetic::mul::lemma_mul_is_commutative(win as int, frames as int / win as int);
    }
    frames / win
}

/// How far a start is moved back into the silence, so that the attack of the track is kept:
/// 50 ms.
pub open spec fn backoff(sample_rate: u32) -> nat {
    (sample_rate / 20) as nat
}

/// The number of quiet windows directly before window `w`.
pub open spec fn quiet_run(quiet: Seq<bool>, w: nat) -> nat
    decreases w,
{
    if w > 0 && quiet[w - 1] {
        quiet_run(quiet, (w - 1) as nat) + 1
    } else {
        0
    }
}

impl DetectParams {
    /// The number of quiet windows that make a gap.
    pub open spec fn gap(&self) -> nat {
        if self.min_gap_windows == 0 {
            1
        } else {
            self.min_gap_windows as nat
        }
    }

    /// Whether a number of frames is long enough for a track.
    pub open spec fn is_track(&self, frames: int, sample_rate: u32) -> bool {
        frames * 1000 >= self.min_track_ms * sample_rate
    }

    /// Whether the signal rises at window `w` after a gap.
    pub open spec fn rises(&self, quiet: Seq<bool>, w: nat) -> bool {
        !quiet[w as int] && quiet_run(quiet, w) >= self.gap()
    }
}

/// Where a track that rises at window `w` starts: a little before, but not before frame 0.
pub open spec fn candidate(sample_rate: u32, w: nat) -> nat {
    let rise = w * window_spec(sample_rate);
    if rise >= backoff(sample_rate) {
        (rise - backoff(sample_rate)) as nat
    } else {
        0
    }
}

/// The track starts in the first `n` windows: frame 0, and each rise behind it that lies at
/// least a track's length after the start before it.
pub open spec fn starts_in(
    quiet: Seq<bool>,
    sample_rate: u32,
    params: DetectParams,
    n: nat,
) -> Seq<nat>
    decreases n,
{
    if n == 0 {
        seq![0]
    } else {
        let w = (n - 1) as nat;
        let before = starts_in(quiet, sample_rate, params, w);
        let c = candidate(sample_rate, w);
        if params.rises(quiet, w) && c > 0 && params.is_track(c - before.last(), sample_rate) {
            before.push(c)
        } else {
            before
        }
    }
}

/// The track starts of a recording, given which of its analysis windows are quiet.
pub open spec fn track_starts(
    quiet: Seq<bool>,
    sample_rate: u32,
    params: DetectParams,
) -> Seq<nat> {
    starts_in(quiet, sample_rate, params, quiet.len())
}

/// The frames of a list of positions.
pub open spec fn as_frames(starts: Seq<usize>) -> Seq<nat> {
    starts.map_values(|s: usize| s as nat)
}

/// Returns track start positions (sample frames), always including frame 0.
///
/// A track start is placed where the signal rises above the threshold again
/// after a sufficiently long silent stretch, backed off slightly into the
/// silence so the track attack is not clipped. `quiet` says of each analysis window
/// whether it lies below the threshold.
pub fn detect_track_starts(quiet: &[bool], sample_rate: u32, params: &DetectParams) -> (r: Vec<
    usize,
>)
    requires
        quiet@.len() * window_spec(sample_rate) <= usize::MAX,
    ensures
        as_frames(r@) == track_starts(quiet@, sample_rate, *params),
        0 < r@.len() <= quiet@.len() + 1,
{
    let win = window_frames(sample_rate);
    let min_gap: usize = if params.min_gap_windows == 0 {
        1
    } else {
        params.min_gap_windows
    };
    assert(params.min_track_ms * sample_rate <= usize::MAX * u32::MAX) by (nonlinear_arith)
        requires
            params.min_track_ms <= usize::MAX,
            sample_rate <= u32::MAX,
    ;
    assert(usize::MAX * u32::MAX <= u128::MAX);
    let min_track: u128 = params.min_track_ms as u128 * sample_rate as u128;
    let back: usize = (sample_rate / 20) as usize;
    let mut starts: Vec<usize> = Vec::new();
    starts.push(0);
    assert(as_frames(starts@) =~= starts_in(quiet@, sample_rate, *params, 0));
    let mut run: usize = 0;
    let mut last_start: usize = 0;
    let mut w: usize = 0;
    let mut begin: usize = 0;
    while w < quiet.len()
        invariant
            w <= quiet@.len(),
            quiet@.len() * win <= usize::MAX,
            win == window_spec(sample_rate),
            win > 0,
            begin == w * win,
            min_gap == params.gap(),
            min_track == params.min_track_ms * sample_rate,
            back == backoff(sample_rate),
            run <= w,
            run == quiet_run(quiet@, w as nat),
            as_frames(starts@) == starts_in(quiet@, sample_rate, *params, w as nat),
            0 < starts@.len() <= w + 1,
            starts@.last() == last_start,
            last_start == 0 || last_start + back <= begin,
        decreases quiet@.len() - w,
    {
        proof {
            assert((w + 1) * win <= quiet@.len() * win) by (nonlinear_arith)
                requires
                    w + 1 <= quiet@.len(),
                    win > 0,
            ;
            assert((w + 1) * win == w * win + win) by (nonlinear_arith);
            assert(as_frames(starts@).last() == last_start);
        }
        let ghost before = starts@;
        if quiet[w] {
            run = run + 1;
        } else {
            if run >= min_gap {
                let start: usize = begin.saturating_sub(back);
                assert(start == candidate(sample_rate, w as nat));
                if start > 0 && start.saturating_sub(last_start) as u128 * 1000 >= min_track {
                    starts.push(start);
                    last_start = start;
                    assert(as_frames(starts@) =~= as_frames(before).push(start as nat));
                }
            }
            run = 0;
        }
        w = w + 1;
        begin = begin + win;
    }
    starts
}

proof fn lemma_candidate_grows(sample_rate: u32, v: nat, w: nat)
    requires
        v < w,
    ensures
        candidate(sample_rate, v) <= candidate(sample_rate, w),
        candidate(sample_rate, w) > 0 ==> candidate(sample_rate, v) < candidate(sample_rate, w),
{
    let win = window_spec(sample_rate);
    assert(v * win < w * win) by (nonlinear_arith)
        requires
            v < w,
            win > 0,
    ;
}

/// A window that a start comes from.
pub open spec fn starts_at(
    quiet: Seq<bool>,
    sample_rate: u32,
    params: DetectParams,
    start: nat,
    w: nat,
) -> bool {
    w < quiet.len() && params.rises(quiet, w) && start == candidate(sample_rate, w)
}

/// Whether a start comes from one of the first `n` windows.
pub open spec fn has_rise(
    quiet: Seq<bool>,
    sample_rate: u32,
    params: DetectParams,
    start: nat,
    n: nat,
) -> bool {
    exists|w: nat| w < n && #[trigger] starts_at(quiet, sample_rate, params, start, w)
}

proof fn lemma_starts(quiet: Seq<bool>, sample_rate: u32, params: DetectParams, n: nat)
    requires
        n <= quiet.len(),
    ensures
        ({
            let s = starts_in(quiet, sample_rate, params, n);
            &&& s.len() > 0
            &&& s[0] == 0
            &&& forall|i: int|
                0 < i < s.len() ==> s[i - 1] < #[trigger] s[i] && params.is_track(
                    s[i] - s[i - 1],
                    sample_rate,
                )
            &&& forall|i: int|
                0 < i < s.len() ==> has_rise(quiet, sample_rate, params, #[trigger] s[i], n)
            &&& s.last() == 0 || exists|w: nat| w < n && s.last() == #[trigger] candidate(
                sample_rate,
                w,
            )
        }),
    decreases n,
{
    if n > 0 {
        let w = (n - 1) as nat;
        lemma_starts(quiet, sample_rate, params, w);
        let before = starts_in(quiet, sample_rate, params, w);
        let s = starts_in(quiet, sample_rate, params, n);
        let c = candidate(sample_rate, w);
        if s != before {
            assert(s == before.push(c));
            assert(starts_at(quiet, sample_rate, params, c, w));
            if before.last() != 0 {
                let v = choose|v: nat| v < w && before.last() == #[trigger] candidate(sample_rate, v);
                lemma_candidate_grows(sample_rate, v, w);
            }
            assert forall|i: int| 0 < i < s.len() implies s[i - 1] < #[trigger] s[i] && params.is_track(
                s[i] - s[i - 1],
                sample_rate,
            ) by {
                if i < before.len() {
                    assert(s[i] == before[i]);
                    assert(s[i - 1] == before[i - 1]);
                } else {
                    assert(s[i - 1] == before.last());
                }
            }
            assert forall|i: int| 0 < i < s.len() implies has_rise(
                quiet,
                sample_rate,
                params,
                #[trigger] s[i],
                n,
            ) by {
                if i < before.len() {
                    assert(s[i] == before[i]);
                    let u = choose|u: nat|
                        u < w && #[trigger] starts_at(quiet, sample_rate, params, before[i], u);
                    assert(starts_at(quiet, sample_rate, params, s[i], u));
                } else {
                    assert(starts_at(quiet, sample_rate, params, s[i], w));
                }
            }
        }
    }
}

/// Frame 0 always starts a track; the starts ascend, and each lies at least the minimum track
/// length behind the one before it.
pub proof fn starts_keep_track_length(quiet: Seq<bool>, sample_rate: u32, params: DetectParams)
    ensures
        ({
            let s = track_starts(quiet, sample_rate, params);
            &&& s.len() > 0
            &&& s[0] == 0
            &&& forall|i: int|
                0 < i < s.len() ==> s[i - 1] < #[trigger] s[i] && (s[i] - s[i - 1]) * 1000
                    >= params.min_track_ms * sample_rate
        }),
{
    lemma_starts(quiet, sample_rate, params, quiet.len());
}

/// Every start but the first comes from a window where the signal rises after a gap, and lies
/// inside the recording.
pub proof fn starts_follow_gaps(
    quiet: Seq<bool>,
    sample_rate: u32,
    params: DetectParams,
    i: int,
)
    requires
        0 < i < track_starts(quiet, sample_rate, params).len(),
    ensures
        has_rise(
            quiet,
            sample_rate,
            params,
            track_starts(quiet, sample_rate, params)[i],
            quiet.len(),
        ),
        track_starts(quiet, sample_rate, params)[i] < quiet.len() * window_spec(sample_rate),
{
    lemma_starts(quiet, sample_rate, params, quiet.len());
    let s = track_starts(quiet, sample_rate, params);
    let w = choose|w: nat|
        w < quiet.len() && #[trigger] starts_at(quiet, sample_rate, params, s[i], w);
    let win = window_spec(sample_rate);
    assert(w * win < quiet.len() * win) by (nonlinear_arith)
        requires
            w < quiet.len(),
            win > 0,
    ;
}

proof fn lemma_quiet_run(quiet: Seq<bool>, w: nat, v: nat)
    requires
        v < w <= quiet.len(),
        w - v <= quiet_run(quiet, w),
    ensures
        quiet[v as int],
    decreases w,
{
    if v + 1 < w {
        lemma_quiet_run(quiet, (w - 1) as nat, v);
    }
}

/// A start is backed off into silence only: where a gap is at least as long as the back-off,
/// every window between a start and the rise it comes from is quiet.
pub proof fn backoff_stays_in_silence(
    quiet: Seq<bool>,
    sample_rate: u32,
    params: DetectParams,
    start: nat,
    w: nat,
    v: nat,
)
    requires
        starts_at(quiet, sample_rate, params, start, w),
        params.gap() * window_spec(sample_rate) >= backoff(sample_rate),
        v < w,
        (v + 1) * window_spec(sample_rate) > start,
    ensures
        quiet[v as int],
{
    let win = window_spec(sample_rate);
    let gap = params.gap();
    assert(w - v <= gap) by {
        if w - v > gap {
            assert((v + 1) * win + gap * win <= w * win) by (nonlinear_arith)
                requires
                    v + 1 + gap <= w,
                    win > 0,
            ;
        }
    }
    lemma_quiet_run(quiet, w, v);
}

/// Whether a start accounts for a rise at `c`: it is that rise, or lies less than a track's
/// length before it.
pub open spec fn covers(start: nat, c: nat, sample_rate: u32, params: DetectParams) -> bool {
    start == c || (start <= c && !params.is_track(c - start, sample_rate))
}

proof fn lemma_covered(
    quiet: Seq<bool>,
    sample_rate: u32,
    params: DetectParams,
    w: nat,
    n: nat,
)
    requires
        w < n <= quiet.len(),
        params.rises(quiet, w),
        candidate(sample_rate, w) > 0,
    ensures
        exists|i: int|
            0 <= i < starts_in(quiet, sample_rate, params, n).len() && covers(
                #[trigger] starts_in(quiet, sample_rate, params, n)[i],
                candidate(sample_rate, w),
                sample_rate,
                params,
            ),
    decreases n,
{
    let s = starts_in(quiet, sample_rate, params, n);
    let before = starts_in(quiet, sample_rate, params, (n - 1) as nat);
    let c = candidate(sample_rate, w);
    lemma_starts(quiet, sample_rate, params, n);
    lemma_starts(quiet, sample_rate, params, (n - 1) as nat);
    if w == n - 1 {
        if before.last() != 0 {
            let v = choose|v: nat| v < w && before.last() == #[trigger] candidate(sample_rate, v);
            lemma_candidate_grows(sample_rate, v, w);
        }
        assert(s.last() == s[s.len() - 1]);
    } else {
        lemma_covered(quiet, sample_rate, params, w, (n - 1) as nat);
        let i = choose|i: int|
            0 <= i < before.len() && covers(
                #[trigger] before[i],
                c,
                sample_rate,
                params,
            );
        assert(s[i] == before[i]);
    }
}

/// No rise is lost: each one that could start a track either does, or lies less than the
/// minimum track length behind a start.
pub proof fn rises_are_covered(
    quiet: Seq<bool>,
    sample_rate: u32,
    params: DetectParams,
    w: nat,
)
    requires
        w < quiet.len(),
        params.rises(quiet, w),
        candidate(sample_rate, w) > 0,
    ensures
        exists|i: int|
            0 <= i < track_starts(quiet, sample_rate, params).len() && covers(
                #[trigger] track_starts(quiet, sample_rate, params)[i],
                candidate(sample_rate, w),
                sample_rate,
                params,
            ),
{
    lemma_covered(quiet, sample_rate, params, w, quiet.len());
    let s = starts_in(quiet, sample_rate, params, quiet.len());
    let i = choose|i: int|
        0 <= i < s.len() && covers(
            #[trigger] s[i],
            candidate(sample_rate, w),
            sample_rate,
            params,
        );
    assert(track_starts(quiet, sample_rate, params)[i] == s[i]);
}

/// Track starts ascend.
pub proof fn lemma_starts_ascend(
    quiet: Seq<bool>,
    sample_rate: u32,
    params: DetectParams,
    i: int,
    j: int,
)
    requires
        0 <= i <= j < track_starts(quiet, sample_rate, params).len(),
    ensures
        track_starts(quiet, sample_rate, params)[i] <= track_starts(quiet, sample_rate, params)[j],
    decreases j - i,
{
    if i < j {
        starts_keep_track_length(quiet, sample_rate, params);
        lemma_starts_ascend(quiet, sample_rate, params, i, j - 1);
        let s = track_starts(quiet, sample_rate, params);
        assert(s[j - 1] < s[j]);
    }
}

/// Whether the signal rises at window `w` directly after `gap` quiet windows, or after one
/// where none are asked for.
pub open spec fn follows_gap(quiet: Seq<bool>, gap: nat, w: int) -> bool {
    &&& 0 < w < quiet.len()
    &&& gap <= w
    &&& !quiet[w]
    &&& quiet[w - 1]
    &&& forall|v: int| w - gap <= v < w ==> #[trigger] quiet[v]
}

proof fn lemma_run_reaches(quiet: Seq<bool>, w: nat, n: nat)
    requires
        n <= w <= quiet.len(),
        forall|v: int| w - n <= v < w ==> #[trigger] quiet[v],
    ensures
        quiet_run(quiet, w) >= n,
    decreases n,
{
    if n > 0 {
        assert(quiet[w - 1]);
        lemma_run_reaches(quiet, (w - 1) as nat, (n - 1) as nat);
    }
}

proof fn lemma_run_fits(quiet: Seq<bool>, w: nat)
    ensures
        quiet_run(quiet, w) <= w,
    decreases w,
{
    if w > 0 && quiet[w - 1] {
        lemma_run_fits(quiet, (w - 1) as nat);
    }
}

proof fn lemma_rises(quiet: Seq<bool>, params: DetectParams, w: nat)
    requires
        w < quiet.len(),
    ensures
        params.rises(quiet, w) <==> follows_gap(quiet, params.min_gap_windows as nat, w as int),
{
    let gap = params.min_gap_windows as nat;
    if params.rises(quiet, w) {
        lemma_run_fits(quiet, w);
        assert forall|v: int| w - params.gap() <= v < w implies #[trigger] quiet[v] by {
            lemma_quiet_run(quiet, w, v as nat);
        }
        assert(quiet[w - 1]);
    }
    if follows_gap(quiet, gap, w as int) {
        lemma_run_reaches(quiet, w, params.gap());
    }
}

/// Every start but the first comes from a rise with at least the minimum gap of quiet windows
/// directly before it, and lies 50 ms before that rise.
pub proof fn starts_come_after_gaps(
    quiet: Seq<bool>,
    sample_rate: u32,
    params: DetectParams,
    i: int,
)
    requires
        0 < i < track_starts(quiet, sample_rate, params).len(),
    ensures
        exists|w: int|
            #![trigger quiet[w]]
            {
                &&& 0 < w < quiet.len()
                &&& params.min_gap_windows <= w
                &&& !quiet[w]
                &&& quiet[w - 1]
                &&& forall|v: int| w - params.min_gap_windows <= v < w ==> #[trigger] quiet[v]
                &&& track_starts(quiet, sample_rate, params)[i] == w * (if sample_rate >= 100 {
                    sample_rate as int / 100
                } else {
                    1
                }) - sample_rate as int / 20
            },
{
    lemma_starts(quiet, sample_rate, params, quiet.len());
    let s = track_starts(quiet, sample_rate, params);
    let w = choose|w: nat|
        w < quiet.len() && #[trigger] starts_at(quiet, sample_rate, params, s[i], w);
    lemma_rises(quiet, params, w);
    assert(follows_gap(quiet, params.min_gap_windows as nat, w as int));
    lemma_starts_ascend(quiet, sample_rate, params, 0, i - 1);
    assert(s[i] > 0);
    assert(!quiet[w as int]);
}

proof fn lemma_adjacent_ascend(s: Seq<nat>, i: int, j: int)
    requires
        0 <= i <= j < s.len(),
        forall|k: int| 0 < k < s.len() ==> s[k - 1] < #[trigger] s[k],
    ensures
        s[i] <= s[j],
        i < j ==> s[i] < s[j],
    decreases j - i,
{
    if i < j {
        lemma_adjacent_ascend(s, i, j - 1);
        assert(s[j - 1] < s[j]);
    }
}

#[verifier::rlimit(40)]
proof fn lemma_first_rises(
    quiet: Seq<bool>,
    sample_rate: u32,
    params: DetectParams,
    n: nat,
    i: int,
    w: nat,
)
    requires
        w < n <= quiet.len(),
        params.rises(quiet, w),
        0 <= i < starts_in(quiet, sample_rate, params, n).len(),
        starts_in(quiet, sample_rate, params, n)[i] < candidate(sample_rate, w),
        i + 1 < starts_in(quiet, sample_rate, params, n).len() ==> candidate(sample_rate, w)
            < starts_in(quiet, sample_rate, params, n)[i + 1],
    ensures
        !params.is_track(
            candidate(sample_rate, w) - starts_in(quiet, sample_rate, params, n)[i],
            sample_rate,
        ),
    decreases n,
{
    let m = (n - 1) as nat;
    let s = starts_in(quiet, sample_rate, params, n);
    let before = starts_in(quiet, sample_rate, params, m);
    let c = candidate(sample_rate, w);
    lemma_starts(quiet, sample_rate, params, n);
    lemma_starts(quiet, sample_rate, params, m);
    if w == m {
        if i + 1 < s.len() {
            lemma_adjacent_ascend(s, i + 1, s.len() - 1);
        }
        if before.last() != 0 {
            let v = choose|v: nat| v < w && before.last() == #[trigger] candidate(sample_rate, v);
            lemma_candidate_grows(sample_rate, v, w);
        }
    } else {
        lemma_candidate_grows(sample_rate, w, m);
        if i < before.len() {
            assert(s[i] == before[i]);
            if i + 1 < before.len() {
                assert(s[i + 1] == before[i + 1]);
            }
            lemma_first_rises(quiet, sample_rate, params, m, i, w);
        }
    }
}

/// No start is passed over: a rise after a gap that lies behind a start, and before the next one
/// if there is one, lies less than the minimum track length behind it.
pub proof fn no_start_is_passed_over(
    quiet: Seq<bool>,
    sample_rate: u32,
    params: DetectParams,
    i: int,
    w: int,
    c: int,
)
    requires
        0 <= i < track_starts(quiet, sample_rate, params).len(),
        follows_gap(quiet, params.min_gap_windows as nat, w),
        c == w * (if sample_rate >= 100 {
            sample_rate as int / 100
        } else {
            1
        }) - sample_rate as int / 20,
        track_starts(quiet, sample_rate, params)[i] < c,
        i + 1 < track_starts(quiet, sample_rate, params).len() ==> c < track_starts(
            quiet,
            sample_rate,
            params,
        )[i + 1],
    ensures
        (c - track_starts(quiet, sample_rate, params)[i]) * 1000 < params.min_track_ms
            * sample_rate,
{
    lemma_rises(quiet, params, w as nat);
    assert(c == candidate(sample_rate, w as nat));
    lemma_first_rises(quiet, sample_rate, params, quiet.len(), i, w as nat);
}

/// The analysis windows fill the recording but for less than one: each lasts a hundredth of a
/// second, and a frame at least.
pub proof fn windows_fill_recording(frames: nat, sample_rate: u32)
    ensures
        ({
            let window = if sample_rate >= 100 {
                sample_rate as int / 100
            } else {
                1
            };
            let n = window_count_spec(frames, sample_rate);
            n * window <= frames < (n + 1) * window
        }),
{
    let window = window_spec(sample_rate) as int;
    let n = frames as int / window;
    vstd::arithmetic::div_mod::lemma_fundamental_div_mod(frames as int, window);
    assert(n * window == window * n) by (nonlinear_arith);
    assert((n + 1) * window == window * n + window) by (nonlinear_arith);
}

} // verus!
