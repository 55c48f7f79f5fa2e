//! Transport time to pixel mapping and cyclic tiling of short loops.
//!
//! Pixel positions are exact: a position is returned as a numerator over
//! `PixelMap::denominator()` (four times the visible window), so that the
//! zero ratio of one quarter is represented without rounding.
use vstd::prelude::*;

verus! {

/// The viewport: `width` pixels show `window` samples of transport time.
/// The playhead is anchored at one quarter of the width.
#[derive(Clone, Copy, Debug, PartialEq, Eq)]
pub struct PixelMap {
    pub width: u32,
    pub window: u64,
}

/// One rendered repetition of a loop.
#[derive(Clone, Copy, Debug, PartialEq, Eq)]
pub struct Tile {
    /// Left edge, in units of `1 / denominator()` pixels.
    pub x: i128,
    /// Whether a loop-boundary marker is drawn at the left edge.
    pub marker: bool,
}

/// Greatest multiple of `length` that is strictly less than `a`.
pub open spec fn is_multiple_below(length: int, a: int, r: int) -> bool {
    &&& r % length == 0
    &&& r < a
    &&& a <= r + length
}

/// First loop period to draw: zero while the transport is inside the first
/// period, else the greatest multiple of the length strictly below
/// `now - length`.
pub open spec fn tile_start_spec(length: int, now: int, r: int) -> bool {
    if now < length {
        r == 0
    } else {
        is_multiple_below(length, now - length, r)
    }
}

/// Closed form of `tile_start_spec` (division rounds down).
pub open spec fn tile_start_of(length: int, now: int) -> int {
    if now < length {
        0
    } else {
        length * ((now - length - 1) / length)
    }
}

/// Transport time at which the first drawn loop period starts.
pub fn tile_start(length: u64, now: i64) -> (r: i128)
    requires
        length > 0,
    ensures
        tile_start_spec(length as int, now as int, r as int),
        r == tile_start_of(length as int, now as int),
{
    let l: i128 = length as i128;
    let t: i128 = now as i128;
    if t < l {
        0
    } else if t == l {
        proof {
            vstd::arithmetic::div_mod::lemma_mod_multiples_basic(-1, length as int);
            assert((-1int) / (length as int) == -1) by {
                vstd::arithmetic::div_mod::lemma_fundamental_div_mod_converse(
                    -1,
                    length as int,
                    -1,
                    length - 1,
                );
            }
        }
        -l
    } else {
        let q: i128 = (t - l - 1) / l;
        proof {
            let a: int = t - l;
            let l: int = l as int;
            let q: int = q as int;
            vstd::arithmetic::div_mod::lemma_fundamental_div_mod(a - 1, l);
            vstd::arithmetic::div_mod::lemma_mod_multiples_basic(q, l);
            assert(l * q == q * l) by (nonlinear_arith);
            assert(0 <= l * q <= a - 1 && a <= l * q + l) by (nonlinear_arith)
                requires
                    q >= 0,
                    l > 0,
                    a - 1 == l * q + (a - 1) % l,
                    0 <= (a - 1) % l < l,
            ;
        }
        l * q
    }
}

impl PixelMap {
    pub open spec fn wf(self) -> bool {
        self.window > 0
    }

    /// `4 * window`: the denominator of every pixel position.
    pub open spec fn denom(self) -> int {
        4 * self.window
    }

    /// `x(t) = (width / window) * t - width / 4`, times `denom()`.
    pub open spec fn x_of(self, t: int) -> int {
        4 * self.width * t - self.width * self.window
    }

    /// Time whose position is `x` (times `denom()`), rounded down.
    pub open spec fn time_of(self, x: int) -> int {
        (x + self.width * self.window) / (4 * self.width as int)
    }

    /// On-screen width of one loop period of `length` samples, times `denom()`.
    pub open spec fn period_width(self, length: int) -> int {
        4 * self.width * length
    }

    /// Right end of the drawn area, `2 * width`, times `denom()`.
    pub open spec fn right_limit(self) -> int {
        8 * self.width * self.window
    }

    /// Left edge of tile `k` of a loop of `length` samples whose first tile
    /// starts at transport time `start`.
    pub open spec fn tile_x(self, length: int, now: int, start: int, k: int) -> int {
        -self.x_of(now - start) + k * self.period_width(length)
    }

    /// What `tiles` returns for a loop of `length` samples at time `now`.
    pub open spec fn tiles_spec(self, length: int, now: int, tiles: Seq<Tile>) -> bool {
        self.tiles_from(length, now, tile_start_of(length, now), tiles)
    }

    /// Tiles at `tile_x(0), tile_x(1), ...` while left of `right_limit()`;
    /// every seam but the first one at transport time zero has a marker.
    pub open spec fn tiles_from(self, length: int, now: int, start: int, tiles: Seq<Tile>) -> bool {
        &&& forall|k: int|
            0 <= k < tiles.len() ==> {
                &&& #[trigger] tiles[k].x == self.tile_x(length, now, start, k)
                &&& tiles[k].x < self.right_limit()
                &&& tiles[k].marker == (start != 0 || k > 0)
            }
        &&& self.tile_x(length, now, start, tiles.len() as int) >= self.right_limit()
    }

    pub fn new(width: u32, window: u64) -> (r: PixelMap)
        requires
            window > 0,
        ensures
            r.width == width,
            r.window == window,
            r.wf(),
    {
        PixelMap { width, window }
    }

    /// Left edges of the tiles of a loop of `length` samples at transport
    /// time `now`: one per loop period from `tile_start`, while left of
    /// twice the width.
    pub fn tiles(&self, length: u64, now: i64) -> (r: Vec<Tile>)
        requires
            length > 0,
        ensures
            self.tiles_spec(length as int, now as int, r@),
    {
        let start: i128 = tile_start(length, now);
        let ghost gs = start as int;
        let w: i128 = self.width as i128;
        proof {
            lemma_products_fit(self.width, self.window, now as int);
            lemma_products_fit(self.width, length, 0);
            assert(-0x4_0000_0000_0000_0000_0000_0000 <= w * (start as int) <= 0x4_0000_0000_0000_0000_0000_0000)
                by (nonlinear_arith)
                requires
                    0 <= w < 0x1_0000_0000,
                    -0x1_0000_0000_0000_0000 <= start <= 0x1_0000_0000_0000_0000,
            ;
        }
        let ww: i128 = w * (self.window as i128);
        let step: i128 = 4 * (w * (length as i128));
        let limit: i128 = 8 * ww;
        let mut x: i128 = ww - 4 * (w * (now as i128)) + 4 * (w * start);
        proof {
            assert(x == self.tile_x(length as int, now as int, gs, 0)) by (nonlinear_arith)
                requires
                    x == w * self.window - 4 * (w * now) + 4 * (w * start),
                    w == self.width,
                    gs == start,
                    self.tile_x(length as int, now as int, gs, 0) == -(4 * self.width * (now - gs)
                        - self.width * self.window) + 0 * self.period_width(length as int),
            ;
            assert(step == self.period_width(length as int)) by (nonlinear_arith)
                requires
                    step == 4 * (w * length),
                    w == self.width,
            ;
            assert(limit == self.right_limit()) by (nonlinear_arith)
                requires
                    limit == 8 * (w * self.window),
                    w == self.width,
            ;
            assert(w == 0 ==> x == 0 && limit == 0) by (nonlinear_arith)
                requires
                    x == w * self.window - 4 * (w * now) + 4 * (w * start),
                    limit == 8 * (w * self.window),
            ;
            assert(w > 0 ==> step > 0) by (nonlinear_arith)
                requires
                    step == 4 * (w * length),
                    length > 0,
            ;
        }
        let mut out: Vec<Tile> = Vec::new();
        while x < limit
            invariant
                start == gs,
                gs == tile_start_of(length as int, now as int),
                step == self.period_width(length as int),
                limit == self.right_limit(),
                0 <= limit <= 0x8_0000_0000_0000_0000_0000_0000,
                0 <= step <= 0x8_0000_0000_0000_0000_0000_0000,
                -0x20_0000_0000_0000_0000_0000_0000 <= x <= 0x20_0000_0000_0000_0000_0000_0000,
                step > 0 || x >= limit,
                x == self.tile_x(length as int, now as int, gs, out.len() as int),
                forall|k: int|
                    0 <= k < out.len() ==> {
                        &&& #[trigger] out@[k].x == self.tile_x(length as int, now as int, gs, k)
                        &&& out@[k].x < self.right_limit()
                        &&& out@[k].marker == (gs != 0 || k > 0)
                    },
            decreases limit + step - x,
        {
            let marker: bool = start != 0 || out.len() > 0;
            out.push(Tile { x, marker });
            proof {
                let k = out.len() as int;
                assert((k - 1) * step + step == k * step) by (nonlinear_arith);
            }
            x = x + step;
        }
        out
    }

    /// Offset of the scrolling beat grid: minus the playhead offset of `now`
    /// modulo the width, so in `(-width, 0]` (times `denominator()`). The grid
    /// is drawn there and one width further right.
    pub fn grid_offset(&self, now: i64) -> (r: i128)
        requires
            self.wf(),
            self.width > 0,
        ensures
            r == -(self.x_of(now as int) % (4 * self.width * self.window)),
            -(4 * self.width * self.window) < r <= 0,
    {
        proof {
            lemma_products_fit(self.width, self.window, now as int);
            assert(4 * self.width * self.window == 4 * (self.width * self.window)) by (nonlinear_arith);
            assert(self.width * self.window > 0) by (nonlinear_arith)
                requires
                    self.width > 0,
                    self.window > 0,
            ;
        }
        let m: i128 = 4 * ((self.width as i128) * (self.window as i128));
        -floor_mod(self.time_to_x(now), m)
    }

    pub fn denominator(&self) -> (r: u128)
        ensures
            r == self.denom(),
    {
        4 * self.window as u128
    }

    /// Pixels covered by `t` samples, times `denominator()`.
    pub fn time_to_pixels(&self, t: i64) -> (r: i128)
        ensures
            r == 4 * self.width * t,
    {
        proof {
            lemma_products_fit(self.width, self.window, t as int);
        }
        4 * ((self.width as i128) * (t as i128))
    }

    /// Offset of transport time `t` from the playhead anchor, times
    /// `denominator()`.
    pub fn time_to_x(&self, t: i64) -> (r: i128)
        ensures
            r == self.x_of(t as int),
    {
        proof {
            lemma_products_fit(self.width, self.window, t as int);
        }
        self.time_to_pixels(t) - (self.width as i128) * (self.window as i128)
    }

    /// Transport time at position `x` (times `denominator()`), rounded down.
    pub fn x_to_time(&self, x: i128) -> (r: i128)
        requires
            self.width > 0,
            -0x1_0000_0000_0000_0000_0000_0000_0000 <= x <= 0x1_0000_0000_0000_0000_0000_0000_0000,
        ensures
            r == self.time_of(x as int),
    {
        proof {
            lemma_products_fit(self.width, self.window, 0);
        }
        let d: i128 = 4 * (self.width as i128);
        let n: i128 = x + (self.width as i128) * (self.window as i128);
        if n >= 0 {
            n / d
        } else {
            let q: i128 = (-n - 1) / d;
            proof {
                lemma_floor_negative(n as int, d as int, q as int);
            }
            -q - 1
        }
    }
}

/// The part of a waveform that is being recorded which is drawn: its newest
/// `len` points, starting at index `start`.
#[derive(Clone, Copy, Debug, PartialEq, Eq)]
pub struct RecordingSpan {
    pub start: usize,
    pub len: usize,
}

/// While a track records, only the past is drawn, right-anchored at the
/// playhead: at most the quarter of the window left of the playhead
/// (`points_per_window / 4` waveform points), and no more than was captured.
pub fn recording_span(points_per_window: u64, captured: usize) -> (r: RecordingSpan)
    ensures
        r.len as int == if (points_per_window / 4) < captured {
            (points_per_window / 4) as int
        } else {
            captured as int
        },
        r.start + r.len == captured,
{
    let quarter: u64 = points_per_window / 4;
    let len: usize = if quarter < captured as u64 {
        quarter as usize
    } else {
        captured
    };
    RecordingSpan { start: captured - len, len }
}

/// Number of beat lines across a window of `window` samples: the window
/// divided by the beat length, rounded up.
pub open spec fn beat_count(window: int, samples_per_beat: int) -> int {
    (window + samples_per_beat - 1) / samples_per_beat
}

/// The beat grid across one window: one entry per beat, evenly spaced over
/// the width, `true` where the beat starts a bar.
pub fn beat_grid(window: u64, samples_per_beat: u64, beats_per_bar: u8) -> (r: Vec<bool>)
    requires
        samples_per_beat > 0,
        beats_per_bar > 0,
    ensures
        r.len() == beat_count(window as int, samples_per_beat as int),
        forall|i: int| 0 <= i < r.len() ==> #[trigger] r[i] == (i % beats_per_bar as int == 0),
{
    proof {
        let w = window as int;
        let b = samples_per_beat as int;
        let q = w / b;
        vstd::arithmetic::div_mod::lemma_fundamental_div_mod(w, b);
        if w % b == 0 {
            assert(w + b - 1 == q * b + (b - 1)) by (nonlinear_arith)
                requires
                    w == b * q + w % b,
                    w % b == 0,
            ;
            vstd::arithmetic::div_mod::lemma_fundamental_div_mod_converse(w + b - 1, b, q, b - 1);
        } else {
            assert(w + b - 1 == (q + 1) * b + (w % b - 1)) by (nonlinear_arith)
                requires
                    w == b * q + w % b,
            ;
            vstd::arithmetic::div_mod::lemma_fundamental_div_mod_converse(
                w + b - 1,
                b,
                q + 1,
                w % b - 1,
            );
            assert(q * 2 <= w) by (nonlinear_arith)
                requires
                    w == b * q + w % b,
                    b >= 2,
                    q >= 0,
                    w % b >= 0,
            ;
        }
    }
    let n: u64 = if window % samples_per_beat == 0 {
        window / samples_per_beat
    } else {
        window / samples_per_beat + 1
    };
    let mut out: Vec<bool> = Vec::new();
    let mut i: u64 = 0;
    while i < n
        invariant
            i <= n,
            out.len() == i,
            n == beat_count(window as int, samples_per_beat as int),
            beats_per_bar > 0,
            forall|j: int| 0 <= j < out.len() ==> #[trigger] out[j] == (j % beats_per_bar as int == 0),
        decreases n - i,
    {
        out.push(i % (beats_per_bar as u64) == 0);
        i = i + 1;
    }
    out
}

/// Position `p` lies in one of `tiles`, each `period` wide.
pub open spec fn in_some_tile(tiles: Seq<Tile>, period: int, p: int) -> bool {
    exists|k: int| 0 <= k < tiles.len() && #[trigger] tiles[k].x <= p < tiles[k].x + period
}

/// The time axis is linear: positions differ by `width / window` pixels per
/// sample, time zero sits a quarter of the width left of the playhead, and
/// mapping a position back gives the time it came from.
pub proof fn lemma_time_axis_linear(map: PixelMap, t1: int, t2: int)
    ensures
        map.x_of(t1) - map.x_of(t2) == 4 * map.width * (t1 - t2),
        map.x_of(0) == -(map.width * map.window),
        map.width > 0 ==> map.time_of(map.x_of(t1)) == t1,
{
    assert(map.x_of(t1) - map.x_of(t2) == 4 * map.width * (t1 - t2)) by (nonlinear_arith);
    if map.width > 0 {
        let d = 4 * map.width as int;
        assert(map.x_of(t1) + map.width * map.window == d * t1) by (nonlinear_arith)
            requires
                map.x_of(t1) == 4 * map.width * t1 - map.width * map.window,
                d == 4 * map.width,
        ;
        vstd::arithmetic::div_mod::lemma_div_multiples_vanish(t1, d);
    }
}

/// Tiles abut: each starts one loop period after the previous one, so every
/// position from the first tile (or from zero) up to twice the width lies in
/// some tile. When the part of the window left of the playhead is no longer
/// than the time since the first period started, the first tile starts at or
/// left of zero, and the tiles cover `[0, 2 * width)` without a gap.
pub proof fn lemma_tiles_cover(map: PixelMap, length: int, now: int, tiles: Seq<Tile>)
    requires
        map.wf(),
        map.width > 0,
        length > 0,
        map.tiles_spec(length, now, tiles),
    ensures
        forall|k: int|
            0 <= k < tiles.len() - 1 ==> #[trigger] tiles[k + 1].x == tiles[k].x
                + map.period_width(length),
        forall|p: int|
            0 <= p < map.right_limit() && tiles.len() > 0 && tiles[0].x <= p
                ==> #[trigger] in_some_tile(tiles, map.period_width(length), p),
        4 * (now - tile_start_of(length, now)) >= map.window ==> tiles.len() > 0 && tiles[0].x
            <= 0,
{
    let start = tile_start_of(length, now);
    let pw = map.period_width(length);
    let lim = map.right_limit();
    let x0 = map.tile_x(length, now, start, 0);
    assert(pw > 0) by (nonlinear_arith)
        requires
            map.width > 0,
            length > 0,
            pw == 4 * map.width * length,
    ;
    assert forall|k: int| 0 <= k < tiles.len() - 1 implies #[trigger] tiles[k + 1].x == tiles[k].x
        + pw by {
        assert(tiles[k + 1].x == map.tile_x(length, now, start, k + 1));
        assert(tiles[k].x == map.tile_x(length, now, start, k));
        assert((k + 1) * pw == k * pw + pw) by (nonlinear_arith);
    }
    assert forall|p: int|
        0 <= p < lim && tiles.len() > 0 && tiles[0].x <= p implies #[trigger] in_some_tile(
            tiles,
            pw,
            p,
        ) by {
        let n = tiles.len() as int;
        {
            assert(tiles[0].x == x0);
            let k = (p - x0) / pw;
            vstd::arithmetic::div_mod::lemma_fundamental_div_mod(p - x0, pw);
            assert(0 <= k) by {
                vstd::arithmetic::div_mod::lemma_div_pos_is_pos(p - x0, pw);
            }
            assert(map.tile_x(length, now, start, k) == x0 + k * pw);
            assert(x0 + k * pw <= p < x0 + k * pw + pw) by (nonlinear_arith)
                requires
                    p - x0 == pw * k + (p - x0) % pw,
                    0 <= (p - x0) % pw < pw,
            ;
            if k >= n {
                assert(map.tile_x(length, now, start, n) == x0 + n * pw);
                assert(x0 + n * pw <= x0 + k * pw) by (nonlinear_arith)
                    requires
                        k >= n,
                        pw > 0,
                ;
                assert(false);
            }
            assert(tiles[k].x == map.tile_x(length, now, start, k));
            assert(tiles[k].x <= p < tiles[k].x + pw);
        }
    }
    if 4 * (now - start) >= map.window {
        assert(x0 <= 0) by (nonlinear_arith)
            requires
                x0 == -(4 * map.width * (now - start) - map.width * map.window) + 0 * pw,
                4 * (now - start) >= map.window,
                map.width > 0,
        ;
        if tiles.len() == 0 {
            assert(map.tile_x(length, now, start, 0) >= lim);
            assert(lim > 0) by (nonlinear_arith)
                requires
                    lim == 8 * map.width * map.window,
                    map.width > 0,
                    map.window > 0,
            ;
        }
    }
}

proof fn lemma_products_fit(width: u32, window: u64, t: int)
    requires
        -0x8000_0000_0000_0000 <= t <= 0x8000_0000_0000_0000,
    ensures
        0 <= width * window <= 0x1_0000_0000_0000_0000_0000_0000,
        -0x2_0000_0000_0000_0000_0000_0000 <= width * t <= 0x2_0000_0000_0000_0000_0000_0000,
        4 * width * t == 4 * (width * t),
{
    assert(4 * width * t == 4 * (width * t)) by (nonlinear_arith);
    assert(0 <= width * window <= 0x1_0000_0000_0000_0000_0000_0000) by (nonlinear_arith)
        requires
            0 <= width < 0x1_0000_0000,
            0 <= window < 0x1_0000_0000_0000_0000,
    ;
    assert(-0x2_0000_0000_0000_0000_0000_0000 <= width * t <= 0x2_0000_0000_0000_0000_0000_0000)
        by (nonlinear_arith)
        requires
            0 <= width < 0x1_0000_0000,
            -0x8000_0000_0000_0000 <= t <= 0x8000_0000_0000_0000,
    ;
}

/// `n` divided by `d`, rounded down.
pub(crate) fn floor_div(n: i128, d: i128) -> (r: i128)
    requires
        0 < d,
        -0x1_0000_0000_0000_0000_0000_0000_0000 <= n <= 0x1_0000_0000_0000_0000_0000_0000_0000,
    ensures
        r == n / d,
{
    if n >= 0 {
        n / d
    } else {
        let q: i128 = (-n - 1) / d;
        proof {
            lemma_floor_negative(n as int, d as int, q as int);
        }
        -q - 1
    }
}

/// `n` modulo `m`, in `[0, m)`.
pub(crate) fn floor_mod(n: i128, m: i128) -> (r: i128)
    requires
        0 < m <= 0x1_0000_0000_0000_0000_0000_0000_0000,
        -0x1_0000_0000_0000_0000_0000_0000_0000 <= n <= 0x1_0000_0000_0000_0000_0000_0000_0000,
    ensures
        r == n % m,
        0 <= r < m,
{
    if n >= 0 {
        n % m
    } else {
        let q: i128 = (-n - 1) / m;
        proof {
            lemma_floor_negative(n as int, m as int, q as int);
            vstd::arithmetic::div_mod::lemma_fundamental_div_mod(n as int, m as int);
            vstd::arithmetic::div_mod::lemma_fundamental_div_mod((-n - 1) as int, m as int);
        }
        proof {
            assert(0 <= m * q <= -n - 1) by (nonlinear_arith)
                requires
                    (-n - 1) == m * q + ((-n - 1) as int) % (m as int),
                    0 <= ((-n - 1) as int) % (m as int) < m,
                    q >= 0,
                    m > 0,
            ;
        }
        let r: i128 = n + (m * q + m);
        proof {
            let rem = ((-n - 1) as int) % (m as int);
            assert(r == m - 1 - rem) by (nonlinear_arith)
                requires
                    r == n + (m * q + m),
                    (-n - 1) == m * q + rem,
            ;
            assert(n == (-q - 1) * m + r) by (nonlinear_arith)
                requires
                    r == n + (m * q + m),
            ;
            vstd::arithmetic::div_mod::lemma_fundamental_div_mod_converse(
                n as int,
                m as int,
                -q - 1,
                r as int,
            );
            assert(r == n - m * (-q - 1)) by (nonlinear_arith)
                requires
                    r == n + (m * q + m),
            ;
        }
        r
    }
}

proof fn lemma_floor_negative(n: int, d: int, q: int)
    requires
        n < 0,
        d > 0,
        q == (-n - 1) / d,
    ensures
        n / d == -q - 1,
{
    let m = -n - 1;
    assert(m == d * q + m % d) by {
        vstd::arithmetic::div_mod::lemma_fundamental_div_mod(m, d);
    }
    assert(n == d * (-q - 1) + (d - 1 - m % d)) by (nonlinear_arith)
        requires
            m == d * q + m % d,
            n == -m - 1,
    ;
    vstd::arithmetic::div_mod::lemma_fundamental_div_mod_converse(
        n,
        d,
        -q - 1,
        d - 1 - m % d,
    );
}

} // verus!
