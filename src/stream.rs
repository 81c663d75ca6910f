//! Periodic color bursts and the planner that merges them into color steps.
use crate::bounded::{stream_list, stream_slice, streams_from_slice, StreamList};
use crate::color::{channel, normalized, Color, ColorStep};
use crate::time::{Duration, Instant};
use vstd::prelude::*;

verus! {

/// The most streams a plan can hold.
pub const MAX_STREAMS: usize = 16;

/// A frequency, in thousandths of a cycle per second.
#[derive(Clone, Copy, Debug, PartialEq, Eq, Structural)]
pub struct Hz {
    pub millihertz: u64,
}

/// Microseconds in a cycle of `millihertz`, rounded down; a frequency of zero
/// never repeats and gets the longest representable period.
pub open spec fn period_micros(millihertz: u64) -> nat {
    if millihertz == 0 {
        u64::MAX as nat
    } else {
        (1_000_000_000int / millihertz as int) as nat
    }
}

impl Hz {
    pub fn from_hertz(hertz: u32) -> (r: Hz)
        ensures
            r.millihertz == hertz * 1000,
    {
        Hz { millihertz: hertz as u64 * 1000 }
    }

    pub fn from_millihertz(millihertz: u64) -> (r: Hz)
        ensures
            r.millihertz == millihertz,
    {
        Hz { millihertz }
    }

    /// The length of one cycle.
    pub fn as_duration(self) -> (r: Duration)
        ensures
            r.micros == period_micros(self.millihertz),
    {
        if self.millihertz == 0 {
            Duration::from_micros(u64::MAX)
        } else {
            Duration::from_micros(1_000_000_000 / self.millihertz)
        }
    }
}

/// What a stream is, in microseconds: it shows `color` during
/// `[offset + k * period, offset + k * period + burst)` for every `k >= 0`,
/// and black at every other instant.
pub struct StreamModel {
    pub color: Color,
    pub period: nat,
    pub burst: nat,
    pub offset: nat,
}

impl StreamModel {
    /// A cycle lasts at least a microsecond and holds the whole burst.
    pub open spec fn wf(self) -> bool {
        self.period > 0 && self.burst <= self.period
    }

    /// How far `t` lies into its cycle; meaningful from `offset` on.
    pub open spec fn phase(self, t: int) -> int {
        (t - self.offset) % (self.period as int)
    }

    /// The color the stream shows at `t`: black before `offset`, and its
    /// color during the first `burst` microseconds of each cycle.
    pub open spec fn color_at(self, t: int) -> Color {
        if t < self.offset {
            Color::spec_black()
        } else if self.phase(t) < self.burst {
            self.color
        } else {
            Color::spec_black()
        }
    }

    /// The first instant after `t` at which the stream switches, or `offset`
    /// when `t` is absent (before time began) or lies before it.
    pub open spec fn next_change_after(self, t: Option<int>) -> int {
        match t {
            None => self.offset as int,
            Some(t) => if t < self.offset {
                self.offset as int
            } else if self.phase(t) < self.burst {
                t + self.burst - self.phase(t)
            } else {
                t + self.period - self.phase(t)
            },
        }
    }
}

/// Microseconds of an instant that may be absent.
pub open spec fn micros_of(t: Option<Instant>) -> Option<int> {
    match t {
        Some(i) => Some(i.micros as int),
        None => None,
    }
}

/// Why a stream cannot be built.
#[derive(Clone, Copy, Debug, PartialEq, Eq, Structural)]
pub enum StreamConfigError {
    /// The burst lasts longer than one period.
    BurstLongerThanPeriod,
    /// The frequency is above one megahertz, so a period is shorter than a
    /// microsecond.
    ZeroPeriod,
}

/// One periodic burst of color.
#[derive(Clone, Copy, Debug)]
pub struct StreamConfig {
    color: Color,
    frequency: Hz,
    burst_duration: Duration,
    offset: Duration,
}

impl View for StreamConfig {
    type V = StreamModel;

    closed spec fn view(&self) -> StreamModel {
        StreamModel {
            color: self.color,
            period: period_micros(self.frequency.millihertz),
            burst: self.burst_duration.micros as nat,
            offset: self.offset.micros as nat,
        }
    }
}

impl StreamConfig {
    #[verifier::type_invariant]
    spec fn inv(self) -> bool {
        self@.wf()
    }

    /// A stream of `color` bursts of `burst_duration`, one per cycle of
    /// `frequency`, starting at `offset` (at the start of time when absent).
    pub fn new(color: Color, frequency: Hz, burst_duration: Duration, offset: Option<Duration>) -> (r:
        Result<StreamConfig, StreamConfigError>)
        ensures
            burst_duration.micros > period_micros(frequency.millihertz) <==> r == Err::<
                StreamConfig,
                StreamConfigError,
            >(StreamConfigError::BurstLongerThanPeriod),
            burst_duration.micros <= period_micros(frequency.millihertz) && period_micros(
                frequency.millihertz,
            ) == 0 <==> r == Err::<StreamConfig, StreamConfigError>(
                StreamConfigError::ZeroPeriod,
            ),
            r matches Ok(s) ==> s@ == (StreamModel {
                color,
                period: period_micros(frequency.millihertz),
                burst: burst_duration.micros as nat,
                offset: match offset {
                    Some(o) => o.micros as nat,
                    None => 0,
                },
            }),
            r matches Ok(s) ==> s@.wf(),
    {
        let period = frequency.as_duration();
        if burst_duration.micros > period.micros {
            return Err(StreamConfigError::BurstLongerThanPeriod);
        }
        if period.micros == 0 {
            return Err(StreamConfigError::ZeroPeriod);
        }
        let offset = match offset {
            Some(o) => o,
            None => Duration::from_micros(0),
        };
        Ok(StreamConfig { color, frequency, burst_duration, offset })
    }

    /// The color this stream shows at `instant`.
    pub fn get_color_at_instant(&self, instant: Instant) -> (r: Color)
        ensures
            r == self@.color_at(instant.micros as int),
    {
        proof {
            use_type_invariant(self);
        }
        if instant.micros < self.get_start().micros {
            return Color::black();
        }
        let period = self.frequency.as_duration();
        if (instant.micros - self.offset.micros) % period.micros < self.burst_duration.micros {
            self.color
        } else {
            Color::black()
        }
    }

    /// The next instant at which this stream switches color.
    pub fn get_next_change_after(&self, instant: Option<Instant>) -> (r: Instant)
        requires
            self@.next_change_after(micros_of(instant)) <= u64::MAX,
        ensures
            r.micros == self@.next_change_after(micros_of(instant)),
            instant matches Some(t) ==> r.micros > t.micros,
    {
        match self.checked_next_change(instant) {
            Some(r) => r,
            None => Instant::min_value(),
        }
    }

    /// As `get_next_change_after`, with `None` where the change lies beyond
    /// the last representable instant.
    fn checked_next_change(&self, instant: Option<Instant>) -> (r: Option<Instant>)
        ensures
            self@.wf(),
            self@.next_change_after(micros_of(instant)) <= u64::MAX <==> r is Some,
            r matches Some(n) ==> n.micros == self@.next_change_after(micros_of(instant)),
            instant matches Some(t) ==> self@.next_change_after(micros_of(instant)) > t.micros,
    {
        proof {
            use_type_invariant(self);
        }
        let start = self.get_start();
        match instant {
            None => Some(start),
            Some(instant) => {
                if instant.micros < start.micros {
                    Some(start)
                } else {
                    let period = self.frequency.as_duration();
                    let phase = (instant.micros - self.offset.micros) % period.micros;
                    let step = if phase < self.burst_duration.micros {
                        self.burst_duration.micros - phase
                    } else {
                        period.micros - phase
                    };
                    if instant.micros > u64::MAX - step {
                        None
                    } else {
                        Some(Instant::from_micros(instant.micros + step))
                    }
                }
            },
        }
    }

    fn get_start(&self) -> (r: Instant)
        ensures
            r.micros == self@.offset,
    {
        Instant::from_micros(self.offset.micros)
    }
}

/// The earliest next change among `ss`, from `t`.
pub open spec fn earliest_change(ss: Seq<StreamModel>, t: Option<int>) -> int
    decreases ss.len(),
{
    if ss.len() == 0 {
        0
    } else if ss.len() == 1 {
        ss[0].next_change_after(t)
    } else {
        let a = earliest_change(ss.drop_last(), t);
        let b = ss.last().next_change_after(t);
        if a <= b {
            a
        } else {
            b
        }
    }
}

/// The sum over `ss` of channel `ch` of each stream's color at `t`.
pub open spec fn channel_sum(ss: Seq<StreamModel>, t: int, ch: int) -> int
    decreases ss.len(),
{
    if ss.len() == 0 {
        0
    } else {
        channel_sum(ss.drop_last(), t, ch) + channel(ss.last().color_at(t), ch)
    }
}

/// The color shown at `t`: the streams' colors summed per channel, scaled
/// down where a sum exceeds a byte.
pub open spec fn mixed_color(ss: Seq<StreamModel>, t: int) -> Color {
    normalized(channel_sum(ss, t, 0), channel_sum(ss, t, 1), channel_sum(ss, t, 2))
}

/// Ticks in `span` microseconds, kept to 32 bits, less the fixed overhead of
/// a step, and no less than zero.
pub open spec fn tick_delay(span: int, micros_per_tick: int, tick_overhead: int) -> u32 {
    let ticks = (span / micros_per_tick) % 0x1_0000_0000;
    if ticks > tick_overhead {
        (ticks - tick_overhead) as u32
    } else {
        0
    }
}

/// The instant at which colors are evaluated: `t`, or the start of time when
/// it is absent.
pub open spec fn eval_time(t: Option<int>) -> int {
    match t {
        Some(t) => t,
        None => 0,
    }
}

/// A plan: the streams and the tick grid of the waveform engine.
pub struct PlanModel {
    pub streams: Seq<StreamModel>,
    pub micros_per_tick: int,
    pub tick_overhead: int,
}

impl PlanModel {
    pub open spec fn wf(self) -> bool {
        &&& 1 <= self.streams.len() <= MAX_STREAMS
        &&& self.micros_per_tick > 0
        &&& self.tick_overhead >= 0
        &&& forall|i: int| 0 <= i < self.streams.len() ==> #[trigger] self.streams[i].wf()
    }

    /// The step that the planner emits when its clock stands at `t`.
    pub open spec fn step_from(self, t: Option<int>) -> ColorStep {
        let e = eval_time(t);
        ColorStep {
            color: mixed_color(self.streams, e),
            delay: tick_delay(
                earliest_change(self.streams, t) - e,
                self.micros_per_tick,
                self.tick_overhead,
            ),
        }
    }
}

/// Why a plan cannot be built.
#[derive(Clone, Copy, Debug, PartialEq, Eq, Structural)]
pub enum ConfigError {
    /// There is no stream, so there is no next change.
    NoStreams,
    /// There are more streams than a plan holds.
    TooManyStreams,
    /// A tick must last at least one microsecond.
    NonPositiveTickLength,
    /// The per-step overhead cannot be negative.
    NegativeTickOverhead,
}

/// The streams to merge, with the tick length and the per-step tick overhead
/// of the waveform engine.
pub struct Config {
    streams: StreamList,
    micros_per_tick: i32,
    tick_overhead: i32,
}

pub open spec fn stream_models(ss: Seq<StreamConfig>) -> Seq<StreamModel> {
    ss.map_values(|s: StreamConfig| s@)
}

impl View for Config {
    type V = PlanModel;

    closed spec fn view(&self) -> PlanModel {
        PlanModel {
            streams: stream_models(stream_list(self.streams)),
            micros_per_tick: self.micros_per_tick as int,
            tick_overhead: self.tick_overhead as int,
        }
    }
}

impl Config {
    #[verifier::type_invariant]
    spec fn inv(self) -> bool {
        &&& 1 <= stream_list(self.streams).len() <= MAX_STREAMS
        &&& self.micros_per_tick > 0
        &&& self.tick_overhead >= 0
    }

    /// A plan of `streams`, for an engine whose ticks last `micros_per_tick`
    /// microseconds and which spends `tick_overhead` ticks on each step.
    pub fn new(streams: &[StreamConfig], micros_per_tick: i32, tick_overhead: i32) -> (r: Result<
        Config,
        ConfigError,
    >)
        ensures
            streams@.len() == 0 <==> r == Err::<Config, ConfigError>(ConfigError::NoStreams),
            streams@.len() > MAX_STREAMS <==> r == Err::<Config, ConfigError>(
                ConfigError::TooManyStreams,
            ),
            1 <= streams@.len() <= MAX_STREAMS && micros_per_tick <= 0 <==> r == Err::<
                Config,
                ConfigError,
            >(ConfigError::NonPositiveTickLength),
            1 <= streams@.len() <= MAX_STREAMS && micros_per_tick > 0 && tick_overhead < 0 <==> r
                == Err::<Config, ConfigError>(ConfigError::NegativeTickOverhead),
            r matches Ok(c) ==> c@ == (PlanModel {
                streams: stream_models(streams@),
                micros_per_tick: micros_per_tick as int,
                tick_overhead: tick_overhead as int,
            }),
    {
        if streams.len() == 0 {
            return Err(ConfigError::NoStreams);
        }
        let list = match streams_from_slice(streams) {
            Ok(list) => list,
            Err(_) => {
                return Err(ConfigError::TooManyStreams);
            },
        };
        if micros_per_tick <= 0 {
            return Err(ConfigError::NonPositiveTickLength);
        }
        if tick_overhead < 0 {
            return Err(ConfigError::NegativeTickOverhead);
        }
        Ok(Config { streams: list, micros_per_tick, tick_overhead })
    }

    /// The planner that walks this plan from the start of time.
    pub fn into_iter(self) -> (r: ColorStepIterator)
        ensures
            r@.plan == self@,
            r@.current_time is None,
    {
        ColorStepIterator::new(self)
    }
}

/// Where a planner stands: its plan, and the instant of the last change it
/// has reached (absent before the first step).
pub struct PlannerModel {
    pub plan: PlanModel,
    pub current_time: Option<int>,
}

/// Merges the streams of a plan into an endless sequence of color steps.
pub struct ColorStepIterator {
    config: Config,
    current_time: Option<Instant>,
}

impl View for ColorStepIterator {
    type V = PlannerModel;

    closed spec fn view(&self) -> PlannerModel {
        PlannerModel { plan: self.config@, current_time: micros_of(self.current_time) }
    }
}

proof fn lemma_earliest_take(ss: Seq<StreamModel>, t: Option<int>, i: int)
    requires
        0 <= i < ss.len(),
    ensures
        earliest_change(ss.take(i + 1), t) == if i == 0 {
            ss[0].next_change_after(t)
        } else {
            let a = earliest_change(ss.take(i), t);
            let b = ss[i].next_change_after(t);
            if a <= b {
                a
            } else {
                b
            }
        },
{
    assert(ss.take(i + 1).drop_last() =~= ss.take(i));
}

proof fn lemma_channel_sum_take(ss: Seq<StreamModel>, t: int, ch: int, i: int)
    requires
        0 <= i < ss.len(),
    ensures
        channel_sum(ss.take(i + 1), t, ch) == channel_sum(ss.take(i), t, ch) + channel(
            ss[i].color_at(t),
            ch,
        ),
{
    assert(ss.take(i + 1).drop_last() =~= ss.take(i));
}

impl ColorStepIterator {
    pub fn new(config: Config) -> (r: ColorStepIterator)
        ensures
            r@.plan == config@,
            r@.current_time is None,
    {
        ColorStepIterator { config, current_time: None }
    }

    /// The instant of the last change reached; `None` before the first step.
    pub fn current_time(&self) -> (r: Option<Instant>)
        ensures
            micros_of(r) == self@.current_time,
    {
        self.current_time
    }

    /// The earliest next change among the streams, from `instant`; `None`
    /// where it lies beyond the last representable instant.
    fn get_next_time_after(&self, instant: Option<Instant>) -> (r: Option<Instant>)
        ensures
            earliest_change(self@.plan.streams, micros_of(instant)) <= u64::MAX <==> r is Some,
            r matches Some(n) ==> n.micros == earliest_change(
                self@.plan.streams,
                micros_of(instant),
            ),
            instant matches Some(t) ==> earliest_change(self@.plan.streams, micros_of(instant))
                > t.micros,
    {
        proof {
            use_type_invariant(&self.config);
        }
        let streams = stream_slice(&self.config.streams);
        let ghost ss = self@.plan.streams;
        let ghost t = micros_of(instant);
        assert(ss.len() == streams@.len());
        let mut best: Option<u64> = None;
        let mut i: usize = 0;
        while i < streams.len()
            invariant
                0 <= i <= streams@.len(),
                streams@.len() == ss.len(),
                ss == stream_models(streams@),
                t == micros_of(instant),
                i == 0 ==> best is None,
                i > 0 ==> (best is Some <==> earliest_change(ss.take(i as int), t) <= u64::MAX),
                i > 0 ==> (best matches Some(v) ==> v == earliest_change(ss.take(i as int), t)),
                i > 0 ==> (instant matches Some(tt) ==> earliest_change(ss.take(i as int), t)
                    > tt.micros),
            decreases streams@.len() - i,
        {
            let s = &streams[i];
            let change = s.checked_next_change(instant);
            proof {
                lemma_earliest_take(ss, t, i as int);
                assert(ss[i as int] == s@);
            }
            best = match (best, change) {
                (Some(v), Some(n)) => if n.micros < v {
                    Some(n.micros)
                } else {
                    Some(v)
                },
                (Some(v), None) => Some(v),
                (None, Some(n)) => Some(n.micros),
                (None, None) => None,
            };
            i = i + 1;
        }
        proof {
            assert(ss.take(ss.len() as int) =~= ss);
        }
        match best {
            Some(v) => Some(Instant::from_micros(v)),
            None => None,
        }
    }

    /// The color shown at `instant`, mixed from all streams.
    fn color_at(&self, instant: Instant) -> (r: Color)
        ensures
            r == mixed_color(self@.plan.streams, instant.micros as int),
    {
        proof {
            use_type_invariant(&self.config);
        }
        let streams = stream_slice(&self.config.streams);
        let ghost ss = self@.plan.streams;
        let ghost t = instant.micros as int;
        let mut r: u32 = 0;
        let mut g: u32 = 0;
        let mut b: u32 = 0;
        let mut i: usize = 0;
        while i < streams.len()
            invariant
                0 <= i <= streams@.len(),
                streams@.len() == ss.len(),
                streams@.len() <= MAX_STREAMS,
                ss == stream_models(streams@),
                t == instant.micros as int,
                r == channel_sum(ss.take(i as int), t, 0),
                g == channel_sum(ss.take(i as int), t, 1),
                b == channel_sum(ss.take(i as int), t, 2),
                r <= 255 * i,
                g <= 255 * i,
                b <= 255 * i,
            decreases streams@.len() - i,
        {
            let s = &streams[i];
            let c = s.get_color_at_instant(instant);
            proof {

                lemma_channel_sum_take(ss, t, 0, i as int);
                lemma_channel_sum_take(ss, t, 1, i as int);
                lemma_channel_sum_take(ss, t, 2, i as int);
                assert(ss[i as int] == streams@[i as int]@);
            }
            r = r + c.0 as u32;
            g = g + c.1 as u32;
            b = b + c.2 as u32;
            i = i + 1;
        }
        proof {
            assert(ss.take(ss.len() as int) =~= ss);
        }
        Color::from_channel_sums(r, g, b)
    }

    /// The next color step: the color from the current instant up to the
    /// next change, and how many ticks to hold it. `None` once the next
    /// change lies beyond the last representable instant.
    pub fn next(&mut self) -> (r: Option<ColorStep>)
        ensures
            ({
                let m = old(self)@;
                let n = earliest_change(m.plan.streams, m.current_time);
                &&& n <= u64::MAX ==> r == Some(m.plan.step_from(m.current_time))
                &&& n <= u64::MAX ==> final(self)@ == (PlannerModel {
                    plan: m.plan,
                    current_time: Some(n),
                })
                &&& n > u64::MAX ==> r is None && final(self)@ == m
                &&& m.current_time matches Some(t) ==> n > t
            }),
    {
        proof {
            use_type_invariant(&self.config);
        }
        let next_time = match self.get_next_time_after(self.current_time) {
            Some(n) => n,
            None => {
                return None;
            },
        };
        let current_time = match self.current_time {
            Some(t) => t,
            None => Instant::min_value(),
        };
        let color = self.color_at(current_time);
        let diff = next_time.micros - current_time.micros;
        let ticks = diff / (self.config.micros_per_tick as u64) % 0x1_0000_0000;
        let delay = (ticks as u32).saturating_sub(self.config.tick_overhead as u32);
        self.current_time = Some(next_time);
        Some(ColorStep { color, delay })
    }
}

/// Moving `d` further into a cycle, without reaching its end, moves the phase
/// by `d`.
proof fn lemma_phase_shift(s: StreamModel, t: int, d: int)
    requires
        s.wf(),
        t >= s.offset,
        0 <= s.phase(t) + d < s.period,
    ensures
        s.phase(t + d) == s.phase(t) + d,
{
    let p = s.period as int;
    let x = t - s.offset;
    vstd::arithmetic::div_mod::lemma_fundamental_div_mod(x, p);
    vstd::arithmetic::div_mod::lemma_mod_multiples_vanish(x / p, x % p + d, p);
    vstd::arithmetic::div_mod::lemma_small_mod((x % p + d) as nat, p as nat);
    assert(t + d - s.offset == p * (x / p) + (x % p + d));
}

/// Every cycle starts with the stream's color, and the color ends exactly one
/// burst later (where the burst is shorter than the period).
pub proof fn lemma_alignment(s: StreamModel, k: nat)
    requires
        s.wf(),
    ensures
        s.burst > 0 ==> s.color_at((s.offset + k * s.period) as int) == s.color,
        s.burst < s.period ==> s.color_at((s.offset + k * s.period + s.burst) as int)
            == Color::spec_black(),
{
    let p = s.period as int;
    let t = s.offset + k * p;
    vstd::arithmetic::div_mod::lemma_mod_multiples_basic(k as int, p);
    assert(t - s.offset == k * p);
    assert(s.phase(t) == 0);
    assert(k * p >= 0) by (nonlinear_arith)
        requires
            p > 0,
    ;
    if s.burst < s.period {
        lemma_phase_shift(s, t, s.burst as int);
    }
}

/// From any instant, the stream keeps its color up to the next change.
pub proof fn lemma_constant_until_next_change(s: StreamModel, t: int, u: int)
    requires
        s.wf(),
        t <= u < s.next_change_after(Some(t)),
    ensures
        s.color_at(u) == s.color_at(t),
        s.next_change_after(Some(t)) > t,
{
    if t >= s.offset {
        lemma_phase_shift(s, t, u - t);
    }
}

/// The next change is a real edge: where the stream has a color other than
/// black and a burst strictly inside its period, the color at the next change
/// differs from the color at `t`.
pub proof fn lemma_next_change_is_edge(s: StreamModel, t: int)
    requires
        s.wf(),
        s.color != Color::spec_black(),
        0 < s.burst < s.period,
    ensures
        s.color_at(s.next_change_after(Some(t))) != s.color_at(t),
{
    let p = s.period as int;
    if t < s.offset {
        assert(s.phase(s.offset as int) == 0) by {
            vstd::arithmetic::div_mod::lemma_small_mod(0, p as nat);
        }
    } else if s.phase(t) < s.burst {
        lemma_phase_shift(s, t, s.burst - s.phase(t));
    } else {
        let n = t + p - s.phase(t);
        let x = t - s.offset;
        vstd::arithmetic::div_mod::lemma_fundamental_div_mod(x, p);
        assert(n - s.offset == (x / p + 1) * p) by (nonlinear_arith)
            requires
                n == t + p - x % p,
                x == t - s.offset,
                x == p * (x / p) + x % p,
        ;
        vstd::arithmetic::div_mod::lemma_mod_multiples_basic(x / p + 1, p);
    }
}

/// A well-formed stream's next change from `t` lies strictly after `t`.
proof fn lemma_change_is_later(s: StreamModel, t: int)
    requires
        s.wf(),
    ensures
        s.next_change_after(Some(t)) > t,
{
    if t >= s.offset {
        vstd::arithmetic::div_mod::lemma_mod_bound(t - s.offset, s.period as int);
    }
}

/// The earliest change is the minimum of the streams' next changes: no stream
/// changes before it, and one changes at it.
pub proof fn lemma_earliest_is_min(ss: Seq<StreamModel>, t: Option<int>)
    requires
        ss.len() > 0,
    ensures
        forall|i: int|
            0 <= i < ss.len() ==> earliest_change(ss, t) <= #[trigger] ss[i].next_change_after(t),
        exists|i: int|
            0 <= i < ss.len() && earliest_change(ss, t) == #[trigger] ss[i].next_change_after(t),
    decreases ss.len(),
{
    if ss.len() == 1 {
        assert(earliest_change(ss, t) == ss[0].next_change_after(t));
    } else {
        let init = ss.drop_last();
        lemma_earliest_is_min(init, t);
        assert forall|i: int| 0 <= i < ss.len() implies earliest_change(ss, t)
            <= #[trigger] ss[i].next_change_after(t) by {
            if i < ss.len() - 1 {
                assert(init[i] == ss[i]);
            }
        }
        let b = ss.last().next_change_after(t);
        if earliest_change(init, t) <= b {
            let k = choose|k: int|
                0 <= k < init.len() && earliest_change(init, t) == #[trigger] init[k].next_change_after(t);
            assert(ss[k] == init[k]);
        } else {
            assert(earliest_change(ss, t) == ss[ss.len() - 1].next_change_after(t));
        }
    }
}

/// The planner's clock only moves forward: from any instant, the earliest next
/// change of well-formed streams lies strictly after it.
pub proof fn lemma_next_time_advances(ss: Seq<StreamModel>, t: int)
    requires
        ss.len() > 0,
        forall|i: int| 0 <= i < ss.len() ==> #[trigger] ss[i].wf(),
    ensures
        earliest_change(ss, Some(t)) > t,
{
    lemma_earliest_is_min(ss, Some(t));
    let k = choose|k: int|
        0 <= k < ss.len() && earliest_change(ss, Some(t)) == #[trigger] ss[k].next_change_after(
            Some(t),
        );
    lemma_change_is_later(ss[k], t);
}

/// Whether the step from `t` spans a tick count that is at least the
/// per-step overhead and fits in 32 bits, so that its delay is neither
/// clamped nor cut.
pub open spec fn delay_is_exact(m: PlanModel, t: Option<int>) -> bool {
    let ticks = (earliest_change(m.streams, t) - eval_time(t)) / m.micros_per_tick;
    m.tick_overhead <= ticks < 0x1_0000_0000
}

/// A step's delay plus the per-step overhead, in microseconds, covers the
/// time up to the next change to within one tick, wherever the delay is
/// neither clamped at zero nor cut to 32 bits.
pub proof fn lemma_delay_accounting(m: PlanModel, t: Option<int>)
    requires
        m.wf(),
        delay_is_exact(m, t),
    ensures
        ({
            let span = earliest_change(m.streams, t) - eval_time(t);
            let held = (m.step_from(t).delay + m.tick_overhead) * m.micros_per_tick;
            held <= span < held + m.micros_per_tick
        }),
{
    let span = earliest_change(m.streams, t) - eval_time(t);
    let mpt = m.micros_per_tick;
    let ticks = span / mpt;
    vstd::arithmetic::div_mod::lemma_small_mod(
        ticks as nat,
        0x1_0000_0000nat,
    );
    assert(m.step_from(t).delay + m.tick_overhead == ticks);
    vstd::arithmetic::div_mod::lemma_fundamental_div_mod(span, mpt);
    vstd::arithmetic::div_mod::lemma_mod_pos_bound(span, mpt);
    assert(ticks * mpt == mpt * ticks) by (nonlinear_arith);
}

/// Over two consecutive steps, the delays plus the per-step overhead cover
/// the time from the first step to the change after the second to within two
/// ticks, one for each step, wherever neither delay is clamped nor cut.
pub proof fn lemma_delay_accounting_two_steps(m: PlanModel, t: Option<int>)
    requires
        m.wf(),
        delay_is_exact(m, t),
        delay_is_exact(m, Some(earliest_change(m.streams, t))),
    ensures
        ({
            let n1 = earliest_change(m.streams, t);
            let n2 = earliest_change(m.streams, Some(n1));
            let held = (m.step_from(t).delay + m.tick_overhead) * m.micros_per_tick + (m.step_from(
                Some(n1),
            ).delay + m.tick_overhead) * m.micros_per_tick;
            held <= n2 - eval_time(t) < held + 2 * m.micros_per_tick
        }),
{
    lemma_delay_accounting(m, t);
    lemma_delay_accounting(m, Some(earliest_change(m.streams, t)));
}

} // verus!
