//! The decisions of the driver loop: when to (re)connect, sample, send and
//! wait, and what packet goes out. The caller performs each action (HID I/O,
//! sensor reads, sleeping) and reports what happened as the next event.
use crate::monitor::HardwareMetrics;
use crate::protocol::SegotepPacket;
use vstd::prelude::*;

verus! {

/// Wait before the next connection attempt after one failed (2 s).
pub const RECONNECT_DELAY_MS: u64 = 2000;

/// Shortest update interval the driver uses (100 ms).
pub const MIN_TICK_MS: u64 = 100;

/// Update interval when none is given (1000 ms).
pub const DEFAULT_INTERVAL_MS: u64 = 1000;

/// The update interval actually used for a requested one: never below 100 ms.
pub open spec fn spec_tick_interval_ms(interval_ms: u64) -> u64 {
    if interval_ms < MIN_TICK_MS { MIN_TICK_MS } else { interval_ms }
}

/// The update interval actually used for a requested one: never below 100 ms.
pub fn tick_interval_ms(interval_ms: u64) -> (t: u64)
    ensures
        t == spec_tick_interval_ms(interval_ms),
{
    if interval_ms < MIN_TICK_MS {
        MIN_TICK_MS
    } else {
        interval_ms
    }
}

/// The packet that shows `m` on a display of model `model_id`.
pub open spec fn spec_metrics_packet(
    model_id: u8,
    screen_on: bool,
    fahrenheit: bool,
    m: HardwareMetrics,
) -> SegotepPacket {
    SegotepPacket {
        model_id,
        screen_on,
        cpu_temp: m.cpu_temp,
        cpu_load: m.cpu_load,
        cpu_power_watts: m.cpu_power_watts,
        cpu_clock_mhz: m.cpu_clock_mhz,
        gpu_temp: m.gpu_temp,
        gpu_load: m.gpu_load,
        gpu_power_watts: m.gpu_power_watts,
        gpu_clock_mhz: m.gpu_clock_mhz,
        is_fahrenheit: fahrenheit,
    }
}

/// The packet that shows `m` on a display of model `model_id`.
pub fn metrics_packet(model_id: u8, screen_on: bool, fahrenheit: bool, m: &HardwareMetrics) -> (p:
    SegotepPacket)
    ensures
        p == spec_metrics_packet(model_id, screen_on, fahrenheit, *m),
{
    SegotepPacket {
        model_id,
        screen_on,
        cpu_temp: m.cpu_temp,
        cpu_load: m.cpu_load,
        cpu_power_watts: m.cpu_power_watts,
        cpu_clock_mhz: m.cpu_clock_mhz,
        gpu_temp: m.gpu_temp,
        gpu_load: m.gpu_load,
        gpu_power_watts: m.gpu_power_watts,
        gpu_clock_mhz: m.gpu_clock_mhz,
        is_fahrenheit: fahrenheit,
    }
}

/// The packet that blanks the display: screen off, all values 0.
pub open spec fn spec_blank_packet(model_id: u8, fahrenheit: bool) -> SegotepPacket {
    SegotepPacket {
        model_id,
        screen_on: false,
        cpu_temp: 0,
        cpu_load: 0,
        cpu_power_watts: 0,
        cpu_clock_mhz: 0,
        gpu_temp: 0,
        gpu_load: 0,
        gpu_power_watts: 0,
        gpu_clock_mhz: 0,
        is_fahrenheit: fahrenheit,
    }
}

/// The packet that blanks the display: screen off, all values 0.
pub fn blank_packet(model_id: u8, fahrenheit: bool) -> (p: SegotepPacket)
    ensures
        p == spec_blank_packet(model_id, fahrenheit),
{
    SegotepPacket {
        model_id,
        screen_on: false,
        cpu_temp: 0,
        cpu_load: 0,
        cpu_power_watts: 0,
        cpu_clock_mhz: 0,
        gpu_temp: 0,
        gpu_load: 0,
        gpu_power_watts: 0,
        gpu_clock_mhz: 0,
        is_fahrenheit: fahrenheit,
    }
}

/// How the driver loop behaves.
#[derive(Debug, Clone, Copy, PartialEq, Eq, Structural)]
pub struct LoopConfig {
    /// Wait between two updates, in milliseconds.
    pub tick_ms: u64,
    /// Model id written into metrics packets.
    pub model_id: u8,
    /// Whether the display shows Fahrenheit.
    pub fahrenheit: bool,
    /// Send one screen-off packet and stop (interactive `--screen-off`).
    pub screen_off: bool,
    /// When stopping, blank the display before exiting (the Windows service).
    pub blank_on_stop: bool,
}

/// Where the loop stands, waiting for the outcome of its last action.
#[derive(Debug, Clone, Copy, PartialEq, Eq, Structural)]
pub enum Phase {
    /// At the top of the loop: waiting for the running flag.
    Idle,
    /// Waiting for the outcome of a connection attempt.
    Connecting,
    /// Waiting for telemetry (or a ready packet).
    Sampling,
    /// Waiting for the outcome of a write.
    Sending,
    /// Waiting for the outcome of the final blanking write.
    Blanking,
    /// Stopped.
    Done,
}

/// What the caller reports back.
#[derive(Debug, Clone, PartialEq, Eq, Structural)]
pub enum LoopEvent {
    /// The running flag was read.
    Running(bool),
    /// A connection attempt succeeded (`true`) or failed.
    Connected(bool),
    /// Telemetry was sampled.
    Sampled(HardwareMetrics),
    /// The caller prepared the packet to send itself.
    Prepared(SegotepPacket),
    /// A write succeeded (`true`) or failed.
    Sent(bool),
}

/// What the caller should do next.
#[derive(Debug, Clone, PartialEq, Eq, Structural)]
pub enum LoopAction {
    /// Read the running flag and report `Running`.
    CheckRunning,
    /// Open the device if it is not open yet and report `Connected`.
    Connect,
    /// Sleep this many milliseconds, then report `Running`.
    Sleep(u64),
    /// Sample telemetry and report `Sampled` (or `Prepared`). `newly_connected`
    /// is set on the first tick after the device (re)connected.
    Sample { newly_connected: bool },
    /// Write this packet to the device and report `Sent`.
    Send(SegotepPacket),
    /// Stop.
    Exit,
}

/// The driver loop's state.
#[derive(Debug, Clone, Copy, PartialEq, Eq, Structural)]
pub struct DriverLoop {
    pub config: LoopConfig,
    pub phase: Phase,
    /// Whether the last connection attempt and write both succeeded.
    pub connected: bool,
}

/// Whether `e` is the event that the state `s` waits for.
pub open spec fn spec_accepts(s: DriverLoop, e: LoopEvent) -> bool {
    match s.phase {
        Phase::Idle => e is Running,
        Phase::Connecting => e is Connected,
        Phase::Sampling => e is Sampled || e is Prepared,
        Phase::Sending => e is Sent,
        Phase::Blanking => e is Sent,
        Phase::Done => true,
    }
}

/// One transition of the driver loop: the next state and the action to perform.
pub open spec fn spec_step(s: DriverLoop, e: LoopEvent) -> (DriverLoop, LoopAction) {
    match (s.phase, e) {
        (Phase::Idle, LoopEvent::Running(true)) => (
            DriverLoop { phase: Phase::Connecting, ..s },
            LoopAction::Connect,
        ),
        (Phase::Idle, LoopEvent::Running(false)) => if s.config.blank_on_stop {
            (
                DriverLoop { phase: Phase::Blanking, ..s },
                LoopAction::Send(spec_blank_packet(s.config.model_id, s.config.fahrenheit)),
            )
        } else {
            (DriverLoop { phase: Phase::Done, ..s }, LoopAction::Exit)
        },
        (Phase::Connecting, LoopEvent::Connected(false)) => (
            DriverLoop { phase: Phase::Idle, connected: false, ..s },
            LoopAction::Sleep(RECONNECT_DELAY_MS),
        ),
        (Phase::Connecting, LoopEvent::Connected(true)) => (
            DriverLoop { phase: Phase::Sampling, connected: true, ..s },
            LoopAction::Sample { newly_connected: !s.connected },
        ),
        (Phase::Sampling, LoopEvent::Sampled(m)) => (
            DriverLoop { phase: Phase::Sending, ..s },
            LoopAction::Send(
                spec_metrics_packet(s.config.model_id, !s.config.screen_off, s.config.fahrenheit, m),
            ),
        ),
        (Phase::Sampling, LoopEvent::Prepared(p)) => (
            DriverLoop { phase: Phase::Sending, ..s },
            LoopAction::Send(p),
        ),
        (Phase::Sending, LoopEvent::Sent(ok)) => if s.config.screen_off {
            (DriverLoop { phase: Phase::Done, connected: s.connected && ok, ..s }, LoopAction::Exit)
        } else {
            (
                DriverLoop { phase: Phase::Idle, connected: s.connected && ok, ..s },
                LoopAction::Sleep(s.config.tick_ms),
            )
        },
        (Phase::Blanking, LoopEvent::Sent(_)) => (
            DriverLoop { phase: Phase::Done, ..s },
            LoopAction::Exit,
        ),
        _ => (DriverLoop { phase: Phase::Done, ..s }, LoopAction::Exit),
    }
}

/// The state invariant: the loop only samples or sends metrics while the
/// device is connected.
pub open spec fn spec_inv(s: DriverLoop) -> bool {
    (s.phase is Sampling || s.phase is Sending) ==> s.connected
}

impl DriverLoop {
    /// A loop that has not yet checked its running flag and has no device.
    pub fn new(config: LoopConfig) -> (s: Self)
        ensures
            s.config == config,
            s.phase is Idle,
            !s.connected,
            spec_inv(s),
    {
        DriverLoop { config, phase: Phase::Idle, connected: false }
    }

    /// The first action: read the running flag.
    pub fn start(&self) -> (a: LoopAction)
        ensures
            a is CheckRunning,
    {
        LoopAction::CheckRunning
    }

    /// Whether `e` is the event this state waits for.
    pub fn accepts(&self, e: &LoopEvent) -> (b: bool)
        ensures
            b == spec_accepts(*self, *e),
    {
        match self.phase {
            Phase::Idle => matches!(e, LoopEvent::Running(_)),
            Phase::Connecting => matches!(e, LoopEvent::Connected(_)),
            Phase::Sampling => matches!(e, LoopEvent::Sampled(_)) || matches!(e, LoopEvent::Prepared(_)),
            Phase::Sending => matches!(e, LoopEvent::Sent(_)),
            Phase::Blanking => matches!(e, LoopEvent::Sent(_)),
            Phase::Done => true,
        }
    }

    /// Advances the loop by the outcome `e` of the last action and returns the
    /// next action. An event the state does not wait for stops the loop.
    pub fn step(&mut self, e: LoopEvent) -> (a: LoopAction)
        ensures
            (*final(self), a) == spec_step(*old(self), e),
    {
        match (self.phase, e) {
            (Phase::Idle, LoopEvent::Running(true)) => {
                self.phase = Phase::Connecting;
                LoopAction::Connect
            },
            (Phase::Idle, LoopEvent::Running(false)) => {
                if self.config.blank_on_stop {
                    self.phase = Phase::Blanking;
                    LoopAction::Send(blank_packet(self.config.model_id, self.config.fahrenheit))
                } else {
                    self.phase = Phase::Done;
                    LoopAction::Exit
                }
            },
            (Phase::Connecting, LoopEvent::Connected(false)) => {
                self.phase = Phase::Idle;
                self.connected = false;
                LoopAction::Sleep(RECONNECT_DELAY_MS)
            },
            (Phase::Connecting, LoopEvent::Connected(true)) => {
                let newly_connected = !self.connected;
                self.phase = Phase::Sampling;
                self.connected = true;
                LoopAction::Sample { newly_connected }
            },
            (Phase::Sampling, LoopEvent::Sampled(m)) => {
                self.phase = Phase::Sending;
                LoopAction::Send(
                    metrics_packet(
                        self.config.model_id,
                        !self.config.screen_off,
                        self.config.fahrenheit,
                        &m,
                    ),
                )
            },
            (Phase::Sampling, LoopEvent::Prepared(p)) => {
                self.phase = Phase::Sending;
                LoopAction::Send(p)
            },
            (Phase::Sending, LoopEvent::Sent(ok)) => {
                self.connected = self.connected && ok;
                if self.config.screen_off {
                    self.phase = Phase::Done;
                    LoopAction::Exit
                } else {
                    self.phase = Phase::Idle;
                    LoopAction::Sleep(self.config.tick_ms)
                }
            },
            (Phase::Blanking, LoopEvent::Sent(_)) => {
                self.phase = Phase::Done;
                LoopAction::Exit
            },
            _ => {
                self.phase = Phase::Done;
                LoopAction::Exit
            },
        }
    }
}

/// Every transition keeps the invariant: no metrics are sampled or sent
/// unless the last connection attempt succeeded.
pub proof fn lemma_step_keeps_inv(s: DriverLoop, e: LoopEvent)
    requires
        spec_inv(s),
    ensures
        spec_inv(spec_step(s, e).0),
{
}

/// A packet goes out only after a successful connection in the same tick, or
/// as the final blanking packet when a service stops.
pub proof fn lemma_send_needs_connection(s: DriverLoop, e: LoopEvent)
    requires
        spec_inv(s),
        spec_step(s, e).1 is Send,
    ensures
        s.connected || (s.phase is Idle && s.config.blank_on_stop && e == LoopEvent::Running(false)),
{
}

/// Every metrics packet carries the configured model id and unit, and has its
/// screen on unless the loop runs in screen-off mode.
pub proof fn lemma_metrics_packet_config(s: DriverLoop, m: HardwareMetrics)
    requires
        s.phase is Sampling,
    ensures
        spec_step(s, LoopEvent::Sampled(m)).1 == LoopAction::Send(
            spec_metrics_packet(s.config.model_id, !s.config.screen_off, s.config.fahrenheit, m),
        ),
{
}

/// In screen-off mode the loop stops right after its first write, whether or
/// not that write succeeded.
pub proof fn lemma_screen_off_stops_after_send(s: DriverLoop, ok: bool)
    requires
        s.phase is Sending,
        s.config.screen_off,
    ensures
        spec_step(s, LoopEvent::Sent(ok)).0.phase is Done,
        spec_step(s, LoopEvent::Sent(ok)).1 is Exit,
{
}

/// A service that is told to stop sends exactly one blanking packet and then
/// exits.
pub proof fn lemma_stop_blanks_display(s: DriverLoop, ok: bool)
    requires
        s.phase is Idle,
        s.config.blank_on_stop,
    ensures
        ({
            let (s1, a1) = spec_step(s, LoopEvent::Running(false));
            &&& a1 == LoopAction::Send(spec_blank_packet(s.config.model_id, s.config.fahrenheit))
            &&& spec_step(s1, LoopEvent::Sent(ok)).1 is Exit
            &&& spec_step(s1, LoopEvent::Sent(ok)).0.phase is Done
        }),
{
}

/// The loop only ever waits the reconnect delay or its tick interval.
pub proof fn lemma_sleep_durations(s: DriverLoop, e: LoopEvent)
    ensures
        spec_step(s, e).1 matches LoopAction::Sleep(ms) ==> ms == RECONNECT_DELAY_MS || ms
            == s.config.tick_ms,
{
}

/// Once stopped, the loop stays stopped.
pub proof fn lemma_done_is_final(s: DriverLoop, e: LoopEvent)
    requires
        s.phase is Done,
    ensures
        spec_step(s, e).0.phase is Done,
        spec_step(s, e).1 is Exit,
{
}

/// The tick interval is never below 100 ms and otherwise is the requested one.
pub proof fn lemma_tick_interval(interval_ms: u64)
    ensures
        spec_tick_interval_ms(interval_ms) >= MIN_TICK_MS,
        interval_ms >= MIN_TICK_MS ==> spec_tick_interval_ms(interval_ms) == interval_ms,
{
}

/// The state and the actions after feeding `events` to the loop from `s`, in
/// order.
pub open spec fn drive(s: DriverLoop, events: Seq<LoopEvent>) -> (DriverLoop, Seq<LoopAction>)
    decreases events.len(),
{
    if events.len() == 0 {
        (s, Seq::empty())
    } else {
        let (s1, a) = spec_step(s, events[0]);
        let (sn, rest) = drive(s1, events.drop_first());
        (sn, seq![a] + rest)
    }
}

/// The packet that a sample event yields: the metrics packet for sampled
/// metrics, the packet itself for a prepared one; none for other events.
pub open spec fn sample_packet(config: LoopConfig, e: LoopEvent) -> Option<SegotepPacket> {
    match e {
        LoopEvent::Sampled(m) => Some(
            spec_metrics_packet(config.model_id, !config.screen_off, config.fahrenheit, m),
        ),
        LoopEvent::Prepared(p) => Some(p),
        _ => None,
    }
}

/// The events of one pass of the loop while the running flag reads true: a
/// failed connection attempt (`None`), or a connection, the sample event `e`
/// and whether its write succeeded (`Some((e, ok))`).
pub open spec fn pass_events(pass: Option<(LoopEvent, bool)>) -> Seq<LoopEvent> {
    match pass {
        None => seq![LoopEvent::Running(true), LoopEvent::Connected(false)],
        Some((e, ok)) => seq![
            LoopEvent::Running(true),
            LoopEvent::Connected(true),
            e,
            LoopEvent::Sent(ok),
        ],
    }
}

/// Whether the device counts as connected after a pass.
pub open spec fn connected_after(pass: Option<(LoopEvent, bool)>) -> bool {
    match pass {
        None => false,
        Some((_, ok)) => ok,
    }
}

/// The actions of one pass, given whether the device was connected before it:
/// a failed attempt is followed by the reconnect delay, with no sample and no
/// write; a connected pass samples once, sends that sample's packet once and
/// waits one tick.
pub open spec fn pass_actions(
    config: LoopConfig,
    was_connected: bool,
    pass: Option<(LoopEvent, bool)>,
) -> Seq<LoopAction> {
    match pass {
        None => seq![LoopAction::Connect, LoopAction::Sleep(RECONNECT_DELAY_MS)],
        Some((e, _)) => seq![
            LoopAction::Connect,
            LoopAction::Sample { newly_connected: !was_connected },
            LoopAction::Send(sample_packet(config, e)->0),
            LoopAction::Sleep(config.tick_ms),
        ],
    }
}

/// The events of consecutive passes.
pub open spec fn passes_events(passes: Seq<Option<(LoopEvent, bool)>>) -> Seq<LoopEvent>
    decreases passes.len(),
{
    if passes.len() == 0 {
        Seq::empty()
    } else {
        pass_events(passes[0]) + passes_events(passes.drop_first())
    }
}

/// The actions of consecutive passes, the first starting with the device
/// connected or not as `was_connected` says.
pub open spec fn passes_actions(
    config: LoopConfig,
    was_connected: bool,
    passes: Seq<Option<(LoopEvent, bool)>>,
) -> Seq<LoopAction>
    decreases passes.len(),
{
    if passes.len() == 0 {
        Seq::empty()
    } else {
        pass_actions(config, was_connected, passes[0]) + passes_actions(
            config,
            connected_after(passes[0]),
            passes.drop_first(),
        )
    }
}

/// What the loop does when the running flag reads false: send the blanking
/// packet (then exit once it is written), or exit at once.
pub open spec fn stop_actions(config: LoopConfig) -> Seq<LoopAction> {
    if config.blank_on_stop {
        seq![LoopAction::Send(spec_blank_packet(config.model_id, config.fahrenheit))]
    } else {
        seq![LoopAction::Exit]
    }
}

proof fn lemma_drive_concat(s: DriverLoop, e1: Seq<LoopEvent>, e2: Seq<LoopEvent>)
    ensures
        drive(s, e1 + e2) == (drive(drive(s, e1).0, e2).0, drive(s, e1).1 + drive(
            drive(s, e1).0,
            e2,
        ).1),
    decreases e1.len(),
{
    if e1.len() == 0 {
        assert(e1 + e2 =~= e2);
        assert(drive(s, e1).1 + drive(s, e2).1 =~= drive(s, e2).1);
    } else {
        let s1 = spec_step(s, e1[0]).0;
        assert((e1 + e2)[0] == e1[0]);
        assert((e1 + e2).drop_first() =~= e1.drop_first() + e2);
        lemma_drive_concat(s1, e1.drop_first(), e2);
        let a = spec_step(s, e1[0]).1;
        let mid = drive(s1, e1.drop_first());
        assert(seq![a] + (mid.1 + drive(mid.0, e2).1) =~= (seq![a] + mid.1) + drive(mid.0, e2).1);
    }
}

proof fn lemma_drive_pass(s: DriverLoop, pass: Option<(LoopEvent, bool)>)
    requires
        s.phase is Idle,
        pass is None || !s.config.screen_off,
        pass matches Some((e, _)) ==> sample_packet(s.config, e) is Some,
    ensures
        drive(s, pass_events(pass)) == (
            DriverLoop { phase: Phase::Idle, connected: connected_after(pass), ..s },
            pass_actions(s.config, s.connected, pass),
        ),
{
    let ev = pass_events(pass);
    match pass {
        None => {
            let s1 = spec_step(s, ev[0]).0;
            let s2 = spec_step(s1, ev[1]).0;
            assert(ev.drop_first() =~= seq![LoopEvent::Connected(false)]);
            assert(ev.drop_first().drop_first() =~= Seq::<LoopEvent>::empty());
            assert(drive(s2, ev.drop_first().drop_first()) == (s2, Seq::<LoopAction>::empty()));
            assert(drive(s1, ev.drop_first()).1 =~= seq![LoopAction::Sleep(RECONNECT_DELAY_MS)]);
            assert(drive(s, ev).1 =~= pass_actions(s.config, s.connected, pass));
        },
        Some((e, ok)) => {
            let s1 = spec_step(s, ev[0]).0;
            let s2 = spec_step(s1, ev[1]).0;
            let s3 = spec_step(s2, ev[2]).0;
            let s4 = spec_step(s3, ev[3]).0;
            let d1 = ev.drop_first();
            let d2 = d1.drop_first();
            let d3 = d2.drop_first();
            let d4 = d3.drop_first();
            assert(d1 =~= seq![LoopEvent::Connected(true), e, LoopEvent::Sent(ok)]);
            assert(d2 =~= seq![e, LoopEvent::Sent(ok)]);
            assert(d3 =~= seq![LoopEvent::Sent(ok)]);
            assert(d4 =~= Seq::<LoopEvent>::empty());
            assert(drive(s4, d4) == (s4, Seq::<LoopAction>::empty()));
            assert(drive(s3, d3).1 =~= seq![LoopAction::Sleep(s.config.tick_ms)]);
            assert(drive(s2, d2).1 =~= seq![
                LoopAction::Send(sample_packet(s.config, e)->0),
                LoopAction::Sleep(s.config.tick_ms),
            ]);
            assert(drive(s1, d1).1 =~= seq![
                LoopAction::Sample { newly_connected: !s.connected },
                LoopAction::Send(sample_packet(s.config, e)->0),
                LoopAction::Sleep(s.config.tick_ms),
            ]);
            assert(drive(s, ev).1 =~= pass_actions(s.config, s.connected, pass));
        },
    }
}

/// A run of the loop (not in screen-off mode) whose running flag reads true
/// for a number of passes and then false: each pass whose connection attempt
/// fails waits the reconnect delay and neither samples nor sends; each
/// connected pass samples once, sends the packet of that sample once, in
/// order, and waits one tick; then the loop stops, sending the blanking packet
/// first if so configured. With no pass, nothing is connected, sampled or sent
/// but that blanking packet.
pub proof fn lemma_run(s: DriverLoop, passes: Seq<Option<(LoopEvent, bool)>>)
    requires
        s.phase is Idle,
        !s.config.screen_off,
        forall|k: int|
            0 <= k < passes.len() ==> (#[trigger] passes[k] matches Some((e, _)) ==> sample_packet(
                s.config,
                e,
            ) is Some),
    ensures
        drive(s, passes_events(passes).push(LoopEvent::Running(false))).1 == passes_actions(
            s.config,
            s.connected,
            passes,
        ) + stop_actions(s.config),
        drive(s, passes_events(passes).push(LoopEvent::Running(false))).0.phase == if s.config.blank_on_stop {
            Phase::Blanking
        } else {
            Phase::Done
        },
    decreases passes.len(),
{
    let stop = seq![LoopEvent::Running(false)];
    if passes.len() == 0 {
        let ev = passes_events(passes).push(LoopEvent::Running(false));
        assert(ev =~= stop);
        assert(ev.drop_first() =~= Seq::<LoopEvent>::empty());
        let s1 = spec_step(s, ev[0]).0;
        assert(drive(s1, ev.drop_first()) == (s1, Seq::<LoopAction>::empty()));
        assert(drive(s, ev).1 =~= stop_actions(s.config));
        assert(passes_actions(s.config, s.connected, passes) + stop_actions(s.config)
            =~= stop_actions(s.config));
    } else {
        let p0 = passes[0];
        let rest = passes.drop_first();
        let first = pass_events(p0);
        let tail = passes_events(rest).push(LoopEvent::Running(false));
        assert(passes_events(passes).push(LoopEvent::Running(false)) =~= first + tail);
        lemma_drive_concat(s, first, tail);
        lemma_drive_pass(s, p0);
        let s1 = drive(s, first).0;
        assert forall|k: int| 0 <= k < rest.len() implies (#[trigger] rest[k] matches Some((e, _))
            ==> sample_packet(s1.config, e) is Some) by {
            assert(rest[k] == passes[k + 1]);
        }
        lemma_run(s1, rest);
        assert(passes_actions(s.config, s.connected, passes) + stop_actions(s.config) =~= pass_actions(
            s.config,
            s.connected,
            p0,
        ) + (passes_actions(s.config, connected_after(p0), rest) + stop_actions(s.config)));
    }
}

/// A failed connection attempt never stops the loop, in any configuration
/// (screen-off mode included): the loop waits the reconnect delay and goes
/// back to checking its running flag, with the device counted as not
/// connected and the configuration unchanged.
pub proof fn lemma_failed_connect_retries(s: DriverLoop)
    requires
        s.phase is Connecting,
    ensures
        spec_step(s, LoopEvent::Connected(false)).1 == LoopAction::Sleep(RECONNECT_DELAY_MS),
        spec_step(s, LoopEvent::Connected(false)).0.phase is Idle,
        !spec_step(s, LoopEvent::Connected(false)).0.connected,
        spec_step(s, LoopEvent::Connected(false)).0.config == s.config,
{
}

proof fn lemma_drive_failures(s: DriverLoop, passes: Seq<Option<(LoopEvent, bool)>>)
    requires
        s.phase is Idle,
        forall|k: int| 0 <= k < passes.len() ==> #[trigger] passes[k] is None,
    ensures
        drive(s, passes_events(passes)) == (
            DriverLoop {
                phase: Phase::Idle,
                connected: if passes.len() == 0 {
                    s.connected
                } else {
                    false
                },
                ..s
            },
            passes_actions(s.config, s.connected, passes),
        ),
    decreases passes.len(),
{
    if passes.len() == 0 {
        assert(passes_events(passes) =~= Seq::<LoopEvent>::empty());
    } else {
        let p0 = passes[0];
        let rest = passes.drop_first();
        assert(p0 is None);
        lemma_drive_concat(s, pass_events(p0), passes_events(rest));
        lemma_drive_pass(s, p0);
        let s1 = drive(s, pass_events(p0)).0;
        assert forall|k: int| 0 <= k < rest.len() implies #[trigger] rest[k] is None by {
            assert(rest[k] == passes[k + 1]);
        }
        lemma_drive_failures(s1, rest);
    }
}

/// A screen-off run: every failed connection attempt waits the reconnect
/// delay and tries again; the first connected pass samples once, sends that
/// sample's packet once and stops, whether or not the write succeeded.
pub proof fn lemma_screen_off_run(
    s: DriverLoop,
    failures: Seq<Option<(LoopEvent, bool)>>,
    e: LoopEvent,
    ok: bool,
)
    requires
        s.phase is Idle,
        s.config.screen_off,
        forall|k: int| 0 <= k < failures.len() ==> #[trigger] failures[k] is None,
        sample_packet(s.config, e) is Some,
    ensures
        drive(s, passes_events(failures) + pass_events(Some((e, ok)))).1 == passes_actions(
            s.config,
            s.connected,
            failures,
        ) + seq![
            LoopAction::Connect,
            LoopAction::Sample { newly_connected: failures.len() > 0 || !s.connected },
            LoopAction::Send(sample_packet(s.config, e)->0),
            LoopAction::Exit,
        ],
        drive(s, passes_events(failures) + pass_events(Some((e, ok)))).0.phase is Done,
{
    lemma_drive_concat(s, passes_events(failures), pass_events(Some((e, ok))));
    lemma_drive_failures(s, failures);
    let s1 = drive(s, passes_events(failures)).0;
    let ev = pass_events(Some((e, ok)));
    let t1 = spec_step(s1, ev[0]).0;
    let t2 = spec_step(t1, ev[1]).0;
    let t3 = spec_step(t2, ev[2]).0;
    let t4 = spec_step(t3, ev[3]).0;
    let d1 = ev.drop_first();
    let d2 = d1.drop_first();
    let d3 = d2.drop_first();
    let d4 = d3.drop_first();
    assert(d1 =~= seq![LoopEvent::Connected(true), e, LoopEvent::Sent(ok)]);
    assert(d2 =~= seq![e, LoopEvent::Sent(ok)]);
    assert(d3 =~= seq![LoopEvent::Sent(ok)]);
    assert(d4 =~= Seq::<LoopEvent>::empty());
    assert(drive(t4, d4) == (t4, Seq::<LoopAction>::empty()));
    assert(drive(t3, d3).1 =~= seq![LoopAction::Exit]);
    assert(drive(t2, d2).1 =~= seq![
        LoopAction::Send(sample_packet(s.config, e)->0),
        LoopAction::Exit,
    ]);
    assert(drive(t1, d1).1 =~= seq![
        LoopAction::Sample { newly_connected: failures.len() > 0 || !s.connected },
        LoopAction::Send(sample_packet(s.config, e)->0),
        LoopAction::Exit,
    ]);
    assert(drive(s1, ev).1 =~= seq![
        LoopAction::Connect,
        LoopAction::Sample { newly_connected: failures.len() > 0 || !s.connected },
        LoopAction::Send(sample_packet(s.config, e)->0),
        LoopAction::Exit,
    ]);
}

} // verus!
