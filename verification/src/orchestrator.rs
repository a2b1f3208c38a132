//! The UI orchestrator: the state machine behind the 100 ms control
//! loop. Each tick takes the sampled line levels and decides, through
//! an ordered priority table (power over PTT1 over PTT2 over idle),
//! which screen to draw, when to refresh the slow environment data,
//! and when the power-off hold gesture has completed.

use vstd::prelude::*;
use vstd::arithmetic::div_mod::lemma_fundamental_div_mod;
use vstd::arithmetic::div_mod::lemma_mod_multiples_basic;
use vstd::arithmetic::div_mod::lemma_small_mod;
use crate::values::OperatorName;

verus! {

/// Ticks of continuous hold that complete the power-off gesture.
pub const HOLD_TICKS: u8 = 10;

/// The countdown indicator's elapsed count on its final tick.
pub const HOLD_MAX: u8 = 9;

/// Ticks between two environment refreshes: the ~1 s cadence.
pub const REFRESH_TICKS: u8 = 10;

/// The line a tick's sampling found asserted, after the priority
/// chain has picked a winner; `Unknown` when no line is asserted.
#[derive(Clone, Copy, Debug, PartialEq, Eq, Structural)]
pub enum Button {
    Power,
    Ptt1,
    Ptt2,
    Unknown,
}

impl Button {
    /// The human-readable label of each reading.
    pub open spec fn spec_label(self) -> Seq<char> {
        match self {
            Button::Power => "Power"@,
            Button::Ptt1 => "PTT1"@,
            Button::Ptt2 => "PTT2"@,
            Button::Unknown => "No Signal"@,
        }
    }

    /// The label as text.
    pub fn label(&self) -> (r: &'static str)
        ensures
            r@ == self.spec_label(),
    {
        match self {
            Button::Power => "Power",
            Button::Ptt1 => "PTT1",
            Button::Ptt2 => "PTT2",
            Button::Unknown => "No Signal",
        }
    }
}

/// The boolean level of each named digital line, as sampled at the
/// start of a tick.
#[derive(Clone, Copy, Debug, PartialEq, Eq, Structural)]
pub struct InputLevels {
    pub power: bool,
    pub ptt1: bool,
    pub ptt2: bool,
}

/// The priority chain over the sampled lines, as a single ordered
/// table: power wins over PTT1, PTT1 over PTT2, and a tick with no
/// asserted line reads `Unknown`.
pub open spec fn spec_sampled(levels: InputLevels) -> Button {
    if levels.power {
        Button::Power
    } else if levels.ptt1 {
        Button::Ptt1
    } else if levels.ptt2 {
        Button::Ptt2
    } else {
        Button::Unknown
    }
}

/// Applies the priority chain to sampled levels.
pub fn sampled_button(levels: InputLevels) -> (r: Button)
    ensures
        r == spec_sampled(levels),
{
    if levels.power {
        Button::Power
    } else if levels.ptt1 {
        Button::Ptt1
    } else if levels.ptt2 {
        Button::Ptt2
    } else {
        Button::Unknown
    }
}

/// Which talk target a talking screen addresses.
#[derive(Clone, Copy, Debug, PartialEq, Eq, Structural)]
pub enum TalkTarget {
    TargetA,
    TargetB,
}

/// The active screen; exactly one state at a time.
#[derive(Clone, Copy, Debug, PartialEq, Eq, Structural)]
pub enum ScreenState {
    /// No line asserted: the device shows its own identity.
    Idle,
    /// A PTT line held: the device talks to the given target.
    Talking(TalkTarget),
    /// The power line held: how many ticks the hold has lasted so
    /// far, starting at zero.
    ShutdownCountdown(u8),
}

/// Whose name the name region shows.
#[derive(Clone, Copy, Debug, PartialEq, Eq, Structural)]
pub enum ShownIdentity {
    CurrentDevice,
    TargetA,
    TargetB,
}

/// What a tick draws before the flush.
#[derive(Clone, Copy, Debug, PartialEq, Eq, Structural)]
pub enum ScreenDraw {
    /// The name region: whose identity, and whether the talking
    /// indicator is shown beside it.
    Name { shown: ShownIdentity, talking: bool },
    /// The shutdown screen: ring and pie sector for the given hold
    /// progress.
    Shutdown { elapsed: u8 },
}

/// Everything a tick asks of the unverified shell around the loop.
#[derive(Clone, Copy, Debug, PartialEq, Eq, Structural)]
pub struct TickOutcome {
    /// The screen drawn this tick.
    pub draw: ScreenDraw,
    /// Clear the whole canvas before drawing; set on the tick that
    /// aborts a countdown.
    pub clear_canvas: bool,
    /// Query the environment provider and redraw the signal and
    /// address regions this tick.
    pub refresh_environment: bool,
    /// The hold gesture completed: the loop exits after this tick's
    /// flush.
    pub power_off: bool,
}

/// The countdown progress a held tick reaches: zero on the tick that
/// begins the hold, one more per consecutive held tick, capped at
/// `HOLD_MAX` once the gesture is complete.
pub open spec fn spec_elapsed_on_hold(state: ScreenState) -> int {
    match state {
        ScreenState::ShutdownCountdown(e) => if e < HOLD_MAX {
            e + 1
        } else {
            HOLD_MAX as int
        },
        _ => 0,
    }
}

/// The state after a tick, by the ordered priority table.
pub open spec fn spec_next_state(state: ScreenState, levels: InputLevels) -> ScreenState {
    match spec_sampled(levels) {
        Button::Power => ScreenState::ShutdownCountdown(spec_elapsed_on_hold(state) as u8),
        Button::Ptt1 => ScreenState::Talking(TalkTarget::TargetA),
        Button::Ptt2 => ScreenState::Talking(TalkTarget::TargetB),
        Button::Unknown => ScreenState::Idle,
    }
}

/// A released power line aborts a countdown in progress.
pub open spec fn spec_aborts(state: ScreenState, levels: InputLevels) -> bool {
    !levels.power && state is ShutdownCountdown
}

/// Whether a tick queries the environment: on the regular cadence, or
/// at once when the countdown was just aborted. Held ticks never
/// refresh.
pub open spec fn spec_refreshes(state: ScreenState, counter: int, levels: InputLevels) -> bool {
    !levels.power && (counter + 1 >= REFRESH_TICKS || spec_aborts(state, levels))
}

/// The refresh counter after a tick: frozen while the power line is
/// held, back to zero when a refresh fires, else one more.
pub open spec fn spec_next_counter(state: ScreenState, counter: int, levels: InputLevels) -> int {
    if levels.power {
        counter
    } else if spec_refreshes(state, counter, levels) {
        0
    } else {
        counter + 1
    }
}

/// What the tick draws: the shutdown screen while the power line is
/// held, else the name region for the winning PTT line.
pub open spec fn spec_draw(state: ScreenState, levels: InputLevels) -> ScreenDraw {
    match spec_sampled(levels) {
        Button::Power => ScreenDraw::Shutdown { elapsed: spec_elapsed_on_hold(state) as u8 },
        Button::Ptt1 => ScreenDraw::Name { shown: ShownIdentity::TargetA, talking: true },
        Button::Ptt2 => ScreenDraw::Name { shown: ShownIdentity::TargetB, talking: true },
        Button::Unknown => ScreenDraw::Name {
            shown: ShownIdentity::CurrentDevice,
            talking: false,
        },
    }
}

/// The completed hold gesture: this tick is the `HOLD_TICKS`-th
/// consecutive tick with the power line asserted.
pub open spec fn spec_powers_off(state: ScreenState, levels: InputLevels) -> bool {
    levels.power && spec_elapsed_on_hold(state) + 1 >= HOLD_TICKS
}

/// The control loop's whole mutable state: the identities fixed at
/// startup, the active screen state, and the refresh counter. The
/// orchestrator owns all of it exclusively; the shell only sees the
/// `TickOutcome` it hands back.
pub struct Orchestrator {
    current: OperatorName,
    target_a: OperatorName,
    target_b: OperatorName,
    state: ScreenState,
    refresh_counter: u8,
}

impl Orchestrator {
    /// The active screen state.
    pub closed spec fn screen_state(&self) -> ScreenState {
        self.state
    }

    /// Ticks since the last environment refresh.
    pub closed spec fn counter(&self) -> int {
        self.refresh_counter as int
    }

    /// The name shown for each selector of the drawn screen.
    pub closed spec fn shown_name(&self, shown: ShownIdentity) -> Seq<char> {
        match shown {
            ShownIdentity::CurrentDevice => self.current@,
            ShownIdentity::TargetA => self.target_a@,
            ShownIdentity::TargetB => self.target_b@,
        }
    }

    /// Well-formedness: the counter stays inside the cadence window
    /// and a countdown never runs past its cap.
    pub open spec fn wf(&self) -> bool {
        &&& 0 <= self.counter() < REFRESH_TICKS
        &&& (self.screen_state() matches ScreenState::ShutdownCountdown(e) ==> e <= HOLD_MAX)
    }

    /// Boots the control loop after the boot screen is dismissed:
    /// idle on the device's own identity, cadence counter at zero.
    pub fn new(current: OperatorName, target_a: OperatorName, target_b: OperatorName) -> (r:
        Orchestrator)
        ensures
            r.wf(),
            r.screen_state() == ScreenState::Idle,
            r.counter() == 0,
            r.shown_name(ShownIdentity::CurrentDevice) == current@,
            r.shown_name(ShownIdentity::TargetA) == target_a@,
            r.shown_name(ShownIdentity::TargetB) == target_b@,
    {
        Orchestrator {
            current,
            target_a,
            target_b,
            state: ScreenState::Idle,
            refresh_counter: 0,
        }
    }

    /// The operator name behind a selector of the drawn screen.
    pub fn name_for(&self, shown: ShownIdentity) -> (r: &OperatorName)
        ensures
            r@ == self.shown_name(shown),
    {
        match shown {
            ShownIdentity::CurrentDevice => &self.current,
            ShownIdentity::TargetA => &self.target_a,
            ShownIdentity::TargetB => &self.target_b,
        }
    }

    /// One iteration of the control loop, once the lines have been
    /// sampled: advances the state machine and reports what to draw,
    /// whether to refresh the environment, and whether the hold
    /// gesture completed.
    pub fn tick(&mut self, levels: InputLevels) -> (out: TickOutcome)
        requires
            old(self).wf(),
        ensures
            final(self).wf(),
            final(self).screen_state() == spec_next_state(old(self).screen_state(), levels),
            final(self).counter() == spec_next_counter(
                old(self).screen_state(),
                old(self).counter(),
                levels,
            ),
            forall|s: ShownIdentity| final(self).shown_name(s) == old(self).shown_name(s),
            out.draw == spec_draw(old(self).screen_state(), levels),
            out.refresh_environment == spec_refreshes(
                old(self).screen_state(),
                old(self).counter(),
                levels,
            ),
            out.clear_canvas == spec_aborts(old(self).screen_state(), levels),
            out.power_off == spec_powers_off(old(self).screen_state(), levels),
    {
        let button = sampled_button(levels);
        match button {
            Button::Power => {
                let elapsed: u8 = match self.state {
                    ScreenState::ShutdownCountdown(e) => if e < HOLD_MAX {
                        e + 1
                    } else {
                        HOLD_MAX
                    },
                    _ => 0,
                };
                self.state = ScreenState::ShutdownCountdown(elapsed);
                TickOutcome {
                    draw: ScreenDraw::Shutdown { elapsed },
                    clear_canvas: false,
                    refresh_environment: false,
                    power_off: elapsed + 1 >= HOLD_TICKS,
                }
            },
            _ => {
                let aborts = matches!(self.state, ScreenState::ShutdownCountdown(_));
                let refresh = self.refresh_counter + 1 >= REFRESH_TICKS || aborts;
                let draw = match button {
                    Button::Ptt1 => {
                        self.state = ScreenState::Talking(TalkTarget::TargetA);
                        ScreenDraw::Name { shown: ShownIdentity::TargetA, talking: true }
                    },
                    Button::Ptt2 => {
                        self.state = ScreenState::Talking(TalkTarget::TargetB);
                        ScreenDraw::Name { shown: ShownIdentity::TargetB, talking: true }
                    },
                    _ => {
                        self.state = ScreenState::Idle;
                        ScreenDraw::Name { shown: ShownIdentity::CurrentDevice, talking: false }
                    },
                };
                if refresh {
                    self.refresh_counter = 0;
                } else {
                    self.refresh_counter = self.refresh_counter + 1;
                }
                TickOutcome {
                    draw,
                    clear_canvas: aborts,
                    refresh_environment: refresh,
                    power_off: false,
                }
            },
        }
    }
}

/// The sweep of the countdown pie sector, in whole degrees: the full
/// circle divided into `HOLD_MAX + 1` equal steps, of which the hold
/// has completed `elapsed + 1`. It starts non-empty on the first held
/// tick and closes the circle exactly when the gesture completes.
pub fn shutdown_sweep_degrees(elapsed: u8) -> (r: u16)
    requires
        elapsed <= HOLD_MAX,
    ensures
        r == 360 * (elapsed + 1) / (HOLD_MAX + 1),
        0 < r <= 360,
{
    proof {
        assert(360 * (elapsed + 1) / (HOLD_MAX + 1) == 36 * (elapsed + 1)) by (nonlinear_arith)
            requires
                elapsed <= 9,
                HOLD_MAX == 9,
        ;
    }
    36 * (elapsed as u16 + 1)
}

/// With the power line released, PTT1 wins over PTT2 whenever both
/// are held: the tick shows target A's name with the talking
/// indicator and the state talks to target A, whatever PTT2 says.
pub proof fn lemma_ptt1_priority(state: ScreenState, levels: InputLevels)
    requires
        !levels.power,
        levels.ptt1,
    ensures
        spec_draw(state, levels) == (ScreenDraw::Name {
            shown: ShownIdentity::TargetA,
            talking: true,
        }),
        spec_next_state(state, levels) == ScreenState::Talking(TalkTarget::TargetA),
{
}

/// Releasing the power line during a countdown aborts it: the canvas
/// is cleared, the environment refresh is forced at once whatever the
/// counter holds, the counter restarts, and with no PTT held the
/// screen returns to Idle.
pub proof fn lemma_abort_forces_refresh(state: ScreenState, counter: int, levels: InputLevels)
    requires
        state is ShutdownCountdown,
        !levels.power,
    ensures
        spec_aborts(state, levels),
        spec_refreshes(state, counter, levels),
        spec_next_counter(state, counter, levels) == 0,
        !levels.ptt1 && !levels.ptt2 ==> spec_next_state(state, levels) == ScreenState::Idle,
{
}

/// The state after `k` consecutive ticks with the same levels.
pub open spec fn run_state(start: ScreenState, k: nat, levels: InputLevels) -> ScreenState
    decreases k,
{
    if k == 0 {
        start
    } else {
        spec_next_state(run_state(start, (k - 1) as nat, levels), levels)
    }
}

/// The hold gesture, tick by tick: starting outside the countdown and
/// holding the power line, the `k`-th consecutive held tick reaches
/// elapsed `k - 1`, and the gesture completes on the
/// `HOLD_TICKS`-th held tick exactly, not before.
pub proof fn lemma_hold_gesture(start: ScreenState, k: nat, levels: InputLevels)
    requires
        !(start is ShutdownCountdown),
        levels.power,
        1 <= k <= HOLD_TICKS,
    ensures
        run_state(start, k, levels) == ScreenState::ShutdownCountdown((k - 1) as u8),
        spec_powers_off(run_state(start, (k - 1) as nat, levels), levels) <==> k == HOLD_TICKS,
    decreases k,
{
    if k > 1 {
        lemma_hold_gesture(start, (k - 1) as nat, levels);
    }
}

/// Levels with no line asserted.
pub open spec fn quiet_levels() -> InputLevels {
    InputLevels { power: false, ptt1: false, ptt2: false }
}

/// The refresh counter after `k` quiet ticks in the Idle state,
/// starting from counter `c0`.
pub open spec fn quiet_counter_after(c0: int, k: nat) -> int
    decreases k,
{
    if k == 0 {
        c0
    } else {
        spec_next_counter(ScreenState::Idle, quiet_counter_after(c0, (k - 1) as nat), quiet_levels())
    }
}

/// Whether the `k`-th quiet tick, counting from 1, refreshes the
/// environment.
pub open spec fn quiet_refresh_at(c0: int, k: nat) -> bool
    recommends
        k >= 1,
{
    spec_refreshes(ScreenState::Idle, quiet_counter_after(c0, (k - 1) as nat), quiet_levels())
}

/// After `k` quiet ticks the counter has cycled: it sits at
/// `(c0 + k) % REFRESH_TICKS`.
proof fn lemma_quiet_counter_mod(c0: int, k: nat)
    requires
        0 <= c0 < REFRESH_TICKS,
    ensures
        quiet_counter_after(c0, k) == (c0 + k) % (REFRESH_TICKS as int),
    decreases k,
{
    let m = REFRESH_TICKS as int;
    if k == 0 {
        lemma_small_mod(c0 as nat, REFRESH_TICKS as nat);
    } else {
        lemma_quiet_counter_mod(c0, (k - 1) as nat);
        let prev = (c0 + k - 1) % m;
        lemma_fundamental_div_mod(c0 + k - 1, m);
        if prev == m - 1 {
            assert(c0 + k == m * ((c0 + k - 1) / m) + m);
            assert(c0 + k == m * ((c0 + k - 1) / m + 1)) by (nonlinear_arith)
                requires
                    c0 + k == m * ((c0 + k - 1) / m) + m,
            ;
            lemma_mod_multiples_basic((c0 + k - 1) / m + 1, m);
        } else {
            assert(c0 + k == m * ((c0 + k - 1) / m) + (prev + 1));
            vstd::arithmetic::div_mod::lemma_fundamental_div_mod_converse_mod(
                c0 + k,
                m,
                (c0 + k - 1) / m,
                prev + 1,
            );
        }
    }
}

/// The refresh cadence under quiet lines: with the power line never
/// asserted and no PTT pressed, the counter cycles with period
/// `REFRESH_TICKS`, the state stays Idle, and the `k`-th tick queries
/// the environment exactly when `k` completes a cadence window.
pub proof fn lemma_quiet_refresh_cadence(c0: int)
    requires
        0 <= c0 < REFRESH_TICKS,
    ensures
        spec_next_state(ScreenState::Idle, quiet_levels()) == ScreenState::Idle,
        forall|k: nat| #[trigger]
            quiet_counter_after(c0, k) == (c0 + k) % (REFRESH_TICKS as int),
        forall|k: nat|
            k >= 1 ==> (#[trigger] quiet_refresh_at(c0, k) <==> (c0 + k) % (
            REFRESH_TICKS as int) == 0),
{
    let m = REFRESH_TICKS as int;
    assert forall|k: nat| #[trigger]
        quiet_counter_after(c0, k) == (c0 + k) % m by {
        lemma_quiet_counter_mod(c0, k);
    }
    assert forall|k: nat| k >= 1 implies (#[trigger] quiet_refresh_at(c0, k) <==> (c0 + k) % m
        == 0) by {
        lemma_quiet_counter_mod(c0, (k - 1) as nat);
        lemma_quiet_counter_mod(c0, k);
        let prev = (c0 + k - 1) % m;
        lemma_fundamental_div_mod(c0 + k - 1, m);
        if prev == m - 1 {
            assert(c0 + k == m * ((c0 + k - 1) / m) + m);
            assert(c0 + k == m * ((c0 + k - 1) / m + 1)) by (nonlinear_arith)
                requires
                    c0 + k == m * ((c0 + k - 1) / m) + m,
            ;
            lemma_mod_multiples_basic((c0 + k - 1) / m + 1, m);
        } else {
            assert(c0 + k == m * ((c0 + k - 1) / m) + (prev + 1));
            vstd::arithmetic::div_mod::lemma_fundamental_div_mod_converse_mod(
                c0 + k,
                m,
                (c0 + k - 1) / m,
                prev + 1,
            );
        }
    }
}

/// Never more often than the cadence: two distinct quiet refresh
/// ticks are at least `REFRESH_TICKS` ticks apart.
pub proof fn lemma_quiet_refresh_spacing(c0: int, k1: nat, k2: nat)
    requires
        0 <= c0 < REFRESH_TICKS,
        1 <= k1 < k2,
        quiet_refresh_at(c0, k1),
        quiet_refresh_at(c0, k2),
    ensures
        k2 - k1 >= REFRESH_TICKS,
{
    let m = REFRESH_TICKS as int;
    lemma_quiet_refresh_cadence(c0);
    let a = c0 + k1;
    let b = c0 + k2;
    lemma_fundamental_div_mod(a, m);
    lemma_fundamental_div_mod(b, m);
    assert(a == m * (a / m));
    assert(b == m * (b / m));
    assert(b / m > a / m) by (nonlinear_arith)
        requires
            a == m * (a / m),
            b == m * (b / m),
            b > a,
            m > 0,
    ;
    assert(b - a >= m) by (nonlinear_arith)
        requires
            a == m * (a / m),
            b == m * (b / m),
            b / m > a / m,
            m > 0,
    ;
}

/// At least once per cadence: every window of `REFRESH_TICKS`
/// consecutive quiet ticks contains a refresh.
pub proof fn lemma_quiet_refresh_in_window(c0: int, k: nat)
    requires
        0 <= c0 < REFRESH_TICKS,
        k >= 1,
    ensures
        exists|j: nat| k <= j < k + REFRESH_TICKS && #[trigger] quiet_refresh_at(c0, j),
{
    let m = REFRESH_TICKS as int;
    lemma_quiet_refresh_cadence(c0);
    let r = (c0 + k) % m;
    lemma_fundamental_div_mod(c0 + k, m);
    if r == 0 {
        assert(quiet_refresh_at(c0, k));
    } else {
        let j = (k + m - r) as nat;
        assert(c0 + j == m * ((c0 + k) / m + 1)) by (nonlinear_arith)
            requires
                c0 + k == m * ((c0 + k) / m) + r,
                j == k + m - r,
        ;
        lemma_mod_multiples_basic((c0 + k) / m + 1, m);
        assert(quiet_refresh_at(c0, j));
        assert(k <= j < k + m);
    }
}

} // verus!
