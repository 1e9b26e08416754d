//! The panel's command sequences as a state machine.
//!
//! A [`Session`] holds one complete sequence (the presence check of
//! [`Session::init`] or the full refresh of [`Session::display`]). The caller
//! asks it for the next [`Action`], performs that action on the hardware, and
//! reports the [`Outcome`] back with [`Session::advance`]. Polling of the busy
//! line is part of the sequence: the session keeps asking for the line's level
//! until it changes. The first fault aborts the session.
use vstd::prelude::*;

use crate::registers::{
    BOOSTER_SOFTSTART_REGISTER, DATA_START_TRANS_REGISTER, DEEP_SLEEP_CHECK, DEEP_SLEEP_REGISTER,
    DISPLAY_REF_REGISTER, PANEL_SET_REGISTER, POWER_OFF_REGISTER, POWER_OFF_SEQ_SET_REGISTER,
    POWER_SET_REGISTER, RESOLUTION_SET_REGISTER, TEMP_SENSOR_EN_REGISTER, TUNING_REGISTER,
    VCOM_DATA_INTERVAL_REGISTER, VENDOR_REGISTER,
};

verus! {

/// Level of a digital line.
#[derive(Clone, Copy, Debug, PartialEq, Eq, Structural)]
pub enum Level {
    Low,
    High,
}

/// One operation of a panel sequence.
#[derive(Debug)]
pub enum Step {
    /// Drive the reset line.
    SetReset(Level),
    /// Drive the data/command select line (low: command, high: data).
    SetDataCommand(Level),
    /// Write these bytes over the wire.
    Write(Vec<u8>),
    /// Write the whole framebuffer over the wire.
    WriteFrame,
    /// Wait this many milliseconds.
    DelayMs(u32),
    /// Poll the busy line for as long as it reads this level.
    WaitWhileBusy(Level),
}

/// The mathematical form of a [`Step`].
pub enum Op {
    SetReset(Level),
    SetDataCommand(Level),
    Write(Seq<u8>),
    WriteFrame,
    DelayMs(u32),
    WaitWhileBusy(Level),
}

impl View for Step {
    type V = Op;

    open spec fn view(&self) -> Op {
        match self {
            Step::SetReset(l) => Op::SetReset(*l),
            Step::SetDataCommand(l) => Op::SetDataCommand(*l),
            Step::Write(b) => Op::Write(b@),
            Step::WriteFrame => Op::WriteFrame,
            Step::DelayMs(ms) => Op::DelayMs(*ms),
            Step::WaitWhileBusy(l) => Op::WaitWhileBusy(*l),
        }
    }
}

/// What the caller must do next.
#[derive(Debug)]
pub enum Action {
    /// Drive the reset line, then report `Outcome::Done`.
    SetReset(Level),
    /// Drive the data/command line, then report `Outcome::Done`.
    SetDataCommand(Level),
    /// Write these bytes, then report `Outcome::Done`.
    Write(Vec<u8>),
    /// Write the framebuffer, then report `Outcome::Done`.
    WriteFrame,
    /// Wait, then report `Outcome::Done`.
    DelayMs(u32),
    /// Read the busy line and report its level with `Outcome::Busy`.
    ReadBusy,
    /// The sequence is complete.
    Finished,
    /// The sequence was stopped by a fault.
    Aborted,
}

/// What happened when the caller performed an action.
#[derive(Clone, Copy, Debug, PartialEq, Eq, Structural)]
pub enum Outcome {
    /// The action was carried out.
    Done,
    /// The busy line was read at this level.
    Busy(Level),
    /// The line or the wire reported an error.
    Fault,
}

/// Power state of the panel as far as a session can tell.
#[derive(Clone, Copy, Debug, PartialEq, Eq, Structural)]
pub enum PanelState {
    /// Not yet known to be awake (before the wake sequence completes, or
    /// after a fault).
    Unknown,
    /// Configured and ready for commands.
    Awake,
    /// In deep sleep.
    Asleep,
}

/// Sends command byte `c`: select line low, then one byte.
pub open spec fn command(c: u8) -> Seq<Op> {
    seq![Op::SetDataCommand(Level::Low), Op::Write(seq![c])]
}

/// Sends data bytes `d`: select line high, then the bytes.
pub open spec fn data(d: Seq<u8>) -> Seq<Op> {
    seq![Op::SetDataCommand(Level::High), Op::Write(d)]
}

/// The resolution register's payload: 600 by 448, high byte first.
pub open spec fn resolution_bytes() -> Seq<u8> {
    seq![0x02u8, 0x58u8, 0x01u8, 0xC0u8]
}

/// Hardware reset: reset low for 1 ms, then high and 200 ms for boot.
pub open spec fn reset_ops() -> Seq<Op> {
    seq![
        Op::SetReset(Level::Low),
        Op::DelayMs(1),
        Op::SetReset(Level::High),
        Op::DelayMs(200),
    ]
}

/// Register configuration sent after reset, in the order the panel's
/// firmware requires.
pub open spec fn config_ops() -> Seq<Op> {
    command(PANEL_SET_REGISTER) + data(seq![0xEFu8, 0x08u8])
        + command(POWER_SET_REGISTER) + data(seq![0x37u8, 0x00u8, 0x05u8, 0x05u8])
        + command(POWER_OFF_SEQ_SET_REGISTER) + data(seq![0x00u8])
        + command(BOOSTER_SOFTSTART_REGISTER) + data(seq![0xC7u8, 0xC7u8, 0x1Du8])
        + command(TEMP_SENSOR_EN_REGISTER) + data(seq![0x00u8])
        + command(VCOM_DATA_INTERVAL_REGISTER) + data(seq![0x37u8])
        + command(VENDOR_REGISTER) + data(seq![0x20u8])
        + command(RESOLUTION_SET_REGISTER) + data(resolution_bytes())
        + command(TUNING_REGISTER) + data(seq![0xAAu8])
        + seq![Op::DelayMs(100)]
        + command(VCOM_DATA_INTERVAL_REGISTER) + data(seq![0x37u8])
}

/// Wake sequence: reset, wait while busy reads low, then configure.
pub open spec fn wakeup_ops() -> Seq<Op> {
    reset_ops() + seq![Op::WaitWhileBusy(Level::Low)] + config_ops()
}

/// Sleep sequence: 10 ms, deep-sleep command confirmed by 0xA5, 100 ms,
/// then reset and select lines low.
pub open spec fn sleep_ops() -> Seq<Op> {
    seq![Op::DelayMs(10)] + command(DEEP_SLEEP_REGISTER) + data(seq![DEEP_SLEEP_CHECK]) + seq![
        Op::DelayMs(100),
        Op::SetReset(Level::Low),
        Op::SetDataCommand(Level::Low),
    ]
}

/// Transfer and refresh, run between wake and sleep by a full refresh.
pub open spec fn refresh_ops() -> Seq<Op> {
    command(RESOLUTION_SET_REGISTER) + data(resolution_bytes())
        + command(DATA_START_TRANS_REGISTER)
        + seq![Op::SetDataCommand(Level::High), Op::WriteFrame]
        + command(POWER_OFF_REGISTER) + seq![Op::WaitWhileBusy(Level::Low)]
        + command(DISPLAY_REF_REGISTER) + seq![Op::WaitWhileBusy(Level::Low)]
        + command(POWER_OFF_REGISTER) + seq![Op::WaitWhileBusy(Level::High)]
        + seq![Op::DelayMs(200)]
}

/// Presence check: wake the panel, then put it back to sleep.
pub open spec fn init_ops() -> Seq<Op> {
    wakeup_ops() + sleep_ops()
}

/// Full refresh: wake, send the frame and refresh, then sleep.
pub open spec fn display_ops() -> Seq<Op> {
    wakeup_ops() + refresh_ops() + sleep_ops()
}

/// The operations that `steps` stand for.
pub open spec fn ops_of(steps: Seq<Step>) -> Seq<Op> {
    steps.map_values(|s: Step| s@)
}

impl Action {
    /// This action is what a session owes for `op`.
    pub open spec fn performs(&self, op: Op) -> bool {
        match (*self, op) {
            (Action::SetReset(a), Op::SetReset(b)) => a == b,
            (Action::SetDataCommand(a), Op::SetDataCommand(b)) => a == b,
            (Action::Write(a), Op::Write(b)) => a@ == b,
            (Action::WriteFrame, Op::WriteFrame) => true,
            (Action::DelayMs(a), Op::DelayMs(b)) => a == b,
            (Action::ReadBusy, Op::WaitWhileBusy(_)) => true,
            _ => false,
        }
    }
}

fn push_command(steps: &mut Vec<Step>, c: u8)
    ensures
        ops_of(final(steps)@) == ops_of(old(steps)@) + command(c),
{
    let mut b: Vec<u8> = Vec::new();
    b.push(c);
    steps.push(Step::SetDataCommand(Level::Low));
    steps.push(Step::Write(b));
    assert(b@ =~= seq![c]);
    assert(ops_of(steps@) =~= ops_of(old(steps)@) + command(c));
}

fn push_data(steps: &mut Vec<Step>, d: Vec<u8>)
    ensures
        ops_of(final(steps)@) == ops_of(old(steps)@) + data(d@),
{
    let ghost dv = d@;
    steps.push(Step::SetDataCommand(Level::High));
    steps.push(Step::Write(d));
    assert(ops_of(steps@) =~= ops_of(old(steps)@) + data(dv));
}

fn push_op(steps: &mut Vec<Step>, s: Step)
    ensures
        ops_of(final(steps)@) == ops_of(old(steps)@) + seq![s@],
{
    let ghost sv = s@;
    steps.push(s);
    assert(ops_of(steps@) =~= ops_of(old(steps)@) + seq![sv]);
}

fn bytes1(a: u8) -> (r: Vec<u8>)
    ensures
        r@ == seq![a],
{
    let mut r: Vec<u8> = Vec::new();
    r.push(a);
    assert(r@ =~= seq![a]);
    r
}

fn bytes2(a: u8, b: u8) -> (r: Vec<u8>)
    ensures
        r@ == seq![a, b],
{
    let mut r = bytes1(a);
    r.push(b);
    assert(r@ =~= seq![a, b]);
    r
}

fn bytes3(a: u8, b: u8, c: u8) -> (r: Vec<u8>)
    ensures
        r@ == seq![a, b, c],
{
    let mut r = bytes2(a, b);
    r.push(c);
    assert(r@ =~= seq![a, b, c]);
    r
}

fn bytes4(a: u8, b: u8, c: u8, d: u8) -> (r: Vec<u8>)
    ensures
        r@ == seq![a, b, c, d],
{
    let mut r = bytes3(a, b, c);
    r.push(d);
    assert(r@ =~= seq![a, b, c, d]);
    r
}


fn push_reset(steps: &mut Vec<Step>)
    ensures
        ops_of(final(steps)@) == ops_of(old(steps)@) + reset_ops(),
{
    push_op(steps, Step::SetReset(Level::Low));
    push_op(steps, Step::DelayMs(1));
    push_op(steps, Step::SetReset(Level::High));
    push_op(steps, Step::DelayMs(200));
    assert(ops_of(steps@) =~= ops_of(old(steps)@) + reset_ops());
}

fn push_config(steps: &mut Vec<Step>)
    ensures
        ops_of(final(steps)@) == ops_of(old(steps)@) + config_ops(),
{
    push_command(steps, PANEL_SET_REGISTER);
    push_data(steps, bytes2(0xEF, 0x08));
    push_command(steps, POWER_SET_REGISTER);
    push_data(steps, bytes4(0x37, 0x00, 0x05, 0x05));
    push_command(steps, POWER_OFF_SEQ_SET_REGISTER);
    push_data(steps, bytes1(0x00));
    push_command(steps, BOOSTER_SOFTSTART_REGISTER);
    push_data(steps, bytes3(0xC7, 0xC7, 0x1D));
    push_command(steps, TEMP_SENSOR_EN_REGISTER);
    push_data(steps, bytes1(0x00));
    push_command(steps, VCOM_DATA_INTERVAL_REGISTER);
    push_data(steps, bytes1(0x37));
    push_command(steps, VENDOR_REGISTER);
    push_data(steps, bytes1(0x20));
    push_command(steps, RESOLUTION_SET_REGISTER);
    push_data(steps, bytes4(0x02, 0x58, 0x01, 0xC0));
    push_command(steps, TUNING_REGISTER);
    push_data(steps, bytes1(0xAA));
    push_op(steps, Step::DelayMs(100));
    push_command(steps, VCOM_DATA_INTERVAL_REGISTER);
    push_data(steps, bytes1(0x37));
    assert(ops_of(steps@) =~= ops_of(old(steps)@) + config_ops());
}

fn push_wakeup(steps: &mut Vec<Step>)
    ensures
        ops_of(final(steps)@) == ops_of(old(steps)@) + wakeup_ops(),
{
    push_reset(steps);
    push_op(steps, Step::WaitWhileBusy(Level::Low));
    push_config(steps);
    assert(ops_of(steps@) =~= ops_of(old(steps)@) + wakeup_ops());
}

fn push_sleep(steps: &mut Vec<Step>)
    ensures
        ops_of(final(steps)@) == ops_of(old(steps)@) + sleep_ops(),
{
    push_op(steps, Step::DelayMs(10));
    push_command(steps, DEEP_SLEEP_REGISTER);
    push_data(steps, bytes1(DEEP_SLEEP_CHECK));
    push_op(steps, Step::DelayMs(100));
    push_op(steps, Step::SetReset(Level::Low));
    push_op(steps, Step::SetDataCommand(Level::Low));
    assert(ops_of(steps@) =~= ops_of(old(steps)@) + sleep_ops());
}

fn push_refresh(steps: &mut Vec<Step>)
    ensures
        ops_of(final(steps)@) == ops_of(old(steps)@) + refresh_ops(),
{
    push_command(steps, RESOLUTION_SET_REGISTER);
    push_data(steps, bytes4(0x02, 0x58, 0x01, 0xC0));
    push_command(steps, DATA_START_TRANS_REGISTER);
    push_op(steps, Step::SetDataCommand(Level::High));
    push_op(steps, Step::WriteFrame);
    push_command(steps, POWER_OFF_REGISTER);
    push_op(steps, Step::WaitWhileBusy(Level::Low));
    push_command(steps, DISPLAY_REF_REGISTER);
    push_op(steps, Step::WaitWhileBusy(Level::Low));
    push_command(steps, POWER_OFF_REGISTER);
    push_op(steps, Step::WaitWhileBusy(Level::High));
    push_op(steps, Step::DelayMs(200));
    assert(ops_of(steps@) =~= ops_of(old(steps)@) + refresh_ops());
}

/// Where the session stands after `outcome` is reported for `op`, the
/// operation at position `pc`: a busy wait stays put while the line reads the
/// level it waits on (or reports nothing), any other operation moves on.
pub open spec fn next_pc(op: Op, outcome: Outcome, pc: int) -> int {
    match op {
        Op::WaitWhileBusy(l) => match outcome {
            Outcome::Busy(m) => if m == l {
                pc
            } else {
                pc + 1
            },
            _ => pc,
        },
        _ => pc + 1,
    }
}

/// One run of a panel sequence.
pub struct Session {
    steps: Vec<Step>,
    pc: usize,
    aborted: bool,
    awake_at: usize,
    asleep_at: usize,
}

impl Session {
    /// The sequence this session runs.
    pub closed spec fn ops(&self) -> Seq<Op> {
        ops_of(self.steps@)
    }

    /// Position of the operation in progress.
    pub closed spec fn pc(&self) -> int {
        self.pc as int
    }

    /// A fault stopped the session.
    pub closed spec fn aborted(&self) -> bool {
        self.aborted
    }

    /// Position at which the wake sequence is complete.
    pub closed spec fn awake_at(&self) -> int {
        self.awake_at as int
    }

    /// Position from which the panel is in deep sleep.
    pub closed spec fn asleep_at(&self) -> int {
        self.asleep_at as int
    }

    pub closed spec fn wf(&self) -> bool {
        &&& self.pc <= self.steps@.len()
        &&& self.awake_at <= self.steps@.len() + 1
        &&& self.asleep_at <= self.steps@.len() + 1
    }

    /// Every operation has been carried out.
    pub open spec fn finished(&self) -> bool {
        !self.aborted() && self.pc() == self.ops().len()
    }

    /// The panel's power state implied by the progress made.
    pub open spec fn panel_state(&self) -> PanelState {
        if self.aborted() {
            PanelState::Unknown
        } else if self.pc() >= self.asleep_at() {
            PanelState::Asleep
        } else if self.pc() >= self.awake_at() {
            PanelState::Awake
        } else {
            PanelState::Unknown
        }
    }

    /// A presence check: wake the panel, then put it back to sleep.
    pub fn init() -> (s: Session)
        ensures
            s.wf(),
            s.ops() == init_ops(),
            s.pc() == 0,
            !s.aborted(),
            s.awake_at() == wakeup_ops().len(),
            s.asleep_at() == init_ops().len(),
    {
        let mut steps: Vec<Step> = Vec::new();
        push_wakeup(&mut steps);
        let awake_at = steps.len();
        push_sleep(&mut steps);
        assert(ops_of(steps@) =~= init_ops());
        let asleep_at = steps.len();
        Session { steps, pc: 0, aborted: false, awake_at, asleep_at }
    }

    /// A full refresh: wake the panel, send the frame, refresh, and sleep.
    pub fn display() -> (s: Session)
        ensures
            s.wf(),
            s.ops() == display_ops(),
            s.pc() == 0,
            !s.aborted(),
            s.awake_at() == wakeup_ops().len(),
            s.asleep_at() == display_ops().len(),
    {
        let mut steps: Vec<Step> = Vec::new();
        push_wakeup(&mut steps);
        let awake_at = steps.len();
        push_refresh(&mut steps);
        push_sleep(&mut steps);
        assert(ops_of(steps@) =~= display_ops());
        let asleep_at = steps.len();
        Session { steps, pc: 0, aborted: false, awake_at, asleep_at }
    }

    /// The wake sequence alone; the panel is awake when it finishes.
    pub fn wakeup() -> (s: Session)
        ensures
            s.wf(),
            s.ops() == wakeup_ops(),
            s.pc() == 0,
            !s.aborted(),
            s.awake_at() == wakeup_ops().len(),
            s.asleep_at() == wakeup_ops().len() + 1,
    {
        let mut steps: Vec<Step> = Vec::new();
        push_wakeup(&mut steps);
        assert(ops_of(steps@) =~= wakeup_ops());
        let n = steps.len();
        Session { steps, pc: 0, aborted: false, awake_at: n, asleep_at: n + 1 }
    }

    /// The sleep sequence alone, sent to an awake panel.
    pub fn sleep() -> (s: Session)
        ensures
            s.wf(),
            s.ops() == sleep_ops(),
            s.pc() == 0,
            !s.aborted(),
            s.awake_at() == 0,
            s.asleep_at() == sleep_ops().len(),
    {
        let mut steps: Vec<Step> = Vec::new();
        push_sleep(&mut steps);
        assert(ops_of(steps@) =~= sleep_ops());
        let n = steps.len();
        Session { steps, pc: 0, aborted: false, awake_at: 0, asleep_at: n }
    }

    /// The hardware reset alone.
    pub fn reset_panel() -> (s: Session)
        ensures
            s.wf(),
            s.ops() == reset_ops(),
            s.pc() == 0,
            !s.aborted(),
            s.panel_state() == PanelState::Unknown,
    {
        let mut steps: Vec<Step> = Vec::new();
        push_reset(&mut steps);
        assert(ops_of(steps@) =~= reset_ops());
        Session::unmarked(steps)
    }

    /// Command byte `c` alone.
    pub fn send_command(c: u8) -> (s: Session)
        ensures
            s.wf(),
            s.ops() == command(c),
            s.pc() == 0,
            !s.aborted(),
            s.panel_state() == PanelState::Unknown,
    {
        let mut steps: Vec<Step> = Vec::new();
        push_command(&mut steps, c);
        assert(ops_of(steps@) =~= command(c));
        Session::unmarked(steps)
    }

    /// Data bytes `d` alone.
    pub fn send_data(d: Vec<u8>) -> (s: Session)
        ensures
            s.wf(),
            s.ops() == data(d@),
            s.pc() == 0,
            !s.aborted(),
            s.panel_state() == PanelState::Unknown,
    {
        let ghost dv = d@;
        let mut steps: Vec<Step> = Vec::new();
        push_data(&mut steps, d);
        assert(ops_of(steps@) =~= data(dv));
        Session::unmarked(steps)
    }

    /// A session over `steps` that says nothing of the panel's power state.
    fn unmarked(steps: Vec<Step>) -> (s: Session)
        requires
            steps@.len() < 64,
        ensures
            s.wf(),
            s.ops() == ops_of(steps@),
            s.pc() == 0,
            !s.aborted(),
            s.awake_at() == steps@.len() + 1,
            s.asleep_at() == steps@.len() + 1,
    {
        let n = steps.len();
        Session { steps, pc: 0, aborted: false, awake_at: n + 1, asleep_at: n + 1 }
    }

    /// The action the caller must perform next.
    pub fn action(&self) -> (a: Action)
        requires
            self.wf(),
        ensures
            self.aborted() ==> a is Aborted,
            self.finished() ==> a is Finished,
            !self.aborted() && self.pc() < self.ops().len() ==> a.performs(self.ops()[self.pc()]),
    {
        if self.aborted {
            return Action::Aborted;
        }
        if self.pc >= self.steps.len() {
            return Action::Finished;
        }
        match &self.steps[self.pc] {
            Step::SetReset(l) => Action::SetReset(*l),
            Step::SetDataCommand(l) => Action::SetDataCommand(*l),
            Step::Write(b) => {
                let c = copy_bytes(b);
                Action::Write(c)
            },
            Step::WriteFrame => Action::WriteFrame,
            Step::DelayMs(ms) => Action::DelayMs(*ms),
            Step::WaitWhileBusy(_) => Action::ReadBusy,
        }
    }

    /// Records the outcome of the action last handed out.
    pub fn advance(&mut self, outcome: Outcome)
        requires
            old(self).wf(),
        ensures
            final(self).wf(),
            final(self).ops() == old(self).ops(),
            final(self).awake_at() == old(self).awake_at(),
            final(self).asleep_at() == old(self).asleep_at(),
            old(self).aborted() || old(self).finished() ==> final(self).pc() == old(self).pc()
                && final(self).aborted() == old(self).aborted(),
            !old(self).aborted() && !old(self).finished() && outcome == Outcome::Fault
                ==> final(self).aborted() && final(self).pc() == old(self).pc(),
            !old(self).aborted() && !old(self).finished() && outcome != Outcome::Fault
                ==> !final(self).aborted() && final(self).pc() == next_pc(
                    old(self).ops()[old(self).pc()], outcome, old(self).pc()),
    {
        if self.aborted || self.pc >= self.steps.len() {
            return;
        }
        if let Outcome::Fault = outcome {
            self.aborted = true;
            return;
        }
        let moves = match &self.steps[self.pc] {
            Step::WaitWhileBusy(l) => match outcome {
                Outcome::Busy(m) => m != *l,
                _ => false,
            },
            _ => true,
        };
        if moves {
            self.pc = self.pc + 1;
        }
    }

    /// The panel's power state implied by the progress made.
    pub fn state(&self) -> (r: PanelState)
        requires
            self.wf(),
        ensures
            r == self.panel_state(),
    {
        if self.aborted {
            PanelState::Unknown
        } else if self.pc >= self.asleep_at {
            PanelState::Asleep
        } else if self.pc >= self.awake_at {
            PanelState::Awake
        } else {
            PanelState::Unknown
        }
    }
}

fn copy_bytes(b: &Vec<u8>) -> (r: Vec<u8>)
    ensures
        r@ == b@,
{
    let mut r: Vec<u8> = Vec::with_capacity(b.len());
    let mut k: usize = 0;
    while k < b.len()
        invariant
            k <= b@.len(),
            r@ == b@.subrange(0, k as int),
        decreases b@.len() - k,
    {
        r.push(b[k]);
        k = k + 1;
        assert(r@ =~= b@.subrange(0, k as int));
    }
    assert(b@.subrange(0, b@.len() as int) =~= b@);
    r
}

} // verus!
