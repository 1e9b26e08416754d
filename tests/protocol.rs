use ab1024_ega::display::Display;
use ab1024_ega::protocol::{Action, Level, Outcome, PanelState, Session};

#[derive(Debug, Clone, PartialEq)]
enum Event {
    Reset(Level),
    Dc(Level),
    Write(Vec<u8>),
    DelayNs(u64),
    Busy(Level),
}

/// Runs `session` to its end against recorded lines: `busy` gives the levels
/// the busy line reads, in order, and `frame` the framebuffer.
fn run(mut session: Session, frame: &[u8], busy: &[Level]) -> Vec<Event> {
    let mut log = Vec::new();
    let mut reads = busy.iter();
    loop {
        let outcome = match session.action() {
            Action::SetReset(l) => {
                log.push(Event::Reset(l));
                Outcome::Done
            }
            Action::SetDataCommand(l) => {
                log.push(Event::Dc(l));
                Outcome::Done
            }
            Action::Write(bytes) => {
                log.push(Event::Write(bytes));
                Outcome::Done
            }
            Action::WriteFrame => {
                log.push(Event::Write(frame.to_vec()));
                Outcome::Done
            }
            Action::DelayMs(ms) => {
                log.push(Event::DelayNs(ms as u64 * 1_000_000));
                Outcome::Done
            }
            Action::ReadBusy => {
                let l = *reads.next().expect("busy line read more often than expected");
                log.push(Event::Busy(l));
                Outcome::Busy(l)
            }
            Action::Finished => break,
            Action::Aborted => panic!("session aborted"),
        };
        session.advance(outcome);
    }
    assert!(reads.next().is_none(), "busy line read less often than expected");
    log
}

fn command(c: u8) -> Vec<Event> {
    vec![Event::Dc(Level::Low), Event::Write(vec![c])]
}

fn data(d: &[u8]) -> Vec<Event> {
    vec![Event::Dc(Level::High), Event::Write(d.to_vec())]
}

fn reset_events() -> Vec<Event> {
    vec![
        Event::Reset(Level::Low),
        Event::DelayNs(1_000_000),
        Event::Reset(Level::High),
        Event::DelayNs(200_000_000),
    ]
}

fn wakeup_events() -> Vec<Event> {
    let mut e = reset_events();
    e.push(Event::Busy(Level::Low));
    e.push(Event::Busy(Level::Low));
    e.push(Event::Busy(Level::High));
    e.extend(command(0x00));
    e.extend(data(&[0xEF, 0x08]));
    e.extend(command(0x01));
    e.extend(data(&[0x37, 0x00, 0x05, 0x05]));
    e.extend(command(0x03));
    e.extend(data(&[0x00]));
    e.extend(command(0x06));
    e.extend(data(&[0xC7, 0xC7, 0x1D]));
    e.extend(command(0x41));
    e.extend(data(&[0x00]));
    e.extend(command(0x50));
    e.extend(data(&[0x37]));
    e.extend(command(0x60));
    e.extend(data(&[0x20]));
    e.extend(command(0x61));
    e.extend(data(&[0x02, 0x58, 0x01, 0xC0]));
    e.extend(command(0xE3));
    e.extend(data(&[0xAA]));
    e.push(Event::DelayNs(100_000_000));
    e.extend(command(0x50));
    e.extend(data(&[0x37]));
    e
}

fn sleep_events() -> Vec<Event> {
    let mut e = vec![Event::DelayNs(10_000_000)];
    e.extend(command(0x07));
    e.extend(data(&[0xA5]));
    e.push(Event::DelayNs(100_000_000));
    e.push(Event::Reset(Level::Low));
    e.push(Event::Dc(Level::Low));
    e
}

const WAKE_BUSY: [Level; 3] = [Level::Low, Level::Low, Level::High];

#[test]
fn test_reset_panel() {
    let log = run(Session::reset_panel(), &[], &[]);
    assert_eq!(log, reset_events());
}

#[test]
fn test_send_command() {
    let log = run(Session::send_command(23), &[], &[]);
    assert_eq!(log, vec![Event::Dc(Level::Low), Event::Write(vec![23])]);
}

#[test]
fn test_send_data() {
    let log = run(Session::send_data(vec![20, 45]), &[], &[]);
    assert_eq!(log, vec![Event::Dc(Level::High), Event::Write(vec![20, 45])]);
}

#[test]
fn test_sleep_panel() {
    let log = run(Session::sleep(), &[], &[]);
    assert_eq!(log, sleep_events());
}

#[test]
fn test_wakeup() {
    let log = run(Session::wakeup(), &[], &WAKE_BUSY);
    assert_eq!(log, wakeup_events());
}

#[test]
fn test_init() {
    let d = Display::new();
    let log = run(d.init(), d.buffer(), &WAKE_BUSY);
    let mut expected = wakeup_events();
    expected.extend(sleep_events());
    assert_eq!(log, expected);
}

#[test]
fn test_display() {
    let d = Display::new();
    let busy = [
        Level::Low,
        Level::Low,
        Level::High,
        Level::High,
        Level::Low,
        Level::High,
        Level::High,
        Level::High,
        Level::Low,
    ];
    let log = run(d.display(), d.buffer(), &busy);

    let mut expected = wakeup_events();
    expected.extend(command(0x61));
    expected.extend(data(&[0x02, 0x58, 0x01, 0xc0]));
    expected.extend(command(0x10));
    expected.extend(data(&[0b00010001; 600 * 448 / 2]));
    expected.extend(command(0x04));
    expected.push(Event::Busy(Level::High));
    expected.extend(command(0x12));
    expected.push(Event::Busy(Level::Low));
    expected.push(Event::Busy(Level::High));
    expected.extend(command(0x04));
    expected.push(Event::Busy(Level::High));
    expected.push(Event::Busy(Level::High));
    expected.push(Event::Busy(Level::Low));
    expected.push(Event::DelayNs(200_000_000));
    expected.extend(sleep_events());
    assert_eq!(log.len(), expected.len());
    assert_eq!(log, expected);
}

#[test]
fn display_sends_the_current_frame() {
    let mut d = Display::new();
    d.set_pixel(0, 0, ab1024_ega::color::Color::RED).unwrap();
    let busy = [
        Level::High,
        Level::High,
        Level::High,
        Level::Low,
    ];
    let log = run(d.display(), d.buffer(), &busy);
    let frame = log
        .iter()
        .find_map(|e| match e {
            Event::Write(b) if b.len() > 4 => Some(b.clone()),
            _ => None,
        })
        .unwrap();
    assert_eq!(frame[0], 0x41);
    assert_eq!(frame[1], 0x11);
}

#[test]
fn fault_aborts_the_sequence() {
    let mut s = Session::display();
    assert!(matches!(s.action(), Action::SetReset(Level::Low)));
    s.advance(Outcome::Done);
    assert!(matches!(s.action(), Action::DelayMs(1)));
    s.advance(Outcome::Fault);
    assert!(matches!(s.action(), Action::Aborted));
    s.advance(Outcome::Done);
    assert!(matches!(s.action(), Action::Aborted));
    assert_eq!(s.state(), PanelState::Unknown);
}

#[test]
fn busy_wait_repeats_until_level_changes() {
    let mut s = Session::wakeup();
    for _ in 0..4 {
        s.advance(Outcome::Done);
    }
    for _ in 0..5 {
        assert!(matches!(s.action(), Action::ReadBusy));
        s.advance(Outcome::Busy(Level::Low));
    }
    assert!(matches!(s.action(), Action::ReadBusy));
    s.advance(Outcome::Done);
    assert!(matches!(s.action(), Action::ReadBusy));
    s.advance(Outcome::Busy(Level::High));
    assert!(matches!(s.action(), Action::SetDataCommand(Level::Low)));
}

#[test]
fn power_state_follows_the_sequence() {
    let mut s = Session::init();
    assert_eq!(s.state(), PanelState::Unknown);
    let mut saw_awake = false;
    loop {
        let outcome = match s.action() {
            Action::Finished => break,
            Action::Aborted => panic!("session aborted"),
            Action::ReadBusy => Outcome::Busy(Level::High),
            _ => Outcome::Done,
        };
        s.advance(outcome);
        if s.state() == PanelState::Awake {
            saw_awake = true;
        }
    }
    assert!(saw_awake);
    assert_eq!(s.state(), PanelState::Asleep);

    let mut w = Session::wakeup();
    loop {
        let outcome = match w.action() {
            Action::Finished => break,
            Action::ReadBusy => Outcome::Busy(Level::High),
            _ => Outcome::Done,
        };
        w.advance(outcome);
    }
    assert_eq!(w.state(), PanelState::Awake);
}
