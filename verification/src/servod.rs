//! The servod launch protocol: candidate-port selection, the line-by-line
//! readiness monitor over the daemon's two output channels, the launch state
//! machine, and the connection handle used to drive a running daemon.

use vstd::prelude::*;
use rand::seq::SliceRandom;
use crate::chars::{contains_seq, str_contains};
use crate::error::ServoError;
use crate::servo::LocalServo;

verus! {

/// First candidate network port of the band a daemon may bind.
pub const PORT_RANGE_START: u16 = 9000;

/// Number of candidate ports in the band.
pub const PORT_RANGE_COUNT: u16 = 99;

/// The candidate ports, in ascending order.
pub open spec fn spec_candidate_ports() -> Seq<u16> {
    Seq::new(PORT_RANGE_COUNT as nat, |i: int| (PORT_RANGE_START + i) as u16)
}

/// The candidate ports for a launch, in ascending (deterministic) order.
pub fn candidate_ports() -> (r: Vec<u16>)
    ensures
        r@ == spec_candidate_ports(),
{
    let mut r: Vec<u16> = Vec::new();
    let mut p: u16 = 0;
    while p < PORT_RANGE_COUNT
        invariant
            p <= PORT_RANGE_COUNT,
            r@.len() == p,
            forall|i: int| 0 <= i < p ==> r@[i] == (PORT_RANGE_START + i) as u16,
        decreases PORT_RANGE_COUNT - p,
    {
        r.push(PORT_RANGE_START + p);
        p = p + 1;
    }
    assert(r@ =~= spec_candidate_ports());
    r
}

/// Relies on rand's `SliceRandom::shuffle`: a Fisher-Yates pass that permutes
/// the slice in place, so the result holds exactly the same elements.
#[verifier::external_body]
fn shuffle_ports(v: &mut Vec<u16>)
    ensures
        final(v)@.len() == old(v)@.len(),
        final(v)@.to_multiset() == old(v)@.to_multiset(),
{
    let mut rng = rand::rng();
    v.as_mut_slice().shuffle(&mut rng);
}

/// The candidate ports in a fresh random order, shuffled once per
/// orchestration attempt so that concurrent launches targeting different
/// devices rarely collide on a port.
pub fn shuffled_candidate_ports() -> (r: Vec<u16>)
    ensures
        r@.len() == spec_candidate_ports().len(),
        r@.to_multiset() == spec_candidate_ports().to_multiset(),
{
    let mut ports = candidate_ports();
    shuffle_ports(&mut ports);
    ports
}

/// One observation made while monitoring a freshly launched daemon: a line
/// on one of its two output channels, or the end of one of them.
pub enum ServodEvent {
    /// A line on the diagnostic channel.
    DiagnosticLine(String),
    /// A line on the primary channel.
    PrimaryLine(String),
    /// The diagnostic channel closed.
    DiagnosticClosed,
    /// The primary channel closed.
    PrimaryClosed,
}

/// What one observed event means for the attempt in progress.
#[derive(Clone, Copy, Debug, PartialEq, Eq, Structural)]
pub enum MonitorVerdict {
    /// Nothing decided yet: keep monitoring.
    KeepWaiting,
    /// Another daemon already owns the port: abandon it and try the next.
    PortBusy,
    /// The daemon reported readiness on its port.
    Ready,
    /// An output channel closed before any marker was seen: the daemon
    /// crashed, and the whole launch fails.
    Crashed,
}

/// The meaning of one event: the busy marker on the diagnostic channel, the
/// readiness marker on the primary channel, and a closed channel as a crash.
pub open spec fn spec_verdict(e: ServodEvent) -> MonitorVerdict {
    match e {
        ServodEvent::DiagnosticLine(l) => if contains_seq(l@, "is busy"@) {
            MonitorVerdict::PortBusy
        } else {
            MonitorVerdict::KeepWaiting
        },
        ServodEvent::PrimaryLine(l) => if contains_seq(l@, "Listening on localhost port"@) {
            MonitorVerdict::Ready
        } else {
            MonitorVerdict::KeepWaiting
        },
        ServodEvent::DiagnosticClosed => MonitorVerdict::Crashed,
        ServodEvent::PrimaryClosed => MonitorVerdict::Crashed,
    }
}

/// Classify one observed event by the two textual markers of the daemon's
/// output contract.
pub fn classify_event(e: &ServodEvent) -> (v: MonitorVerdict)
    ensures
        v == spec_verdict(*e),
{
    match e {
        ServodEvent::DiagnosticLine(l) => {
            if str_contains(l.as_str(), "is busy") {
                MonitorVerdict::PortBusy
            } else {
                MonitorVerdict::KeepWaiting
            }
        },
        ServodEvent::PrimaryLine(l) => {
            if str_contains(l.as_str(), "Listening on localhost port") {
                MonitorVerdict::Ready
            } else {
                MonitorVerdict::KeepWaiting
            }
        },
        ServodEvent::DiagnosticClosed => MonitorVerdict::Crashed,
        ServodEvent::PrimaryClosed => MonitorVerdict::Crashed,
    }
}

/// Where a launch stands.
#[derive(Clone, Copy, Debug, PartialEq, Eq, Structural)]
pub enum LaunchState {
    /// No attempt is running; the next candidate port may be taken.
    Selecting,
    /// A daemon was launched on the port and its output is being monitored.
    Awaiting(u16),
    /// The daemon is ready on the port.
    Done(u16),
    /// The launch failed for good, with the terminal condition.
    Failed(ServoError),
}

/// The launch state machine: it walks the candidate ports in order, hands
/// out one port per attempt, and turns observed daemon output into the next
/// state. The surrounding loop launches the daemon on each handed-out port,
/// feeds every observed line or close back in, and must terminate the
/// daemon process whenever an attempt is abandoned.
pub struct ServodLauncher {
    /// Serial of the device the daemon is launched for.
    pub serial: String,
    /// Candidate ports, tried front to back.
    pub ports: Vec<u16>,
    /// Index of the next untried candidate port.
    pub next: usize,
    /// How many observed lines one attempt may consume before it is
    /// abandoned as timed out rather than waiting forever.
    pub line_budget: u32,
    /// Lines the current attempt may still consume.
    pub budget: u32,
    /// Where the launch stands.
    pub state: LaunchState,
}

impl ServodLauncher {
    /// A launch over the given candidate ports for the device with the
    /// given serial. `line_budget` bounds the observed lines per attempt.
    pub fn new(serial: String, ports: Vec<u16>, line_budget: u32) -> (r: Self)
        requires
            line_budget > 0,
        ensures
            r.serial@ == serial@,
            r.ports@ == ports@,
            r.next == 0,
            r.line_budget == line_budget,
            r.state == LaunchState::Selecting,
    {
        ServodLauncher {
            serial,
            ports,
            next: 0,
            line_budget,
            budget: line_budget,
            state: LaunchState::Selecting,
        }
    }

    /// Take the next candidate port and move to monitoring: the caller must
    /// launch the daemon on the returned port. With every candidate
    /// exhausted, the launch fails for good.
    pub fn begin_attempt(&mut self) -> (r: Option<u16>)
        requires
            old(self).state == LaunchState::Selecting,
        ensures
            final(self).serial@ == old(self).serial@,
            final(self).ports@ == old(self).ports@,
            final(self).line_budget == old(self).line_budget,
            old(self).next < old(self).ports@.len() ==> {
                &&& r == Some(old(self).ports@[old(self).next as int])
                &&& final(self).state == LaunchState::Awaiting(
                    old(self).ports@[old(self).next as int],
                )
                &&& final(self).next == old(self).next + 1
                &&& final(self).budget == old(self).line_budget
            },
            old(self).next >= old(self).ports@.len() ==> {
                &&& r is None
                &&& final(self).state == LaunchState::Failed(ServoError::PortsExhausted)
                &&& final(self).next == old(self).next
            },
    {
        if self.next < self.ports.len() {
            let p = self.ports[self.next];
            self.next = self.next + 1;
            self.budget = self.line_budget;
            self.state = LaunchState::Awaiting(p);
            Some(p)
        } else {
            self.state = LaunchState::Failed(ServoError::PortsExhausted);
            None
        }
    }

    /// Feed one observed event of the monitored daemon. A busy marker
    /// abandons the port (the caller terminates the daemon and begins the
    /// next attempt); the readiness marker ends the launch on the attempt's
    /// port; a closed channel fails the launch for good; anything else
    /// consumes one line of the attempt's budget, and an exhausted budget
    /// fails the launch as timed out instead of waiting forever.
    pub fn on_event(&mut self, e: &ServodEvent) -> (v: MonitorVerdict)
        requires
            old(self).state matches LaunchState::Awaiting(_),
        ensures
            v == spec_verdict(*e),
            final(self).serial@ == old(self).serial@,
            final(self).ports@ == old(self).ports@,
            final(self).next == old(self).next,
            final(self).line_budget == old(self).line_budget,
            v == MonitorVerdict::PortBusy ==> final(self).state == LaunchState::Selecting,
            v == MonitorVerdict::Crashed ==> final(self).state == LaunchState::Failed(
                ServoError::ServodCrashed,
            ),
            v == MonitorVerdict::Ready ==> (old(self).state matches LaunchState::Awaiting(p)
                && final(self).state == LaunchState::Done(p)),
            v == MonitorVerdict::KeepWaiting ==> {
                &&& old(self).budget > 1 ==> (final(self).state == old(self).state
                    && final(self).budget == old(self).budget - 1)
                &&& old(self).budget <= 1 ==> final(self).state == LaunchState::Failed(
                    ServoError::ServodTimedOut,
                )
            },
    {
        let v = classify_event(e);
        match v {
            MonitorVerdict::PortBusy => {
                self.state = LaunchState::Selecting;
            },
            MonitorVerdict::Crashed => {
                self.state = LaunchState::Failed(ServoError::ServodCrashed);
            },
            MonitorVerdict::Ready => {
                let p = match self.state {
                    LaunchState::Awaiting(p) => p,
                    _ => 0,
                };
                self.state = LaunchState::Done(p);
            },
            MonitorVerdict::KeepWaiting => {
                if self.budget > 1 {
                    self.budget = self.budget - 1;
                } else {
                    self.state = LaunchState::Failed(ServoError::ServodTimedOut);
                }
            },
        }
        v
    }
}

/// A decimal digit.
pub open spec fn is_digit(c: char) -> bool {
    '0' <= c && c <= '9'
}

/// The value of one decimal digit.
pub open spec fn digit_val(c: char) -> int {
    if c == '0' {
        0
    } else if c == '1' {
        1
    } else if c == '2' {
        2
    } else if c == '3' {
        3
    } else if c == '4' {
        4
    } else if c == '5' {
        5
    } else if c == '6' {
        6
    } else if c == '7' {
        7
    } else if c == '8' {
        8
    } else {
        9
    }
}

/// The digit denoting a value below ten.
pub open spec fn digit_char(d: int) -> char {
    if d == 0 {
        '0'
    } else if d == 1 {
        '1'
    } else if d == 2 {
        '2'
    } else if d == 3 {
        '3'
    } else if d == 4 {
        '4'
    } else if d == 5 {
        '5'
    } else if d == 6 {
        '6'
    } else if d == 7 {
        '7'
    } else if d == 8 {
        '8'
    } else {
        '9'
    }
}

/// Every character is a decimal digit.
pub open spec fn all_digits(s: Seq<char>) -> bool {
    forall|i: int| 0 <= i < s.len() ==> is_digit(#[trigger] s[i])
}

/// The number the digit string denotes.
pub open spec fn digits_val(s: Seq<char>) -> int
    decreases s.len(),
{
    if s.len() == 0 {
        0
    } else {
        digits_val(s.drop_last()) * 10 + digit_val(s.last())
    }
}

/// The port a process-table scrape denotes: a non-empty all-digit string
/// whose value fits a 16-bit port, else nothing.
pub open spec fn spec_parse_port(s: Seq<char>) -> Option<u16> {
    if s.len() > 0 && all_digits(s) && digits_val(s) <= 65535 {
        Some(digits_val(s) as u16)
    } else {
        None
    }
}

/// Parse a network port from its decimal text, as extracted from a running
/// daemon's launch arguments.
pub fn parse_port(s: &str) -> (r: Option<u16>)
    ensures
        r == spec_parse_port(s@),
{
    let v = crate::chars::str_to_chars(s);
    let n = v.len();
    if n == 0 {
        return None;
    }
    let mut acc: u32 = 0;
    let mut i: usize = 0;
    while i < n
        invariant
            i <= n,
            n == v@.len(),
            v@ == s@,
            acc <= 65536,
            forall|k: int| 0 <= k < i ==> is_digit(#[trigger] s@[k]),
            digits_val(s@.subrange(0, i as int)) <= 65535 ==> acc == digits_val(
                s@.subrange(0, i as int),
            ),
            digits_val(s@.subrange(0, i as int)) > 65535 ==> acc == 65536,
            digits_val(s@.subrange(0, i as int)) >= 0,
        decreases n - i,
    {
        let c = v[i];
        let d: u32 = if c == '0' {
            0
        } else if c == '1' {
            1
        } else if c == '2' {
            2
        } else if c == '3' {
            3
        } else if c == '4' {
            4
        } else if c == '5' {
            5
        } else if c == '6' {
            6
        } else if c == '7' {
            7
        } else if c == '8' {
            8
        } else if c == '9' {
            9
        } else {
            assert(!is_digit(s@[i as int]));
            return None;
        };
        assert(is_digit(s@[i as int]) && d == digit_val(s@[i as int]));
        let ghost pre = s@.subrange(0, i as int);
        let ghost cur = s@.subrange(0, i + 1 as int);
        proof {
            assert(cur.drop_last() =~= pre);
            assert(cur.last() == s@[i as int]);
        }
        if acc <= 65535 {
            let next = acc * 10 + d;
            if next > 65535 {
                acc = 65536;
            } else {
                acc = next;
            }
        } else {
            assert(digits_val(pre) > 65535);
            assert(digits_val(cur) == digits_val(pre) * 10 + digit_val(s@[i as int]));
            assert(digits_val(pre) * 10 >= digits_val(pre));
            acc = 65536;
        }
        i = i + 1;
    }
    proof {
        assert(s@.subrange(0, n as int) =~= s@);
    }
    if acc <= 65535 {
        Some(acc as u16)
    } else {
        None
    }
}

/// The decimal text of a non-negative number.
pub open spec fn spec_decimal(n: int) -> Seq<char>
    decreases n,
{
    if n < 0 {
        Seq::empty()
    } else if n < 10 {
        seq![digit_char(n)]
    } else {
        spec_decimal(n / 10).push(digit_char(n % 10))
    }
}

fn decimal_digit(d: u16) -> (r: char)
    requires
        d < 10,
    ensures
        r == digit_char(d as int),
{
    if d == 0 {
        '0'
    } else if d == 1 {
        '1'
    } else if d == 2 {
        '2'
    } else if d == 3 {
        '3'
    } else if d == 4 {
        '4'
    } else if d == 5 {
        '5'
    } else if d == 6 {
        '6'
    } else if d == 7 {
        '7'
    } else if d == 8 {
        '8'
    } else {
        '9'
    }
}

fn port_digit_chars(p: u16) -> (r: Vec<char>)
    ensures
        r@ == spec_decimal(p as int),
    decreases p,
{
    if p < 10 {
        let mut r: Vec<char> = Vec::new();
        r.push(decimal_digit(p));
        assert(r@ =~= spec_decimal(p as int));
        r
    } else {
        let mut r = port_digit_chars(p / 10);
        r.push(decimal_digit(p % 10));
        assert(r@ =~= spec_decimal(p as int));
        r
    }
}

/// The decimal text of a port number, as placed in daemon and control-CLI
/// argument lists.
pub fn format_port(p: u16) -> (r: String)
    ensures
        r@ == spec_decimal(p as int),
{
    let chars = port_digit_chars(p);
    crate::chars::chars_to_string(&chars)
}

impl LocalServo {
    /// The argument list that launches this device's control daemon bound
    /// to the given port.
    pub fn servod_args(&self, port: u16) -> (r: Vec<String>)
        ensures
            r@.len() == 6,
            r@[0]@ == "sudo"@,
            r@[1]@ == "servod"@,
            r@[2]@ == "-s"@,
            r@[3]@ == self@.serial,
            r@[4]@ == "-p"@,
            r@[5]@ == spec_decimal(port as int),
    {
        let mut r: Vec<String> = Vec::new();
        r.push("sudo".to_owned());
        r.push("servod".to_owned());
        r.push("-s".to_owned());
        r.push(self.serial().to_owned());
        r.push("-p".to_owned());
        r.push(format_port(port));
        r
    }
}

/// A control-daemon endpoint: the device's serial, the host the daemon
/// listens on (always the local machine here), and its bound port.
pub struct ServodConnection {
    /// Serial of the device the daemon drives.
    pub serial: String,
    /// Host the daemon listens on.
    pub host: String,
    /// The daemon's bound network port.
    pub port: u16,
}

impl ServodConnection {
    /// The connection for an already-running daemon found in the host's
    /// process table: `port_text` is the port argument scraped from the
    /// daemon's launch arguments, absent when no daemon matched the serial.
    /// Without a match, or with a port that is no valid 16-bit number, the
    /// daemon is reported as not running.
    pub fn from_serial(serial: &str, port_text: Option<&str>) -> (r: Result<Self, ServoError>)
        ensures
            match port_text {
                Some(t) => match spec_parse_port(t@) {
                    Some(p) => r matches Ok(c) && c.serial@ == serial@ && c.host@ == "localhost"@
                        && c.port == p,
                    None => r == Err::<Self, ServoError>(ServoError::NotRunning),
                },
                None => r == Err::<Self, ServoError>(ServoError::NotRunning),
            },
    {
        match port_text {
            Some(t) => match parse_port(t) {
                Some(p) => Ok(ServodConnection {
                    serial: serial.to_owned(),
                    host: "localhost".to_owned(),
                    port: p,
                }),
                None => Err(ServoError::NotRunning),
            },
            None => Err(ServoError::NotRunning),
        }
    }

    /// Serial of the device the daemon drives.
    pub fn serial(&self) -> (r: &str)
        ensures
            r@ == self.serial@,
    {
        self.serial.as_str()
    }

    /// Host the daemon listens on.
    pub fn host(&self) -> (r: &str)
        ensures
            r@ == self.host@,
    {
        self.host.as_str()
    }

    /// The daemon's bound network port.
    pub fn port(&self) -> (r: u16)
        ensures
            r == self.port,
    {
        self.port
    }

    /// The argument list for one control-CLI invocation against this
    /// daemon: the caller's arguments behind the CLI name and the daemon's
    /// port.
    pub fn dut_control_args(&self, args: &Vec<String>) -> (r: Vec<String>)
        ensures
            r@.len() == 3 + args@.len(),
            r@[0]@ == "dut-control"@,
            r@[1]@ == "-p"@,
            r@[2]@ == spec_decimal(self.port as int),
            forall|i: int| 0 <= i < args@.len() ==> r@[3 + i]@ == (#[trigger] args@[i])@,
    {
        let mut r: Vec<String> = Vec::new();
        r.push("dut-control".to_owned());
        r.push("-p".to_owned());
        r.push(format_port(self.port));
        let mut i: usize = 0;
        while i < args.len()
            invariant
                i <= args@.len(),
                r@.len() == 3 + i,
                r@[0]@ == "dut-control"@,
                r@[1]@ == "-p"@,
                r@[2]@ == spec_decimal(self.port as int),
                forall|k: int| 0 <= k < i ==> r@[3 + k]@ == (#[trigger] args@[k])@,
            decreases args@.len() - i,
        {
            r.push(args[i].clone());
            i = i + 1;
        }
        r
    }
}

} // verus!
