//! Tap-to-polish: the decisions of the accelerometer helper (how hard a slap
//! must be, and the cooldown between two slaps), its command line, the
//! messages it sends, and the launchd job that runs it.
use vstd::prelude::*;
use crate::text::{str_eq, trim, trimmed};

verus! {

broadcast use vstd::string::group_string_axioms;

// ---------------------------------------------------------------------------
// Sensitivity
// ---------------------------------------------------------------------------

/// How hard the chassis must be hit to count as a slap.
#[derive(Debug, Clone, Copy, PartialEq, Eq, Structural)]
pub enum Sensitivity {
    /// Only strong slaps.
    Low,
    /// The default.
    Medium,
    /// Lighter slaps too.
    High,
}

pub const LEVEL_LOW: &'static str = "low";

pub const LEVEL_MEDIUM: &'static str = "medium";

pub const LEVEL_HIGH: &'static str = "high";

/// The sensitivity that a name selects: `"low"`, `"high"`, anything else medium.
pub open spec fn level_of(name: Seq<char>) -> Sensitivity {
    if name == LEVEL_LOW@ {
        Sensitivity::Low
    } else if name == LEVEL_HIGH@ {
        Sensitivity::High
    } else {
        Sensitivity::Medium
    }
}

/// The slap threshold of a sensitivity, in thousandths of g of deviation from
/// gravity (light taps peak near 60, slaps at 300 to 800).
pub open spec fn threshold_of(level: Sensitivity) -> u32 {
    match level {
        Sensitivity::Low => 300,
        Sensitivity::Medium => 200,
        Sensitivity::High => 120,
    }
}

impl Sensitivity {
    /// The sensitivity that `name` selects.
    pub fn from_name(name: &str) -> (r: Sensitivity)
        ensures
            r == level_of(name@),
    {
        if str_eq(name, LEVEL_LOW) {
            Sensitivity::Low
        } else if str_eq(name, LEVEL_HIGH) {
            Sensitivity::High
        } else {
            Sensitivity::Medium
        }
    }

    /// The slap threshold in thousandths of g.
    pub fn threshold_milli_g(&self) -> (r: u32)
        ensures
            r == threshold_of(*self),
    {
        match self {
            Sensitivity::Low => 300,
            Sensitivity::Medium => 200,
            Sensitivity::High => 120,
        }
    }
}

/// A higher sensitivity never needs a harder slap, and every threshold lies
/// above a light tap (60 thousandths of g).
pub proof fn lemma_thresholds_ordered()
    ensures
        threshold_of(Sensitivity::High) < threshold_of(Sensitivity::Medium),
        threshold_of(Sensitivity::Medium) < threshold_of(Sensitivity::Low),
        forall|l: Sensitivity| threshold_of(l) > 60,
{
}

// ---------------------------------------------------------------------------
// Cooldown between slaps
// ---------------------------------------------------------------------------

/// Time that must pass after a slap before another one counts (2 s).
pub const SLAP_COOLDOWN_NS: u64 = 2_000_000_000;

/// At start the last slap is taken to lie this far in the past (10 s).
pub const START_QUIET_NS: u64 = 10_000_000_000;

/// Time from `last` to `now`; zero when `now` is earlier, as for
/// `Instant::elapsed`.
pub open spec fn elapsed(last: int, now: int) -> int {
    if now > last {
        now - last
    } else {
        0
    }
}

/// Whether a sample fires: it must exceed the threshold, and more than the
/// cooldown must have passed since the last slap.
pub open spec fn fires(last: int, cooldown: int, over_threshold: bool, now: int) -> bool {
    over_threshold && elapsed(last, now) > cooldown
}

/// Decides which accelerometer samples count as slaps: a slap is reported at
/// most once per cooldown.
pub struct SlapGate {
    cooldown_ns: u64,
    last_slap_ns: i128,
}

impl SlapGate {
    #[verifier::type_invariant]
    closed spec fn in_range(self) -> bool {
        -(START_QUIET_NS as int) <= self.last_slap_ns <= u64::MAX
    }

    /// The time of the last slap, in nanoseconds on the caller's clock.
    pub closed spec fn last_slap(&self) -> int {
        self.last_slap_ns as int
    }

    /// The cooldown in nanoseconds.
    pub closed spec fn cooldown(&self) -> int {
        self.cooldown_ns as int
    }

    /// A gate created at time `now_ns`, whose last slap lies ten seconds
    /// before that.
    pub fn new(now_ns: u64) -> (r: SlapGate)
        ensures
            r.last_slap() == now_ns - START_QUIET_NS,
            r.cooldown() == SLAP_COOLDOWN_NS,
    {
        SlapGate {
            cooldown_ns: SLAP_COOLDOWN_NS,
            last_slap_ns: now_ns as i128 - START_QUIET_NS as i128,
        }
    }

    /// Feeds one sample taken at `now_ns`; `over_threshold` says whether its
    /// deviation from gravity exceeds the threshold. Returns whether it is a
    /// slap; a slap becomes the last one.
    pub fn feed(&mut self, over_threshold: bool, now_ns: u64) -> (slap: bool)
        ensures
            slap == fires(old(self).last_slap(), old(self).cooldown(), over_threshold, now_ns as int),
            final(self).cooldown() == old(self).cooldown(),
            final(self).last_slap() == if slap {
                now_ns as int
            } else {
                old(self).last_slap()
            },
    {
        proof {
            use_type_invariant(&*self);
        }
        let now = now_ns as i128;
        let elapsed: i128 = if now > self.last_slap_ns {
            now - self.last_slap_ns
        } else {
            0
        };
        if over_threshold && elapsed > self.cooldown_ns as i128 {
            self.last_slap_ns = now;
            true
        } else {
            false
        }
    }
}

/// Two slaps are always more than the cooldown apart: right after a slap at
/// `t`, no sample up to `t + cooldown` fires, however hard.
pub proof fn lemma_cooldown_blocks(t: int, cooldown: int, now: int)
    requires
        cooldown >= 0,
        now <= t + cooldown,
    ensures
        !fires(t, cooldown, true, now),
{
}

/// A sample under the threshold is never a slap.
pub proof fn lemma_quiet_never_fires(last: int, cooldown: int, now: int)
    ensures
        !fires(last, cooldown, false, now),
{
}

/// The first hard slap after start fires: the start lies ten seconds after
/// the assumed last slap, more than the cooldown.
pub proof fn lemma_first_slap_fires(start: int, now: int)
    requires
        now >= start,
    ensures
        fires(start - START_QUIET_NS, SLAP_COOLDOWN_NS as int, true, now),
{
}

// ---------------------------------------------------------------------------
// Command line of the helper
// ---------------------------------------------------------------------------

/// The option that names the sensitivity.
pub const SENSITIVITY_FLAG: &'static str = "--sensitivity";

/// The option that records raw samples instead of detecting slaps.
pub const RECORD_FLAG: &'static str = "--record";

/// Whether a name is one of the three sensitivity names.
pub open spec fn is_level_name(s: Seq<char>) -> bool {
    s == LEVEL_LOW@ || s == LEVEL_MEDIUM@ || s == LEVEL_HIGH@
}

/// The sensitivity named on the command line, searched from position `i`:
/// the value after the first `--sensitivity` that is followed by a valid
/// name; `"medium"` when there is none.
pub open spec fn sensitivity_from(args: Seq<Seq<char>>, i: int) -> Seq<char>
    decreases args.len() - i,
{
    if i < 0 || i >= args.len() {
        LEVEL_MEDIUM@
    } else if args[i] == SENSITIVITY_FLAG@ && i + 1 < args.len() && is_level_name(args[i + 1]) {
        args[i + 1]
    } else {
        sensitivity_from(args, i + 1)
    }
}

/// The value after the first `--sensitivity` that names a sensitivity is the
/// one chosen, exactly as written.
pub proof fn lemma_first_valid_flag_wins(args: Seq<Seq<char>>, i: int)
    requires
        0 <= i && i + 1 < args.len(),
        args[i] == "--sensitivity"@,
        args[i + 1] == "low"@ || args[i + 1] == "medium"@ || args[i + 1] == "high"@,
        forall|j: int|
            0 <= j < i ==> !(#[trigger] args[j] == "--sensitivity"@ && (args[j + 1] == "low"@
                || args[j + 1] == "medium"@ || args[j + 1] == "high"@)),
    ensures
        sensitivity_from(args, 0) == args[i + 1],
{
    lemma_sensitivity_from_reaches(args, 0, i);
}

proof fn lemma_sensitivity_from_reaches(args: Seq<Seq<char>>, k: int, i: int)
    requires
        0 <= k <= i,
        i + 1 < args.len(),
        args[i] == "--sensitivity"@,
        args[i + 1] == "low"@ || args[i + 1] == "medium"@ || args[i + 1] == "high"@,
        forall|j: int|
            0 <= j < i ==> !(#[trigger] args[j] == "--sensitivity"@ && (args[j + 1] == "low"@
                || args[j + 1] == "medium"@ || args[j + 1] == "high"@)),
    ensures
        sensitivity_from(args, k) == args[i + 1],
    decreases i - k,
{
    if k < i {
        assert(!(args[k] == "--sensitivity"@ && (args[k + 1] == "low"@ || args[k + 1] == "medium"@
            || args[k + 1] == "high"@)));
        lemma_sensitivity_from_reaches(args, k + 1, i);
    }
}

/// Without a `--sensitivity` followed by a sensitivity name, the helper runs
/// at medium.
pub proof fn lemma_default_medium(args: Seq<Seq<char>>, k: int)
    requires
        0 <= k,
        forall|j: int|
            0 <= j && j + 1 < args.len() ==> !(#[trigger] args[j] == "--sensitivity"@ && (args[j
                + 1] == "low"@ || args[j + 1] == "medium"@ || args[j + 1] == "high"@)),
    ensures
        sensitivity_from(args, k) == "medium"@,
    decreases args.len() - k,
{
    if k < args.len() {
        lemma_default_medium(args, k + 1);
    }
}

/// What the chosen sensitivity is, in terms of the command line itself.
proof fn lemma_sensitivity_meaning(args: Seq<String>)
    ensures
        forall|i: int|
            0 <= i && i + 1 < args.len() && args[i]@ == "--sensitivity"@ && (args[i + 1]@
                == "low"@ || args[i + 1]@ == "medium"@ || args[i + 1]@ == "high"@) && (forall|
                j: int,
            |
                0 <= j < i ==> !(#[trigger] args[j]@ == "--sensitivity"@ && (args[j + 1]@
                    == "low"@ || args[j + 1]@ == "medium"@ || args[j + 1]@ == "high"@)))
                ==> sensitivity_from(crate::models::views(args), 0) == #[trigger] args[i + 1]@,
        (forall|j: int|
            0 <= j && j + 1 < args.len() ==> !(#[trigger] args[j]@ == "--sensitivity"@ && (
            args[j + 1]@ == "low"@ || args[j + 1]@ == "medium"@ || args[j + 1]@ == "high"@)))
            ==> sensitivity_from(crate::models::views(args), 0) == "medium"@,
{
    let a = crate::models::views(args);
    assert forall|i: int|
        0 <= i && i + 1 < args.len() && args[i]@ == "--sensitivity"@ && (args[i + 1]@
            == "low"@ || args[i + 1]@ == "medium"@ || args[i + 1]@ == "high"@) && (forall|
            j: int,
        |
            0 <= j < i ==> !(#[trigger] args[j]@ == "--sensitivity"@ && (args[j + 1]@
                == "low"@ || args[j + 1]@ == "medium"@ || args[j + 1]@ == "high"@))) implies
        sensitivity_from(a, 0) == #[trigger] args[i + 1]@ by {
        assert forall|j: int|
            0 <= j < i implies !(#[trigger] a[j] == "--sensitivity"@ && (a[j + 1] == "low"@
            || a[j + 1] == "medium"@ || a[j + 1] == "high"@)) by {
            assert(a[j] == args[j]@);
            assert(a[j + 1] == args[j + 1]@);
        }
        lemma_first_valid_flag_wins(a, i);
    }
    if forall|j: int|
        0 <= j && j + 1 < args.len() ==> !(#[trigger] args[j]@ == "--sensitivity"@ && (
        args[j + 1]@ == "low"@ || args[j + 1]@ == "medium"@ || args[j + 1]@ == "high"@)) {
        assert forall|j: int|
            0 <= j && j + 1 < a.len() implies !(#[trigger] a[j] == "--sensitivity"@ && (a[j
            + 1] == "low"@ || a[j + 1] == "medium"@ || a[j + 1] == "high"@)) by {
            assert(a[j] == args[j]@);
            assert(a[j + 1] == args[j + 1]@);
        }
        lemma_default_medium(a, 0);
    }
}

/// The sensitivity named by the command line `args`.
pub fn parse_sensitivity(args: &Vec<String>) -> (r: String)
    ensures
        r@ == sensitivity_from(crate::models::views(args@), 0),
        is_level_name(r@),
        forall|i: int|
            0 <= i && i + 1 < args@.len() && args@[i]@ == "--sensitivity"@ && (args@[i + 1]@
                == "low"@ || args@[i + 1]@ == "medium"@ || args@[i + 1]@ == "high"@) && (forall|
                j: int,
            |
                0 <= j < i ==> !(#[trigger] args@[j]@ == "--sensitivity"@ && (args@[j + 1]@
                    == "low"@ || args@[j + 1]@ == "medium"@ || args@[j + 1]@ == "high"@)))
                ==> r@ == #[trigger] args@[i + 1]@,
        (forall|j: int|
            0 <= j && j + 1 < args@.len() ==> !(#[trigger] args@[j]@ == "--sensitivity"@ && (
            args@[j + 1]@ == "low"@ || args@[j + 1]@ == "medium"@ || args@[j + 1]@ == "high"@)))
            ==> r@ == "medium"@,
{
    let ghost a = crate::models::views(args@);
    let n = args.len();
    let mut i: usize = 0;
    while i < n
        invariant
            n == args@.len(),
            a == crate::models::views(args@),
            i <= n,
            sensitivity_from(a, 0) == sensitivity_from(a, i as int),
        decreases n - i,
    {
        if str_eq(args[i].as_str(), SENSITIVITY_FLAG) && i + 1 < n {
            let val = &args[i + 1];
            if str_eq(val.as_str(), LEVEL_LOW) || str_eq(val.as_str(), LEVEL_MEDIUM) || str_eq(
                val.as_str(),
                LEVEL_HIGH,
            ) {
                proof {
                    assert(a[i as int] == args@[i as int]@);
                    assert(a[i + 1] == val@);
                    lemma_sensitivity_meaning(args@);
                }
                return val.clone();
            }
        }
        i = i + 1;
    }
    proof {
        lemma_sensitivity_from_valid(a, 0);
        lemma_sensitivity_meaning(args@);
    }
    String::from_str(LEVEL_MEDIUM)
}

proof fn lemma_sensitivity_from_valid(args: Seq<Seq<char>>, i: int)
    ensures
        is_level_name(sensitivity_from(args, i)),
    decreases args.len() - i,
{
    if 0 <= i < args.len() {
        lemma_sensitivity_from_valid(args, i + 1);
    }
}

/// Whether the command line asks for record mode.
pub fn wants_record_mode(args: &Vec<String>) -> (r: bool)
    ensures
        r == crate::models::views(args@).contains(RECORD_FLAG@),
{
    let ghost a = crate::models::views(args@);
    let mut i: usize = 0;
    while i < args.len()
        invariant
            i <= args@.len(),
            a == crate::models::views(args@),
            forall|k: int| 0 <= k < i ==> a[k] != RECORD_FLAG@,
        decreases args@.len() - i,
    {
        if str_eq(args[i].as_str(), RECORD_FLAG) {
            assert(a[i as int] == RECORD_FLAG@);
            return true;
        }
        i = i + 1;
    }
    false
}

// ---------------------------------------------------------------------------
// Messages between helper and app
// ---------------------------------------------------------------------------

/// The line that the helper writes to every client when it detects a slap.
pub const TAP_LINE: &'static str = "TAP\n";

/// The message that a slap line carries.
pub const TAP_MESSAGE: &'static str = "TAP";

/// Whether a line read from the helper announces a slap.
pub fn is_tap_message(line: &str) -> (r: bool)
    ensures
        r == (trimmed(line@) == TAP_MESSAGE@),
{
    str_eq(trim(line), TAP_MESSAGE)
}

/// What reading the helper's socket gave.
pub enum SocketRead {
    /// A line of text.
    Line(String),
    /// Nothing arrived in time.
    TimedOut,
    /// Reading failed; the error's text.
    Failed(String),
    /// The helper closed the connection.
    Closed,
}

/// What the app's listener does after a read from the helper's socket.
pub enum ListenerReaction {
    /// Polish the whole focused field.
    Polish,
    /// Read the next line.
    KeepReading,
    /// Stop reading this connection.
    StopReading,
}

/// The listener's reaction to a read while it is `running`: it stops once
/// turned off; a slap line polishes; other lines and reads that timed out
/// are passed over; a failed or closed connection is left.
pub fn listener_reaction(running: bool, read: &SocketRead) -> (r: ListenerReaction)
    ensures
        !running ==> r is StopReading,
        running ==> match read {
            SocketRead::Line(l) => if trimmed(l@) == TAP_MESSAGE@ {
                r is Polish
            } else {
                r is KeepReading
            },
            SocketRead::TimedOut => r is KeepReading,
            SocketRead::Failed(_) => r is StopReading,
            SocketRead::Closed => r is StopReading,
        },
{
    if !running {
        return ListenerReaction::StopReading;
    }
    match read {
        SocketRead::Line(l) => if is_tap_message(l.as_str()) {
            ListenerReaction::Polish
        } else {
            ListenerReaction::KeepReading
        },
        SocketRead::TimedOut => ListenerReaction::KeepReading,
        SocketRead::Failed(_) => ListenerReaction::StopReading,
        SocketRead::Closed => ListenerReaction::StopReading,
    }
}

pub const PROBE_DETECTED: &'static str = "Slap detected!";

pub const PROBE_TIMEOUT: &'static str = "Timeout \u{2014} no double tap detected in 15s";

pub const PROBE_READ_ERROR: &'static str = "Read error: ";

pub const PROBE_CLOSED: &'static str = "Connection closed without detecting a tap";

/// The outcome of the helper test after one read, if the read ends the test.
pub open spec fn probe_outcome(read: SocketRead) -> Option<Result<Seq<char>, Seq<char>>> {
    match read {
        SocketRead::Line(l) => if trimmed(l@) == TAP_MESSAGE@ {
            Some(Ok(PROBE_DETECTED@))
        } else {
            None
        },
        SocketRead::TimedOut => Some(Err(PROBE_TIMEOUT@)),
        SocketRead::Failed(e) => Some(Err(PROBE_READ_ERROR@ + e@)),
        SocketRead::Closed => Some(Err(PROBE_CLOSED@)),
    }
}

/// The result, taken by characters.
pub open spec fn result_view(r: Result<String, String>) -> Result<Seq<char>, Seq<char>> {
    match r {
        Ok(s) => Ok(s@),
        Err(e) => Err(e@),
    }
}

/// One step of the helper test: `None` to read on, or the test's result.
pub fn probe_step(read: SocketRead) -> (r: Option<Result<String, String>>)
    ensures
        match r {
            Some(res) => probe_outcome(read) == Some(result_view(res)),
            None => probe_outcome(read) is None,
        },
{
    match read {
        SocketRead::Line(l) => if is_tap_message(l.as_str()) {
            Some(Ok(String::from_str(PROBE_DETECTED)))
        } else {
            None
        },
        SocketRead::TimedOut => Some(Err(String::from_str(PROBE_TIMEOUT))),
        SocketRead::Failed(e) => Some(Err(String::from_str(PROBE_READ_ERROR).concat(e.as_str()))),
        SocketRead::Closed => Some(Err(String::from_str(PROBE_CLOSED))),
    }
}

/// Whether `sysctl -n hw.optional.arm64` printed that the Mac has Apple
/// silicon (and so the accelerometer that the helper reads).
pub fn reports_arm64(sysctl_output: &str) -> (r: bool)
    ensures
        r == (trimmed(sysctl_output@) == "1"@),
{
    str_eq(trim(sysctl_output), "1")
}

// ---------------------------------------------------------------------------
// The launchd job
// ---------------------------------------------------------------------------

pub const PLIST_HEAD: &'static str =
    "<?xml version=\"1.0\" encoding=\"UTF-8\"?>\n<!DOCTYPE plist PUBLIC \"-//Apple//DTD PLIST 1.0//EN\"\n  \"http://www.apple.com/DTDs/PropertyList-1.0.dtd\">\n<plist version=\"1.0\">\n<dict>\n    <key>Label</key><string>ai.fennec.tap</string>\n    <key>ProgramArguments</key>\n    <array>\n        <string>/usr/local/bin/fennec-tap</string>\n        <string>--sensitivity</string>\n        <string>";

pub const PLIST_TAIL: &'static str =
    "</string>\n    </array>\n    <key>RunAtLoad</key><true/>\n    <key>StandardErrorPath</key><string>/tmp/fennec-tap.log</string>\n    <key>StandardOutPath</key><string>/tmp/fennec-tap.log</string>\n</dict>\n</plist>";

/// The launchd property list that runs the helper at boot with the given
/// sensitivity.
pub fn helper_plist(sensitivity: &str) -> (r: String)
    ensures
        r@ == PLIST_HEAD@ + sensitivity@ + PLIST_TAIL@,
{
    String::from_str(PLIST_HEAD).concat(sensitivity).concat(PLIST_TAIL)
}

pub const INSTALL_COPY: &'static str = "cp '";

pub const INSTALL_MIDDLE: &'static str =
    "' /usr/local/bin/fennec-tap && chmod 755 /usr/local/bin/fennec-tap && codesign --force --sign - /usr/local/bin/fennec-tap && mv '";

pub const INSTALL_END: &'static str =
    "' /Library/LaunchDaemons/ai.fennec.tap.plist && chown root:wheel /Library/LaunchDaemons/ai.fennec.tap.plist && chmod 644 /Library/LaunchDaemons/ai.fennec.tap.plist && launchctl unload /Library/LaunchDaemons/ai.fennec.tap.plist 2>/dev/null; launchctl load /Library/LaunchDaemons/ai.fennec.tap.plist";

/// The shell script that installs the helper binary and its launchd job.
pub fn install_script(helper_path: &str, plist_path: &str) -> (r: String)
    ensures
        r@ == INSTALL_COPY@ + helper_path@ + INSTALL_MIDDLE@ + plist_path@ + INSTALL_END@,
{
    String::from_str(INSTALL_COPY).concat(helper_path).concat(INSTALL_MIDDLE).concat(
        plist_path,
    ).concat(INSTALL_END)
}

/// The shell script that removes the helper, its job and its socket.
pub const UNINSTALL_SCRIPT: &'static str =
    "launchctl unload /Library/LaunchDaemons/ai.fennec.tap.plist 2>/dev/null; rm -f /Library/LaunchDaemons/ai.fennec.tap.plist; rm -f /usr/local/bin/fennec-tap; rm -f /tmp/fennec-tap.sock";

/// The AppleScript that runs the uninstall script as administrator. The
/// script holds no backslash or double quote, so it stands in the command as
/// it is.
pub fn uninstall_command() -> (r: String)
    ensures
        r@ == crate::script::ADMIN_SHELL_OPEN@ + UNINSTALL_SCRIPT@ + crate::script::ADMIN_SHELL_CLOSE@,
{
    proof {
        reveal_strlit(
            "launchctl unload /Library/LaunchDaemons/ai.fennec.tap.plist 2>/dev/null; rm -f /Library/LaunchDaemons/ai.fennec.tap.plist; rm -f /usr/local/bin/fennec-tap; rm -f /tmp/fennec-tap.sock",
        );
        crate::script::lemma_escape_plain(UNINSTALL_SCRIPT@);
    }
    crate::script::admin_shell_command(UNINSTALL_SCRIPT)
}

} // verus!
