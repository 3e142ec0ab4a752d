//! Switching the display off and on: a backlight value written to sysfs
//! and/or a shell command, whose `@OUTPUT@` placeholder is replaced by the
//! Wayland output found with `wlr-randr` (or a fallback name).
//!
//! The shell and the file system are reached through `PowerIo`, which the
//! program implements with processes and files.
use vstd::prelude::*;
use crate::text::{chars_of, is_space, is_space_char, string_from_chars, trim_chars, trim_spec};
use crate::text::{first_non_space, starts_with_chars};

verus! {

// ---------------------------------------------------------------------------
// Reading `wlr-randr`'s listing
// ---------------------------------------------------------------------------

/// Position of the first `\n` at or after `from`, or the length.
pub open spec fn next_newline(s: Seq<char>, from: int) -> int
    decreases s.len() - from,
{
    if from >= s.len() {
        s.len() as int
    } else if s[from] == '\n' {
        from
    } else {
        next_newline(s, from + 1)
    }
}

/// Position of the first white-space character at or after `from`, or the length.
pub open spec fn next_space(s: Seq<char>, from: int) -> int
    decreases s.len() - from,
{
    if from >= s.len() {
        s.len() as int
    } else if is_space(s[from]) {
        from
    } else {
        next_space(s, from + 1)
    }
}

/// The first word of the trimmed line `t`.
pub open spec fn first_word(t: Seq<char>) -> Seq<char> {
    t.subrange(0, next_space(t, 0))
}

/// The second word of the trimmed line `t`, or nothing.
pub open spec fn second_word(t: Seq<char>) -> Seq<char> {
    let p = first_non_space(t, next_space(t, 0));
    t.subrange(p, next_space(t, p))
}

/// Names of built-in panels, used only when no other output is connected.
pub open spec fn is_builtin_panel(name: Seq<char>) -> bool {
    ||| (name.len() >= 3 && name.subrange(0, 3) == "eDP"@)
    ||| (name.len() >= 4 && name.subrange(0, 4) == "LVDS"@)
}

/// The output chosen from the lines of `s` starting at `from`, given the
/// built-in panel already seen (`fallback`): the first connected output that
/// is not a built-in panel, else the first connected built-in panel.
pub open spec fn wlr_choice(s: Seq<char>, from: int, fallback: Option<Seq<char>>) -> Option<Seq<char>>
    decreases s.len() + 1 - from,
{
    if from < 0 || from >= s.len() {
        fallback
    } else {
        proof {
            lemma_next_newline_bounds(s, from);
        }
        let end = next_newline(s, from);
        let t = trim_spec(s.subrange(from, end));
        if t.len() == 0 || second_word(t) != "connected"@ {
            wlr_choice(s, end + 1, fallback)
        } else if !is_builtin_panel(first_word(t)) {
            Some(first_word(t))
        } else {
            wlr_choice(
                s,
                end + 1,
                match fallback {
                    Some(f) => Some(f),
                    None => Some(first_word(t)),
                },
            )
        }
    }
}

/// Where the next line break lies.
pub proof fn lemma_next_newline_bounds(s: Seq<char>, from: int)
    requires
        0 <= from <= s.len(),
    ensures
        from <= next_newline(s, from) <= s.len(),
        next_newline(s, from) < s.len() ==> s[next_newline(s, from)] == '\n',
        forall|j: int| from <= j < next_newline(s, from) ==> s[j] != '\n',
    decreases s.len() - from,
{
    if from < s.len() && s[from] != '\n' {
        lemma_next_newline_bounds(s, from + 1);
    }
}

proof fn lemma_next_space_bounds(s: Seq<char>, from: int)
    requires
        0 <= from <= s.len(),
    ensures
        from <= next_space(s, from) <= s.len(),
        forall|j: int| from <= j < next_space(s, from) ==> !is_space(s[j]),
    decreases s.len() - from,
{
    if from < s.len() && !is_space(s[from]) {
        lemma_next_space_bounds(s, from + 1);
    }
}

proof fn lemma_first_non_space_bounds(s: Seq<char>, from: int)
    requires
        0 <= from <= s.len(),
    ensures
        from <= first_non_space(s, from) <= s.len(),
    decreases s.len() - from,
{
    if from < s.len() && is_space(s[from]) {
        lemma_first_non_space_bounds(s, from + 1);
    }
}

fn find_newline(s: &Vec<char>, from: usize) -> (r: usize)
    requires
        from <= s@.len(),
    ensures
        r == next_newline(s@, from as int),
{
    let mut i = from;
    while i < s.len() && s[i] != '\n'
        invariant
            from <= i <= s@.len(),
            next_newline(s@, from as int) == next_newline(s@, i as int),
        decreases s.len() - i,
    {
        i = i + 1;
    }
    i
}

fn find_space(s: &Vec<char>, from: usize) -> (r: usize)
    requires
        from <= s@.len(),
    ensures
        r == next_space(s@, from as int),
{
    let mut i = from;
    while i < s.len() && !is_space_char(s[i])
        invariant
            from <= i <= s@.len(),
            next_space(s@, from as int) == next_space(s@, i as int),
        decreases s.len() - i,
    {
        i = i + 1;
    }
    i
}

fn skip_spaces(s: &Vec<char>, from: usize) -> (r: usize)
    requires
        from <= s@.len(),
    ensures
        r == first_non_space(s@, from as int),
{
    let mut i = from;
    while i < s.len() && is_space_char(s[i])
        invariant
            from <= i <= s@.len(),
            first_non_space(s@, from as int) == first_non_space(s@, i as int),
        decreases s.len() - i,
    {
        i = i + 1;
    }
    i
}

fn slice_chars(s: &Vec<char>, from: usize, to: usize) -> (r: Vec<char>)
    requires
        from <= to <= s@.len(),
    ensures
        r@ == s@.subrange(from as int, to as int),
{
    let mut r: Vec<char> = Vec::new();
    let mut i = from;
    while i < to
        invariant
            from <= i <= to <= s@.len(),
            r@ == s@.subrange(from as int, i as int),
        decreases to - i,
    {
        r.push(s[i]);
        i = i + 1;
    }
    r
}

fn is_builtin_panel_exec(name: &Vec<char>) -> (b: bool)
    ensures
        b == is_builtin_panel(name@),
{
    proof {
        reveal_strlit("eDP");
        reveal_strlit("LVDS");
    }
    let edp = chars_of("eDP");
    let lvds = chars_of("LVDS");
    starts_with_chars(name.as_slice(), edp.as_slice()) || starts_with_chars(name.as_slice(), lvds.as_slice())
}

pub open spec fn chars_opt(o: Option<Vec<char>>) -> Option<Seq<char>> {
    match o {
        Some(v) => Some(v@),
        None => None,
    }
}

/// The output to switch, from the listing `wlr-randr` prints: the first
/// connected output that is not a built-in panel (`eDP…`, `LVDS…`), else the
/// first connected built-in panel, else none.
pub fn parse_wlr_randr_outputs(stdout: &str) -> (r: Option<String>)
    ensures
        match wlr_choice(stdout@, 0, None) {
            Some(name) => r matches Some(n) && n@ == name,
            None => r is None,
        },
{
    let s = chars_of(stdout);
    let connected = chars_of("connected");
    let mut fallback: Option<Vec<char>> = None;
    let mut from: usize = 0;
    while from < s.len()
        invariant
            0 <= from <= s@.len() + 1,
            s@ == stdout@,
            connected@ == "connected"@,
            wlr_choice(s@, 0, None) == wlr_choice(s@, from as int, chars_opt(fallback)),
        decreases s.len() + 1 - from,
    {
        let end = find_newline(&s, from);
        proof {
            lemma_next_newline_bounds(s@, from as int);
        }
        let line = slice_chars(&s, from, end);
        let t = trim_chars(&line);
        let name_end = find_space(&t, 0);
        proof {
            lemma_next_space_bounds(t@, 0);
        }
        let p = skip_spaces(&t, name_end);
        proof {
            lemma_first_non_space_bounds(t@, name_end as int);
        }
        let status_end = find_space(&t, p);
        proof {
            lemma_next_space_bounds(t@, p as int);
        }
        let status = slice_chars(&t, p, status_end);
        let name = slice_chars(&t, 0, name_end);
        let next = if end < s.len() {
            end + 1
        } else {
            s.len()
        };
        let ghost fb = chars_opt(fallback);
        proof {
            assert(name@ == first_word(t@));
            assert(status@ == second_word(t@));
            assert(wlr_choice(s@, next as int, fb) == wlr_choice(s@, end + 1, fb));
            assert(wlr_choice(s@, next as int, Some(name@)) == wlr_choice(s@, end + 1, Some(name@)));
        }
        if t.len() == 0 || !crate::text::chars_equal(status.as_slice(), connected.as_slice()) {
            from = next;
        } else if !is_builtin_panel_exec(&name) {
            return Some(string_from_chars(name.as_slice()));
        } else {
            if fallback.is_none() {
                fallback = Some(name);
            }
            from = next;
        }
    }
    match fallback {
        Some(f) => Some(string_from_chars(f.as_slice())),
        None => None,
    }
}

// ---------------------------------------------------------------------------
// Command templates
// ---------------------------------------------------------------------------

/// The placeholder that stands for the output's name in a command.
pub open spec fn output_placeholder() -> Seq<char> {
    "@OUTPUT@"@
}

/// `s` with every occurrence of `pat` (taken left to right, without overlap)
/// replaced by `with`, as `str::replace` does for a non-empty pattern.
pub open spec fn replace_all(s: Seq<char>, pat: Seq<char>, with: Seq<char>) -> Seq<char>
    decreases s.len(),
{
    if pat.len() == 0 || s.len() < pat.len() {
        s
    } else if s.subrange(0, pat.len() as int) == pat {
        with + replace_all(s.subrange(pat.len() as int, s.len() as int), pat, with)
    } else {
        seq![s[0]] + replace_all(s.subrange(1, s.len() as int), pat, with)
    }
}

/// Whether `pat` occurs in `s`.
pub open spec fn occurs_in(s: Seq<char>, pat: Seq<char>) -> bool {
    exists|i: int| 0 <= i && i + pat.len() <= s.len() && #[trigger] s.subrange(i, i + pat.len()) == pat
}

fn matches_at(s: &Vec<char>, pat: &Vec<char>, i: usize) -> (r: bool)
    requires
        i <= s@.len(),
    ensures
        r == (i + pat@.len() <= s@.len() && s@.subrange(i as int, i + pat@.len()) == pat@),
{
    if pat.len() > s.len() - i {
        return false;
    }
    let mut k: usize = 0;
    while k < pat.len()
        invariant
            i + pat@.len() <= s@.len(),
            s@.len() == s.len(),
            0 <= k <= pat@.len(),
            forall|j: int| 0 <= j < k ==> s@[i + j] == pat@[j],
        decreases pat.len() - k,
    {
        if s[i + k] != pat[k] {
            assert(s@.subrange(i as int, i + pat@.len())[k as int] != pat@[k as int]);
            return false;
        }
        k = k + 1;
    }
    assert(s@.subrange(i as int, i + pat@.len()) =~= pat@);
    true
}

fn contains_chars(s: &Vec<char>, pat: &Vec<char>) -> (r: bool)
    ensures
        r == occurs_in(s@, pat@),
{
    let mut i: usize = 0;
    while i < s.len()
        invariant
            0 <= i <= s@.len(),
            forall|j: int|
                0 <= j < i && j + pat@.len() <= s@.len() ==> #[trigger] s@.subrange(j, j + pat@.len())
                    != pat@,
        decreases s.len() - i,
    {
        if matches_at(s, pat, i) {
            return true;
        }
        i = i + 1;
    }
    matches_at(s, pat, i)
}

proof fn lemma_replace_step(s: Seq<char>, pat: Seq<char>, with: Seq<char>, i: int)
    requires
        0 <= i < s.len(),
        pat.len() > 0,
    ensures
        i + pat.len() <= s.len() && s.subrange(i, i + pat.len()) == pat ==> replace_all(
            s.subrange(i, s.len() as int),
            pat,
            with,
        ) == with + replace_all(s.subrange(i + pat.len(), s.len() as int), pat, with),
        !(i + pat.len() <= s.len() && s.subrange(i, i + pat.len()) == pat) && i + pat.len() <= s.len()
            ==> replace_all(s.subrange(i, s.len() as int), pat, with) == seq![s[i]] + replace_all(
            s.subrange(i + 1, s.len() as int),
            pat,
            with,
        ),
{
    let t = s.subrange(i, s.len() as int);
    if i + pat.len() <= s.len() {
        assert(t.subrange(0, pat.len() as int) == s.subrange(i, i + pat.len()));
        assert(t.subrange(pat.len() as int, t.len() as int) == s.subrange(i + pat.len(), s.len() as int));
        assert(t.subrange(1, t.len() as int) == s.subrange(i + 1, s.len() as int));
    }
}

/// `s` with every `pat` replaced by `with` (`pat` must not be empty).
pub fn replace_chars(s: &Vec<char>, pat: &Vec<char>, with: &Vec<char>) -> (r: Vec<char>)
    requires
        pat@.len() > 0,
    ensures
        r@ == replace_all(s@, pat@, with@),
{
    let mut out: Vec<char> = Vec::new();
    let mut i: usize = 0;
    proof {
        assert(s@.subrange(0, s@.len() as int) == s@);
        assert(out@ + s@ == s@);
    }
    while i < s.len()
        invariant
            0 <= i <= s@.len(),
            pat@.len() > 0,
            replace_all(s@, pat@, with@) == out@ + replace_all(
                s@.subrange(i as int, s@.len() as int),
                pat@,
                with@,
            ),
        decreases s.len() - i,
    {
        proof {
            lemma_replace_step(s@, pat@, with@, i as int);
        }
        if matches_at(s, pat, i) {
            let ghost before = out@;
            let mut k: usize = 0;
            while k < with.len()
                invariant
                    0 <= k <= with@.len(),
                    out@ == before + with@.subrange(0, k as int),
                decreases with.len() - k,
            {
                out.push(with[k]);
                k = k + 1;
            }
            proof {
                assert(with@.subrange(0, with@.len() as int) == with@);
                assert(before + (with@ + replace_all(
                    s@.subrange(i + pat@.len(), s@.len() as int),
                    pat@,
                    with@,
                )) == (before + with@) + replace_all(
                    s@.subrange(i + pat@.len(), s@.len() as int),
                    pat@,
                    with@,
                ));
            }
            i = i + pat.len();
        } else {
            proof {
                if i + pat@.len() > s@.len() {
                    let t = s@.subrange(i as int, s@.len() as int);
                    assert(t.len() < pat@.len());
                    assert(replace_all(t, pat@, with@) == t);
                    assert(s@.subrange(i as int, s@.len() as int) == seq![s@[i as int]] + s@.subrange(
                        i + 1,
                        s@.len() as int,
                    ));
                    let u = s@.subrange(i + 1, s@.len() as int);
                    assert(u.len() < pat@.len());
                    assert(replace_all(u, pat@, with@) == u);
                }
                assert(out@.push(s@[i as int]) + replace_all(
                    s@.subrange(i + 1, s@.len() as int),
                    pat@,
                    with@,
                ) == out@ + (seq![s@[i as int]] + replace_all(
                    s@.subrange(i + 1, s@.len() as int),
                    pat@,
                    with@,
                )));
            }
            out.push(s[i]);
            i = i + 1;
        }
    }
    proof {
        let t = s@.subrange(s@.len() as int, s@.len() as int);
        assert(t.len() == 0);
        assert(replace_all(t, pat@, with@) == t);
        assert(out@ + t == out@);
    }
    out
}

/// A configured power command and whether it names the output.
#[derive(Debug, Clone)]
pub struct CommandTemplate {
    pub raw: String,
    pub needs_output: bool,
}

impl CommandTemplate {
    /// The template of `raw`; it needs an output when `raw` holds `@OUTPUT@`.
    pub fn new(raw: String) -> (t: Self)
        ensures
            t.raw == raw,
            t.needs_output == occurs_in(raw@, output_placeholder()),
    {
        let chars = chars_of(raw.as_str());
        let pat = chars_of("@OUTPUT@");
        let needs_output = contains_chars(&chars, &pat);
        CommandTemplate { raw, needs_output }
    }

    /// The command with the output's name in place of every `@OUTPUT@`.
    pub fn render(&self, output: &str) -> (r: String)
        ensures
            r@ == replace_all(self.raw@, output_placeholder(), output@),
    {
        proof {
            reveal_strlit("@OUTPUT@");
        }
        let chars = chars_of(self.raw.as_str());
        let pat = chars_of("@OUTPUT@");
        let with = chars_of(output);
        let replaced = replace_chars(&chars, &pat, &with);
        string_from_chars(replaced.as_slice())
    }
}

/// Whether `value` holds something besides white space; a blank command is refused.
pub fn ensure_not_blank(value: &str) -> (r: Result<(), ()>)
    ensures
        r is Ok <==> trim_spec(value@).len() > 0,
{
    let chars = chars_of(value);
    let trimmed = trim_chars(&chars);
    if trimmed.len() == 0 {
        Err(())
    } else {
        Ok(())
    }
}

// ---------------------------------------------------------------------------
// The controller
// ---------------------------------------------------------------------------

/// Switch the display off or on.
#[derive(Debug, Clone, Copy, PartialEq, Eq, Structural)]
pub enum PowerAction {
    Sleep,
    Wake,
}

/// What a shell command printed and how it ended.
#[derive(Debug, Clone)]
pub struct ShellOutput {
    pub success: bool,
    pub exit_code: Option<i32>,
    pub stdout: String,
    pub stderr: String,
}

/// A call the controller made to the shell or the file system, with what it
/// returned.
pub enum PowerEvent {
    /// A command was run with `sh -c`.
    Shell(Seq<char>, Result<ShellOutput, String>),
    /// A value was written to a file.
    Write(Seq<char>, Seq<char>, Result<(), String>),
}

/// The calls made through a `PowerIo`, in order; each call appends its own
/// event.
pub struct PowerLog {
    events: Ghost<Seq<PowerEvent>>,
}

impl PowerLog {
    /// The events so far, oldest first.
    pub closed spec fn events(&self) -> Seq<PowerEvent> {
        self.events@
    }

    /// An empty log.
    pub fn new() -> (l: Self)
        ensures
            l.events() == Seq::<PowerEvent>::empty(),
    {
        PowerLog { events: Ghost(Seq::empty()) }
    }
}

/// The shell and the file system, as the controller uses them (the runner
/// that the controller is built with). Each call is appended to `log` with
/// what it returned.
pub trait PowerIo {
    /// Runs `command` with `sh -c`; an error when it could not be started.
    fn run_shell(&self, command: &str, log: &mut PowerLog) -> (r: Result<ShellOutput, String>)
        ensures
            final(log).events() == old(log).events().push(PowerEvent::Shell(command@, r)),
    ;

    /// Writes `value` to the file at `path`.
    fn write_file(&self, path: &str, value: &str, log: &mut PowerLog) -> (r: Result<(), String>)
        ensures
            final(log).events() == old(log).events().push(PowerEvent::Write(path@, value@, r)),
    ;
}

/// A backlight switched by writing to a sysfs file.
#[derive(Debug, Clone)]
pub struct BacklightSysfs {
    pub path: String,
    pub sleep_value: String,
    pub wake_value: String,
}

/// The value that `action` writes.
pub open spec fn sysfs_value(sysfs: BacklightSysfs, action: PowerAction) -> Seq<char> {
    match action {
        PowerAction::Sleep => sysfs.sleep_value@,
        PowerAction::Wake => sysfs.wake_value@,
    }
}

/// The record of a sysfs write.
#[derive(Debug, Clone)]
pub struct SysfsExecution {
    pub path: String,
    pub value: String,
    pub success: bool,
    pub error: Option<String>,
}

/// The record of a shell command.
#[derive(Debug, Clone)]
pub struct CommandExecution {
    pub command: String,
    pub success: bool,
    pub exit_code: Option<i32>,
    pub stdout: String,
    pub stderr: String,
}

/// Where the output's name came from.
#[derive(Debug, Clone, Copy, PartialEq, Eq, Structural)]
pub enum OutputSource {
    /// Read from `wlr-randr`'s listing.
    Autodetected,
    /// `wlr-randr` could not be run: the usual HDMI output.
    Fallback,
}

/// The output a command was aimed at.
#[derive(Debug, Clone)]
pub struct OutputSelection {
    pub name: String,
    pub source: OutputSource,
}

/// What a sleep or wake did.
#[derive(Debug, Clone)]
pub struct PowerCommandReport {
    pub action: PowerAction,
    pub output: Option<OutputSelection>,
    pub sysfs: Vec<SysfsExecution>,
    pub commands: Vec<CommandExecution>,
}

impl PowerCommandReport {
    /// Whether any sysfs write or command succeeded.
    pub fn success(&self) -> (b: bool)
        ensures
            b == ((exists|i: int| 0 <= i < self.sysfs@.len() && self.sysfs@[i].success) || (exists|
                i: int,
            | 0 <= i < self.commands@.len() && self.commands@[i].success)),
    {
        let mut i: usize = 0;
        while i < self.sysfs.len()
            invariant
                0 <= i <= self.sysfs@.len(),
                forall|j: int| 0 <= j < i ==> !self.sysfs@[j].success,
            decreases self.sysfs.len() - i,
        {
            if self.sysfs[i].success {
                return true;
            }
            i = i + 1;
        }
        let mut k: usize = 0;
        while k < self.commands.len()
            invariant
                0 <= k <= self.commands@.len(),
                forall|j: int| 0 <= j < self.sysfs@.len() ==> !self.sysfs@[j].success,
                forall|j: int| 0 <= j < k ==> !self.commands@[j].success,
            decreases self.commands.len() - k,
        {
            if self.commands[k].success {
                return true;
            }
            k = k + 1;
        }
        false
    }
}

/// What to switch: a sysfs backlight and/or commands for sleeping and waking.
#[derive(Debug, Clone)]
pub struct DisplayPowerPlan {
    pub sysfs: Option<BacklightSysfs>,
    pub sleep_command: Option<String>,
    pub wake_command: Option<String>,
}

impl DisplayPowerPlan {
    /// Nothing configured.
    pub fn empty() -> (p: Self)
        ensures
            p.sysfs is None && p.sleep_command is None && p.wake_command is None,
    {
        DisplayPowerPlan { sysfs: None, sleep_command: None, wake_command: None }
    }
}

impl Default for DisplayPowerPlan {
    fn default() -> (p: Self)
        ensures
            p.sysfs is None && p.sleep_command is None && p.wake_command is None,
    {
        DisplayPowerPlan::empty()
    }
}

/// Why a plan is refused.
#[derive(Debug, Clone, Copy, PartialEq, Eq, Structural)]
pub enum PlanError {
    /// Neither a sysfs path nor a command is configured.
    NothingConfigured,
    /// The sleep command is blank.
    BlankSleepCommand,
    /// The wake command is blank.
    BlankWakeCommand,
}

/// Output name used when `wlr-randr` cannot be run.
pub open spec fn fallback_output() -> Seq<char> {
    "HDMI-A-1"@
}

/// Record of a command that was not run because no output was found.
pub open spec fn skipped_reason() -> Seq<char> {
    "no connected outputs detected"@
}

/// The output that a run of `wlr-randr` (`probe`) points at: the one its
/// listing names when it succeeded (none when it lists no connected output),
/// the fallback name when it failed or could not be started.
pub open spec fn detected_output(probe: Result<ShellOutput, String>) -> Option<(Seq<char>, OutputSource)> {
    match probe {
        Ok(o) => if o.success {
            match wlr_choice(o.stdout@, 0, None) {
                Some(name) => Some((name, OutputSource::Autodetected)),
                None => None,
            }
        } else {
            Some((fallback_output(), OutputSource::Fallback))
        },
        Err(_) => Some((fallback_output(), OutputSource::Fallback)),
    }
}

/// An optional selection as its name and source.
pub open spec fn selection_view(s: Option<OutputSelection>) -> Option<(Seq<char>, OutputSource)> {
    match s {
        Some(sel) => Some((sel.name@, sel.source)),
        None => None,
    }
}

/// Chooses the output to aim commands at from the result of running
/// `wlr-randr`.
pub fn detect_output(probe: Result<ShellOutput, String>) -> (r: Option<OutputSelection>)
    ensures
        selection_view(r) == detected_output(probe),
{
    match probe {
        Ok(output) => {
            if output.success {
                match parse_wlr_randr_outputs(output.stdout.as_str()) {
                    Some(name) => Some(OutputSelection { name, source: OutputSource::Autodetected }),
                    None => None,
                }
            } else {
                Some(OutputSelection { name: to_owned("HDMI-A-1"), source: OutputSource::Fallback })
            }
        },
        Err(_) => Some(OutputSelection { name: to_owned("HDMI-A-1"), source: OutputSource::Fallback }),
    }
}

/// `e` records the run that returned `out`: its success, exit code and
/// output, or, for a command that could not be started, a failure whose
/// error output is the error.
pub open spec fn run_record(out: Result<ShellOutput, String>, e: CommandExecution) -> bool {
    match out {
        Ok(o) => e.success == o.success && e.exit_code == o.exit_code && e.stdout@ == o.stdout@
            && e.stderr@ == o.stderr@,
        Err(m) => !e.success && e.exit_code is None && e.stdout@.len() == 0 && e.stderr@ == m@,
    }
}

/// `e` records the write that returned `w`.
pub open spec fn write_record(w: Result<(), String>, e: SysfsExecution) -> bool {
    match w {
        Ok(_) => e.success && e.error is None,
        Err(m) => !e.success && e.error == Some(m),
    }
}

/// The display's power switch, remembering the output once found.
pub struct DisplayPowerController<R: PowerIo> {
    pub sysfs: Option<BacklightSysfs>,
    pub sleep_command: Option<CommandTemplate>,
    pub wake_command: Option<CommandTemplate>,
    pub io: R,
    pub output_cache: Option<OutputSelection>,
    /// The calls made through `io`, in order.
    pub log: PowerLog,
}

pub open spec fn opt_template(raw: Option<String>) -> Option<CommandTemplate> {
    match raw {
        Some(r) => Some(CommandTemplate { raw: r, needs_output: occurs_in(r@, output_placeholder()) }),
        None => None,
    }
}

fn to_owned(s: &str) -> (r: String)
    ensures
        r@ == s@,
{
    let chars = chars_of(s);
    string_from_chars(chars.as_slice())
}

impl<R: PowerIo> DisplayPowerController<R> {
    /// A remembered fallback output carries the fallback name.
    pub open spec fn wf(&self) -> bool {
        self.output_cache matches Some(sel) ==> (sel.source == OutputSource::Fallback ==> sel.name@
            == fallback_output())
    }

    /// The controller of `plan`, using `io`; refused when nothing is configured
    /// or a command is blank.
    pub fn with_runner(plan: DisplayPowerPlan, io: R) -> (r: Result<Self, PlanError>)
        ensures
            plan.sysfs is None && plan.sleep_command is None && plan.wake_command is None ==> r
                matches Err(PlanError::NothingConfigured),
            !(plan.sysfs is None && plan.sleep_command is None && plan.wake_command is None) ==> (
            plan.sleep_command matches Some(c) && trim_spec(c@).len() == 0 ==> r matches Err(
                PlanError::BlankSleepCommand,
            )),
            !(plan.sysfs is None && plan.sleep_command is None && plan.wake_command is None) && !(
            plan.sleep_command matches Some(c) && trim_spec(c@).len() == 0) ==> (
            plan.wake_command matches Some(c) && trim_spec(c@).len() == 0 ==> r matches Err(
                PlanError::BlankWakeCommand,
            )),
            r matches Ok(c) ==> c.sysfs == plan.sysfs && c.sleep_command == opt_template(
                plan.sleep_command,
            ) && c.wake_command == opt_template(plan.wake_command) && c.output_cache is None
                && c.wf() && c.log.events() == Seq::<PowerEvent>::empty(),
            r is Ok <==> !(plan.sysfs is None && plan.sleep_command is None && plan.wake_command
                is None) && !(plan.sleep_command matches Some(c) && trim_spec(c@).len() == 0) && !(
            plan.wake_command matches Some(c) && trim_spec(c@).len() == 0),
    {
        if plan.sysfs.is_none() && plan.sleep_command.is_none() && plan.wake_command.is_none() {
            return Err(PlanError::NothingConfigured);
        }
        let DisplayPowerPlan { sysfs, sleep_command, wake_command } = plan;
        let sleep = match sleep_command {
            Some(cmd) => {
                if ensure_not_blank(cmd.as_str()).is_err() {
                    return Err(PlanError::BlankSleepCommand);
                }
                Some(CommandTemplate::new(cmd))
            },
            None => None,
        };
        let wake = match wake_command {
            Some(cmd) => {
                if ensure_not_blank(cmd.as_str()).is_err() {
                    return Err(PlanError::BlankWakeCommand);
                }
                Some(CommandTemplate::new(cmd))
            },
            None => None,
        };
        Ok(DisplayPowerController {
            sysfs,
            sleep_command: sleep,
            wake_command: wake,
            io,
            output_cache: None,
            log: PowerLog::new(),
        })
    }

    /// The command template for `action`, if configured.
    pub open spec fn command_for_spec(&self, action: PowerAction) -> Option<CommandTemplate> {
        match action {
            PowerAction::Sleep => self.sleep_command,
            PowerAction::Wake => self.wake_command,
        }
    }

    /// Writes the backlight value for `action`.
    fn execute_sysfs(&mut self, sysfs: &BacklightSysfs, action: PowerAction) -> (r: SysfsExecution)
        ensures
            r.path@ == sysfs.path@,
            r.value@ == sysfs_value(*sysfs, action),
            r.success <==> r.error is None,
            final(self).io == old(self).io,
            final(self).log.events().len() == old(self).log.events().len() + 1,
            final(self).log.events().drop_last() == old(self).log.events(),
            final(self).log.events().last() matches PowerEvent::Write(p, v, w) && p == sysfs.path@ && v
                == sysfs_value(*sysfs, action) && write_record(w, r),
            final(self).sysfs == old(self).sysfs,
            final(self).sleep_command == old(self).sleep_command,
            final(self).wake_command == old(self).wake_command,
            final(self).output_cache == old(self).output_cache,
    {
        let value = match action {
            PowerAction::Sleep => &sysfs.sleep_value,
            PowerAction::Wake => &sysfs.wake_value,
        };
        let path_arg = sysfs.path.as_str();
        let value_arg = value.as_str();
        let written = self.io.write_file(path_arg, value_arg, &mut self.log);
        match written {
            Ok(_) => SysfsExecution {
                path: sysfs.path.clone(),
                value: value.clone(),
                success: true,
                error: None,
            },
            Err(e) => SysfsExecution {
                path: sysfs.path.clone(),
                value: value.clone(),
                success: false,
                error: Some(e),
            },
        }
    }

    /// Runs `command`; a command that could not be started failed.
    fn run_command(&mut self, command: &str) -> (r: CommandExecution)
        ensures
            r.command@ == command@,
            final(self).io == old(self).io,
            final(self).log.events().len() == old(self).log.events().len() + 1,
            final(self).log.events().drop_last() == old(self).log.events(),
            final(self).log.events().last() matches PowerEvent::Shell(c, out) && c == command@
                && run_record(out, r),
            final(self).sysfs == old(self).sysfs,
            final(self).sleep_command == old(self).sleep_command,
            final(self).wake_command == old(self).wake_command,
            final(self).output_cache == old(self).output_cache,
    {
        let out = self.io.run_shell(command, &mut self.log);
        match out {
            Ok(output) => CommandExecution {
                command: to_owned(command),
                success: output.success,
                exit_code: output.exit_code,
                stdout: output.stdout,
                stderr: output.stderr,
            },
            Err(e) => CommandExecution {
                command: to_owned(command),
                success: false,
                exit_code: None,
                stdout: String::new(),
                stderr: e,
            },
        }
    }

    /// The output to aim commands at: the remembered one, else the one
    /// `wlr-randr` lists (see `parse_wlr_randr_outputs`), else, when
    /// `wlr-randr` cannot be run or fails, the fallback name; none when it
    /// lists no connected output. A found output is remembered.
    pub fn resolve_output(&mut self) -> (r: Option<OutputSelection>)
        requires
            old(self).wf(),
        ensures
            final(self).sysfs == old(self).sysfs,
            final(self).sleep_command == old(self).sleep_command,
            final(self).wake_command == old(self).wake_command,
            old(self).output_cache matches Some(c) ==> r == Some(c) && final(self).output_cache
                == old(self).output_cache,
            old(self).output_cache is None ==> final(self).output_cache == r,
            final(self).wf(),
            r matches Some(sel) ==> (sel.source == OutputSource::Fallback ==> sel.name@
                == fallback_output()),
            final(self).io == old(self).io,
            old(self).output_cache is Some ==> final(self).log.events() == old(self).log.events(),
            old(self).output_cache is None ==> final(self).log.events().len() == old(self).log.events().len() + 1
                && final(self).log.events().drop_last() == old(self).log.events() && (final(self).log.events().last()
                matches PowerEvent::Shell(c, probe) && c == "wlr-randr"@ && selection_view(r)
                == detected_output(probe)),
    {
        match &self.output_cache {
            Some(sel) => {
                return Some(sel.clone_selection());
            },
            None => {},
        }
        let probe = self.io.run_shell("wlr-randr", &mut self.log);
        let ghost probed = probe;
        let selection = detect_output(probe);
        assert(selection_view(selection) == detected_output(probed));
        match &selection {
            Some(sel) => {
                self.output_cache = Some(sel.clone_selection());
            },
            None => {},
        }
        selection
    }

    /// The calls that `perform(action)` made, from the controller `pre` to
    /// `post`, reporting `report`, exactly and in order: the backlight write,
    /// if configured; then, for a command that needs no output, that command;
    /// for one that needs an output, the remembered output's rendered command,
    /// or else `wlr-randr` followed, only when it gives an output, by the
    /// command rendered with it. Each record in `report` is what its call
    /// returned.
    pub open spec fn power_calls(pre: Self, post: Self, action: PowerAction, report: PowerCommandReport) -> bool {
        let b = pre.log.events();
        let a = post.log.events();
        let k = b.len() as int;
        let ns: int = if pre.sysfs is Some {
            1
        } else {
            0
        };
        &&& a.len() >= k + ns
        &&& a.subrange(0, k) == b
        &&& pre.sysfs matches Some(bl) ==> (a[k] matches PowerEvent::Write(p, v, w) && p == bl.path@ && v
            == sysfs_value(bl, action) && write_record(w, report.sysfs@[0]))
        &&& match pre.command_for_spec(action) {
            None => a.len() == k + ns,
            Some(t) => if !t.needs_output {
                a.len() == k + ns + 1 && (a[k + ns] matches PowerEvent::Shell(c, out) && c == t.raw@
                    && run_record(out, report.commands@[0]))
            } else {
                match pre.output_cache {
                    Some(sel) => a.len() == k + ns + 1 && (a[k + ns] matches PowerEvent::Shell(c, out) && c
                        == replace_all(t.raw@, output_placeholder(), sel.name@) && run_record(
                        out,
                        report.commands@[0],
                    )),
                    None => a.len() >= k + ns + 1 && (a[k + ns] matches PowerEvent::Shell(c, probe) && c
                        == "wlr-randr"@ && selection_view(report.output) == detected_output(probe))
                        && match report.output {
                        Some(sel) => a.len() == k + ns + 2 && (a[k + ns + 1] matches PowerEvent::Shell(
                            c,
                            out,
                        ) && c == replace_all(t.raw@, output_placeholder(), sel.name@) && run_record(
                            out,
                            report.commands@[0],
                        )),
                        None => a.len() == k + ns + 1,
                    },
                }
            },
        }
    }

    /// What `perform(action)` did, from the controller `pre` to `post`,
    /// reporting `report`.
    pub open spec fn performed(pre: Self, post: Self, action: PowerAction, report: PowerCommandReport) -> bool {
        &&& report.action == action
        &&& post.wf()
        &&& post.sysfs == pre.sysfs
        &&& post.sleep_command == pre.sleep_command
        &&& post.wake_command == pre.wake_command
        &&& report.sysfs@.len() == (if pre.sysfs is Some {
            1int
        } else {
            0
        })
        &&& post.io == pre.io
        &&& pre.sysfs matches Some(b) ==> report.sysfs@[0].path@ == b.path@
            && report.sysfs@[0].value@ == sysfs_value(b, action)
        &&& pre.command_for_spec(action) matches Some(t) ==> (t.needs_output ==> match pre.output_cache {
            Some(c) => report.output == Some(c),
            None => post.output_cache == report.output,
        })
        &&& Self::power_calls(pre, post, action, report)
        &&& report.commands@.len() == (if pre.command_for_spec(action) is Some {
            1int
        } else {
            0
        })
        &&& pre.command_for_spec(action) matches Some(t) ==> (!t.needs_output ==> report.output
            is None && report.commands@[0].command@ == t.raw@)
        &&& pre.command_for_spec(action) matches Some(t) ==> (t.needs_output ==> match report.output {
            Some(sel) => report.commands@[0].command@ == replace_all(
                t.raw@,
                output_placeholder(),
                sel.name@,
            ),
            None => report.commands@[0].command@ == skipped_reason() && !report.commands@[0].success,
        })
        &&& pre.command_for_spec(action) is None ==> report.output is None
        &&& report.output matches Some(sel) ==> (sel.source == OutputSource::Fallback ==> sel.name@
            == fallback_output())
        &&& pre.output_cache matches Some(c) ==> post.output_cache == pre.output_cache
    }

    /// Switches the display: writes the backlight value, if configured, then
    /// runs the command for `action`, if configured, with the output in place
    /// of `@OUTPUT@`; when the command needs an output and none is found, it
    /// is recorded as skipped.
    pub fn perform(&mut self, action: PowerAction) -> (report: PowerCommandReport)
        requires
            old(self).wf(),
        ensures
            Self::performed(*old(self), *final(self), action, report),
    {
        let ghost b0 = self.log.events();
        let ghost k = b0.len() as int;
        let ghost ns: int = if self.sysfs is Some {
            1
        } else {
            0
        };
        let mut sysfs_records: Vec<SysfsExecution> = Vec::new();
        let backlight = match &self.sysfs {
            Some(b) => Some(b.clone_backlight()),
            None => None,
        };
        match &backlight {
            Some(b) => {
                let record = self.execute_sysfs(b, action);
                sysfs_records.push(record);
            },
            None => {},
        }
        let ghost e1 = self.log.events();
        assert(e1.len() == k + ns);
        assert(e1.subrange(0, k) =~= b0);
        let template = match action {
            PowerAction::Sleep => match &self.sleep_command {
                Some(t) => Some(t.clone_template()),
                None => None,
            },
            PowerAction::Wake => match &self.wake_command {
                Some(t) => Some(t.clone_template()),
                None => None,
            },
        };
        let mut commands: Vec<CommandExecution> = Vec::new();
        let mut output: Option<OutputSelection> = None;
        match &template {
            Some(t) => {
                if !t.needs_output {
                    let record = self.run_command(t.raw.as_str());
                    assert(self.log.events().subrange(0, k + ns) =~= e1);
                    commands.push(record);
                } else {
                    let resolved = self.resolve_output();
                    let ghost e2 = self.log.events();
                    assert(e2.subrange(0, k + ns) =~= e1);
                    match resolved {
                        Some(sel) => {
                            let command = t.render(sel.name.as_str());
                            let record = self.run_command(command.as_str());
                            assert(self.log.events().subrange(0, e2.len() as int) =~= e2);
                            assert(self.log.events().subrange(0, k + ns) =~= e1);
                            commands.push(record);
                            output = Some(sel);
                        },
                        None => {
                            commands.push(
                                CommandExecution {
                                    command: to_owned("no connected outputs detected"),
                                    success: false,
                                    exit_code: None,
                                    stdout: String::new(),
                                    stderr: String::new(),
                                },
                            );
                        },
                    }
                }
            },
            None => {},
        }
        proof {
            let a = self.log.events();
            assert(a.subrange(0, k + ns) =~= e1);
            assert(a.subrange(0, k) =~= b0);
            if ns == 1 {
                assert(a[k] == e1[k]);
            }
        }
        PowerCommandReport { action, output, sysfs: sysfs_records, commands }
    }

    /// Switches the display off (see `perform`).
    pub fn sleep(&mut self) -> (report: PowerCommandReport)
        requires
            old(self).wf(),
        ensures
            Self::performed(*old(self), *final(self), PowerAction::Sleep, report),
    {
        self.perform(PowerAction::Sleep)
    }

    /// Switches the display on (see `perform`).
    pub fn wake(&mut self) -> (report: PowerCommandReport)
        requires
            old(self).wf(),
        ensures
            Self::performed(*old(self), *final(self), PowerAction::Wake, report),
    {
        self.perform(PowerAction::Wake)
    }
}

impl OutputSelection {
    /// A copy of the selection.
    pub fn clone_selection(&self) -> (r: Self)
        ensures
            r == *self,
    {
        OutputSelection { name: self.name.clone(), source: self.source }
    }
}

impl BacklightSysfs {
    /// A copy of the backlight settings.
    pub fn clone_backlight(&self) -> (r: Self)
        ensures
            r == *self,
    {
        BacklightSysfs {
            path: self.path.clone(),
            sleep_value: self.sleep_value.clone(),
            wake_value: self.wake_value.clone(),
        }
    }
}

impl CommandTemplate {
    /// A copy of the template.
    pub fn clone_template(&self) -> (r: Self)
        ensures
            r == *self,
    {
        CommandTemplate { raw: self.raw.clone(), needs_output: self.needs_output }
    }
}

} // verus!
