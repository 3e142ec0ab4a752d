//! The power-button daemon: shutdown arguments, command settings, the shared
//! frame state, screen detection, wake/sleep sequencing and the schedule driver.
//!
//! Instants are monotonic clock readings in milliseconds; durations are milliseconds.
use vstd::prelude::*;
use crate::button::{Action, Durations};
use crate::text::{chars_of, chars_equal, trim_chars};

verus! {

pub const FORCE_SHUTDOWN_FLAG: &'static str = "-i";

pub const NO_ASK_PASSWORD_FLAG: &'static str = "--no-ask-password";

/// The characters of each argument.
pub open spec fn arg_views(args: Seq<String>) -> Seq<Seq<char>> {
    args.map_values(|a: String| a@)
}

/// `args` with every occurrence of `flag` removed.
pub open spec fn without_flag(args: Seq<Seq<char>>, flag: Seq<char>) -> Seq<Seq<char>> {
    args.filter(|a: Seq<char>| a != flag)
}

/// `args` with `flag` present (appended once when missing) or absent (all removed).
pub open spec fn with_flag(args: Seq<Seq<char>>, flag: Seq<char>, enabled: bool) -> Seq<Seq<char>> {
    if enabled {
        if args.contains(flag) {
            args
        } else {
            args.push(flag)
        }
    } else {
        without_flag(args, flag)
    }
}

fn contains_string(args: &Vec<String>, flag: &String) -> (r: bool)
    ensures
        r == arg_views(args@).contains(flag@),
{
    let mut i: usize = 0;
    while i < args.len()
        invariant
            0 <= i <= args@.len(),
            forall|j: int| 0 <= j < i ==> args@[j]@ != flag@,
        decreases args.len() - i,
    {
        if args[i] == *flag {
            assert(arg_views(args@)[i as int] == flag@);
            return true;
        }
        i = i + 1;
    }
    proof {
        if arg_views(args@).contains(flag@) {
            let k = choose|k: int| 0 <= k < arg_views(args@).len() && arg_views(args@)[k] == flag@;
            assert(args@[k]@ == flag@);
        }
    }
    false
}

/// Adds `flag` to `args` when enabled and missing; removes every copy when disabled.
pub fn configure_shutdown_flag(args: &mut Vec<String>, flag: &str, enabled: bool)
    ensures
        arg_views(final(args)@) =~= with_flag(arg_views(old(args)@), flag@, enabled),
{
    let f = flag.to_owned();
    if enabled {
        if !contains_string(args, &f) {
            args.push(f);
            proof {
                assert(arg_views(args@) =~= arg_views(old(args)@).push(flag@));
            }
        }
    } else {
        let ghost initial = args@;
        let mut kept: Vec<String> = Vec::new();
        let mut i: usize = 0;
        while i < args.len()
            invariant
                args@ == initial,
                f@ == flag@,
                0 <= i <= initial.len(),
                arg_views(kept@) =~= without_flag(arg_views(initial.subrange(0, i as int)), flag@),
            decreases args.len() - i,
        {
            let ghost before = kept@;
            proof {
                reveal_with_fuel(Seq::<Seq<char>>::filter, 1);
                assert(arg_views(initial.subrange(0, i + 1)) =~= arg_views(
                    initial.subrange(0, i as int),
                ).push(initial[i as int]@));
                assert(arg_views(initial.subrange(0, i + 1)).drop_last() =~= arg_views(
                    initial.subrange(0, i as int),
                ));
            }
            if !(args[i] == f) {
                kept.push(args[i].clone());
                proof {
                    assert(arg_views(kept@) =~= arg_views(before).push(initial[i as int]@));
                }
            }
            i = i + 1;
        }
        proof {
            assert(initial.subrange(0, initial.len() as int) == initial);
        }
        *args = kept;
    }
}

/// Makes the shutdown command force the power-off (no inhibitors, no password
/// prompt) exactly when `force_shutdown` is set.
pub fn configure_shutdown_args(args: &mut Vec<String>, force_shutdown: bool)
    ensures
        arg_views(final(args)@) =~= with_flag(
            with_flag(arg_views(old(args)@), FORCE_SHUTDOWN_FLAG@, force_shutdown),
            NO_ASK_PASSWORD_FLAG@,
            force_shutdown,
        ),
{
    configure_shutdown_flag(args, FORCE_SHUTDOWN_FLAG, force_shutdown);
    configure_shutdown_flag(args, NO_ASK_PASSWORD_FLAG, force_shutdown);
}

/// After enabling, the flag occurs in the arguments; after disabling, it occurs
/// nowhere and every other argument keeps its relative order.
pub proof fn lemma_flag_presence(args: Seq<Seq<char>>, flag: Seq<char>)
    ensures
        with_flag(args, flag, true).contains(flag),
        !with_flag(args, flag, false).contains(flag),
        with_flag(with_flag(args, flag, true), flag, true) == with_flag(args, flag, true),
{
    if !args.contains(flag) {
        assert(args.push(flag)[args.len() as int] == flag);
    }
    let r = without_flag(args, flag);
    if r.contains(flag) {
        args.lemma_filter_contains_rev(|a: Seq<char>| a != flag, flag);
    }
}

/// Settings of one external command as written in the configuration file.
#[derive(Debug, Clone)]
pub struct CommandConfig {
    pub label: String,
    pub program: String,
    pub args: Vec<String>,
}

/// A command ready to run: program, arguments and a label for logs.
#[derive(Debug, Clone)]
pub struct CommandSpec {
    pub label: String,
    pub program: String,
    pub args: Vec<String>,
}

impl CommandConfig {
    /// The command with `fallback_label` standing in for an empty label.
    pub fn into_spec(self, fallback_label: &str) -> (c: CommandSpec)
        ensures
            c.label@ == (if self.label@.len() == 0 {
                fallback_label@
            } else {
                self.label@
            }),
            c.program == self.program,
            c.args == self.args,
    {
        let label = if self.label.as_str().is_empty() {
            fallback_label.to_owned()
        } else {
            self.label
        };
        CommandSpec { label, program: self.program, args: self.args }
    }
}

/// Button-daemon section of the configuration file.
#[derive(Debug, Clone)]
pub struct ButtondFileConfig {
    pub device: Option<String>,
    pub single_window_ms: u64,
    pub double_window_ms: u64,
    pub debounce_ms: u64,
    pub sleep_grace_ms: u64,
    pub force_shutdown: bool,
    pub shutdown_command: CommandConfig,
    pub screen: ScreenConfig,
}

/// The button daemon's settings, assembled from its configuration section.
#[derive(Debug, Clone)]
pub struct ButtondSettings {
    pub device: Option<String>,
    pub durations: Durations,
    pub control_socket_path: String,
    pub shutdown_command: CommandSpec,
    pub screen_on_command: CommandSpec,
    pub screen_off_command: CommandSpec,
    pub screen_off_delay_ms: u64,
    pub screen_display_name: Option<String>,
    pub greeting_screen_delay_ms: u64,
    pub sleep_grace_ms: u64,
}

/// The arguments of a screen command: the configured ones, then the display
/// name when one is configured.
pub open spec fn screen_args(args: Seq<Seq<char>>, display_name: Option<String>) -> Seq<Seq<char>> {
    match display_name {
        Some(n) => args.push(n@),
        None => args,
    }
}

/// The label of a command: the configured one, or `fallback` when it is empty.
pub open spec fn label_or(label: Seq<char>, fallback: Seq<char>) -> Seq<char> {
    if label.len() == 0 {
        fallback
    } else {
        label
    }
}

fn push_display_name(command: &mut CommandSpec, display_name: &Option<String>)
    ensures
        final(command).label == old(command).label,
        final(command).program == old(command).program,
        arg_views(final(command).args@) == screen_args(arg_views(old(command).args@), *display_name),
{
    match display_name {
        Some(name) => {
            command.args.push(name.clone());
            proof {
                assert(arg_views(command.args@) =~= arg_views(old(command).args@).push(name@));
            }
        },
        None => {},
    }
}

impl ButtondSettings {
    /// The settings of the configuration section `buttond`: a device given on
    /// the command line wins; commands get their default labels; the shutdown
    /// command gets the force flags exactly when `force-shutdown` is set; both
    /// screen commands get the display name as a last argument.
    pub fn from_file_config(
        buttond: ButtondFileConfig,
        device_override: Option<String>,
        control_socket_path: String,
        greeting_screen_delay_ms: u64,
    ) -> (s: Self)
        ensures
            s.device == (match device_override {
                Some(d) => Some(d),
                None => buttond.device,
            }),
            s.durations == (Durations {
                debounce: buttond.debounce_ms,
                single_window: buttond.single_window_ms,
                double_window: buttond.double_window_ms,
            }),
            s.control_socket_path == control_socket_path,
            s.shutdown_command.label@ == label_or(buttond.shutdown_command.label@, "shutdown"@),
            s.shutdown_command.program == buttond.shutdown_command.program,
            arg_views(s.shutdown_command.args@) == with_flag(
                with_flag(
                    arg_views(buttond.shutdown_command.args@),
                    FORCE_SHUTDOWN_FLAG@,
                    buttond.force_shutdown,
                ),
                NO_ASK_PASSWORD_FLAG@,
                buttond.force_shutdown,
            ),
            s.screen_on_command.label@ == label_or(buttond.screen.on_command.label@, "screen-on"@),
            s.screen_on_command.program == buttond.screen.on_command.program,
            arg_views(s.screen_on_command.args@) == screen_args(
                arg_views(buttond.screen.on_command.args@),
                buttond.screen.display_name,
            ),
            s.screen_off_command.label@ == label_or(buttond.screen.off_command.label@, "screen-off"@),
            s.screen_off_command.program == buttond.screen.off_command.program,
            arg_views(s.screen_off_command.args@) == screen_args(
                arg_views(buttond.screen.off_command.args@),
                buttond.screen.display_name,
            ),
            s.screen_off_delay_ms == buttond.screen.off_delay_ms,
            s.screen_display_name == buttond.screen.display_name,
            s.greeting_screen_delay_ms == greeting_screen_delay_ms,
            s.sleep_grace_ms == buttond.sleep_grace_ms,
    {
        let ButtondFileConfig {
            device,
            single_window_ms,
            double_window_ms,
            debounce_ms,
            sleep_grace_ms,
            force_shutdown,
            shutdown_command,
            screen,
        } = buttond;
        let durations = Durations::from_millis(debounce_ms, single_window_ms, double_window_ms);
        let device = match device_override {
            Some(d) => Some(d),
            None => device,
        };
        let mut shutdown = shutdown_command.into_spec("shutdown");
        configure_shutdown_args(&mut shutdown.args, force_shutdown);
        let ScreenConfig { off_delay_ms, on_command, off_command, display_name } = screen;
        let mut on = on_command.into_spec("screen-on");
        let mut off = off_command.into_spec("screen-off");
        push_display_name(&mut on, &display_name);
        push_display_name(&mut off, &display_name);
        ButtondSettings {
            device,
            durations,
            control_socket_path,
            shutdown_command: shutdown,
            screen_on_command: on,
            screen_off_command: off,
            screen_off_delay_ms: off_delay_ms,
            screen_display_name: display_name,
            greeting_screen_delay_ms,
            sleep_grace_ms,
        }
    }
}

/// Screen power section of the button-daemon configuration.
#[derive(Debug, Clone)]
pub struct ScreenConfig {
    pub off_delay_ms: u64,
    pub on_command: CommandConfig,
    pub off_command: CommandConfig,
    pub display_name: Option<String>,
}

impl ButtondFileConfig {
    pub fn default_single_window_ms() -> (r: u64)
        ensures
            r == 250,
    {
        250
    }

    pub fn default_double_window_ms() -> (r: u64)
        ensures
            r == 400,
    {
        400
    }

    pub fn default_debounce_ms() -> (r: u64)
        ensures
            r == 20,
    {
        20
    }

    pub fn default_sleep_grace_ms() -> (r: u64)
        ensures
            r == 300_000,
    {
        300_000
    }

    pub fn default_force_shutdown() -> (r: bool)
        ensures
            r,
    {
        true
    }

    /// `systemctl poweroff -i`, labelled `shutdown`.
    pub fn default_shutdown_command() -> (c: CommandConfig)
        ensures
            c.label@ == "shutdown"@,
            c.program@ == "/usr/bin/systemctl"@,
            arg_views(c.args@) == seq!["poweroff"@, "-i"@],
    {
        let args = vec!["poweroff".to_owned(), "-i".to_owned()];
        assert(arg_views(args@) =~= seq!["poweroff"@, "-i"@]);
        CommandConfig { label: "shutdown".to_owned(), program: "/usr/bin/systemctl".to_owned(), args }
    }
}

impl Default for ButtondFileConfig {
    fn default() -> (c: Self)
        ensures
            c.device is None,
            c.single_window_ms == 250,
            c.double_window_ms == 400,
            c.debounce_ms == 20,
            c.sleep_grace_ms == 300_000,
            c.force_shutdown,
            c.shutdown_command.label@ == "shutdown"@,
            c.shutdown_command.program@ == "/usr/bin/systemctl"@,
            arg_views(c.shutdown_command.args@) == seq!["poweroff"@, "-i"@],
            c.screen.off_delay_ms == 3500,
            c.screen.display_name is None,
    {
        ButtondFileConfig {
            device: None,
            single_window_ms: Self::default_single_window_ms(),
            double_window_ms: Self::default_double_window_ms(),
            debounce_ms: Self::default_debounce_ms(),
            sleep_grace_ms: Self::default_sleep_grace_ms(),
            force_shutdown: Self::default_force_shutdown(),
            shutdown_command: Self::default_shutdown_command(),
            screen: ScreenConfig::default(),
        }
    }
}

impl ScreenConfig {
    pub fn default_off_delay_ms() -> (r: u64)
        ensures
            r == 3500,
    {
        3500
    }

    /// `powerctl wake`, labelled `screen-on`.
    pub fn default_on_command() -> (c: CommandConfig)
        ensures
            c.label@ == "screen-on"@,
            c.program@ == "/opt/photo-frame/bin/powerctl"@,
            arg_views(c.args@) == seq!["wake"@],
    {
        let args = vec!["wake".to_owned()];
        assert(arg_views(args@) =~= seq!["wake"@]);
        CommandConfig {
            label: "screen-on".to_owned(),
            program: "/opt/photo-frame/bin/powerctl".to_owned(),
            args,
        }
    }

    /// `powerctl sleep`, labelled `screen-off`.
    pub fn default_off_command() -> (c: CommandConfig)
        ensures
            c.label@ == "screen-off"@,
            c.program@ == "/opt/photo-frame/bin/powerctl"@,
            arg_views(c.args@) == seq!["sleep"@],
    {
        let args = vec!["sleep".to_owned()];
        assert(arg_views(args@) =~= seq!["sleep"@]);
        CommandConfig {
            label: "screen-off".to_owned(),
            program: "/opt/photo-frame/bin/powerctl".to_owned(),
            args,
        }
    }
}

impl Default for ScreenConfig {
    fn default() -> (c: Self)
        ensures
            c.off_delay_ms == 3500,
            c.on_command.label@ == "screen-on"@,
            c.off_command.label@ == "screen-off"@,
            c.on_command.program@ == "/opt/photo-frame/bin/powerctl"@,
            c.off_command.program@ == "/opt/photo-frame/bin/powerctl"@,
            arg_views(c.on_command.args@) == seq!["wake"@],
            arg_views(c.off_command.args@) == seq!["sleep"@],
            c.display_name is None,
    {
        ScreenConfig {
            off_delay_ms: Self::default_off_delay_ms(),
            on_command: Self::default_on_command(),
            off_command: Self::default_off_command(),
            display_name: None,
        }
    }
}

/// `p` without trailing separators and trailing `.` components.
pub open spec fn strip_path_tail(p: Seq<char>) -> Seq<char>
    decreases p.len(),
{
    if p.len() == 0 {
        p
    } else if p.last() == '/' {
        strip_path_tail(p.drop_last())
    } else if p.last() == '.' && (p.len() == 1 || p[p.len() - 2] == '/') {
        strip_path_tail(p.drop_last())
    } else {
        p
    }
}

/// Start of the last component of `p`: one past its last separator, or zero.
pub open spec fn last_component_start(p: Seq<char>) -> int
    decreases p.len(),
{
    if p.len() == 0 {
        0
    } else if p.last() == '/' {
        p.len() as int
    } else {
        last_component_start(p.drop_last())
    }
}

/// Final component of a path, as `Path::file_name` gives it: none for a
/// path that ends in `..` or has no normal component.
pub open spec fn file_name_spec(p: Seq<char>) -> Option<Seq<char>> {
    let q = strip_path_tail(p);
    let name = q.subrange(last_component_start(q), q.len() as int);
    if name.len() == 0 || name == seq!['.', '.'] {
        None
    } else {
        Some(name)
    }
}

proof fn lemma_last_component_start_bounds(p: Seq<char>)
    ensures
        0 <= last_component_start(p) <= p.len(),
    decreases p.len(),
{
    if p.len() > 0 && p.last() != '/' {
        lemma_last_component_start_bounds(p.drop_last());
    }
}

/// The final component of the path `p`.
#[verifier::rlimit(30)]
pub fn file_name(p: &str) -> (r: Option<Vec<char>>)
    ensures
        r matches Some(v) ==> file_name_spec(p@) == Some(v@),
        r is None ==> file_name_spec(p@) is None,
{
    let chars = chars_of(p);
    let mut end: usize = chars.len();
    assert(chars@.subrange(0, end as int) == chars@);
    while end > 0 && (chars[end - 1] == '/' || (chars[end - 1] == '.' && (end == 1 || chars[end
        - 2] == '/')))
        invariant
            end <= chars@.len(),
            strip_path_tail(chars@.subrange(0, end as int)) == strip_path_tail(chars@),
        decreases end,
    {
        proof {
            assert(chars@.subrange(0, end as int).drop_last() == chars@.subrange(0, end - 1));
        }
        end = end - 1;
    }
    let ghost q = chars@.subrange(0, end as int);
    assert(strip_path_tail(q) == q);
    let mut start: usize = end;
    while start > 0 && chars[start - 1] != '/'
        invariant
            start <= end <= chars@.len(),
            q == chars@.subrange(0, end as int),
            last_component_start(chars@.subrange(0, start as int)) == last_component_start(q),
        decreases start,
    {
        proof {
            assert(chars@.subrange(0, start as int).drop_last() == chars@.subrange(0, start - 1));
        }
        start = start - 1;
    }
    proof {
        lemma_last_component_start_bounds(q);
    }
    let mut name: Vec<char> = Vec::new();
    let mut i = start;
    while i < end
        invariant
            start <= i <= end <= chars@.len(),
            name@ == chars@.subrange(start as int, i as int),
        decreases end - i,
    {
        name.push(chars[i]);
        i = i + 1;
    }
    assert(name@ == q.subrange(last_component_start(q), q.len() as int));
    if name.len() == 0 || (name.len() == 2 && name[0] == '.' && name[1] == '.') {
        proof {
            if name@.len() == 2 && name@[0] == '.' && name@[1] == '.' {
                assert(name@ =~= seq!['.', '.']);
            }
        }
        None
    } else {
        proof {
            if name@ == seq!['.', '.'] {
                assert(name@[0] == '.');
            }
        }
        Some(name)
    }
}

/// Whether `program`'s file name is `powerctl`.
pub open spec fn is_powerctl(program: Seq<char>) -> bool {
    file_name_spec(program) == Some("powerctl"@)
}

/// The first of the two screen commands whose program is `powerctl`; its
/// `state` subcommand can report whether the screen is on.
pub fn detect_powerctl_program(on: &CommandSpec, off: &CommandSpec) -> (r: Option<String>)
    ensures
        r matches Some(p) ==> (p == on.program && is_powerctl(on.program@)) || (p == off.program
            && !is_powerctl(on.program@) && is_powerctl(off.program@)),
        r is None <==> !is_powerctl(on.program@) && !is_powerctl(off.program@),
{
    let target = chars_of("powerctl");
    if let Some(name) = file_name(on.program.as_str()) {
        if chars_equal(name.as_slice(), target.as_slice()) {
            return Some(on.program.clone());
        }
    }
    if let Some(name) = file_name(off.program.as_str()) {
        if chars_equal(name.as_slice(), target.as_slice()) {
            return Some(off.program.clone());
        }
    }
    None
}

/// Whether the frame is showing photos or asleep.
#[derive(Clone, Copy, Debug, PartialEq, Eq, Structural)]
pub enum ViewerMode {
    Awake,
    Asleep,
}

/// Whether the screen is powered.
#[derive(Debug, Clone, Copy, PartialEq, Eq, Structural)]
pub enum ScreenState {
    On,
    Off,
}

/// Who asked for a wake or sleep.
#[derive(Clone, Copy, Debug, PartialEq, Eq, Structural)]
pub enum TransitionSource {
    Manual,
    Scheduled,
}

impl TransitionSource {
    pub fn as_str(self) -> (r: &'static str)
        ensures
            r@ == (match self {
                TransitionSource::Manual => "manual"@,
                TransitionSource::Scheduled => "scheduled"@,
            }),
    {
        match self {
            TransitionSource::Manual => "manual",
            TransitionSource::Scheduled => "scheduled",
        }
    }
}

impl ScreenState {
    pub fn as_str(self) -> (r: &'static str)
        ensures
            r@ == (match self {
                ScreenState::On => "on"@,
                ScreenState::Off => "off"@,
            }),
    {
        match self {
            ScreenState::On => "on",
            ScreenState::Off => "off",
        }
    }
}

impl ViewerMode {
    /// Name used in control-socket messages.
    pub fn as_str(self) -> (r: &'static str)
        ensures
            r@ == (match self {
                ViewerMode::Awake => "awake"@,
                ViewerMode::Asleep => "asleep"@,
            }),
    {
        match self {
            ViewerMode::Awake => "awake",
            ViewerMode::Asleep => "asleep",
        }
    }
}

/// The frame is awake exactly when its screen is on.
pub open spec fn mode_of_screen(state: ScreenState) -> ViewerMode {
    match state {
        ScreenState::On => ViewerMode::Awake,
        ScreenState::Off => ViewerMode::Asleep,
    }
}

pub open spec fn screen_of_mode(mode: ViewerMode) -> ScreenState {
    match mode {
        ViewerMode::Awake => ScreenState::On,
        ViewerMode::Asleep => ScreenState::Off,
    }
}

impl From<ScreenState> for ViewerMode {
    fn from(state: ScreenState) -> (r: Self) {
        match state {
            ScreenState::On => ViewerMode::Awake,
            ScreenState::Off => ViewerMode::Asleep,
        }
    }
}

impl vstd::std_specs::convert::FromSpecImpl<ScreenState> for ViewerMode {
    open spec fn obeys_from_spec() -> bool {
        true
    }

    open spec fn from_spec(v: ScreenState) -> ViewerMode {
        mode_of_screen(v)
    }
}

impl From<ViewerMode> for ScreenState {
    fn from(mode: ViewerMode) -> (r: Self) {
        match mode {
            ViewerMode::Awake => ScreenState::On,
            ViewerMode::Asleep => ScreenState::Off,
        }
    }
}

impl vstd::std_specs::convert::FromSpecImpl<ViewerMode> for ScreenState {
    open spec fn obeys_from_spec() -> bool {
        true
    }

    open spec fn from_spec(v: ViewerMode) -> ScreenState {
        screen_of_mode(v)
    }
}

/// Converting a screen state to a mode and back gives the same screen state.
pub proof fn lemma_mode_screen_round_trip(state: ScreenState, mode: ViewerMode)
    ensures
        screen_of_mode(mode_of_screen(state)) == state,
        mode_of_screen(screen_of_mode(mode)) == mode,
{
}

/// The last manual request and when it was made.
#[derive(Clone, Copy, Debug, PartialEq, Eq, Structural)]
pub struct ManualOverride {
    pub at: u64,
    pub target: ViewerMode,
}

/// What the daemon believes about the frame, shared with the schedule driver.
pub struct FrameState {
    mode: ViewerMode,
    last_manual_override: Option<ManualOverride>,
    greeting_complete: bool,
}

/// Abstract state of a `FrameState`.
pub struct FrameModel {
    pub mode: ViewerMode,
    pub last_manual_override: Option<ManualOverride>,
    pub greeting_complete: bool,
}

impl View for FrameState {
    type V = FrameModel;

    closed spec fn view(&self) -> FrameModel {
        FrameModel {
            mode: self.mode,
            last_manual_override: self.last_manual_override,
            greeting_complete: self.greeting_complete,
        }
    }
}

/// Records that the frame is now in `mode` because of `source` at `now`: a
/// manual request is remembered, a scheduled one clears it, and being awake
/// once means the greeting is over.
pub open spec fn update_spec(m: FrameModel, mode: ViewerMode, source: TransitionSource, now: u64) -> FrameModel {
    FrameModel {
        mode,
        last_manual_override: match source {
            TransitionSource::Manual => Some(ManualOverride { at: now, target: mode }),
            TransitionSource::Scheduled => None,
        },
        greeting_complete: m.greeting_complete || mode == ViewerMode::Awake,
    }
}

/// When the last manual request woke the frame, if it did.
pub open spec fn last_manual_awake_spec(m: FrameModel) -> Option<u64> {
    match m.last_manual_override {
        Some(o) => if o.target == ViewerMode::Awake {
            Some(o.at)
        } else {
            None
        },
        None => None,
    }
}

impl FrameState {
    pub fn new(mode: ViewerMode) -> (f: Self)
        ensures
            f@.mode == mode,
            f@.last_manual_override is None,
            f@.greeting_complete == (mode == ViewerMode::Awake),
    {
        FrameState { mode, last_manual_override: None, greeting_complete: mode == ViewerMode::Awake }
    }

    pub fn mode(&self) -> (m: ViewerMode)
        ensures
            m == self@.mode,
    {
        self.mode
    }

    pub fn update(&mut self, mode: ViewerMode, source: TransitionSource, now: u64)
        ensures
            final(self)@ == update_spec(old(self)@, mode, source, now),
    {
        self.mode = mode;
        match source {
            TransitionSource::Manual => {
                self.last_manual_override = Some(ManualOverride { at: now, target: mode });
            },
            TransitionSource::Scheduled => {
                self.last_manual_override = None;
            },
        }
        if mode == ViewerMode::Awake {
            self.greeting_complete = true;
        }
    }

    pub fn last_manual_awake(&self) -> (r: Option<u64>)
        ensures
            r == last_manual_awake_spec(self@),
    {
        match self.last_manual_override {
            Some(o) => if o.target == ViewerMode::Awake {
                Some(o.at)
            } else {
                None
            },
            None => None,
        }
    }

    pub fn greeting_complete(&self) -> (b: bool)
        ensures
            b == self@.greeting_complete,
    {
        self.greeting_complete
    }
}

/// Once the frame has been awake, the greeting stays complete whatever happens next.
pub proof fn lemma_greeting_complete_is_stable(m: FrameModel, mode: ViewerMode, source: TransitionSource, now: u64)
    requires
        m.greeting_complete,
    ensures
        update_spec(m, mode, source, now).greeting_complete,
{
}

/// A scheduled transition forgets any manual request; a manual wake is remembered with its time.
pub proof fn lemma_manual_awake_tracking(m: FrameModel, mode: ViewerMode, now: u64)
    ensures
        last_manual_awake_spec(update_spec(m, mode, TransitionSource::Scheduled, now)) is None,
        last_manual_awake_spec(update_spec(m, ViewerMode::Awake, TransitionSource::Manual, now))
            == Some(now),
        last_manual_awake_spec(update_spec(m, ViewerMode::Asleep, TransitionSource::Manual, now))
            is None,
{
}

/// Power state as reported by sway's `get_outputs`.
#[derive(Debug, Clone, Copy, PartialEq, Eq, Structural)]
pub enum SwayPower {
    On,
    Off,
}

impl SwayPower {
    /// The power state that sway reports as a boolean.
    pub fn from_bool(value: bool) -> (r: SwayPower)
        ensures
            r == (if value {
                SwayPower::On
            } else {
                SwayPower::Off
            }),
    {
        if value {
            SwayPower::On
        } else {
            SwayPower::Off
        }
    }

    /// The power state that sway reports as a string: exactly `on` or `off`.
    pub fn from_name(value: &str) -> (r: Option<SwayPower>)
        ensures
            r == (if value@ == "on"@ {
                Some(SwayPower::On)
            } else if value@ == "off"@ {
                Some(SwayPower::Off)
            } else {
                None::<SwayPower>
            }),
    {
        if crate::text::str_equal(value, "on") {
            Some(SwayPower::On)
        } else if crate::text::str_equal(value, "off") {
            Some(SwayPower::Off)
        } else {
            None
        }
    }

    pub fn into_state(self) -> (r: ScreenState)
        ensures
            r == (match self {
                SwayPower::On => ScreenState::On,
                SwayPower::Off => ScreenState::Off,
            }),
    {
        match self {
            SwayPower::On => ScreenState::On,
            SwayPower::Off => ScreenState::Off,
        }
    }
}

/// One output from sway's `get_outputs`.
#[derive(Debug, Clone)]
pub struct SwayOutput {
    pub name: String,
    pub power: Option<SwayPower>,
}

/// Which output was probed and whether its screen is on.
#[derive(Debug, Clone)]
pub struct ScreenDetection {
    pub name: String,
    pub state: ScreenState,
}

/// Why the screen state could not be determined from sway's outputs.
#[derive(Debug, Clone, PartialEq, Eq)]
pub enum DetectError {
    /// No output carries the requested name.
    NoOutputNamed(String),
    /// No output reports a power state.
    NoPoweredOutput,
    /// The selected output reports no power state.
    NoPowerState(String),
}

/// Index of the first output at or after `from` named `name`, or the length.
pub open spec fn first_named(outputs: Seq<SwayOutput>, name: Seq<char>, from: int) -> int
    decreases outputs.len() - from,
{
    if from >= outputs.len() {
        outputs.len() as int
    } else if outputs[from].name@ == name {
        from
    } else {
        first_named(outputs, name, from + 1)
    }
}

/// Index of the first output at or after `from` that reports a power state, or the length.
pub open spec fn first_powered(outputs: Seq<SwayOutput>, from: int) -> int
    decreases outputs.len() - from,
{
    if from >= outputs.len() {
        outputs.len() as int
    } else if outputs[from].power is Some {
        from
    } else {
        first_powered(outputs, from + 1)
    }
}

/// The result of reading the power state of the output at `k`.
pub open spec fn detection_at(outputs: Seq<SwayOutput>, k: int, r: Result<ScreenDetection, DetectError>) -> bool {
    match outputs[k].power {
        Some(p) => r matches Ok(d) && d.name@ == outputs[k].name@ && d.state == mode_screen(p),
        None => r matches Err(DetectError::NoPowerState(n)) && n@ == outputs[k].name@,
    }
}

/// What `select_sway_output` answers: the first output with the requested
/// name, or without a name the first output that reports a power state.
pub open spec fn selection_spec(outputs: Seq<SwayOutput>, display_name: Option<Seq<char>>, r: Result<ScreenDetection, DetectError>) -> bool {
    match display_name {
        Some(name) => {
            let k = first_named(outputs, name, 0);
            if k == outputs.len() {
                r matches Err(DetectError::NoOutputNamed(n)) && n@ == name
            } else {
                detection_at(outputs, k, r)
            }
        },
        None => {
            let k = first_powered(outputs, 0);
            if k == outputs.len() {
                r matches Err(DetectError::NoPoweredOutput)
            } else {
                detection_at(outputs, k, r)
            }
        },
    }
}

/// The characters of an optional string.
pub open spec fn opt_str_view(s: Option<&str>) -> Option<Seq<char>> {
    match s {
        Some(t) => Some(t@),
        None => None,
    }
}

/// Picks the output to probe and reads its power state.
pub fn select_sway_output(outputs: &Vec<SwayOutput>, display_name: Option<&str>) -> (r: Result<ScreenDetection, DetectError>)
    ensures
        selection_spec(outputs@, opt_str_view(display_name), r),
{
    let mut i: usize = 0;
    match display_name {
        Some(name) => {
            while i < outputs.len()
                invariant
                    0 <= i <= outputs@.len(),
                    first_named(outputs@, name@, i as int) == first_named(outputs@, name@, 0),
                    display_name == Some(name),
                decreases outputs.len() - i,
            {
                if crate::text::str_equal(outputs[i].name.as_str(), name) {
                    assert(first_named(outputs@, name@, i as int) == i);
                    return match outputs[i].power {
                        Some(p) => Ok(ScreenDetection { name: outputs[i].name.clone(), state: p.into_state() }),
                        None => Err(DetectError::NoPowerState(outputs[i].name.clone())),
                    };
                }
                i = i + 1;
            }
            Err(DetectError::NoOutputNamed(name.to_owned()))
        },
        None => {
            while i < outputs.len()
                invariant
                    0 <= i <= outputs@.len(),
                    first_powered(outputs@, i as int) == first_powered(outputs@, 0),
                    display_name is None,
                decreases outputs.len() - i,
            {
                if let Some(p) = outputs[i].power {
                    assert(first_powered(outputs@, i as int) == i);
                    return Ok(ScreenDetection { name: outputs[i].name.clone(), state: p.into_state() });
                }
                i = i + 1;
            }
            Err(DetectError::NoPoweredOutput)
        },
    }
}

/// Screen state reported by sway power value `p`.
pub open spec fn mode_screen(p: SwayPower) -> ScreenState {
    match p {
        SwayPower::On => ScreenState::On,
        SwayPower::Off => ScreenState::Off,
    }
}

/// Reads the output of `powerctl state`: `on` or `off` around optional white space.
pub fn parse_powerctl_state(stdout: &str) -> (r: Option<ScreenState>)
    ensures
        r == (if crate::text::trim_spec(stdout@) == "on"@ {
            Some(ScreenState::On)
        } else if crate::text::trim_spec(stdout@) == "off"@ {
            Some(ScreenState::Off)
        } else {
            None
        }),
{
    let chars = chars_of(stdout);
    let t = trim_chars(&chars);
    let on = chars_of("on");
    let off = chars_of("off");
    if chars_equal(t.as_slice(), on.as_slice()) {
        Some(ScreenState::On)
    } else if chars_equal(t.as_slice(), off.as_slice()) {
        Some(ScreenState::Off)
    } else {
        None
    }
}

/// A call made to the world outside the daemon, with what it returned.
pub enum IoEvent {
    /// A command was run.
    Ran(CommandSpec, Result<(), String>),
    /// The daemon waited this many milliseconds.
    Waited(u64),
    /// The viewer was told to enter a state.
    Told(ViewerMode, Result<(), String>),
    /// The screen was probed, for the display of this name if any.
    Detected(Option<Seq<char>>, Result<ScreenDetection, String>),
}

/// The calls made through the daemon's executors, sockets and detectors, in
/// the order they were made. Each call appends its own event.
pub struct CallLog {
    events: Ghost<Seq<IoEvent>>,
}

impl CallLog {
    /// The events so far, oldest first.
    pub closed spec fn events(&self) -> Seq<IoEvent> {
        self.events@
    }

    /// An empty log.
    pub fn new() -> (l: Self)
        ensures
            l.events() == Seq::<IoEvent>::empty(),
    {
        CallLog { events: Ghost(Seq::empty()) }
    }
}

/// The name handed to a detector, as characters.
pub open spec fn name_view(name: Option<&str>) -> Option<Seq<char>> {
    match name {
        Some(n) => Some(n@),
        None => None,
    }
}

/// A configured display name, as characters.
pub open spec fn display_view(name: Option<String>) -> Option<Seq<char>> {
    match name {
        Some(n) => Some(n@),
        None => None,
    }
}

/// Runs external commands and waits between them. Each call is appended to
/// `log` with what it returned.
pub trait CommandExecutor {
    fn execute(&self, command: &CommandSpec, log: &mut CallLog) -> (r: Result<(), String>)
        ensures
            final(log).events() == old(log).events().push(IoEvent::Ran(*command, r)),
    ;

    fn wait(&self, delay_ms: u64, log: &mut CallLog)
        ensures
            final(log).events() == old(log).events().push(IoEvent::Waited(delay_ms)),
    ;
}

/// Tells the viewer which state to enter; the call is appended to `log` with
/// what it returned.
pub trait ControlSocket {
    fn send_set_state(&self, state: ViewerMode, log: &mut CallLog) -> (r: Result<(), String>)
        ensures
            final(log).events() == old(log).events().push(IoEvent::Told(state, r)),
    ;
}

/// Characters that JSON writes unescaped inside a string, one byte each:
/// printable ASCII other than `"` and `\`.
pub open spec fn json_plain(s: Seq<char>) -> bool {
    forall|i: int|
        0 <= i < s.len() ==> 0x20 <= (#[trigger] s[i]) as u32 <= 0x7e && s[i] != '"' && s[i] != '\\'
}

/// The bytes of an ASCII text.
pub open spec fn ascii_bytes(s: Seq<char>) -> Seq<u8> {
    Seq::new(s.len(), |i: int| s[i] as u8)
}

/// The compact JSON text of the object `{key1: value1, key2: value2}`, for
/// strings that need no escapes.
pub open spec fn json_pair_text(key1: Seq<char>, value1: Seq<char>, key2: Seq<char>, value2: Seq<char>) -> Seq<char> {
    "{\""@ + key1 + "\":\""@ + value1 + "\",\""@ + key2 + "\":\""@ + value2 + "\"}"@
}

/// Serializes the object `{key1: value1, key2: value2}` of string members with
/// `serde_json` (through a `serde_json::Map`). `serde_json::to_vec` fails only
/// for a `Serialize` impl that fails or a map with non-string keys, so on an
/// object of strings it always succeeds: the result is `Some`. The map keeps
/// its keys in order (a `BTreeMap`, or insertion order), so a first key that
/// sorts before the second comes first; strings of printable ASCII without
/// `"` or `\` are written as they are, in compact form. Other strings are
/// escaped, which this contract leaves unsaid.
#[verifier::external_body]
fn json_object_of_two(key1: &str, value1: &str, key2: &str, value2: &str) -> (r: Option<Vec<u8>>)
    ensures
        r is Some,
        r matches Some(bytes) ==> (json_plain(key1@) && json_plain(value1@) && json_plain(key2@)
            && json_plain(value2@) && key1@.len() > 0 && key2@.len() > 0 && (key1@[0] as u32) < (
        key2@[0] as u32) ==> bytes@ == ascii_bytes(json_pair_text(key1@, value1@, key2@, value2@))),
{
    let mut map = serde_json::Map::new();
    map.insert(key1.to_string(), serde_json::Value::String(value1.to_string()));
    map.insert(key2.to_string(), serde_json::Value::String(value2.to_string()));
    serde_json::to_vec(&serde_json::Value::Object(map)).ok()
}

/// The JSON bytes of the request that the viewer enter `state`:
/// `{"command":"set-state","state":"awake"}` or `..."asleep"}`.
pub open spec fn set_state_json(state: ViewerMode) -> Seq<u8> {
    ascii_bytes(
        json_pair_text(
            "command"@,
            "set-state"@,
            "state"@,
            match state {
                ViewerMode::Awake => "awake"@,
                ViewerMode::Asleep => "asleep"@,
            },
        ),
    )
}

/// The payload asking the viewer to enter `state`; it is always built.
pub fn set_state_payload(state: ViewerMode) -> (r: Option<Vec<u8>>)
    ensures
        r matches Some(bytes) && bytes@ == set_state_json(state),
{
    proof {
        reveal_strlit("command");
        reveal_strlit("set-state");
        reveal_strlit("state");
        reveal_strlit("awake");
        reveal_strlit("asleep");
    }
    let name = state.as_str();
    assert(json_plain("command"@));
    assert(json_plain("set-state"@));
    assert(json_plain("state"@));
    assert(json_plain(name@));
    json_object_of_two("command", "set-state", "state", name)
}

/// A connection to the viewer's control socket.
pub trait SocketIo {
    /// Connects to the socket at `path` and writes `payload`.
    fn send(&self, path: &str, payload: &[u8]) -> Result<(), String>;

    /// Waits `ms` milliseconds before another attempt.
    fn pause(&self, ms: u64);
}

/// Attempts at delivering a control message.
pub const CONTROL_ATTEMPTS: u64 = 3;

/// Pause between attempts, in milliseconds.
pub const CONTROL_RETRY_MS: u64 = 150;

/// The viewer's control socket at `path`, reached through `io`.
pub struct UnixControlSocket<S: SocketIo> {
    pub path: String,
    pub io: S,
}

impl<S: SocketIo> UnixControlSocket<S> {
    /// `r` is what sending the set-state payload for `state` to the socket's
    /// path returned, on some attempt.
    pub open spec fn delivered(&self, state: ViewerMode, r: Result<(), String>) -> bool {
        exists|path: &str, payload: &[u8]|
            path@ == self.path@ && payload@ == set_state_json(state) && #[trigger] call_ensures(
                S::send,
                (&self.io, path, payload),
                r,
            )
    }

    pub fn new(path: String, io: S) -> (c: Self)
        ensures
            c.path == path,
            c.io == io,
    {
        UnixControlSocket { path, io }
    }
}

impl<S: SocketIo> ControlSocket for UnixControlSocket<S> {
    /// Sends the set-state payload (see `send_payload`) and logs the call.
    fn send_set_state(&self, state: ViewerMode, log: &mut CallLog) -> (r: Result<(), String>)
        ensures
            self.delivered(state, r),
    {
        let r = self.send_payload(state);
        log.events = Ghost(log.events@.push(IoEvent::Told(state, r)));
        r
    }
}

impl<S: SocketIo> UnixControlSocket<S> {
    /// Sends the set-state payload, trying up to three times with a pause
    /// between attempts; the last failure is returned.
    fn send_payload(&self, state: ViewerMode) -> (r: Result<(), String>)
        ensures
            self.delivered(state, r),
    {
        let payload = match set_state_payload(state) {
            Some(p) => p,
            None => {
                let msg = chars_of("failed to serialize control payload");
                return Err(crate::text::string_from_chars(msg.as_slice()));
            },
        };
        let path = self.path.as_str();
        let bytes = payload.as_slice();
        let mut last_error = String::new();
        let mut attempt: u64 = 1;
        while attempt <= CONTROL_ATTEMPTS
            invariant
                1 <= attempt <= CONTROL_ATTEMPTS + 1,
                path@ == self.path@,
                bytes@ == set_state_json(state),
                attempt > 1 ==> call_ensures(S::send, (&self.io, path, bytes), Err::<(), String>(last_error)),
            decreases CONTROL_ATTEMPTS + 1 - attempt,
        {
            let sent = self.io.send(path, bytes);
            match sent {
                Ok(u) => {
                    assert(call_ensures(S::send, (&self.io, path, bytes), Ok::<(), String>(u)));
                    return Ok(u);
                },
                Err(e) => {
                    last_error = e;
                },
            }
            if attempt < CONTROL_ATTEMPTS {
                self.io.pause(CONTROL_RETRY_MS);
            }
            attempt = attempt + 1;
        }
        Err(last_error)
    }
}

/// Probes whether the screen is on; the call is appended to `log` with what
/// it returned.
pub trait ScreenDetector {
    fn detect(&self, display_name: Option<&str>, log: &mut CallLog) -> (r: Result<ScreenDetection, String>)
        ensures
            final(log).events() == old(log).events().push(IoEvent::Detected(name_view(display_name), r)),
    ;
}

/// One externally visible step of a wake, sleep or shutdown sequence.
#[derive(Debug, Clone, Copy, PartialEq, Eq, Structural)]
pub enum PowerStep {
    Detect(ScreenState),
    ScreenOn,
    ScreenOff,
    Notify(ViewerMode),
    Wait(u64),
    Shutdown,
}

/// Screen power commands and the probe that reads the screen state.
pub struct ScreenRuntime<E: CommandExecutor, D: ScreenDetector> {
    pub on_command: CommandSpec,
    pub off_command: CommandSpec,
    pub off_delay: u64,
    pub display_name: Option<String>,
    pub executor: E,
    pub detector: D,
}

impl<E: CommandExecutor, D: ScreenDetector> ScreenRuntime<E, D> {
    pub fn new(
        on_command: CommandSpec,
        off_command: CommandSpec,
        off_delay: u64,
        display_name: Option<String>,
        executor: E,
        detector: D,
    ) -> (s: Self)
        ensures
            s.on_command == on_command,
            s.off_command == off_command,
            s.off_delay == off_delay,
            s.display_name == display_name,
    {
        ScreenRuntime { on_command, off_command, off_delay, display_name, executor, detector }
    }

    /// Runs the power-on command, logging it.
    pub fn power_on(&self, log: &mut CallLog) -> (r: Result<(), String>)
        ensures
            final(log).events() == old(log).events().push(IoEvent::Ran(self.on_command, r)),
    {
        self.executor.execute(&self.on_command, log)
    }

    /// Runs the power-off command, logging it.
    pub fn power_off(&self, log: &mut CallLog) -> (r: Result<(), String>)
        ensures
            final(log).events() == old(log).events().push(IoEvent::Ran(self.off_command, r)),
    {
        self.executor.execute(&self.off_command, log)
    }

    pub fn off_delay(&self) -> (d: u64)
        ensures
            d == self.off_delay,
    {
        self.off_delay
    }

    /// Asks the detector about the configured display, logging it, and
    /// returns its answer.
    pub fn detect_state(&self, log: &mut CallLog) -> (r: Result<ScreenDetection, String>)
        ensures
            final(log).events() == old(log).events().push(
                IoEvent::Detected(display_view(self.display_name), r),
            ),
    {
        let name = match &self.display_name {
            Some(n) => Some(n.as_str()),
            None => None,
        };
        assert(name_view(name) == display_view(self.display_name));
        self.detector.detect(name, log)
    }
}

/// Steps of a wake request from `mode`: nothing when already awake, else
/// power the screen on and only then tell the viewer.
pub open spec fn wake_steps(mode: ViewerMode) -> Seq<PowerStep> {
    if mode == ViewerMode::Awake {
        seq![]
    } else {
        seq![PowerStep::ScreenOn, PowerStep::Notify(ViewerMode::Awake)]
    }
}

/// Steps of a sleep request from `mode`: nothing when already asleep, else
/// tell the viewer, wait the screen-off delay (when non-zero), then power the screen off.
pub open spec fn sleep_steps(mode: ViewerMode, delay: u64) -> Seq<PowerStep> {
    if mode == ViewerMode::Asleep {
        seq![]
    } else if delay == 0 {
        seq![PowerStep::Notify(ViewerMode::Asleep), PowerStep::ScreenOff]
    } else {
        seq![PowerStep::Notify(ViewerMode::Asleep), PowerStep::Wait(delay), PowerStep::ScreenOff]
    }
}

/// A sequence that stopped at a failing step has done a non-empty prefix of its steps.
pub open spec fn stopped_within(before: Seq<PowerStep>, after: Seq<PowerStep>, steps: Seq<PowerStep>) -> bool {
    &&& before.len() < after.len() <= before.len() + steps.len()
    &&& after == before + steps.take(after.len() - before.len())
}

/// Wake, sleep and shutdown sequencing for the frame.
pub struct Runtime<C: ControlSocket, E: CommandExecutor, D: ScreenDetector> {
    control_socket: C,
    shutdown_command: CommandSpec,
    screen: ScreenRuntime<E, D>,
    executor: E,
    state: FrameState,
    steps: Ghost<Seq<PowerStep>>,
    log: CallLog,
}

/// `after` is `before` with `n` more events.
pub open spec fn extends(before: Seq<IoEvent>, after: Seq<IoEvent>, n: int) -> bool {
    after.len() == before.len() + n && after.subrange(0, before.len() as int) == before
}

/// The calls of a wake from `mode`, from the log `before` to `after`, that
/// returned `r`: none when already awake; else the power-on command `on`,
/// and, only once it succeeded, telling the viewer to wake; `r` is the
/// failure of the first of them that failed.
pub open spec fn woke(
    mode: ViewerMode,
    on: CommandSpec,
    before: Seq<IoEvent>,
    after: Seq<IoEvent>,
    r: Result<(), String>,
) -> bool {
    let k = before.len() as int;
    if mode == ViewerMode::Awake {
        r is Ok && after == before
    } else {
        match r {
            Ok(_) => extends(before, after, 2) && (after[k] matches IoEvent::Ran(c, Ok(_)) && c == on)
                && after[k + 1] matches IoEvent::Told(ViewerMode::Awake, Ok(_)),
            Err(e) => (extends(before, after, 1) && after[k] == IoEvent::Ran(on, Err(e))) || (extends(
                before,
                after,
                2,
            ) && (after[k] matches IoEvent::Ran(c, Ok(_)) && c == on) && after[k + 1] == IoEvent::Told(
                ViewerMode::Awake,
                Err(e),
            )),
        }
    }
}

/// The calls of a sleep from `mode`, from the log `before` to `after`, that
/// returned `r`: none when already asleep; else telling the viewer to sleep,
/// and, only once it succeeded, waiting `delay` ms (when non-zero) and then
/// the power-off command `off`; `r` is the failure of the first that failed.
pub open spec fn slept(
    mode: ViewerMode,
    off: CommandSpec,
    delay: u64,
    before: Seq<IoEvent>,
    after: Seq<IoEvent>,
    r: Result<(), String>,
) -> bool {
    let k = before.len() as int;
    let w: int = if delay == 0 {
        0
    } else {
        1
    };
    let waited = delay == 0 || after[k + 1] == IoEvent::Waited(delay);
    if mode == ViewerMode::Asleep {
        r is Ok && after == before
    } else {
        match r {
            Ok(_) => extends(before, after, 2 + w) && (after[k] matches IoEvent::Told(
                ViewerMode::Asleep,
                Ok(_),
            )) && waited && (after[k + 1 + w] matches IoEvent::Ran(c, Ok(_)) && c == off),
            Err(e) => (extends(before, after, 1) && after[k] == IoEvent::Told(ViewerMode::Asleep, Err(e)))
                || (extends(before, after, 2 + w) && (after[k] matches IoEvent::Told(
                ViewerMode::Asleep,
                Ok(_),
            )) && waited && after[k + 1 + w] == IoEvent::Ran(off, Err(e))),
        }
    }
}

impl<C: ControlSocket, E: CommandExecutor, D: ScreenDetector> Runtime<C, E, D> {
    /// The frame state the runtime keeps.
    pub closed spec fn frame(&self) -> FrameModel {
        self.state@
    }

    /// The steps taken so far, in order.
    pub closed spec fn steps(&self) -> Seq<PowerStep> {
        self.steps@
    }

    /// The calls made so far, in order, with what they returned.
    pub closed spec fn calls(&self) -> Seq<IoEvent> {
        self.log.events()
    }

    /// The configured screen-off delay.
    pub closed spec fn off_delay_spec(&self) -> u64 {
        self.screen.off_delay
    }

    /// The screen commands and probe.
    pub closed spec fn screen_spec(&self) -> ScreenRuntime<E, D> {
        self.screen
    }

    /// The shutdown command.
    pub closed spec fn shutdown_spec(&self) -> CommandSpec {
        self.shutdown_command
    }

    pub fn new(
        control_socket: C,
        shutdown_command: CommandSpec,
        screen: ScreenRuntime<E, D>,
        executor: E,
        initial_state: ViewerMode,
    ) -> (r: Self)
        ensures
            r.frame().mode == initial_state,
            r.frame().last_manual_override is None,
            r.frame().greeting_complete == (initial_state == ViewerMode::Awake),
            r.steps() == Seq::<PowerStep>::empty(),
            r.calls() == Seq::<IoEvent>::empty(),
            r.off_delay_spec() == screen.off_delay,
            r.screen_spec() == screen,
            r.shutdown_spec() == shutdown_command,
    {
        Runtime {
            control_socket,
            shutdown_command,
            screen,
            executor,
            state: FrameState::new(initial_state),
            steps: Ghost(Seq::empty()),
            log: CallLog::new(),
        }
    }

    /// The frame state shared with the schedule driver.
    pub fn shared_state(&self) -> (s: &FrameState)
        ensures
            s@ == self.frame(),
    {
        &self.state
    }

    /// What a manual toggle from `pre` to `post` at `now` that returned `r`
    /// did: it first probed the configured display. A failed probe is the
    /// result, and nothing else was done. A probe that found the screen on
    /// was followed by a sleep, one that found it off by a wake (see `slept`
    /// and `woke`). On success the frame was toggled from the found state; on
    /// failure the frame is unchanged.
    pub open spec fn toggle_outcome(pre: Self, post: Self, now: u64, r: Result<(), String>) -> bool {
        let b = pre.calls();
        let a = post.calls();
        let k = b.len() as int;
        &&& a.len() > k && a.subrange(0, k) == b
        &&& a[k] matches IoEvent::Detected(n, res) && n == display_view(pre.screen_spec().display_name)
            && match res {
            Err(e) => r == Err::<(), String>(e) && a.len() == k + 1,
            Ok(d) => match d.state {
                ScreenState::On => slept(
                    pre.frame().mode,
                    pre.screen_spec().off_command,
                    pre.off_delay_spec(),
                    a.subrange(0, k + 1),
                    a,
                    r,
                ),
                ScreenState::Off => woke(pre.frame().mode, pre.screen_spec().on_command, a.subrange(0, k + 1), a, r),
            },
        }
        &&& match r {
            Ok(_) => a[k] matches IoEvent::Detected(_, Ok(d)) && toggled(
                pre.frame(),
                pre.steps(),
                post.frame(),
                post.steps(),
                d.state,
                pre.off_delay_spec(),
                now,
            ),
            Err(_) => post.frame() == pre.frame(),
        }
    }

    /// Toggles the frame: asleep when the screen is found on, awake when it is found off.
    pub fn handle_manual_toggle(&mut self, now: u64) -> (r: Result<(), String>)
        ensures
            final(self).off_delay_spec() == old(self).off_delay_spec(),
            final(self).screen_spec() == old(self).screen_spec(),
            final(self).shutdown_spec() == old(self).shutdown_spec(),
            Self::toggle_outcome(*old(self), *final(self), now, r),
    {
        let ghost pre = *self;
        let probe = self.screen.detect_state(&mut self.log);
        let ghost k = pre.calls().len() as int;
        let ghost mid = self.calls();
        assert(mid.subrange(0, k) == pre.calls());
        assert(mid.subrange(0, k + 1) == mid);
        let detected = match probe {
            Ok(d) => d,
            Err(e) => {
                return Err(e);
            },
        };
        proof {
            self.steps@ = self.steps@.push(PowerStep::Detect(detected.state));
        }
        let r = match detected.state {
            ScreenState::On => self.go_to_sleep(TransitionSource::Manual, now),
            ScreenState::Off => self.wake_up(TransitionSource::Manual, now),
        };
        proof {
            let a = self.calls();
            assert(a.subrange(0, k + 1) == mid);
            assert(a.subrange(0, k) == mid.subrange(0, k));
            assert(a[k] == mid[k]);
            if r is Ok {
                assert(toggled(pre.frame(), pre.steps(), self.frame(), self.steps(), detected.state, pre.off_delay_spec(), now));
            }
        }
        r
    }

    /// Runs the shutdown command.
    pub fn handle_double(&mut self) -> (r: Result<(), String>)
        ensures
            final(self).steps() == old(self).steps().push(PowerStep::Shutdown),
            final(self).calls() == old(self).calls().push(IoEvent::Ran(old(self).shutdown_spec(), r)),
            final(self).frame() == old(self).frame(),
            final(self).off_delay_spec() == old(self).off_delay_spec(),
            final(self).screen_spec() == old(self).screen_spec(),
            final(self).shutdown_spec() == old(self).shutdown_spec(),
    {
        proof {
            self.steps@ = self.steps@.push(PowerStep::Shutdown);
        }
        self.executor.execute(&self.shutdown_command, &mut self.log)
    }

    /// Wakes the frame: screen on first, then the viewer; already awake just records the request.
    pub fn wake_up(&mut self, source: TransitionSource, now: u64) -> (r: Result<(), String>)
        ensures
            final(self).off_delay_spec() == old(self).off_delay_spec(),
            final(self).screen_spec() == old(self).screen_spec(),
            final(self).shutdown_spec() == old(self).shutdown_spec(),
            woke(old(self).frame().mode, old(self).screen_spec().on_command, old(self).calls(), final(self).calls(), r),
            r is Ok ==> final(self).steps() == old(self).steps() + wake_steps(old(self).frame().mode)
                && final(self).frame() == update_spec(old(self).frame(), ViewerMode::Awake, source, now),
            r is Err ==> final(self).frame() == old(self).frame() && stopped_within(old(self).steps(), final(self).steps(), wake_steps(old(self).frame().mode)),
    {
        let ghost before = self.steps@;
        let ghost calls0 = self.log.events();
        let ghost k = calls0.len() as int;
        if self.current_viewer_mode() == ViewerMode::Awake {
            self.record_state(ViewerMode::Awake, source, now);
            assert(self.steps@ =~= before + wake_steps(ViewerMode::Awake));
            return Ok(());
        }
        proof {
            self.steps@ = self.steps@.push(PowerStep::ScreenOn);
            assert(self.steps@ =~= before + wake_steps(ViewerMode::Asleep).take(1));
        }
        let powered = self.screen.power_on(&mut self.log);
        assert(self.log.events().subrange(0, k) == calls0);
        match powered {
            Ok(_) => {},
            Err(e) => {
                return Err(e);
            },
        }
        proof {
            self.steps@ = self.steps@.push(PowerStep::Notify(ViewerMode::Awake));
            assert(self.steps@ =~= before + wake_steps(ViewerMode::Asleep).take(2));
            assert(wake_steps(ViewerMode::Asleep).take(2) =~= wake_steps(ViewerMode::Asleep));
        }
        let ghost calls1 = self.log.events();
        let told = self.control_socket.send_set_state(ViewerMode::Awake, &mut self.log);
        assert(self.log.events().subrange(0, k) == calls0);
        assert(self.log.events()[k] == calls1[k]);
        match told {
            Ok(_) => {},
            Err(e) => {
                return Err(e);
            },
        }
        self.record_state(ViewerMode::Awake, source, now);
        Ok(())
    }

    /// Puts the frame to sleep: the viewer first, then (after the screen-off
    /// delay) the screen; already asleep just records the request.
    pub fn go_to_sleep(&mut self, source: TransitionSource, now: u64) -> (r: Result<(), String>)
        ensures
            final(self).off_delay_spec() == old(self).off_delay_spec(),
            final(self).screen_spec() == old(self).screen_spec(),
            final(self).shutdown_spec() == old(self).shutdown_spec(),
            slept(
                old(self).frame().mode,
                old(self).screen_spec().off_command,
                old(self).off_delay_spec(),
                old(self).calls(),
                final(self).calls(),
                r,
            ),
            r is Ok ==> final(self).steps() == old(self).steps() + sleep_steps(old(self).frame().mode, old(self).off_delay_spec())
                && final(self).frame() == update_spec(old(self).frame(), ViewerMode::Asleep, source, now),
            r is Err ==> final(self).frame() == old(self).frame() && stopped_within(old(self).steps(), final(self).steps(), sleep_steps(old(self).frame().mode, old(self).off_delay_spec())),
    {
        let ghost before = self.steps@;
        let ghost plan = sleep_steps(self.state@.mode, self.screen.off_delay);
        let ghost calls0 = self.log.events();
        let ghost k = calls0.len() as int;
        if self.current_viewer_mode() == ViewerMode::Asleep {
            self.record_state(ViewerMode::Asleep, source, now);
            assert(self.steps@ =~= before + plan);
            return Ok(());
        }
        proof {
            self.steps@ = self.steps@.push(PowerStep::Notify(ViewerMode::Asleep));
            assert(self.steps@ =~= before + plan.take(1));
        }
        let told = self.control_socket.send_set_state(ViewerMode::Asleep, &mut self.log);
        assert(self.log.events().subrange(0, k) == calls0);
        match told {
            Ok(_) => {},
            Err(e) => {
                return Err(e);
            },
        }
        let ghost calls1 = self.log.events();
        let delay = self.screen.off_delay();
        if delay != 0 {
            proof {
                self.steps@ = self.steps@.push(PowerStep::Wait(delay));
                assert(self.steps@ =~= before + plan.take(2));
            }
            self.screen.executor.wait(delay, &mut self.log);
            assert(self.log.events().subrange(0, k) == calls0);
            assert(self.log.events()[k] == calls1[k]);
        }
        let ghost calls2 = self.log.events();
        proof {
            self.steps@ = self.steps@.push(PowerStep::ScreenOff);
            assert(self.steps@ =~= before + plan.take(plan.len() as int));
            assert(plan.take(plan.len() as int) =~= plan);
        }
        let powered = self.screen.power_off(&mut self.log);
        assert(self.log.events().subrange(0, k) == calls0);
        assert(self.log.events()[k] == calls2[k]);
        assert(delay != 0 ==> self.log.events()[k + 1] == calls2[k + 1]);
        match powered {
            Ok(_) => {},
            Err(e) => {
                return Err(e);
            },
        }
        self.record_state(ViewerMode::Asleep, source, now);
        Ok(())
    }

    pub fn current_viewer_mode(&self) -> (m: ViewerMode)
        ensures
            m == self.frame().mode,
    {
        self.state.mode()
    }

    pub fn record_state(&mut self, mode: ViewerMode, source: TransitionSource, now: u64)
        ensures
            final(self).frame() == update_spec(old(self).frame(), mode, source, now),
            final(self).steps() == old(self).steps(),
            final(self).calls() == old(self).calls(),
            final(self).off_delay_spec() == old(self).off_delay_spec(),
            final(self).screen_spec() == old(self).screen_spec(),
            final(self).shutdown_spec() == old(self).shutdown_spec(),
    {
        self.state.update(mode, source, now);
    }
}

/// A completed toggle: the screen was found in state `s`, and the frame was
/// then put to sleep (screen on) or woken (screen off) by a manual request.
pub open spec fn toggled(
    before: FrameModel,
    steps_before: Seq<PowerStep>,
    after: FrameModel,
    steps_after: Seq<PowerStep>,
    s: ScreenState,
    delay: u64,
    now: u64,
) -> bool {
    match s {
        ScreenState::On => {
            &&& steps_after == steps_before.push(PowerStep::Detect(s)) + sleep_steps(before.mode, delay)
            &&& after == update_spec(before, ViewerMode::Asleep, TransitionSource::Manual, now)
        },
        ScreenState::Off => {
            &&& steps_after == steps_before.push(PowerStep::Detect(s)) + wake_steps(before.mode)
            &&& after == update_spec(before, ViewerMode::Awake, TransitionSource::Manual, now)
        },
    }
}

/// A single press toggles the frame; a double press shuts it down.
pub fn perform_action<C: ControlSocket, E: CommandExecutor, D: ScreenDetector>(
    action: Action,
    runtime: &mut Runtime<C, E, D>,
    now: u64,
) -> (r: Result<(), String>)
    ensures
        action == Action::Double ==> final(runtime).steps() == old(runtime).steps().push(PowerStep::Shutdown)
            && final(runtime).calls() == old(runtime).calls().push(IoEvent::Ran(old(runtime).shutdown_spec(), r))
            && final(runtime).frame() == old(runtime).frame(),
        action == Action::Single ==> Runtime::toggle_outcome(*old(runtime), *final(runtime), now, r),
{
    match action {
        Action::Single => runtime.handle_manual_toggle(now),
        Action::Double => runtime.handle_double(),
    }
}

/// Waking never notifies the viewer before the screen is on, and sleeping never
/// powers the screen off before the viewer has been told.
pub proof fn lemma_power_order(mode: ViewerMode, delay: u64)
    ensures
        mode == ViewerMode::Asleep ==> wake_steps(mode)[0] == PowerStep::ScreenOn && wake_steps(mode)[1] == PowerStep::Notify(ViewerMode::Awake),
        mode == ViewerMode::Awake ==> sleep_steps(mode, delay)[0] == PowerStep::Notify(ViewerMode::Asleep)
            && sleep_steps(mode, delay).last() == PowerStep::ScreenOff,
        wake_steps(ViewerMode::Awake).len() == 0,
        sleep_steps(ViewerMode::Asleep, delay).len() == 0,
{
}

/// Longest single wait of the schedule driver.
pub const MAX_SLEEP_MS: u64 = 60_000;

/// Wait after sending a command, to let the frame settle.
pub const COMMAND_SETTLE_MS: u64 = 100;

/// A command is not repeated sooner than this after it was sent.
pub const COMMAND_RETRY_MS: u64 = 1_000;

/// Command that the schedule driver sends to the daemon's main loop.
#[derive(Debug, Clone, Copy, PartialEq, Eq, Structural)]
pub enum SchedulerCommand {
    WakeUp,
    GoToSleep,
}

pub open spec fn target_mode_spec(c: SchedulerCommand) -> ViewerMode {
    match c {
        SchedulerCommand::WakeUp => ViewerMode::Awake,
        SchedulerCommand::GoToSleep => ViewerMode::Asleep,
    }
}

impl SchedulerCommand {
    pub fn target_mode(self) -> (m: ViewerMode)
        ensures
            m == target_mode_spec(self),
    {
        match self {
            SchedulerCommand::WakeUp => ViewerMode::Awake,
            SchedulerCommand::GoToSleep => ViewerMode::Asleep,
        }
    }
}

/// What the schedule driver observes at one moment.
#[derive(Debug, Clone, Copy)]
pub struct SchedulerInputs {
    /// Monotonic clock reading.
    pub now: u64,
    /// Whether the awake schedule wants the frame awake now.
    pub should_be_awake: bool,
    pub current_mode: ViewerMode,
    pub last_manual_awake: Option<u64>,
    pub greeting_complete: bool,
    /// Time until the schedule's next transition, when there is one ahead.
    pub next_transition_in: Option<u64>,
}

/// Fixed timing of the schedule driver.
#[derive(Debug, Clone, Copy)]
pub struct SchedulerTiming {
    /// Clock reading at which the greeting has been shown long enough.
    pub greeting_ready_at: u64,
    /// How long a manual wake holds off a scheduled sleep.
    pub sleep_grace: u64,
}

/// What the driver does next: send a command, or wait (zero means yield).
#[derive(Debug, Clone, Copy, PartialEq, Eq, Structural)]
pub enum SchedulerStep {
    Send(SchedulerCommand),
    Sleep(u64),
}

/// A wait of `d` limited to `0 ..= MAX_SLEEP_MS`.
pub open spec fn capped(d: int) -> u64 {
    if d > MAX_SLEEP_MS {
        MAX_SLEEP_MS
    } else if d < 0 {
        0
    } else {
        d as u64
    }
}

/// Inputs whose deadlines fit the clock's range.
pub open spec fn inputs_in_range(timing: SchedulerTiming, i: SchedulerInputs) -> bool {
    &&& i.now + MAX_SLEEP_MS <= u64::MAX
    &&& (i.last_manual_awake matches Some(t) ==> t + timing.sleep_grace <= u64::MAX)
    &&& (i.next_transition_in matches Some(d) ==> i.now + d <= u64::MAX)
}

/// The command still awaiting its effect, cleared once the frame reached its target.
pub open spec fn settled_pending(pending: Option<(SchedulerCommand, u64)>, mode: ViewerMode) -> Option<(SchedulerCommand, u64)> {
    match pending {
        Some((c, t)) => if mode == target_mode_spec(c) {
            None
        } else {
            pending
        },
        None => None,
    }
}

/// Whether `c` was sent less than the retry interval ago.
pub open spec fn recently_sent(pending: Option<(SchedulerCommand, u64)>, c: SchedulerCommand, now: u64) -> bool {
    pending matches Some((pc, t)) && pc == c && elapsed_ms(now, t) < COMMAND_RETRY_MS
}

pub open spec fn elapsed_ms(now: u64, since: u64) -> int {
    if now >= since {
        now - since
    } else {
        0
    }
}

/// When to look again with nothing to do: at the schedule's next transition,
/// the end of the greeting, or the end of a manual wake's grace, whichever is
/// first, and never later than `MAX_SLEEP_MS`.
pub open spec fn next_check(timing: SchedulerTiming, i: SchedulerInputs) -> int {
    let a = i.now + MAX_SLEEP_MS;
    let b = match i.next_transition_in {
        Some(d) => if d > 0 && i.now + d < a {
            i.now + d
        } else {
            a
        },
        None => a,
    };
    let c = if !i.greeting_complete && i.now < timing.greeting_ready_at && timing.greeting_ready_at < b {
        timing.greeting_ready_at as int
    } else {
        b
    };
    match i.last_manual_awake {
        Some(t) => if t + timing.sleep_grace < c {
            t + timing.sleep_grace
        } else {
            c
        },
        None => c,
    }
}

/// One decision of the schedule driver.
pub open spec fn step_spec(pending: Option<(SchedulerCommand, u64)>, timing: SchedulerTiming, i: SchedulerInputs) -> SchedulerStep {
    let p = settled_pending(pending, i.current_mode);
    if i.should_be_awake && i.current_mode != ViewerMode::Awake {
        if !i.greeting_complete && i.now < timing.greeting_ready_at {
            SchedulerStep::Sleep(capped(timing.greeting_ready_at - i.now))
        } else if recently_sent(p, SchedulerCommand::WakeUp, i.now) {
            SchedulerStep::Sleep(COMMAND_SETTLE_MS)
        } else {
            SchedulerStep::Send(SchedulerCommand::WakeUp)
        }
    } else if !i.should_be_awake && i.current_mode != ViewerMode::Asleep {
        if i.last_manual_awake is Some && i.now < i.last_manual_awake->0 + timing.sleep_grace {
            SchedulerStep::Sleep(capped(i.last_manual_awake->0 + timing.sleep_grace - i.now))
        } else if recently_sent(p, SchedulerCommand::GoToSleep, i.now) {
            SchedulerStep::Sleep(COMMAND_SETTLE_MS)
        } else {
            SchedulerStep::Send(SchedulerCommand::GoToSleep)
        }
    } else {
        SchedulerStep::Sleep(capped(next_check(timing, i) - i.now))
    }
}

/// Memory of the schedule driver: the last command sent and when.
pub struct SchedulerState {
    pub pending: Option<(SchedulerCommand, u64)>,
}

impl SchedulerState {
    pub fn new() -> (s: Self)
        ensures
            s.pending is None,
    {
        SchedulerState { pending: None }
    }

    /// Decides what to do given what is observed now.
    pub fn step(&mut self, timing: &SchedulerTiming, i: &SchedulerInputs) -> (r: SchedulerStep)
        requires
            inputs_in_range(*timing, *i),
        ensures
            r == step_spec(old(self).pending, *timing, *i),
            final(self).pending == settled_pending(old(self).pending, i.current_mode),
    {
        if let Some((c, _)) = self.pending {
            if i.current_mode == c.target_mode() {
                self.pending = None;
            }
        }
        if i.should_be_awake && i.current_mode != ViewerMode::Awake {
            if !i.greeting_complete && i.now < timing.greeting_ready_at {
                return SchedulerStep::Sleep(cap(timing.greeting_ready_at - i.now));
            }
            if let Some((c, t)) = self.pending {
                if c == SchedulerCommand::WakeUp && i.now.saturating_sub(t) < COMMAND_RETRY_MS {
                    return SchedulerStep::Sleep(COMMAND_SETTLE_MS);
                }
            }
            SchedulerStep::Send(SchedulerCommand::WakeUp)
        } else if !i.should_be_awake && i.current_mode != ViewerMode::Asleep {
            if let Some(t) = i.last_manual_awake {
                let deadline = t + timing.sleep_grace;
                if i.now < deadline {
                    return SchedulerStep::Sleep(cap(deadline - i.now));
                }
            }
            if let Some((c, t)) = self.pending {
                if c == SchedulerCommand::GoToSleep && i.now.saturating_sub(t) < COMMAND_RETRY_MS {
                    return SchedulerStep::Sleep(COMMAND_SETTLE_MS);
                }
            }
            SchedulerStep::Send(SchedulerCommand::GoToSleep)
        } else {
            let mut next = i.now + MAX_SLEEP_MS;
            if let Some(d) = i.next_transition_in {
                if d > 0 && i.now + d < next {
                    next = i.now + d;
                }
            }
            if !i.greeting_complete && i.now < timing.greeting_ready_at && timing.greeting_ready_at < next {
                next = timing.greeting_ready_at;
            }
            if let Some(t) = i.last_manual_awake {
                let deadline = t + timing.sleep_grace;
                if deadline < next {
                    next = deadline;
                }
            }
            SchedulerStep::Sleep(cap(next.saturating_sub(i.now)))
        }
    }

    /// Records that `command` was sent at `at`.
    pub fn sent(&mut self, command: SchedulerCommand, at: u64)
        ensures
            final(self).pending == Some((command, at)),
    {
        self.pending = Some((command, at));
    }
}

fn cap(d: u64) -> (r: u64)
    ensures
        r == capped(d as int),
{
    if d > MAX_SLEEP_MS {
        MAX_SLEEP_MS
    } else {
        d
    }
}

/// The driver only sends a command that moves the frame toward the schedule:
/// it never wakes the frame before the greeting has run, never puts it to
/// sleep within the grace period of a manual wake, and never repeats a command
/// within the retry interval. Every wait is at most `MAX_SLEEP_MS`.
pub proof fn lemma_scheduler_decisions(pending: Option<(SchedulerCommand, u64)>, timing: SchedulerTiming, i: SchedulerInputs)
    requires
        inputs_in_range(timing, i),
    ensures
        step_spec(pending, timing, i) == SchedulerStep::Send(SchedulerCommand::WakeUp) ==> {
            &&& i.should_be_awake
            &&& i.current_mode == ViewerMode::Asleep
            &&& (i.greeting_complete || i.now >= timing.greeting_ready_at)
            &&& !recently_sent(settled_pending(pending, i.current_mode), SchedulerCommand::WakeUp, i.now)
        },
        step_spec(pending, timing, i) == SchedulerStep::Send(SchedulerCommand::GoToSleep) ==> {
            &&& !i.should_be_awake
            &&& i.current_mode == ViewerMode::Awake
            &&& (i.last_manual_awake matches Some(t) ==> i.now >= t + timing.sleep_grace)
            &&& !recently_sent(settled_pending(pending, i.current_mode), SchedulerCommand::GoToSleep, i.now)
        },
        step_spec(pending, timing, i) matches SchedulerStep::Sleep(d) ==> d <= MAX_SLEEP_MS,
{
}

} // verus!
