//! The applet's state and its decisions.
//!
//! The host reports what happened as a [`Message`]; [`Window::update`] changes
//! the state and answers with the [`Command`]s that the host is to carry
//! out, in order. Nothing here touches the host: sampling memory, saving
//! settings and opening surfaces are commands, and what they yield comes
//! back as plain values.

use vstd::prelude::*;
use vstd::string::*;
use crate::config::CosmicAppletRamConfig;
use crate::decimal::{decimal, is_digit, parse_spec, parse_u64, u64_to_string, unsigned_part};
use crate::format::{format_bytes, format_bytes_spec};
use crate::units::{Prefix, Standard};

verus! {

/// The host's name for one of its windows.
pub type WindowId = u64;

/// The smallest value of the precision control.
pub const PRECISION_MIN: u32 = 0;

/// The largest value of the precision control.
pub const PRECISION_MAX: u32 = 10;

/// By how much one press changes the precision control.
pub const PRECISION_STEP: u32 = 1;

/// The bounds between which the host may size the popup, in pixels.
#[derive(Clone, Copy, Debug, PartialEq, Eq, Structural)]
pub struct PopupLimits {
    pub min_width: u32,
    pub max_width: u32,
    pub min_height: u32,
    pub max_height: u32,
}

/// What the host reports.
#[derive(Clone, Debug)]
pub enum Message {
    /// The refresh timer has fired.
    Tick,
    /// The user pressed the panel button. `parent` is the applet's main
    /// window, if the host knows one; `fresh` is an identifier that no window
    /// has yet, for the popup in case one is opened.
    TogglePopup { parent: Option<WindowId>, fresh: WindowId },
    /// The host has closed a popup.
    PopupClosed(WindowId),
    /// The user picked a standard.
    UpdateStandard(Standard),
    /// The user set the precision.
    UpdatePrecision(u32),
    /// The user picked a prefix.
    UpdatePrefix(Prefix),
    /// The user edited the text of the refresh period.
    UpdateInterval(String),
    /// The user switched the total on or off.
    UpdateShowTotal(bool),
    /// The stored settings were changed, here or elsewhere.
    ConfigChanged(CosmicAppletRamConfig),
}

/// What the host is to carry out.
#[derive(Clone, Copy, Debug, PartialEq, Eq, Structural)]
pub enum Command {
    /// Close the popup with this identifier.
    DestroyPopup(WindowId),
    /// Open a popup under `parent` with the identifier `id`, sized within
    /// `limits`.
    GetPopup { parent: WindowId, id: WindowId, limits: PopupLimits },
    /// Sample the used and the installed memory and hand them to
    /// [`Window::refresh_metrics`].
    RefreshMetrics,
    /// Store the precision.
    SavePrecision(u32),
    /// Store the standard.
    SaveStandard(Standard),
    /// Store whether the total is shown.
    SaveShowTotal(bool),
    /// Store the prefix.
    SavePrefix(Prefix),
    /// Store the refresh period.
    SaveUpdateInterval(u64),
    /// Mark this standard as the selected one on the standard selector.
    ActivateStandard(Standard),
    /// Tell the refresh timer to run with this period, in milliseconds.
    SetTicks(u64),
}

/// What the settings popup shows.
#[derive(Clone, Debug)]
pub struct Settings {
    /// The text in the field of the refresh period.
    pub update_interval_text: String,
    /// The selected standard.
    pub standard: Standard,
    /// The selected position of the prefix menu.
    pub prefix_index: usize,
    /// The value of the precision control.
    pub precision: u32,
    /// The value of the precision control as text.
    pub precision_text: String,
    /// Whether the box of the total is ticked.
    pub show_total: bool,
}

/// The applet's state as contracts see it.
pub struct WindowView {
    /// The popup that is open, if one is.
    pub popup: Option<WindowId>,
    /// The memory in use at the last sample, in bytes.
    pub used: u64,
    /// The memory installed at the last sample, in bytes.
    pub total: u64,
    /// The settings in force.
    pub live_config: CosmicAppletRamConfig,
    /// The text in the field of the refresh period, as the user left it.
    pub update_interval_text: Seq<char>,
}

/// The applet's state.
pub struct Window {
    popup: Option<WindowId>,
    used: u64,
    total: u64,
    live_config: CosmicAppletRamConfig,
    update_interval_text: String,
}

/// The bounds of the popup.
pub open spec fn spec_popup_limits() -> PopupLimits {
    PopupLimits { min_width: 300, max_width: 372, min_height: 200, max_height: 1080 }
}

/// The refresh period that a text asks for: the number it reads as, if it
/// reads as one and that is positive.
pub open spec fn wanted_interval(text: Seq<char>) -> Option<u64> {
    match parse_spec(text) {
        Some(msec) => if msec > 0 {
            Some(msec)
        } else {
            None
        },
        None => None,
    }
}

impl WindowView {
    /// The settings in force are valid ones.
    pub open spec fn valid(self) -> bool {
        self.live_config.valid()
    }

    /// The state that the applet starts in.
    pub open spec fn initial(config: CosmicAppletRamConfig) -> WindowView {
        WindowView {
            popup: None,
            used: 0,
            total: 0,
            live_config: config,
            update_interval_text: decimal(config.update_interval as nat),
        }
    }

    /// The refresh period in force, in milliseconds.
    pub open spec fn timer_period(self) -> u64 {
        self.live_config.update_interval
    }

    /// The same state under other settings.
    pub open spec fn with_config(self, config: CosmicAppletRamConfig) -> WindowView {
        WindowView { live_config: config, ..self }
    }

    /// The press of the panel button: an open popup is closed; with none
    /// open, one is opened under the main window, and nothing happens where
    /// the host knows no main window.
    pub open spec fn toggle_popup(self, parent: Option<WindowId>, fresh: WindowId) -> (
        WindowView,
        Seq<Command>,
    ) {
        match self.popup {
            Some(id) => (WindowView { popup: None, ..self }, seq![Command::DestroyPopup(id)]),
            None => match parent {
                Some(main) => (
                    WindowView { popup: Some(fresh), ..self },
                    seq![Command::GetPopup { parent: main, id: fresh, limits: spec_popup_limits() }],
                ),
                None => (self, Seq::empty()),
            },
        }
    }

    /// The host's notice that a popup was closed: only the notice of the
    /// popup that is open counts.
    pub open spec fn popup_closed(self, id: WindowId) -> WindowView {
        if self.popup == Some(id) {
            WindowView { popup: None, ..self }
        } else {
            self
        }
    }

    /// An edit of the refresh period's text: the text is kept as typed; the
    /// period follows only where the text asks for one.
    pub open spec fn interval_typed(self, text: Seq<char>) -> (WindowView, Seq<Command>) {
        match wanted_interval(text) {
            Some(msec) => (
                WindowView {
                    live_config: CosmicAppletRamConfig {
                        update_interval: msec,
                        ..self.live_config
                    },
                    update_interval_text: text,
                    ..self
                },
                seq![Command::SaveUpdateInterval(msec), Command::SetTicks(msec)],
            ),
            None => (WindowView { update_interval_text: text, ..self }, Seq::empty()),
        }
    }

    /// Changed stored settings: they become the settings in force. The
    /// standard selector and the timer are told only of what differs, and
    /// only a changed period replaces the text of its field.
    pub open spec fn reconcile(self, config: CosmicAppletRamConfig) -> (WindowView, Seq<Command>) {
        let standard_differs = config.standard != self.live_config.standard;
        let interval_differs = config.update_interval != self.live_config.update_interval;
        (
            WindowView {
                live_config: config,
                update_interval_text: if interval_differs {
                    decimal(config.update_interval as nat)
                } else {
                    self.update_interval_text
                },
                ..self
            },
            (if standard_differs {
                seq![Command::ActivateStandard(config.standard)]
            } else {
                Seq::empty()
            }) + (if interval_differs {
                seq![Command::SetTicks(config.update_interval)]
            } else {
                Seq::empty()
            }),
        )
    }

    /// The state after a message, and the commands that the message gives
    /// rise to, in order.
    pub open spec fn update(self, message: Message) -> (WindowView, Seq<Command>) {
        match message {
            Message::Tick => (self, seq![Command::RefreshMetrics]),
            Message::TogglePopup { parent, fresh } => self.toggle_popup(parent, fresh),
            Message::PopupClosed(id) => (self.popup_closed(id), Seq::empty()),
            Message::UpdatePrecision(precision) => (
                self.with_config(CosmicAppletRamConfig { precision, ..self.live_config }),
                seq![Command::SavePrecision(precision), Command::RefreshMetrics],
            ),
            Message::UpdateStandard(standard) => (
                self.with_config(CosmicAppletRamConfig { standard, ..self.live_config }),
                seq![
                    Command::SaveStandard(standard),
                    Command::ActivateStandard(standard),
                    Command::RefreshMetrics,
                ],
            ),
            Message::UpdateShowTotal(show_total) => (
                self.with_config(CosmicAppletRamConfig { show_total, ..self.live_config }),
                seq![Command::SaveShowTotal(show_total), Command::RefreshMetrics],
            ),
            Message::UpdatePrefix(prefix) => (
                self.with_config(CosmicAppletRamConfig { prefix, ..self.live_config }),
                seq![Command::SavePrefix(prefix), Command::RefreshMetrics],
            ),
            Message::UpdateInterval(text) => self.interval_typed(text@),
            Message::ConfigChanged(config) => self.reconcile(config),
        }
    }

    /// The texts on the panel button, from left to right: the memory in use
    /// and, where the total is shown, a separator and the memory installed.
    pub open spec fn panel_texts(self) -> Seq<Seq<char>> {
        let config = self.live_config;
        let used = format_bytes_spec(self.used, config.standard, config.prefix, config.precision);
        let total = format_bytes_spec(
            self.total,
            config.standard,
            config.prefix,
            config.precision,
        );
        if config.show_total {
            seq![used, seq![' ', '/', ' '], total]
        } else {
            seq![used]
        }
    }
}

impl View for Window {
    type V = WindowView;

    closed spec fn view(&self) -> WindowView {
        WindowView {
            popup: self.popup,
            used: self.used,
            total: self.total,
            live_config: self.live_config,
            update_interval_text: self.update_interval_text@,
        }
    }
}

/// The bounds of the popup.
pub fn popup_limits() -> (limits: PopupLimits)
    ensures
        limits == spec_popup_limits(),
{
    PopupLimits { min_width: 300, max_width: 372, min_height: 200, max_height: 1080 }
}

/// The refresh period that a text asks for: `Some` exactly where the text
/// reads as a positive number.
pub fn interval_of(text: &str) -> (wanted: Option<u64>)
    ensures
        wanted == wanted_interval(text@),
{
    match parse_u64(text) {
        Some(msec) => if msec > 0 {
            Some(msec)
        } else {
            None
        },
        None => None,
    }
}

impl Window {
    /// The state that the applet starts in under the stored settings, and
    /// what the host is to do first: select the standard and take a sample.
    pub fn init(config: CosmicAppletRamConfig) -> (out: (Window, Vec<Command>))
        requires
            config.valid(),
        ensures
            out.0@ == WindowView::initial(config),
            out.0@.valid(),
            out.1@ == seq![Command::ActivateStandard(config.standard), Command::RefreshMetrics],
    {
        let window = Window {
            popup: None,
            used: 0,
            total: 0,
            live_config: config,
            update_interval_text: u64_to_string(config.update_interval),
        };
        let mut commands: Vec<Command> = Vec::new();
        commands.push(Command::ActivateStandard(config.standard));
        commands.push(Command::RefreshMetrics);
        assert(commands@ =~= seq![
            Command::ActivateStandard(config.standard),
            Command::RefreshMetrics,
        ]);
        (window, commands)
    }

    /// The popup that is open, if one is.
    pub fn popup(&self) -> (id: Option<WindowId>)
        ensures
            id == self@.popup,
    {
        self.popup
    }

    /// The memory in use at the last sample, in bytes.
    pub fn used(&self) -> (bytes: u64)
        ensures
            bytes == self@.used,
    {
        self.used
    }

    /// The memory installed at the last sample, in bytes.
    pub fn total(&self) -> (bytes: u64)
        ensures
            bytes == self@.total,
    {
        self.total
    }

    /// The settings in force.
    pub fn live_config(&self) -> (config: CosmicAppletRamConfig)
        ensures
            config == self@.live_config,
    {
        self.live_config
    }

    /// The text in the field of the refresh period.
    pub fn update_interval_text(&self) -> (text: &str)
        ensures
            text@ == self@.update_interval_text,
    {
        self.update_interval_text.as_str()
    }

    /// The refresh period in force, in milliseconds.
    pub fn timer_period(&self) -> (msec: u64)
        ensures
            msec == self@.timer_period(),
    {
        self.live_config.update_interval
    }

    /// The command that gives the refresh timer another period.
    pub fn set_ticks(msec: u64) -> (command: Command)
        ensures
            command == Command::SetTicks(msec),
    {
        Command::SetTicks(msec)
    }

    /// Puts another standard in force and has the selector show it.
    pub fn ui_set_standard(&mut self, standard: Standard) -> (command: Command)
        ensures
            final(self)@ == old(self)@.with_config(
                CosmicAppletRamConfig { standard, ..old(self)@.live_config },
            ),
            command == Command::ActivateStandard(standard),
    {
        self.live_config.standard = standard;
        Command::ActivateStandard(standard)
    }

    /// Puts another refresh period in force: the text of its field is
    /// replaced by the period's digits, and the timer is told.
    pub fn ui_set_update_interval(&mut self, msec: u64) -> (command: Command)
        ensures
            final(self)@ == (WindowView {
                live_config: CosmicAppletRamConfig {
                    update_interval: msec,
                    ..old(self)@.live_config
                },
                update_interval_text: decimal(msec as nat),
                ..old(self)@
            }),
            command == Command::SetTicks(msec),
    {
        self.live_config.update_interval = msec;
        self.update_interval_text = u64_to_string(msec);
        Window::set_ticks(msec)
    }

    /// Puts another prefix in force.
    pub fn ui_set_prefix(&mut self, prefix: Prefix)
        ensures
            final(self)@ == old(self)@.with_config(
                CosmicAppletRamConfig { prefix, ..old(self)@.live_config },
            ),
    {
        self.live_config.prefix = prefix;
    }

    /// Puts another precision in force.
    pub fn ui_set_precision(&mut self, precision: u32)
        ensures
            final(self)@ == old(self)@.with_config(
                CosmicAppletRamConfig { precision, ..old(self)@.live_config },
            ),
    {
        self.live_config.precision = precision;
    }

    /// Shows or hides the installed memory.
    pub fn ui_set_show_total(&mut self, enable: bool)
        ensures
            final(self)@ == old(self)@.with_config(
                CosmicAppletRamConfig { show_total: enable, ..old(self)@.live_config },
            ),
    {
        self.live_config.show_total = enable;
    }

    /// Takes a fresh sample of the used and the installed memory.
    pub fn refresh_metrics(&mut self, used: u64, total: u64)
        ensures
            final(self)@ == (WindowView { used, total, ..old(self)@ }),
    {
        self.used = used;
        self.total = total;
    }

    /// The message that the host's request to close a window turns into.
    pub fn on_close_requested(id: WindowId) -> (message: Option<Message>)
        ensures
            message == Some(Message::PopupClosed(id)),
    {
        Some(Message::PopupClosed(id))
    }

    /// Takes a message: the state becomes what [`WindowView::update`] says,
    /// and the commands it names are returned in order.
    pub fn update(&mut self, message: Message) -> (commands: Vec<Command>)
        requires
            old(self)@.valid(),
            message matches Message::ConfigChanged(config) ==> config.valid(),
        ensures
            final(self)@ == old(self)@.update(message).0,
            commands@ == old(self)@.update(message).1,
            final(self)@.valid(),
    {
        let mut commands: Vec<Command> = Vec::new();
        match message {
            Message::Tick => {
                commands.push(Command::RefreshMetrics);
            },
            Message::TogglePopup { parent, fresh } => {
                match self.popup {
                    Some(id) => {
                        self.popup = None;
                        commands.push(Command::DestroyPopup(id));
                    },
                    None => {
                        match parent {
                            Some(main) => {
                                self.popup = Some(fresh);
                                commands.push(
                                    Command::GetPopup {
                                        parent: main,
                                        id: fresh,
                                        limits: popup_limits(),
                                    },
                                );
                            },
                            None => {},
                        }
                    },
                }
            },
            Message::PopupClosed(id) => {
                match self.popup {
                    Some(open) => {
                        if open == id {
                            self.popup = None;
                        }
                    },
                    None => {},
                }
            },
            Message::UpdatePrecision(precision) => {
                commands.push(Command::SavePrecision(precision));
                self.ui_set_precision(precision);
                commands.push(Command::RefreshMetrics);
            },
            Message::UpdateStandard(standard) => {
                commands.push(Command::SaveStandard(standard));
                let activate = self.ui_set_standard(standard);
                commands.push(activate);
                commands.push(Command::RefreshMetrics);
            },
            Message::UpdateShowTotal(enable) => {
                commands.push(Command::SaveShowTotal(enable));
                self.ui_set_show_total(enable);
                commands.push(Command::RefreshMetrics);
            },
            Message::UpdatePrefix(prefix) => {
                commands.push(Command::SavePrefix(prefix));
                self.ui_set_prefix(prefix);
                commands.push(Command::RefreshMetrics);
            },
            Message::UpdateInterval(text) => {
                match interval_of(text.as_str()) {
                    Some(msec) => {
                        commands.push(Command::SaveUpdateInterval(msec));
                        self.live_config.update_interval = msec;
                        commands.push(Window::set_ticks(msec));
                    },
                    None => {},
                }
                self.update_interval_text = text;
            },
            Message::ConfigChanged(config) => {
                if config.precision != self.live_config.precision {
                    self.ui_set_precision(config.precision);
                }
                if config.prefix != self.live_config.prefix {
                    self.ui_set_prefix(config.prefix);
                }
                if config.show_total != self.live_config.show_total {
                    self.ui_set_show_total(config.show_total);
                }
                if config.standard != self.live_config.standard {
                    let activate = self.ui_set_standard(config.standard);
                    commands.push(activate);
                }
                if config.update_interval != self.live_config.update_interval {
                    let rearm = self.ui_set_update_interval(config.update_interval);
                    commands.push(rearm);
                }
            },
        }
        assert(commands@ =~= old(self)@.update(message).1);
        commands
    }

    /// The texts on the panel button, from left to right.
    pub fn panel_labels(&self) -> (labels: Vec<String>)
        ensures
            labels@.len() == self@.panel_texts().len(),
            forall|i: int| 0 <= i < labels@.len() ==> labels@[i]@ == self@.panel_texts()[i],
    {
        let config = self.live_config;
        let mut labels: Vec<String> = Vec::new();
        labels.push(format_bytes(self.used, config.standard, config.prefix, config.precision));
        if config.show_total {
            proof {
                reveal_strlit(" / ");
            }
            let separator = String::from_str(" / ");
            assert(separator@ =~= seq![' ', '/', ' ']);
            labels.push(separator);
            labels.push(
                format_bytes(self.total, config.standard, config.prefix, config.precision),
            );
        }
        labels
    }

    /// What the settings popup shows: each control at the value in force,
    /// and the field of the refresh period with the text as the user left it.
    pub fn settings(&self) -> (shown: Settings)
        ensures
            shown.update_interval_text@ == self@.update_interval_text,
            shown.standard == self@.live_config.standard,
            shown.prefix_index == self@.live_config.prefix.spec_index(),
            shown.precision == self@.live_config.precision,
            shown.precision_text@ == decimal(self@.live_config.precision as nat),
            shown.show_total == self@.live_config.show_total,
    {
        Settings {
            update_interval_text: self.update_interval_text.clone(),
            standard: self.live_config.standard,
            prefix_index: self.live_config.prefix.index(),
            precision: self.live_config.precision,
            precision_text: u64_to_string(self.live_config.precision as u64),
            show_total: self.live_config.show_total,
        }
    }
}

/// A text with a character that is no digit, other than a `+` in front, asks
/// for no refresh period.
pub proof fn lemma_not_a_number(text: Seq<char>, at: int)
    requires
        0 <= at < text.len(),
        !is_digit(text[at]),
        at > 0 || text[0] != '+',
    ensures
        parse_spec(text) is None,
        wanted_interval(text) is None,
{
    let body = unsigned_part(text);
    if text[0] == '+' {
        assert(body[at - 1] == text[at]);
    } else {
        assert(body[at] == text[at]);
    }
}

/// A text that reads as zero asks for no refresh period.
pub proof fn lemma_zero_is_no_interval(text: Seq<char>)
    requires
        parse_spec(text) == Some(0u64),
    ensures
        wanted_interval(text) is None,
{
}

/// An edit of the refresh period's text that asks for no period (the text
/// is no number, or reads as zero) leaves the period in force and the timer
/// alone: all settings stay as they are and no command is given. The text
/// itself is kept as typed.
pub proof fn lemma_rejected_interval_keeps_period(window: WindowView, text: String)
    requires
        parse_spec(text@) is None || parse_spec(text@) == Some(0u64),
    ensures
        window.update(Message::UpdateInterval(text)).0 == (WindowView {
            update_interval_text: text@,
            ..window
        }),
        window.update(Message::UpdateInterval(text)).0.timer_period() == window.timer_period(),
        window.update(Message::UpdateInterval(text)).1 == Seq::<Command>::empty(),
{
}

/// The timer is only ever given a positive period.
pub proof fn lemma_ticks_are_positive(window: WindowView, message: Message, at: int)
    requires
        window.valid(),
        message matches Message::ConfigChanged(config) ==> config.valid(),
        0 <= at < window.update(message).1.len(),
    ensures
        window.update(message).1[at] matches Command::SetTicks(msec) ==> msec > 0,
        window.update(message).0.valid(),
{
}

/// The timer runs with the period in force: whenever a message changes that
/// period the timer is told the new one, and it is never told another.
pub proof fn lemma_timer_follows_period(window: WindowView, message: Message)
    ensures
        ({
            let after = window.update(message).0;
            let commands = window.update(message).1;
            &&& after.timer_period() != window.timer_period() ==> commands.contains(
                Command::SetTicks(after.timer_period()),
            )
            &&& forall|at: int|
                0 <= at < commands.len() ==> (#[trigger] commands[at] matches Command::SetTicks(
                    msec,
                ) ==> msec == after.timer_period())
        }),
{
    let after = window.update(message).0;
    let commands = window.update(message).1;
    if after.timer_period() != window.timer_period() {
        let told = Command::SetTicks(after.timer_period());
        assert(commands.len() > 0);
        assert(commands[commands.len() - 1] == told);
    }
}

/// With no popup open and a main window known, pressing the panel button
/// opens a popup, and pressing it again closes that popup: afterwards none
/// is open.
pub proof fn lemma_toggle_twice(
    window: WindowView,
    main: WindowId,
    fresh: WindowId,
    later_parent: Option<WindowId>,
    later_fresh: WindowId,
)
    requires
        window.popup is None,
    ensures
        ({
            let first = window.update(Message::TogglePopup { parent: Some(main), fresh });
            let second = first.0.update(
                Message::TogglePopup { parent: later_parent, fresh: later_fresh },
            );
            &&& first.0.popup == Some(fresh)
            &&& first.1 == seq![
                Command::GetPopup { parent: main, id: fresh, limits: spec_popup_limits() },
            ]
            &&& second.0 == window
            &&& second.0.popup is None
            &&& second.1 == seq![Command::DestroyPopup(fresh)]
        }),
{
}

/// A notice that some other popup was closed changes nothing.
pub proof fn lemma_stale_close_is_ignored(window: WindowView, id: WindowId)
    requires
        window.popup != Some(id),
    ensures
        window.update(Message::PopupClosed(id)) == (window, Seq::<Command>::empty()),
{
}

/// Stored settings that equal the settings in force change nothing and give
/// no command.
pub proof fn lemma_same_config_changes_nothing(window: WindowView)
    ensures
        window.update(Message::ConfigChanged(window.live_config)) == (
            window,
            Seq::<Command>::empty(),
        ),
{
    let after = window.update(Message::ConfigChanged(window.live_config));
    assert(after.1 =~= Seq::<Command>::empty());
}

/// Taking the same stored settings a second time changes nothing more.
pub proof fn lemma_reconcile_is_idempotent(window: WindowView, config: CosmicAppletRamConfig)
    ensures
        ({
            let once = window.update(Message::ConfigChanged(config)).0;
            &&& once.live_config == config
            &&& once.update(Message::ConfigChanged(config)) == (once, Seq::<Command>::empty())
        }),
{
    let once = window.update(Message::ConfigChanged(config)).0;
    lemma_same_config_changes_nothing(once);
}

} // verus!
