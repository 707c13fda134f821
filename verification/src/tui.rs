use vstd::prelude::*;

use crate::service_list::{
    count_status, has_status, count_with_status, first_named, position_of_name, sort_services,
    stably_sorted_from,
};
use crate::service_manager::{is_running_status, ServiceInfo};
use crate::system_info::SystemInfo;
use crate::text::{
    concat3, concat4, contains_chars, decimal, push_decimal, push_str, str_contains,
    string_from_chars,
};

verus! {

#[verifier::external_type_specification]
#[verifier::external_body]
pub struct ExInstant(std::time::Instant);

/// `std::time::Instant::now`: the current time. Nothing is stated of it.
#[verifier::external_body]
fn instant_now() -> std::time::Instant {
    std::time::Instant::now()
}

/// `std::time::Instant::elapsed`: the time since `t`. Nothing is stated of it.
#[verifier::external_body]
fn instant_elapsed(t: &std::time::Instant) -> std::time::Duration {
    t.elapsed()
}

/// `std::time::Duration::as_secs`: the whole seconds of `d`. Nothing is
/// stated of it, `Duration` being opaque here.
#[verifier::external_body]
fn duration_secs(d: &std::time::Duration) -> u64 {
    d.as_secs()
}

/// `std::time::Duration::subsec_nanos`: the fractional part of `d` in
/// nanoseconds, documented to be below one billion.
#[verifier::external_body]
fn duration_subsec_nanos(d: &std::time::Duration) -> (n: u32)
    ensures
        n < 1_000_000_000,
{
    d.subsec_nanos()
}

/// Rows of the service list that fit on screen, as the navigation counts them.
pub const VISIBLE_ROWS: usize = 20;

/// Seconds after which a status message is cleared.
pub const STATUS_MESSAGE_SECONDS: u64 = 5;

/// A key press, as the interface tells keys apart.
#[derive(Debug, Clone, Copy, PartialEq, Eq)]
pub enum Key {
    Up,
    Down,
    PageUp,
    PageDown,
    Enter,
    Esc,
    Char(char),
    Other,
}

/// What the interface must do after a key press.
#[derive(Debug)]
pub enum KeyAction {
    /// Nothing more.
    Nothing,
    /// List the services again, pass the result to `refresh_services`, then
    /// call `record_refresh`.
    Refresh,
    /// Stop this running service, pass the outcome to `record_stop_outcome`,
    /// then refresh.
    StopService(String),
    /// Start this stopped service, pass the outcome to `record_start_outcome`,
    /// then refresh.
    StartService(String),
}

/// The state of the interactive interface.
pub struct AppState {
    pub services: Vec<ServiceInfo>,
    pub selected_index: usize,
    pub scroll_offset: usize,
    pub system_info: SystemInfo,
    pub last_refresh: std::time::Instant,
    pub status_message: Option<String>,
    pub status_message_time: std::time::Instant,
    pub network_protection_enabled: bool,
}

/// The view of an optional string.
pub open spec fn opt_view(o: Option<String>) -> Option<Seq<char>> {
    match o {
        Some(s) => Some(s@),
        None => None,
    }
}

/// `a - b`, or `0` when `b` is larger (`usize::saturating_sub`).
pub open spec fn sat_sub(a: int, b: int) -> int {
    if a >= b {
        a - b
    } else {
        0
    }
}

/// The smaller of `a` and `b`.
pub open spec fn min_int(a: int, b: int) -> int {
    if a <= b {
        a
    } else {
        b
    }
}

/// Selection and scroll offset after a key, for a list of `len` services.
pub open spec fn navigation(key: Key, sel: int, scroll: int, len: int) -> (int, int) {
    match key {
        Key::Up => if sel > 0 {
            let s = sel - 1;
            (s, if s < scroll {
                s
            } else {
                scroll
            })
        } else {
            (sel, scroll)
        },
        Key::Down => if len > 0 && sel < len - 1 {
            let s = sel + 1;
            (s, if s >= scroll + VISIBLE_ROWS {
                s - VISIBLE_ROWS + 1
            } else {
                scroll
            })
        } else {
            (sel, scroll)
        },
        Key::PageUp => (sat_sub(sel, 10), sat_sub(scroll, 10)),
        Key::PageDown => (min_int(sel + 10, sat_sub(len, 1)), min_int(scroll + 10, sat_sub(len, 20))),
        _ => (sel, scroll),
    }
}

/// Whether network protection is on after a key (`p` toggles it).
pub open spec fn protection_after(key: Key, enabled: bool) -> bool {
    if key == Key::Char('p') {
        !enabled
    } else {
        enabled
    }
}

/// The status message after a key, given the message before and whether
/// protection is on after the key.
pub open spec fn message_after(key: Key, before: Option<Seq<char>>, enabled: bool) -> Option<
    Seq<char>,
> {
    if key == Key::Esc || key == Key::Char('q') {
        Some("Exiting..."@)
    } else if key == Key::Char('p') {
        Some(
            if enabled {
                "Network protection enabled"@
            } else {
                "Network protection disabled"@
            },
        )
    } else {
        before
    }
}

/// Whether a key sets a new status message.
pub open spec fn sets_message(key: Key) -> bool {
    key == Key::Esc || key == Key::Char('q') || key == Key::Char('p')
}

/// The action a key asks for: `Enter` stops the selected service when it runs
/// and starts it otherwise, `r` refreshes.
pub open spec fn key_action(key: Key, services: Seq<ServiceInfo>, sel: int) -> KeyAction {
    if key == Key::Enter {
        if 0 <= sel < services.len() {
            if is_running_status(services[sel].status@) {
                KeyAction::StopService(services[sel].name)
            } else {
                KeyAction::StartService(services[sel].name)
            }
        } else {
            KeyAction::Nothing
        }
    } else if key == Key::Char('r') {
        KeyAction::Refresh
    } else {
        KeyAction::Nothing
    }
}

/// Whether the interface quits with this status message: it does once the
/// message mentions `Exiting`.
pub open spec fn quits(message: Option<Seq<char>>) -> bool {
    match message {
        Some(m) => contains_chars(m, "Exiting"@),
        None => false,
    }
}

/// The footer: the status message, or counts of services when there is none.
pub open spec fn footer(services: Seq<ServiceInfo>, message: Option<Seq<char>>) -> Seq<char> {
    match message {
        Some(m) => m,
        None => "Total services: "@ + decimal(services.len()) + " | Running: "@ + decimal(
            count_status(services, "Running"@),
        ) + " | Stopped: "@ + decimal(count_status(services, "Stopped"@)),
    }
}

/// The message after a stop request.
pub open spec fn stop_message(name: Seq<char>, outcome: Result<(), String>) -> Seq<char> {
    match outcome {
        Ok(_) => "Service '"@ + name + "' stopped"@,
        Err(e) => "Failed to stop '"@ + name + "': "@ + e@,
    }
}

/// The message after a start request.
pub open spec fn start_message(name: Seq<char>, outcome: Result<(), String>) -> Seq<char> {
    match outcome {
        Ok(_) => "Service '"@ + name + "' started"@,
        Err(e) => "Failed to start '"@ + name + "': "@ + e@,
    }
}

/// Whether `b` equals `a` but for the status message and its time.
pub open spec fn same_but_message(a: &AppState, b: &AppState) -> bool {
    &&& b.services == a.services
    &&& b.selected_index == a.selected_index
    &&& b.scroll_offset == a.scroll_offset
    &&& b.system_info == a.system_info
    &&& b.last_refresh == a.last_refresh
    &&& b.network_protection_enabled == a.network_protection_enabled
}

/// The services that a listing gives: its entries, or none when it failed.
pub open spec fn listed(listing: Result<Vec<ServiceInfo>, String>) -> Seq<ServiceInfo> {
    match listing {
        Ok(v) => v@,
        Err(_) => Seq::empty(),
    }
}

impl AppState {
    /// The initial state from the first listing (empty when it failed):
    /// services sorted for display, the first one selected, network
    /// protection on, no message.
    pub fn new(listing: Result<Vec<ServiceInfo>, String>) -> (state: AppState)
        ensures
            stably_sorted_from(state.services@, listed(listing)),
            state.selected_index == 0,
            state.scroll_offset == 0,
            state.status_message is None,
            state.network_protection_enabled,
            state.system_info.figures_match(),
    {
        let services = match listing {
            Ok(v) => v,
            Err(_) => Vec::new(),
        };
        let now = instant_now();
        AppState {
            services: sort_services(services),
            selected_index: 0,
            scroll_offset: 0,
            system_info: SystemInfo::new(),
            last_refresh: now,
            status_message: None,
            status_message_time: instant_now(),
            network_protection_enabled: true,
        }
    }

    /// Takes a new listing of the services: when it succeeded, the services
    /// are replaced by it, sorted for display, and the selection follows the
    /// selected service by name when it is still listed; a failed listing
    /// changes nothing.
    pub fn refresh_services(&mut self, listing: Result<Vec<ServiceInfo>, String>)
        ensures
            match listing {
                Err(_) => *final(self) == *old(self),
                Ok(v) => {
                    &&& stably_sorted_from(final(self).services@, v@)
                    &&& final(self).scroll_offset == old(self).scroll_offset
                    &&& final(self).system_info == old(self).system_info
                    &&& final(self).status_message == old(self).status_message
                    &&& final(self).status_message_time == old(self).status_message_time
                    &&& final(self).network_protection_enabled == old(
                        self,
                    ).network_protection_enabled
                    &&& if old(self).selected_index < old(self).services@.len() && exists|j: int|
                        first_named(
                            final(self).services@,
                            old(self).services@[old(self).selected_index as int].name@,
                            j,
                        ) {
                        first_named(
                            final(self).services@,
                            old(self).services@[old(self).selected_index as int].name@,
                            final(self).selected_index as int,
                        )
                    } else {
                        final(self).selected_index == old(self).selected_index
                    }
                },
            },
    {
        match listing {
            Err(_) => {},
            Ok(new_services) => {
                let sorted = sort_services(new_services);
                let selected_name: Option<String> = if self.selected_index < self.services.len() {
                    Some(self.services[self.selected_index].name.clone())
                } else {
                    None
                };
                self.services = sorted;
                if let Some(name) = selected_name {
                    match position_of_name(&self.services, name.as_str()) {
                        Some(j) => {
                            self.selected_index = j;
                        },
                        None => {},
                    }
                }
                self.last_refresh = instant_now();
            },
        }
    }

    /// Shows `message` in the footer from now on.
    pub fn set_status_message(&mut self, message: String)
        ensures
            final(self).status_message == Some(message),
            same_but_message(old(self), final(self)),
    {
        self.status_message = Some(message);
        self.status_message_time = instant_now();
    }

    /// Clears the status message once it has been shown for more than five
    /// seconds, `elapsed_secs` and `elapsed_subsec_nanos` being the time since
    /// it was set.
    pub fn expire_status_message(&mut self, elapsed_secs: u64, elapsed_subsec_nanos: u32)
        ensures
            final(self).status_message == (if elapsed_secs > STATUS_MESSAGE_SECONDS || (
            elapsed_secs == STATUS_MESSAGE_SECONDS && elapsed_subsec_nanos > 0) {
                None
            } else {
                old(self).status_message
            }),
            final(self).status_message_time == old(self).status_message_time,
            same_but_message(old(self), final(self)),
    {
        if self.status_message.is_some() && (elapsed_secs > STATUS_MESSAGE_SECONDS || (
        elapsed_secs == STATUS_MESSAGE_SECONDS && elapsed_subsec_nanos > 0)) {
            self.status_message = None;
        }
    }

    /// Clears the status message once it has been shown for more than five
    /// seconds. When a message is shown it reads the time since the message was
    /// set and returns that reading (whole seconds, nanoseconds); the message
    /// is cleared exactly when the reading exceeds five seconds. Without a
    /// message it reads nothing and returns `None`.
    pub fn clear_status_message_if_expired(&mut self) -> (reading: Option<(u64, u32)>)
        ensures
            final(self).status_message is None || final(self).status_message == old(
                self,
            ).status_message,
            old(self).status_message is None ==> final(self).status_message is None,
            final(self).status_message_time == old(self).status_message_time,
            same_but_message(old(self), final(self)),
            reading is Some <==> old(self).status_message is Some,
            reading matches Some((secs, nanos)) ==> {
                &&& nanos < 1_000_000_000
                &&& (secs > STATUS_MESSAGE_SECONDS || (secs == STATUS_MESSAGE_SECONDS && nanos
                    > 0)) ==> final(self).status_message is None
                &&& !(secs > STATUS_MESSAGE_SECONDS || (secs == STATUS_MESSAGE_SECONDS && nanos
                    > 0)) ==> final(self).status_message == old(self).status_message
            },
    {
        if self.status_message.is_some() {
            let elapsed = instant_elapsed(&self.status_message_time);
            let secs = duration_secs(&elapsed);
            let nanos = duration_subsec_nanos(&elapsed);
            self.expire_status_message(secs, nanos);
            Some((secs, nanos))
        } else {
            None
        }
    }

    /// Handles a key press: moves the selection, toggles network protection,
    /// sets the status message, and says what must follow.
    pub fn handle_key(&mut self, key: Key) -> (action: KeyAction)
        ensures
            final(self).services == old(self).services,
            final(self).system_info == old(self).system_info,
            final(self).last_refresh == old(self).last_refresh,
            (final(self).selected_index as int, final(self).scroll_offset as int) == navigation(
                key,
                old(self).selected_index as int,
                old(self).scroll_offset as int,
                old(self).services@.len() as int,
            ),
            final(self).network_protection_enabled == protection_after(
                key,
                old(self).network_protection_enabled,
            ),
            opt_view(final(self).status_message) == message_after(
                key,
                opt_view(old(self).status_message),
                final(self).network_protection_enabled,
            ),
            action == key_action(key, old(self).services@, old(self).selected_index as int),
            key == Key::Enter && (old(self).selected_index as int) < old(self).services@.len()
                ==> ({
                let selected = old(self).services@[old(self).selected_index as int];
                match action {
                    KeyAction::StopService(n) => n == selected.name && is_running_status(
                        selected.status@,
                    ),
                    KeyAction::StartService(n) => n == selected.name && !is_running_status(
                        selected.status@,
                    ),
                    _ => false,
                }
            }),
            key == Key::Enter && (old(self).selected_index as int) >= old(self).services@.len()
                ==> action is Nothing,
            !sets_message(key) ==> final(self).status_message_time == old(
                self,
            ).status_message_time,
    {
        let len = self.services.len();
        match key {
            Key::Up => {
                if self.selected_index > 0 {
                    self.selected_index = self.selected_index - 1;
                    if self.selected_index < self.scroll_offset {
                        self.scroll_offset = self.selected_index;
                    }
                }
                KeyAction::Nothing
            },
            Key::Down => {
                if len > 0 && self.selected_index < len - 1 {
                    self.selected_index = self.selected_index + 1;
                    let s = self.selected_index;
                    if s >= VISIBLE_ROWS && s - VISIBLE_ROWS >= self.scroll_offset {
                        self.scroll_offset = s - VISIBLE_ROWS + 1;
                    }
                }
                KeyAction::Nothing
            },
            Key::PageUp => {
                self.selected_index = self.selected_index.saturating_sub(10);
                self.scroll_offset = self.scroll_offset.saturating_sub(10);
                KeyAction::Nothing
            },
            Key::PageDown => {
                let last = len.saturating_sub(1);
                let cap = len.saturating_sub(20);
                let sel = self.selected_index;
                self.selected_index = if sel >= last || last - sel <= 10 {
                    last
                } else {
                    sel + 10
                };
                let off = self.scroll_offset;
                self.scroll_offset = if off >= cap || cap - off <= 10 {
                    cap
                } else {
                    off + 10
                };
                KeyAction::Nothing
            },
            Key::Enter => {
                if self.selected_index < len {
                    let service = &self.services[self.selected_index];
                    let name = service.name.clone();
                    if service.is_running() {
                        KeyAction::StopService(name)
                    } else {
                        KeyAction::StartService(name)
                    }
                } else {
                    KeyAction::Nothing
                }
            },
            Key::Esc => {
                self.set_status_message("Exiting...".to_owned());
                KeyAction::Nothing
            },
            Key::Char(c) => {
                if c == 'q' {
                    self.set_status_message("Exiting...".to_owned());
                    KeyAction::Nothing
                } else if c == 'r' {
                    KeyAction::Refresh
                } else if c == 'p' {
                    self.network_protection_enabled = !self.network_protection_enabled;
                    let message = if self.network_protection_enabled {
                        "Network protection enabled".to_owned()
                    } else {
                        "Network protection disabled".to_owned()
                    };
                    self.set_status_message(message);
                    KeyAction::Nothing
                } else {
                    KeyAction::Nothing
                }
            },
            Key::Other => KeyAction::Nothing,
        }
    }

    /// Records the outcome of stopping `service_name`; returns whether the
    /// network protection watch must start (the stop succeeded, protection is
    /// on, and the network was up before the stop).
    pub fn record_stop_outcome(
        &mut self,
        service_name: &str,
        network_before: bool,
        outcome: Result<(), String>,
    ) -> (watch: bool)
        ensures
            watch == (outcome is Ok && old(self).network_protection_enabled && network_before),
            opt_view(final(self).status_message) == Some(stop_message(service_name@, outcome)),
            same_but_message(old(self), final(self)),
    {
        match outcome {
            Ok(_) => {
                self.set_status_message(concat3("Service '", service_name, "' stopped"));
                self.network_protection_enabled && network_before
            },
            Err(e) => {
                self.set_status_message(
                    concat4("Failed to stop '", service_name, "': ", e.as_str()),
                );
                false
            },
        }
    }

    /// Records that the services were listed again at the user's request.
    pub fn record_refresh(&mut self)
        ensures
            opt_view(final(self).status_message) == Some("Services refreshed"@),
            same_but_message(old(self), final(self)),
    {
        self.set_status_message("Services refreshed".to_owned());
    }

    /// Records the outcome of starting `service_name`.
    pub fn record_start_outcome(&mut self, service_name: &str, outcome: Result<(), String>)
        ensures
            opt_view(final(self).status_message) == Some(start_message(service_name@, outcome)),
            same_but_message(old(self), final(self)),
    {
        match outcome {
            Ok(_) => {
                self.set_status_message(concat3("Service '", service_name, "' started"));
            },
            Err(e) => {
                self.set_status_message(
                    concat4("Failed to start '", service_name, "': ", e.as_str()),
                );
            },
        }
    }

    /// Records that the watch restarted `service_name` after the network was lost.
    pub fn record_network_restart(&mut self, service_name: &str)
        ensures
            opt_view(final(self).status_message) == Some(
                "Network lost! Service '"@ + service_name@ + "' restarted automatically"@,
            ),
            same_but_message(old(self), final(self)),
    {
        self.set_status_message(
            concat3("Network lost! Service '", service_name, "' restarted automatically"),
        );
    }

    /// The footer text: the status message, or the counts of all, running and
    /// stopped services.
    pub fn footer_text(&self) -> (s: String)
        ensures
            s@ == footer(self.services@, opt_view(self.status_message)),
    {
        match &self.status_message {
            Some(m) => m.clone(),
            None => {
                let mut out: Vec<char> = Vec::new();
                push_str(&mut out, "Total services: ");
                push_decimal(&mut out, self.services.len() as u64);
                push_str(&mut out, " | Running: ");
                push_decimal(&mut out, count_with_status(&self.services, "Running") as u64);
                push_str(&mut out, " | Stopped: ");
                push_decimal(&mut out, count_with_status(&self.services, "Stopped") as u64);
                string_from_chars(&out)
            },
        }
    }
}

/// Whether the interface must quit: the status message mentions `Exiting`.
pub fn should_quit(state: &AppState) -> (res: bool)
    ensures
        res == quits(opt_view(state.status_message)),
{
    match &state.status_message {
        Some(m) => str_contains(m.as_str(), "Exiting"),
        None => false,
    }
}

/// Successful connectivity probes after which the network protection watch ends.
pub const PROTECTION_PROBES: usize = 5;

/// What the network protection watch does next.
#[derive(Debug)]
pub enum WatchStep {
    /// Wait a second, probe connectivity, pass the result to `record_probe`.
    Probe,
    /// The network was lost: start this service again; the watch is over.
    Restart(String),
    /// The watch is over.
    Finished,
}

/// The watch that follows a stop: it probes the network once a second, and
/// restarts the stopped service as soon as a probe fails, or ends after
/// `PROTECTION_PROBES` good probes.
pub struct NetworkWatch {
    service_name: String,
    probes_done: usize,
    finished: bool,
}

impl NetworkWatch {
    #[verifier::type_invariant]
    spec fn well_formed(self) -> bool {
        &&& self.probes_done <= PROTECTION_PROBES
        &&& self.probes_done == PROTECTION_PROBES ==> self.finished
    }

    /// The service that the watch restarts.
    pub closed spec fn service(self) -> Seq<char> {
        self.service_name@
    }

    /// The good probes so far.
    pub closed spec fn probes(self) -> nat {
        self.probes_done as nat
    }

    /// Whether the watch is over.
    pub closed spec fn is_finished(self) -> bool {
        self.finished
    }

    /// A watch for `service_name` that has not probed yet.
    pub fn new(service_name: String) -> (w: NetworkWatch)
        ensures
            w.service() == service_name@,
            w.probes() == 0,
            !w.is_finished(),
    {
        NetworkWatch { service_name, probes_done: 0, finished: false }
    }

    /// What comes next: a probe while the watch runs.
    pub fn next_step(&self) -> (step: WatchStep)
        ensures
            step is Finished <==> self.is_finished(),
            step is Probe <==> !self.is_finished(),
    {
        if self.finished {
            WatchStep::Finished
        } else {
            WatchStep::Probe
        }
    }

    /// Takes the result of a probe. A failed probe asks for the restart and
    /// ends the watch; a good one counts, and the watch ends after the last.
    pub fn record_probe(&mut self, connected: bool) -> (step: WatchStep)
        ensures
            final(self).service() == old(self).service(),
            old(self).is_finished() ==> *final(self) == *old(self) && step is Finished,
            !old(self).is_finished() && !connected ==> {
                &&& final(self).is_finished()
                &&& final(self).probes() == old(self).probes()
                &&& step matches WatchStep::Restart(name) && name@ == old(self).service()
            },
            !old(self).is_finished() && connected ==> {
                &&& final(self).probes() == old(self).probes() + 1
                &&& final(self).is_finished() == (final(self).probes() == PROTECTION_PROBES)
                &&& (step is Finished <==> final(self).is_finished())
                &&& (step is Probe <==> !final(self).is_finished())
            },
            final(self).probes() <= PROTECTION_PROBES,
    {
        proof {
            use_type_invariant(&*self);
        }
        if self.finished {
            return WatchStep::Finished;
        }
        if !connected {
            self.finished = true;
            return WatchStep::Restart(self.service_name.clone());
        }
        let done = self.probes_done + 1;
        if done == PROTECTION_PROBES {
            self.finished = true;
        }
        self.probes_done = done;
        if done == PROTECTION_PROBES {
            WatchStep::Finished
        } else {
            WatchStep::Probe
        }
    }
}

/// Law: the navigation keys keep the selection on a listed service and inside
/// the visible window of `VISIBLE_ROWS` rows starting at the scroll offset.
pub proof fn law_navigation_keeps_selection_visible(key: Key, sel: int, scroll: int, len: int)
    requires
        0 <= scroll <= sel < len,
        sel < scroll + VISIBLE_ROWS,
    ensures
        ({
            let (s, o) = navigation(key, sel, scroll, len);
            0 <= o <= s < len && s < o + VISIBLE_ROWS
        }),
{
}

/// Law: pressing `p` twice leaves network protection as it was.
pub proof fn law_protection_toggle_twice(enabled: bool)
    ensures
        protection_after(Key::Char('p'), protection_after(Key::Char('p'), enabled)) == enabled,
{
}

/// Law: after `q` or `Esc` the interface quits, whatever the message before.
pub proof fn law_quit_keys_quit(key: Key, before: Option<Seq<char>>, enabled: bool)
    requires
        key == Key::Esc || key == Key::Char('q'),
    ensures
        quits(message_after(key, before, enabled)),
{
    reveal_strlit("Exiting...");
    reveal_strlit("Exiting");
    assert("Exiting..."@.subrange(0, 7) =~= "Exiting"@);
    assert(crate::text::occurs_at("Exiting..."@, "Exiting"@, 0));
}

/// Law: no key other than `q` and `Esc` makes the interface quit when the
/// message before did not.
pub proof fn law_only_quit_keys_quit(key: Key, before: Option<Seq<char>>, enabled: bool)
    requires
        key != Key::Esc,
        key != Key::Char('q'),
        !quits(before),
    ensures
        !quits(message_after(key, before, enabled)),
{
    reveal_strlit("Network protection enabled");
    reveal_strlit("Network protection disabled");
    reveal_strlit("Exiting");
    if key == Key::Char('p') {
        let m = message_after(key, before, enabled).unwrap();
        assert forall|i: int| !crate::text::occurs_at(m, "Exiting"@, i) by {
            if crate::text::occurs_at(m, "Exiting"@, i) {
                assert(m.subrange(i, i + 7)[0] == m[i]);
                assert(m[i] == 'E');
            }
        }
    }
}

/// Law: `Enter` on a listed service asks to stop it when it runs and to start
/// it otherwise, naming it by its service name (the name the service manager
/// opens services by), whatever its display name.
pub proof fn law_enter_acts_on_selected_service(services: Seq<ServiceInfo>, sel: int)
    requires
        0 <= sel < services.len(),
    ensures
        match key_action(Key::Enter, services, sel) {
            KeyAction::StopService(n) => n == services[sel].name && is_running_status(
                services[sel].status@,
            ),
            KeyAction::StartService(n) => n == services[sel].name && !is_running_status(
                services[sel].status@,
            ),
            _ => false,
        },
{
}

/// Law: without a status message the footer starts with the number of all
/// listed services, followed by the separator.
pub proof fn law_footer_counts_all_services(services: Seq<ServiceInfo>)
    ensures
        ({
            let head = "Total services: "@ + decimal(services.len()) + " | "@;
            let f = footer(services, None);
            head.len() <= f.len() && f.subrange(0, head.len() as int) == head
        }),
{
    reveal_strlit(" | Running: ");
    reveal_strlit(" | ");
    let head = "Total services: "@ + decimal(services.len()) + " | "@;
    let f = footer(services, None);
    let lead = "Total services: "@ + decimal(services.len());
    assert(" | Running: "@.subrange(0, 3) =~= " | "@);
    assert(f.subrange(0, head.len() as int) =~= head);
}

/// Law: with a status message the footer is that message.
pub proof fn law_footer_shows_message(services: Seq<ServiceInfo>, m: Seq<char>)
    ensures
        footer(services, Some(m)) == m,
{
}

/// Law: without a status message the footer reports as many running and
/// stopped services as the list holds, counted over the whole list.
pub proof fn law_footer_counts_statuses(services: Seq<ServiceInfo>)
    ensures
        ({
            let f = footer(services, None);
            let total = "Total services: "@ + decimal(services.len());
            let running = " | Running: "@ + decimal(
                services.filter(has_status("Running"@)).len(),
            );
            let stopped = " | Stopped: "@ + decimal(
                services.filter(has_status("Stopped"@)).len(),
            );
            f == total + running + stopped
        }),
{
    crate::service_list::law_count_status_is_filter_len(services, "Running"@);
    crate::service_list::law_count_status_is_filter_len(services, "Stopped"@);
    let run = services.filter(has_status("Running"@)).len();
    let stop = services.filter(has_status("Stopped"@)).len();
    assert(count_status(services, "Running"@) == run);
    assert(count_status(services, "Stopped"@) == stop);
    let f = footer(services, None);
    assert(f =~= ("Total services: "@ + decimal(services.len())) + (" | Running: "@ + decimal(run))
        + (" | Stopped: "@ + decimal(stop)));
}

} // verus!
