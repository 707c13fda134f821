use vstd::prelude::*;

use crate::text::{concat3, decimal, decimal_string, str_eq};

verus! {

/// `dwCurrentState` of a stopped service.
pub const SERVICE_STOPPED: u32 = 1;

/// `dwCurrentState` of a service that is starting.
pub const SERVICE_START_PENDING: u32 = 2;

/// `dwCurrentState` of a service that is stopping.
pub const SERVICE_STOP_PENDING: u32 = 3;

/// `dwCurrentState` of a running service.
pub const SERVICE_RUNNING: u32 = 4;

/// Bit of `dwControlsAccepted` telling that the service accepts a stop request.
pub const SERVICE_ACCEPT_STOP: u32 = 1;

/// Last error of an enumeration whose buffer was too small.
pub const ERROR_MORE_DATA: u32 = 234;

/// Last error of a configuration query whose buffer was too small.
pub const ERROR_INSUFFICIENT_BUFFER: u32 = 122;

/// One service as listed by the service control manager.
#[derive(Debug, Clone)]
pub struct ServiceInfo {
    pub name: String,
    pub display_name: String,
    pub status: String,
    pub process_id: Option<u32>,
    pub description: Option<String>,
}

/// The status word shown for a service state.
pub open spec fn status_text(current_state: u32) -> Seq<char> {
    if current_state == SERVICE_RUNNING {
        "Running"@
    } else if current_state == SERVICE_STOPPED {
        "Stopped"@
    } else if current_state == SERVICE_START_PENDING {
        "Starting"@
    } else if current_state == SERVICE_STOP_PENDING {
        "Stopping"@
    } else {
        "Unknown"@
    }
}

/// Whether a status word says that the service runs.
pub open spec fn is_running_status(status: Seq<char>) -> bool {
    status == "Running"@
}

/// The status word for a service state: `Running`, `Stopped`, `Starting`,
/// `Stopping` or `Unknown`.
pub fn status_label(current_state: u32) -> (s: String)
    ensures
        s@ == status_text(current_state),
{
    if current_state == SERVICE_RUNNING {
        "Running".to_owned()
    } else if current_state == SERVICE_STOPPED {
        "Stopped".to_owned()
    } else if current_state == SERVICE_START_PENDING {
        "Starting".to_owned()
    } else if current_state == SERVICE_STOP_PENDING {
        "Stopping".to_owned()
    } else {
        "Unknown".to_owned()
    }
}

/// Whether a service state is the running state.
pub fn is_running_state(current_state: u32) -> (res: bool)
    ensures
        res == (current_state == SERVICE_RUNNING),
{
    current_state == SERVICE_RUNNING
}

impl ServiceInfo {
    /// The entry for one service of an enumeration: its names, the status word
    /// of its state, its process id only while it runs, no description yet.
    pub fn from_status(name: String, display_name: String, current_state: u32, process_id: u32) -> (info: ServiceInfo)
        ensures
            info.name == name,
            info.display_name == display_name,
            info.status@ == status_text(current_state),
            info.process_id == (if current_state == SERVICE_RUNNING {
                Some(process_id)
            } else {
                None
            }),
            info.description is None,
    {
        let status = status_label(current_state);
        let pid = if is_running_state(current_state) {
            Some(process_id)
        } else {
            None
        };
        ServiceInfo { name, display_name, status, process_id: pid, description: None }
    }

    /// Whether the service's status word is `Running`.
    pub fn is_running(&self) -> (res: bool)
        ensures
            res == is_running_status(self.status@),
    {
        str_eq(self.status.as_str(), "Running")
    }

    /// Records the outcome of a description query: a description that was read
    /// replaces the entry's description, a failed query leaves it as it was.
    pub fn attach_description(&mut self, result: Result<String, String>)
        ensures
            final(self).name == old(self).name,
            final(self).display_name == old(self).display_name,
            final(self).status == old(self).status,
            final(self).process_id == old(self).process_id,
            final(self).description == (match result {
                Ok(d) => Some(d),
                Err(_) => old(self).description,
            }),
    {
        if let Ok(d) = result {
            self.description = Some(d);
        }
    }
}

/// What to do after one call that enumerates the services.
#[derive(Debug, Clone, Copy, PartialEq, Eq)]
pub enum EnumerationStep {
    /// The call succeeded: read the entries.
    Done,
    /// The buffer was too small: grow it to the size asked for and call again.
    GrowBuffer,
    /// The call failed: report the error.
    Fail,
}

/// The decision after an enumeration call, from whether it succeeded and the
/// last error.
pub fn enumeration_step(call_succeeded: bool, last_error: u32) -> (step: EnumerationStep)
    ensures
        step == (if call_succeeded {
            EnumerationStep::Done
        } else if last_error == ERROR_MORE_DATA {
            EnumerationStep::GrowBuffer
        } else {
            EnumerationStep::Fail
        }),
{
    if call_succeeded {
        EnumerationStep::Done
    } else if last_error == ERROR_MORE_DATA {
        EnumerationStep::GrowBuffer
    } else {
        EnumerationStep::Fail
    }
}

/// Whether a description query goes on after the call that asks for the
/// buffer size: it does unless that call failed with another error than a
/// too small buffer.
pub fn description_probe_proceeds(call_succeeded: bool, last_error: u32) -> (res: bool)
    ensures
        res == (call_succeeded || last_error == ERROR_INSUFFICIENT_BUFFER),
{
    call_succeeded || last_error == ERROR_INSUFFICIENT_BUFFER
}

/// The description shown for a service: its own text, or
/// `No description available` when that text is empty.
pub fn description_text(raw: String) -> (s: String)
    ensures
        s@ == (if raw@.len() == 0 {
            "No description available"@
        } else {
            raw@
        }),
{
    if raw.as_str().is_empty() {
        "No description available".to_owned()
    } else {
        raw
    }
}

/// What a stop request does, given the service's current state.
#[derive(Debug, Clone, Copy, PartialEq, Eq)]
pub enum StopPlan {
    /// The service is already stopped: nothing to do, success.
    AlreadyStopped,
    /// The service does not accept stop requests: refuse.
    NotStoppable,
    /// Send the stop control.
    SendStop,
}

/// The decision of a stop request, from the service's state and the controls
/// it accepts.
pub fn stop_plan(current_state: u32, controls_accepted: u32) -> (plan: StopPlan)
    ensures
        plan == (if current_state == SERVICE_STOPPED {
            StopPlan::AlreadyStopped
        } else if controls_accepted & SERVICE_ACCEPT_STOP == 0 {
            StopPlan::NotStoppable
        } else {
            StopPlan::SendStop
        }),
{
    if current_state == SERVICE_STOPPED {
        StopPlan::AlreadyStopped
    } else if controls_accepted & SERVICE_ACCEPT_STOP == 0 {
        StopPlan::NotStoppable
    } else {
        StopPlan::SendStop
    }
}

/// The error of a stop request refused by the service.
pub fn not_stoppable_message(name: &str) -> (s: String)
    ensures
        s@ == "Service '"@ + name@ + "' does not accept stop commands"@,
{
    concat3("Service '", name, "' does not accept stop commands")
}

/// Whether the service listing shows a service: with `running_only` only
/// running services, else with `stopped_only` only stopped ones, else all.
pub fn should_show(status: &String, running_only: bool, stopped_only: bool) -> (res: bool)
    ensures
        res == (if running_only {
            status@ == "Running"@
        } else if stopped_only {
            status@ == "Stopped"@
        } else {
            true
        }),
{
    if running_only {
        str_eq(status.as_str(), "Running")
    } else if stopped_only {
        str_eq(status.as_str(), "Stopped")
    } else {
        true
    }
}

/// The process id column of the listing: the id, or `-` without one.
pub fn pid_label(process_id: Option<u32>) -> (s: String)
    ensures
        s@ == (match process_id {
            Some(p) => decimal(p as nat),
            None => "-"@,
        }),
{
    match process_id {
        Some(p) => decimal_string(p as u64),
        None => "-".to_owned(),
    }
}

/// How a status word is coloured on screen.
#[derive(Debug, Clone, Copy, PartialEq, Eq)]
pub enum StatusTone {
    /// `Running` (green).
    Good,
    /// `Stopped` (red).
    Bad,
    /// `Starting` or `Stopping` (yellow).
    Pending,
    /// Anything else (white).
    Plain,
}

/// The colour class of a status word.
pub fn status_tone(status: &String) -> (tone: StatusTone)
    ensures
        tone == (if status@ == "Running"@ {
            StatusTone::Good
        } else if status@ == "Stopped"@ {
            StatusTone::Bad
        } else if status@ == "Starting"@ || status@ == "Stopping"@ {
            StatusTone::Pending
        } else {
            StatusTone::Plain
        }),
{
    if str_eq(status.as_str(), "Running") {
        StatusTone::Good
    } else if str_eq(status.as_str(), "Stopped") {
        StatusTone::Bad
    } else if str_eq(status.as_str(), "Starting") || str_eq(status.as_str(), "Stopping") {
        StatusTone::Pending
    } else {
        StatusTone::Plain
    }
}

impl ServiceInfo {
    /// The description shown in the service list: the service's description,
    /// or `No description` when it has none.
    pub fn description_label(&self) -> (s: String)
        ensures
            s@ == (match self.description {
                Some(d) => d@,
                None => "No description"@,
            }),
    {
        match &self.description {
            Some(d) => d.clone(),
            None => "No description".to_owned(),
        }
    }
}

} // verus!
