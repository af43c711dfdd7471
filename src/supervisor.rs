//! Decisions of the playback-device supervisor. The device itself is driven
//! from outside: each supervisory tick the caller reports the device status,
//! reopens the device when told to, and applies the returned command.
use vstd::prelude::*;

verus! {

/// Status a playback device reports.
#[derive(Clone, Copy, Debug, PartialEq, Eq, Structural)]
pub enum DeviceStatus {
    Stopped,
    Playing,
    Paused,
}

/// What to do to a device that is open.
#[derive(Clone, Copy, Debug, PartialEq, Eq, Structural)]
pub enum DeviceCommand {
    Keep,
    Resume,
    Pause,
}

/// Status after a command is applied; a stopped device ignores commands.
pub open spec fn apply_command(s: DeviceStatus, c: DeviceCommand) -> DeviceStatus {
    match c {
        DeviceCommand::Resume => if s == DeviceStatus::Paused {
            DeviceStatus::Playing
        } else {
            s
        },
        DeviceCommand::Pause => if s == DeviceStatus::Playing {
            DeviceStatus::Paused
        } else {
            s
        },
        DeviceCommand::Keep => s,
    }
}

/// Command of a tick, given the device status after any reopen and whether
/// every queue is empty.
pub open spec fn tick_command_of(s: DeviceStatus, registry_empty: bool) -> DeviceCommand {
    if s == DeviceStatus::Paused && !registry_empty {
        DeviceCommand::Resume
    } else if s == DeviceStatus::Playing && registry_empty {
        DeviceCommand::Pause
    } else {
        DeviceCommand::Keep
    }
}

/// Reopen attempts one tick makes on a device found in status `s`.
pub open spec fn tick_reopens(s: DeviceStatus) -> nat {
    if s == DeviceStatus::Stopped {
        1
    } else {
        0
    }
}

/// Device status at the end of a tick that found it in `observed`:
/// `reopened` is the status a reopen left it in, or `None` when the tick
/// made no reopen; the tick's command is then applied.
pub open spec fn tick_after(
    observed: DeviceStatus,
    reopened: Option<DeviceStatus>,
    registry_empty: bool,
) -> DeviceStatus {
    let s = match reopened {
        Some(r) => r,
        None => observed,
    };
    apply_command(s, tick_command_of(s, registry_empty))
}

/// Status after commands are applied in turn, as packets between two ticks
/// apply theirs.
pub open spec fn apply_all(s: DeviceStatus, cmds: Seq<DeviceCommand>) -> DeviceStatus
    decreases cmds.len(),
{
    if cmds.len() == 0 {
        s
    } else {
        apply_all(apply_command(s, cmds[0]), cmds.drop_first())
    }
}

/// Whether a tick that finds the device in `status` reopens it first;
/// a failed reopen is retried on the next tick.
pub fn needs_reopen(status: DeviceStatus) -> (r: bool)
    ensures
        r == (tick_reopens(status) == 1),
{
    status == DeviceStatus::Stopped
}

/// Pause/resume decision of a tick: resume a paused device while audio is
/// queued, pause a playing one once every queue is empty.
pub fn tick_command(status: DeviceStatus, registry_empty: bool) -> (r: DeviceCommand)
    ensures
        r == tick_command_of(status, registry_empty),
{
    if status == DeviceStatus::Paused && !registry_empty {
        DeviceCommand::Resume
    } else if status == DeviceStatus::Playing && registry_empty {
        DeviceCommand::Pause
    } else {
        DeviceCommand::Keep
    }
}

/// Decision right after a packet was queued: a paused device resumes at
/// once instead of waiting for the next tick.
pub fn packet_command(status: DeviceStatus) -> (r: DeviceCommand)
    ensures
        r == (if status == DeviceStatus::Paused {
            DeviceCommand::Resume
        } else {
            DeviceCommand::Keep
        }),
{
    if status == DeviceStatus::Paused {
        DeviceCommand::Resume
    } else {
        DeviceCommand::Keep
    }
}

/// No sequence of commands moves a stopped device.
pub proof fn lemma_stopped_ignores_commands(cmds: Seq<DeviceCommand>)
    ensures
        apply_all(DeviceStatus::Stopped, cmds) == DeviceStatus::Stopped,
    decreases cmds.len(),
{
    if cmds.len() > 0 {
        lemma_stopped_ignores_commands(cmds.drop_first());
    }
}

/// A device found stopped at one tick and playing at the next, with only
/// commands applied in between, was reopened by the first tick; a tick
/// makes `tick_reopens(observed)` reopen attempts, which is exactly one on
/// a stopped device.
pub proof fn lemma_restart_needs_one_reopen(
    reopened: Option<DeviceStatus>,
    registry_empty: bool,
    between: Seq<DeviceCommand>,
)
    requires
        apply_all(tick_after(DeviceStatus::Stopped, reopened, registry_empty), between)
            == DeviceStatus::Playing,
    ensures
        reopened is Some,
        tick_reopens(DeviceStatus::Stopped) == 1,
{
    if reopened is None {
        assert(tick_after(DeviceStatus::Stopped, reopened, registry_empty)
            == DeviceStatus::Stopped);
        lemma_stopped_ignores_commands(between);
    }
}

/// A paused device with audio queued plays again by the end of the next
/// tick (which makes no reopen), and at once when a packet is queued before
/// that tick.
pub proof fn lemma_paused_resumes()
    ensures
        tick_reopens(DeviceStatus::Paused) == 0,
        tick_after(DeviceStatus::Paused, None, false) == DeviceStatus::Playing,
        apply_command(DeviceStatus::Paused, DeviceCommand::Resume) == DeviceStatus::Playing,
{
}

/// A device that plays while every queue is empty is paused by the next
/// tick, and a packet queued after that resumes it without waiting for a
/// tick.
pub proof fn lemma_pause_on_silence_then_resume()
    ensures
        tick_after(DeviceStatus::Playing, None, true) == DeviceStatus::Paused,
        apply_command(tick_after(DeviceStatus::Playing, None, true), DeviceCommand::Resume)
            == DeviceStatus::Playing,
{
}

} // verus!
