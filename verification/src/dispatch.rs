//! The command dispatcher as a state machine. Each call to `step` consumes
//! one event — a line read from the host, or the result of a bus scan — and
//! yields the next state, the response lines owed so far, and the one action
//! the surrounding loop must perform next. The loop itself (blocking reads,
//! bus transactions, the boot hand-off) lives outside the core; every
//! decision lives here.

use vstd::prelude::*;
use vstd::string::StringSliceAdditionalSpecFns;
use crate::commands::{
    attest_cmd, boot_cmd, flash_error_msgs, list_cmd, replace_cmd, single, spec_attest_output,
    spec_boot_output, spec_flash_error_line, spec_list_output, spec_replace_effect,
    spec_replace_output,
};
use crate::ectf_params::DeviceKind;
use crate::error::ErrorKind;
use crate::flash::Registry;
use crate::host_msg::{append_bytes, bytes_eq, views_of, Msg, MsgView};

verus! {

/// Buffer length for reading a command word.
pub const CMD_BUFFER_LEN: usize = 7;

/// Buffer length for reading the replace token.
pub const TOKEN_BUFFER_LEN: usize = 16;

/// Buffer length for reading a hex-spelled id.
pub const ID_BUFFER_LEN: usize = 16;

/// Buffer length for reading the attest pin.
pub const PIN_BUFFER_LEN: usize = 6;

/// Where the dispatcher stands between events.
pub enum DispatchState {
    /// Between commands: the next line read is a command word.
    AwaitingCommand,
    /// A `list` was accepted: waiting for the bus scan results.
    AwaitingProbe,
    /// A `replace` was accepted: the solicited arguments received so far, in
    /// order token, new id, old id.
    CollectingReplace { args: Vec<Vec<u8>> },
    /// An `attest` was accepted: the solicited arguments received so far, in
    /// order pin, component id.
    CollectingAttest { args: Vec<Vec<u8>> },
    /// A `boot` was accepted: control is leaving the dispatcher for good.
    Booting,
}

impl DispatchState {
    /// A collecting state never holds a full argument set: the arrival of
    /// the last argument runs the command at once.
    pub open spec fn wf(self) -> bool {
        match self {
            DispatchState::CollectingReplace { args } => args@.len() < 3,
            DispatchState::CollectingAttest { args } => args@.len() < 2,
            _ => true,
        }
    }
}

/// One event handed to the dispatcher.
pub enum Event {
    /// A line (command word or solicited argument) read from the host.
    Line(Vec<u8>),
    /// The bus addresses that answered a scan.
    Probed(Vec<u8>),
}

/// The one thing the surrounding loop must do before the next event.
pub enum HostAction {
    /// Read the next command word into a `CMD_BUFFER_LEN` buffer.
    ReadCommand,
    /// Solicit and read one argument into a buffer of the given length.
    ReadArgument { buffer_len: usize },
    /// Scan the bus (the probe candidates) and report who answered.
    Probe,
    /// Transfer control to the external boot routine; no further event.
    Boot,
}

/// The buffer owed for the replace argument at the given position.
pub open spec fn spec_replace_buffer(pos: nat) -> usize {
    if pos == 0 {
        TOKEN_BUFFER_LEN
    } else {
        ID_BUFFER_LEN
    }
}

/// The buffer owed for the attest argument at the given position.
pub open spec fn spec_attest_buffer(pos: nat) -> usize {
    if pos == 0 {
        PIN_BUFFER_LEN
    } else {
        ID_BUFFER_LEN
    }
}

/// The error line echoing an unrecognized command word.
pub open spec fn spec_unrecognized_line(w: Seq<u8>) -> Seq<MsgView> {
    seq![MsgView::Error("Unrecognized command '".spec_bytes() + w + "'".spec_bytes())]
}

/// The whole transition relation of the dispatcher: given the device, the
/// registry before and after, the state and the event, it says exactly which
/// state comes next, which lines go out, and which action the loop owes.
pub open spec fn spec_step(
    device: DeviceKind,
    reg_old: Registry,
    reg_new: Registry,
    state: DispatchState,
    event: Event,
    next: DispatchState,
    out: Seq<MsgView>,
    action: HostAction,
) -> bool {
    match state {
        DispatchState::AwaitingCommand => match event {
            Event::Line(w) => if w@ == "list".spec_bytes() {
                &&& reg_new == reg_old
                &&& if reg_old.is_initialized() {
                    &&& next is AwaitingProbe
                    &&& out == Seq::<MsgView>::empty()
                    &&& action == HostAction::Probe
                } else {
                    // The registry error is owed at once; the bus is not
                    // scanned for a report that cannot be made.
                    &&& next is AwaitingCommand
                    &&& out == spec_flash_error_line(ErrorKind::Uninitialized)
                    &&& action == HostAction::ReadCommand
                }
            } else if w@ == "boot".spec_bytes() {
                &&& next is Booting
                &&& out == spec_boot_output(device.spec_boot_msg())
                &&& action == HostAction::Boot
                &&& reg_new == reg_old
            } else if w@ == "replace".spec_bytes() {
                &&& next matches DispatchState::CollectingReplace { args } && args@.len() == 0
                &&& out == seq![MsgView::Ack]
                &&& action == (HostAction::ReadArgument { buffer_len: spec_replace_buffer(0) })
                &&& reg_new == reg_old
            } else if w@ == "attest".spec_bytes() {
                &&& next matches DispatchState::CollectingAttest { args } && args@.len() == 0
                &&& out == seq![MsgView::Ack]
                &&& action == (HostAction::ReadArgument { buffer_len: spec_attest_buffer(0) })
                &&& reg_new == reg_old
            } else {
                &&& next is AwaitingCommand
                &&& out == spec_unrecognized_line(w@)
                &&& action == HostAction::ReadCommand
                &&& reg_new == reg_old
            },
            Event::Probed(_) => {
                &&& next is AwaitingCommand
                &&& out == Seq::<MsgView>::empty()
                &&& action == HostAction::ReadCommand
                &&& reg_new == reg_old
            },
        },
        DispatchState::AwaitingProbe => match event {
            Event::Line(_) => {
                &&& next is AwaitingProbe
                &&& out == Seq::<MsgView>::empty()
                &&& action == HostAction::Probe
                &&& reg_new == reg_old
            },
            Event::Probed(found) => {
                &&& next is AwaitingCommand
                &&& action == HostAction::ReadCommand
                &&& reg_new == reg_old
                &&& reg_old.is_initialized() ==> out == spec_list_output(reg_old.live(), found@)
                &&& !reg_old.is_initialized() ==> out == spec_flash_error_line(
                    ErrorKind::Uninitialized,
                )
            },
        },
        DispatchState::CollectingReplace { args } => match event {
            Event::Line(a) => if args@.len() < 2 {
                &&& next matches DispatchState::CollectingReplace { args: args2 } && args2@
                    == args@.push(a)
                &&& out == seq![MsgView::Ack]
                &&& action == (HostAction::ReadArgument {
                    buffer_len: spec_replace_buffer(args@.len() + 1),
                })
                &&& reg_new == reg_old
            } else {
                &&& next is AwaitingCommand
                &&& action == HostAction::ReadCommand
                &&& out == spec_replace_output(
                    device.spec_ap_token(),
                    reg_old,
                    args@[0]@,
                    args@[1]@,
                    a@,
                )
                &&& spec_replace_effect(
                    reg_old,
                    reg_new,
                    device.spec_ap_token(),
                    args@[0]@,
                    args@[1]@,
                    a@,
                )
            },
            Event::Probed(_) => {
                &&& next == state
                &&& out == Seq::<MsgView>::empty()
                &&& action == (HostAction::ReadArgument {
                    buffer_len: spec_replace_buffer(args@.len()),
                })
                &&& reg_new == reg_old
            },
        },
        DispatchState::CollectingAttest { args } => match event {
            Event::Line(a) => if args@.len() < 1 {
                &&& next matches DispatchState::CollectingAttest { args: args2 } && args2@
                    == args@.push(a)
                &&& out == seq![MsgView::Ack]
                &&& action == (HostAction::ReadArgument {
                    buffer_len: spec_attest_buffer(args@.len() + 1),
                })
                &&& reg_new == reg_old
            } else {
                &&& next is AwaitingCommand
                &&& action == HostAction::ReadCommand
                &&& out == spec_attest_output(device.spec_ap_pin(), args@[0]@, a@)
                &&& reg_new == reg_old
            },
            Event::Probed(_) => {
                &&& next == state
                &&& out == Seq::<MsgView>::empty()
                &&& action == (HostAction::ReadArgument {
                    buffer_len: spec_attest_buffer(args@.len()),
                })
                &&& reg_new == reg_old
            },
        },
        DispatchState::Booting => {
            &&& next is Booting
            &&& out == Seq::<MsgView>::empty()
            &&& action == HostAction::Boot
            &&& reg_new == reg_old
        },
    }
}

/// One transition of the application processor's dispatcher.
pub fn step(
    device: &DeviceKind,
    registry: &mut Registry,
    state: DispatchState,
    event: Event,
) -> (res: (DispatchState, Vec<Msg>, HostAction))
    requires
        device.is_ap(),
        old(registry).wf(),
        state.wf(),
    ensures
        final(registry).wf(),
        res.0.wf(),
        spec_step(
            *device,
            *old(registry),
            *final(registry),
            state,
            event,
            res.0,
            views_of(res.1@),
            res.2,
        ),
{
    proof {
        assert(views_of(Seq::<Msg>::empty()) =~= Seq::<MsgView>::empty());
    }
    match (state, event) {
        (DispatchState::AwaitingCommand, Event::Line(w)) => {
            let word_list = ("list").as_bytes_vec();
            let word_boot = ("boot").as_bytes_vec();
            let word_replace = ("replace").as_bytes_vec();
            let word_attest = ("attest").as_bytes_vec();
            if bytes_eq(&w, &word_list) {
                if registry.initialized {
                    (DispatchState::AwaitingProbe, Vec::new(), HostAction::Probe)
                } else {
                    let out = flash_error_msgs(&ErrorKind::Uninitialized);
                    (DispatchState::AwaitingCommand, out, HostAction::ReadCommand)
                }
            } else if bytes_eq(&w, &word_boot) {
                (DispatchState::Booting, boot_cmd(device), HostAction::Boot)
            } else if bytes_eq(&w, &word_replace) {
                let r = single(Msg::Ack);
                proof {
                    assert(views_of(r@) =~= seq![MsgView::Ack]);
                }
                (
                    DispatchState::CollectingReplace { args: Vec::new() },
                    r,
                    HostAction::ReadArgument { buffer_len: TOKEN_BUFFER_LEN },
                )
            } else if bytes_eq(&w, &word_attest) {
                let r = single(Msg::Ack);
                proof {
                    assert(views_of(r@) =~= seq![MsgView::Ack]);
                }
                (
                    DispatchState::CollectingAttest { args: Vec::new() },
                    r,
                    HostAction::ReadArgument { buffer_len: PIN_BUFFER_LEN },
                )
            } else {
                let mut body = ("Unrecognized command '").as_bytes_vec();
                append_bytes(&mut body, &w);
                let tick = ("'").as_bytes_vec();
                append_bytes(&mut body, &tick);
                let r = single(Msg::Error(body));
                proof {
                    assert(views_of(r@) =~= spec_unrecognized_line(w@));
                }
                (DispatchState::AwaitingCommand, r, HostAction::ReadCommand)
            }
        },
        (DispatchState::AwaitingCommand, Event::Probed(_)) => {
            (DispatchState::AwaitingCommand, Vec::new(), HostAction::ReadCommand)
        },
        (DispatchState::AwaitingProbe, Event::Line(_)) => {
            (DispatchState::AwaitingProbe, Vec::new(), HostAction::Probe)
        },
        (DispatchState::AwaitingProbe, Event::Probed(found)) => {
            let out = list_cmd(registry, &found);
            (DispatchState::AwaitingCommand, out, HostAction::ReadCommand)
        },
        (DispatchState::CollectingReplace { mut args }, Event::Line(a)) => {
            if args.len() < 2 {
                args.push(a);
                let r = single(Msg::Ack);
                proof {
                    assert(views_of(r@) =~= seq![MsgView::Ack]);
                }
                (
                    DispatchState::CollectingReplace { args },
                    r,
                    HostAction::ReadArgument { buffer_len: ID_BUFFER_LEN },
                )
            } else {
                let out = replace_cmd(device, registry, &args[0], &args[1], &a);
                (DispatchState::AwaitingCommand, out, HostAction::ReadCommand)
            }
        },
        (DispatchState::CollectingReplace { args }, Event::Probed(_)) => {
            let buffer_len = if args.len() == 0 {
                TOKEN_BUFFER_LEN
            } else {
                ID_BUFFER_LEN
            };
            (
                DispatchState::CollectingReplace { args },
                Vec::new(),
                HostAction::ReadArgument { buffer_len },
            )
        },
        (DispatchState::CollectingAttest { mut args }, Event::Line(a)) => {
            if args.len() < 1 {
                args.push(a);
                let r = single(Msg::Ack);
                proof {
                    assert(views_of(r@) =~= seq![MsgView::Ack]);
                }
                (
                    DispatchState::CollectingAttest { args },
                    r,
                    HostAction::ReadArgument { buffer_len: ID_BUFFER_LEN },
                )
            } else {
                let out = attest_cmd(device, &args[0], &a);
                (DispatchState::AwaitingCommand, out, HostAction::ReadCommand)
            }
        },
        (DispatchState::CollectingAttest { args }, Event::Probed(_)) => {
            let buffer_len = if args.len() == 0 {
                PIN_BUFFER_LEN
            } else {
                ID_BUFFER_LEN
            };
            (
                DispatchState::CollectingAttest { args },
                Vec::new(),
                HostAction::ReadArgument { buffer_len },
            )
        },
        (DispatchState::Booting, _) => {
            (DispatchState::Booting, Vec::new(), HostAction::Boot)
        },
    }
}

} // verus!
