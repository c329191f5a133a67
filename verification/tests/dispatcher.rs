use ectf_2024_lib::dispatch::{
    step, DispatchState, Event, HostAction, CMD_BUFFER_LEN, ID_BUFFER_LEN, PIN_BUFFER_LEN,
    TOKEN_BUFFER_LEN,
};
use ectf_2024_lib::ectf_params::{role_from_tag, DeviceKind, Role};
use ectf_2024_lib::error::ErrorKind;
use ectf_2024_lib::flash::Registry;
use ectf_2024_lib::host_msg::Msg;
use ectf_2024_lib::security::SecureChannel;

fn b(s: &str) -> Vec<u8> {
    s.as_bytes().to_vec()
}

fn ap_device() -> DeviceKind {
    DeviceKind::ApplicationProcessor {
        ap_pin: b("123456"),
        ap_token: b("TOKEN123"),
        boot_msg: b("AP up"),
        comp_ids: vec![0x1001, 0x1002, 0x1003],
    }
}

fn fresh_registry(ids: &[u32]) -> Registry {
    let mut reg = Registry::from_storage(None);
    reg.init(0x4B1D, &ids.to_vec()).unwrap();
    reg
}

fn rendered(out: &[Msg]) -> Vec<String> {
    out.iter().map(|m| String::from_utf8(m.render()).unwrap()).collect()
}

fn expect_read_argument(action: &HostAction, len: usize) {
    match action {
        HostAction::ReadArgument { buffer_len } => assert_eq!(*buffer_len, len),
        _ => panic!("expected an argument solicitation"),
    }
}

#[test]
fn end_to_end_list_replace_list() {
    let device = ap_device();
    let mut reg = fresh_registry(&[0x1001, 0x1002, 0x1003]);

    // list: the dispatcher first wants the bus scanned, then reports.
    let (state, out, action) = step(&device, &mut reg, DispatchState::AwaitingCommand, Event::Line(b("list")));
    assert!(out.is_empty());
    assert!(matches!(action, HostAction::Probe));
    assert!(matches!(state, DispatchState::AwaitingProbe));
    let (state, out, action) = step(&device, &mut reg, state, Event::Probed(vec![]));
    assert_eq!(
        rendered(&out),
        vec![
            "%info: P>0x00001001%\n",
            "%info: P>0x00001002%\n",
            "%info: P>0x00001003%\n",
            "%success: List%\n",
        ]
    );
    assert!(matches!(action, HostAction::ReadCommand));
    assert!(matches!(state, DispatchState::AwaitingCommand));

    // replace 0x1002 -> 0x2002, each argument solicited with an ack.
    let (state, out, action) = step(&device, &mut reg, state, Event::Line(b("replace")));
    assert_eq!(rendered(&out), vec!["%ack%\n"]);
    expect_read_argument(&action, TOKEN_BUFFER_LEN);
    let (state, out, action) = step(&device, &mut reg, state, Event::Line(b("TOKEN123")));
    assert_eq!(rendered(&out), vec!["%ack%\n"]);
    expect_read_argument(&action, ID_BUFFER_LEN);
    let (state, out, action) = step(&device, &mut reg, state, Event::Line(b("0x2002")));
    assert_eq!(rendered(&out), vec!["%ack%\n"]);
    expect_read_argument(&action, ID_BUFFER_LEN);
    let (state, out, action) = step(&device, &mut reg, state, Event::Line(b("0x1002")));
    assert_eq!(rendered(&out), vec!["%success: Replace%\n"]);
    assert!(matches!(action, HostAction::ReadCommand));

    // list again: the swap is visible.
    let (state, _, _) = step(&device, &mut reg, state, Event::Line(b("list")));
    let (_, out, _) = step(&device, &mut reg, state, Event::Probed(vec![]));
    assert_eq!(
        rendered(&out),
        vec![
            "%info: P>0x00001001%\n",
            "%info: P>0x00002002%\n",
            "%info: P>0x00001003%\n",
            "%success: List%\n",
        ]
    );
}

#[test]
fn dispatcher_replace_wrong_token_leaves_registry_alone() {
    let device = ap_device();
    let mut reg = fresh_registry(&[0x1001, 0x1002]);
    let before = reg.get_component_ids().unwrap();
    let (state, _, _) = step(&device, &mut reg, DispatchState::AwaitingCommand, Event::Line(b("replace")));
    let (state, _, _) = step(&device, &mut reg, state, Event::Line(b("BADTOKEN")));
    let (state, _, _) = step(&device, &mut reg, state, Event::Line(b("0x2002")));
    let (_, out, _) = step(&device, &mut reg, state, Event::Line(b("0x1002")));
    assert_eq!(rendered(&out), vec!["%error: Incorrect Token%\n"]);
    assert_eq!(reg.get_component_ids().unwrap(), before);
}

#[test]
fn dispatcher_attest_flow_with_wrong_pin() {
    let device = ap_device();
    let mut reg = fresh_registry(&[0x1001]);
    let (state, out, action) = step(&device, &mut reg, DispatchState::AwaitingCommand, Event::Line(b("attest")));
    assert_eq!(rendered(&out), vec!["%ack%\n"]);
    expect_read_argument(&action, PIN_BUFFER_LEN);
    let (state, out, action) = step(&device, &mut reg, state, Event::Line(b("999999")));
    assert_eq!(rendered(&out), vec!["%ack%\n"]);
    expect_read_argument(&action, ID_BUFFER_LEN);
    let (_, out, _) = step(&device, &mut reg, state, Event::Line(b("0x1001")));
    assert_eq!(rendered(&out), vec!["%error: Incorrect Pin%\n"]);
}

#[test]
fn dispatcher_attest_flow_with_correct_pin() {
    let device = ap_device();
    let mut reg = fresh_registry(&[0x1001]);
    let (state, _, _) = step(&device, &mut reg, DispatchState::AwaitingCommand, Event::Line(b("attest")));
    let (state, _, _) = step(&device, &mut reg, state, Event::Line(b("123456")));
    let (_, out, _) = step(&device, &mut reg, state, Event::Line(b("0x1001")));
    assert_eq!(
        rendered(&out),
        vec![
            "%info: C>0x1001%\n",
            "%info: LOC>%\n",
            "%info: DATE>%\n",
            "%info: CUST>%\n",
            "%success: Attest%\n",
        ]
    );
}

#[test]
fn dispatcher_boot_is_terminal() {
    let device = ap_device();
    let mut reg = fresh_registry(&[0x1001]);
    let (state, out, action) = step(&device, &mut reg, DispatchState::AwaitingCommand, Event::Line(b("boot")));
    assert_eq!(rendered(&out), vec!["%info: AP>AP up%\n", "%success: Boot%\n"]);
    assert!(matches!(action, HostAction::Boot));
    assert!(matches!(state, DispatchState::Booting));
    // Once booting, the machine never leaves that state.
    let (state, out, action) = step(&device, &mut reg, state, Event::Line(b("list")));
    assert!(out.is_empty());
    assert!(matches!(action, HostAction::Boot));
    assert!(matches!(state, DispatchState::Booting));
}

#[test]
fn dispatcher_echoes_unrecognized_commands() {
    let device = ap_device();
    let mut reg = fresh_registry(&[0x1001]);
    let (state, out, action) = step(&device, &mut reg, DispatchState::AwaitingCommand, Event::Line(b("frobnicate")));
    assert_eq!(rendered(&out), vec!["%error: Unrecognized command 'frobnicate'%\n"]);
    assert!(matches!(action, HostAction::ReadCommand));
    assert!(matches!(state, DispatchState::AwaitingCommand));
    // Near-misses are not prefix-matched.
    let (_, out, _) = step(&device, &mut reg, DispatchState::AwaitingCommand, Event::Line(b("listing")));
    assert_eq!(rendered(&out), vec!["%error: Unrecognized command 'listing'%\n"]);
}

#[test]
fn dispatcher_reasks_on_mismatched_events() {
    let device = ap_device();
    let mut reg = fresh_registry(&[0x1001]);
    // A probe result while awaiting a command is dropped.
    let (state, out, action) = step(&device, &mut reg, DispatchState::AwaitingCommand, Event::Probed(vec![0x23]));
    assert!(out.is_empty());
    assert!(matches!(action, HostAction::ReadCommand));
    assert!(matches!(state, DispatchState::AwaitingCommand));
    // A line while awaiting a probe re-requests the probe.
    let (state, _, _) = step(&device, &mut reg, state, Event::Line(b("list")));
    let (state, out, action) = step(&device, &mut reg, state, Event::Line(b("noise")));
    assert!(out.is_empty());
    assert!(matches!(action, HostAction::Probe));
    assert!(matches!(state, DispatchState::AwaitingProbe));
}

#[test]
fn dispatcher_list_before_init_skips_the_probe() {
    let device = ap_device();
    let mut reg = Registry::from_storage(None);
    let (state, out, action) = step(&device, &mut reg, DispatchState::AwaitingCommand, Event::Line(b("list")));
    assert_eq!(rendered(&out), vec!["%error: Flash Uninitialized%\n"]);
    assert!(matches!(action, HostAction::ReadCommand));
    assert!(matches!(state, DispatchState::AwaitingCommand));
}

#[test]
fn command_buffer_length_fits_longest_word() {
    assert_eq!(CMD_BUFFER_LEN, "replace".len());
}

#[test]
fn role_tags_classify_exactly() {
    assert!(matches!(role_from_tag(0), Some(Role::Component)));
    assert!(matches!(role_from_tag(1), Some(Role::ApplicationProcessor)));
    assert!(role_from_tag(2).is_none());
    assert!(role_from_tag(-1).is_none());
}

#[test]
fn secure_channel_fails_clearly() {
    let mut chan = SecureChannel::new(0x23);
    assert_eq!(chan.secure_send(&b("hello")), Err(ErrorKind::CommunicationFailure));
    assert_eq!(chan.secure_receive().unwrap_err(), ErrorKind::CommunicationFailure);
}

#[test]
fn error_kinds_describe_themselves() {
    assert_eq!(ErrorKind::Uninitialized.describe(), b("Uninitialized"));
    assert_eq!(ErrorKind::StorageFault.describe(), b("StorageFault"));
    assert_eq!(ErrorKind::NotFound.describe(), b("NotFound"));
    assert_eq!(ErrorKind::Overflow.describe(), b("Overflow"));
    assert_eq!(ErrorKind::ParseFailure.describe(), b("ParseFailure"));
    assert_eq!(ErrorKind::AuthMismatch.describe(), b("AuthMismatch"));
    assert_eq!(ErrorKind::CommunicationFailure.describe(), b("CommunicationFailure"));
}
