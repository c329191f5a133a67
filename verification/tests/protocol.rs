use ectf_2024_lib::auth::check_credential;
use ectf_2024_lib::commands::{attest_cmd, boot_cmd, list_cmd, probe_candidates, replace_cmd};
use ectf_2024_lib::ectf_params::DeviceKind;
use ectf_2024_lib::error::ErrorKind;
use ectf_2024_lib::flash::Registry;
use ectf_2024_lib::host_msg::{expand_newlines, Msg, UartGuard};

fn b(s: &str) -> Vec<u8> {
    s.as_bytes().to_vec()
}

fn ap_device() -> DeviceKind {
    DeviceKind::ApplicationProcessor {
        ap_pin: b("123456"),
        ap_token: b("TOKEN123"),
        boot_msg: b("AP up"),
        comp_ids: vec![0x1001, 0x1002, 0x1003],
    }
}

fn fresh_registry(ids: &[u32]) -> Registry {
    let mut reg = Registry::from_storage(None);
    reg.init(0x4B1D, &ids.to_vec()).unwrap();
    reg
}

fn rendered(out: &[Msg]) -> Vec<String> {
    out.iter().map(|m| String::from_utf8(m.render()).unwrap()).collect()
}

#[test]
fn render_wire_forms() {
    assert_eq!(Msg::Error(b("oops")).render(), b("%error: oops%\n"));
    assert_eq!(Msg::Success(b("List")).render(), b("%success: List%\n"));
    assert_eq!(Msg::Info(b("x")).render(), b("%info: x%\n"));
    assert_eq!(Msg::Debug(b("d")).render(), b("%debug: d%\n"));
    assert_eq!(Msg::Ack.render(), b("%ack%\n"));
}

#[test]
fn expand_newlines_release_and_debug_forms() {
    assert_eq!(expand_newlines(&b("a\nb"), &b("")), b("a\n\rb"));
    assert_eq!(expand_newlines(&b("a\nb\n"), &b("A| ")), b("a\n\rA| b\n\rA| "));
    assert_eq!(expand_newlines(&b("plain"), &b("A| ")), b("plain"));
}

#[test]
fn credential_gate_is_exact_equality() {
    assert_eq!(check_credential(&b("TOKEN123"), &b("TOKEN123")), Ok(()));
    assert_eq!(check_credential(&b("TOKEN12"), &b("TOKEN123")), Err(ErrorKind::AuthMismatch));
    assert_eq!(check_credential(&b("TOKEN124"), &b("TOKEN123")), Err(ErrorKind::AuthMismatch));
    assert_eq!(check_credential(&b(""), &b("TOKEN123")), Err(ErrorKind::AuthMismatch));
}

#[test]
fn probe_candidates_cover_the_usable_range_without_blacklist() {
    let c = probe_candidates();
    assert_eq!(c.first(), Some(&0x8));
    assert_eq!(c.last(), Some(&0x77));
    assert_eq!(c.len(), (0x78 - 0x8) - 3);
    assert!(!c.contains(&0x18));
    assert!(!c.contains(&0x28));
    assert!(!c.contains(&0x36));
    assert!(c.windows(2).all(|w| w[0] < w[1]));
}

#[test]
fn list_reports_ids_then_addresses_then_success() {
    let reg = fresh_registry(&[0x1001, 0x1002, 0x1003]);
    let out = list_cmd(&reg, &vec![0x23, 0x42]);
    assert_eq!(
        rendered(&out),
        vec![
            "%info: P>0x00001001%\n",
            "%info: P>0x00001002%\n",
            "%info: P>0x00001003%\n",
            "%info: F>0x00000023%\n",
            "%info: F>0x00000042%\n",
            "%success: List%\n",
        ]
    );
}

#[test]
fn list_reports_flash_error_before_init() {
    let reg = Registry::from_storage(None);
    let out = list_cmd(&reg, &vec![]);
    assert_eq!(rendered(&out), vec!["%error: Flash Uninitialized%\n"]);
}

#[test]
fn boot_emits_boot_message_then_success() {
    let out = boot_cmd(&ap_device());
    assert_eq!(rendered(&out), vec!["%info: AP>AP up%\n", "%success: Boot%\n"]);
}

#[test]
fn replace_succeeds_with_correct_token() {
    let device = ap_device();
    let mut reg = fresh_registry(&[0x1001, 0x1002, 0x1003]);
    let out = replace_cmd(&device, &mut reg, &b("TOKEN123"), &b("0x2002"), &b("0x1002"));
    assert_eq!(rendered(&out), vec!["%success: Replace%\n"]);
    assert_eq!(reg.get_component_ids().unwrap(), vec![0x1001, 0x2002, 0x1003]);
}

#[test]
fn replace_with_wrong_token_mutates_nothing() {
    // A mismatched token must abort the command before any storage write.
    let device = ap_device();
    let mut reg = fresh_registry(&[0x1001, 0x1002, 0x1003]);
    let before = reg.get_component_ids().unwrap();
    let out = replace_cmd(&device, &mut reg, &b("WRONG"), &b("0x2002"), &b("0x1002"));
    assert_eq!(rendered(&out), vec!["%error: Incorrect Token%\n"]);
    assert_eq!(reg.get_component_ids().unwrap(), before);
}

#[test]
fn replace_unknown_old_id_reports_not_found() {
    let device = ap_device();
    let mut reg = fresh_registry(&[0x1001]);
    let out = replace_cmd(&device, &mut reg, &b("TOKEN123"), &b("0x2002"), &b("0x9999"));
    assert_eq!(rendered(&out), vec!["%error: Component not found%\n"]);
    assert_eq!(reg.get_component_ids().unwrap(), vec![0x1001]);
}

#[test]
fn replace_malformed_id_reports_parse_error() {
    let device = ap_device();
    let mut reg = fresh_registry(&[0x1001]);
    let out = replace_cmd(&device, &mut reg, &b("TOKEN123"), &b("2002"), &b("0x1001"));
    assert_eq!(rendered(&out), vec!["%error: input could not be parsed%\n"]);
    assert_eq!(reg.get_component_ids().unwrap(), vec![0x1001]);
}

#[test]
fn replace_before_init_reports_flash_error() {
    let device = ap_device();
    let mut reg = Registry::from_storage(None);
    let out = replace_cmd(&device, &mut reg, &b("TOKEN123"), &b("0x2002"), &b("0x1002"));
    assert_eq!(rendered(&out), vec!["%error: Flash Uninitialized%\n"]);
}

#[test]
fn attest_succeeds_with_correct_pin() {
    let out = attest_cmd(&ap_device(), &b("123456"), &b("0x2C"));
    assert_eq!(
        rendered(&out),
        vec![
            "%info: C>0x2c%\n",
            "%info: LOC>%\n",
            "%info: DATE>%\n",
            "%info: CUST>%\n",
            "%success: Attest%\n",
        ]
    );
}

#[test]
fn attest_with_wrong_pin_emits_one_error_line() {
    // A mismatched pin must abort the command before any field is reported.
    let out = attest_cmd(&ap_device(), &b("654321"), &b("0x2C"));
    assert_eq!(rendered(&out), vec!["%error: Incorrect Pin%\n"]);
}

#[test]
fn attest_malformed_component_reports_parse_error() {
    let out = attest_cmd(&ap_device(), &b("123456"), &b("component"));
    assert_eq!(rendered(&out), vec!["%error: input could not be parsed%\n"]);
}

#[test]
fn uart_guard_is_single_borrower() {
    let mut guard = UartGuard::new();
    assert!(guard.acquire());
    // A second request while one handle is live fails closed.
    assert!(!guard.acquire());
    guard.release();
    assert!(guard.acquire());
    guard.release();
}
