//! The four host commands of the application processor: `list`, `boot`,
//! `replace` and `attest`. Each handler turns already-read argument bytes
//! into the exact sequence of response lines the protocol owes, and — for
//! `replace` — into the one permitted registry mutation. Reading arguments,
//! probing the bus and emitting the lines stay with the caller.

use vstd::prelude::*;
use vstd::string::StringSliceAdditionalSpecFns;
use crate::auth::check_credential;
use crate::ectf_params::DeviceKind;
use crate::error::{spec_describe, ErrorKind};
use crate::flash::{spec_swap, Registry};
use crate::hex::{
    hex_u32_value, is_hex_u32, parse_hex_u32, spec_hex8, spec_hex_min, to_hex8, to_hex_min,
};
use crate::host_msg::{append_bytes, views_of, Msg, MsgView};

verus! {

/// True of the addresses the bus directory probes: the usable bus range,
/// with the addresses reserved by other on-board peripherals skipped.
pub open spec fn is_probe_candidate(a: u8) -> bool {
    0x8 <= a < 0x78 && a != 0x18 && a != 0x28 && a != 0x36
}

/// The addresses the bus directory offers to probe, each exactly once, in
/// increasing order. Whether an address answers is the transport's business;
/// which addresses are asked is decided here.
pub fn probe_candidates() -> (r: Vec<u8>)
    ensures
        forall|i: int| 0 <= i < r@.len() ==> is_probe_candidate(#[trigger] r@[i]),
        forall|i: int, j: int| 0 <= i < j < r@.len() ==> r@[i] < r@[j],
        forall|b: u8| is_probe_candidate(b) ==> r@.contains(b),
{
    let mut r: Vec<u8> = Vec::new();
    let mut a: u8 = 0x8;
    while a < 0x78
        invariant
            0x8 <= a <= 0x78,
            forall|i: int| 0 <= i < r@.len() ==> is_probe_candidate(#[trigger] r@[i]) && r@[i] < a,
            forall|i: int, j: int| 0 <= i < j < r@.len() ==> r@[i] < r@[j],
            forall|b: u8| b < a && is_probe_candidate(b) ==> r@.contains(b),
        decreases 0x78 - a,
    {
        if !(a == 0x18 || a == 0x28 || a == 0x36) {
            let ghost prev: Seq<u8> = r@;
            r.push(a);
            proof {
                assert forall|b: u8| b < a + 1 && is_probe_candidate(b) implies r@.contains(
                    b,
                ) by {
                    if b < a {
                        let i = choose|i: int| 0 <= i < prev.len() && prev[i] == b;
                        assert(r@[i] == b);
                    } else {
                        assert(r@[r@.len() - 1] == b);
                    }
                }
            }
        }
        a = a + 1;
    }
    r
}

/// The body of the info line reporting one authorized id.
pub open spec fn spec_p_line(id: u32) -> Seq<u8> {
    "P>0x".spec_bytes() + spec_hex8(id)
}

/// The body of the info line reporting one discovered bus address.
pub open spec fn spec_f_line(addr: u8) -> Seq<u8> {
    "F>0x".spec_bytes() + spec_hex8(addr as u32)
}

/// The authorized-id report lines, one per live registry entry, in order.
pub open spec fn spec_p_lines(ids: Seq<u32>) -> Seq<MsgView> {
    ids.map_values(|id: u32| MsgView::Info(spec_p_line(id)))
}

/// The discovery report lines, one per answering address, in order.
pub open spec fn spec_f_lines(found: Seq<u8>) -> Seq<MsgView> {
    found.map_values(|a: u8| MsgView::Info(spec_f_line(a)))
}

/// The whole `list` answer: authorized ids, then discovered addresses, then
/// the success line.
pub open spec fn spec_list_output(ids: Seq<u32>, found: Seq<u8>) -> Seq<MsgView> {
    spec_p_lines(ids) + spec_f_lines(found) + seq![MsgView::Success("List".spec_bytes())]
}

/// The single error line reporting a registry failure.
pub open spec fn spec_flash_error_line(e: ErrorKind) -> Seq<MsgView> {
    seq![MsgView::Error("Flash ".spec_bytes() + spec_describe(e))]
}

/// Builds the one-line answer carrying a registry failure.
pub(crate) fn flash_error_msgs(e: &ErrorKind) -> (r: Vec<Msg>)
    ensures
        views_of(r@) == spec_flash_error_line(*e),
{
    let mut body = ("Flash ").as_bytes_vec();
    let d = e.describe();
    append_bytes(&mut body, &d);
    let mut r: Vec<Msg> = Vec::new();
    r.push(Msg::Error(body));
    proof {
        assert(views_of(r@) =~= spec_flash_error_line(*e));
    }
    r
}

/// The `list` command: reports every authorized id (`P>`-tagged), then every
/// discovered bus address (`F>`-tagged), then the success line. A registry
/// failure is reported as a single error line instead; the command always
/// terminates either way.
pub fn list_cmd(registry: &Registry, found: &Vec<u8>) -> (r: Vec<Msg>)
    requires
        registry.wf(),
    ensures
        registry.is_initialized() ==> views_of(r@) == spec_list_output(registry.live(), found@),
        !registry.is_initialized() ==> views_of(r@) == spec_flash_error_line(
            ErrorKind::Uninitialized,
        ),
{
    let ids = match registry.get_component_ids() {
        Ok(ids) => ids,
        Err(e) => {
            return flash_error_msgs(&e);
        },
    };
    let mut out: Vec<Msg> = Vec::new();
    let mut k: usize = 0;
    while k < ids.len()
        invariant
            0 <= k <= ids@.len(),
            out@.len() == k,
            views_of(out@) == spec_p_lines(ids@.subrange(0, k as int)),
        decreases ids@.len() - k,
    {
        let mut body = ("P>0x").as_bytes_vec();
        let h = to_hex8(ids[k]);
        append_bytes(&mut body, &h);
        let ghost b: Seq<u8> = body@;
        let ghost prev: Seq<Msg> = out@;
        out.push(Msg::Info(body));
        proof {
            assert(b == spec_p_line(ids@[k as int]));
            assert(out@[k as int]@ == MsgView::Info(b));
            assert forall|i: int| 0 <= i < k + 1 implies views_of(out@)[i] == spec_p_lines(
                ids@.subrange(0, k + 1),
            )[i] by {
                if i < k {
                    assert(views_of(out@)[i] == views_of(prev)[i]);
                }
            }
            assert(views_of(out@) =~= spec_p_lines(ids@.subrange(0, k + 1)));
        }
        k = k + 1;
    }
    proof {
        assert(ids@.subrange(0, ids@.len() as int) =~= ids@);
    }
    let mut k: usize = 0;
    while k < found.len()
        invariant
            0 <= k <= found@.len(),
            out@.len() == ids@.len() + k,
            views_of(out@) == spec_p_lines(ids@) + spec_f_lines(found@.subrange(0, k as int)),
        decreases found@.len() - k,
    {
        let mut body = ("F>0x").as_bytes_vec();
        let h = to_hex8(found[k] as u32);
        append_bytes(&mut body, &h);
        let ghost b: Seq<u8> = body@;
        let ghost prev: Seq<Msg> = out@;
        out.push(Msg::Info(body));
        proof {
            assert(b == spec_f_line(found@[k as int]));
            assert(out@[prev.len() as int]@ == MsgView::Info(b));
            let target = spec_p_lines(ids@) + spec_f_lines(found@.subrange(0, k + 1));
            assert forall|i: int| 0 <= i < out@.len() implies views_of(out@)[i] == target[i] by {
                if i < prev.len() {
                    assert(views_of(out@)[i] == views_of(prev)[i]);
                }
            }
            assert(views_of(out@) =~= target);
        }
        k = k + 1;
    }
    out.push(Msg::Success(("List").as_bytes_vec()));
    proof {
        assert(found@.subrange(0, found@.len() as int) =~= found@);
        assert(views_of(out@) =~= spec_list_output(ids@, found@));
    }
    out
}

/// The `boot` answer: the provisioned boot message, then the success line.
pub open spec fn spec_boot_output(boot_msg: Seq<u8>) -> Seq<MsgView> {
    seq![MsgView::Info("AP>".spec_bytes() + boot_msg), MsgView::Success("Boot".spec_bytes())]
}

/// The `boot` command: emits the provisioned boot message and the success
/// line. After these lines the caller irrevocably hands control to the
/// external boot routine; the command is wired only into the application
/// processor's dispatcher and is never reachable from a component image.
pub fn boot_cmd(device: &DeviceKind) -> (r: Vec<Msg>)
    requires
        device.is_ap(),
    ensures
        views_of(r@) == spec_boot_output(device.spec_boot_msg()),
{
    match device {
        DeviceKind::ApplicationProcessor { boot_msg, .. } => {
            let mut body = ("AP>").as_bytes_vec();
            append_bytes(&mut body, boot_msg);
            let mut out: Vec<Msg> = Vec::new();
            out.push(Msg::Info(body));
            out.push(Msg::Success(("Boot").as_bytes_vec()));
            proof {
                assert(views_of(out@) =~= spec_boot_output(device.spec_boot_msg()));
            }
            out
        },
        DeviceKind::Component { .. } => {
            proof {
                assert(false);
            }
            Vec::new()
        },
    }
}

/// The whole `replace` answer, decided by the argument bytes, the presented
/// token and the registry state: a parse error, the authentication error,
/// a registry error, or the success line.
pub open spec fn spec_replace_output(
    ap_token: Seq<u8>,
    reg: Registry,
    token: Seq<u8>,
    id_new_raw: Seq<u8>,
    id_old_raw: Seq<u8>,
) -> Seq<MsgView> {
    if !is_hex_u32(id_new_raw) || !is_hex_u32(id_old_raw) {
        seq![MsgView::Error("input could not be parsed".spec_bytes())]
    } else if token != ap_token {
        seq![MsgView::Error("Incorrect Token".spec_bytes())]
    } else if !reg.is_initialized() {
        spec_flash_error_line(ErrorKind::Uninitialized)
    } else if !reg.live().contains(hex_u32_value(id_old_raw) as u32) {
        seq![MsgView::Error("Component not found".spec_bytes())]
    } else {
        seq![MsgView::Success("Replace".spec_bytes())]
    }
}

/// What `replace` may do to the registry: exactly when both ids parse, the
/// token matches and the old id is live, the first occurrence of the old id
/// is replaced; in every other case the registry — its durable copy
/// included — is untouched.
pub open spec fn spec_replace_effect(
    reg_old: Registry,
    reg_new: Registry,
    ap_token: Seq<u8>,
    token: Seq<u8>,
    id_new_raw: Seq<u8>,
    id_old_raw: Seq<u8>,
) -> bool {
    if is_hex_u32(id_new_raw) && is_hex_u32(id_old_raw) && token == ap_token
        && reg_old.is_initialized() && reg_old.live().contains(hex_u32_value(id_old_raw) as u32) {
        &&& reg_new.is_initialized()
        &&& reg_new.live() == spec_swap(
            reg_old.live(),
            hex_u32_value(id_old_raw) as u32,
            hex_u32_value(id_new_raw) as u32,
        )
        &&& reg_new.live().len() == reg_old.live().len()
    } else {
        reg_new == reg_old
    }
}

/// Builds a one-line answer.
pub(crate) fn single(m: Msg) -> (r: Vec<Msg>)
    ensures
        r@ == seq![m],
{
    let mut r: Vec<Msg> = Vec::new();
    r.push(m);
    proof {
        assert(r@ =~= seq![m]);
    }
    r
}

/// The `replace` command: decodes both ids, gates on the provisioned token,
/// then swaps the old id for the new one in the registry. Any failure —
/// malformed argument, wrong token, uninitialized registry, id not live —
/// answers with exactly one error line and leaves the registry untouched.
pub fn replace_cmd(
    device: &DeviceKind,
    registry: &mut Registry,
    token: &Vec<u8>,
    id_new_raw: &Vec<u8>,
    id_old_raw: &Vec<u8>,
) -> (r: Vec<Msg>)
    requires
        device.is_ap(),
        old(registry).wf(),
    ensures
        final(registry).wf(),
        views_of(r@) == spec_replace_output(
            device.spec_ap_token(),
            *old(registry),
            token@,
            id_new_raw@,
            id_old_raw@,
        ),
        spec_replace_effect(
            *old(registry),
            *final(registry),
            device.spec_ap_token(),
            token@,
            id_new_raw@,
            id_old_raw@,
        ),
{
    let parse_error = ("input could not be parsed").as_bytes_vec();
    let id_new = match parse_hex_u32(id_new_raw) {
        Ok(v) => v,
        Err(_) => {
            let r = single(Msg::Error(parse_error));
            proof {
                assert(views_of(r@) =~= seq![
                    MsgView::Error("input could not be parsed".spec_bytes()),
                ]);
            }
            return r;
        },
    };
    let id_old = match parse_hex_u32(id_old_raw) {
        Ok(v) => v,
        Err(_) => {
            let r = single(Msg::Error(parse_error));
            proof {
                assert(views_of(r@) =~= seq![
                    MsgView::Error("input could not be parsed".spec_bytes()),
                ]);
            }
            return r;
        },
    };
    match device {
        DeviceKind::ApplicationProcessor { ap_token, .. } => {
            match check_credential(token, ap_token) {
                Ok(()) => {},
                Err(_) => {
                    let r = single(Msg::Error(("Incorrect Token").as_bytes_vec()));
                    proof {
                        assert(views_of(r@) =~= seq![
                            MsgView::Error("Incorrect Token".spec_bytes()),
                        ]);
                    }
                    return r;
                },
            }
        },
        DeviceKind::Component { .. } => {
            proof {
                assert(false);
            }
            return Vec::new();
        },
    }
    match registry.swap_component(id_old, id_new) {
        Ok(()) => {
            let r = single(Msg::Success(("Replace").as_bytes_vec()));
            proof {
                assert(views_of(r@) =~= seq![MsgView::Success("Replace".spec_bytes())]);
            }
            r
        },
        Err(e) => {
            if matches!(e, ErrorKind::NotFound) {
                let r = single(Msg::Error(("Component not found").as_bytes_vec()));
                proof {
                    assert(views_of(r@) =~= seq![MsgView::Error("Component not found".spec_bytes())]);
                }
                r
            } else {
                flash_error_msgs(&e)
            }
        },
    }
}

/// The whole `attest` answer, decided by the component-id bytes and the
/// presented pin: a parse error, the authentication error, or the
/// attestation report. The report's location, date and customer fields are
/// empty placeholders until the secure channel exists.
pub open spec fn spec_attest_output(ap_pin: Seq<u8>, pin: Seq<u8>, component_raw: Seq<u8>) -> Seq<
    MsgView,
> {
    if !is_hex_u32(component_raw) {
        seq![MsgView::Error("input could not be parsed".spec_bytes())]
    } else if pin != ap_pin {
        seq![MsgView::Error("Incorrect Pin".spec_bytes())]
    } else {
        seq![
            MsgView::Info("C>0x".spec_bytes() + spec_hex_min(hex_u32_value(component_raw) as u32)),
            MsgView::Info("LOC>".spec_bytes()),
            MsgView::Info("DATE>".spec_bytes()),
            MsgView::Info("CUST>".spec_bytes()),
            MsgView::Success("Attest".spec_bytes()),
        ]
    }
}

/// The `attest` command: decodes the component id and gates on the
/// provisioned pin. On a wrong pin it answers with exactly one error line
/// and nothing is sent on any bus — the handler has no channel to send on.
/// On a match it reports the component and the (placeholder) attestation
/// fields, then the success line.
pub fn attest_cmd(device: &DeviceKind, pin: &Vec<u8>, component_raw: &Vec<u8>) -> (r: Vec<Msg>)
    requires
        device.is_ap(),
    ensures
        views_of(r@) == spec_attest_output(device.spec_ap_pin(), pin@, component_raw@),
{
    let component = match parse_hex_u32(component_raw) {
        Ok(v) => v,
        Err(_) => {
            let r = single(Msg::Error(("input could not be parsed").as_bytes_vec()));
            proof {
                assert(views_of(r@) =~= seq![
                    MsgView::Error("input could not be parsed".spec_bytes()),
                ]);
            }
            return r;
        },
    };
    match device {
        DeviceKind::ApplicationProcessor { ap_pin, .. } => {
            match check_credential(pin, ap_pin) {
                Ok(()) => {},
                Err(_) => {
                    let r = single(Msg::Error(("Incorrect Pin").as_bytes_vec()));
                    proof {
                        assert(views_of(r@) =~= seq![MsgView::Error("Incorrect Pin".spec_bytes())]);
                    }
                    return r;
                },
            }
        },
        DeviceKind::Component { .. } => {
            proof {
                assert(false);
            }
            return Vec::new();
        },
    }
    let mut c_body = ("C>0x").as_bytes_vec();
    let h = to_hex_min(component);
    append_bytes(&mut c_body, &h);
    let mut out: Vec<Msg> = Vec::new();
    out.push(Msg::Info(c_body));
    out.push(Msg::Info(("LOC>").as_bytes_vec()));
    out.push(Msg::Info(("DATE>").as_bytes_vec()));
    out.push(Msg::Info(("CUST>").as_bytes_vec()));
    out.push(Msg::Success(("Attest").as_bytes_vec()));
    proof {
        assert(views_of(out@) =~= spec_attest_output(device.spec_ap_pin(), pin@, component_raw@));
    }
    out
}

/// Command-boundary law for `list`: the answer is never empty, its last
/// line is the one terminal (`error` or `success`) line, and every earlier
/// line is an untagged-for-termination `info` line.
pub proof fn lemma_list_output_terminal(ids: Seq<u32>, found: Seq<u8>)
    ensures
        spec_list_output(ids, found).len() == ids.len() + found.len() + 1,
        spec_list_output(ids, found).last().is_terminal(),
        forall|i: int|
            0 <= i < ids.len() + found.len() ==> !spec_list_output(ids, found)[i].is_terminal(),
{
    let out = spec_list_output(ids, found);
    assert(out.last() == MsgView::Success("List".spec_bytes()));
    assert forall|i: int| 0 <= i < ids.len() + found.len() implies !out[i].is_terminal() by {
        if i < ids.len() {
            assert(out[i] == spec_p_lines(ids)[i]);
        } else {
            assert(out[i] == spec_f_lines(found)[i - ids.len()]);
        }
    }
}

/// Command-boundary law for `boot`: the boot message, then the one terminal
/// line.
pub proof fn lemma_boot_output_terminal(boot_msg: Seq<u8>)
    ensures
        spec_boot_output(boot_msg).len() == 2,
        spec_boot_output(boot_msg).last().is_terminal(),
        !spec_boot_output(boot_msg)[0].is_terminal(),
{
}

/// Command-boundary law for `replace`: whatever the arguments, the token and
/// the registry state, the answer is exactly one line, and it is terminal.
pub proof fn lemma_replace_output_terminal(
    ap_token: Seq<u8>,
    reg: Registry,
    token: Seq<u8>,
    id_new_raw: Seq<u8>,
    id_old_raw: Seq<u8>,
)
    ensures
        spec_replace_output(ap_token, reg, token, id_new_raw, id_old_raw).len() == 1,
        spec_replace_output(ap_token, reg, token, id_new_raw, id_old_raw)[0].is_terminal(),
{
}

/// Command-boundary law for `attest`: the answer is never empty, its last
/// line is the one terminal line, and every earlier line is an `info` line.
pub proof fn lemma_attest_output_terminal(ap_pin: Seq<u8>, pin: Seq<u8>, component_raw: Seq<u8>)
    ensures
        spec_attest_output(ap_pin, pin, component_raw).len() >= 1,
        spec_attest_output(ap_pin, pin, component_raw).last().is_terminal(),
        forall|i: int|
            0 <= i < spec_attest_output(ap_pin, pin, component_raw).len() - 1
                ==> !spec_attest_output(ap_pin, pin, component_raw)[i].is_terminal(),
{
}

/// Authentication law for `replace`: whenever the presented token differs
/// from the provisioned one (the ids being well-formed), the registry —
/// durable copy included — is untouched, and the whole answer is exactly one
/// line, the `Incorrect Token` error.
pub proof fn lemma_replace_wrong_token(
    reg_old: Registry,
    reg_new: Registry,
    ap_token: Seq<u8>,
    token: Seq<u8>,
    id_new_raw: Seq<u8>,
    id_old_raw: Seq<u8>,
)
    requires
        is_hex_u32(id_new_raw),
        is_hex_u32(id_old_raw),
        token != ap_token,
        spec_replace_effect(reg_old, reg_new, ap_token, token, id_new_raw, id_old_raw),
    ensures
        reg_new == reg_old,
        spec_replace_output(ap_token, reg_old, token, id_new_raw, id_old_raw) == seq![
            MsgView::Error("Incorrect Token".spec_bytes()),
        ],
        spec_replace_output(ap_token, reg_old, token, id_new_raw, id_old_raw).len() == 1,
        spec_replace_output(ap_token, reg_old, token, id_new_raw, id_old_raw)[0].is_error(),
{
}

/// Authentication law for `attest`: whenever the presented pin differs from
/// the provisioned one (the component id being well-formed), the whole
/// answer is exactly one line, the `Incorrect Pin` error — no attestation
/// field leaves the device.
pub proof fn lemma_attest_wrong_pin(ap_pin: Seq<u8>, pin: Seq<u8>, component_raw: Seq<u8>)
    requires
        is_hex_u32(component_raw),
        pin != ap_pin,
    ensures
        spec_attest_output(ap_pin, pin, component_raw) == seq![
            MsgView::Error("Incorrect Pin".spec_bytes()),
        ],
        spec_attest_output(ap_pin, pin, component_raw).len() == 1,
        spec_attest_output(ap_pin, pin, component_raw)[0].is_error(),
{
}

} // verus!
