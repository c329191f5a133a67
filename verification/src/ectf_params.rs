//! The device identity: which role this image was built for and the
//! provisioned constants of that role. The provisioning source is queried
//! once, outside the core; the core receives the resolved identity as a
//! value and treats it as read-only for the process lifetime.

use vstd::prelude::*;

verus! {

/// The resolved identity of the running image: exactly one variant is valid
/// per compiled image. Commands that need one role's fields are only ever
/// wired to that role's dispatcher.
pub enum DeviceKind {
    Component {
        id: u32,
        boot_msg: Vec<u8>,
        attestation_loc: Vec<u8>,
        attestation_date: Vec<u8>,
        attestation_customer: Vec<u8>,
    },
    ApplicationProcessor {
        ap_pin: Vec<u8>,
        ap_token: Vec<u8>,
        boot_msg: Vec<u8>,
        comp_ids: Vec<u32>,
    },
}

impl DeviceKind {
    /// True of an application-processor image.
    pub open spec fn is_ap(self) -> bool {
        self is ApplicationProcessor
    }

    /// The provisioned replace token of an application processor.
    pub open spec fn spec_ap_token(self) -> Seq<u8> {
        match self {
            DeviceKind::ApplicationProcessor { ap_token, .. } => ap_token@,
            _ => Seq::empty(),
        }
    }

    /// The provisioned attest pin of an application processor.
    pub open spec fn spec_ap_pin(self) -> Seq<u8> {
        match self {
            DeviceKind::ApplicationProcessor { ap_pin, .. } => ap_pin@,
            _ => Seq::empty(),
        }
    }

    /// The provisioned boot message of either role.
    pub open spec fn spec_boot_msg(self) -> Seq<u8> {
        match self {
            DeviceKind::ApplicationProcessor { boot_msg, .. } => boot_msg@,
            DeviceKind::Component { boot_msg, .. } => boot_msg@,
        }
    }

    /// The provisioned authorized-id list of an application processor.
    pub open spec fn spec_comp_ids(self) -> Seq<u32> {
        match self {
            DeviceKind::ApplicationProcessor { comp_ids, .. } => comp_ids@,
            _ => Seq::empty(),
        }
    }
}

/// The two roles an image can be provisioned as.
pub enum Role {
    Component,
    ApplicationProcessor,
}

/// Classifies the raw role tag the provisioning source reports: zero is a
/// component image, one an application processor. Any other tag is a build
/// misconfiguration the process must not continue from, so no role is
/// returned for it.
pub fn role_from_tag(tag: i32) -> (r: Option<Role>)
    ensures
        match r {
            Some(Role::Component) => tag == 0,
            Some(Role::ApplicationProcessor) => tag == 1,
            None => tag != 0 && tag != 1,
        },
{
    if tag == 0 {
        Some(Role::Component)
    } else if tag == 1 {
        Some(Role::ApplicationProcessor)
    } else {
        None
    }
}

} // verus!
