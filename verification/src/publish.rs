use vstd::prelude::*;
use crate::errors::PipelineError;
use crate::query::{percent_encode, percent_encoded};

verus! {

/// `/tcpflow?value=`, the ingestion endpoint path up to the ratio value.
pub open spec fn publish_prefix() -> Seq<u8> {
    seq![47u8, 116, 99, 112, 102, 108, 111, 119, 63, 118, 97, 108, 117, 101, 61]
}

/// `&nic=`, between the ratio value and the published interface name.
pub open spec fn publish_mid() -> Seq<u8> {
    seq![38u8, 110, 105, 99, 61]
}

/// The full request path publishing one ratio for one interface.
pub open spec fn publish_path(value_text: Seq<u8>, nic: Seq<u8>) -> Seq<u8> {
    publish_prefix() + percent_encoded(value_text) + publish_mid() + percent_encoded(nic)
}

/// Builds the request path that publishes the ratio, rendered as
/// `value_text`, under the published interface name `nic`; both parameters
/// are percent-encoded.
pub fn build_publish_path(value_text: &Vec<u8>, nic: &Vec<u8>) -> (r: Vec<u8>)
    ensures
        r@ == publish_path(value_text@, nic@),
{
    let mut r: Vec<u8> = Vec::new();
    r.push(47);
    r.push(116);
    r.push(99);
    r.push(112);
    r.push(102);
    r.push(108);
    r.push(111);
    r.push(119);
    r.push(63);
    r.push(118);
    r.push(97);
    r.push(108);
    r.push(117);
    r.push(101);
    r.push(61);
    proof {
        assert(r@ =~= publish_prefix());
    }
    let mut enc_value = percent_encode(value_text);
    r.append(&mut enc_value);
    r.push(38);
    r.push(110);
    r.push(105);
    r.push(99);
    r.push(61);
    proof {
        assert(r@ =~= publish_prefix() + percent_encoded(value_text@) + publish_mid());
    }
    let mut enc_nic = percent_encode(nic);
    r.append(&mut enc_nic);
    proof {
        assert(r@ =~= publish_path(value_text@, nic@));
    }
    r
}

/// The judging half of the Publisher: any status in the 2xx range is
/// success; anything else is a `PublishError` carrying the observed status.
/// No retry follows from this component.
pub fn check_publish_status(status: u16) -> (r: Result<(), PipelineError>)
    ensures
        match r {
            Ok(_) => 200 <= status < 300,
            Err(e) => (status < 200 || status >= 300) && e == (PipelineError::PublishError {
                status,
            }),
        },
{
    if 200 <= status && status < 300 {
        Ok(())
    } else {
        Err(PipelineError::PublishError { status })
    }
}

} // verus!
