//! Client-side dispatch: immutable transport configuration, per-client
//! request-id assignment, request preparation, and interpretation of a
//! decoded response's status.  The HTTP(S) exchange itself is the outside
//! transport's work.

use vstd::prelude::*;
use crate::attribute::Response;
use crate::error::IppError;
use crate::operation::{IppOperation, IppRequest};

verus! {

/// Status codes below this bound mean success.
pub const STATUS_SUCCESS_BOUND: u16 = 0x0100;

/// Client configuration and per-client request-id state.  The configuration
/// is immutable after construction; only the request-id counter advances.
pub struct IppClient {
    uri: String,
    cacerts: Vec<String>,
    verify_hostname: bool,
    next_request_id: i32,
}

impl IppClient {
    /// A client for the given printer URI, verifying host names, with no
    /// extra trust roots.
    pub fn new(uri: String) -> (r: IppClient)
        ensures
            r.uri_model() == uri@,
            r.cacerts_model() == Seq::<Seq<char>>::empty(),
            r.verify_model() == true,
            r.counter_model() == 1,
    {
        let r = IppClient {
            uri,
            cacerts: Vec::new(),
            verify_hostname: true,
            next_request_id: 1,
        };
        proof {
            assert(r.cacerts_model() =~= Seq::<Seq<char>>::empty());
        }
        r
    }

    /// A client with additional trusted root certificate file names.
    pub fn with_root_certificates(uri: String, cacerts: Vec<String>) -> (r: IppClient)
        ensures
            r.uri_model() == uri@,
            r.cacerts_model() == cacerts@.map(|i: int, s: String| s@),
            r.verify_model() == true,
            r.counter_model() == 1,
    {
        IppClient { uri, cacerts, verify_hostname: true, next_request_id: 1 }
    }

    /// The target printer URI.
    pub closed spec fn uri_model(&self) -> Seq<char> {
        self.uri@
    }

    /// The extra trusted root certificate file names.
    pub closed spec fn cacerts_model(&self) -> Seq<Seq<char>> {
        self.cacerts@.map(|i: int, s: String| s@)
    }

    /// Whether the transport must verify the host name.
    pub closed spec fn verify_model(&self) -> bool {
        self.verify_hostname
    }

    /// The request id the next prepared request will carry.
    pub closed spec fn counter_model(&self) -> int {
        self.next_request_id as int
    }

    /// Switches host-name verification; on by default.
    pub fn set_verify_hostname(&mut self, verify: bool)
        ensures
            final(self).verify_model() == verify,
            final(self).uri_model() == old(self).uri_model(),
            final(self).cacerts_model() == old(self).cacerts_model(),
            final(self).counter_model() == old(self).counter_model(),
    {
        self.verify_hostname = verify;
    }

    /// The target printer URI, for the transport.
    pub fn uri(&self) -> (r: &String)
        ensures
            r@ == self.uri_model(),
    {
        &self.uri
    }

    /// The extra trusted root certificate file names, for the transport.
    pub fn cacerts(&self) -> (r: &Vec<String>)
        ensures
            r@.map(|i: int, s: String| s@) == self.cacerts_model(),
    {
        &self.cacerts
    }

    /// Whether the transport must verify the host name.
    pub fn verify_hostname(&self) -> (r: bool)
        ensures
            r == self.verify_model(),
    {
        self.verify_hostname
    }

    /// Prepares an operation for sending: assigns this client's next request
    /// id and builds the request.  The id counter advances by one, starting
    /// over at one when it would overflow.
    pub fn prepare<T: IppOperation>(&mut self, operation: T) -> (r: IppRequest)
        ensures
            r.operation_code == operation.spec_code(),
            r.request_id as int == old(self).counter_model(),
            r.operation_attributes@.tag
                == crate::attribute::DelimiterTag::OperationAttributes,
            r.operation_attributes@.attrs == operation.spec_attrs(),
            match operation.spec_payload() {
                Option::Some(b) => r.payload matches Option::Some(p) && p@ == b,
                Option::None => r.payload is None,
            },
            final(self).counter_model() == if old(self).counter_model() == i32::MAX as int {
                1int
            } else {
                old(self).counter_model() + 1
            },
            final(self).uri_model() == old(self).uri_model(),
            final(self).cacerts_model() == old(self).cacerts_model(),
            final(self).verify_model() == old(self).verify_model(),
    {
        let id = self.next_request_id;
        if self.next_request_id == i32::MAX {
            self.next_request_id = 1;
        } else {
            self.next_request_id = self.next_request_id + 1;
        }
        operation.into_request(id)
    }

    /// Interprets a decoded response: a status code below
    /// [`STATUS_SUCCESS_BOUND`] passes the groups through unchanged, any
    /// other status is a status error carrying that code.
    pub fn interpret_response(status_code: u16, response: Response) -> (r: Result<
        Response,
        IppError,
    >)
        ensures
            status_code < STATUS_SUCCESS_BOUND ==> (r matches Ok(resp) && resp@ == response@),
            status_code >= STATUS_SUCCESS_BOUND ==> (r matches Err(e) && e == IppError::Status(
                status_code,
            )),
    {
        if status_code < STATUS_SUCCESS_BOUND {
            Result::Ok(response)
        } else {
            Result::Err(IppError::Status(status_code))
        }
    }
}

} // verus!
