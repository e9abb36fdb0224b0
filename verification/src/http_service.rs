//! One HTTP exchange with a service in the guest, step by step: whether a
//! request may be sent, and what each packet that comes back means.

use vstd::prelude::*;
use crate::text::{chars_of, find_line_end, find_word, first_line, has_word, nth_word, same_text};
use crate::vsock_protocol::{Packet, PacketView, VSOCK_OP_RW, VSOCK_OP_SHUTDOWN};

verus! {

/// Why no request was sent.
#[derive(Debug, Copy, Clone, PartialEq, Eq, Structural)]
pub enum RequestRefusal {
    /// The request is empty.
    EmptyRequest,
    /// The first line holds no method.
    MalformedRequest,
    /// The method is neither GET nor POST.
    UnsupportedMethod,
}

/// What the exchange does after a look at the guest's last packet.
pub enum ResponseStep {
    /// These bytes are the response.
    Done(Vec<u8>),
    /// Nothing yet: send the empty response, run the machine, look again.
    Wait,
    /// A packet that is not part of the exchange: look again at once.
    Again,
    /// The guest shut the connection down: the exchange failed.
    Shutdown,
}

/// A response step as plain values.
pub enum ResponseStepView {
    Done(Seq<u8>),
    Wait,
    Again,
    Shutdown,
}

impl View for ResponseStep {
    type V = ResponseStepView;

    open spec fn view(&self) -> ResponseStepView {
        match self {
            ResponseStep::Done(bytes) => ResponseStepView::Done(bytes@),
            ResponseStep::Wait => ResponseStepView::Wait,
            ResponseStep::Again => ResponseStepView::Again,
            ResponseStep::Shutdown => ResponseStepView::Shutdown,
        }
    }
}

/// Whether a request may be sent: its first line starts with `GET` or
/// `POST`.
pub open spec fn request_check(request: Seq<char>) -> Result<(), RequestRefusal> {
    let line = first_line(request);
    if request.len() == 0 {
        Err(RequestRefusal::EmptyRequest)
    } else if !has_word(line, 0) {
        Err(RequestRefusal::MalformedRequest)
    } else if nth_word(line, 0) == "GET"@ || nth_word(line, 0) == "POST"@ {
        Ok(())
    } else {
        Err(RequestRefusal::UnsupportedMethod)
    }
}

/// What the guest's last packet means for the exchange: an RW packet with
/// bytes is the response, one without is a reason to wait, as is no packet
/// at all; a SHUTDOWN ends the exchange; anything else is passed over.
pub open spec fn response_step(packet: Option<PacketView>) -> ResponseStepView {
    match packet {
        Some(p) => if p.hdr.op == VSOCK_OP_RW {
            if p.payload.len() > 0 {
                ResponseStepView::Done(p.payload)
            } else {
                ResponseStepView::Wait
            }
        } else if p.hdr.op == VSOCK_OP_SHUTDOWN {
            ResponseStepView::Shutdown
        } else {
            ResponseStepView::Again
        },
        None => ResponseStepView::Wait,
    }
}

/// Checks a request before it is sent.
pub fn check_request(request: &str) -> (checked: Result<(), RequestRefusal>)
    ensures
        checked == request_check(request@),
{
    let text = chars_of(request);
    if text.len() == 0 {
        return Err(RequestRefusal::EmptyRequest);
    }
    let end: usize = find_line_end(text.as_slice(), 0);
    let line = vstd::slice::slice_subrange(text.as_slice(), 0, end);
    let method = match find_word(line, 0) {
        Some(word) => vstd::slice::slice_subrange(line, word.0, word.1),
        None => {
            return Err(RequestRefusal::MalformedRequest);
        },
    };
    if same_text(method, "GET") || same_text(method, "POST") {
        Ok(())
    } else {
        Err(RequestRefusal::UnsupportedMethod)
    }
}

/// Decides how the exchange goes on after the guest's last packet.
pub fn next_response_step(packet: Option<Packet>) -> (step: ResponseStep)
    ensures
        step@ == response_step(
            match packet {
                Some(p) => Some(p@),
                None => None,
            },
        ),
{
    match packet {
        Some(p) => {
            let (hdr, payload) = p.into_parts();
            if hdr.op == VSOCK_OP_RW {
                if payload.len() > 0 {
                    ResponseStep::Done(payload)
                } else {
                    ResponseStep::Wait
                }
            } else if hdr.op == VSOCK_OP_SHUTDOWN {
                ResponseStep::Shutdown
            } else {
                ResponseStep::Again
            }
        },
        None => ResponseStep::Wait,
    }
}

} // verus!
