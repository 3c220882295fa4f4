//! The request-response protocol between nodes ("/pog/1"): a request or a
//! response travels as a frame of two parts, a header (associated data) and
//! a body (authenticated data), each tagged with the codec it is encoded
//! with; both must be protobuf.
//!
//! Reading and writing frames on the wire happen outside; what is here
//! checks a frame that was read and builds the frame to write.
use vstd::prelude::*;

verus! {

broadcast use vstd::string::group_string_axioms;

/// The codec of the protocol.
#[derive(Debug, Clone)]
pub struct PogCodec();

/// A request: header and body, both protobuf.
#[derive(Debug, Clone)]
pub struct PogRequest {
    pub header: Vec<u8>,
    pub data: Vec<u8>,
}

/// A response: header and body, both protobuf.
#[derive(Debug, Clone)]
pub struct PogResponse {
    pub header: Vec<u8>,
    pub data: Vec<u8>,
}

/// The protocol.
#[derive(Debug, Clone)]
pub struct PogProtocol {}

/// A frame as it travels: two parts, each with the number of its codec.
#[derive(Debug, Clone)]
pub struct Frame {
    pub associated_data: Vec<u8>,
    pub associated_data_codec: usize,
    pub authenticated_data: Vec<u8>,
    pub authenticated_data_codec: usize,
}

/// A frame that cannot be taken, with the reason.
#[derive(Debug, Clone)]
pub enum CodecError {
    InvalidData(String),
}

/// The name of the protocol, `"/pog/1"`.
pub open spec fn protocol_name_spec() -> Seq<u8> {
    seq![47u8, 112, 111, 103, 47, 49]
}

impl PogProtocol {
    /// The protocol.
    pub fn new() -> (r: Self) {
        PogProtocol {  }
    }

    /// The name under which nodes negotiate the protocol.
    pub fn protocol_name(&self) -> (r: Vec<u8>)
        ensures
            r@ == protocol_name_spec(),
    {
        let mut v: Vec<u8> = Vec::new();
        v.push(47u8);
        v.push(112u8);
        v.push(111u8);
        v.push(103u8);
        v.push(47u8);
        v.push(49u8);
        assert(v@ =~= protocol_name_spec());
        v
    }
}

/// Invalid data, with `msg`.
pub fn invalid_data_error(msg: &str) -> (r: CodecError)
    ensures
        r matches CodecError::InvalidData(m) && m@ == msg@,
{
    CodecError::InvalidData(msg.to_string())
}

/// A codec number names `protobuf` (compared as a 32-bit number).
pub open spec fn names_codec(codec: usize, protobuf: u32) -> bool {
    codec as u32 == protobuf
}

/// Accepts a part encoded with `protobuf`, the number of the protobuf
/// codec; another codec is "invalid coded" data.
pub fn is_proto(codec: usize, protobuf: u32) -> (r: Result<(), CodecError>)
    ensures
        names_codec(codec, protobuf) ==> r is Ok,
        !names_codec(codec, protobuf) ==> (r matches Err(CodecError::InvalidData(m)) && m@ == "invalid coded"@),
{
    if (codec as u32) == protobuf {
        Ok(())
    } else {
        Err(invalid_data_error("invalid coded"))
    }
}

/// Both parts of a frame are protobuf.
pub open spec fn frame_ok(f: Frame, protobuf: u32) -> bool {
    names_codec(f.authenticated_data_codec, protobuf) && names_codec(f.associated_data_codec, protobuf)
}

/// The request a frame that was read carries: its body is the
/// authenticated data, its header the associated data; a frame with a part
/// in another codec is refused.
pub fn request_from_frame(frame: Frame, protobuf: u32) -> (r: Result<PogRequest, CodecError>)
    ensures
        frame_ok(frame, protobuf) <==> r is Ok,
        r matches Ok(req) ==> (req.data@ == frame.authenticated_data@ && req.header@ == frame.associated_data@),
        r matches Err(CodecError::InvalidData(m)) ==> m@ == "invalid coded"@,
{
    match is_proto(frame.authenticated_data_codec, protobuf) {
        Err(e) => return Err(e),
        Ok(()) => {},
    }
    match is_proto(frame.associated_data_codec, protobuf) {
        Err(e) => return Err(e),
        Ok(()) => {},
    }
    Ok(PogRequest { data: frame.authenticated_data, header: frame.associated_data })
}

/// The response a frame that was read carries, as for a request.
pub fn response_from_frame(frame: Frame, protobuf: u32) -> (r: Result<PogResponse, CodecError>)
    ensures
        frame_ok(frame, protobuf) <==> r is Ok,
        r matches Ok(resp) ==> (resp.data@ == frame.authenticated_data@ && resp.header@ == frame.associated_data@),
        r matches Err(CodecError::InvalidData(m)) ==> m@ == "invalid coded"@,
{
    match is_proto(frame.authenticated_data_codec, protobuf) {
        Err(e) => return Err(e),
        Ok(()) => {},
    }
    match is_proto(frame.associated_data_codec, protobuf) {
        Err(e) => return Err(e),
        Ok(()) => {},
    }
    Ok(PogResponse { data: frame.authenticated_data, header: frame.associated_data })
}

/// The frame that writes a request: header as associated data, body as
/// authenticated data, both tagged protobuf.
pub fn frame_for_request(request: PogRequest, protobuf: u32) -> (r: Frame)
    ensures
        r.associated_data@ == request.header@,
        r.authenticated_data@ == request.data@,
        r.associated_data_codec == protobuf as usize,
        r.authenticated_data_codec == protobuf as usize,
{
    Frame {
        associated_data: request.header,
        associated_data_codec: protobuf as usize,
        authenticated_data: request.data,
        authenticated_data_codec: protobuf as usize,
    }
}

/// The frame that writes a response, as for a request.
pub fn frame_for_response(response: PogResponse, protobuf: u32) -> (r: Frame)
    ensures
        r.associated_data@ == response.header@,
        r.authenticated_data@ == response.data@,
        r.associated_data_codec == protobuf as usize,
        r.authenticated_data_codec == protobuf as usize,
{
    Frame {
        associated_data: response.header,
        associated_data_codec: protobuf as usize,
        authenticated_data: response.data,
        authenticated_data_codec: protobuf as usize,
    }
}

/// A request written as a frame is read back as the same request.
pub proof fn law_request_frame_round_trip(request: PogRequest, frame: Frame, protobuf: u32)
    requires
        frame.associated_data@ == request.header@,
        frame.authenticated_data@ == request.data@,
        frame.associated_data_codec == protobuf as usize,
        frame.authenticated_data_codec == protobuf as usize,
    ensures
        frame_ok(frame, protobuf),
{
    assert((protobuf as usize) as u32 == protobuf) by (bit_vector);
}

} // verus!
