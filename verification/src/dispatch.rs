//! The analysis dispatcher: what is sent to the detection service, and what
//! is made of its reply.
//!
//! The dispatcher itself performs no network traffic. It prepares exactly one
//! request for each frame, and it turns the outcome that the transport
//! reports for that request into a result or into the one error that callers
//! see. The transport, and the decoding of a reply body, belong to the
//! program around this crate.

use vstd::prelude::*;

verus! {

/// Where frames are sent when no other address is configured.
pub const DEFAULT_ENDPOINT: &'static str = "http://ml-service:8000/detect";

/// What callers are told when an analysis fails, whatever the cause.
pub const UPSTREAM_FAILED: &'static str = "upstream analysis failed";

/// A single-precision IEEE 754 number, held by its bit pattern: sign in the
/// top bit, then eight bits of exponent and twenty-three of fraction. Two
/// scalars are equal when their bit patterns are.
#[derive(Clone, Copy, Debug, PartialEq, Eq, Structural)]
pub struct Scalar {
    pub bits: u32,
}

/// The bit pattern of the number one.
pub const ONE_BITS: u32 = 0x3f80_0000;

/// The bit pattern of negative zero.
pub const NEGATIVE_ZERO_BITS: u32 = 0x8000_0000;

impl Scalar {
    /// Whether the number lies between zero and one, both included. The bit
    /// patterns of the non-negative numbers are ordered as the numbers are,
    /// with the infinities and the not-a-number patterns above all finite
    /// ones; negative zero equals zero.
    pub open spec fn in_unit_interval(self) -> bool {
        self.bits <= ONE_BITS || self.bits == NEGATIVE_ZERO_BITS
    }

    /// The scalar with the given bit pattern.
    pub fn from_bits(bits: u32) -> (s: Scalar)
        ensures
            s.bits == bits,
    {
        Scalar { bits }
    }

    /// The bit pattern of the scalar.
    pub fn to_bits(self) -> (bits: u32)
        ensures
            bits == self.bits,
    {
        self.bits
    }

    /// Decides whether the number lies between zero and one, both included.
    pub fn is_unit_interval(self) -> (r: bool)
        ensures
            r == self.in_unit_interval(),
    {
        self.bits <= ONE_BITS || self.bits == NEGATIVE_ZERO_BITS
    }
}

/// One object that the detection service found in a frame.
#[derive(Clone, Debug, PartialEq, Eq)]
pub struct DetectedObject {
    /// The label of the object's class.
    pub class: String,
    /// How sure the service is of the object.
    pub confidence: Scalar,
    /// The corners `[x1, y1, x2, y2]` of the object's box, in pixels of the
    /// frame.
    pub bbox: [Scalar; 4],
}

/// What the detection service found in one frame. The objects stand in the
/// order in which the service listed them. The service promises a confidence
/// between zero and one; a value of this type may hold any number, and
/// [`conclude`] lets only those through that keep the promise.
#[derive(Clone, Debug, PartialEq, Eq)]
pub struct AnalysisResult {
    pub threat_detected: bool,
    pub confidence: Scalar,
    pub objects: Vec<DetectedObject>,
    /// Seconds since the epoch.
    pub timestamp: i64,
}

impl AnalysisResult {
    /// Whether the result keeps to what the detection service promises of
    /// it: a confidence between zero and one.
    pub open spec fn well_formed(self) -> bool {
        self.confidence.in_unit_interval()
    }

    /// Decides whether the confidence of the result lies between zero and
    /// one.
    pub fn is_well_formed(&self) -> (r: bool)
        ensures
            r == self.well_formed(),
    {
        self.confidence.is_unit_interval()
    }
}

/// The address that frames are sent to: the configured one, or the default
/// where none is configured.
pub open spec fn resolved_endpoint(configured: Option<String>) -> Seq<char> {
    match configured {
        Some(address) => address@,
        None => DEFAULT_ENDPOINT@,
    }
}

/// Picks the address that frames are sent to.
pub fn resolve_endpoint(configured: Option<String>) -> (address: String)
    ensures
        address@ == resolved_endpoint(configured),
{
    match configured {
        Some(address) => address,
        None => DEFAULT_ENDPOINT.to_owned(),
    }
}

/// The one request that is made for a frame.
#[derive(Clone, Debug, PartialEq, Eq)]
pub struct AnalysisRequest {
    /// The address of the detection service.
    pub endpoint: String,
    /// The body of the request: the frame, byte for byte.
    pub body: Vec<u8>,
}

/// Prepares the request for one frame: a single request with the frame as
/// its body, addressed to the configured endpoint or to the default one.
pub fn prepare_request(configured: Option<String>, frame: Vec<u8>) -> (request: AnalysisRequest)
    ensures
        request.endpoint@ == resolved_endpoint(configured),
        request.body == frame,
{
    AnalysisRequest { endpoint: resolve_endpoint(configured), body: frame }
}

/// Why the detection service could not be reached or did not accept a frame.
#[derive(Clone, Copy, Debug, PartialEq, Eq, Structural)]
pub enum TransportFailure {
    /// No connection to the endpoint could be made.
    Unreachable,
    /// The endpoint did not answer in time.
    TimedOut,
    /// The endpoint answered with a status outside `200..=299`.
    Rejected { status: u16 },
}

/// The two points at which an analysis can fail.
#[derive(Clone, Copy, Debug, PartialEq, Eq, Structural)]
pub enum UpstreamFailure {
    /// The request did not get through.
    Transport(TransportFailure),
    /// The reply did not have the shape of an analysis result.
    Parse,
}

/// The error that callers of an analysis see. It reads the same for every
/// cause; the cause is kept for the log.
#[derive(Clone, Copy, Debug, PartialEq, Eq, Structural)]
pub struct AnalysisError {
    pub cause: UpstreamFailure,
}

impl AnalysisError {
    /// The text shown to callers. It does not depend on the cause.
    pub fn message(&self) -> (text: String)
        ensures
            text@ == UPSTREAM_FAILED@,
    {
        UPSTREAM_FAILED.to_owned()
    }

    /// Whether the request failed before any reply was read.
    pub fn is_transport(&self) -> (r: bool)
        ensures
            r == (self.cause is Transport),
    {
        match self.cause {
            UpstreamFailure::Transport(_) => true,
            UpstreamFailure::Parse => false,
        }
    }
}

/// The body of a reply, after the transport tried to decode it.
#[derive(Clone, Debug, PartialEq, Eq)]
pub enum ReplyBody {
    /// The body had the shape of an analysis result.
    Decoded(AnalysisResult),
    /// The body had another shape.
    Malformed,
}

/// What the transport reports for one request.
#[derive(Clone, Debug, PartialEq, Eq)]
pub enum UpstreamReply {
    /// No connection to the endpoint could be made.
    Unreachable,
    /// The endpoint did not answer in time.
    TimedOut,
    /// The endpoint answered.
    Answered { status: u16, body: ReplyBody },
}

/// Whether a status code reports success.
pub open spec fn is_success(status: u16) -> bool {
    200 <= status <= 299
}

/// What an analysis comes to, given the transport's report: the decoded
/// result of a successful reply, and otherwise the error with its cause. The
/// status is looked at before the body. A decoded result whose confidence
/// lies outside zero to one does not have the shape of an analysis result
/// and counts as a parse failure.
pub open spec fn concluded(reply: UpstreamReply) -> Result<AnalysisResult, AnalysisError> {
    match reply {
        UpstreamReply::Unreachable => Err(
            AnalysisError { cause: UpstreamFailure::Transport(TransportFailure::Unreachable) },
        ),
        UpstreamReply::TimedOut => Err(
            AnalysisError { cause: UpstreamFailure::Transport(TransportFailure::TimedOut) },
        ),
        UpstreamReply::Answered { status, body } => if !is_success(status) {
            Err(
                AnalysisError {
                    cause: UpstreamFailure::Transport(TransportFailure::Rejected { status }),
                },
            )
        } else {
            match body {
                ReplyBody::Decoded(result) => if result.well_formed() {
                    Ok(result)
                } else {
                    Err(AnalysisError { cause: UpstreamFailure::Parse })
                },
                ReplyBody::Malformed => Err(AnalysisError { cause: UpstreamFailure::Parse }),
            }
        },
    }
}

/// Whether the transport's report holds a result: the endpoint answered
/// with a success status and a body that decoded to a well-formed result.
pub open spec fn accepted(reply: UpstreamReply) -> bool {
    match reply {
        UpstreamReply::Answered { status, body: ReplyBody::Decoded(result) } => is_success(status)
            && result.well_formed(),
        _ => false,
    }
}

/// Turns the transport's report for a request into the outcome of the
/// analysis.
pub fn conclude(reply: UpstreamReply) -> (outcome: Result<AnalysisResult, AnalysisError>)
    ensures
        outcome == concluded(reply),
        outcome is Ok <==> accepted(reply),
        outcome matches Ok(result) ==> result.well_formed(),
{
    match reply {
        UpstreamReply::Unreachable => Err(
            AnalysisError { cause: UpstreamFailure::Transport(TransportFailure::Unreachable) },
        ),
        UpstreamReply::TimedOut => Err(
            AnalysisError { cause: UpstreamFailure::Transport(TransportFailure::TimedOut) },
        ),
        UpstreamReply::Answered { status, body } => {
            if status < 200 || status > 299 {
                Err(
                    AnalysisError {
                        cause: UpstreamFailure::Transport(TransportFailure::Rejected { status }),
                    },
                )
            } else {
                match body {
                    ReplyBody::Decoded(result) => {
                        if result.is_well_formed() {
                            Ok(result)
                        } else {
                            Err(AnalysisError { cause: UpstreamFailure::Parse })
                        }
                    },
                    ReplyBody::Malformed => Err(AnalysisError { cause: UpstreamFailure::Parse }),
                }
            }
        },
    }
}

} // verus!
