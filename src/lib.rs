//! Client-side protocol layer for a Kubernetes-style API server: classification
//! of one-shot responses into payloads or structured errors, and incremental
//! decoding of newline-delimited watch streams.
pub mod response;
pub mod status;
pub mod text;
pub mod transport;
pub mod watch;

pub use response::{
    check_method, classify_document, handle_api_errors, is_failure_status, payload_for_kind,
    resolve_item, Payload,
};
pub use status::{Error, ErrorResponse, Status, StatusCause, StatusDetails};
pub use transport::TransportFault;
pub use watch::{Frame, FrameKind, Pull, ReadEvent, WatchDecoder};
