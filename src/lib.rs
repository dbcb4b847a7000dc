//! A striped multi-stream TCP transport engine: message framing, bucket
//! planning, request accounting and the identifier registry, with the
//! sockets and worker threads kept at the edge.

mod bucket;
mod control;
mod device;
mod engine;
mod error;
mod frame;
mod request;
mod transfer;

pub use bucket::{bucket_size, plan_buckets, Bucket};
pub use control::{ControlWorker, OutgoingMessage};
pub use device::{
    NCCLNetProperties, NCCLSocketDev, SocketAddress, SocketHandle, DEFAULT_LISTEN_BACKLOG,
    DEFAULT_SOCKET_MAX_COMMS, NCCL_PTR_HOST,
};
pub use engine::{
    BaguaNet, IdSpace, Progress, SocketRecvRequest, SocketRequest, SocketSendRequest,
};
pub use error::BaguaNetError;
pub use frame::{decode_header, encode_header, HEADER_LEN};
pub use request::RequestState;
pub use transfer::{advance_transfer, IoOutcome};
