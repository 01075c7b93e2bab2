//! The packet side of a SYN proxy: it decides what to do with a frame that came in, answers
//! requests to open a TCP connection in the place of a host, and asks for the address of a host.

pub mod addr;
pub mod arp;
pub mod bytes;
pub mod dump;
pub mod ethernet;
pub mod ingress;
pub mod ipv4;
pub mod laws;
pub mod patch;
pub mod reply;
pub mod services;
pub mod tcp;
pub mod template;
pub mod wire;
pub mod wire_reply;

pub use addr::{Ipv4Addr, MacAddr};
pub use arp::handle_arp;
pub use bytes::u32_to_oct;
pub use dump::{can_dump, dump_input};
pub use ingress::{can_handle, find_malformed, handle_input, Action, IngressPacket, Layer};
pub use patch::build_reply_fast;
pub use reply::{build_reply, MIN_REPLY_BUF_LEN};
pub use services::{HostConfig, SequenceRequest, Services, SynCookie, TimestampRequest};
pub use template::{handle_reply, ReplyTemplate};
