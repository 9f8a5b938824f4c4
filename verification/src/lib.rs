//! A traffic-advisory feed service: polls a paginated upstream feed,
//! detects novel records across polls, and fans them out to any number
//! of subscriber sessions over a bounded per-subscriber buffer.
pub mod args;
pub mod client;
pub mod hub;
pub mod poll;
pub mod records;
pub mod session;
pub mod store;
pub mod text;
pub mod timestamp;

pub use args::PepeArgs;
pub use client::AllPagesLoader;
pub use client::SrError;
pub use client::SrRequest;
pub use hub::BroadcastHub;
pub use poll::PollState;
pub use poll::SrPollOptions;
pub use poll::SrPoller;
pub use records::Category;
pub use records::Message;
pub use records::Pagination;
pub use records::Sr;
pub use timestamp::date_from_str;
pub use timestamp::DecodeError;
pub use session::Actions;
pub use session::SessionState;
pub use session::SrSession;
pub use session::SrTrafficMessageServer;
pub use store::DedupStore;
pub use text::i32_string;
pub use text::u64_string;
pub use timestamp::Timestamp;
