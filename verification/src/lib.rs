//! Verified core of the Android bridge to the Clash proxy core: the requests
//! that the controller sends to the Clash HTTP API, the decisions it takes on
//! the answers, and the bookkeeping of subscription downloads.
//!
//! Everything that touches a socket, a file or a runtime lives in the
//! companion crate under `app/`; it hands plain values to the functions here
//! and carries out the requests they describe.

pub mod controller;
pub mod download;
pub mod external;
pub mod model;
pub mod proxies;
pub mod text;

pub use controller::{check_status, ApiRequest, ClashController, ClashError, HttpMethod};
pub use download::{
    user_agent, DownloadProgress, DownloadProgressCallback, DownloadResult, DownloadSession,
    MAX_REDIRECTS,
};
pub use model::{
    ConfigResponse, Connection, ConnectionsResponse, DelayHistory, DelayResponse, MemoryResponse,
    Metadata, Mode, Proxy,
};
pub use proxies::{arrange_proxies, proxies_step, ProxiesStep};
