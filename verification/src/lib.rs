//! A request dispatcher: a route table keyed by method and literal path, handlers of
//! two kinds, and the JSON codec of the payloads that the bundled user service
//! exchanges.
//!
//! [`router`] holds the table, [`dispatch`] answers a request through it, [`codec`]
//! turns payloads into JSON documents and back, and [`service`] binds the two routes
//! of the user service. [`json`] is the boundary to `serde_json`, which reads and
//! writes the text of a document: what stands there is trusted, all else is proved.

pub mod codec;
pub mod dispatch;
pub mod json;
pub mod message;
pub mod method;
pub mod router;
pub mod service;
pub mod status;
pub mod text;
