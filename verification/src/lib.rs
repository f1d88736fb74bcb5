//! Verified core of a static-asset HTTP server: byte-range resolution,
//! conditional-request evaluation, content negotiation, CORS policy,
//! path safety, ETag modeling, and the request pipeline that ties them
//! together. Transport and filesystem I/O live outside this crate.

pub mod base36;
pub mod chunks;
pub mod cond;
pub mod cors;
pub mod etag;
pub mod gzip;
pub mod httpdate;
pub mod negotiation;
pub mod path;
pub mod pipeline;
pub mod range;
pub mod resource;
pub mod util;
