pub mod buffer;
pub mod bus;
pub mod collect;
pub mod connection;
pub mod convert;
pub mod discovery;
pub mod equality;
pub mod error;
pub mod flatten;
pub mod handshake;
pub mod hashing;
pub mod key;
pub mod pool;
pub mod pubsub;
pub mod reading;
pub mod redirect;
pub mod retry;
pub mod router;
pub mod routing;
pub mod shaping;
pub mod string_or_number;
pub mod text;
pub mod topology;
pub mod transaction;
pub mod util;
pub mod value;
