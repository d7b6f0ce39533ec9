pub mod bootstrap;
pub mod bytebuf;
pub mod channel;
pub mod chash;
pub mod clock;
pub mod codec;
pub mod errors;
pub mod eventloop;
pub mod idle;
pub mod lifecycle;
pub mod pipeline;

pub use errors::ErrorCategory;
pub use errors::RettyErrorKind;
