//! One miner's connection: the model of what a session does, and the
//! machine that does it.

pub mod machine;
pub mod model;

pub use machine::Action;
pub use machine::Session;
pub use machine::Submit;
pub use model::Cancel;
pub use model::CloseReason;
pub use model::Phase;
pub use model::ProtocolVariant;
pub use model::Warning;
