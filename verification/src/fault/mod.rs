pub mod codec;
pub mod detection;
pub mod queue;
pub mod processing;
pub mod recovery;
pub mod validator;
