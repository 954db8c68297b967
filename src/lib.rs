//! Fault injection for byte-stream I/O: decorators that make reads and writes
//! short, or not ready yet, as a sequence of directives says.
mod duplex;
pub mod generate;
pub mod limited_reader;
pub mod mock_duplex;
pub mod partial;
pub mod retry;

pub use duplex::Duplex;
pub use mock_duplex::MockDuplex;
