//! Perpetual-futures orderbook VM.
pub mod state_traits;
pub mod types;
pub mod state;
pub mod assoc;
pub mod storage;
pub mod executor_traits;
pub mod execution_spec;
pub mod laws;
pub mod executor;

pub use executor::{BlockConfig, ExecutionError, PerpDexExecutor};
pub use state::{PerpDexLocation, PerpDexValue};
pub use state_traits::{PartitionId, StateLocation, StateValue};
pub use storage::{InMemoryStorage, PerpDexStorage, StorageError};
pub use types::{Operation, OperationResult, OrderStatus, OrderType, PerpDexResult, PerpDexTx, Side};
