pub use crate::repository::AtomicInventoryOps;
pub use crate::repository::InventoryRepository;
