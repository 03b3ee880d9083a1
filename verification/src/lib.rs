//! Verified core of the Honzon collateralized-debt protocol and related pallets.

pub mod adjustment;
pub mod fixed;
pub mod scale;
pub mod store;
pub mod assets;
pub mod auction;
pub mod traits;
pub mod auction_manager;
pub mod cdp_treasury;
pub mod loans;
pub mod cdp_engine;
pub mod honzon_loans;
pub mod engine_calls;
pub mod engine_vaults;
pub mod issuance_buffer;
pub mod emergency_shutdown;
pub mod honzon;
pub mod bounties_mock;
pub mod weights;
pub mod connections;
pub mod savings;
pub mod opf;
pub mod proxy_migration;
pub mod network_bridge;
pub mod node_service;
