//! Allocation-bounded EtherCAT master protocol core.
pub mod registers;
pub mod slave;
pub mod bytes;
pub mod wire;
pub mod rx_index;
pub mod frame_pool;
pub mod bits;
pub mod schedule;
pub mod pdo;
pub mod mapping;
pub mod domain;
pub mod plan;
pub mod port;
pub mod engine;
pub mod control;
pub mod mailbox;
pub mod coe;
pub mod ring;
pub mod diag;
pub mod al;
pub mod dc;
pub mod mapping_config;
pub mod dma;
pub mod arena;
pub mod domain_registry;
pub mod scan;
pub mod pdo_config;
pub mod scheduled_domains;
pub mod production_service;
