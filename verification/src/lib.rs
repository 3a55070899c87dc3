pub mod address_map;
pub mod audio;
pub mod bus;
pub mod bus_device;
pub mod dma;
pub mod dram;
pub mod elf_loader;
pub mod fifo_bus;
pub mod fifo;
pub mod host_access;
pub mod hung_detector;
pub mod memory;
pub mod memory_map;
pub mod sim_control;
pub mod simulation;
pub mod vcd_analyzer;
pub mod video;
