pub mod main;
pub mod main_memory;
pub mod mapping;
pub mod model;
pub mod reservation;
