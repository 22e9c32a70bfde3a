pub mod pixel;
pub mod gui;
pub mod cpu;
pub mod mmu;
pub mod gb;
pub mod nes;
