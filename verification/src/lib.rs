pub mod appmgr;
pub mod apps;
pub mod ata;
pub mod block;
pub mod console;
pub mod context;
pub mod elf;
pub mod elfloader;
pub mod fs;
pub mod gdt;
pub mod graphics;
pub mod heap;
pub mod image;
pub mod interrupts;
pub mod kernel;
pub mod keyboard;
pub mod loader;
pub mod mm;
pub mod mouse;
pub mod net;
pub mod pci;
pub mod pit;
pub mod scheduler;
pub mod settings;
pub mod shell;
pub mod syscalls;
pub mod task;
pub mod text;
pub mod tty;
pub mod ui;
pub mod window;
