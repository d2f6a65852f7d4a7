pub mod api_helpers;
pub mod atom_table;
pub mod bitmap;
pub mod bitmap_allocator;
pub mod bitvector_allocator;
pub mod byte_string;
pub mod constants;
pub mod emulated;
pub mod emulated_gdi;
pub mod emulated_keyboard;
pub mod emulated_user;
pub mod emulator;
pub mod emulated_kernel;
pub mod emulator_accessor;
pub mod emulator_error;
pub mod executable;
pub mod handle_table;
pub mod heap;
pub mod heap_byte_string;
pub mod laws;
pub mod loader;
pub mod machine;
pub mod memory;
pub mod message_queue;
pub mod mod_rm;
pub mod module;
pub mod object_environment;
pub mod registers;
pub mod segment_bump_allocator;
pub mod two_d;
pub mod util;
pub mod window_manager;
