pub mod input_buffer;
