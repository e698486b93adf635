pub mod constants;
pub mod frame_number;
pub mod randomizer;
pub mod checksum;
pub mod buffer;
pub mod escaping;
pub mod frame;
pub mod frames;
pub mod codec;
pub mod link;
pub mod spi_command;
pub mod spi_error;
pub mod spi_response;
pub mod ncp;
