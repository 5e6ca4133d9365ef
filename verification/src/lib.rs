//! A verified implementation of the table-driven CRC-32 checksum
//! (reflected polynomial `0xEDB88320`, the zlib/gzip/PNG variant).

pub mod crc;
