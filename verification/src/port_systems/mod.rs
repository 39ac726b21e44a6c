pub mod inject_extract_uuid;
pub mod read_writer_tcp;
