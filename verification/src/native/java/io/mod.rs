pub mod file_output_stream;
