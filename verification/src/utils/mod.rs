pub mod iferror;
