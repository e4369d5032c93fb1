//! Decoding values and transactions.

pub mod conversion_laws;
pub mod json_to_scval;
pub mod multi_op_decoder;
pub mod number;
pub mod partition;
pub mod partition_laws;
pub mod report;
pub mod report_laws;
pub mod scval;
pub mod xdr;
