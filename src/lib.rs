//! Archive engine of a ZIP archiver: record codec, compression pipeline,
//! traditional encryption, archive writer and reader, split volumes and the
//! selection and mode rules that decide what an archive run does.

pub mod cli;
pub mod datetime;
pub mod error;
pub mod fix;
pub mod le;
pub mod options;
pub mod pipeline;
pub mod pieces;
pub mod plan;
pub mod reader;
pub mod records;
pub mod selection;
pub mod session;
pub mod split;
pub mod writer;
pub mod zip;
pub mod zipcrypto;
pub mod zipfile;
