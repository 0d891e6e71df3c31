//! A small command-line toolbox: a static file server with three ways of
//! resolving request paths, a digest reporter, and an image reader whose
//! conversions can resize and change format.
//! The decisions are made here, over plain values; the caller performs the
//! filesystem lookups and network work and hands their outcomes in.

pub mod cli;
pub mod hash;
pub mod picture;
pub mod path;
pub mod response;
pub mod serve;
