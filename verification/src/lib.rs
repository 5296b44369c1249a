//! A library for mirroring the CMSIS pack ecosystem: it parses vendor and
//! package index files, parses package descriptors with their four-level
//! device hierarchy, plans crawls and bounded downloads, and merges device
//! catalogs across packages.

pub mod assoc;
pub mod catalog;
pub mod component;
pub mod condition;
pub mod config;
pub mod crawl;
pub mod device;
pub mod download;
pub mod error;
pub mod fetch;
pub mod numbers;
pub mod pack_index;
pub mod pdsc;
pub mod poll;
pub mod xml;
