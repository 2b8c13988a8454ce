//! Generates C++ contract interfaces from the metadata of Solidity contracts.
//!
//! The metadata of a contract names its functions and events; its storage layout names
//! its state variables. From both, [`generate_hpp::SolHppWriter`] writes a C++ header: a
//! contract class with one virtual method for each function, a dispatch method that takes
//! a call to the method of its selector, and a proxy class that calls a deployed contract.
//!
//! - [`json`], [`metadata`], [`abi`]: the metadata as data.
//! - [`sol_types_utils`]: storage type tags as C++ types.
//! - [`selector`]: signatures and their selectors.
//! - [`arguments`], [`entries`], [`storage_fields`], [`dispatch`], [`cpp_templates`]: the
//!   parts of an interface.
//! - [`generate_hpp`]: the whole interface and the writer.
//! - [`fetch_cpp_sol`]: Solidity source embedded in C++ files.
//! - [`paths`], [`artifact`]: the files of a build and its deployable result.
//! - [`text`], [`decimal`], [`brackets`], [`utils`]: text as sequences of characters.

pub mod abi;
pub mod arguments;
pub mod artifact;
pub mod brackets;
pub mod cpp_templates;
pub mod decimal;
pub mod dispatch;
pub mod entries;
pub mod fetch_cpp_sol;
pub mod generate_hpp;
pub mod json;
pub mod metadata;
pub mod paths;
pub mod selector;
pub mod sol_types_utils;
pub mod storage_fields;
pub mod text;
pub mod utils;
