#![allow(non_snake_case)]

pub mod bytes;
pub mod errors;
pub mod field;
pub mod generators;
pub mod group;
pub mod inner_product;
pub mod k_hot_proof;
pub mod poly;
pub mod transcript;
