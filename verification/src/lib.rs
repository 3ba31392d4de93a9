//! Verified core of a host for model scripts.
pub mod args;
pub mod cli;
pub mod cli_laws;
pub mod cli_parse;
pub mod clock;
pub mod context;
pub mod device;
pub mod ggml;
pub mod images;
pub mod json;
pub mod labels;
pub mod lama;
pub mod laws;
pub mod llama;
pub mod native;
pub mod native_laws;
pub mod nn;
pub mod number;
pub mod ops;
pub mod pair;
pub mod program;
pub mod registry;
pub mod rope;
pub mod runtime;
pub mod sd;
pub mod shapes;
pub mod support;
pub mod tables;
pub mod tensor_laws;
pub mod text;
pub mod tokenizer;
pub mod value;
pub mod vl;
pub mod weights;
