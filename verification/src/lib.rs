//! The logic of a streaming node for the LFM2.5 Audio models: what it takes
//! in, how a turn moves between text and audio, what each of the model graphs
//! is given and what is made of its output.
//!
//! Running the graphs, the Fourier transforms and the arithmetic on samples
//! are left to the caller. A [`turn::Turn`] says what it waits for, the caller
//! does it and hands the result back; the samples themselves are carried
//! without being looked at, or by their bit patterns where they are compared.

pub mod bundle;
pub mod cache;
pub mod codes;
pub mod config;
pub mod control;
pub mod depthformer;
pub mod device;
pub mod embedding;
pub mod error;
pub mod frontend;
pub mod json;
pub mod node;
pub mod prefix;
pub mod prompt;
pub mod sampling;
pub mod scalar;
pub mod soundness;
pub mod spectral;
pub mod store;
pub mod text;
pub mod tokenizer;
pub mod tokenizer_file;
pub mod turn;
pub mod warmup;
