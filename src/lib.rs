//! Translation of ONNX-style computation graphs into a typed, backend-agnostic
//! node graph, with source rendering of configuration values, shape checks for
//! tensor operations, and a small integer tensor library.
pub mod check;
pub mod codegen;
pub mod graph;
pub mod ir;
pub mod model_gen;
pub mod node;
pub mod pool;
pub mod tensor;
pub mod text;
pub mod to_burn;
pub mod ty;
