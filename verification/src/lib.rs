//! A register machine executing 32-bit word ("platter") programs: eight
//! registers, an id-addressed heap of word arrays of which array 0 is the
//! running program, and fourteen operators covering arithmetic, array
//! traffic, byte I/O effects, and wholesale self-replacement of the program.

pub mod laws;
pub mod machine;
pub mod model;
