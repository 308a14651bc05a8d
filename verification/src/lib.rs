//! Two small CPU-bound kernels with verified contracts: the doubly
//! recursive Fibonacci function and the textbook product of square integer
//! matrices.

pub mod fib;
pub mod matrix;
