//! The core of a data-processing engine: streams of tasks, pipes that
//! transform their items, and reducers that fold the items into a result over
//! a tree of workers. With it comes one source of items: the rows of the
//! access logs of a content delivery network.

pub mod cloudfront;
pub mod func;
pub mod into_par_stream;
pub mod par_pipe;
pub mod par_sink;
pub mod par_stream;
pub mod sink;
pub mod stream;
