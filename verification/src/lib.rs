//! A durable, append-only command log, and what grew up around it.
//!
//! The log is a data stream of raw payload bytes and a parallel index stream
//! of record sizes (`index`), over streams that can be files or memory
//! (`file`). `storage` holds the log, the recovery that makes the two
//! streams agree when it is opened, and the writer that commits every command
//! at once; `batch` holds the writer that commits in batches; `log_storage`
//! holds the log with one writer at a time. `model` and `server_model` are
//! the state that the logged commands act on.
//!
//! The other modules stand by themselves: a collector over a memory of
//! words (`marknspenser`, with its counts in `stat` and the map of memory in
//! `stack`), expressions and their grammar (`ast`, `parser`), a tape machine
//! (`nickbrain`), sketches of streams of hashes (`minhash`, `simhash`,
//! `bench_indirect`), a persistent tree (`fun`), a tree mirrored in place
//! (`swap_tree`), a pool of interned strings (`pool`), a string with its
//! code units (`pyutf8str`) and the state of a watched file
//! (`file_watcher`).

pub mod index;
pub mod file;
pub mod storage;
pub mod batch;
pub mod log_storage;
pub mod model;
pub mod server_model;
pub mod marknspenser;
pub mod stat;
pub mod stack;
pub mod ast;
pub mod parser;
pub mod nickbrain;
pub mod minhash;
pub mod simhash;
pub mod bench_indirect;
pub mod fun;
pub mod swap_tree;
pub mod pool;
pub mod pyutf8str;
pub mod file_watcher;
