//! A scheduler for GPU compute dispatches.
//!
//! Tensor operations do not run when they are asked for. Each one writes its parameters
//! to a shared blob and leaves a dispatch in a queue. A flush turns the queue into command
//! buffers: it decides which dispatches share a command buffer, gives every logical buffer
//! a storage buffer from a pool, finds or makes the binding object and the compiled
//! pipeline of each dispatch, and rewrites a dispatch to run in place where that saves a
//! buffer. Everything here is data: a flush hands out plans, and carrying them out on a
//! device is left to the caller.
//!
//! The modules, from the leaves up:
//!
//! - [`dtype`], [`kernels`], [`shader`]: element types, the closed set of kernels, and the
//!   registry of their program files;
//! - [`layout`], [`meta`], [`bytes`], [`wide`]: tensor layouts, the parameter blob, words
//!   and bytes, and a counter of bytes that cannot overflow;
//! - [`queue`]: the queue of pending dispatches with its table of constant sets;
//! - [`buffer`], [`pool`], [`cache`], [`pipeline`], [`pattern`]: logical buffers, the pool
//!   of storage buffers, the caches of binding objects and of compiled programs, and the
//!   memory of earlier batches;
//! - [`liveness`], [`ceiling`]: the high-water mark of a batch and the ceiling on pooled
//!   memory that follows it;
//! - [`batch`], [`flush`], [`plan`], [`bindgroup`]: resolving one dispatch, packing the
//!   queue into windows, and what is handed to the device;
//! - [`retention`]: that a buffer keeps its storage from one dispatch that binds it to the
//!   next;
//! - [`device`], [`storage`]: the state of one device and what the tensor layer asks of it;
//! - [`copy`], [`matmul`], [`index_select`], [`upsample`]: the operations that can be
//!   queued.
pub mod batch;
pub mod bindgroup;
pub mod buffer;
pub mod bytes;
pub mod cache;
pub mod ceiling;
pub mod copy;
pub mod device;
pub mod dtype;
pub mod flush;
pub mod index_select;
pub mod kernels;
pub mod layout;
pub mod liveness;
pub mod matmul;
pub mod meta;
pub mod pattern;
pub mod pipeline;
pub mod plan;
pub mod pool;
pub mod queue;
pub mod retention;
pub mod shader;
pub mod storage;
pub mod upsample;
pub mod wide;
