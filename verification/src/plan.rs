//! What a flush hands to the device: command buffers as plain data.
use vstd::prelude::*;
use crate::queue::BindgroupId;
use crate::queue::CachedBufferId;
use crate::queue::PipelineId;

verus! {

/// One dispatch of a command buffer.
#[derive(Clone, Copy, Debug, PartialEq, Eq, Hash, Structural)]
pub struct DispatchCommand {
    /// The compiled pipeline to set.
    pub pipeline: PipelineId,
    /// The binding object to set.
    pub bindgroup: BindgroupId,
    /// Where the dispatch's parameters begin in the parameter buffer, in bytes.
    pub dynamic_offset: u32,
    /// The workgroup counts.
    pub x: u32,
    pub y: u32,
    pub z: u32,
}

/// One command buffer: a window of the queue.
#[derive(Debug)]
pub struct CommandBufferPlan {
    /// The place in the queue of the window's first dispatch.
    pub start: usize,
    /// The place in the queue behind the window's last dispatch.
    pub end: usize,
    /// The bytes to write to the front of the parameter buffer.
    pub meta: Vec<u8>,
    /// The dispatches of the one compute pass, in order.
    pub dispatches: Vec<DispatchCommand>,
    /// How many storage buffers the pool has counted when the window is resolved: the
    /// device needs every one with a number below.
    pub storage_count: usize,
    /// How many binding objects the cache has counted when the window is resolved.
    pub bindgroup_count: usize,
    /// How many pipelines the cache has counted when the window is resolved.
    pub pipeline_count: usize,
    /// How many shader modules the cache has counted when the window is resolved.
    pub shader_count: usize,
    /// Whether the window was closed because the cache of binding objects reported
    /// pressure.
    pub closed_by_cache: bool,
}

/// What one flush hands to the device.
#[derive(Debug)]
pub struct FlushPlan {
    /// The command buffers, to be submitted in this order.
    pub command_buffers: Vec<CommandBufferPlan>,
    /// The binding objects that may be destroyed once the command buffers are submitted.
    pub dropped_bindgroups: Vec<BindgroupId>,
    /// The storage buffers that may be destroyed once the command buffers are submitted.
    pub dropped_buffers: Vec<CachedBufferId>,
}

} // verus!
