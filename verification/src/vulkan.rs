//! Numbers of the Vulkan API that the layer's decisions speak of.
//!
//! Handles are the 64-bit raw values of Vulkan's non-dispatchable and dispatchable handles, and
//! flag words and enumerants are their raw integers, so that nothing has to be translated when a
//! decision is carried out.

use vstd::prelude::*;

verus! {

/// The null handle.
pub const NULL_HANDLE: u64 = 0;

/// `VkImageLayout` values.
pub const LAYOUT_UNDEFINED: i32 = 0;

pub const LAYOUT_GENERAL: i32 = 1;

pub const LAYOUT_TRANSFER_SRC: i32 = 6;

pub const LAYOUT_TRANSFER_DST: i32 = 7;

pub const LAYOUT_PRESENT_SRC: i32 = 1000001002;

/// `VkAccessFlags` bits.
pub const ACCESS_NONE: u32 = 0;

pub const ACCESS_SHADER_READ: u32 = 0x20;

pub const ACCESS_SHADER_WRITE: u32 = 0x40;

/// `ACCESS_SHADER_READ | ACCESS_SHADER_WRITE`.
pub const ACCESS_SHADER_READ_WRITE: u32 = 0x60;

pub const ACCESS_TRANSFER_READ: u32 = 0x800;

pub const ACCESS_TRANSFER_WRITE: u32 = 0x1000;

/// `VkPipelineStageFlags` bits.
pub const STAGE_TOP_OF_PIPE: u32 = 0x1;

pub const STAGE_COMPUTE_SHADER: u32 = 0x800;

pub const STAGE_TRANSFER: u32 = 0x1000;

/// `STAGE_TRANSFER | STAGE_COMPUTE_SHADER`.
pub const STAGE_TRANSFER_COMPUTE: u32 = 0x1800;

pub const STAGE_ALL_COMMANDS: u32 = 0x10000;

/// `VK_WHOLE_SIZE`.
pub const WHOLE_SIZE: u64 = 0xffff_ffff_ffff_ffff;

/// `VkMemoryPropertyFlags` bits.
pub const MEMORY_DEVICE_LOCAL: u32 = 0x1;

pub const MEMORY_HOST_VISIBLE: u32 = 0x2;

pub const MEMORY_HOST_COHERENT: u32 = 0x4;

pub const MEMORY_HOST_CACHED: u32 = 0x8;

/// `MEMORY_HOST_VISIBLE | MEMORY_HOST_COHERENT`.
pub const MEMORY_HOST_SHARED: u32 = 0x6;

/// `MEMORY_HOST_VISIBLE | MEMORY_HOST_COHERENT | MEMORY_HOST_CACHED`.
pub const MEMORY_HOST_READBACK: u32 = 0xe;

/// `VkImageUsageFlags` bits.
pub const IMAGE_USAGE_TRANSFER_SRC: u32 = 0x1;

pub const IMAGE_USAGE_TRANSFER_DST: u32 = 0x2;

pub const IMAGE_USAGE_STORAGE: u32 = 0x8;

/// A `VkImageCreateFlags` bit.
pub const IMAGE_CREATE_MUTABLE_FORMAT: u32 = 0x8;

/// `VkFormatFeatureFlags` bits.
pub const FORMAT_FEATURE_STORAGE_IMAGE: u32 = 0x2;

/// `VkFormat` values.
pub const FORMAT_R8G8B8A8_UNORM: i32 = 37;

pub const FORMAT_B8G8R8A8_UNORM: i32 = 44;

/// `VkResult` values.
pub const RESULT_SUCCESS: i32 = 0;

pub const RESULT_ERROR_DEVICE_LOST: i32 = -4;

/// The numbers are those of the Vulkan headers.
pub proof fn the_numbers_are_vulkans()
    ensures
        NULL_HANDLE == 0,
        LAYOUT_UNDEFINED == 0 && LAYOUT_GENERAL == 1 && LAYOUT_TRANSFER_SRC == 6 && LAYOUT_TRANSFER_DST == 7,
        LAYOUT_PRESENT_SRC == 1000001002,
        ACCESS_NONE == 0 && ACCESS_SHADER_READ == 32 && ACCESS_SHADER_WRITE == 64,
        ACCESS_SHADER_READ_WRITE == ACCESS_SHADER_READ + ACCESS_SHADER_WRITE,
        ACCESS_TRANSFER_READ == 2048 && ACCESS_TRANSFER_WRITE == 4096,
        STAGE_TOP_OF_PIPE == 1 && STAGE_COMPUTE_SHADER == 2048 && STAGE_TRANSFER == 4096,
        STAGE_TRANSFER_COMPUTE == STAGE_TRANSFER + STAGE_COMPUTE_SHADER,
        STAGE_ALL_COMMANDS == 65536,
        WHOLE_SIZE == u64::MAX,
        MEMORY_DEVICE_LOCAL == 1 && MEMORY_HOST_VISIBLE == 2 && MEMORY_HOST_COHERENT == 4 && MEMORY_HOST_CACHED == 8,
        MEMORY_HOST_SHARED == MEMORY_HOST_VISIBLE + MEMORY_HOST_COHERENT,
        MEMORY_HOST_READBACK == MEMORY_HOST_SHARED + MEMORY_HOST_CACHED,
        IMAGE_USAGE_TRANSFER_SRC == 1 && IMAGE_USAGE_TRANSFER_DST == 2 && IMAGE_USAGE_STORAGE == 8,
        IMAGE_CREATE_MUTABLE_FORMAT == 8,
        FORMAT_FEATURE_STORAGE_IMAGE == 2,
        FORMAT_R8G8B8A8_UNORM == 37 && FORMAT_B8G8R8A8_UNORM == 44,
        RESULT_SUCCESS == 0 && RESULT_ERROR_DEVICE_LOST == -4,
{
}

} // verus!
