//! The Vulkan flag tests and version numbers that the selection rules use. The
//! flag and version words are plain integers here; their arithmetic is ash's.

use vstd::prelude::*;

verus! {

// Queue capabilities.
pub const QUEUE_GRAPHICS: u32 = 0x1;

pub const QUEUE_COMPUTE: u32 = 0x2;

// Memory properties.
pub const MEMORY_DEVICE_LOCAL: u32 = 0x1;

pub const MEMORY_HOST_VISIBLE: u32 = 0x2;

pub const MEMORY_HOST_COHERENT: u32 = 0x4;

// Heap properties.
pub const HEAP_DEVICE_LOCAL: u32 = 0x1;

// Kinds of physical device.
pub const DEVICE_TYPE_INTEGRATED_GPU: i32 = 1;

pub const DEVICE_TYPE_DISCRETE_GPU: i32 = 2;

/// Whether every bit of `wanted` is set in `flags`.
pub open spec fn has_bits(flags: u32, wanted: u32) -> bool {
    flags & wanted == wanted
}

/// `ash::vk::QueueFlags::contains`: whether the queue flags `wanted` are all
/// among `flags`.
#[verifier::external_body]
pub(crate) fn queue_flags_contain(flags: u32, wanted: u32) -> (yes: bool)
    ensures
        yes == has_bits(flags, wanted),
{
    ash::vk::QueueFlags::from_raw(flags).contains(ash::vk::QueueFlags::from_raw(wanted))
}

/// `ash::vk::MemoryPropertyFlags::contains`: whether the memory properties
/// `wanted` are all among `flags`.
#[verifier::external_body]
pub(crate) fn memory_flags_contain(flags: u32, wanted: u32) -> (yes: bool)
    ensures
        yes == has_bits(flags, wanted),
{
    ash::vk::MemoryPropertyFlags::from_raw(flags).contains(
        ash::vk::MemoryPropertyFlags::from_raw(wanted),
    )
}

/// `ash::vk::MemoryHeapFlags::contains`: whether the heap properties `wanted`
/// are all among `flags`.
#[verifier::external_body]
pub(crate) fn heap_flags_contain(flags: u32, wanted: u32) -> (yes: bool)
    ensures
        yes == has_bits(flags, wanted),
{
    ash::vk::MemoryHeapFlags::from_raw(flags).contains(ash::vk::MemoryHeapFlags::from_raw(wanted))
}

/// `ash::vk::make_api_version` packs a version: the variant in the three
/// highest bits, then seven bits of major, ten of minor and twelve of patch.
pub assume_specification[ ash::vk::make_api_version ](
    variant: u32,
    major: u32,
    minor: u32,
    patch: u32,
) -> (version: u32)
    ensures
        version == (variant << 29u32) | (major << 22u32) | (minor << 12u32) | patch,
;

/// `ash::vk::api_version_major` reads the seven bits of the major number.
pub assume_specification[ ash::vk::api_version_major ](version: u32) -> (major: u32)
    ensures
        major == (version >> 22u32) & 0x7F,
;

/// `ash::vk::api_version_minor` reads the ten bits of the minor number.
pub assume_specification[ ash::vk::api_version_minor ](version: u32) -> (minor: u32)
    ensures
        minor == (version >> 12u32) & 0x3FF,
;

/// `ash::vk::api_version_patch` reads the twelve bits of the patch number.
pub assume_specification[ ash::vk::api_version_patch ](version: u32) -> (patch: u32)
    ensures
        patch == version & 0xFFF,
;

/// The fields of a packed version word: major, minor and patch.
pub open spec fn version_fields(version: u32) -> (int, int, int) {
    (
        (version as int / 0x40_0000) % 0x80,
        (version as int / 0x1000) % 0x400,
        version as int % 0x1000,
    )
}

/// A packed version as its major, minor and patch numbers.
pub fn api_version_parts(version: u32) -> (parts: (u32, u32, u32))
    ensures
        parts.0 == version_fields(version).0,
        parts.1 == version_fields(version).1,
        parts.2 == version_fields(version).2,
{
    proof {
        assert((version >> 22u32) & 0x7F == (version / 0x40_0000) % 0x80) by (bit_vector);
        assert((version >> 12u32) & 0x3FF == (version / 0x1000) % 0x400) by (bit_vector);
        assert(version & 0xFFF == version % 0x1000) by (bit_vector);
    }
    (
        ash::vk::api_version_major(version),
        ash::vk::api_version_minor(version),
        ash::vk::api_version_patch(version),
    )
}

/// The packed form of a plain version `major.minor.patch`.
pub fn api_version(major: u32, minor: u32, patch: u32) -> (version: u32)
    requires
        major < 0x80,
        minor < 0x400,
        patch < 0x1000,
    ensures
        version == major * 0x40_0000 + minor * 0x1000 + patch,
{
    proof {
        assert((0u32 << 29u32) | (major << 22u32) | (minor << 12u32) | patch == major * 0x40_0000
            + minor * 0x1000 + patch) by (bit_vector)
            requires
                major < 0x80,
                minor < 0x400,
                patch < 0x1000,
        ;
    }
    ash::vk::make_api_version(0, major, minor, patch)
}

/// A version reads back as the numbers it was packed from.
pub proof fn law_version_round_trip(major: u32, minor: u32, patch: u32, version: u32)
    requires
        major < 0x80,
        minor < 0x400,
        patch < 0x1000,
        version == major * 0x40_0000 + minor * 0x1000 + patch,
    ensures
        version_fields(version) == (major as int, minor as int, patch as int),
{
    let v = version as int;
    assert(v / 0x1000 == major * 0x400 + minor && v % 0x1000 == patch) by (nonlinear_arith)
        requires
            v == (major * 0x400 + minor) * 0x1000 + patch,
            0 <= patch < 0x1000,
    ;
    assert(v / 0x40_0000 == major) by (nonlinear_arith)
        requires
            v == major * 0x40_0000 + minor * 0x1000 + patch,
            0 <= patch < 0x1000,
            0 <= minor < 0x400,
    ;
}

} // verus!
