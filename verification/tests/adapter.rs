use quantum_atom_viz::device::{
    adapter_caps, device_queues, find_memory_type, pick_physical_device, vendor_name, Adapter,
    MemoryHeap, QueueFamily,
};
use quantum_atom_viz::gpu::{
    api_version, api_version_parts, DEVICE_TYPE_DISCRETE_GPU, DEVICE_TYPE_INTEGRATED_GPU,
    HEAP_DEVICE_LOCAL, MEMORY_DEVICE_LOCAL, MEMORY_HOST_COHERENT, MEMORY_HOST_VISIBLE,
    QUEUE_COMPUTE, QUEUE_GRAPHICS,
};
use quantum_atom_viz::shader::shader_words;
use quantum_atom_viz::swapchain::{
    create_swapchain, Extent, SurfaceFormat, SurfaceLimits, COLOR_SPACE_SRGB_NONLINEAR,
    COMPOSITE_ALPHA_OPAQUE, FORMAT_B8G8R8A8_SRGB, IMAGE_USAGE_COLOR_ATTACHMENT, PRESENT_MODE_FIFO,
    PRESENT_MODE_MAILBOX,
};

const GC: u32 = QUEUE_GRAPHICS | QUEUE_COMPUTE;

fn family(flags: u32, presents: bool) -> QueueFamily {
    QueueFamily { flags, presents }
}

fn adapter(device_type: i32, families: Vec<QueueFamily>) -> Adapter {
    Adapter {
        vendor_id: 0x1002,
        device_id: 7,
        device_name: "Card".to_string(),
        driver_version: 11,
        api_version: 13,
        device_type,
        subgroup_size: 64,
        families,
        heaps: vec![
            MemoryHeap { size: 9 << 30, flags: 0 },
            MemoryHeap { size: (3 << 20) + 5, flags: HEAP_DEVICE_LOCAL },
            MemoryHeap { size: 2 << 20, flags: HEAP_DEVICE_LOCAL | 2 },
        ],
    }
}

#[test]
fn vendors_by_number() {
    assert_eq!(vendor_name(0x10DE), "NVIDIA");
    assert_eq!(vendor_name(0x1002), "AMD");
    assert_eq!(vendor_name(0x8086), "Intel");
    assert_eq!(vendor_name(0x13B5), "ARM");
    assert_eq!(vendor_name(0x5143), "Qualcomm");
    assert_eq!(vendor_name(0x1010), "ImgTec");
    assert_eq!(vendor_name(0x106B), "Apple");
    assert_eq!(vendor_name(0), "Unknown");
}

#[test]
fn caps_of_an_adapter() {
    let a = adapter(
        DEVICE_TYPE_DISCRETE_GPU,
        vec![family(GC, false), family(GC, true), family(GC, true), family(QUEUE_COMPUTE, false)],
    );
    let caps = adapter_caps(&a).unwrap();
    assert_eq!(caps.graphics_family, 1);
    assert_eq!(device_queues(&caps), vec![1, 3]);
    assert_eq!(caps.async_compute_family, Some(3));
    assert_eq!(caps.device_memory_mb, 3);
    assert_eq!(caps.device_name, "Card");
    assert_eq!(caps.vendor_str(), "AMD");
    assert!(caps.has_async_compute());
    assert_eq!((caps.vendor_id, caps.device_id), (0x1002, 7));
    assert_eq!((caps.driver_version, caps.api_version), (11, 13));
    assert_eq!((caps.subgroup_size, caps.device_type), (64, DEVICE_TYPE_DISCRETE_GPU));
}

#[test]
fn any_other_compute_family_will_do() {
    let a = adapter(1, vec![family(GC, true), family(QUEUE_GRAPHICS, true), family(GC, false)]);
    assert_eq!(adapter_caps(&a).unwrap().async_compute_family, Some(2));
    let a = adapter(1, vec![family(QUEUE_GRAPHICS, true), family(GC, true)]);
    let caps = adapter_caps(&a).unwrap();
    assert_eq!(caps.async_compute_family, None);
    assert_eq!(device_queues(&caps), vec![1]);
    assert!(!caps.has_async_compute());
}

#[test]
fn unusable_adapters() {
    assert!(adapter_caps(&adapter(2, vec![])).is_none());
    assert!(adapter_caps(&adapter(2, vec![family(GC, false)])).is_none());
    assert!(adapter_caps(&adapter(2, vec![family(QUEUE_GRAPHICS, true)])).is_none());
    assert!(pick_physical_device(&vec![]).is_none());
    assert!(pick_physical_device(&vec![adapter(2, vec![])]).is_none());
}

#[test]
fn discrete_before_integrated_before_the_rest() {
    let ok = || vec![family(GC, true)];
    let all = vec![
        adapter(3, ok()),
        adapter(DEVICE_TYPE_INTEGRATED_GPU, ok()),
        adapter(DEVICE_TYPE_DISCRETE_GPU, vec![]),
        adapter(DEVICE_TYPE_DISCRETE_GPU, ok()),
        adapter(DEVICE_TYPE_DISCRETE_GPU, ok()),
    ];
    let (k, caps) = pick_physical_device(&all).unwrap();
    assert_eq!(k, 3);
    assert_eq!(caps.device_type, DEVICE_TYPE_DISCRETE_GPU);
    let all = vec![adapter(0, ok()), adapter(DEVICE_TYPE_INTEGRATED_GPU, ok())];
    assert_eq!(pick_physical_device(&all).unwrap().0, 1);
    let all = vec![adapter(0, ok()), adapter(4, ok())];
    assert_eq!(pick_physical_device(&all).unwrap().0, 0);
}

#[test]
fn first_memory_type_that_fits() {
    let host = MEMORY_HOST_VISIBLE | MEMORY_HOST_COHERENT;
    let types = vec![MEMORY_DEVICE_LOCAL, MEMORY_HOST_VISIBLE, host | 8, host];
    assert_eq!(find_memory_type(&types, 0b1111, host), Some(2));
    assert_eq!(find_memory_type(&types, 0b1000, host), Some(3));
    assert_eq!(find_memory_type(&types, 0b1111, MEMORY_DEVICE_LOCAL), Some(0));
    assert_eq!(find_memory_type(&types, 0b1110, MEMORY_DEVICE_LOCAL), None);
    assert_eq!(find_memory_type(&types, 0, 0), None);
    assert_eq!(find_memory_type(&vec![0; 32], 0x8000_0000, 0), Some(31));
}

#[test]
fn versions_pack_and_unpack() {
    let v = api_version(1, 2, 0);
    assert_eq!(v, ash::vk::API_VERSION_1_2);
    assert_eq!(api_version_parts(v), (1, 2, 0));
    assert_eq!(api_version_parts(api_version(127, 1023, 4095)), (127, 1023, 4095));
    assert_eq!(api_version(1, 3, 281), (1 << 22) | (3 << 12) | 281);
    assert_eq!(api_version_parts(u32::MAX), (127, 1023, 4095));
}

fn limits() -> SurfaceLimits {
    SurfaceLimits {
        min_image_count: 2,
        max_image_count: 8,
        current_extent: Extent { width: 640, height: 480 },
        min_image_extent: Extent { width: 100, height: 100 },
        max_image_extent: Extent { width: 1000, height: 1000 },
        current_transform: 1,
    }
}

const SRGB: SurfaceFormat =
    SurfaceFormat { format: FORMAT_B8G8R8A8_SRGB, color_space: COLOR_SPACE_SRGB_NONLINEAR };

#[test]
fn swapchain_of_an_ordinary_surface() {
    let other = SurfaceFormat { format: 44, color_space: 0 };
    let plan = create_swapchain(&limits(), &vec![other, SRGB], &vec![2, 1, 0], 1280, 720);
    assert_eq!(plan.format, SRGB);
    assert_eq!(plan.present_mode, PRESENT_MODE_MAILBOX);
    assert_eq!(plan.extent, Extent { width: 640, height: 480 });
    assert_eq!(plan.min_image_count, 3);
    assert_eq!((plan.image_array_layers, plan.clipped, plan.pre_transform), (1, true, 1));
    assert_eq!(plan.image_usage, IMAGE_USAGE_COLOR_ATTACHMENT);
    assert_eq!(plan.composite_alpha, COMPOSITE_ALPHA_OPAQUE);
}

#[test]
fn swapchain_falls_back() {
    let first = SurfaceFormat { format: FORMAT_B8G8R8A8_SRGB, color_space: 5 };
    let second = SurfaceFormat { format: 44, color_space: 0 };
    let plan = create_swapchain(&limits(), &vec![first, second], &vec![2, 0], 1, 1);
    assert_eq!(plan.format, first);
    assert_eq!(plan.present_mode, PRESENT_MODE_FIFO);
    assert_eq!(create_swapchain(&limits(), &vec![second], &vec![], 1, 1).present_mode, 2);
}

#[test]
fn swapchain_within_the_limits() {
    let mut l = limits();
    l.current_extent.width = u32::MAX;
    let size = |w, h| create_swapchain(&l, &vec![SRGB], &vec![2], w, h).extent;
    assert_eq!(size(1280, 720), Extent { width: 1000, height: 720 });
    assert_eq!(size(99, 100), Extent { width: 100, height: 100 });
    assert_eq!(size(0, u32::MAX), Extent { width: 100, height: 1000 });
}

#[test]
fn swapchain_image_counts() {
    let count = |min, max| {
        let mut l = limits();
        l.min_image_count = min;
        l.max_image_count = max;
        create_swapchain(&l, &vec![SRGB], &vec![2], 1, 1).min_image_count
    };
    assert_eq!(count(2, 0), 3);
    assert_eq!(count(2, 2), 2);
    assert_eq!(count(2, 3), 3);
    assert_eq!(count(1, 16), 2);
}

#[test]
fn shader_words_are_little_endian() {
    assert_eq!(shader_words(&[]), Vec::<u32>::new());
    assert_eq!(shader_words(&[0x03, 0x02, 0x23, 0x07]), vec![0x0723_0203]);
    assert_eq!(shader_words(&[0xFF, 0, 0, 0, 1, 2, 3, 0xFF]), vec![0xFF, 0xFF03_0201]);
}

#[test]
fn shader_words_keep_every_byte() {
    let bytes: Vec<u8> = (0..=255).collect();
    let back: Vec<u8> = shader_words(&bytes).iter().flat_map(|w| w.to_le_bytes()).collect();
    assert_eq!(back, bytes);
}
