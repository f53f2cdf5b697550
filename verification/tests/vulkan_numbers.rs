use ash::vk;
use quantum_atom_viz::gpu;
use quantum_atom_viz::numbers as n;
use quantum_atom_viz::swapchain as s;

#[test]
fn layouts() {
    assert_eq!(n::LAYOUT_UNDEFINED, vk::ImageLayout::UNDEFINED.as_raw());
    assert_eq!(n::LAYOUT_GENERAL, vk::ImageLayout::GENERAL.as_raw());
    assert_eq!(n::LAYOUT_COLOR_ATTACHMENT, vk::ImageLayout::COLOR_ATTACHMENT_OPTIMAL.as_raw());
    assert_eq!(n::LAYOUT_SHADER_READ_ONLY, vk::ImageLayout::SHADER_READ_ONLY_OPTIMAL.as_raw());
    assert_eq!(n::LAYOUT_TRANSFER_DST, vk::ImageLayout::TRANSFER_DST_OPTIMAL.as_raw());
    assert_eq!(n::LAYOUT_PRESENT_SRC, vk::ImageLayout::PRESENT_SRC_KHR.as_raw());
}

#[test]
fn accesses() {
    assert_eq!(n::ACCESS_NONE, vk::AccessFlags::empty().as_raw());
    assert_eq!(n::ACCESS_SHADER_READ, vk::AccessFlags::SHADER_READ.as_raw());
    assert_eq!(n::ACCESS_SHADER_WRITE, vk::AccessFlags::SHADER_WRITE.as_raw());
    assert_eq!(
        n::ACCESS_COLOR_ATTACHMENT_WRITE,
        vk::AccessFlags::COLOR_ATTACHMENT_WRITE.as_raw()
    );
    assert_eq!(n::ACCESS_TRANSFER_WRITE, vk::AccessFlags::TRANSFER_WRITE.as_raw());
}

#[test]
fn stages() {
    assert_eq!(n::STAGE_TOP_OF_PIPE, vk::PipelineStageFlags::TOP_OF_PIPE.as_raw());
    assert_eq!(n::STAGE_VERTEX_SHADER, vk::PipelineStageFlags::VERTEX_SHADER.as_raw());
    assert_eq!(n::STAGE_FRAGMENT_SHADER, vk::PipelineStageFlags::FRAGMENT_SHADER.as_raw());
    assert_eq!(
        n::STAGE_COLOR_ATTACHMENT_OUTPUT,
        vk::PipelineStageFlags::COLOR_ATTACHMENT_OUTPUT.as_raw()
    );
    assert_eq!(n::STAGE_COMPUTE_SHADER, vk::PipelineStageFlags::COMPUTE_SHADER.as_raw());
    assert_eq!(
        n::STAGE_FRAGMENT_AND_COMPUTE,
        (vk::PipelineStageFlags::FRAGMENT_SHADER | vk::PipelineStageFlags::COMPUTE_SHADER).as_raw()
    );
    assert_eq!(n::STAGE_TRANSFER, vk::PipelineStageFlags::TRANSFER.as_raw());
    assert_eq!(n::STAGE_BOTTOM_OF_PIPE, vk::PipelineStageFlags::BOTTOM_OF_PIPE.as_raw());
    assert_eq!(n::FAMILY_IGNORED, vk::QUEUE_FAMILY_IGNORED);
}

#[test]
fn descriptors_and_shaders() {
    assert_eq!(
        n::DESCRIPTOR_COMBINED_IMAGE_SAMPLER,
        vk::DescriptorType::COMBINED_IMAGE_SAMPLER.as_raw()
    );
    assert_eq!(n::DESCRIPTOR_STORAGE_IMAGE, vk::DescriptorType::STORAGE_IMAGE.as_raw());
    assert_eq!(n::DESCRIPTOR_UNIFORM_BUFFER, vk::DescriptorType::UNIFORM_BUFFER.as_raw());
    assert_eq!(n::DESCRIPTOR_STORAGE_BUFFER, vk::DescriptorType::STORAGE_BUFFER.as_raw());
    assert_eq!(n::SHADER_VERTEX, vk::ShaderStageFlags::VERTEX.as_raw());
    assert_eq!(n::SHADER_FRAGMENT, vk::ShaderStageFlags::FRAGMENT.as_raw());
    assert_eq!(
        n::SHADER_VERTEX_AND_FRAGMENT,
        (vk::ShaderStageFlags::VERTEX | vk::ShaderStageFlags::FRAGMENT).as_raw()
    );
    assert_eq!(n::SHADER_COMPUTE, vk::ShaderStageFlags::COMPUTE.as_raw());
    assert_eq!(n::BIND_GRAPHICS, vk::PipelineBindPoint::GRAPHICS.as_raw());
    assert_eq!(n::BIND_COMPUTE, vk::PipelineBindPoint::COMPUTE.as_raw());
}

#[test]
fn buffers_and_images() {
    assert_eq!(n::BUFFER_TRANSFER_SRC, vk::BufferUsageFlags::TRANSFER_SRC.as_raw());
    assert_eq!(n::BUFFER_TRANSFER_DST, vk::BufferUsageFlags::TRANSFER_DST.as_raw());
    assert_eq!(n::BUFFER_UNIFORM, vk::BufferUsageFlags::UNIFORM_BUFFER.as_raw());
    assert_eq!(n::BUFFER_STORAGE, vk::BufferUsageFlags::STORAGE_BUFFER.as_raw());
    assert_eq!(n::BUFFER_INDEX, vk::BufferUsageFlags::INDEX_BUFFER.as_raw());
    assert_eq!(n::BUFFER_VERTEX, vk::BufferUsageFlags::VERTEX_BUFFER.as_raw());
    assert_eq!(n::WHOLE_SIZE, vk::WHOLE_SIZE);
    assert_eq!(n::IMAGE_TRANSFER_DST, vk::ImageUsageFlags::TRANSFER_DST.as_raw());
    assert_eq!(n::IMAGE_SAMPLED, vk::ImageUsageFlags::SAMPLED.as_raw());
    assert_eq!(n::IMAGE_STORAGE, vk::ImageUsageFlags::STORAGE.as_raw());
    assert_eq!(n::IMAGE_2D, vk::ImageType::TYPE_2D.as_raw());
    assert_eq!(n::IMAGE_3D, vk::ImageType::TYPE_3D.as_raw());
    assert_eq!(n::IMAGE_2D, vk::ImageViewType::TYPE_2D.as_raw());
    assert_eq!(n::IMAGE_3D, vk::ImageViewType::TYPE_3D.as_raw());
}

#[test]
fn formats_and_sampling() {
    assert_eq!(n::FORMAT_R8_UNORM, vk::Format::R8_UNORM.as_raw());
    assert_eq!(n::FORMAT_R32_SFLOAT, vk::Format::R32_SFLOAT.as_raw());
    assert_eq!(n::FORMAT_R32G32_SFLOAT, vk::Format::R32G32_SFLOAT.as_raw());
    assert_eq!(n::FORMAT_R32G32B32_SFLOAT, vk::Format::R32G32B32_SFLOAT.as_raw());
    assert_eq!(n::FILTER_NEAREST, vk::Filter::NEAREST.as_raw());
    assert_eq!(n::FILTER_LINEAR, vk::Filter::LINEAR.as_raw());
    assert_eq!(n::FILTER_NEAREST, vk::SamplerMipmapMode::NEAREST.as_raw());
    assert_eq!(n::FILTER_LINEAR, vk::SamplerMipmapMode::LINEAR.as_raw());
    assert_eq!(n::ADDRESS_CLAMP_TO_EDGE, vk::SamplerAddressMode::CLAMP_TO_EDGE.as_raw());
    assert_eq!(n::BORDER_OPAQUE_BLACK, vk::BorderColor::FLOAT_OPAQUE_BLACK.as_raw());
}

#[test]
fn rasterization_and_blending() {
    assert_eq!(n::TOPOLOGY_TRIANGLE_LIST, vk::PrimitiveTopology::TRIANGLE_LIST.as_raw());
    assert_eq!(n::POLYGON_FILL, vk::PolygonMode::FILL.as_raw());
    assert_eq!(n::POLYGON_LINE, vk::PolygonMode::LINE.as_raw());
    assert_eq!(n::BLEND_ONE, vk::BlendFactor::ONE.as_raw());
    assert_eq!(n::BLEND_SRC_ALPHA, vk::BlendFactor::SRC_ALPHA.as_raw());
    assert_eq!(n::BLEND_ONE_MINUS_SRC_ALPHA, vk::BlendFactor::ONE_MINUS_SRC_ALPHA.as_raw());
    assert_eq!(n::BLEND_OP_ADD, vk::BlendOp::ADD.as_raw());
    assert_eq!(n::CULL_NONE, vk::CullModeFlags::NONE.as_raw());
    assert_eq!(n::FRONT_COUNTER_CLOCKWISE, vk::FrontFace::COUNTER_CLOCKWISE.as_raw());
    assert_eq!(n::SAMPLES_ONE, vk::SampleCountFlags::TYPE_1.as_raw());
    assert_eq!(n::COMPONENTS_RGBA, vk::ColorComponentFlags::RGBA.as_raw());
    assert_eq!(n::INPUT_RATE_VERTEX, vk::VertexInputRate::VERTEX.as_raw());
    assert_eq!(n::DYNAMIC_VIEWPORT, vk::DynamicState::VIEWPORT.as_raw());
    assert_eq!(n::DYNAMIC_SCISSOR, vk::DynamicState::SCISSOR.as_raw());
    assert_eq!(n::LOAD_CLEAR, vk::AttachmentLoadOp::CLEAR.as_raw());
    assert_eq!(n::STORE_STORE, vk::AttachmentStoreOp::STORE.as_raw());
}

#[test]
fn adapters_and_memory() {
    assert_eq!(gpu::QUEUE_GRAPHICS, vk::QueueFlags::GRAPHICS.as_raw());
    assert_eq!(gpu::QUEUE_COMPUTE, vk::QueueFlags::COMPUTE.as_raw());
    assert_eq!(gpu::MEMORY_DEVICE_LOCAL, vk::MemoryPropertyFlags::DEVICE_LOCAL.as_raw());
    assert_eq!(gpu::MEMORY_HOST_VISIBLE, vk::MemoryPropertyFlags::HOST_VISIBLE.as_raw());
    assert_eq!(gpu::MEMORY_HOST_COHERENT, vk::MemoryPropertyFlags::HOST_COHERENT.as_raw());
    assert_eq!(gpu::HEAP_DEVICE_LOCAL, vk::MemoryHeapFlags::DEVICE_LOCAL.as_raw());
    assert_eq!(
        gpu::DEVICE_TYPE_INTEGRATED_GPU,
        vk::PhysicalDeviceType::INTEGRATED_GPU.as_raw()
    );
    assert_eq!(gpu::DEVICE_TYPE_DISCRETE_GPU, vk::PhysicalDeviceType::DISCRETE_GPU.as_raw());
}

#[test]
fn surfaces() {
    assert_eq!(s::FORMAT_B8G8R8A8_SRGB, vk::Format::B8G8R8A8_SRGB.as_raw());
    assert_eq!(s::COLOR_SPACE_SRGB_NONLINEAR, vk::ColorSpaceKHR::SRGB_NONLINEAR.as_raw());
    assert_eq!(s::PRESENT_MODE_MAILBOX, vk::PresentModeKHR::MAILBOX.as_raw());
    assert_eq!(s::PRESENT_MODE_FIFO, vk::PresentModeKHR::FIFO.as_raw());
    assert_eq!(
        s::IMAGE_USAGE_COLOR_ATTACHMENT,
        vk::ImageUsageFlags::COLOR_ATTACHMENT.as_raw()
    );
    assert_eq!(s::COMPOSITE_ALPHA_OPAQUE, vk::CompositeAlphaFlagsKHR::OPAQUE.as_raw());
}
