use wgpu_bindings::binder::{Binder, BoundGroup};
use wgpu_bindings::command::{
    append_range_u32, append_range_u8, append_zeros, extend_u32, extend_u8, overwrite_u32,
    same_u32, BinderError,
};
use wgpu_bindings::compute::make_word;
use wgpu_bindings::id::{Backend, Id};
use wgpu_bindings::replay::compute_validation_params;
use wgpu_bindings::resource::{BindGroupInfo, PipelineLayout};

fn id(index: u32) -> Id {
    Id::zip(index, 1, Backend::Vulkan)
}

fn group(index: u32, layout: u32) -> BoundGroup {
    BoundGroup {
        info: BindGroupInfo { id: id(index), device: id(0), layout: id(layout), dynamic_count: 0 },
        used_start: 0,
        used_len: 0,
        offsets_start: 0,
        offsets_len: 0,
    }
}

fn pipeline_layout(index: u32, layouts: &[u32]) -> PipelineLayout {
    let mut group_layouts = [id(0); 8];
    for (slot, layout) in layouts.iter().enumerate() {
        group_layouts[slot] = id(*layout);
    }
    PipelineLayout {
        id: id(index),
        device: id(0),
        group_count: layouts.len(),
        group_layouts,
        push_constant_size: 0,
    }
}

#[test]
fn binder_tells_only_the_slots_that_a_change_reaches() {
    let mut b = Binder::new();
    assert_eq!(b.pipeline_layout, None);
    // Nothing is expected: everything that is bound is fine, and the
    // slots from the new one on are told.
    assert_eq!(b.assign_group(1, group(11, 21)), (1, 8));
    assert_eq!(b.check_compatibility(), Ok(()));
    // The pipeline expects layouts at three slots; the first slot has no
    // group, so nothing can be told.
    assert_eq!(b.change_pipeline_layout(&pipeline_layout(5, &[20, 21, 22])), (0, 0));
    assert_eq!(b.pipeline_layout, Some(id(5)));
    assert_eq!(b.check_compatibility(), Err(BinderError::MissingBindGroup { index: 0 }));
    // With the first slot bound, the first two are told; the third waits.
    assert_eq!(b.assign_group(0, group(10, 20)), (0, 2));
    assert_eq!(b.check_compatibility(), Err(BinderError::MissingBindGroup { index: 2 }));
    // A group of another layout than is expected.
    assert_eq!(b.assign_group(2, group(12, 29)), (2, 2));
    assert_eq!(
        b.check_compatibility(),
        Err(BinderError::IncompatibleBindGroup { index: 2, expected: id(22), assigned: id(29) })
    );
    assert_eq!(b.assign_group(2, group(13, 22)), (2, 8));
    assert_eq!(b.check_compatibility(), Ok(()));
    // The same layouts again: nothing changed, nothing is told.
    assert_eq!(b.change_pipeline_layout(&pipeline_layout(6, &[20, 21, 22])), (3, 8));
    assert_eq!(b.pipeline_layout, Some(id(6)));
    // A layout that differs from the second slot on: the first slot stays.
    assert_eq!(b.change_pipeline_layout(&pipeline_layout(7, &[20, 31, 22])), (1, 1));
    assert_eq!(
        b.check_compatibility(),
        Err(BinderError::IncompatibleBindGroup { index: 1, expected: id(31), assigned: id(21) })
    );
    assert_eq!(b.assign_group(1, group(14, 31)), (1, 8));
    assert_eq!(b.check_compatibility(), Ok(()));
    // A pipeline with fewer slots expects nothing of the others.
    assert_eq!(b.change_pipeline_layout(&pipeline_layout(8, &[20])), (1, 8));
    assert_eq!(b.check_compatibility(), Ok(()));
    assert_eq!(b.entries[1].expected, None);
    assert_eq!(b.entries[1].assigned.unwrap().info.id, id(14));
}

#[test]
fn binding_for_the_check_of_indirect_arguments() {
    // The buffer is bound from the multiple of the alignment below the
    // arguments on.
    let p = compute_validation_params(256, 300, 4096);
    assert_eq!((p.aligned_offset, p.offset_remainder), (256, 44));
    let p = compute_validation_params(256, 0, 4096);
    assert_eq!((p.aligned_offset, p.offset_remainder), (0, 0));
    let p = compute_validation_params(256, 512, 4096);
    assert_eq!((p.aligned_offset, p.offset_remainder), (512, 0));
    // Near the end the binding starts earlier, so that it stays within
    // the buffer: it has twice the alignment and the odd bytes.
    let p = compute_validation_params(256, 4000, 4100);
    assert_eq!((p.aligned_offset, p.offset_remainder), (3584, 416));
    let p = compute_validation_params(256, 4084, 4096);
    assert_eq!((p.aligned_offset, p.offset_remainder), (3584, 500));
    // A buffer that is smaller than the binding is bound whole.
    let p = compute_validation_params(256, 100, 112);
    assert_eq!((p.aligned_offset, p.offset_remainder), (0, 100));
    let p = compute_validation_params(16, 20, 32);
    assert_eq!((p.aligned_offset, p.offset_remainder), (0, 20));
}

#[test]
fn words_are_made_of_bytes_lowest_first() {
    assert_eq!(make_word(0x78, 0x56, 0x34, 0x12), 0x1234_5678);
    assert_eq!(make_word(0, 0, 0, 0), 0);
    assert_eq!(make_word(0xff, 0xff, 0xff, 0xff), u32::MAX);
    assert_eq!(make_word(1, 0, 0, 0), 1);
    assert_eq!(make_word(0, 0, 0, 1), 1 << 24);
}

#[test]
fn tables_are_appended_to_and_written_over() {
    let mut words = vec![1u32, 2];
    extend_u32(&mut words, &[3, 4]);
    assert_eq!(words, vec![1, 2, 3, 4]);
    extend_u32(&mut words, &[]);
    assert_eq!(words, vec![1, 2, 3, 4]);
    let mut bytes = vec![9u8];
    extend_u8(&mut bytes, b"ab");
    assert_eq!(bytes, vec![9, b'a', b'b']);
    let mut part = vec![0u32];
    append_range_u32(&mut part, &words, 1, 2);
    assert_eq!(part, vec![0, 2, 3]);
    append_range_u32(&mut part, &words, 4, 0);
    assert_eq!(part, vec![0, 2, 3]);
    let mut text = Vec::new();
    append_range_u8(&mut text, &bytes, 1, 2);
    assert_eq!(text, b"ab".to_vec());
    let mut target = vec![10u32, 11, 12, 13, 14];
    overwrite_u32(&mut target, 1, &words, 2, 2);
    assert_eq!(target, vec![10, 3, 4, 13, 14]);
    overwrite_u32(&mut target, 5, &words, 0, 0);
    assert_eq!(target, vec![10, 3, 4, 13, 14]);
    append_zeros(&mut target, 2);
    assert_eq!(target, vec![10, 3, 4, 13, 14, 0, 0]);
    append_zeros(&mut target, 0);
    assert_eq!(target.len(), 7);
    assert!(same_u32(&words, &[1, 2, 3, 4]));
    assert!(!same_u32(&words, &[1, 2, 3]));
    assert!(!same_u32(&words, &[1, 2, 3, 5]));
    assert!(same_u32(&Vec::new(), &[]));
}
