use fae::Buffer;
use fae::BufferUsage;
use fae::MemoryClass;
use fae::UNIFORM_BYTES;

#[test]
fn small_fill_keeps_capacity_growing_fill_resizes() {
    let mut b = Buffer::new(64, BufferUsage::Uniform, MemoryClass::CpuToGpu);
    assert_eq!(b.capacity(), 64);
    assert_eq!(b.len(), 0);
    assert_eq!(b.reallocation_count(), 0);

    let small: Vec<u8> = (0u8..32).collect();
    let resized = b.fill(&small);
    assert!(!resized);
    assert_eq!(b.capacity(), 64);
    assert_eq!(b.len(), 32);
    assert_eq!(b.bytes().as_slice(), small.as_slice());
    assert_eq!(b.reallocation_count(), 0);

    let big: Vec<u8> = (0u8..128).collect();
    let resized = b.fill(&big);
    assert!(resized);
    assert_eq!(b.capacity(), 128);
    assert_eq!(b.len(), 128);
    assert_eq!(b.bytes().as_slice(), big.as_slice());
    assert_eq!(b.reallocation_count(), 1);
}

#[test]
fn capacity_never_shrinks() {
    let mut b = Buffer::new(0, BufferUsage::Vertex, MemoryClass::GpuOnly);
    let mut last_capacity = b.capacity();
    let sizes = [10usize, 4, 64, 64, 1, 0, 128];
    for n in sizes {
        let data = vec![0xabu8; n];
        b.fill(&data);
        assert!(b.capacity() >= last_capacity);
        assert!(b.capacity() >= n);
        assert_eq!(b.bytes().as_slice(), data.as_slice());
        last_capacity = b.capacity();
    }
    assert_eq!(b.capacity(), 128);
}

#[test]
fn fill_of_exactly_the_capacity_reuses_the_allocation() {
    let mut b = Buffer::new(16, BufferUsage::Index, MemoryClass::CpuToGpu);
    let data = vec![5u8; 16];
    let resized = b.fill(&data);
    assert!(!resized);
    assert_eq!(b.capacity(), 16);
    assert_eq!(b.reallocation_count(), 0);
}

#[test]
fn needs_realloc_matches_fill() {
    let b = Buffer::new(8, BufferUsage::Instance, MemoryClass::CpuToGpu);
    assert!(!b.needs_realloc(0));
    assert!(!b.needs_realloc(8));
    assert!(b.needs_realloc(9));
}

#[test]
fn creation_parameters_are_kept() {
    let b = Buffer::new(32, BufferUsage::Uniform, MemoryClass::GpuOnly);
    assert_eq!(b.usage(), BufferUsage::Uniform);
    assert_eq!(b.memory_class(), MemoryClass::GpuOnly);
}

#[test]
fn instance_buffer_mirrors_the_registry() {
    // the registry produces the CPU-side array, the buffer mirrors it:
    // capacity grows with the instance count and never shrinks after removals
    let mut m: fae::Model<u32, u64> = fae::Model::new(Vec::new(), Vec::new());
    let mut b = Buffer::new(0, BufferUsage::Instance, MemoryClass::CpuToGpu);

    let a = m.insert_visibly(0x0102030405060708);
    let _ = m.insert_visibly(0x1112131415161718);
    let bytes: Vec<u8> = m.records().iter().flat_map(|r| r.to_le_bytes()).collect();
    assert!(b.fill(&bytes));
    assert_eq!(b.capacity(), 16);
    assert_eq!(&b.bytes()[..8], &0x0102030405060708u64.to_le_bytes());

    assert_eq!(m.remove(a), Ok(0x0102030405060708));
    let bytes: Vec<u8> = m.records().iter().flat_map(|r| r.to_le_bytes()).collect();
    assert!(!b.fill(&bytes));
    assert_eq!(b.capacity(), 16);
    assert_eq!(b.len(), 8);
    assert_eq!(&b.bytes()[..8], &0x1112131415161718u64.to_le_bytes());
}

#[test]
fn uniform_buffer_holds_two_matrices() {
    // two 4x4 matrices of 4-byte scalars
    assert_eq!(UNIFORM_BYTES, 2 * 4 * 4 * 4);
    let mut b = Buffer::new(UNIFORM_BYTES, BufferUsage::Uniform, MemoryClass::CpuToGpu);
    let camera = vec![0u8; UNIFORM_BYTES];
    let resized = b.fill(&camera);
    assert!(!resized);
    assert_eq!(b.capacity(), UNIFORM_BYTES);
}
