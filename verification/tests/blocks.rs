use dyn_struct::block::initialize;
use dyn_struct::{DynStruct, LayoutPlan};

#[test]
fn initialize_places_header_and_elements() {
    let plan = LayoutPlan::compute(3, 1, 4, 4, 2).unwrap();
    assert_eq!(plan.trailing_offset, 4);
    assert_eq!(plan.total_size, 12);
    let mut block = [0xAAu8; 12];
    initialize(&mut block, &plan, &[1, 2, 3], &[10, 11, 12, 13, 20, 21, 22, 23]);
    assert_eq!(block, [1, 2, 3, 0xAA, 10, 11, 12, 13, 20, 21, 22, 23]);
}

#[test]
fn initialize_leaves_the_padding_alone() {
    let plan = LayoutPlan::compute(9, 8, 8, 8, 1).unwrap();
    assert_eq!(plan.trailing_offset, 16);
    let mut block: Vec<u8> = (100..124).collect();
    let header = [1u8; 9];
    let elements = [2u8; 8];
    initialize(&mut block, &plan, &header, &elements);
    assert_eq!(&block[..9], &header);
    assert_eq!(&block[9..16], &[109, 110, 111, 112, 113, 114, 115]);
    assert_eq!(&block[16..], &elements);
}

#[test]
fn initialize_without_padding() {
    let plan = LayoutPlan::compute(4, 4, 2, 2, 3).unwrap();
    let mut block = [0u8; 10];
    initialize(&mut block, &plan, &[1, 2, 3, 4], &[5, 6, 7, 8, 9, 10]);
    assert_eq!(block, [1, 2, 3, 4, 5, 6, 7, 8, 9, 10]);
}

#[test]
fn initialize_without_elements() {
    let plan = LayoutPlan::compute(2, 2, 4, 4, 0).unwrap();
    assert_eq!(plan.total_size, 4);
    let mut block = [7u8; 4];
    initialize(&mut block, &plan, &[1, 2], &[]);
    assert_eq!(block, [1, 2, 7, 7]);
}

#[test]
fn initialize_without_header() {
    let plan = LayoutPlan::compute(0, 1, 1, 1, 3).unwrap();
    let mut block = [0u8; 3];
    initialize(&mut block, &plan, &[], &[4, 5, 6]);
    assert_eq!(block, [4, 5, 6]);
}

#[test]
fn initialize_an_empty_block() {
    let plan = LayoutPlan::compute(0, 1, 0, 1, 5).unwrap();
    assert!(!plan.needs_block());
    let mut block: [u8; 0] = [];
    initialize(&mut block, &plan, &[], &[]);
    assert_eq!(block, []);
}

#[test]
fn initialize_does_not_change_its_sources() {
    let plan = LayoutPlan::compute(1, 1, 2, 2, 2).unwrap();
    let header = vec![9u8];
    let elements = vec![1u8, 2, 3, 4];
    let mut block = vec![0u8; plan.total_size];
    initialize(&mut block, &plan, &header, &elements);
    assert_eq!(header, [9]);
    assert_eq!(elements, [1, 2, 3, 4]);
    assert_eq!(block, [9, 0, 1, 2, 3, 4]);
}

#[test]
fn initialize_keeps_the_order_of_the_elements() {
    let plan = DynStruct::<u16, u32>::layout(100).unwrap();
    let header = 0xBEEFu16.to_ne_bytes();
    let values: Vec<u32> = (0..100).map(|i| i * i + 7).collect();
    let elements: Vec<u8> = values.iter().flat_map(|v| v.to_ne_bytes()).collect();
    let mut block = vec![0u8; plan.total_size];
    initialize(&mut block, &plan, &header, &elements);
    assert_eq!(u16::from_ne_bytes([block[0], block[1]]), 0xBEEF);
    for (i, value) in values.iter().enumerate() {
        let at = plan.trailing_offset + 4 * i;
        let read = u32::from_ne_bytes([block[at], block[at + 1], block[at + 2], block[at + 3]]);
        assert_eq!(read, *value);
    }
}

#[test]
fn initialize_copies_bytes_that_are_no_numbers() {
    let plan = LayoutPlan::compute(1, 1, 1, 1, 2).unwrap();
    let mut block = [None, None, None];
    initialize(&mut block, &plan, &[Some('h')], &[Some('a'), None]);
    assert_eq!(block, [Some('h'), Some('a'), None]);
}
