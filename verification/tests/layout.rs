use fulmen::layout::{array_layout, layout_repeat, Layout};

#[allow(unused)]
struct TestStruct(usize, u8, u8);

#[allow(unused)]
struct Small(pub u32);

fn check_repeat(layout: Layout) {
    let (array_layout, offset) = layout_repeat(&layout, 4).unwrap();
    assert_eq!(layout.size(), offset);
    assert_eq!(array_layout.size() / 4, layout.size());
}

#[test]
fn util_test_array_layout() {
    check_repeat(Layout::new::<u8>());
    check_repeat(Layout::new::<Small>());
    check_repeat(Layout::new::<Vec<Small>>());
    check_repeat(Layout::new::<()>());
}

#[test]
fn unsafe_blob_test_array_layout() {
    let layout = Layout::new::<TestStruct>();
    let (array_layout, offset) = layout_repeat(&layout, 4).unwrap();
    assert_eq!(layout.size(), offset);
    assert_eq!(array_layout.size() / 4, layout.size());
}

#[test]
fn layout_repeat_pads_and_overflows() {
    let layout = Layout::from_size_align(5, 4).unwrap();
    let (arr, offset) = layout_repeat(&layout, 3).unwrap();
    assert_eq!(8, offset);
    assert_eq!(24, arr.size());
    assert_eq!(4, arr.align());
    assert_eq!(None, layout_repeat(&layout, usize::MAX));
    assert_eq!(8, layout.pad_to_align().size());
}

#[test]
fn layout_from_size_align_checks() {
    assert!(Layout::from_size_align(8, 3).is_none());
    assert!(Layout::from_size_align(8, 0).is_none());
    assert!(Layout::from_size_align(usize::MAX, 8).is_none());
    let l = Layout::from_size_align(12, 4).unwrap();
    assert_eq!(12, l.size());
    assert_eq!(4, l.align());
}

#[test]
fn array_layout_multiplies() {
    let l = Layout::new::<u32>();
    let arr = array_layout(&l, 10).unwrap();
    assert_eq!(40, arr.size());
    assert_eq!(4, arr.align());
    assert_eq!(None, array_layout(&l, usize::MAX));
}

#[test]
fn array_layout_respects_isize_limit() {
    let byte = Layout::new::<u8>();
    let arr = array_layout(&byte, isize::MAX as usize).unwrap();
    assert_eq!(isize::MAX as usize, arr.size());
    assert_eq!(None, array_layout(&byte, isize::MAX as usize + 1));
    let pair = Layout::from_size_align(2, 2).unwrap();
    assert_eq!(None, layout_repeat(&pair, isize::MAX as usize / 2 + 1));
    let (arr, offset) = layout_repeat(&pair, isize::MAX as usize / 2).unwrap();
    assert_eq!(2, offset);
    assert_eq!(isize::MAX as usize - 1, arr.size());
}
