use fulmen::byte_blob::{Blob, ByteBlobError};
use fulmen::layout::Layout;

#[test]
fn with_layout() {
    let layout = Layout::new::<u32>();
    let blob = Blob::with_layout(layout).unwrap();

    assert_eq!(false, blob.is_init());
    assert_eq!(0, blob.bytes().len());
}

#[test]
fn from_bytes() {
    let localhost: [u8; 4] = [127, 0, 0, 1];

    let blob = Blob::from_bytes(&localhost).unwrap();

    assert_eq!(true, blob.is_init());
    assert_eq!(blob.layout().size(), blob.bytes().len());
    assert_eq!(&localhost[..], blob.bytes());
}

#[test]
fn byte_blob_new() {
    let _ = Blob::new::<u32>().unwrap();
    let _ = Blob::new::<&str>().unwrap();
    assert_eq!(Some(ByteBlobError::ZeroSizedLayout), Blob::new::<()>().err());
}

#[test]
fn byte_blob_errors() {
    assert_eq!(Some(ByteBlobError::ZeroSizedLayout), Blob::from_bytes(&[]).err());
    let empty = Layout::from_size_align(0, 1).unwrap();
    assert_eq!(Some(ByteBlobError::ZeroSizedLayout), Blob::with_layout(empty).err());
}

#[test]
fn byte_blob_replace_and_mutate() {
    let mut blob = Blob::new_unchecked::<u16>();
    assert!(!blob.is_init());
    assert_eq!(0, blob.bytes_mut().len());
    blob.replace_bytes(&[1, 2]);
    assert!(blob.is_init());
    assert_eq!(&[1u8, 2][..], blob.bytes());
    blob.bytes_mut()[0] = 9;
    assert_eq!(&[9u8, 2][..], blob.bytes());
    assert_eq!(Layout::new::<u16>(), blob.layout());
}
