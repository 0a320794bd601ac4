use media_io::IoSliceMut;

#[test]
fn io_slice_wraps_a_buffer() {
    let mut data = [1u8, 2, 3];
    {
        let mut slice = IoSliceMut::new(&mut data);
        assert_eq!(slice.len(), 3);
        assert!(!slice.is_empty());
        slice.as_mut_slice()[1] = 9;
        assert_eq!(slice.as_mut_slice(), &[1, 9, 3]);
    }
    assert_eq!(data, [1, 9, 3]);
}

#[test]
fn default_io_slice_is_empty() {
    let mut slice = IoSliceMut::default();
    assert_eq!(slice.len(), 0);
    assert!(slice.is_empty());
    assert!(slice.as_mut_slice().is_empty());
}
