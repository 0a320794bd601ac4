use media_io::SeekFrom;

#[test]
fn seek_from_to_std_and_back() {
    for pos in [SeekFrom::Start(7), SeekFrom::End(-3), SeekFrom::Current(i64::MIN)] {
        let std_pos = std::io::SeekFrom::from(pos);
        assert_eq!(SeekFrom::from(std_pos), pos);
    }
    assert_eq!(std::io::SeekFrom::from(SeekFrom::Start(u64::MAX)), std::io::SeekFrom::Start(u64::MAX));
    assert_eq!(std::io::SeekFrom::from(SeekFrom::End(-3)), std::io::SeekFrom::End(-3));
    assert_eq!(std::io::SeekFrom::from(SeekFrom::Current(4)), std::io::SeekFrom::Current(4));
    assert_eq!(SeekFrom::from(std::io::SeekFrom::Start(7)), SeekFrom::Start(7));
    assert_eq!(SeekFrom::from(std::io::SeekFrom::End(8)), SeekFrom::End(8));
    assert_eq!(SeekFrom::from(std::io::SeekFrom::Current(-9)), SeekFrom::Current(-9));
}

#[test]
fn seek_from_to_embedded() {
    assert_eq!(embedded_io::SeekFrom::from(SeekFrom::Start(7)), embedded_io::SeekFrom::Start(7));
    assert_eq!(embedded_io::SeekFrom::from(SeekFrom::End(-3)), embedded_io::SeekFrom::End(-3));
    assert_eq!(embedded_io::SeekFrom::from(SeekFrom::Current(4)), embedded_io::SeekFrom::Current(4));
}
