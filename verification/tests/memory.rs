use rust8::memory::copy_bytes;

#[test]
fn copy_into_the_middle() {
    let mut target = [0u8; 8];
    copy_bytes(&mut target, 2, &[1, 2, 3, 4, 5], 1, 3);
    assert_eq!(target, [0, 0, 2, 3, 4, 0, 0, 0]);
}

#[test]
fn copy_up_to_the_last_byte() {
    let mut target = [9u8; 4];
    copy_bytes(&mut target, 1, &[7, 8, 6], 0, 3);
    assert_eq!(target, [9, 7, 8, 6]);
}

#[test]
fn copy_of_nothing_changes_nothing() {
    let mut target = [9u8; 4];
    copy_bytes(&mut target, 4, &[1, 2, 3], 3, 0);
    assert_eq!(target, [9u8; 4]);
    copy_bytes(&mut target, 0, &[], 0, 0);
    assert_eq!(target, [9u8; 4]);
}

#[test]
fn copy_of_a_whole_array() {
    let mut target = [0u8; 16];
    let source: Vec<u8> = (100..116).collect();
    copy_bytes(&mut target, 0, &source, 0, 16);
    assert_eq!(&target[..], &source[..]);
}
