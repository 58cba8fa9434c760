use m64prs::vidext::copy_truncated;

#[test]
fn copy_fits_entirely() {
    let src = [1, 2, 3];
    let mut dst = [0; 5];
    assert_eq!(copy_truncated(&src, &mut dst), 3);
    assert_eq!(dst, [1, 2, 3, 0, 0]);
}

#[test]
fn copy_is_truncated_to_capacity() {
    let src = [(640, 480), (800, 600), (1024, 768)];
    let mut dst = [(0, 0); 2];
    assert_eq!(copy_truncated(&src, &mut dst), 2);
    assert_eq!(dst, [(640, 480), (800, 600)]);
}

#[test]
fn copy_same_length() {
    let src = [60, 75];
    let mut dst = [9, 9];
    assert_eq!(copy_truncated(&src, &mut dst), 2);
    assert_eq!(dst, [60, 75]);
}

#[test]
fn copy_into_empty_buffer() {
    let src = [1, 2];
    let mut dst: [i32; 0] = [];
    assert_eq!(copy_truncated(&src, &mut dst), 0);
}

#[test]
fn copy_from_empty_list() {
    let src: [i32; 0] = [];
    let mut dst = [5, 6];
    assert_eq!(copy_truncated(&src, &mut dst), 0);
    assert_eq!(dst, [5, 6]);
}
