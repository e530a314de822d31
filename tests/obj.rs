use star_render::{face_vertex_index, FaceIndexError};

#[test]
fn face_reference_is_one_based() {
    assert_eq!(face_vertex_index(b"1"), Ok(0));
    assert_eq!(face_vertex_index(b"12"), Ok(11));
    assert_eq!(face_vertex_index(b"+7"), Ok(6));
    assert_eq!(face_vertex_index(b"007"), Ok(6));
}

#[test]
fn face_reference_errors() {
    assert_eq!(face_vertex_index(b""), Err(FaceIndexError::Empty));
    assert_eq!(face_vertex_index(b"+"), Err(FaceIndexError::InvalidDigit));
    assert_eq!(face_vertex_index(b"-3"), Err(FaceIndexError::InvalidDigit));
    assert_eq!(face_vertex_index(b"4a"), Err(FaceIndexError::InvalidDigit));
    assert_eq!(face_vertex_index(b" 4"), Err(FaceIndexError::InvalidDigit));
    assert_eq!(face_vertex_index(b"0"), Err(FaceIndexError::Zero));
    assert_eq!(face_vertex_index(b"+000"), Err(FaceIndexError::Zero));
}

#[test]
fn face_reference_overflow() {
    let max = usize::MAX.to_string();
    assert_eq!(face_vertex_index(max.as_bytes()), Ok(usize::MAX - 1));
    let too_big = format!("{}0", max);
    assert_eq!(face_vertex_index(too_big.as_bytes()), Err(FaceIndexError::Overflow));
    assert_eq!(
        face_vertex_index(b"99999999999999999999999999999999"),
        Err(FaceIndexError::Overflow)
    );
}

#[test]
fn face_reference_agrees_with_std_on_numbers() {
    for s in ["1", "2", "10", "+3", "123456", "0042"] {
        assert_eq!(face_vertex_index(s.as_bytes()), Ok(s.parse::<usize>().unwrap() - 1));
    }
}
