use entity_gym_rs::low_level::ragged_buffer::{RaggedBuffer, RaggedError};

#[test]
fn slicing_returns_what_was_appended() {
    let rows: Vec<Vec<f32>> = vec![
        vec![1.0, 2.0, 3.0, 4.0, 5.0, 6.0],
        vec![],
        vec![7.0, 8.0, 9.0],
        vec![10.0, 11.0, 12.0, 13.0, 14.0, 15.0, 16.0, 17.0, 18.0],
    ];
    let mut buffer = RaggedBuffer::new(3);
    for row in &rows {
        buffer.push(row);
    }
    assert_eq!(buffer.len(), 4);
    assert_eq!(buffer.items(), 6);
    assert_eq!(buffer.features(), 3);
    for (i, row) in rows.iter().enumerate() {
        assert_eq!(buffer.slice(i), Ok(&row[..]));
    }
    assert_eq!(buffer.data(), &rows.concat());
    assert_eq!(buffer.subarray(0), Ok((0, 2)));
    assert_eq!(buffer.subarray(1), Ok((2, 2)));
    assert_eq!(buffer.subarray(2), Ok((2, 3)));
    assert_eq!(buffer.subarray(3), Ok((3, 6)));
}

#[test]
fn slice_beyond_the_rows_is_out_of_range() {
    let mut buffer = RaggedBuffer::new(1);
    assert_eq!(buffer.slice(0), Err(RaggedError::IndexOutOfRange));
    buffer.push(&[5i64, 6]);
    assert_eq!(buffer.slice(0), Ok(&[5i64, 6][..]));
    assert_eq!(buffer.slice(1), Err(RaggedError::IndexOutOfRange));
    assert_eq!(buffer.subarray(1), Err(RaggedError::IndexOutOfRange));
}

#[test]
fn an_empty_buffer_holds_nothing() {
    let buffer = RaggedBuffer::<bool>::new(0);
    assert_eq!(buffer.len(), 0);
    assert_eq!(buffer.items(), 0);
    assert_eq!(buffer.features(), 0);
    assert!(buffer.data().is_empty());
}

#[test]
fn ranges_are_prefix_sums_of_the_lengths() {
    let buffer = RaggedBuffer::from_lengths(vec![10i64, 11, 12, 13, 14, 15], &[2, 0, 3, 1], 1).unwrap();
    assert_eq!(buffer.len(), 4);
    assert_eq!(buffer.items(), 6);
    assert_eq!(buffer.slice(0), Ok(&[10i64, 11][..]));
    assert_eq!(buffer.slice(1), Ok(&[][..]));
    assert_eq!(buffer.slice(2), Ok(&[12i64, 13, 14][..]));
    assert_eq!(buffer.slice(3), Ok(&[15i64][..]));
    assert_eq!(buffer.subarray(2), Ok((2, 5)));
}

#[test]
fn lengths_count_items_of_the_given_width() {
    let buffer = RaggedBuffer::from_lengths(vec![1u8, 2, 3, 4, 5, 6], &[1, 2], 2).unwrap();
    assert_eq!(buffer.slice(0), Ok(&[1u8, 2][..]));
    assert_eq!(buffer.slice(1), Ok(&[3u8, 4, 5, 6][..]));
    assert_eq!(buffer.subarray(1), Ok((1, 3)));
}

#[test]
fn lengths_that_do_not_match_the_data_are_refused() {
    assert_eq!(
        RaggedBuffer::from_lengths(vec![1i64, 2, 3], &[1, 1], 1).err(),
        Some(RaggedError::LengthMismatch)
    );
    assert_eq!(
        RaggedBuffer::from_lengths(vec![1i64, 2, 3], &[2, 2], 1).err(),
        Some(RaggedError::LengthMismatch)
    );
    assert_eq!(
        RaggedBuffer::from_lengths(vec![1i64, 2, 3], &[i64::MAX, i64::MAX, 5], 1).err(),
        Some(RaggedError::LengthMismatch)
    );
    assert_eq!(
        RaggedBuffer::from_lengths(vec![1i64, 2, 3], &[3], 2).err(),
        Some(RaggedError::LengthMismatch)
    );
    assert!(RaggedBuffer::from_lengths(Vec::<i64>::new(), &[], 1).is_ok());
}

#[test]
fn a_negative_length_is_refused_first() {
    assert_eq!(
        RaggedBuffer::from_lengths(vec![1i64, 2, 3], &[4, -1], 1).err(),
        Some(RaggedError::NegativeLength)
    );
    assert_eq!(
        RaggedBuffer::from_lengths(vec![1i64], &[2, -1, 0], 1).err(),
        Some(RaggedError::NegativeLength)
    );
}
