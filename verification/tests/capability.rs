use byte_source::read::{MutSliceRead, Read, Reference, SliceRead};

/// Reads a string given as chunks, each a length byte followed by that many
/// bytes, up to a chunk of length zero; returns the assembled bytes and the
/// offset reached.
fn assemble<'de, S: Read<'de>>(source: &mut S) -> (Vec<u8>, u64) {
    source.clear_buffer();
    loop {
        match source.peek().unwrap() {
            None => break,
            Some(0) => {
                source.discard();
                break;
            }
            Some(_) => {}
        }
        let len = source.next().unwrap().unwrap();
        source.read_to_buffer(len as usize).unwrap();
    }
    let gathered = source.view_buffer().to_vec();
    (gathered, source.offset())
}

/// Reads a length byte and then that many bytes in one piece.
fn whole<'de, S: Read<'de>>(source: &mut S) -> Option<&'de [u8]> {
    let len = source.next().unwrap()?;
    match source.read_either(len as usize) {
        Ok(Reference::Borrowed(bytes)) => Some(bytes),
        _ => None,
    }
}

#[test]
fn capability_assembles_chunks_from_either_region_source() {
    let input = [2u8, 10, 11, 1, 12, 3, 13, 14, 15, 0, 99];
    let expected = vec![10u8, 11, 12, 13, 14, 15];

    let mut shared = SliceRead::new(&input);
    assert_eq!(assemble(&mut shared), (expected.clone(), 10));
    assert_eq!(shared.next().unwrap(), Some(99));

    let mut owned = input;
    let mut in_place = MutSliceRead::new(&mut owned);
    assert_eq!(assemble(&mut in_place), (expected, 10));
    assert_eq!(in_place.next().unwrap(), Some(99));
}

#[test]
fn capability_borrows_from_either_region_source() {
    let input = [3u8, 1, 2, 3, 2, 4, 5];

    let mut shared = SliceRead::new(&input);
    assert_eq!(whole(&mut shared), Some(&[1u8, 2, 3][..]));
    assert_eq!(whole(&mut shared), Some(&[4u8, 5][..]));
    assert_eq!(whole(&mut shared), None);

    let mut owned = input;
    let mut in_place = MutSliceRead::new(&mut owned);
    let first = whole(&mut in_place);
    let second = whole(&mut in_place);
    assert_eq!(first, Some(&[1u8, 2, 3][..]));
    assert_eq!(second, Some(&[4u8, 5][..]));
    assert_eq!(whole(&mut in_place), None);
}
