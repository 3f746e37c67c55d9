use byte_source::error::ErrorCode;
use byte_source::read::{Read, Reference, SliceRead};

fn borrowed<'a>(r: byte_source::error::Result<Reference<'a>>) -> &'a [u8] {
    match r {
        Ok(Reference::Borrowed(bytes)) => bytes,
        Ok(Reference::Copied) => panic!("expected a borrowed view, got a copy"),
        Err(e) => panic!("expected a borrowed view, got a failure at {}", e.offset),
    }
}

#[test]
fn slice_borrows_two_of_three_without_copying() {
    let data = [0xAAu8, 0xBB, 0xCC];
    let mut source = SliceRead::new(&data);
    let view = borrowed(source.read_either(2));
    assert_eq!(view, &[0xAAu8, 0xBB][..]);
    assert_eq!(view.as_ptr(), data.as_ptr());
    assert_eq!(source.offset(), 2);
    assert!(source.view_buffer().is_empty());
}

#[test]
fn slice_request_past_the_end_reports_the_length() {
    let data = [0xAAu8, 0xBB, 0xCC];
    let mut source = SliceRead::new(&data);
    match source.read_either(5) {
        Err(e) => {
            assert!(e.is_eof());
            assert!(!e.is_io());
            assert!(matches!(e.code, ErrorCode::EofWhileParsingValue));
            assert_eq!(e.offset, 3);
            assert_eq!(e.offset(), 3);
        }
        Ok(_) => panic!("five bytes cannot be had from three"),
    }
    assert_eq!(source.offset(), 0);
}

#[test]
fn slice_peek_then_next_yields_the_same_byte() {
    let data = [7u8, 8, 9];
    let mut source = SliceRead::new(&data);
    let before = source.offset();
    let shown = source.peek().unwrap();
    assert_eq!(shown, Some(7));
    assert_eq!(source.offset(), before);
    let taken = source.next().unwrap();
    assert_eq!(taken, shown);
    assert_eq!(source.offset(), before + 1);
}

#[test]
fn slice_peek_then_discard_skips_the_byte() {
    let data = [7u8, 8, 9];
    let mut source = SliceRead::new(&data);
    assert_eq!(source.peek().unwrap(), Some(7));
    source.discard();
    assert_eq!(source.offset(), 1);
    assert_eq!(source.next().unwrap(), Some(8));
}

#[test]
fn slice_next_runs_to_the_end_and_stays_there() {
    let data = [1u8, 2];
    let mut source = SliceRead::new(&data);
    assert_eq!(source.next().unwrap(), Some(1));
    assert_eq!(source.next().unwrap(), Some(2));
    assert_eq!(source.next().unwrap(), None);
    assert_eq!(source.peek().unwrap(), None);
    assert_eq!(source.next().unwrap(), None);
    assert_eq!(source.offset(), 2);
}

#[test]
fn slice_empty_region() {
    let data: [u8; 0] = [];
    let mut source = SliceRead::new(&data);
    assert_eq!(source.peek().unwrap(), None);
    assert_eq!(source.next().unwrap(), None);
    assert_eq!(source.offset(), 0);
    assert_eq!(borrowed(source.read_either(0)), &[][..] as &[u8]);
    assert!(source.read_to_buffer(0).is_ok());
    match source.read_either(1) {
        Err(e) => {
            assert!(e.is_eof());
            assert_eq!(e.offset, 0);
        }
        Ok(_) => panic!("nothing can be had from an empty region"),
    }
}

#[test]
fn slice_discard_moves_on_even_past_the_end() {
    let data = [1u8];
    let mut source = SliceRead::new(&data);
    source.discard();
    assert_eq!(source.offset(), 1);
    source.discard();
    assert_eq!(source.offset(), 2);
    assert_eq!(source.next().unwrap(), None);
    match source.read_either(0) {
        Err(e) => {
            assert!(e.is_eof());
            assert_eq!(e.offset, 1);
        }
        Ok(_) => panic!("the cursor is past the end"),
    }
}

#[test]
fn slice_borrow_of_everything_that_remains() {
    let data = [1u8, 2, 3, 4];
    let mut source = SliceRead::new(&data);
    assert_eq!(source.next().unwrap(), Some(1));
    assert_eq!(borrowed(source.read_either(3)), &[2u8, 3, 4][..]);
    assert_eq!(source.offset(), 4);
    assert_eq!(borrowed(source.read_either(0)).len(), 0);
    assert_eq!(source.next().unwrap(), None);
}

#[test]
fn slice_borrow_repeats_without_copying() {
    let data = [1u8, 2, 3, 4, 5];
    let mut source = SliceRead::new(&data);
    let first = borrowed(source.read_either(2));
    let second = borrowed(source.read_either(3));
    assert_eq!(first, &[1u8, 2][..]);
    assert_eq!(second, &[3u8, 4, 5][..]);
    assert_eq!(second.as_ptr(), data[2..].as_ptr());
    assert!(source.view_buffer().is_empty());
}

#[test]
fn slice_huge_request_fails_without_moving() {
    let data = [1u8, 2, 3];
    let mut source = SliceRead::new(&data);
    assert_eq!(source.next().unwrap(), Some(1));
    match source.read_either(usize::MAX) {
        Err(e) => {
            assert!(e.is_eof());
            assert_eq!(e.offset, 3);
        }
        Ok(_) => panic!("the request wraps the address space"),
    }
    assert!(source.read_to_buffer(usize::MAX).is_err());
    assert_eq!(source.offset(), 1);
    assert_eq!(source.next().unwrap(), Some(2));
}

#[test]
fn slice_gathers_fragments_in_its_buffer() {
    let data = [0x10u8, 1, 2, 0x20, 3, 4, 5, 0xFF];
    let mut source = SliceRead::new(&data);
    source.clear_buffer();
    assert_eq!(source.next().unwrap(), Some(0x10));
    source.read_to_buffer(2).unwrap();
    assert_eq!(source.view_buffer(), &[1u8, 2][..]);
    assert_eq!(source.next().unwrap(), Some(0x20));
    source.read_to_buffer(3).unwrap();
    assert_eq!(source.view_buffer(), &[1u8, 2, 3, 4, 5][..]);
    assert_eq!(source.offset(), 7);
    source.clear_buffer();
    assert!(source.view_buffer().is_empty());
    assert_eq!(source.offset(), 7);
    assert_eq!(source.next().unwrap(), Some(0xFF));
}

#[test]
fn slice_failed_gather_leaves_buffer_and_cursor() {
    let data = [1u8, 2, 3];
    let mut source = SliceRead::new(&data);
    source.read_to_buffer(2).unwrap();
    match source.read_to_buffer(2) {
        Err(e) => {
            assert!(e.is_eof());
            assert_eq!(e.offset, 3);
        }
        Ok(()) => panic!("only one byte remains"),
    }
    assert_eq!(source.view_buffer(), &[1u8, 2][..]);
    assert_eq!(source.offset(), 2);
    assert_eq!(source.next().unwrap(), Some(3));
}

#[test]
fn slice_read_into_fills_exactly() {
    let data = [9u8, 8, 7, 6, 5];
    let mut source = SliceRead::new(&data);
    assert_eq!(source.next().unwrap(), Some(9));
    let mut buf = [0u8; 3];
    source.read_into(&mut buf).unwrap();
    assert_eq!(buf, [8, 7, 6]);
    assert_eq!(source.offset(), 4);
    assert!(source.view_buffer().is_empty());
    let mut none: [u8; 0] = [];
    source.read_into(&mut none).unwrap();
    assert_eq!(source.offset(), 4);
}

#[test]
fn slice_read_into_past_the_end_changes_nothing() {
    let data = [9u8, 8];
    let mut source = SliceRead::new(&data);
    let mut buf = [0xEEu8; 3];
    match source.read_into(&mut buf) {
        Err(e) => {
            assert!(e.is_eof());
            assert_eq!(e.offset, 2);
        }
        Ok(()) => panic!("three bytes cannot be had from two"),
    }
    assert_eq!(buf, [0xEE, 0xEE, 0xEE]);
    assert_eq!(source.offset(), 0);
    assert_eq!(source.next().unwrap(), Some(9));
}

#[test]
fn slice_offset_never_falls() {
    let data = [1u8, 2, 3, 4, 5, 6];
    let mut source = SliceRead::new(&data);
    let mut last = source.offset();
    let mut steps = 0;
    while steps < 12 {
        match steps % 6 {
            0 => {
                let _ = source.peek();
            }
            1 => {
                let _ = source.next();
            }
            2 => {
                let _ = source.read_either(1);
            }
            3 => source.clear_buffer(),
            4 => {
                let _ = source.read_to_buffer(1);
            }
            _ => {
                let _ = source.read_either(100);
            }
        }
        let now = source.offset();
        assert!(now >= last);
        last = now;
        steps += 1;
    }
}
