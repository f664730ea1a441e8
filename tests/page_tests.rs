use flipdot::errors::ErrorKind;
use flipdot::page::{Page, PageError, PageId};

#[test]
fn one_byte_per_column_empty() -> Result<(), PageError> {
    let page = Page::new(PageId(3), 90, 7);
    let bytes = page.as_bytes();
    let expected: &[u8] = &[
        0x03, 0x10, 0x00, 0x00, 0x00, 0x00, 0x00, 0x00, 0x00, 0x00, 0x00, 0x00, 0x00, 0x00, 0x00, 0x00,
        0x00, 0x00, 0x00, 0x00, 0x00, 0x00, 0x00, 0x00, 0x00, 0x00, 0x00, 0x00, 0x00, 0x00, 0x00, 0x00,
        0x00, 0x00, 0x00, 0x00, 0x00, 0x00, 0x00, 0x00, 0x00, 0x00, 0x00, 0x00, 0x00, 0x00, 0x00, 0x00,
        0x00, 0x00, 0x00, 0x00, 0x00, 0x00, 0x00, 0x00, 0x00, 0x00, 0x00, 0x00, 0x00, 0x00, 0x00, 0x00,
        0x00, 0x00, 0x00, 0x00, 0x00, 0x00, 0x00, 0x00, 0x00, 0x00, 0x00, 0x00, 0x00, 0x00, 0x00, 0x00,
        0x00, 0x00, 0x00, 0x00, 0x00, 0x00, 0x00, 0x00, 0x00, 0x00, 0x00, 0x00, 0x00, 0x00, 0xFF, 0xFF,
    ];
    assert_eq!(bytes, expected);

    let page2 = Page::from_bytes(90, 7, bytes.to_vec())?;
    assert_eq!(page, page2);

    Ok(())
}

#[test]
fn two_bytes_per_column_empty() -> Result<(), PageError> {
    let page = Page::new(PageId(1), 40, 12);
    let bytes = page.as_bytes();
    let expected: &[u8] = &[
        0x01, 0x10, 0x00, 0x00, 0x00, 0x00, 0x00, 0x00, 0x00, 0x00, 0x00, 0x00, 0x00, 0x00, 0x00, 0x00,
        0x00, 0x00, 0x00, 0x00, 0x00, 0x00, 0x00, 0x00, 0x00, 0x00, 0x00, 0x00, 0x00, 0x00, 0x00, 0x00,
        0x00, 0x00, 0x00, 0x00, 0x00, 0x00, 0x00, 0x00, 0x00, 0x00, 0x00, 0x00, 0x00, 0x00, 0x00, 0x00,
        0x00, 0x00, 0x00, 0x00, 0x00, 0x00, 0x00, 0x00, 0x00, 0x00, 0x00, 0x00, 0x00, 0x00, 0x00, 0x00,
        0x00, 0x00, 0x00, 0x00, 0x00, 0x00, 0x00, 0x00, 0x00, 0x00, 0x00, 0x00, 0x00, 0x00, 0x00, 0x00,
        0x00, 0x00, 0x00, 0x00, 0xFF, 0xFF, 0xFF, 0xFF, 0xFF, 0xFF, 0xFF, 0xFF, 0xFF, 0xFF, 0xFF, 0xFF,
    ];
    assert_eq!(bytes, expected);

    let page2 = Page::from_bytes(40, 12, bytes.to_vec())?;
    assert_eq!(page, page2);

    Ok(())
}

#[test]
fn one_byte_per_column_set_bits() -> Result<(), PageError> {
    let mut page = Page::new(PageId(3), 90, 7);
    page.set_pixel(0, 0, true);
    page.set_pixel(89, 5, true);
    page.set_pixel(89, 6, true);
    page.set_pixel(4, 4, true);
    page.set_pixel(4, 4, false);
    let bytes = page.as_bytes();
    let expected: &[u8] = &[
        0x03, 0x10, 0x00, 0x00, 0x01, 0x00, 0x00, 0x00, 0x00, 0x00, 0x00, 0x00, 0x00, 0x00, 0x00, 0x00,
        0x00, 0x00, 0x00, 0x00, 0x00, 0x00, 0x00, 0x00, 0x00, 0x00, 0x00, 0x00, 0x00, 0x00, 0x00, 0x00,
        0x00, 0x00, 0x00, 0x00, 0x00, 0x00, 0x00, 0x00, 0x00, 0x00, 0x00, 0x00, 0x00, 0x00, 0x00, 0x00,
        0x00, 0x00, 0x00, 0x00, 0x00, 0x00, 0x00, 0x00, 0x00, 0x00, 0x00, 0x00, 0x00, 0x00, 0x00, 0x00,
        0x00, 0x00, 0x00, 0x00, 0x00, 0x00, 0x00, 0x00, 0x00, 0x00, 0x00, 0x00, 0x00, 0x00, 0x00, 0x00,
        0x00, 0x00, 0x00, 0x00, 0x00, 0x00, 0x00, 0x00, 0x00, 0x00, 0x00, 0x00, 0x00, 0x60, 0xFF, 0xFF,
    ];
    assert_eq!(bytes, expected);

    let page2 = Page::from_bytes(90, 7, bytes.to_vec())?;
    assert_eq!(page, page2);

    Ok(())
}

#[test]
fn two_bytes_per_column_set_bits() -> Result<(), PageError> {
    let mut page = Page::new(PageId(1), 40, 12);
    page.set_pixel(0, 0, true);
    page.set_pixel(0, 11, true);
    page.set_pixel(39, 5, true);
    page.set_pixel(39, 6, true);
    page.set_pixel(39, 8, true);
    page.set_pixel(4, 4, true);
    page.set_pixel(4, 4, false);
    let bytes = page.as_bytes();
    let expected: &[u8] = &[
        0x01, 0x10, 0x00, 0x00, 0x01, 0x08, 0x00, 0x00, 0x00, 0x00, 0x00, 0x00, 0x00, 0x00, 0x00, 0x00,
        0x00, 0x00, 0x00, 0x00, 0x00, 0x00, 0x00, 0x00, 0x00, 0x00, 0x00, 0x00, 0x00, 0x00, 0x00, 0x00,
        0x00, 0x00, 0x00, 0x00, 0x00, 0x00, 0x00, 0x00, 0x00, 0x00, 0x00, 0x00, 0x00, 0x00, 0x00, 0x00,
        0x00, 0x00, 0x00, 0x00, 0x00, 0x00, 0x00, 0x00, 0x00, 0x00, 0x00, 0x00, 0x00, 0x00, 0x00, 0x00,
        0x00, 0x00, 0x00, 0x00, 0x00, 0x00, 0x00, 0x00, 0x00, 0x00, 0x00, 0x00, 0x00, 0x00, 0x00, 0x00,
        0x00, 0x00, 0x60, 0x01, 0xFF, 0xFF, 0xFF, 0xFF, 0xFF, 0xFF, 0xFF, 0xFF, 0xFF, 0xFF, 0xFF, 0xFF,
    ];
    assert_eq!(bytes, expected);

    let page2 = Page::from_bytes(40, 12, bytes.to_vec())?;
    assert_eq!(page, page2);

    Ok(())
}

#[test]
fn wrong_size_rejected() {
    let error = Page::from_bytes(90, 7, vec![0x01, 0x01, 0x03]).unwrap_err();
    assert!(matches!(
        error,
        PageError::WrongPageLength {
            expected: 96,
            actual: 3,
            ..
        }
    ));
}

#[test]
fn set_get_pixels() {
    let mut page = Page::new(PageId(1), 16, 16);

    page.set_pixel(0, 0, true);
    assert_eq!(true, page.get_pixel(0, 0));
    page.set_pixel(0, 0, false);
    assert_eq!(false, page.get_pixel(0, 0));

    page.set_pixel(13, 10, true);
    assert_eq!(true, page.get_pixel(13, 10));
    page.set_pixel(13, 10, false);
    assert_eq!(false, page.get_pixel(13, 10));
}

#[test]
fn new_page_layout() {
    let page = Page::new(PageId(9), 8, 8);
    assert_eq!(vec![9u8, 0x10, 0, 0, 0, 0, 0, 0, 0, 0, 0, 0, 0xFF, 0xFF, 0xFF, 0xFF], page.as_bytes());
    assert_eq!(PageId(9), page.id());
    assert_eq!(8, page.width());
    assert_eq!(8, page.height());
    assert_eq!(16, page.len());
}

#[test]
fn page_lengths_round_up_to_sixteen() {
    assert_eq!(16, Page::new(PageId(0), 0, 0).as_bytes().len());
    assert_eq!(16, Page::new(PageId(0), 12, 1).as_bytes().len());
    assert_eq!(32, Page::new(PageId(0), 13, 1).as_bytes().len());
    assert_eq!(96, Page::new(PageId(0), 90, 7).as_bytes().len());
    assert_eq!(48, Page::new(PageId(0), 20, 9).as_bytes().len());
}

#[test]
fn from_bytes_reads_pixels() {
    let data: Vec<u8> = vec![1, 16, 0, 0, 1, 0, 0, 0, 0, 0, 0, 0, 255, 255, 255, 255];
    let page = Page::from_bytes(8, 8, data).unwrap();
    assert_eq!(PageId(1), page.id());
    assert!(page.get_pixel(0, 0));
    assert!(!page.get_pixel(1, 0));
    let bad = Page::from_bytes(1, 8, vec![1, 0, 0, 0, 1]).unwrap_err();
    assert_eq!(ErrorKind::WrongPageLength, bad.kind());
    assert!(matches!(bad, PageError::WrongPageLength { width: 1, height: 8, expected: 16, actual: 5 }));
}

#[test]
fn setting_one_pixel_leaves_others() {
    let mut page = Page::new(PageId(1), 16, 16);
    page.set_pixel(3, 9, true);
    for x in 0..16 {
        for y in 0..16 {
            assert_eq!(x == 3 && y == 9, page.get_pixel(x, y));
        }
    }
}

#[test]
fn page_display() {
    let mut page = Page::new(PageId(1), 2, 2);
    page.set_pixel(0, 0, true);
    page.set_pixel(1, 1, true);
    let display = page.describe();
    let expected = "\
                    +--+\n\
                    |@ |\n\
                    | @|\n\
                    +--+";
    assert_eq!(expected, display);
}