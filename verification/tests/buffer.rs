use pathtracer::image::ImageBuffer;

#[test]
fn fresh_buffer_is_filled() {
    let img: ImageBuffer<u32> = ImageBuffer::new(3, 2, 9);
    assert_eq!(img.width(), 3);
    assert_eq!(img.height(), 2);
    assert_eq!(*img.pixel(0, 0), 9);
    assert_eq!(*img.pixel(2, 1), 9);
    assert_eq!(img.into_pixels(), vec![9, 9, 9, 9, 9, 9]);
}

#[test]
fn write_row_touches_only_its_row() {
    let mut img: ImageBuffer<u32> = ImageBuffer::new(3, 2, 0);
    let row: Vec<u32> = vec![7, 8, 9];
    img.write_row(1, &row);
    assert_eq!(*img.pixel(0, 0), 0);
    assert_eq!(*img.pixel(1, 0), 0);
    assert_eq!(*img.pixel(2, 0), 0);
    assert_eq!(*img.pixel(0, 1), 7);
    assert_eq!(*img.pixel(1, 1), 8);
    assert_eq!(*img.pixel(2, 1), 9);
}

#[test]
fn merge_order_does_not_change_pixels() {
    let top: Vec<u32> = vec![1, 2];
    let bottom: Vec<u32> = vec![3, 4];

    let mut first: ImageBuffer<u32> = ImageBuffer::new(2, 2, 0);
    first.write_row(0, &top);
    first.write_row(1, &bottom);

    let mut second: ImageBuffer<u32> = ImageBuffer::new(2, 2, 0);
    second.write_row(1, &bottom);
    second.write_row(0, &top);

    assert_eq!(first.into_pixels(), second.into_pixels());
}

#[test]
fn rewriting_a_row_keeps_the_last_contents() {
    let mut img: ImageBuffer<u32> = ImageBuffer::new(2, 1, 0);
    let once: Vec<u32> = vec![5, 6];
    let again: Vec<u32> = vec![11, 12];
    img.write_row(0, &once);
    img.write_row(0, &again);
    assert_eq!(img.into_pixels(), vec![11, 12]);
}
