use led_curtain::color::Rgb;
use led_curtain::serial::{
    column_frame, column_packet, encode_frame, image_frames, LedImage, Link, LinkAction,
};

fn image(width: usize, height: usize) -> LedImage {
    let pixels = (0..width * height)
        .map(|k| Rgb { r: (k * 3) as u8, g: (k * 3 + 1) as u8, b: (k * 3 + 2) as u8 })
        .collect();
    LedImage::new(width, height, pixels).unwrap()
}

#[test]
fn image_needs_one_pixel_per_place() {
    assert!(LedImage::new(2, 2, vec![Rgb::black(); 4]).is_some());
    assert!(LedImage::new(2, 2, vec![Rgb::black(); 3]).is_none());
    assert!(LedImage::new(0, 5, vec![]).is_some());
    assert!(LedImage::new(usize::MAX, 2, vec![]).is_none());
    let img = image(3, 2);
    assert_eq!(img.pixel(1, 1), Rgb { r: 12, g: 13, b: 14 });
}

#[test]
fn packet_is_column_number_then_green_red_blue() {
    let img = image(2, 3);
    // column 1 holds pixels 1, 3 and 5
    assert_eq!(column_packet(&img, 1), vec![1, 4, 3, 5, 10, 9, 11, 16, 15, 17]);
    assert_eq!(column_packet(&img, 0), vec![0, 1, 0, 2, 7, 6, 8, 13, 12, 14]);
}

#[test]
fn packet_of_an_image_without_rows() {
    let img = LedImage::new(3, 0, vec![]).unwrap();
    assert_eq!(column_packet(&img, 2), vec![2]);
}

#[test]
fn column_number_is_cut_to_a_byte() {
    let img = LedImage::new(300, 1, vec![Rgb { r: 1, g: 2, b: 3 }; 300]).unwrap();
    assert_eq!(column_packet(&img, 255), vec![255, 2, 1, 3]);
    assert_eq!(column_packet(&img, 256), vec![0, 2, 1, 3]);
    assert_eq!(column_packet(&img, 299), vec![43, 2, 1, 3]);
}

#[test]
fn frame_is_stuffed_and_closed_by_zero() {
    let frame = encode_frame(&vec![0x11, 0x22, 0x00, 0x33]);
    assert_eq!(frame, vec![0x03, 0x11, 0x22, 0x02, 0x33, 0x00]);
    let frame = encode_frame(&vec![]);
    assert_eq!(frame, vec![0x01, 0x00]);
    let frame = encode_frame(&vec![0x00]);
    assert_eq!(frame, vec![0x01, 0x01, 0x00]);
}

#[test]
fn frame_round_trips_through_the_decoder() {
    // the first column of a dark picture is all zeros
    let mut pixels = vec![Rgb::black(); 6];
    pixels[2] = Rgb { r: 0, g: 200, b: 0 };
    pixels[4] = Rgb { r: 7, g: 0, b: 255 };
    let img = LedImage::new(2, 3, pixels).unwrap();
    let packet = column_packet(&img, 0);
    assert_eq!(packet, vec![0, 0, 0, 0, 200, 0, 0, 0, 7, 255]);
    let frame = column_frame(&img, 0);
    assert_eq!(*frame.last().unwrap(), 0);
    assert!(frame[..frame.len() - 1].iter().all(|b| *b != 0));
    let decoded = cobs::decode_vec(&frame[..frame.len() - 1]).unwrap();
    assert_eq!(decoded, packet);
}

#[test]
fn long_packets_round_trip() {
    let img = LedImage::new(1, 200, vec![Rgb { r: 9, g: 0, b: 1 }; 200]).unwrap();
    let packet = column_packet(&img, 0);
    assert_eq!(packet.len(), 601);
    let frame = column_frame(&img, 0);
    assert!(frame[..frame.len() - 1].iter().all(|b| *b != 0));
    assert_eq!(cobs::decode_vec(&frame[..frame.len() - 1]).unwrap(), packet);
    let full = LedImage::new(1, 200, vec![Rgb { r: 9, g: 8, b: 1 }; 200]).unwrap();
    let frame = column_frame(&full, 0);
    // a zero, then 600 bytes without one: three groups
    assert_eq!(frame.len(), 601 + 3 + 1);
}

#[test]
fn every_column_gets_a_frame() {
    let img = image(4, 2);
    let frames = image_frames(&img);
    assert_eq!(frames.len(), 4);
    for col in 0..4 {
        assert_eq!(frames[col], column_frame(&img, col));
        assert_eq!(frames[col], encode_frame(&column_packet(&img, col)));
    }
    let none = LedImage::new(0, 3, vec![]).unwrap();
    assert!(image_frames(&none).is_empty());
}

#[test]
fn round_of_the_transmitter() {
    let mut link = Link::Closed;
    let mut actions = Vec::new();
    for _ in 0..12 {
        actions.push(link.action());
        link = link.next(true, 2);
    }
    assert_eq!(
        actions,
        vec![
            LinkAction::Open,
            LinkAction::Sleep(1_000_000),
            LinkAction::Write(0),
            LinkAction::Sleep(50),
            LinkAction::Write(1),
            LinkAction::Sleep(50),
            LinkAction::Read,
            LinkAction::Sleep(1_000),
            LinkAction::Write(0),
            LinkAction::Sleep(50),
            LinkAction::Write(1),
            LinkAction::Sleep(50),
        ]
    );
}

#[test]
fn failed_open_disables_the_transmitter() {
    let link = Link::Closed.next(false, 20);
    assert_eq!(link, Link::Disabled);
    assert_eq!(link.action(), LinkAction::Halt);
    assert_eq!(link.next(true, 20), Link::Disabled);
    assert_eq!(link.next(false, 20), Link::Disabled);
}

#[test]
fn failed_write_is_waited_out() {
    let link = Link::Column(3).next(false, 20);
    assert_eq!(link, Link::Backoff(3));
    assert_eq!(link.action(), LinkAction::Sleep(100_000));
    let link = link.next(true, 20);
    assert_eq!(link, Link::Gap(3));
    assert_eq!(link.next(true, 20), Link::Column(4));
    assert_eq!(Link::Gap(19).next(true, 20), Link::Listening);
    assert_eq!(Link::Listening.next(false, 20), Link::Resting);
}

#[test]
fn picture_without_columns_is_only_listened_to() {
    assert_eq!(Link::Settling.next(true, 0), Link::Listening);
    assert_eq!(Link::Resting.next(true, 0), Link::Listening);
    assert_eq!(Link::Gap(5).next(true, 3), Link::Listening);
    assert_eq!(Link::Gap(usize::MAX).next(true, 3), Link::Listening);
}
