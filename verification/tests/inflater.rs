use heapless::Vec;
use incremental_png::inflater::{
    check_status, conclude, leftover, window_size, Event, Inflater, Progress, Status,
};
use incremental_png::stream_decoder as sd;
use incremental_png::stream_decoder::ImageHeader;
use incremental_png::Error;

const HELLO_WORLD: &[u8] = b"hello world";

const N: usize = 65536;

#[test]
fn decode_simple_compressed_stream() {
    let mut d = Inflater::<1024>::new();

    let compressed = miniz_oxide::deflate::compress_to_vec_zlib(b"hello", 5);

    assert_eq!(
        d.update(sd::Event::ImageData(&compressed)).unwrap(),
        (None, Some(Event::ImageData(b"hello")))
    );
}

#[test]
fn very_incremental() {
    let mut d = Inflater::<1024>::new();

    let compressed = miniz_oxide::deflate::compress_to_vec_zlib(HELLO_WORLD, 5);

    let mut output = Vec::<u8, 11>::new();

    let mut current_input = compressed.as_slice();
    while !current_input.is_empty() {
        let n = core::cmp::min(2, current_input.len());
        let mut event = Some(sd::Event::ImageData(&current_input[..n]));
        current_input = &current_input[n..];
        while let Some(e) = event {
            let (leftover, output_event) = d.update(e).unwrap();
            match output_event {
                Some(Event::ImageData(data)) => output.extend_from_slice(data).unwrap(),
                None => {}
                _ => panic!("expected only ImageData output"),
            }
            event = leftover;
        }
    }

    assert_eq!(&HELLO_WORLD, &output);
}

#[test]
fn decode_inflated_output() {
    let mut d = Inflater::<1024>::new();

    let input = [b'A'; N];
    let compressed = miniz_oxide::deflate::compress_to_vec_zlib(&input, 5);

    let mut output = Vec::<u8, N>::new();

    let mut event = Some(sd::Event::ImageData(&compressed));
    while let Some(e) = event {
        let (leftover, output_event) = d.update(e).unwrap();
        match output_event {
            Some(Event::ImageData(data)) => output.extend_from_slice(data).unwrap(),
            None => {}
            _ => panic!("expected only ImageData output"),
        }
        event = leftover;
    }

    assert_eq!(input.len(), output.len());
    for c in output {
        assert_eq!(c, b'A');
    }
}

fn inflate_all<const W: usize>(compressed: &[u8], piece: usize) -> std::vec::Vec<u8> {
    let mut d = Inflater::<W>::new();
    let mut output = std::vec::Vec::new();
    let mut rest = compressed;
    while !rest.is_empty() {
        let n = core::cmp::min(piece, rest.len());
        let mut event = Some(sd::Event::ImageData(&rest[..n]));
        rest = &rest[n..];
        while let Some(e) = event {
            let (leftover, output_event) = d.update(e).unwrap();
            match output_event {
                Some(Event::ImageData(data)) => {
                    assert!(data.len() <= W);
                    output.extend_from_slice(data)
                }
                _ => panic!("expected only ImageData output"),
            }
            event = leftover;
        }
    }
    output
}

fn sample(len: usize) -> std::vec::Vec<u8> {
    let mut v = std::vec::Vec::new();
    let mut x: u32 = 12345;
    for i in 0..len {
        x = x.wrapping_mul(1103515245).wrapping_add(12345);
        // Runs of equal bytes between noisy ones, so that matches and literals both occur.
        v.push(if i % 7 < 3 { (x >> 16) as u8 } else { b'x' });
    }
    v
}

#[test]
fn round_trip_with_a_window_smaller_than_the_payload() {
    let data = sample(1000);
    let compressed = miniz_oxide::deflate::compress_to_vec_zlib(&data, 6);
    assert_eq!(inflate_all::<16>(&compressed, compressed.len()), data);
    assert_eq!(inflate_all::<16>(&compressed, 1), data);
    assert_eq!(inflate_all::<1>(&compressed, 3), data);
}

#[test]
fn round_trip_with_a_window_equal_to_the_payload() {
    let data = sample(1000);
    let compressed = miniz_oxide::deflate::compress_to_vec_zlib(&data, 6);
    assert_eq!(inflate_all::<1000>(&compressed, compressed.len()), data);
    assert_eq!(inflate_all::<1000>(&compressed, 7), data);
}

#[test]
fn round_trip_with_a_window_much_larger_than_the_payload() {
    let data = sample(1000);
    let compressed = miniz_oxide::deflate::compress_to_vec_zlib(&data, 6);
    assert_eq!(inflate_all::<65536>(&compressed, compressed.len()), data);
    assert_eq!(inflate_all::<65536>(&compressed, 1), data);
}

#[test]
fn round_trip_of_nothing() {
    let compressed = miniz_oxide::deflate::compress_to_vec_zlib(&[], 6);
    assert_eq!(inflate_all::<8>(&compressed, 1), std::vec::Vec::<u8>::new());
}

#[test]
fn full_window_leaves_an_empty_input_over() {
    let mut d = Inflater::<4>::new();
    let compressed = miniz_oxide::deflate::compress_to_vec_zlib(b"abcdefgh", 0);
    let (rest, event) = d.update(sd::Event::ImageData(&compressed)).unwrap();
    assert_eq!(event, Some(Event::ImageData(b"abcd")));
    // Either some input is unread, or the empty input asks for another call.
    let rest = rest.unwrap();
    let (rest, event) = d.update(rest).unwrap();
    assert_eq!(event, Some(Event::ImageData(b"efgh")));
    // The window was filled again, so one more call is asked for.
    let mut rest = rest;
    let mut calls = 0;
    while let Some(e) = rest {
        let (r, event) = d.update(e).unwrap();
        assert_eq!(event, Some(Event::ImageData(b"")));
        rest = r;
        calls += 1;
        assert!(calls < 10);
    }
}

#[test]
fn empty_input_gives_empty_output() {
    let mut d = Inflater::<16>::new();
    assert_eq!(
        d.update(sd::Event::ImageData(&[])),
        Ok((None, Some(Event::ImageData(&[]))))
    );
}

#[test]
fn header_and_end_pass_through() {
    let mut d = Inflater::<16>::new();
    assert_eq!(
        d.update(sd::Event::ImageHeader(ImageHeader {
            width: 1,
            height: 2,
            bit_depth: 3,
            colour_type: 4,
            compression_method: 5,
            filter_method: 6,
            interlace_method: 7,
        })),
        Ok((
            None,
            Some(Event::ImageHeader(ImageHeader {
                width: 1,
                height: 2,
                bit_depth: 3,
                colour_type: 4,
                compression_method: 5,
                filter_method: 6,
                interlace_method: 7,
            }))
        ))
    );
    assert_eq!(d.update(sd::Event::End), Ok((None, Some(Event::End))));
}

#[test]
fn corrupt_data_is_rejected() {
    let mut d = Inflater::<64>::new();
    // 0x78 0x9C opens a zlib stream; block type 3 does not exist.
    assert_eq!(
        d.update(sd::Event::ImageData(&[0x78, 0x9C, 0x07, 0, 0, 0, 0])),
        Err(Error::InvalidDeflateStream)
    );
    // The decompressor stays in its failed state.
    assert_eq!(
        d.update(sd::Event::ImageData(&[0])),
        Err(Error::InvalidDeflateStream)
    );
}

#[test]
fn bad_zlib_header_is_rejected() {
    let mut d = Inflater::<64>::new();
    assert_eq!(
        d.update(sd::Event::ImageData(b"hello")),
        Err(Error::InvalidDeflateStream)
    );
}

#[test]
fn status_to_error() {
    assert_eq!(check_status(Status::Continue), Ok(()));
    assert_eq!(check_status(Status::StreamEnd), Ok(()));
    assert_eq!(check_status(Status::NeedDict), Ok(()));
    assert_eq!(check_status(Status::Buf), Ok(()));
    assert_eq!(check_status(Status::Stream), Err(Error::InvalidDeflateStream));
    assert_eq!(check_status(Status::Data), Err(Error::InvalidDeflateStream));
}

#[test]
fn leftover_by_counts() {
    let input = [1u8, 2, 3, 4, 5];
    // Unread input comes first, whatever was written.
    assert_eq!(leftover(&input, 2, 0, 8), Some(sd::Event::ImageData(&[3, 4, 5])));
    assert_eq!(leftover(&input, 0, 8, 8), Some(sd::Event::ImageData(&input)));
    assert_eq!(leftover(&input, 4, 8, 8), Some(sd::Event::ImageData(&[5])));
    // All read and the window full: an empty input.
    assert_eq!(leftover(&input, 5, 8, 8), Some(sd::Event::ImageData(&[])));
    assert_eq!(leftover(&[], 0, 0, 0), Some(sd::Event::ImageData(&[])));
    // All read and room left in the window: nothing.
    assert_eq!(leftover(&input, 5, 7, 8), None);
    assert_eq!(leftover(&input, 5, 0, 8), None);
    assert_eq!(leftover(&[], 0, 0, 1), None);
}

fn progress(consumed: usize, written: usize, status: Status) -> Progress {
    Progress {
        consumed,
        written,
        status,
    }
}

#[test]
fn conclude_by_outcome() {
    let input = [1u8, 2, 3];
    let window = [9u8, 8, 7, 6];
    // Input left unread: the rest is left over, the written front is emitted.
    assert_eq!(
        conclude(&input, &window, progress(2, 3, Status::Continue)),
        Ok((
            Some(sd::Event::ImageData(&[3])),
            Some(Event::ImageData(&[9, 8, 7]))
        ))
    );
    // All read and the window full: an empty input is left over.
    assert_eq!(
        conclude(&input, &window, progress(3, 4, Status::Continue)),
        Ok((
            Some(sd::Event::ImageData(&[])),
            Some(Event::ImageData(&[9, 8, 7, 6]))
        ))
    );
    // All read and room left: nothing is left over.
    assert_eq!(
        conclude(&input, &window, progress(3, 1, Status::StreamEnd)),
        Ok((None, Some(Event::ImageData(&[9]))))
    );
    // Want of input is no error, and nothing written is an empty event.
    assert_eq!(
        conclude(&[], &window, progress(0, 0, Status::Buf)),
        Ok((None, Some(Event::ImageData(&[]))))
    );
    assert_eq!(
        conclude(&input, &window, progress(0, 0, Status::Buf)),
        Ok((
            Some(sd::Event::ImageData(&[1, 2, 3])),
            Some(Event::ImageData(&[]))
        ))
    );
    // Corrupt data and a misdriven stream fail, whatever the counts.
    assert_eq!(
        conclude(&input, &window, progress(1, 2, Status::Data)),
        Err(Error::InvalidDeflateStream)
    );
    assert_eq!(
        conclude(&input, &window, progress(3, 4, Status::Stream)),
        Err(Error::InvalidDeflateStream)
    );
}

#[test]
fn header_and_end_leave_the_decompressor_alone() {
    let compressed = miniz_oxide::deflate::compress_to_vec_zlib(b"hello world", 5);
    let (a, b) = compressed.split_at(5);
    let mut d = Inflater::<64>::new();
    let mut out = std::vec::Vec::new();
    for part in [a, b] {
        let mut event = Some(sd::Event::ImageData(part));
        while let Some(e) = event {
            let (leftover, output_event) = d.update(e).unwrap();
            if let Some(Event::ImageData(data)) = output_event {
                out.extend_from_slice(data);
            }
            event = leftover;
        }
        // Between the two parts of the stream, and after it, other events pass.
        assert_eq!(d.update(sd::Event::End), Ok((None, Some(Event::End))));
    }
    assert_eq!(out, b"hello world");
}

#[test]
fn window_size_from_the_first_byte() {
    assert_eq!(window_size(0x78), 32768);
    assert_eq!(window_size(0x08), 256);
    assert_eq!(window_size(0x18), 512);
    assert_eq!(window_size(0x7F), 32768);
    assert_eq!(window_size(0xF8), 8_388_608);
    let compressed = miniz_oxide::deflate::compress_to_vec_zlib(b"hello", 5);
    assert_eq!(window_size(compressed[0]), 32768);
}
