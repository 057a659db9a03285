use incremental_png::dechunker::Dechunker;
use incremental_png::inflater;
use incremental_png::inflater::Inflater;
use incremental_png::stream_decoder::{ImageHeader, StreamDecoder};
use incremental_png::Error;

/// What came out of the last layer, with the image data joined up.
#[derive(Debug, PartialEq, Eq)]
enum Item {
    Header(ImageHeader),
    Data(Vec<u8>),
    End,
}

fn push_data(items: &mut Vec<Item>, data: &[u8]) {
    if data.is_empty() {
        return;
    }
    if let Some(Item::Data(d)) = items.last_mut() {
        d.extend_from_slice(data);
    } else {
        items.push(Item::Data(data.to_vec()));
    }
}

/// Feeds `png` through the three layers in pieces of `piece` bytes.
fn decode<const W: usize>(png: &[u8], piece: usize) -> Result<Vec<Item>, Error> {
    let mut dechunker = Dechunker::new();
    let mut sd = StreamDecoder::new();
    let mut inflater = Inflater::<W>::new();
    let mut items = Vec::new();

    for fragment in png.chunks(piece) {
        let mut input = fragment;
        while !input.is_empty() {
            let (consumed, mut dc_event) = dechunker.update(input)?;
            while let Some(e) = dc_event {
                assert!(sd.accepts(&e));
                let (leftover, mut sd_event) = sd.update(e)?;
                while let Some(e) = sd_event {
                    let (leftover, i_event) = inflater.update(e)?;
                    match i_event {
                        Some(inflater::Event::ImageHeader(h)) => items.push(Item::Header(h)),
                        Some(inflater::Event::ImageData(d)) => push_data(&mut items, d),
                        Some(inflater::Event::End) => items.push(Item::End),
                        None => {}
                    }
                    sd_event = leftover;
                }
                dc_event = leftover;
            }
            input = &input[consumed..];
        }
    }
    dechunker.eof()?;
    sd.eof()?;
    Ok(items)
}

fn chunk(type_: &[u8; 4], data: &[u8]) -> Vec<u8> {
    let mut v = Vec::new();
    v.extend_from_slice(&(data.len() as u32).to_be_bytes());
    v.extend_from_slice(type_);
    v.extend_from_slice(data);
    v.extend_from_slice(&[0, 0, 0, 0]);
    v
}

fn png(chunks: &[Vec<u8>]) -> Vec<u8> {
    let mut v = vec![0x89, 0x50, 0x4E, 0x47, 0x0D, 0x0A, 0x1A, 0x0A];
    for c in chunks {
        v.extend_from_slice(c);
    }
    v
}

fn header_1_to_7() -> ImageHeader {
    ImageHeader {
        width: 1,
        height: 2,
        bit_depth: 3,
        colour_type: 4,
        compression_method: 5,
        filter_method: 6,
        interlace_method: 7,
    }
}

fn hello_png() -> Vec<u8> {
    let compressed = miniz_oxide::deflate::compress_to_vec_zlib(b"hello", 5);
    png(&[
        chunk(b"IHDR", &[0, 0, 0, 1, 0, 0, 0, 2, 3, 4, 5, 6, 7]),
        chunk(b"IDAT", &compressed),
        chunk(b"IEND", &[]),
    ])
}

#[test]
fn end_to_end() {
    let png = hello_png();
    assert_eq!(
        decode::<1024>(&png, png.len()),
        Ok(vec![
            Item::Header(header_1_to_7()),
            Item::Data(b"hello".to_vec()),
            Item::End
        ])
    );
}

#[test]
fn any_slicing_gives_the_same_result() {
    let png = hello_png();
    let whole = decode::<1024>(&png, png.len());
    for piece in 1..=png.len() {
        assert_eq!(decode::<1024>(&png, piece), whole);
        assert_eq!(decode::<3>(&png, piece), whole);
    }
}

#[test]
fn image_data_spread_over_chunks() {
    let mut payload = Vec::new();
    for i in 0..5000u32 {
        payload.push((i % 251) as u8);
    }
    let compressed = miniz_oxide::deflate::compress_to_vec_zlib(&payload, 6);
    let (a, b) = compressed.split_at(compressed.len() / 2);
    let png = png(&[
        chunk(b"IHDR", &[0, 0, 0, 50, 0, 0, 0, 100, 8, 0, 0, 0, 0]),
        chunk(b"tEXt", b"Comment\0skipped"),
        chunk(b"PLTE", &[1, 2, 3, 4, 5, 6]),
        chunk(b"IDAT", a),
        chunk(b"IDAT", b),
        chunk(b"IEND", &[]),
    ]);
    let expected = Ok(vec![
        Item::Header(ImageHeader {
            width: 50,
            height: 100,
            bit_depth: 8,
            colour_type: 0,
            compression_method: 0,
            filter_method: 0,
            interlace_method: 0,
        }),
        Item::Data(payload),
        Item::End,
    ]);
    assert_eq!(decode::<1024>(&png, png.len()), expected);
    assert_eq!(decode::<1024>(&png, 1), expected);
    assert_eq!(decode::<64>(&png, 17), expected);
    assert_eq!(decode::<8192>(&png, 1000), expected);
}

#[test]
fn wrong_signature_fails_at_once() {
    assert_eq!(
        decode::<16>(b"thesignatureisinvalid", 3),
        Err(Error::InvalidPngSignature)
    );
    assert_eq!(
        decode::<16>(b"thesignatureisinvalid", 21),
        Err(Error::InvalidPngSignature)
    );
}

#[test]
fn structural_rejection() {
    let bad_header = png(&[chunk(b"IHDR", &[0; 12])]);
    assert_eq!(decode::<16>(&bad_header, 5), Err(Error::InvalidImageHeaderLength));
    let bad_end = png(&[chunk(b"IEND", &[0])]);
    assert_eq!(decode::<16>(&bad_end, 5), Err(Error::InvalidEndChunkSize));
    let bad_palette = png(&[chunk(b"PLTE", &[1, 2, 3, 4])]);
    assert_eq!(decode::<16>(&bad_palette, 5), Err(Error::InvalidPaletteChunkSize));
}

#[test]
fn truncated_stream_is_unfinished() {
    let png = hello_png();
    assert_eq!(decode::<16>(&png[..png.len() - 1], 4), Err(Error::UnfinishedChunk));
    assert_eq!(decode::<16>(&png[..5], 4), Err(Error::UnfinishedChunk));
    assert_eq!(decode::<16>(&[], 4), Err(Error::UnfinishedChunk));
}

#[test]
fn corrupt_image_data_is_rejected() {
    let png = png(&[
        chunk(b"IHDR", &[0, 0, 0, 1, 0, 0, 0, 2, 3, 4, 5, 6, 7]),
        chunk(b"IDAT", b"not zlib at all"),
    ]);
    assert_eq!(decode::<16>(&png, 4), Err(Error::InvalidDeflateStream));
}
