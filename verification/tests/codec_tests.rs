use retty::bytebuf::ByteBuf;
use retty::codec::DecodeOutcome;
use retty::codec::FirstIntegerLengthFieldDecoder;
use retty::errors::ErrorCategory;
use retty::pipeline::Message;

fn feed(decoder: &mut FirstIntegerLengthFieldDecoder, bytes: Vec<u8>) -> Vec<Vec<u8>> {
    let msg = Message::Buf(ByteBuf::new_from(&bytes));
    match decoder.channel_read(&msg) {
        DecodeOutcome::Frames(frames) => frames,
        DecodeOutcome::Rejected(err) => panic!("rejected: {:?}", err.kind),
    }
}

#[test]
fn single_frame_in_one_chunk() {
    let mut decoder = FirstIntegerLengthFieldDecoder::new();
    let frames = feed(&mut decoder, vec![0, 0, 0, 5, b'h', b'e', b'l', b'l', b'o']);
    assert_eq!(frames, vec![b"hello".to_vec()]);
}

#[test]
fn two_frames_in_one_chunk_stay_in_order() {
    let mut decoder = FirstIntegerLengthFieldDecoder::new();
    let frames = feed(
        &mut decoder,
        vec![0, 0, 0, 3, b'a', b'b', b'c', 0, 0, 0, 2, b'x', b'y'],
    );
    assert_eq!(frames, vec![b"abc".to_vec(), b"xy".to_vec()]);
}

#[test]
fn frame_split_across_two_chunks() {
    let mut decoder = FirstIntegerLengthFieldDecoder::new();
    let first = feed(&mut decoder, vec![0, 0, 0, 5, b'h']);
    assert!(first.is_empty());
    let second = feed(&mut decoder, vec![b'e', b'l', b'l', b'o']);
    assert_eq!(second, vec![b"hello".to_vec()]);
}

#[test]
fn frame_split_inside_the_length_prefix() {
    let mut decoder = FirstIntegerLengthFieldDecoder::new();
    assert!(feed(&mut decoder, vec![0, 0]).is_empty());
    assert!(feed(&mut decoder, vec![0, 2]).is_empty());
    let frames = feed(&mut decoder, vec![b'x', b'y']);
    assert_eq!(frames, vec![b"xy".to_vec()]);
}

#[test]
fn empty_payload_is_a_frame() {
    let mut decoder = FirstIntegerLengthFieldDecoder::new();
    let frames = feed(&mut decoder, vec![0, 0, 0, 0]);
    assert_eq!(frames, vec![Vec::<u8>::new()]);
}

#[test]
fn remainder_carries_into_the_next_chunk() {
    let mut decoder = FirstIntegerLengthFieldDecoder::new();
    let frames = feed(&mut decoder, vec![0, 0, 0, 1, b'a', 0, 0, 0, 2, b'b']);
    assert_eq!(frames, vec![b"a".to_vec()]);
    let frames = feed(&mut decoder, vec![b'c', 0, 0, 0, 1, b'd']);
    assert_eq!(frames, vec![b"bc".to_vec(), b"d".to_vec()]);
}

#[test]
fn non_buffer_message_is_rejected_with_decoding_error() {
    let mut decoder = FirstIntegerLengthFieldDecoder::new();
    match decoder.channel_read(&Message::Opaque) {
        DecodeOutcome::Rejected(err) => {
            assert_eq!(err.kind, ErrorCategory::Other);
            assert_eq!(err.message, "decoding error");
        }
        DecodeOutcome::Frames(_) => panic!("a non-buffer message must be rejected"),
    }
    // The rejection leaves the accumulation untouched.
    let frames = feed(&mut decoder, vec![0, 0, 0, 1, b'z']);
    assert_eq!(frames, vec![b"z".to_vec()]);
}

#[test]
fn decoder_id_names_the_handler() {
    let decoder = FirstIntegerLengthFieldDecoder::new();
    assert_eq!(decoder.id(), "FirstIntegerLengthFieldDecoder");
}

#[test]
fn ten_frames_over_byte_sized_chunks_arrive_in_order() {
    let mut stream: Vec<u8> = Vec::new();
    let mut expected: Vec<Vec<u8>> = Vec::new();
    for i in 0..10u8 {
        let payload = vec![i, i, i];
        stream.extend_from_slice(&[0, 0, 0, 3]);
        stream.extend_from_slice(&payload);
        expected.push(payload);
    }
    let mut decoder = FirstIntegerLengthFieldDecoder::new();
    let mut got: Vec<Vec<u8>> = Vec::new();
    for b in stream {
        got.extend(feed(&mut decoder, vec![b]));
    }
    assert_eq!(got, expected);
}

#[test]
fn each_connection_decodes_with_its_own_accumulation() {
    let mut first = FirstIntegerLengthFieldDecoder::new();
    let mut second = FirstIntegerLengthFieldDecoder::new();
    assert!(feed(&mut first, vec![0, 0, 0, 5, b'h']).is_empty());
    assert_eq!(feed(&mut second, vec![0, 0, 0, 2, b'o', b'k']), vec![b"ok".to_vec()]);
    // The second connection's frame left the first one's half frame alone.
    assert_eq!(
        feed(&mut first, vec![b'e', b'l', b'l', b'o']),
        vec![b"hello".to_vec()]
    );
}

#[test]
fn interleaved_connections_each_get_their_frames_in_order() {
    // Four connections, each sent its own numbered frames; the chunks of the
    // four streams arrive interleaved byte by byte. Every connection's own
    // decoder reassembles exactly its own frames, in order.
    let mut streams: Vec<Vec<u8>> = Vec::new();
    let mut expected: Vec<Vec<Vec<u8>>> = Vec::new();
    for conn in 0..4u8 {
        let mut stream: Vec<u8> = Vec::new();
        let mut frames: Vec<Vec<u8>> = Vec::new();
        for n in 0..100u8 {
            let payload = vec![conn, n];
            stream.extend_from_slice(&[0, 0, 0, 2]);
            stream.extend_from_slice(&payload);
            frames.push(payload);
        }
        streams.push(stream);
        expected.push(frames);
    }
    let mut decoders: Vec<FirstIntegerLengthFieldDecoder> =
        (0..4).map(|_| FirstIntegerLengthFieldDecoder::new()).collect();
    let mut got: Vec<Vec<Vec<u8>>> = vec![Vec::new(), Vec::new(), Vec::new(), Vec::new()];
    let len = streams[0].len();
    for at in 0..len {
        for conn in 0..4 {
            let byte = streams[conn][at];
            got[conn].extend(feed(&mut decoders[conn], vec![byte]));
        }
    }
    assert_eq!(got, expected);
}

#[test]
fn bytebuf_reads_a_big_endian_length() {
    let mut buf = ByteBuf::new_from(&vec![0, 0, 1, 2, 9, 9]);
    assert_eq!(buf.len(), 6);
    assert_eq!(buf.readable_bytes(), 6);
    buf.mark_reader_index();
    assert_eq!(buf.read_u32_be(), 258);
    assert_eq!(buf.readable_bytes(), 2);
    buf.reset_reader_index();
    assert_eq!(buf.get_reader_index(), 0);
    assert_eq!(buf.get_writer_index(), 6);
    assert_eq!(buf.read_u32_be(), 258);
    buf.advance_reader(1);
    assert_eq!(buf.available_bytes(), vec![9]);
}
