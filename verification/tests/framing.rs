use mining_proxy::listener::XorStream;
use mining_proxy::protocol::error::ProtocolError;
use mining_proxy::protocol::framing::{LineBuffer, MAX_LINE};

#[test]
fn lines_are_cut_at_newlines() {
    let mut buffer = LineBuffer::new();
    assert_eq!(buffer.feed(b"{\"id\":1}\n{\"id\"").unwrap(), vec![b"{\"id\":1}".to_vec()]);
    assert_eq!(buffer.len(), 5);
    assert_eq!(buffer.feed(b":2}").unwrap(), Vec::<Vec<u8>>::new());
    assert_eq!(buffer.feed(b"\n\nrest").unwrap(), vec![b"{\"id\":2}".to_vec(), Vec::new()]);
    assert_eq!(buffer.len(), 4);
}

#[test]
fn a_line_of_sixteen_kib_is_accepted() {
    let mut buffer = LineBuffer::new();
    let mut stream = vec![b'a'; MAX_LINE];
    stream.push(b'\n');
    let lines = buffer.feed(&stream).unwrap();
    assert_eq!(lines.len(), 1);
    assert_eq!(lines[0].len(), 16384);
    assert_eq!(buffer.len(), 0);
}

#[test]
fn a_line_of_sixteen_kib_and_one_is_refused() {
    let mut buffer = LineBuffer::new();
    let mut stream = vec![b'a'; MAX_LINE + 1];
    stream.push(b'\n');
    assert_eq!(buffer.feed(&stream), Err(ProtocolError::OversizedFrame));
    assert_eq!(buffer.len(), 0);
}

#[test]
fn an_overlong_line_is_refused_before_its_newline() {
    let mut buffer = LineBuffer::new();
    assert_eq!(buffer.feed(&vec![b'a'; MAX_LINE]).unwrap().len(), 0);
    assert_eq!(buffer.len(), MAX_LINE);
    assert_eq!(buffer.feed(b"b"), Err(ProtocolError::OversizedFrame));
}

#[test]
fn a_short_line_before_an_overlong_one_is_lost_with_it() {
    let mut buffer = LineBuffer::new();
    let mut stream = b"ok\n".to_vec();
    stream.extend(vec![b'a'; MAX_LINE + 1]);
    assert_eq!(buffer.feed(&stream), Err(ProtocolError::OversizedFrame));
}

#[test]
fn xor_stream_decodes_what_it_encoded() {
    let key = vec![0x5a, 0x01, 0xff];
    let mut sender = XorStream::new(key.clone()).unwrap();
    let mut receiver = XorStream::new(key).unwrap();
    let mut first = b"{\"id\":1}\n".to_vec();
    let mut second = b"{\"id\":2}\n".to_vec();
    sender.apply(&mut first);
    sender.apply(&mut second);
    assert_eq!(first[0], b'{' ^ 0x5a);
    assert_eq!(first[1], b'"' ^ 0x01);
    assert_eq!(first[3], b'd' ^ 0x5a);
    assert_eq!(second[0], b'{' ^ 0x5a);
    assert_ne!(first, b"{\"id\":1}\n".to_vec());
    let mut joined = first;
    joined.extend(second);
    receiver.apply(&mut joined);
    assert_eq!(joined, b"{\"id\":1}\n{\"id\":2}\n".to_vec());
}

#[test]
fn xor_stream_needs_a_key() {
    assert!(XorStream::new(Vec::new()).is_none());
}
