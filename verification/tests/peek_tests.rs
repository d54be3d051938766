use eagre_asn1::der::DerError;
use eagre_asn1::Peek;

#[test]
fn peek_reader() {
    let stream = vec![0, 1, 2, 3, 4, 5, 6, 7, 8];
    let mut peek = Peek::new(stream);
    let buffer = peek.read(3).unwrap();
    assert_eq!(buffer, vec![0, 1, 2]);
    peek.stop();
    let buffer = peek.read(9).unwrap();
    assert_eq!(buffer, vec![0, 1, 2, 3, 4, 5, 6, 7, 8]);
}

#[test]
fn peek_replay_exhausted() {
    let mut peek = Peek::new(vec![1, 2]);
    let seen = peek.read(1).unwrap();
    assert_eq!(seen, vec![1]);
    peek.stop();
    assert_eq!(peek.read(3), Err(DerError::UnexpectedEof));
    assert_eq!(peek.read(2).unwrap(), vec![1, 2]);
}

#[test]
fn peek_short_input_delivers_what_is_there() {
    let mut peek = Peek::new(vec![7]);
    let seen = peek.read(4).unwrap();
    assert_eq!(seen, vec![7]);
    peek.stop();
    assert_eq!(peek.read(1).unwrap(), vec![7]);
}
