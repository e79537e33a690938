use ggca::correlation::CorResult;
use ggca::double::Double;
use ggca::reading::Reading;

fn d(x: f64) -> Double {
    Double::from_bits(x.to_bits())
}

fn cases() -> Vec<CorResult> {
    vec![
        CorResult::empty(),
        CorResult::new(
            String::from("BRCA1"),
            String::from("hsa-miR-21"),
            Some(String::from("cg00000029")),
            Some(d(-0.75)),
            Some(d(0.002)),
            Some(d(0.01)),
        ),
        CorResult::new(
            String::from("TP53"),
            String::from("hsa-let-7a"),
            None,
            Some(d(1.0)),
            None,
            Some(d(0.5)),
        ),
        CorResult::new(
            String::from("g\u{e9}n \u{3b1}\u{3b2} \u{1f9ec}"),
            String::new(),
            Some(String::new()),
            None,
            Some(d(5.0e-324)),
            None,
        ),
    ]
}

#[test]
fn reading_of_nothing_asks_for_the_first_length() {
    assert_eq!(CorResult::reading(&[]), Reading::Missing(8));
    assert_eq!(CorResult::reading(&[0, 0, 0]), Reading::Missing(5));
}

#[test]
fn reading_follows_the_fields() {
    let mut bytes: Vec<u8> = vec![2, 0, 0, 0, 0, 0, 0, 0];
    assert_eq!(CorResult::reading(&bytes), Reading::Missing(2));
    bytes.extend_from_slice(b"a");
    assert_eq!(CorResult::reading(&bytes), Reading::Missing(1));
    bytes.extend_from_slice(b"b");
    assert_eq!(CorResult::reading(&bytes), Reading::Missing(8));
    bytes.extend_from_slice(&[0, 0, 0, 0, 0, 0, 0, 0]);
    assert_eq!(CorResult::reading(&bytes), Reading::Missing(1));
    bytes.push(1);
    assert_eq!(CorResult::reading(&bytes), Reading::Missing(8));
    bytes.extend_from_slice(&[1, 0, 0, 0, 0, 0, 0, 0]);
    assert_eq!(CorResult::reading(&bytes), Reading::Missing(1));
    bytes.extend_from_slice(b"c");
    assert_eq!(CorResult::reading(&bytes), Reading::Missing(1));
    bytes.push(1);
    assert_eq!(CorResult::reading(&bytes), Reading::Missing(8));
    bytes.extend_from_slice(&[0, 0, 0]);
    assert_eq!(CorResult::reading(&bytes), Reading::Missing(5));
    bytes.extend_from_slice(&[0, 0, 0, 0xF0, 0x3F]);
    assert_eq!(CorResult::reading(&bytes), Reading::Missing(1));
    bytes.push(0);
    assert_eq!(CorResult::reading(&bytes), Reading::Missing(1));
    bytes.push(0);
    assert_eq!(CorResult::reading(&bytes), Reading::Complete(39));
    let expected = CorResult::new(
        String::from("ab"),
        String::new(),
        Some(String::from("c")),
        Some(d(1.0)),
        None,
        None,
    );
    assert_eq!(CorResult::decode(&bytes), Some((expected, 39)));
}

#[test]
fn reading_is_complete_exactly_where_decode_succeeds() {
    for result in cases() {
        let bytes = result.encode();
        for cut in 0..=bytes.len() {
            let reading = CorResult::reading(&bytes[..cut]);
            let decoded = CorResult::decode(&bytes[..cut]);
            match reading {
                Reading::Complete(used) => {
                    assert_eq!(cut, bytes.len());
                    assert_eq!(decoded, Some((result.clone(), used)));
                }
                Reading::Missing(more) => {
                    assert_eq!(decoded, None);
                    assert!(more >= 1);
                    assert!(cut as u64 + more <= bytes.len() as u64);
                }
                Reading::Malformed => panic!("a prefix of an encoding is not malformed"),
            }
        }
    }
}

#[test]
fn reading_ignores_what_follows_a_whole_result() {
    for result in cases() {
        let mut bytes = result.encode();
        let length = bytes.len();
        bytes.extend_from_slice(&[9, 9, 9, 9]);
        assert_eq!(CorResult::reading(&bytes), Reading::Complete(length));
    }
}

#[test]
fn a_reader_takes_each_result_and_no_byte_of_the_next() {
    let all = cases();
    let mut stream: Vec<u8> = Vec::new();
    for result in &all {
        stream.extend_from_slice(&result.encode());
    }
    let mut at = 0;
    for result in &all {
        let mut buffer: Vec<u8> = Vec::new();
        let mut steps = 0;
        let found = loop {
            steps += 1;
            assert!(steps < 100);
            match CorResult::reading(&buffer) {
                Reading::Complete(used) => {
                    assert_eq!(used, buffer.len());
                    break CorResult::decode(&buffer).unwrap();
                }
                Reading::Missing(more) => {
                    let more = more as usize;
                    assert!(at + more <= stream.len());
                    buffer.extend_from_slice(&stream[at..at + more]);
                    at += more;
                }
                Reading::Malformed => panic!("malformed"),
            }
        };
        assert_eq!(&found.0, result);
        assert_eq!(found.1, result.encode().len());
    }
    assert_eq!(at, stream.len());
}

#[test]
fn reading_tells_malformed_bytes_from_missing_ones() {
    let mut bytes = CorResult::empty().encode();
    bytes[16] = 2;
    assert_eq!(CorResult::reading(&bytes), Reading::Malformed);
    assert_eq!(CorResult::reading(&bytes[..17]), Reading::Malformed);
    assert_eq!(CorResult::reading(&bytes[..16]), Reading::Missing(1));
    let mut bytes = CorResult::empty().encode();
    bytes[19] = 7;
    assert_eq!(CorResult::reading(&bytes), Reading::Malformed);
    let mut bytes =
        CorResult::new(String::from("ab"), String::new(), None, None, None, None).encode();
    bytes[9] = 0xFF;
    assert_eq!(CorResult::reading(&bytes), Reading::Malformed);
    assert_eq!(CorResult::reading(&bytes[..10]), Reading::Malformed);
    assert_eq!(CorResult::reading(&bytes[..9]), Reading::Missing(1));
}

#[test]
fn reading_asks_for_what_a_length_announces() {
    let mut bytes = vec![0xFFu8; 8];
    assert_eq!(CorResult::reading(&bytes), Reading::Missing(u64::MAX));
    bytes.push(b'a');
    assert_eq!(CorResult::reading(&bytes), Reading::Missing(u64::MAX - 1));
    let bytes = vec![0u8, 1, 0, 0, 0, 0, 0, 0, b'x'];
    assert_eq!(CorResult::reading(&bytes), Reading::Missing(255));
}
