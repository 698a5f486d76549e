use js_plugin::log::{LogBuffer, LOG_BUFFER_SIZE};

fn header(buf: &[u8]) -> u32 {
    u32::from_ne_bytes([buf[0], buf[1], buf[2], buf[3]])
}

#[test]
fn lines_are_appended_after_the_header() {
    let mut log = LogBuffer::new();
    log.write_line("hello".to_string());
    log.write_line("wörld".to_string());
    assert_eq!(log.used(), 13);
    let snap = log.drain();
    assert_eq!(snap.len(), LOG_BUFFER_SIZE);
    assert_eq!(header(&snap), 13);
    assert_eq!(&snap[4..17], "hello\nwörld\n".as_bytes());
    assert!(snap[17..].iter().all(|b| *b == 0));
}

#[test]
fn drain_resets_the_header() {
    let mut log = LogBuffer::new();
    log.write_line("abc".to_string());
    let _ = log.drain();
    assert_eq!(log.used(), 0);
    log.write_line("z".to_string());
    let snap = log.drain();
    assert_eq!(header(&snap), 2);
    assert_eq!(&snap[4..8], b"z\nc\n");
    let again = log.drain();
    assert_eq!(header(&again), 0);
}

#[test]
fn line_fits_until_the_buffer_is_full() {
    let mut log = LogBuffer::new();
    let big = "x".repeat(LOG_BUFFER_SIZE - 4 - 1);
    assert!(log.line_fits(&big));
    let too_big = "x".repeat(LOG_BUFFER_SIZE - 4);
    assert!(!log.line_fits(&too_big));
    log.write_line(big);
    assert_eq!(log.used() as usize, LOG_BUFFER_SIZE - 4);
    assert!(!log.line_fits(&String::new()));
}
