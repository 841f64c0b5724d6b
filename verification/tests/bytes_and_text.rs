use iroh_ex::arith::add;
use iroh_ex::bytes::string_to_32_byte_array;
use iroh_ex::hex_text::secret_key_to_hex;
use iroh_ex::ticket_text::{ticket_bytes, ticket_text};

#[test]
fn short_string_is_padded_with_zeros() {
    let a = string_to_32_byte_array("abc");
    let mut expected = [0u8; 32];
    expected[0] = b'a';
    expected[1] = b'b';
    expected[2] = b'c';
    assert_eq!(a, expected);
}

#[test]
fn empty_string_gives_zero_array() {
    assert_eq!(string_to_32_byte_array(""), [0u8; 32]);
}

#[test]
fn long_string_is_cut_at_32_bytes() {
    let s = "0123456789abcdefghijklmnopqrstuvwxyzXYZ";
    let a = string_to_32_byte_array(s);
    assert_eq!(&a[..], &s.as_bytes()[..32]);
    let t = "0123456789abcdefghijklmnopqrstuvDIFFERENT";
    assert_eq!(string_to_32_byte_array(t), a);
}

#[test]
fn utf8_bytes_are_used() {
    let a = string_to_32_byte_array("é");
    assert_eq!(a[0], 0xc3);
    assert_eq!(a[1], 0xa9);
    assert!(a[2..].iter().all(|b| *b == 0));
}

#[test]
fn exactly_32_bytes_kept_whole() {
    let s = "abcdefghijklmnopqrstuvwxyz012345";
    assert_eq!(s.len(), 32);
    assert_eq!(&string_to_32_byte_array(s)[..], s.as_bytes());
}

#[test]
fn secret_key_hex_is_lowercase_two_digits_per_byte() {
    let mut key = [0u8; 32];
    key[0] = 0x00;
    key[1] = 0x0f;
    key[2] = 0xab;
    key[31] = 0xff;
    let text = secret_key_to_hex(&key);
    assert_eq!(text.len(), 64);
    assert_eq!(&text[..6], "000fab");
    assert_eq!(&text[62..], "ff");
    assert!(text.chars().all(|c| c.is_ascii_digit() || ('a'..='f').contains(&c)));
}

#[test]
fn secret_key_hex_known_value() {
    let mut key = [0u8; 32];
    key[0] = 0xde;
    key[1] = 0xad;
    key[2] = 0xbe;
    key[3] = 0xef;
    let text = secret_key_to_hex(&key);
    assert_eq!(&text[..8], "deadbeef");
    assert_eq!(&text[8..], "0".repeat(56));
}

#[test]
fn ticket_text_is_lowercase_base32() {
    assert_eq!(ticket_text(b"hello"), "nbswy3dp");
    assert_eq!(ticket_text(b""), "");
    assert_eq!(ticket_text(b"f"), "my");
    assert_eq!(ticket_text(b"fooba"), "mzxw6ytb");
}

#[test]
fn ticket_bytes_reads_either_case() {
    assert_eq!(ticket_bytes("nbswy3dp").unwrap(), b"hello".to_vec());
    assert_eq!(ticket_bytes("NBSWY3DP").unwrap(), b"hello".to_vec());
    assert_eq!(ticket_bytes("NbSwY3dP").unwrap(), b"hello".to_vec());
}

#[test]
fn ticket_bytes_rejects_bad_text() {
    assert!(ticket_bytes("1").is_err());
    assert!(ticket_bytes("nbswy3d!").is_err());
    // a trailing symbol with non-zero unused bits is no canonical encoding
    assert!(ticket_bytes("mz").is_err());
}

#[test]
fn ticket_text_round_trip() {
    let samples: Vec<Vec<u8>> = vec![
        vec![],
        vec![0],
        vec![255, 254, 253],
        (0u8..=200).collect(),
        b"{\"topic\":[1,2,3],\"endpoint_addr\":\"x\"}".to_vec(),
    ];
    for b in samples {
        let text = ticket_text(&b);
        assert_eq!(ticket_bytes(&text).unwrap(), b);
    }
}

#[test]
fn add_sums() {
    assert_eq!(add(2, 3), 5);
    assert_eq!(add(-7, 7), 0);
    assert_eq!(add(i64::MAX - 1, 1), i64::MAX);
}
