use phase1_cli::digest::Digest;
use phase1_cli::layout::matches_sidecar;

const EMPTY: &str = "786a02f742015903c6c6fd852552d272912f4740e15847618a86e217f71f5419\
d25e1031afee585313896444934eb04b903a685b1448b755d56f701afe9be2ce";

const ABC: &str = "ba80a53f981c4d0d6a2797b69f12f6e94c212f14685ac4b74b12bb6fdbffa2d1\
7d87c5392aab792dc252d5de4533cc9518d38aa8dbf1925ab92386edd4009923";

const HELLO_WORLD: &str = "021ced8799296ceca557832ab941a50b4a11f83478cf141f51f933f653ab9fbc\
c05a037cddbed06e309bf334942c4e58cdf1a46e237911ccd7fcf9787cbc7fd0";

#[test]
fn digest_of_nothing() {
    assert_eq!(Digest::of(&[]).to_hex(), EMPTY);
}

#[test]
fn digest_of_abc() {
    assert_eq!(Digest::of(b"abc").to_hex(), ABC);
}

#[test]
fn digest_of_hello_world() {
    assert_eq!(Digest::of(b"hello world").to_hex(), HELLO_WORLD);
}

#[test]
fn digest_is_not_its_input() {
    let input = [7u8; 64];
    assert_ne!(Digest::of(&input).bytes, input);
}

#[test]
fn blank_is_the_digest_of_nothing() {
    assert_eq!(Digest::blank(), Digest::of(&[]));
    assert_eq!(Digest::blank().to_hex(), EMPTY);
}

#[test]
fn digest_is_the_same_each_time() {
    let data: Vec<u8> = (0..1000u32).map(|i| (i % 251) as u8).collect();
    let first = Digest::of(&data);
    let second = Digest::of(&data);
    let third = Digest::of(&data.clone());
    assert_eq!(first, second);
    assert_eq!(first, third);
    assert!(first.same(&second));
}

#[test]
fn digest_tells_files_apart() {
    let one = Digest::of(b"challenge");
    let other = Digest::of(b"challengf");
    assert_ne!(one, other);
    assert!(!one.same(&other));
}

#[test]
fn same_finds_a_difference_in_the_last_byte() {
    let one = Digest { bytes: [5u8; 64] };
    let mut bytes = [5u8; 64];
    bytes[63] = 6;
    let other = Digest { bytes };
    assert!(!one.same(&other));
    assert!(one.same(&Digest { bytes: [5u8; 64] }));
}

#[test]
fn from_bytes_takes_sixty_four_bytes() {
    let bytes: Vec<u8> = (0..64u8).collect();
    let digest = Digest::from_bytes(&bytes).unwrap();
    assert_eq!(digest.bytes.to_vec(), bytes);
}

#[test]
fn from_bytes_refuses_any_other_length() {
    assert_eq!(Digest::from_bytes(&[0u8; 63]), None);
    assert_eq!(Digest::from_bytes(&[0u8; 65]), None);
    assert_eq!(Digest::from_bytes(&[]), None);
}

#[test]
fn to_hex_is_two_digits_a_byte_high_half_first() {
    let mut bytes = [0u8; 64];
    bytes[0] = 0x01;
    bytes[1] = 0x23;
    bytes[2] = 0xab;
    bytes[3] = 0xf0;
    bytes[63] = 0xff;
    let hex = Digest { bytes }.to_hex();
    assert_eq!(hex.len(), 128);
    assert_eq!(&hex[..8], "0123abf0");
    assert_eq!(&hex[8..126], "0".repeat(118));
    assert_eq!(&hex[126..], "ff");
}

#[test]
fn to_hex_uses_every_digit() {
    let mut bytes = [0u8; 64];
    for (i, byte) in bytes.iter_mut().enumerate() {
        *byte = (i as u8) * 4 + (i as u8) / 16;
    }
    let hex = Digest { bytes }.to_hex();
    let expected: String = bytes.iter().map(|byte| format!("{:02x}", byte)).collect();
    assert_eq!(hex, expected);
}

#[test]
fn sidecar_matches_the_file_it_was_written_for() {
    let file = vec![9u8; 300];
    let sidecar = Digest::of(&file).bytes;
    assert!(matches_sidecar(&file, &sidecar));
}

#[test]
fn sidecar_does_not_match_another_file() {
    let file = vec![9u8; 300];
    let mut changed = file.clone();
    changed[299] = 8;
    let sidecar = Digest::of(&file).bytes;
    assert!(!matches_sidecar(&changed, &sidecar));
}

#[test]
fn sidecar_of_the_wrong_length_matches_nothing() {
    let file = vec![9u8; 300];
    let sidecar = Digest::of(&file).bytes;
    assert!(!matches_sidecar(&file, &sidecar[..63]));
    assert!(!matches_sidecar(&file, &[]));
}
