use tex_io::digest::{
    bytes_to_hex, create, hex_decode, hex_to_bytes, DigestData, FastDigestComputer,
    FastDigestData, DIGEST_LEN, DIGEST_NAME,
};
use tex_io::errors::Error;

#[test]
fn hex_of_bytes_is_lower_case_pairs() {
    assert_eq!(bytes_to_hex(&[]), "");
    assert_eq!(bytes_to_hex(&[0x00]), "00");
    assert_eq!(bytes_to_hex(&[0x0f, 0xf0, 0xab, 0x09]), "0ff0ab09");
    assert_eq!(bytes_to_hex(&[0xde, 0xad, 0xbe, 0xef]), "deadbeef");
}

#[test]
fn hex_text_is_twice_as_long_as_the_bytes() {
    let bytes: Vec<u8> = (0..=255u8).collect();
    assert_eq!(bytes_to_hex(&bytes).len(), 512);
}

#[test]
fn hex_round_trip_over_every_byte_value() {
    let bytes: Vec<u8> = (0..=255u8).collect();
    let text = bytes_to_hex(&bytes);
    let mut back = vec![0u8; 256];
    assert_eq!(hex_to_bytes(&text, &mut back), Ok(()));
    assert_eq!(back, bytes);
}

#[test]
fn hex_decoding_accepts_both_cases() {
    let mut dest = [0u8; 4];
    assert_eq!(hex_to_bytes("DeAdBeEf", &mut dest), Ok(()));
    assert_eq!(dest, [0xde, 0xad, 0xbe, 0xef]);
    assert_eq!(bytes_to_hex(&dest), "deadbeef");
}

#[test]
fn hex_decoding_checks_the_length_and_writes_nothing() {
    let mut dest = [7u8; 4];
    assert_eq!(
        hex_to_bytes("deadbe", &mut dest),
        Err(Error::BadLength(8, 6))
    );
    assert_eq!(dest, [7u8; 4]);
    assert_eq!(
        hex_to_bytes("deadbeef00", &mut dest),
        Err(Error::BadLength(8, 10))
    );
    assert_eq!(dest, [7u8; 4]);
    assert_eq!(hex_to_bytes("", &mut dest), Err(Error::BadLength(8, 0)));
    assert_eq!(hex_to_bytes("abc", &mut dest), Err(Error::BadLength(8, 3)));
    assert_eq!(dest, [7u8; 4]);
}

#[test]
fn hex_decoding_rejects_what_is_no_hex_digit() {
    let mut dest = [7u8; 4];
    assert_eq!(hex_to_bytes("deadbexf", &mut dest), Err(Error::BadHexDigit));
    assert_eq!(dest, [0xde, 0xad, 0xbe, 7]);
    let mut dest = [7u8; 2];
    assert_eq!(hex_to_bytes("0g00", &mut dest), Err(Error::BadHexDigit));
    assert_eq!(dest, [7, 7]);
    assert_eq!(hex_to_bytes("+f00", &mut dest), Err(Error::BadHexDigit));
    assert_eq!(hex_to_bytes(" 100", &mut dest), Err(Error::BadHexDigit));
    assert_eq!(hex_to_bytes("00/:", &mut dest), Err(Error::BadHexDigit));
    assert_eq!(hex_to_bytes("00@G", &mut dest), Err(Error::BadHexDigit));
    assert_eq!(hex_to_bytes("00`g", &mut dest), Err(Error::BadHexDigit));
}

#[test]
fn hex_decoding_counts_bytes_of_text_beyond_ascii() {
    let mut dest = [7u8; 1];
    assert_eq!(hex_to_bytes("é", &mut dest), Err(Error::BadHexDigit));
    let mut dest = [7u8; 2];
    assert_eq!(hex_to_bytes("aé1", &mut dest), Err(Error::BadHexDigit));
    assert_eq!(hex_to_bytes("éé", &mut dest), Err(Error::BadHexDigit));
}

#[test]
fn hex_decode_of_bytes_agrees_with_text() {
    let mut a = [0u8; 3];
    let mut b = [0u8; 3];
    assert_eq!(hex_decode(b"01fE9a", &mut a), Ok(()));
    assert_eq!(hex_to_bytes("01fE9a", &mut b), Ok(()));
    assert_eq!(a, [0x01, 0xfe, 0x9a]);
    assert_eq!(a, b);
}

#[test]
fn empty_hex_text_decodes_to_no_bytes() {
    let mut dest: [u8; 0] = [];
    assert_eq!(hex_to_bytes("", &mut dest), Ok(()));
}

#[test]
fn digest_constants() {
    assert_eq!(DIGEST_NAME, "SHA256SUM");
    assert_eq!(DIGEST_LEN, 64);
}

#[test]
fn zero_digest_is_all_zero() {
    assert_eq!(DigestData::zeros().to_string(), "0".repeat(64));
}

#[test]
fn digest_of_nothing_is_the_sha256_of_the_empty_input() {
    assert_eq!(
        DigestData::of_nothing().to_string(),
        "e3b0c44298fc1c149afbf4c8996fb92427ae41e4649b934ca495991b7852b855"
    );
    assert_eq!(DigestData::of_nothing(), DigestData::of_nothing());
    assert_ne!(DigestData::of_nothing(), DigestData::zeros());
    assert_eq!(DigestData::from(create()), DigestData::of_nothing());
}

#[test]
fn digest_from_computer_is_the_sha256_of_what_was_fed() {
    let mut dc = create();
    digest::Digest::input(&mut dc, b"abc");
    assert_eq!(
        DigestData::from(dc).to_string(),
        "ba7816bf8f01cfea414140de5dae2223b00361a396177a9cb410ff61f20015ad"
    );
}

#[test]
fn digest_text_round_trip() {
    let text = "e3b0c44298fc1c149afbf4c8996fb92427ae41e4649b934ca495991b7852b855";
    let d = DigestData::from_str(text).unwrap();
    assert_eq!(d, DigestData::of_nothing());
    assert_eq!(d.to_string(), text);
    let upper = text.to_uppercase();
    assert_eq!(DigestData::from_str(&upper), Ok(d));
}

#[test]
fn digest_text_must_have_64_hex_digits() {
    assert_eq!(DigestData::from_str(""), Err(Error::BadLength(64, 0)));
    assert_eq!(
        DigestData::from_str("e3b0c442"),
        Err(Error::BadLength(64, 8))
    );
    let long = "0".repeat(65);
    assert_eq!(DigestData::from_str(&long), Err(Error::BadLength(64, 65)));
    let bad = "g".repeat(64);
    assert_eq!(DigestData::from_str(&bad), Err(Error::BadHexDigit));
}

#[test]
fn fast_digest_of_nothing_is_the_xxh64_of_the_empty_input() {
    assert_eq!(FastDigestData::of_nothing().to_string(), "ef46db3751d8e999");
    assert_eq!(FastDigestData::of_nothing(), FastDigestData::of_nothing());
    assert_eq!(
        FastDigestData::from(FastDigestComputer::new()),
        FastDigestData::of_nothing()
    );
}

#[test]
fn fast_digest_is_the_xxh64_of_what_was_taken_in() {
    let mut dc = FastDigestComputer::new();
    assert!(dc.input(&[42]));
    assert_eq!(FastDigestData::from(dc).to_string(), "0a9edecebeb03ae4");

    let mut dc = FastDigestComputer::new();
    assert!(dc.input(b"Hello, world!\0"));
    assert_eq!(FastDigestData::from(dc).to_string(), "7b06c531ea43e89f");
}

#[test]
fn fast_digest_does_not_depend_on_how_the_bytes_are_cut() {
    let data: Vec<u8> = (0..200u8).collect();
    let mut whole = FastDigestComputer::new();
    assert!(whole.input(&data));
    let mut parts = FastDigestComputer::new();
    assert!(parts.input(&data[..1]));
    assert!(parts.input(&data[1..70]));
    assert!(parts.input(&[]));
    assert!(parts.input(&data[70..]));
    assert_eq!(FastDigestData::from(whole), FastDigestData::from(parts));
}

#[test]
fn fast_digest_computer_counts_its_room() {
    let mut dc = FastDigestComputer::new();
    assert_eq!(dc.room(), u64::MAX);
    assert!(dc.input(&[1, 2, 3]));
    assert_eq!(dc.room(), u64::MAX - 3);
}

#[test]
fn fast_digest_text_round_trip() {
    let d = FastDigestData::from_str("EF46db3751d8e999").unwrap();
    assert_eq!(d, FastDigestData::of_nothing());
    assert_eq!(d.to_string(), "ef46db3751d8e999");
    assert_eq!(
        FastDigestData::from_str("ef46db3751d8e99"),
        Err(Error::BadLength(16, 15))
    );
    assert_eq!(
        FastDigestData::from_str("ef46db3751d8e99z"),
        Err(Error::BadHexDigit)
    );
}

#[test]
fn two_part_names_are_the_first_byte_and_the_rest() {
    let (dir, leaf) = DigestData::of_nothing().two_part_names();
    assert_eq!(dir, "e3");
    assert_eq!(
        leaf,
        "b0c44298fc1c149afbf4c8996fb92427ae41e4649b934ca495991b7852b855"
    );
    let (dir, leaf) = DigestData::zeros().two_part_names();
    assert_eq!(dir, "00");
    assert_eq!(leaf, "0".repeat(62));
}

#[test]
fn digest_from_bytes_holds_those_bytes() {
    let mut bytes = [0u8; 32];
    bytes[0] = 0xab;
    bytes[31] = 0x01;
    let d = DigestData::from_bytes(bytes);
    assert_eq!(d.to_string(), format!("ab{}01", "0".repeat(60)));
    assert_eq!(DigestData::from_bytes([0u8; 32]), DigestData::zeros());
}

#[test]
fn digests_parse_from_text() {
    let d: DigestData = "e3b0c44298fc1c149afbf4c8996fb92427ae41e4649b934ca495991b7852b855"
        .parse()
        .unwrap();
    assert_eq!(d, DigestData::of_nothing());
    let f: FastDigestData = "ef46db3751d8e999".parse().unwrap();
    assert_eq!(f, FastDigestData::of_nothing());
    assert_eq!("e3b0".parse::<DigestData>(), Err(Error::BadLength(64, 4)));
    assert_eq!(
        "ef46db3751d8e99-".parse::<FastDigestData>(),
        Err(Error::BadHexDigit)
    );
}

#[test]
fn default_fast_digest_computer_has_taken_in_nothing() {
    assert_eq!(
        FastDigestData::from(FastDigestComputer::default()),
        FastDigestData::of_nothing()
    );
}
