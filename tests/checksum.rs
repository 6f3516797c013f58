use transporter::checksum::{checksum_of, checksum_of_chunks, Checksum};

const SHA512_ABC: &str = "ddaf35a193617abacc417349ae20413112e6fa4e89a97ea20a9eeee64b55d39a2192992a274fc1a836ba3c23a3feebbd454d4423643ce80e2a9ac94fa54ca49f";
const SHA512_EMPTY: &str = "cf83e1357eefb8bdf1542850d66d8007d620e4050b5715dc83f4a921d36ce9ce47d0d13c5d85f2b0ff8318d2877eec2f63b931bd47417a81a538327af927da3e";

#[test]
fn checksum_of_known_values() {
    assert_eq!(checksum_of(b"abc"), SHA512_ABC);
    assert_eq!(checksum_of(b""), SHA512_EMPTY);
}

#[test]
fn checksum_chunked_equals_one_pass() {
    let data: Vec<u8> = (0..10_000u32).map(|i| (i * 7 % 251) as u8).collect();
    let chunks: Vec<Vec<u8>> = data.chunks(333).map(|c| c.to_vec()).collect();
    assert_eq!(checksum_of_chunks(&chunks), checksum_of(&data));
    let split = vec![b"a".to_vec(), b"".to_vec(), b"bc".to_vec()];
    assert_eq!(checksum_of_chunks(&split), SHA512_ABC);
}

#[test]
fn running_checksum() {
    let mut c = Checksum::new();
    c.update(b"ab");
    c.update(b"c");
    let hex = c.result_str();
    assert_eq!(hex.len(), 128);
    assert_eq!(hex, SHA512_ABC);
}
