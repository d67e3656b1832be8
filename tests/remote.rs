use header_sync::remote::{decode_header, parse_block_hash, parse_tip_height, DecodeError};

const GENESIS_HEADER: &str = "0100000000000000000000000000000000000000000000000000000000000000000000003ba3edfd7a7b12b27ac72c3e67768f617fc81bc3888a51323a9fb8aa4b1e5e4a29ab5f49ffff001d1dac2b7c";

#[test]
fn tip_height_is_read_as_decimal() {
    assert_eq!(parse_tip_height("4032"), Ok(4032));
    assert_eq!(parse_tip_height("+7"), Ok(7));
    assert_eq!(parse_tip_height("-0"), Ok(0));
    assert_eq!(parse_tip_height("499999999"), Ok(499_999_999));
}

#[test]
fn bad_tip_height_is_refused() {
    assert_eq!(parse_tip_height(""), Err(DecodeError::BadHeight));
    assert_eq!(parse_tip_height("12a"), Err(DecodeError::BadHeight));
    assert_eq!(parse_tip_height("-5"), Err(DecodeError::BadHeight));
    assert_eq!(parse_tip_height("500000000"), Err(DecodeError::BadHeight));
    assert_eq!(parse_tip_height("840000\n"), Err(DecodeError::BadHeight));
}

#[test]
fn block_hash_takes_sixty_four_hex_digits() {
    let text = "000000000019d6689c085ae165831e934ff763ae46a2a6c172b3f1b60a8ce26f";
    let hash = parse_block_hash(text).unwrap();
    assert_eq!(hash.to_string(), text);
    assert_eq!(parse_block_hash(&text[..62]), Err(DecodeError::BadBlockHash));
    assert_eq!(parse_block_hash(&text.replace('f', "g")), Err(DecodeError::BadBlockHash));
}

#[test]
fn genesis_header_is_decoded() {
    let header = decode_header(GENESIS_HEADER).unwrap();
    assert_eq!(header.time, 1_231_006_505);
    assert_eq!(header.nonce, 2_083_236_893);
    assert_eq!(header.bits.to_consensus(), 0x1d00_ffff);
    assert_eq!(header.difficulty_float(), 1.0);
    assert_eq!(
        header.block_hash().to_string(),
        "000000000019d6689c085ae165831e934ff763ae46a2a6c172b3f1b60a8ce26f"
    );
    let upper = GENESIS_HEADER.to_uppercase();
    assert_eq!(decode_header(&upper).unwrap(), header);
}

#[test]
fn header_text_errors() {
    assert_eq!(decode_header("0g"), Err(DecodeError::BadHex));
    assert_eq!(decode_header(&GENESIS_HEADER[..159]), Err(DecodeError::BadHex));
    assert_eq!(decode_header(&GENESIS_HEADER[..158]), Err(DecodeError::BadHeader));
    assert_eq!(decode_header(""), Err(DecodeError::BadHeader));
    let longer = format!("{}00", GENESIS_HEADER);
    assert_eq!(decode_header(&longer), Err(DecodeError::BadHeader));
}
