//! Strkeys, base64, and XDR values on concrete inputs.

use stellar_router::address::Address;
use stellar_router::base64::{base64_decode, base64_encode};
use stellar_router::error::XdrError;
use stellar_router::scval::{parse_route_entry, parse_string_vec, XdrReader};
use stellar_router::strkey::{
    crc16, decode_contract_id, encode_account_strkey, encode_contract_strkey, strkey_decode,
    strkey_encode,
};
use stellar_router::xdr::{
    build_invoke_xdr, ScArg, XdrWriter, SCV_ADDRESS, SCV_BOOL, SCV_MAP, SCV_STRING, SCV_SYMBOL,
    SCV_VEC, SC_ADDR_ACCOUNT, SC_ADDR_CONTRACT,
};

const ZERO_CONTRACT: &str = "CAAAAAAAAAAAAAAAAAAAAAAAAAAAAAAAAAAAAAAAAAAAAAAAAAAABSC4";

#[test]
fn decode_and_reencode_contract_strkey() {
    let hash = decode_contract_id(ZERO_CONTRACT).expect("decode");
    assert_eq!(hash, [0u8; 32]);
    let re = encode_contract_strkey(&hash);
    assert_eq!(re, ZERO_CONTRACT);
}

#[test]
fn decode_wrong_version_fails() {
    let account = "GAAZI4TCR3TY5OJHCTJC2A4QSY6CJWJH5IAJTGKIN2ER7LBNVKOCCWN";
    assert!(decode_contract_id(account).is_err());
}

#[test]
fn base64_round_trip() {
    let data = b"hello world \x00\xFF";
    let enc = base64_encode(data);
    let dec = base64_decode(&enc).unwrap();
    assert_eq!(dec, data);
}

#[test]
fn build_invoke_xdr_is_valid_base64_and_nonempty() {
    let hash = [0u8; 32];
    let xdr = build_invoke_xdr(&hash, "get_all_routes", &[]);
    let bytes = base64_decode(&xdr).unwrap();
    assert_eq!(&bytes[0..4], &[0, 0, 0, 2]);
}

#[test]
fn build_invoke_xdr_with_string_arg() {
    let hash = [0u8; 32];
    let xdr = build_invoke_xdr(&hash, "get_route", &[ScArg::String("oracle")]);
    let bytes = base64_decode(&xdr).unwrap();
    assert_eq!(&bytes[0..4], &[0, 0, 0, 2]);
}

#[test]
fn parse_string_vec_empty_void() {
    let bytes = [0u8, 0, 0, 1];
    let enc = base64_encode(&bytes);
    let result = parse_string_vec(&enc).unwrap();
    assert!(result.is_empty());
}

#[test]
fn parse_string_vec_one_element() {
    let mut w = XdrWriter::new();
    w.u32(SCV_VEC);
    w.u32(1);
    w.u32(1);
    w.u32(SCV_STRING);
    w.opaque_var(b"ab");
    let enc = base64_encode(&w.into_bytes());
    let result = parse_string_vec(&enc).unwrap();
    assert_eq!(result, vec!["ab".to_string()]);
}

#[test]
fn parse_route_entry_void_returns_none() {
    let bytes = [0u8, 0, 0, 1];
    let enc = base64_encode(&bytes);
    let result = parse_route_entry(&enc).unwrap();
    assert!(result.is_none());
}

#[test]
fn parse_route_entry_map() {
    let mut w = XdrWriter::new();
    w.u32(SCV_MAP);
    w.u32(1);
    w.u32(2);

    w.u32(SCV_SYMBOL);
    w.opaque_var(b"paused");
    w.u32(SCV_BOOL);
    w.u32(0);

    w.u32(SCV_SYMBOL);
    w.opaque_var(b"name");
    w.u32(SCV_STRING);
    w.opaque_var(b"r1");

    let enc = base64_encode(&w.into_bytes());
    let result = parse_route_entry(&enc).unwrap();
    assert!(result.is_none());
}

#[test]
fn parse_route_entry_full_map() {
    let contract_hash = [0xABu8; 32];
    let mut w = XdrWriter::new();
    w.u32(SCV_MAP);
    w.u32(1);
    w.u32(4);

    w.u32(SCV_SYMBOL);
    w.opaque_var(b"address");
    w.u32(SCV_ADDRESS);
    w.u32(SC_ADDR_CONTRACT);
    w.opaque_fixed(&contract_hash);

    w.u32(SCV_SYMBOL);
    w.opaque_var(b"name");
    w.u32(SCV_STRING);
    w.opaque_var(b"vault");

    w.u32(SCV_SYMBOL);
    w.opaque_var(b"paused");
    w.u32(SCV_BOOL);
    w.u32(1);

    w.u32(SCV_SYMBOL);
    w.opaque_var(b"updated_by");
    w.u32(SCV_ADDRESS);
    w.u32(SC_ADDR_CONTRACT);
    w.opaque_fixed(&[0u8; 32]);

    let enc = base64_encode(&w.into_bytes());
    let entry = parse_route_entry(&enc).unwrap().expect("should have entry");

    assert_eq!(entry.name, "vault");
    assert!(entry.paused);
    assert_eq!(entry.address, encode_contract_strkey(&contract_hash));
    assert_eq!(entry.updated_by, ZERO_CONTRACT);
}

#[test]
fn crc16_known_vector() {
    let mut data = vec![0x02u8];
    data.extend_from_slice(&[0u8; 32]);
    let crc = crc16(&data);
    let re = encode_contract_strkey(&[0u8; 32]);
    assert!(decode_contract_id(&re).is_ok());
    let _ = crc;
}

#[test]
fn crc16_of_the_standard_check_string() {
    assert_eq!(crc16(b"123456789"), 0x31C3);
    assert_eq!(crc16(b""), 0);
}

#[test]
fn strkey_round_trip_on_values() {
    let mut payload = [0u8; 32];
    for (i, b) in payload.iter_mut().enumerate() {
        *b = (i * 37 + 11) as u8;
    }
    let text = strkey_encode(0x30, &payload);
    assert_eq!(text.len(), 56);
    assert!(text.starts_with('G'));
    assert_eq!(strkey_decode(&text), Ok((0x30, payload)));
    assert_eq!(encode_account_strkey(&payload), text);
    assert_eq!(Address::Account(payload).to_strkey(), text);
}

#[test]
fn zero_account_strkey() {
    assert_eq!(
        encode_account_strkey(&[0u8; 32]),
        "GAAAAAAAAAAAAAAAAAAAAAAAAAAAAAAAAAAAAAAAAAAAAAAAAAAAAWHF"
    );
}

#[test]
fn strkey_errors() {
    assert_eq!(decode_contract_id("CAAA"), Err(XdrError::StrkeyLength { len: 4 }));
    let mut bad = ZERO_CONTRACT.to_string();
    bad.replace_range(3..4, "1");
    assert_eq!(decode_contract_id(&bad), Err(XdrError::Base32Character { byte: b'1' }));
    let mut damaged = ZERO_CONTRACT.to_string();
    damaged.replace_range(3..4, "B");
    assert_eq!(decode_contract_id(&damaged), Err(XdrError::StrkeyChecksum));
    let account = encode_account_strkey(&[7u8; 32]);
    assert_eq!(decode_contract_id(&account), Err(XdrError::StrkeyVersion { version: 0x30 }));
}

#[test]
fn base64_known_texts() {
    assert_eq!(base64_encode(b""), "");
    assert_eq!(base64_encode(b"f"), "Zg==");
    assert_eq!(base64_encode(b"fo"), "Zm8=");
    assert_eq!(base64_encode(b"foo"), "Zm9v");
    assert_eq!(base64_encode(&[0xfb, 0xff, 0xbf]), "+/+/");
    assert_eq!(base64_decode("Zg"), Ok(b"f".to_vec()));
    assert_eq!(base64_decode("Zg====="), Ok(b"f".to_vec()));
    assert_eq!(base64_decode("+/+/"), Ok(vec![0xfb, 0xff, 0xbf]));
}

#[test]
fn base64_errors() {
    assert_eq!(base64_decode("Zm9!"), Err(XdrError::Base64Character));
    assert_eq!(base64_decode("Z!"), Err(XdrError::Base64Character));
    assert_eq!(base64_decode("Zm9vZ"), Err(XdrError::Base64Length));
    assert_eq!(base64_decode("!"), Err(XdrError::Base64Length));
    assert_eq!(base64_decode("Zm!vZ"), Err(XdrError::Base64Character));
    assert_eq!(base64_decode("Zm9v\u{e9}"), Err(XdrError::Base64Character));
}

#[test]
fn invoke_envelope_bytes() {
    let hash = [9u8; 32];
    let xdr = build_invoke_xdr(&hash, "get_route", &[ScArg::String("oracle")]);
    let bytes = base64_decode(&xdr).unwrap();
    let mut w = XdrWriter::new();
    w.u32(2);
    w.u32(0);
    w.opaque_fixed(&[0u8; 32]);
    w.u32(100);
    w.i64(0);
    for v in [0, 0, 1, 0, 24, 0, 1] {
        w.u32(v);
    }
    w.opaque_fixed(&hash);
    w.opaque_var(b"get_route");
    w.u32(1);
    w.u32(14);
    w.opaque_var(b"oracle");
    w.u32(0);
    w.u32(0);
    w.u32(0);
    assert_eq!(bytes, w.into_bytes());
    assert_eq!(bytes.len() % 4, 0);
}

#[test]
fn writer_bytes() {
    let mut w = XdrWriter::new();
    w.u32(0x0102_0304);
    w.i64(-2);
    w.opaque_var(&[7, 8, 9, 10, 11]);
    assert_eq!(
        w.into_bytes(),
        vec![
            1, 2, 3, 4, 0xff, 0xff, 0xff, 0xff, 0xff, 0xff, 0xff, 0xfe, 0, 0, 0, 5, 7, 8, 9, 10,
            11, 0, 0, 0
        ]
    );
}

fn text_of(words: &[u32]) -> String {
    let mut w = XdrWriter::new();
    for v in words {
        w.u32(*v);
    }
    base64_encode(&w.into_bytes())
}

#[test]
fn string_list_edge_cases() {
    assert_eq!(parse_string_vec(&text_of(&[16, 0])), Ok(vec![]));
    assert_eq!(parse_string_vec(&text_of(&[16, 1, 0])), Ok(vec![]));
    assert_eq!(parse_string_vec(&text_of(&[17])), Err(XdrError::NotAVec { found: 17 }));
    assert_eq!(
        parse_string_vec(&text_of(&[16, 1, 1, 15])),
        Err(XdrError::NotAString { index: 0, found: 15 })
    );
    assert_eq!(
        parse_string_vec(&text_of(&[16, 1, 1, 14, 9])),
        Err(XdrError::Underflow { pos: 20, need: 9, have: 0 })
    );
    assert_eq!(parse_string_vec(""), Err(XdrError::Underflow { pos: 0, need: 4, have: 0 }));
    assert_eq!(parse_string_vec("*"), Err(XdrError::Base64Length));
    let mut w = XdrWriter::new();
    for v in [16, 1, 1, 14] {
        w.u32(v);
    }
    w.opaque_var(&[0xff]);
    assert_eq!(
        parse_string_vec(&base64_encode(&w.into_bytes())),
        Err(XdrError::StringEncoding { valid_up_to: 0, error_len: Some(1) })
    );
}

#[test]
fn encoding_errors_say_where_and_why() {
    let texts: [&[u8]; 6] = [
        &[0xff],
        b"ok\xe2\x82",
        b"abc\xc3(",
        b"\xf0\x9f\x98",
        b"caf\xc3\xa9\xed\xa0\x80",
        b"\xe2\x82\xac\xf0\x90(",
    ];
    for text in texts {
        let cause = String::from_utf8(text.to_vec()).unwrap_err();
        let mut w = XdrWriter::new();
        for v in [16, 1, 1, 14] {
            w.u32(v);
        }
        w.opaque_var(text);
        let e = parse_string_vec(&base64_encode(&w.into_bytes())).unwrap_err();
        assert_eq!(
            e,
            XdrError::StringEncoding {
                valid_up_to: cause.utf8_error().valid_up_to(),
                error_len: cause.utf8_error().error_len(),
            }
        );
        assert_eq!(e.message(), format!("XDR string UTF-8: {}", cause));
    }
}

#[test]
fn string_list_round_trip_on_values() {
    let names = ["oracle", "", "caf\u{e9}", "a-long-route-name"];
    let mut w = XdrWriter::new();
    w.u32(SCV_VEC);
    w.u32(1);
    w.u32(names.len() as u32);
    for name in names {
        w.u32(SCV_STRING);
        w.opaque_var(name.as_bytes());
    }
    let parsed = parse_string_vec(&base64_encode(&w.into_bytes())).unwrap();
    assert_eq!(parsed, names.map(|s| s.to_string()).to_vec());
}

#[test]
fn string_lists_may_have_a_tail() {
    let mut w = XdrWriter::new();
    for v in [SCV_VEC, 1, 1, SCV_STRING] {
        w.u32(v);
    }
    w.opaque_var(b"oracle");
    w.u32(SCV_STRING);
    w.opaque_var(b"not in the list");
    let mut bytes = w.into_bytes();
    bytes.push(7);
    assert_eq!(parse_string_vec(&base64_encode(&bytes)), Ok(vec!["oracle".to_string()]));
}

#[test]
fn opaque_data_are_padded_and_read_back() {
    // A string of each length behind the other, up to a multiple of four.
    let texts = ["", "a", "ab", "abc", "abcd", "abcde"];
    let lengths = [4, 8, 8, 8, 8, 12];
    let mut w = XdrWriter::new();
    w.u32(SCV_VEC);
    w.u32(1);
    w.u32(6);
    for (text, len) in texts.iter().zip(lengths) {
        let mut one = XdrWriter::new();
        one.opaque_var(text.as_bytes());
        assert_eq!(one.into_bytes().len(), len);
        w.u32(SCV_STRING);
        w.opaque_var(text.as_bytes());
    }
    let parsed = parse_string_vec(&base64_encode(&w.into_bytes())).unwrap();
    assert_eq!(parsed, texts.map(|s| s.to_string()).to_vec());
}

#[test]
fn a_reader_goes_on_behind_opaque_data() {
    for len in 0..10u8 {
        let data: Vec<u8> = (0..len).collect();
        let mut w = XdrWriter::new();
        w.opaque_var(&data);
        let mut buf = w.into_bytes();
        assert_eq!(buf.len(), 4 + (len as usize + 3) / 4 * 4);
        buf.extend_from_slice(&[9, 8, 7]);
        let mut r = XdrReader::new(&buf);
        assert_eq!(r.var(), Ok(&data[..]));
        assert_eq!(r.take(3), Ok(&[9u8, 8, 7][..]));
    }
}

#[test]
fn a_reader_that_fails_says_where_it_is() {
    // A length without the data: only the length has been read.
    let short = [0, 0, 0, 2, 1];
    let mut r = XdrReader::new(&short);
    assert_eq!(r.var(), Err(XdrError::Underflow { pos: 4, need: 2, have: 1 }));
    assert_eq!(r.take(1), Ok(&[1u8][..]));
    // The data without what fills them up: the data have been read.
    let unpadded = [1, 2, 3];
    let mut r = XdrReader::new(&unpadded);
    assert_eq!(r.fixed(2), Err(XdrError::Underflow { pos: 2, need: 2, have: 1 }));
    assert_eq!(r.u32(), Err(XdrError::Underflow { pos: 2, need: 4, have: 1 }));
    assert_eq!(r.take(1), Ok(&[3u8][..]));
    // Bytes that are no text are read all the same.
    let bytes = [0, 0, 0, 1, 0xff, 0, 0, 0, 5];
    let mut r = XdrReader::new(&bytes);
    assert_eq!(r.string(), Err(XdrError::StringEncoding { valid_up_to: 0, error_len: Some(1) }));
    assert_eq!(r.take(1), Ok(&[5u8][..]));
}

#[test]
fn different_calls_are_different_texts() {
    let calls: [(u8, &str, &[&str]); 8] = [
        (1, "get_route", &["oracle"]),
        (2, "get_route", &["oracle"]),
        (1, "get_routes", &["oracle"]),
        (1, "get_route", &["oracles"]),
        (1, "get_route", &[]),
        (1, "get_route", &["oracle", ""]),
        (1, "get_route", &["", "oracle"]),
        (1, "", &["get_route", "oracle"]),
    ];
    let text = |i: usize| {
        let (key, function, args) = calls[i];
        let args: Vec<ScArg> = args.iter().map(|s| ScArg::String(s)).collect();
        build_invoke_xdr(&[key; 32], function, &args)
    };
    for i in 0..calls.len() {
        for j in 0..calls.len() {
            assert_eq!(text(i) == text(j), i == j);
        }
    }
}

#[test]
fn one_wrong_character_breaks_a_strkey() {
    let others = "ABCDEFGHIJKLMNOPQRSTUVWXYZ234567a1-\u{e9}";
    for text in [ZERO_CONTRACT.to_string(), encode_account_strkey(&[0xa5; 32])] {
        assert!(strkey_decode(&text).is_ok());
        let chars: Vec<char> = text.chars().collect();
        for i in 0..56 {
            for c in others.chars() {
                let mut changed = chars.clone();
                changed[i] = c;
                let changed: String = changed.into_iter().collect();
                assert_eq!(strkey_decode(&changed).is_ok(), changed == text);
            }
        }
    }
}

#[test]
fn field_order_and_other_fields_do_not_matter_on_values() {
    let address = |w: &mut XdrWriter| account_entry(w, 5);
    let name = |w: &mut XdrWriter| {
        w.u32(SCV_SYMBOL);
        w.opaque_var(b"name");
        w.u32(SCV_STRING);
        w.opaque_var(b"oracle");
    };
    let paused = |w: &mut XdrWriter| {
        w.u32(SCV_SYMBOL);
        w.opaque_var(b"paused");
        w.u32(SCV_BOOL);
        w.u32(1);
    };
    let updated_by = |w: &mut XdrWriter| {
        w.u32(SCV_SYMBOL);
        w.opaque_var(b"updated_by");
        w.u32(SCV_ADDRESS);
        w.u32(SC_ADDR_CONTRACT);
        w.opaque_fixed(&[6u8; 32]);
    };
    let other = |w: &mut XdrWriter| {
        w.u32(SCV_SYMBOL);
        w.opaque_var(b"metadata");
        for v in [SCV_VEC, 1, 2, 1, 3, 9] {
            w.u32(v);
        }
    };
    let fields: [&dyn Fn(&mut XdrWriter); 5] = [&address, &name, &paused, &updated_by, &other];
    let orders: [&[usize]; 6] = [
        &[0, 1, 2, 3],
        &[3, 2, 1, 0],
        &[4, 1, 0, 3, 2],
        &[2, 4, 3, 0, 1],
        &[1, 3, 4, 2, 0],
        &[0, 2, 1, 3, 4],
    ];
    for order in orders {
        let mut w = entry_start(order.len() as u32);
        for i in order {
            fields[*i](&mut w);
        }
        let entry = parse_route_entry(&base64_encode(&w.into_bytes())).unwrap().unwrap();
        assert_eq!(entry.address, encode_account_strkey(&[5u8; 32]));
        assert_eq!(entry.name, "oracle");
        assert!(entry.paused);
        assert_eq!(entry.updated_by, encode_contract_strkey(&[6u8; 32]));
    }
}

fn entry_start(count: u32) -> XdrWriter {
    let mut w = XdrWriter::new();
    w.u32(SCV_MAP);
    w.u32(1);
    w.u32(count);
    w
}

fn account_entry(w: &mut XdrWriter, key: u8) {
    w.u32(SCV_SYMBOL);
    w.opaque_var(b"address");
    w.u32(SCV_ADDRESS);
    w.u32(SC_ADDR_ACCOUNT);
    w.u32(0);
    w.opaque_fixed(&[key; 32]);
}

#[test]
fn route_entry_skips_other_values() {
    let mut w = entry_start(5);
    // A key that is no symbol.
    w.u32(3);
    w.u32(77);
    w.u32(5);
    w.i64(-1);
    // Unknown fields that hold a vector, and a map.
    w.u32(SCV_SYMBOL);
    w.opaque_var(b"tags");
    w.u32(SCV_VEC);
    w.u32(1);
    w.u32(3);
    w.u32(1);
    w.u32(9);
    w.i64(0);
    w.i64(0);
    w.u32(13);
    w.opaque_var(&[1, 2, 3]);
    w.u32(SCV_SYMBOL);
    w.opaque_var(b"extra");
    w.u32(SCV_MAP);
    w.u32(1);
    w.u32(1);
    w.u32(SCV_SYMBOL);
    w.opaque_var(b"k");
    w.u32(11);
    w.opaque_fixed(&[0u8; 32]);
    account_entry(&mut w, 5);
    // A name that is no string leaves the name empty.
    w.u32(SCV_SYMBOL);
    w.opaque_var(b"name");
    w.u32(SCV_BOOL);
    w.u32(1);
    let entry = parse_route_entry(&base64_encode(&w.into_bytes())).unwrap().unwrap();
    assert_eq!(entry.address, encode_account_strkey(&[5u8; 32]));
    assert_eq!(entry.name, "");
    assert!(!entry.paused);
    assert_eq!(entry.updated_by, "");
}

#[test]
fn route_entry_last_key_counts() {
    let mut w = entry_start(2);
    account_entry(&mut w, 1);
    account_entry(&mut w, 2);
    let entry = parse_route_entry(&base64_encode(&w.into_bytes())).unwrap().unwrap();
    assert_eq!(entry.address, encode_account_strkey(&[2u8; 32]));

    // An address that is none clears the field, and the entry is none.
    let mut w = entry_start(2);
    account_entry(&mut w, 1);
    w.u32(SCV_SYMBOL);
    w.opaque_var(b"address");
    w.u32(1);
    assert!(parse_route_entry(&base64_encode(&w.into_bytes())).unwrap().is_none());
}

fn route_error(words: &[u32]) -> XdrError {
    match parse_route_entry(&text_of(words)) {
        Ok(_) => panic!("accepted"),
        Err(e) => e,
    }
}

#[test]
fn route_entry_errors() {
    assert_eq!(route_error(&[16]), XdrError::NotAMap { found: 16 });
    assert_eq!(route_error(&[17, 1, 1, 99]), XdrError::UnknownSkippedValue { found: 99 });
    assert_eq!(route_error(&[17, 1, 1, 18, 7]), XdrError::UnknownSkippedAddress { found: 7 });
    assert_eq!(
        route_error(&[17, 1, 1, 15, 0, 16, 1, 2, 1]),
        XdrError::Underflow { pos: 36, need: 4, have: 0 }
    );
    let mut w = entry_start(1);
    w.u32(SCV_SYMBOL);
    w.opaque_var(b"updated_by");
    w.u32(SCV_ADDRESS);
    w.u32(2);
    match parse_route_entry(&base64_encode(&w.into_bytes())) {
        Err(e) => assert_eq!(e, XdrError::UnknownAddress { found: 2 }),
        Ok(_) => panic!("accepted"),
    }
}
