use search_worker::messages::{decode, encode, Envelope, MessageKind};
use search_worker::payloads::{
    CountResponse, ErrorMessage, SearchRequest, SearchResults, StringList,
};
use search_worker::wire::{read_fields, DecodeError, Field, Value};

fn strings_of(items: &[&str]) -> Vec<String> {
    items.iter().map(|s| s.to_string()).collect()
}

#[test]
fn kind_numbers_are_stable() {
    let kinds = [
        (MessageKind::AddStrings, 0),
        (MessageKind::RemoveStrings, 1),
        (MessageKind::Search, 2),
        (MessageKind::CancelSearch, 3),
        (MessageKind::Clear, 4),
        (MessageKind::StringsAdded, 5),
        (MessageKind::StringsRemoved, 6),
        (MessageKind::SearchResults, 7),
        (MessageKind::SearchCancelled, 8),
        (MessageKind::Error, 9),
        (MessageKind::Unknown(10), 10),
        (MessageKind::Unknown(999), 999),
        (MessageKind::Unknown(-1), -1),
        (MessageKind::Unknown(i32::MIN), i32::MIN),
        (MessageKind::Unknown(i32::MAX), i32::MAX),
    ];
    for (kind, number) in kinds {
        assert_eq!(kind.to_i32(), number);
        assert_eq!(MessageKind::from_i32(number), kind);
    }
}

#[test]
fn envelope_bytes_are_exact() {
    assert_eq!(
        encode(MessageKind::Search, vec![1, 2, 3]),
        vec![0x08, 0x02, 0x12, 0x03, 1, 2, 3]
    );
    assert_eq!(encode(MessageKind::Clear, Vec::new()), vec![0x08, 0x04]);
    assert_eq!(encode(MessageKind::AddStrings, Vec::new()), Vec::<u8>::new());
    assert_eq!(encode(MessageKind::AddStrings, vec![7]), vec![0x12, 0x01, 7]);
    assert_eq!(encode(MessageKind::Unknown(999), Vec::new()), vec![0x08, 0xE7, 0x07]);
}

#[test]
fn negative_kind_takes_ten_bytes() {
    let bytes = encode(MessageKind::Unknown(-1), Vec::new());
    assert_eq!(
        bytes,
        vec![0x08, 0xFF, 0xFF, 0xFF, 0xFF, 0xFF, 0xFF, 0xFF, 0xFF, 0xFF, 0x01]
    );
    assert_eq!(decode(&bytes).unwrap().kind, MessageKind::Unknown(-1));
    let lowest = encode(MessageKind::Unknown(i32::MIN), Vec::new());
    assert_eq!(decode(&lowest).unwrap().kind, MessageKind::Unknown(i32::MIN));
}

#[test]
fn long_payload_has_a_two_byte_length() {
    let payload = vec![0xABu8; 300];
    let bytes = encode(MessageKind::Error, payload.clone());
    assert_eq!(&bytes[..5], &[0x08, 0x09, 0x12, 0xAC, 0x02]);
    assert_eq!(bytes.len(), 305);
    let envelope = decode(&bytes).unwrap();
    assert_eq!(envelope, Envelope { kind: MessageKind::Error, payload });
}

#[test]
fn envelope_round_trips() {
    let kinds = [
        MessageKind::AddStrings,
        MessageKind::RemoveStrings,
        MessageKind::Search,
        MessageKind::CancelSearch,
        MessageKind::Clear,
        MessageKind::StringsAdded,
        MessageKind::StringsRemoved,
        MessageKind::SearchResults,
        MessageKind::SearchCancelled,
        MessageKind::Error,
        MessageKind::Unknown(10),
        MessageKind::Unknown(-7),
        MessageKind::Unknown(i32::MAX),
    ];
    let payloads: [Vec<u8>; 4] = [vec![], vec![0], vec![0xFF, 0x00, 0x80], vec![9; 200]];
    for kind in kinds {
        for payload in &payloads {
            let envelope = Envelope { kind, payload: payload.clone() };
            assert_eq!(decode(&envelope.encode()), Ok(envelope.clone()));
            assert_eq!(Envelope::decode(&encode(kind, payload.clone())), Ok(envelope));
        }
    }
}

#[test]
fn empty_buffer_is_the_default_envelope() {
    assert_eq!(
        decode(&[]),
        Ok(Envelope { kind: MessageKind::AddStrings, payload: Vec::new() })
    );
}

#[test]
fn unknown_kind_decodes_without_error() {
    let envelope = decode(&[0x08, 0xE7, 0x07]).unwrap();
    assert_eq!(envelope.kind, MessageKind::Unknown(999));
    assert_eq!(envelope.kind.to_i32(), 999);
}

#[test]
fn kind_is_cut_to_32_bits() {
    // 2^32 + 2 as a varint: the low 32 bits are 2.
    let envelope = decode(&[0x08, 0x82, 0x80, 0x80, 0x80, 0x10]).unwrap();
    assert_eq!(envelope.kind, MessageKind::Search);
}

#[test]
fn last_value_of_a_field_wins() {
    let envelope = decode(&[0x08, 0x02, 0x12, 0x01, 5, 0x08, 0x04, 0x12, 0x02, 6, 7]).unwrap();
    assert_eq!(envelope, Envelope { kind: MessageKind::Clear, payload: vec![6, 7] });
}

#[test]
fn fields_may_come_in_any_order() {
    let envelope = decode(&[0x12, 0x01, 5, 0x08, 0x02]).unwrap();
    assert_eq!(envelope, Envelope { kind: MessageKind::Search, payload: vec![5] });
}

#[test]
fn unknown_fields_are_stepped_over() {
    let bytes = [
        0x18, 0x96, 0x01, // field 3, varint 150
        0x08, 0x02, // kind
        0x25, 1, 2, 3, 4, // field 4, four bytes
        0x29, 1, 2, 3, 4, 5, 6, 7, 8, // field 5, eight bytes
        0x32, 0x02, 9, 9, // field 6, two bytes
        0x12, 0x01, 0x2A, // payload
        0x3B, 0x08, 0x01, 0x3C, // field 7, a group with one varint field
    ];
    let envelope = decode(&bytes).unwrap();
    assert_eq!(envelope, Envelope { kind: MessageKind::Search, payload: vec![0x2A] });
}

#[test]
fn nested_groups_are_stepped_over() {
    let bytes = [0x3B, 0x43, 0x44, 0x12, 0x00, 0x3C, 0x08, 0x03];
    let fields = read_fields(&bytes).unwrap();
    assert_eq!(
        fields,
        vec![
            Field { tag: 7, value: Value::Other },
            Field { tag: 1, value: Value::Varint(3) },
        ]
    );
}

#[test]
fn group_without_its_end_is_malformed() {
    assert_eq!(read_fields(&[0x3B, 0x08, 0x01]), Err(DecodeError::Wire));
    assert_eq!(read_fields(&[0x3B, 0x08, 0x01, 0x44]), Err(DecodeError::Wire));
    assert_eq!(read_fields(&[0x3C]), Err(DecodeError::Wire));
}

#[test]
fn read_fields_gives_fields_in_order() {
    let fields = read_fields(&[0x08, 0x96, 0x01, 0x12, 0x02, 7, 8, 0x1D, 0, 0, 0, 0]).unwrap();
    assert_eq!(
        fields,
        vec![
            Field { tag: 1, value: Value::Varint(150) },
            Field { tag: 2, value: Value::Bytes(vec![7, 8]) },
            Field { tag: 3, value: Value::Other },
        ]
    );
    assert_eq!(read_fields(&[]), Ok(Vec::new()));
}

#[test]
fn malformed_buffers_are_wire_errors() {
    let cases: [&[u8]; 12] = [
        &[0x08],                   // key without a value
        &[0x80],                   // varint without an end
        &[0x12, 0x05, 1, 2],       // length past the end
        &[0x00],                   // tag zero
        &[0x0E],                   // wire type 6
        &[0x0F],                   // wire type 7
        &[0x0C],                   // end of group without a start
        &[0x0D, 1, 2, 3],          // four bytes wanted, three there
        &[0x09, 1, 2, 3, 4, 5, 6, 7], // eight bytes wanted, seven there
        &[0x80, 0x80, 0x80, 0x80, 0x10, 0x00], // key above 32 bits
        &[0x08, 0xFF, 0xFF, 0xFF, 0xFF, 0xFF, 0xFF, 0xFF, 0xFF, 0xFF, 0x02], // above 64 bits
        &[0x08, 0x80, 0x80, 0x80, 0x80, 0x80, 0x80, 0x80, 0x80, 0x80, 0x80, 0x00], // eleven bytes
    ];
    for bytes in cases {
        assert_eq!(decode(bytes), Err(DecodeError::Wire), "{:?}", bytes);
        assert_eq!(read_fields(bytes), Err(DecodeError::Wire), "{:?}", bytes);
        assert_eq!(StringList::decode(bytes), Err(DecodeError::Wire), "{:?}", bytes);
        assert_eq!(CountResponse::decode(bytes), Err(DecodeError::Wire), "{:?}", bytes);
    }
}

#[test]
fn largest_varint_is_read() {
    let fields =
        read_fields(&[0x08, 0xFF, 0xFF, 0xFF, 0xFF, 0xFF, 0xFF, 0xFF, 0xFF, 0xFF, 0x01]).unwrap();
    assert_eq!(fields, vec![Field { tag: 1, value: Value::Varint(u64::MAX) }]);
}

#[test]
fn padded_varint_is_read() {
    let fields = read_fields(&[0x08, 0x81, 0x80, 0x00]).unwrap();
    assert_eq!(fields, vec![Field { tag: 1, value: Value::Varint(1) }]);
}

#[test]
fn largest_tag_is_read() {
    let fields = read_fields(&[0xF8, 0xFF, 0xFF, 0xFF, 0x0F, 0x01]).unwrap();
    assert_eq!(fields, vec![Field { tag: 0x1FFF_FFFF, value: Value::Varint(1) }]);
}

#[test]
fn wrong_wire_type_is_a_field_error() {
    assert_eq!(decode(&[0x0A, 0x01, 0x02]), Err(DecodeError::Field));
    assert_eq!(decode(&[0x10, 0x01]), Err(DecodeError::Field));
    assert_eq!(decode(&[0x0D, 1, 2, 3, 4]), Err(DecodeError::Field));
    assert_eq!(StringList::decode(&[0x08, 0x01]), Err(DecodeError::Field));
    assert_eq!(SearchRequest::decode(&[0x10, 0x01]), Err(DecodeError::Field));
    assert_eq!(SearchRequest::decode(&[0x08, 0x01]), Err(DecodeError::Field));
    assert_eq!(SearchResults::decode(&[0x08, 0x01]), Err(DecodeError::Field));
    assert_eq!(SearchResults::decode(&[0x15, 1, 2, 3, 4]), Err(DecodeError::Field));
    assert_eq!(CountResponse::decode(&[0x0A, 0x00]), Err(DecodeError::Field));
    assert_eq!(ErrorMessage::decode(&[0x08, 0x01]), Err(DecodeError::Field));
}

#[test]
fn text_that_is_not_utf8_is_a_field_error() {
    assert_eq!(StringList::decode(&[0x0A, 0x01, 0xFF]), Err(DecodeError::Field));
    assert_eq!(StringList::decode(&[0x0A, 0x02, 0xC3, 0x28]), Err(DecodeError::Field));
    assert_eq!(SearchRequest::decode(&[0x0A, 0x01, 0x80]), Err(DecodeError::Field));
    assert_eq!(SearchRequest::decode(&[0x12, 0x03, 0xED, 0xA0, 0x80]), Err(DecodeError::Field));
    assert_eq!(SearchResults::decode(&[0x12, 0x01, 0xC0]), Err(DecodeError::Field));
    assert_eq!(ErrorMessage::decode(&[0x0A, 0x02, 0xE2, 0x82]), Err(DecodeError::Field));
}

#[test]
fn wire_error_comes_before_field_error() {
    assert_eq!(StringList::decode(&[0x0A, 0x01, 0xFF, 0x08]), Err(DecodeError::Wire));
    assert_eq!(decode(&[0x10, 0x01, 0x80]), Err(DecodeError::Wire));
}

#[test]
fn string_list_bytes_are_exact() {
    let list = StringList { strings: strings_of(&["ab", "", "c"]) };
    assert_eq!(list.encode(), vec![0x0A, 0x02, b'a', b'b', 0x0A, 0x00, 0x0A, 0x01, b'c']);
    assert_eq!(StringList { strings: Vec::new() }.encode(), Vec::<u8>::new());
}

#[test]
fn string_list_round_trips() {
    let lists = [
        strings_of(&[]),
        strings_of(&[""]),
        strings_of(&["Apple", "banana", "Cherry"]),
        strings_of(&["a", "a", "", "a"]),
        strings_of(&["naïve", "日本語", "🦀 crab", "\u{0}"]),
        vec!["x".repeat(1000), "y".repeat(130)],
    ];
    for strings in lists {
        let list = StringList { strings };
        assert_eq!(StringList::decode(&list.encode()), Ok(list));
    }
}

#[test]
fn string_list_steps_over_other_fields() {
    let list = StringList::decode(&[0x0A, 0x01, b'a', 0x10, 0x07, 0x12, 0x01, b'z', 0x0A, 0x01, b'b'])
        .unwrap();
    assert_eq!(list.strings, strings_of(&["a", "b"]));
}

#[test]
fn search_request_bytes_are_exact() {
    let request = SearchRequest { query: "an".to_string(), search_id: "s1".to_string() };
    assert_eq!(request.encode(), vec![0x0A, 0x02, b'a', b'n', 0x12, 0x02, b's', b'1']);
    let bare = SearchRequest { query: "an".to_string(), search_id: String::new() };
    assert_eq!(bare.encode(), vec![0x0A, 0x02, b'a', b'n']);
    let nothing = SearchRequest { query: String::new(), search_id: String::new() };
    assert_eq!(nothing.encode(), Vec::<u8>::new());
}

#[test]
fn search_request_round_trips() {
    let pairs = [("", ""), ("an", ""), ("", "id"), ("Query", "s1"), ("ÄÖ ü", "🆔")];
    for (query, search_id) in pairs {
        let request = SearchRequest { query: query.to_string(), search_id: search_id.to_string() };
        assert_eq!(SearchRequest::decode(&request.encode()), Ok(request));
    }
}

#[test]
fn search_request_keeps_the_last_query() {
    let request =
        SearchRequest::decode(&[0x0A, 0x01, b'a', 0x12, 0x01, b'i', 0x0A, 0x01, b'b']).unwrap();
    assert_eq!(request, SearchRequest { query: "b".to_string(), search_id: "i".to_string() });
}

#[test]
fn search_results_bytes_are_exact() {
    let results =
        SearchResults { results: strings_of(&["banana"]), search_id: "s1".to_string() };
    assert_eq!(
        results.encode(),
        vec![0x0A, 0x06, b'b', b'a', b'n', b'a', b'n', b'a', 0x12, 0x02, b's', b'1']
    );
}

#[test]
fn search_results_round_trip() {
    let cases = [
        (strings_of(&[]), ""),
        (strings_of(&[]), "id"),
        (strings_of(&["banana"]), "s1"),
        (strings_of(&["", "x", ""]), ""),
        (strings_of(&["é", "日本"]), "ü"),
    ];
    for (results, search_id) in cases {
        let found = SearchResults { results, search_id: search_id.to_string() };
        assert_eq!(SearchResults::decode(&found.encode()), Ok(found));
    }
}

#[test]
fn search_results_interleaved_fields() {
    let found = SearchResults::decode(&[
        0x12, 0x01, b'x', 0x0A, 0x01, b'a', 0x12, 0x01, b'y', 0x0A, 0x01, b'b',
    ])
    .unwrap();
    assert_eq!(found, SearchResults { results: strings_of(&["a", "b"]), search_id: "y".to_string() });
}

#[test]
fn count_response_bytes_are_exact() {
    assert_eq!(CountResponse { count: 0 }.encode(), Vec::<u8>::new());
    assert_eq!(CountResponse { count: 3 }.encode(), vec![0x08, 0x03]);
    assert_eq!(CountResponse { count: 127 }.encode(), vec![0x08, 0x7F]);
    assert_eq!(CountResponse { count: 128 }.encode(), vec![0x08, 0x80, 0x01]);
    assert_eq!(CountResponse { count: 300 }.encode(), vec![0x08, 0xAC, 0x02]);
    assert_eq!(
        CountResponse { count: u32::MAX }.encode(),
        vec![0x08, 0xFF, 0xFF, 0xFF, 0xFF, 0x0F]
    );
}

#[test]
fn count_response_round_trips() {
    for count in [0, 1, 127, 128, 300, 16383, 16384, 1 << 21, u32::MAX - 1, u32::MAX] {
        let response = CountResponse { count };
        assert_eq!(CountResponse::decode(&response.encode()), Ok(response));
    }
}

#[test]
fn count_is_cut_to_32_bits() {
    // 2^32 + 5
    assert_eq!(
        CountResponse::decode(&[0x08, 0x85, 0x80, 0x80, 0x80, 0x10]),
        Ok(CountResponse { count: 5 })
    );
    assert_eq!(
        CountResponse::decode(&[0x08, 0xFF, 0xFF, 0xFF, 0xFF, 0xFF, 0xFF, 0xFF, 0xFF, 0xFF, 0x01]),
        Ok(CountResponse { count: u32::MAX })
    );
}

#[test]
fn error_message_round_trips() {
    for text in ["", "Failed to set timeout: boom", "ünï"] {
        let message = ErrorMessage { message: text.to_string() };
        assert_eq!(ErrorMessage::decode(&message.encode()), Ok(message));
    }
    assert_eq!(
        ErrorMessage { message: "no".to_string() }.encode(),
        vec![0x0A, 0x02, b'n', b'o']
    );
}
