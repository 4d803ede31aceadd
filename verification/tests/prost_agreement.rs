//! The library's bytes against messages written and read with `prost` itself.

use prost::bytes::{Buf, BufMut};
use prost::encoding::{self, DecodeContext, WireType};
use prost::Message;
use search_worker::messages::{Envelope, MessageKind};
use search_worker::payloads::{
    CountResponse, ErrorMessage, SearchRequest, SearchResults, StringList,
};

#[derive(Clone, Debug, Default, PartialEq)]
struct ProstEnvelope {
    kind: i32,
    payload: Vec<u8>,
}

impl Message for ProstEnvelope {
    fn encode_raw(&self, buf: &mut impl BufMut) {
        if self.kind != 0 {
            encoding::int32::encode(1, &self.kind, buf);
        }
        if !self.payload.is_empty() {
            encoding::bytes::encode(2, &self.payload, buf);
        }
    }

    fn merge_field(
        &mut self,
        tag: u32,
        wire_type: WireType,
        buf: &mut impl Buf,
        ctx: DecodeContext,
    ) -> Result<(), prost::DecodeError> {
        match tag {
            1 => encoding::int32::merge(wire_type, &mut self.kind, buf, ctx),
            2 => encoding::bytes::merge(wire_type, &mut self.payload, buf, ctx),
            _ => encoding::skip_field(wire_type, tag, buf, ctx),
        }
    }

    fn encoded_len(&self) -> usize {
        let kind = if self.kind != 0 { encoding::int32::encoded_len(1, &self.kind) } else { 0 };
        let payload =
            if !self.payload.is_empty() { encoding::bytes::encoded_len(2, &self.payload) } else { 0 };
        kind + payload
    }

    fn clear(&mut self) {
        self.kind = 0;
        self.payload.clear();
    }
}

/// Stands for every payload: a repeated string 1, a string 2 and a uint32 3
/// are the fields that the payloads are made of.
#[derive(Clone, Debug, Default, PartialEq)]
struct ProstTexts {
    items: Vec<String>,
    single: String,
}

impl Message for ProstTexts {
    fn encode_raw(&self, buf: &mut impl BufMut) {
        encoding::string::encode_repeated(1, &self.items, buf);
        if !self.single.is_empty() {
            encoding::string::encode(2, &self.single, buf);
        }
    }

    fn merge_field(
        &mut self,
        tag: u32,
        wire_type: WireType,
        buf: &mut impl Buf,
        ctx: DecodeContext,
    ) -> Result<(), prost::DecodeError> {
        match tag {
            1 => encoding::string::merge_repeated(wire_type, &mut self.items, buf, ctx),
            2 => encoding::string::merge(wire_type, &mut self.single, buf, ctx),
            _ => encoding::skip_field(wire_type, tag, buf, ctx),
        }
    }

    fn encoded_len(&self) -> usize {
        let single =
            if !self.single.is_empty() { encoding::string::encoded_len(2, &self.single) } else { 0 };
        encoding::string::encoded_len_repeated(1, &self.items) + single
    }

    fn clear(&mut self) {
        self.items.clear();
        self.single.clear();
    }
}

#[derive(Clone, Debug, Default, PartialEq)]
struct ProstPair {
    first: String,
    second: String,
}

impl Message for ProstPair {
    fn encode_raw(&self, buf: &mut impl BufMut) {
        if !self.first.is_empty() {
            encoding::string::encode(1, &self.first, buf);
        }
        if !self.second.is_empty() {
            encoding::string::encode(2, &self.second, buf);
        }
    }

    fn merge_field(
        &mut self,
        tag: u32,
        wire_type: WireType,
        buf: &mut impl Buf,
        ctx: DecodeContext,
    ) -> Result<(), prost::DecodeError> {
        match tag {
            1 => encoding::string::merge(wire_type, &mut self.first, buf, ctx),
            2 => encoding::string::merge(wire_type, &mut self.second, buf, ctx),
            _ => encoding::skip_field(wire_type, tag, buf, ctx),
        }
    }

    fn encoded_len(&self) -> usize {
        let first =
            if !self.first.is_empty() { encoding::string::encoded_len(1, &self.first) } else { 0 };
        let second =
            if !self.second.is_empty() { encoding::string::encoded_len(2, &self.second) } else { 0 };
        first + second
    }

    fn clear(&mut self) {
        self.first.clear();
        self.second.clear();
    }
}

#[derive(Clone, Debug, Default, PartialEq)]
struct ProstCount {
    count: u32,
}

impl Message for ProstCount {
    fn encode_raw(&self, buf: &mut impl BufMut) {
        if self.count != 0 {
            encoding::uint32::encode(1, &self.count, buf);
        }
    }

    fn merge_field(
        &mut self,
        tag: u32,
        wire_type: WireType,
        buf: &mut impl Buf,
        ctx: DecodeContext,
    ) -> Result<(), prost::DecodeError> {
        match tag {
            1 => encoding::uint32::merge(wire_type, &mut self.count, buf, ctx),
            _ => encoding::skip_field(wire_type, tag, buf, ctx),
        }
    }

    fn encoded_len(&self) -> usize {
        if self.count != 0 {
            encoding::uint32::encoded_len(1, &self.count)
        } else {
            0
        }
    }

    fn clear(&mut self) {
        self.count = 0;
    }
}

/// A small generator of numbers, the same on every run.
struct Dice(u64);

impl Dice {
    fn next(&mut self) -> u64 {
        self.0 = self.0.wrapping_mul(6364136223846793005).wrapping_add(1442695040888963407);
        self.0 >> 33
    }

    fn below(&mut self, bound: u64) -> u64 {
        self.next() % bound
    }

    fn text(&mut self) -> String {
        let pool = ["", "a", "an", "Apple", "banana", "ÄÖ", "日本語", "🦀", "x y", "\n"];
        let mut text = String::new();
        for _ in 0..self.below(4) {
            text.push_str(pool[self.below(pool.len() as u64) as usize]);
        }
        text
    }

    fn texts(&mut self) -> Vec<String> {
        (0..self.below(5)).map(|_| self.text()).collect()
    }

    fn varint(&mut self) -> Vec<u8> {
        let value = match self.below(6) {
            0 => self.below(4),
            1 => self.below(300),
            2 => self.next() << 20,
            3 => u64::MAX - self.below(3),
            4 => (1u64 << 32) + self.below(12),
            _ => self.next(),
        };
        let mut out = Vec::new();
        encoding::encode_varint(value, &mut out);
        if self.below(12) == 0 {
            let last = out.len() - 1;
            out[last] |= 0x80;
            out.push(0x00);
        }
        out
    }

    /// A buffer that looks like a message, right or wrong.
    fn buffer(&mut self, depth: u32) -> Vec<u8> {
        let mut out = Vec::new();
        for _ in 0..self.below(5) {
            let tag = 1 + self.below(4);
            let wire = match self.below(10) {
                0 | 1 | 2 => 0,
                3 | 4 | 5 | 6 => 2,
                7 => 1,
                8 => 5,
                _ => 3 + self.below(5),
            };
            encoding::encode_varint(tag << 3 | wire, &mut out);
            match wire {
                0 => out.extend(self.varint()),
                1 => out.extend((0..8).map(|_| self.below(256) as u8)),
                5 => out.extend((0..4).map(|_| self.below(256) as u8)),
                2 => {
                    let body: Vec<u8> = match self.below(4) {
                        0 => self.text().into_bytes(),
                        1 => (0..self.below(6)).map(|_| self.below(256) as u8).collect(),
                        2 if depth < 3 => self.buffer(depth + 1),
                        _ => self.text().into_bytes(),
                    };
                    let slip = if self.below(15) == 0 { 1 } else { 0 };
                    encoding::encode_varint(body.len() as u64 + slip, &mut out);
                    out.extend(body);
                }
                3 => {
                    if depth < 3 {
                        out.extend(self.buffer(depth + 1));
                    }
                    let end = if self.below(8) == 0 { tag + 1 } else { tag };
                    encoding::encode_varint(end << 3 | 4, &mut out);
                }
                _ => {}
            }
        }
        match self.below(20) {
            0 => {
                out.pop();
            }
            1 => out.push(self.below(256) as u8),
            2 if !out.is_empty() => {
                let at = self.below(out.len() as u64) as usize;
                out[at] = self.below(256) as u8;
            }
            _ => {}
        }
        out
    }
}

fn kind_of(dice: &mut Dice) -> i32 {
    match dice.below(4) {
        0 => dice.below(10) as i32,
        1 => dice.below(2000) as i32 - 1000,
        2 => i32::MIN + dice.below(3) as i32,
        _ => dice.next() as i32,
    }
}

#[test]
fn envelope_is_written_as_prost_writes_it() {
    let mut dice = Dice(1);
    for _ in 0..3000 {
        let kind = kind_of(&mut dice);
        let payload: Vec<u8> = (0..dice.below(200)).map(|_| dice.below(256) as u8).collect();
        let ours = Envelope { kind: MessageKind::from_i32(kind), payload: payload.clone() };
        let theirs = ProstEnvelope { kind, payload };
        assert_eq!(ours.encode(), theirs.encode_to_vec());
    }
}

#[test]
fn payloads_are_written_as_prost_writes_them() {
    let mut dice = Dice(2);
    for _ in 0..3000 {
        let items = dice.texts();
        let first = dice.text();
        let second = dice.text();
        let count = dice.next() as u32 >> dice.below(32);
        assert_eq!(
            StringList { strings: items.clone() }.encode(),
            ProstTexts { items: items.clone(), single: String::new() }.encode_to_vec()
        );
        assert_eq!(
            SearchResults { results: items.clone(), search_id: second.clone() }.encode(),
            ProstTexts { items, single: second.clone() }.encode_to_vec()
        );
        assert_eq!(
            SearchRequest { query: first.clone(), search_id: second.clone() }.encode(),
            ProstPair { first: first.clone(), second }.encode_to_vec()
        );
        assert_eq!(
            ErrorMessage { message: first.clone() }.encode(),
            ProstPair { first, second: String::new() }.encode_to_vec()
        );
        assert_eq!(CountResponse { count }.encode(), ProstCount { count }.encode_to_vec());
    }
}

#[test]
fn envelope_is_read_as_prost_reads_it() {
    let mut dice = Dice(3);
    let mut accepted = 0;
    let mut refused = 0;
    for _ in 0..20000 {
        let bytes = dice.buffer(0);
        let ours = Envelope::decode(&bytes);
        match ProstEnvelope::decode(bytes.as_slice()) {
            Ok(theirs) => {
                accepted += 1;
                let ours = ours.unwrap_or_else(|e| panic!("{:?} on {:?}", e, bytes));
                assert_eq!(ours.kind.to_i32(), theirs.kind, "{:?}", bytes);
                assert_eq!(ours.payload, theirs.payload, "{:?}", bytes);
            }
            Err(_) => {
                refused += 1;
                assert!(ours.is_err(), "{:?}", bytes);
            }
        }
    }
    assert!(accepted > 1000 && refused > 1000, "{} {}", accepted, refused);
}

#[test]
fn string_payloads_are_read_as_prost_reads_them() {
    let mut dice = Dice(4);
    let mut accepted = 0;
    let mut refused = 0;
    for _ in 0..20000 {
        let bytes = dice.buffer(0);
        let list = StringList::decode(&bytes);
        let results = SearchResults::decode(&bytes);
        match ProstTexts::decode(bytes.as_slice()) {
            Ok(theirs) => {
                accepted += 1;
                let results = results.unwrap_or_else(|e| panic!("{:?} on {:?}", e, bytes));
                assert_eq!(results.results, theirs.items, "{:?}", bytes);
                assert_eq!(results.search_id, theirs.single, "{:?}", bytes);
                if let Ok(list) = &list {
                    assert_eq!(list.strings, theirs.items, "{:?}", bytes);
                }
            }
            Err(_) => {
                refused += 1;
                assert!(results.is_err(), "{:?}", bytes);
            }
        }
        let request = SearchRequest::decode(&bytes);
        let message = ErrorMessage::decode(&bytes);
        match ProstPair::decode(bytes.as_slice()) {
            Ok(theirs) => {
                let request = request.unwrap_or_else(|e| panic!("{:?} on {:?}", e, bytes));
                assert_eq!(request.query, theirs.first, "{:?}", bytes);
                assert_eq!(request.search_id, theirs.second, "{:?}", bytes);
                if let Ok(message) = &message {
                    assert_eq!(message.message, theirs.first, "{:?}", bytes);
                }
            }
            Err(_) => assert!(request.is_err(), "{:?}", bytes),
        }
    }
    assert!(accepted > 1000 && refused > 1000, "{} {}", accepted, refused);
}

#[test]
fn count_is_read_as_prost_reads_it() {
    let mut dice = Dice(5);
    let mut accepted = 0;
    for _ in 0..20000 {
        let bytes = dice.buffer(0);
        let ours = CountResponse::decode(&bytes);
        match ProstCount::decode(bytes.as_slice()) {
            Ok(theirs) => {
                accepted += 1;
                assert_eq!(ours, Ok(CountResponse { count: theirs.count }), "{:?}", bytes);
            }
            Err(_) => assert!(ours.is_err(), "{:?}", bytes),
        }
    }
    assert!(accepted > 1000, "{}", accepted);
}

#[test]
fn deep_groups_hit_the_same_limit() {
    for depth in [1usize, 50, 99, 100, 101, 150] {
        let mut bytes = Vec::new();
        for _ in 0..depth {
            bytes.push(0x1B);
        }
        for _ in 0..depth {
            bytes.push(0x1C);
        }
        let ours = Envelope::decode(&bytes);
        let theirs = ProstEnvelope::decode(bytes.as_slice());
        assert_eq!(ours.is_ok(), theirs.is_ok(), "depth {}", depth);
    }
}
