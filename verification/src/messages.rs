//! The envelope and the payloads that travel in it.
//!
//! Every message is a run of tagged fields (see [`crate::wire`]). A field that
//! holds its default value, zero or nothing, is left out when writing; a
//! reader takes fields in any order, keeps the last value of a field that
//! comes twice, and steps over tags it does not know.

use crate::text::{texts, utf8_text};
use crate::wire::{
    bytes_field, decoded, fields_view, lemma_bytes_field_read, lemma_merge_concat,
    lemma_merge_fails, lemma_merge_step, lemma_repeated_field_read, lemma_varint_field_read,
    merge_all, parse_fields, put_bytes_field, put_varint_field, read_fields, repeated_field,
    varint_field, DecodeError, FieldView, Value, ValueView,
};
use vstd::prelude::*;
use vstd::slice::slice_to_vec;
use vstd::utf8::{decode_utf8, encode_utf8, encode_utf8_decode_utf8, encode_utf8_valid_utf8, valid_utf8};

verus! {

/// What a message asks for or reports.
///
/// On the wire a kind is a number: the ten known kinds are 0 to 9 in the
/// order written here, and every other number is [`MessageKind::Unknown`].
#[derive(Clone, Copy, Debug, PartialEq, Eq, Structural)]
pub enum MessageKind {
    AddStrings,
    RemoveStrings,
    Search,
    CancelSearch,
    Clear,
    StringsAdded,
    StringsRemoved,
    SearchResults,
    SearchCancelled,
    Error,
    Unknown(i32),
}

impl MessageKind {
    /// The number that stands for the kind on the wire.
    pub open spec fn number(self) -> i32 {
        match self {
            MessageKind::AddStrings => 0,
            MessageKind::RemoveStrings => 1,
            MessageKind::Search => 2,
            MessageKind::CancelSearch => 3,
            MessageKind::Clear => 4,
            MessageKind::StringsAdded => 5,
            MessageKind::StringsRemoved => 6,
            MessageKind::SearchResults => 7,
            MessageKind::SearchCancelled => 8,
            MessageKind::Error => 9,
            MessageKind::Unknown(n) => n,
        }
    }

    /// The kind that a number stands for.
    pub open spec fn of_number(n: i32) -> MessageKind {
        if n == 0 {
            MessageKind::AddStrings
        } else if n == 1 {
            MessageKind::RemoveStrings
        } else if n == 2 {
            MessageKind::Search
        } else if n == 3 {
            MessageKind::CancelSearch
        } else if n == 4 {
            MessageKind::Clear
        } else if n == 5 {
            MessageKind::StringsAdded
        } else if n == 6 {
            MessageKind::StringsRemoved
        } else if n == 7 {
            MessageKind::SearchResults
        } else if n == 8 {
            MessageKind::SearchCancelled
        } else if n == 9 {
            MessageKind::Error
        } else {
            MessageKind::Unknown(n)
        }
    }

    /// An unknown kind holds no number of a known kind.
    pub open spec fn wf(self) -> bool {
        self matches MessageKind::Unknown(n) ==> !(0 <= n <= 9)
    }

    /// The number that stands for the kind on the wire.
    pub fn to_i32(self) -> (n: i32)
        ensures
            n == self.number(),
    {
        match self {
            MessageKind::AddStrings => 0,
            MessageKind::RemoveStrings => 1,
            MessageKind::Search => 2,
            MessageKind::CancelSearch => 3,
            MessageKind::Clear => 4,
            MessageKind::StringsAdded => 5,
            MessageKind::StringsRemoved => 6,
            MessageKind::SearchResults => 7,
            MessageKind::SearchCancelled => 8,
            MessageKind::Error => 9,
            MessageKind::Unknown(n) => n,
        }
    }

    /// The kind that a number stands for; never fails.
    pub fn from_i32(n: i32) -> (kind: MessageKind)
        ensures
            kind == MessageKind::of_number(n),
            kind.wf(),
            kind.number() == n,
    {
        if n == 0 {
            MessageKind::AddStrings
        } else if n == 1 {
            MessageKind::RemoveStrings
        } else if n == 2 {
            MessageKind::Search
        } else if n == 3 {
            MessageKind::CancelSearch
        } else if n == 4 {
            MessageKind::Clear
        } else if n == 5 {
            MessageKind::StringsAdded
        } else if n == 6 {
            MessageKind::StringsRemoved
        } else if n == 7 {
            MessageKind::SearchResults
        } else if n == 8 {
            MessageKind::SearchCancelled
        } else if n == 9 {
            MessageKind::Error
        } else {
            MessageKind::Unknown(n)
        }
    }
}

/// A signed 32-bit number as the 64 bits of its varint: negative numbers are
/// extended with ones.
pub open spec fn int32_bits(n: i32) -> u64 {
    if n >= 0 {
        n as u64
    } else {
        (n + 0x1_0000_0000_0000_0000int) as u64
    }
}

/// The signed number in the low 32 bits of a varint.
pub open spec fn int32_of(bits: u64) -> i32 {
    let low = bits % 0x1_0000_0000;
    if low < 0x8000_0000 {
        low as i32
    } else {
        (low - 0x1_0000_0000) as i32
    }
}

/// The unsigned number in the low 32 bits of a varint.
pub open spec fn uint32_of(bits: u64) -> u32 {
    (bits % 0x1_0000_0000) as u32
}

fn int32_to_bits(n: i32) -> (bits: u64)
    ensures
        bits == int32_bits(n),
{
    if n >= 0 {
        n as u64
    } else {
        let below: i32 = -(n + 1);
        u64::MAX - below as u64
    }
}

fn bits_to_int32(bits: u64) -> (n: i32)
    ensures
        n == int32_of(bits),
{
    let low: u64 = bits % 0x1_0000_0000;
    if low < 0x8000_0000 {
        low as i32
    } else {
        let wide: i64 = low as i64;
        (wide - 0x1_0000_0000) as i32
    }
}

pub(crate) fn bits_to_uint32(bits: u64) -> (n: u32)
    ensures
        n == uint32_of(bits),
{
    (bits % 0x1_0000_0000) as u32
}

/// The text that a field value holds: its bytes are UTF-8.
pub open spec fn text_of(value: ValueView) -> Option<Seq<char>> {
    match value {
        ValueView::Bytes(bytes) => if valid_utf8(bytes) {
            Some(decode_utf8(bytes))
        } else {
            None
        },
        _ => None,
    }
}

/// A field that holds text, as bytes; nothing for the empty text.
pub open spec fn text_field(tag: u32, text: Seq<char>) -> Seq<u8> {
    if text.len() == 0 {
        Seq::empty()
    } else {
        bytes_field(tag, encode_utf8(text))
    }
}

/// Each text of a list as its UTF-8 bytes.
pub open spec fn utf8_of_each(items: Seq<Seq<char>>) -> Seq<Seq<u8>> {
    items.map_values(|text: Seq<char>| encode_utf8(text))
}

pub(crate) fn read_text(value: &Value) -> (r: Option<String>)
    ensures
        match r {
            Some(s) => text_of(value@) == Some(s@),
            None => text_of(value@) is None,
        },
{
    match value {
        Value::Bytes(bytes) => match utf8_text(bytes.as_slice()) {
            Some(s) => {
                proof {
                    encode_utf8_decode_utf8(s@);
                }
                Some(s.to_owned())
            },
            None => None,
        },
        _ => None,
    }
}

pub(crate) fn put_text_field(tag: u32, text: &str, buf: &mut Vec<u8>)
    requires
        1 <= tag <= crate::wire::MAX_TAG,
    ensures
        final(buf)@ == old(buf)@ + text_field(tag, text@),
{
    if !text.is_empty() {
        put_bytes_field(tag, text.as_bytes(), buf);
    } else {
        proof {
            assert(old(buf)@ + Seq::<u8>::empty() =~= old(buf)@);
        }
    }
}

pub(crate) fn put_text_list(tag: u32, strings: &Vec<String>, buf: &mut Vec<u8>)
    requires
        1 <= tag <= crate::wire::MAX_TAG,
    ensures
        final(buf)@ == old(buf)@ + repeated_field(tag, utf8_of_each(texts(strings@))),
{
    let ghost items = utf8_of_each(texts(strings@));
    let mut i: usize = 0;
    proof {
        assert(items.take(0) =~= Seq::<Seq<u8>>::empty());
        assert(old(buf)@ + Seq::<u8>::empty() =~= old(buf)@);
    }
    while i < strings.len()
        invariant
            1 <= tag <= crate::wire::MAX_TAG,
            i <= strings@.len(),
            items == utf8_of_each(texts(strings@)),
            buf@ == old(buf)@ + repeated_field(tag, items.take(i as int)),
        decreases strings@.len() - i,
    {
        let ghost before = buf@;
        put_bytes_field(tag, strings[i].as_str().as_bytes(), buf);
        proof {
            let done = items.take(i + 1);
            assert(done.drop_last() =~= items.take(i as int));
            assert(done.last() == encode_utf8(strings@[i as int]@));
            assert(buf@ =~= old(buf)@ + repeated_field(tag, done));
        }
        i += 1;
    }
    proof {
        assert(items.take(i as int) =~= items);
    }
}

/// The fields that a text is written as: one, or none for the empty text.
pub open spec fn text_fields(tag: u32, text: Seq<char>) -> Seq<FieldView> {
    if text.len() == 0 {
        Seq::empty()
    } else {
        seq![FieldView { tag, value: ValueView::Bytes(encode_utf8(text)) }]
    }
}

/// The fields that a list of texts is written as: one for each.
pub open spec fn text_list_fields(tag: u32, items: Seq<Seq<char>>) -> Seq<FieldView> {
    utf8_of_each(items).map_values(|data: Seq<u8>| FieldView { tag, value: ValueView::Bytes(data) })
}

/// Every text of the list takes no more bytes than a length can say.
pub open spec fn sizes_fit(items: Seq<Seq<char>>) -> bool {
    forall|i: int| 0 <= i < items.len() ==> encode_utf8(#[trigger] items[i]).len() <= u64::MAX
}

/// A text field that was written is read back, whatever follows it.
pub proof fn lemma_text_field_read(tag: u32, text: Seq<char>, rest: Seq<u8>)
    requires
        1 <= tag <= crate::wire::MAX_TAG,
        encode_utf8(text).len() <= u64::MAX,
    ensures
        parse_fields(text_field(tag, text) + rest) == crate::wire::prepend(
            text_fields(tag, text),
            parse_fields(rest),
        ),
{
    if text.len() == 0 {
        assert(text_field(tag, text) + rest =~= rest);
        if parse_fields(rest) is Some {
            assert(text_fields(tag, text) + parse_fields(rest)->Some_0 =~= parse_fields(
                rest,
            )->Some_0);
        }
    } else {
        lemma_bytes_field_read(tag, encode_utf8(text), rest);
    }
}

/// A list of texts that was written is read back, whatever follows it.
pub proof fn lemma_text_list_read(tag: u32, items: Seq<Seq<char>>, rest: Seq<u8>)
    requires
        1 <= tag <= crate::wire::MAX_TAG,
        sizes_fit(items),
    ensures
        parse_fields(repeated_field(tag, utf8_of_each(items)) + rest) == crate::wire::prepend(
            text_list_fields(tag, items),
            parse_fields(rest),
        ),
{
    let data = utf8_of_each(items);
    assert forall|i: int| 0 <= i < data.len() implies (#[trigger] data[i]).len() <= u64::MAX by {
        assert(data[i] == encode_utf8(items[i]));
    }
    lemma_repeated_field_read(tag, data, rest);
}

/// The text of a field that holds the bytes of a text is that text.
pub proof fn lemma_text_of_written(text: Seq<char>)
    ensures
        text_of(ValueView::Bytes(encode_utf8(text))) == Some(text),
{
    encode_utf8_valid_utf8(text);
    encode_utf8_decode_utf8(text);
}

/// Merging a single field is one merge.
pub proof fn lemma_merge_single<T>(
    field: FieldView,
    start: T,
    merge: spec_fn(T, FieldView) -> Option<T>,
)
    ensures
        merge_all(seq![field], start, merge) == merge(start, field),
        merge_all(Seq::<FieldView>::empty(), start, merge) == Some(start),
{
    assert(seq![field].drop_last() =~= Seq::<FieldView>::empty());
}

/// The unit of transmission in both directions.
#[derive(Clone, Debug, PartialEq, Eq)]
pub struct Envelope {
    pub kind: MessageKind,
    pub payload: Vec<u8>,
}

/// What an [`Envelope`] holds.
pub struct EnvelopeView {
    pub kind: MessageKind,
    pub payload: Seq<u8>,
}

impl View for Envelope {
    type V = EnvelopeView;

    open spec fn view(&self) -> EnvelopeView {
        EnvelopeView { kind: self.kind, payload: self.payload@ }
    }
}

impl EnvelopeView {
    /// The envelope that an empty buffer decodes to.
    pub open spec fn empty() -> EnvelopeView {
        EnvelopeView { kind: MessageKind::AddStrings, payload: Seq::empty() }
    }

    /// The envelope after one more field: field 1 is the kind, field 2 the
    /// payload.
    pub open spec fn merge(self, field: FieldView) -> Option<EnvelopeView> {
        if field.tag == 1 {
            match field.value {
                ValueView::Varint(bits) => Some(
                    EnvelopeView { kind: MessageKind::of_number(int32_of(bits)), ..self },
                ),
                _ => None,
            }
        } else if field.tag == 2 {
            match field.value {
                ValueView::Bytes(bytes) => Some(EnvelopeView { payload: bytes, ..self }),
                _ => None,
            }
        } else {
            Some(self)
        }
    }

    /// [`Self::merge`] as a function, to hand to [`merge_all`].
    pub open spec fn merger() -> spec_fn(EnvelopeView, FieldView) -> Option<EnvelopeView> {
        |envelope: EnvelopeView, field: FieldView| envelope.merge(field)
    }

    /// The bytes of the envelope.
    pub open spec fn encoding(self) -> Seq<u8> {
        (if self.kind.number() != 0 {
            varint_field(1, int32_bits(self.kind.number()))
        } else {
            Seq::empty()
        }) + (if self.payload.len() > 0 {
            bytes_field(2, self.payload)
        } else {
            Seq::empty()
        })
    }

    /// The envelope that `bytes` decode to, or why there is none.
    pub open spec fn decoding(bytes: Seq<u8>) -> Result<EnvelopeView, DecodeError> {
        decoded(bytes, EnvelopeView::empty(), EnvelopeView::merger())
    }

    /// Decoding the bytes of an envelope gives the envelope back.
    pub proof fn lemma_round_trip(self)
        requires
            self.kind.wf(),
            self.payload.len() <= u64::MAX,
        ensures
            EnvelopeView::decoding(self.encoding()) == Ok::<EnvelopeView, DecodeError>(self),
    {
        let number = self.kind.number();
        let first = FieldView { tag: 1, value: ValueView::Varint(int32_bits(number)) };
        let second = FieldView { tag: 2, value: ValueView::Bytes(self.payload) };
        let payload_part = if self.payload.len() > 0 {
            bytes_field(2, self.payload)
        } else {
            Seq::empty()
        };
        let start = EnvelopeView::empty();
        let merge = EnvelopeView::merger();
        let none = Seq::<FieldView>::empty();
        crate::wire::lemma_parse_nothing();
        assert(merge_all(none, start, merge) == Some(start));
        assert(int32_of(int32_bits(number)) == number);
        assert(MessageKind::of_number(number) == self.kind);
        // The payload part alone.
        let after_payload: Seq<FieldView> = if self.payload.len() > 0 {
            seq![second]
        } else {
            none
        };
        if self.payload.len() > 0 {
            lemma_bytes_field_read(2, self.payload, Seq::empty());
            assert(payload_part + Seq::<u8>::empty() =~= payload_part);
            assert(seq![second] + none =~= seq![second]);
        }
        assert(parse_fields(payload_part) == Some(after_payload));
        // The kind part before it.
        let fields: Seq<FieldView> = if number != 0 {
            seq![first] + after_payload
        } else {
            after_payload
        };
        if number != 0 {
            lemma_varint_field_read(1, int32_bits(number), payload_part);
        } else {
            assert(self.encoding() =~= payload_part);
        }
        assert(parse_fields(self.encoding()) == Some(fields));
        // Merging them.
        let with_kind: Seq<FieldView> = if number != 0 {
            seq![first]
        } else {
            none
        };
        assert(fields =~= with_kind + after_payload);
        lemma_merge_concat(with_kind, after_payload, start, merge);
        let middle = EnvelopeView { kind: self.kind, payload: Seq::empty() };
        if number != 0 {
            assert(with_kind.drop_last() =~= none);
            assert(merge_all(with_kind, start, merge) == Some(middle));
        } else {
            assert(middle == start);
        }
        if self.payload.len() > 0 {
            assert(after_payload.drop_last() =~= none);
            assert(merge_all(none, middle, merge) == Some(middle));
            assert(merge_all(after_payload, middle, merge) == Some(self));
        } else {
            assert(self.payload =~= Seq::<u8>::empty());
            assert(merge_all(after_payload, middle, merge) == Some(self));
        }
    }
}

impl Envelope {
    /// Serializes the envelope.
    pub fn encode(&self) -> (bytes: Vec<u8>)
        ensures
            bytes@ == self@.encoding(),
    {
        let mut buf: Vec<u8> = Vec::new();
        let number = self.kind.to_i32();
        if number != 0 {
            put_varint_field(1, int32_to_bits(number), &mut buf);
        }
        let ghost mid = buf@;
        if self.payload.len() > 0 {
            put_bytes_field(2, self.payload.as_slice(), &mut buf);
        }
        proof {
            assert(mid =~= Seq::<u8>::empty() + mid);
            assert(mid + Seq::<u8>::empty() =~= mid);
        }
        buf
    }

    /// Reads an envelope from a buffer that holds nothing else.
    ///
    /// Fails with [`DecodeError::Wire`] where the buffer is not a run of
    /// well-formed fields, and with [`DecodeError::Field`] where the kind is
    /// not a varint or the payload is not length-delimited. A number that
    /// names no known kind is no error.
    pub fn decode(bytes: &[u8]) -> (r: Result<Envelope, DecodeError>)
        ensures
            match r {
                Ok(envelope) => EnvelopeView::decoding(bytes@) == Ok::<EnvelopeView, DecodeError>(
                    envelope@,
                ) && envelope.kind.wf(),
                Err(e) => EnvelopeView::decoding(bytes@) == Err::<EnvelopeView, DecodeError>(e),
            },
    {
        let fields = match read_fields(bytes) {
            Ok(fields) => fields,
            Err(e) => {
                return Err(e);
            },
        };
        let ghost all = fields_view(fields@);
        let ghost start = EnvelopeView::empty();
        let ghost merge = EnvelopeView::merger();
        let mut envelope = Envelope { kind: MessageKind::AddStrings, payload: Vec::new() };
        let mut i: usize = 0;
        proof {
            assert(all.take(0) =~= Seq::<FieldView>::empty());
        }
        while i < fields.len()
            invariant
                i <= fields@.len(),
                all == fields_view(fields@),
                parse_fields(bytes@) == Some(all),
                start == EnvelopeView::empty(),
                merge == EnvelopeView::merger(),
                merge_all(all.take(i as int), start, merge) == Some(envelope@),
                envelope.kind.wf(),
            decreases fields@.len() - i,
        {
            let field = &fields[i];
            proof {
                lemma_merge_step(all, i as int, start, merge);
                assert(all[i as int] == field@);
            }
            if field.tag == 1 {
                match &field.value {
                    Value::Varint(bits) => {
                        envelope.kind = MessageKind::from_i32(bits_to_int32(*bits));
                    },
                    _ => {
                        proof {
                            lemma_merge_fails(all, i + 1, start, merge);
                        }
                        return Err(DecodeError::Field);
                    },
                }
            } else if field.tag == 2 {
                match &field.value {
                    Value::Bytes(data) => {
                        envelope.payload = slice_to_vec(data.as_slice());
                    },
                    _ => {
                        proof {
                            lemma_merge_fails(all, i + 1, start, merge);
                        }
                        return Err(DecodeError::Field);
                    },
                }
            }
            i += 1;
        }
        proof {
            assert(all.take(i as int) =~= all);
        }
        Ok(envelope)
    }
}

/// The bytes of an envelope with this kind and payload.
pub open spec fn envelope_bytes(kind: MessageKind, payload: Seq<u8>) -> Seq<u8> {
    EnvelopeView { kind, payload }.encoding()
}

/// Serializes an envelope with this kind and payload.
pub fn encode(kind: MessageKind, payload: Vec<u8>) -> (bytes: Vec<u8>)
    ensures
        bytes@ == envelope_bytes(kind, payload@),
{
    let envelope = Envelope { kind, payload };
    envelope.encode()
}

/// Reads an envelope from a buffer that holds nothing else, as
/// [`Envelope::decode`] does.
pub fn decode(bytes: &[u8]) -> (r: Result<Envelope, DecodeError>)
    ensures
        match r {
            Ok(envelope) => EnvelopeView::decoding(bytes@) == Ok::<EnvelopeView, DecodeError>(
                envelope@,
            ) && envelope.kind.wf(),
            Err(e) => EnvelopeView::decoding(bytes@) == Err::<EnvelopeView, DecodeError>(e),
        },
{
    Envelope::decode(bytes)
}

/// Decoding what was encoded gives the kind and the payload back.
pub proof fn law_envelope_round_trip(kind: MessageKind, payload: Seq<u8>)
    requires
        kind.wf(),
        payload.len() <= u64::MAX,
    ensures
        EnvelopeView::decoding(envelope_bytes(kind, payload)) == Ok::<EnvelopeView, DecodeError>(
            EnvelopeView { kind, payload },
        ),
{
    (EnvelopeView { kind, payload }).lemma_round_trip();
}

} // verus!
