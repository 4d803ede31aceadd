//! The wire format of a message: a run of tagged fields.
//!
//! Each field starts with a key, the varint of `tag * 8 + wire type`, and the
//! wire type says how the value after it is laid out. A reader that does not
//! know a tag can still step over its value.

use crate::varint::{
    lemma_prefix_bounds, lemma_varint_len_u64, lemma_varint_round_trip, put_varint, take_varint,
    varint_bytes, varint_prefix,
};
use vstd::prelude::*;
use vstd::slice::{slice_subrange, slice_to_vec};

verus! {

/// How the value of a field is laid out.
#[derive(Clone, Copy, Debug, PartialEq, Eq, Structural)]
pub enum WireType {
    /// One varint.
    Varint,
    /// Eight bytes.
    SixtyFourBit,
    /// A varint length, then that many bytes.
    LengthDelimited,
    /// Fields up to the matching end of group.
    StartGroup,
    /// The end of a group.
    EndGroup,
    /// Four bytes.
    ThirtyTwoBit,
}

/// Why a buffer could not be decoded.
#[derive(Clone, Copy, Debug, PartialEq, Eq, Structural)]
pub enum DecodeError {
    /// The bytes are not a run of well-formed fields.
    Wire,
    /// A field of the message has the wrong wire type, or text that is not
    /// UTF-8.
    Field,
}

/// The value of one field.
#[derive(Clone, Debug, PartialEq, Eq)]
pub enum Value {
    /// A varint.
    Varint(u64),
    /// The bytes of a length-delimited value.
    Bytes(Vec<u8>),
    /// A fixed-width value or a group: stepped over, not kept.
    Other,
}

/// One field of a message.
#[derive(Clone, Debug, PartialEq, Eq)]
pub struct Field {
    pub tag: u32,
    pub value: Value,
}

/// What a [`Value`] holds.
pub enum ValueView {
    Varint(u64),
    Bytes(Seq<u8>),
    Other,
}

/// What a [`Field`] holds.
pub struct FieldView {
    pub tag: u32,
    pub value: ValueView,
}

impl View for Value {
    type V = ValueView;

    open spec fn view(&self) -> ValueView {
        match self {
            Value::Varint(v) => ValueView::Varint(*v),
            Value::Bytes(b) => ValueView::Bytes(b@),
            Value::Other => ValueView::Other,
        }
    }
}

impl View for Field {
    type V = FieldView;

    open spec fn view(&self) -> FieldView {
        FieldView { tag: self.tag, value: self.value@ }
    }
}

/// The fields of a list, each by its view.
pub open spec fn fields_view(fields: Seq<Field>) -> Seq<FieldView> {
    fields.map_values(|f: Field| f@)
}

/// The largest tag a key can carry.
pub const MAX_TAG: u32 = 0x1FFF_FFFF;

/// The number that stands for a wire type in a key.
pub open spec fn wire_number(wire: WireType) -> nat {
    match wire {
        WireType::Varint => 0,
        WireType::SixtyFourBit => 1,
        WireType::LengthDelimited => 2,
        WireType::StartGroup => 3,
        WireType::EndGroup => 4,
        WireType::ThirtyTwoBit => 5,
    }
}

/// The wire type that a number stands for, if any.
pub open spec fn wire_of(number: nat) -> Option<WireType> {
    if number == 0 {
        Some(WireType::Varint)
    } else if number == 1 {
        Some(WireType::SixtyFourBit)
    } else if number == 2 {
        Some(WireType::LengthDelimited)
    } else if number == 3 {
        Some(WireType::StartGroup)
    } else if number == 4 {
        Some(WireType::EndGroup)
    } else if number == 5 {
        Some(WireType::ThirtyTwoBit)
    } else {
        None
    }
}

/// The bytes of the key of a field.
pub open spec fn key_bytes(tag: u32, wire: WireType) -> Seq<u8> {
    varint_bytes(tag as nat * 8 + wire_number(wire))
}

/// A field that holds a varint, as bytes.
pub open spec fn varint_field(tag: u32, value: u64) -> Seq<u8> {
    key_bytes(tag, WireType::Varint) + varint_bytes(value as nat)
}

/// A field that holds bytes, as bytes.
pub open spec fn bytes_field(tag: u32, data: Seq<u8>) -> Seq<u8> {
    key_bytes(tag, WireType::LengthDelimited) + varint_bytes(data.len()) + data
}

/// One bytes field for each item, in order.
pub open spec fn repeated_field(tag: u32, items: Seq<Seq<u8>>) -> Seq<u8>
    decreases items.len(),
{
    if items.len() == 0 {
        Seq::empty()
    } else {
        repeated_field(tag, items.drop_last()) + bytes_field(tag, items.last())
    }
}

/// The key at the front of `bytes`: tag, wire type and length. The key fits
/// in 32 bits, names one of the six wire types and a tag that is not zero.
pub open spec fn key_prefix(bytes: Seq<u8>) -> Option<(u32, WireType, nat)> {
    match varint_prefix(bytes) {
        Some((key, n)) => match wire_of((key % 8) as nat) {
            Some(wire) => if key <= u32::MAX && key / 8 >= 1 {
                Some(((key / 8) as u32, wire, n))
            } else {
                None
            },
            None => None,
        },
        None => None,
    }
}

/// How many bytes the group that `tag` opened takes at the front of `bytes`,
/// its end marker included; `None` where the bytes hold no such group.
pub uninterp spec fn group_extent(tag: u32, bytes: Seq<u8>) -> Option<nat>;

/// The value at the front of `bytes` for a field with this tag and wire
/// type, and how many bytes it takes.
pub open spec fn value_prefix(wire: WireType, tag: u32, bytes: Seq<u8>) -> Option<(ValueView, nat)> {
    match wire {
        WireType::Varint => match varint_prefix(bytes) {
            Some((value, n)) => Some((ValueView::Varint(value), n)),
            None => None,
        },
        WireType::SixtyFourBit => if bytes.len() >= 8 {
            Some((ValueView::Other, 8))
        } else {
            None
        },
        WireType::LengthDelimited => match varint_prefix(bytes) {
            Some((len, n)) => if n + len <= bytes.len() {
                Some((ValueView::Bytes(bytes.subrange(n as int, n + len)), n + len as nat))
            } else {
                None
            },
            None => None,
        },
        WireType::StartGroup => match group_extent(tag, bytes) {
            Some(n) => if n <= bytes.len() {
                Some((ValueView::Other, n))
            } else {
                None
            },
            None => None,
        },
        WireType::EndGroup => None,
        WireType::ThirtyTwoBit => if bytes.len() >= 4 {
            Some((ValueView::Other, 4))
        } else {
            None
        },
    }
}

/// The field at the front of `bytes`, and how many bytes it takes.
pub open spec fn field_prefix(bytes: Seq<u8>) -> Option<(FieldView, nat)> {
    match key_prefix(bytes) {
        Some((tag, wire, n)) => match value_prefix(wire, tag, bytes.skip(n as int)) {
            Some((value, m)) => Some((FieldView { tag, value }, n + m)),
            None => None,
        },
        None => None,
    }
}

/// `first`, then the fields of `rest`, where there are any.
pub open spec fn prepend(first: Seq<FieldView>, rest: Option<Seq<FieldView>>) -> Option<
    Seq<FieldView>,
> {
    match rest {
        Some(fields) => Some(first + fields),
        None => None,
    }
}

/// The fields that `bytes` hold from the first byte to the last, in order;
/// `None` where the bytes are not a run of well-formed fields.
#[verifier::opaque]
pub open spec fn parse_fields(bytes: Seq<u8>) -> Option<Seq<FieldView>>
    decreases bytes.len(),
{
    if bytes.len() == 0 {
        Some(Seq::empty())
    } else {
        match field_prefix(bytes) {
            Some((field, n)) => if 0 < n <= bytes.len() {
                prepend(seq![field], parse_fields(bytes.skip(n as int)))
            } else {
                None
            },
            None => None,
        }
    }
}

/// Merges fields into a message one after the other, from `start`; `None`
/// as soon as one field is refused.
pub open spec fn merge_all<T>(
    fields: Seq<FieldView>,
    start: T,
    merge: spec_fn(T, FieldView) -> Option<T>,
) -> Option<T>
    decreases fields.len(),
{
    if fields.len() == 0 {
        Some(start)
    } else {
        match merge_all(fields.drop_last(), start, merge) {
            Some(message) => merge(message, fields.last()),
            None => None,
        }
    }
}

/// The message that `bytes` decode to: the fields are split first, then
/// merged in order.
pub open spec fn decoded<T>(
    bytes: Seq<u8>,
    start: T,
    merge: spec_fn(T, FieldView) -> Option<T>,
) -> Result<T, DecodeError> {
    match parse_fields(bytes) {
        None => Err(DecodeError::Wire),
        Some(fields) => match merge_all(fields, start, merge) {
            Some(message) => Ok(message),
            None => Err(DecodeError::Field),
        },
    }
}

/// Merging one field more continues from what the fields before it gave.
pub proof fn lemma_merge_step<T>(
    fields: Seq<FieldView>,
    i: int,
    start: T,
    merge: spec_fn(T, FieldView) -> Option<T>,
)
    requires
        0 <= i < fields.len(),
    ensures
        merge_all(fields.take(i + 1), start, merge) == match merge_all(
            fields.take(i),
            start,
            merge,
        ) {
            Some(message) => merge(message, fields[i]),
            None => None,
        },
{
    assert(fields.take(i + 1).drop_last() =~= fields.take(i));
}

/// Once a field is refused, the whole list is.
pub proof fn lemma_merge_fails<T>(
    fields: Seq<FieldView>,
    k: int,
    start: T,
    merge: spec_fn(T, FieldView) -> Option<T>,
)
    requires
        0 <= k <= fields.len(),
        merge_all(fields.take(k), start, merge) is None,
    ensures
        merge_all(fields, start, merge) is None,
    decreases fields.len() - k,
{
    if k == fields.len() {
        assert(fields.take(k) =~= fields);
    } else {
        lemma_merge_step(fields, k, start, merge);
        lemma_merge_fails(fields, k + 1, start, merge);
    }
}

/// Merging two lists one after the other is merging the second from where
/// the first ended.
pub proof fn lemma_merge_concat<T>(
    a: Seq<FieldView>,
    b: Seq<FieldView>,
    start: T,
    merge: spec_fn(T, FieldView) -> Option<T>,
)
    ensures
        merge_all(a + b, start, merge) == match merge_all(a, start, merge) {
            Some(message) => merge_all(b, message, merge),
            None => None,
        },
    decreases b.len(),
{
    if b.len() == 0 {
        assert(a + b =~= a);
    } else {
        assert((a + b).drop_last() =~= a + b.drop_last());
        lemma_merge_concat(a, b.drop_last(), start, merge);
    }
}

/// A buffer with nothing in it holds no fields.
pub proof fn lemma_parse_nothing()
    ensures
        parse_fields(Seq::<u8>::empty()) == Some(Seq::<FieldView>::empty()),
{
    reveal(parse_fields);
}

/// Steps over the group that `tag` opened at the front of `bytes` and says
/// how many bytes are left behind it.
///
/// Calls `prost::encoding::skip_field` for a start-of-group field, which
/// reads fields, groups inside groups included, up to the end marker with the
/// same tag. What it accepts is named by [`group_extent`]; it never moves
/// past the end of the buffer.
#[verifier::external_body]
fn skip_group(tag: u32, bytes: &[u8]) -> (r: Option<usize>)
    ensures
        match r {
            Some(left) => left <= bytes@.len() && group_extent(tag, bytes@) == Some(
                (bytes@.len() - left) as nat,
            ),
            None => group_extent(tag, bytes@) is None,
        },
{
    let mut rest = bytes;
    let ctx = prost::encoding::DecodeContext::default();
    match prost::encoding::skip_field(prost::encoding::WireType::StartGroup, tag, &mut rest, ctx) {
        Ok(()) => Some(rest.len()),
        Err(_) => None,
    }
}

/// Reads the varint that starts at `pos`: its value and where it ends.
fn varint_at(bytes: &[u8], pos: usize) -> (r: Option<(u64, usize)>)
    requires
        pos <= bytes@.len(),
    ensures
        match r {
            Some((value, next)) => pos < next <= bytes@.len() && varint_prefix(
                bytes@.skip(pos as int),
            ) == Some((value, (next - pos) as nat)),
            None => varint_prefix(bytes@.skip(pos as int)) is None,
        },
{
    let rest = slice_subrange(bytes, pos, bytes.len());
    proof {
        assert(rest@ =~= bytes@.skip(pos as int));
        lemma_prefix_bounds(rest@);
    }
    match take_varint(rest) {
        Some((value, left)) => Some((value, bytes.len() - left)),
        None => None,
    }
}

/// Reads the key that starts at `pos`: tag, wire type and where it ends.
fn key_at(bytes: &[u8], pos: usize) -> (r: Option<(u32, WireType, usize)>)
    requires
        pos <= bytes@.len(),
    ensures
        match r {
            Some((tag, wire, next)) => pos < next <= bytes@.len() && key_prefix(
                bytes@.skip(pos as int),
            ) == Some((tag, wire, (next - pos) as nat)),
            None => key_prefix(bytes@.skip(pos as int)) is None,
        },
{
    let (key, next) = match varint_at(bytes, pos) {
        Some(found) => found,
        None => return None,
    };
    if key > 0xFFFF_FFFF {
        return None;
    }
    let number: u64 = key % 8;
    let wire = if number == 0 {
        WireType::Varint
    } else if number == 1 {
        WireType::SixtyFourBit
    } else if number == 2 {
        WireType::LengthDelimited
    } else if number == 3 {
        WireType::StartGroup
    } else if number == 4 {
        WireType::EndGroup
    } else if number == 5 {
        WireType::ThirtyTwoBit
    } else {
        return None;
    };
    let tag: u64 = key / 8;
    if tag < 1 {
        return None;
    }
    Some((tag as u32, wire, next))
}

/// Reads the value that starts at `pos`, for a field with this tag and wire
/// type, and says where it ends.
fn value_at(wire: WireType, tag: u32, bytes: &[u8], pos: usize) -> (r: Option<(Value, usize)>)
    requires
        pos <= bytes@.len(),
    ensures
        match r {
            Some((value, next)) => pos <= next <= bytes@.len() && value_prefix(
                wire,
                tag,
                bytes@.skip(pos as int),
            ) == Some((value@, (next - pos) as nat)),
            None => value_prefix(wire, tag, bytes@.skip(pos as int)) is None,
        },
{
    let ghost rest = bytes@.skip(pos as int);
    let room: usize = bytes.len() - pos;
    match wire {
        WireType::Varint => match varint_at(bytes, pos) {
            Some((value, next)) => Some((Value::Varint(value), next)),
            None => None,
        },
        WireType::SixtyFourBit => if room >= 8 {
            Some((Value::Other, pos + 8))
        } else {
            None
        },
        WireType::LengthDelimited => match varint_at(bytes, pos) {
            Some((len, start)) => {
                if len > (bytes.len() - start) as u64 {
                    None
                } else {
                    let end: usize = start + len as usize;
                    let data = slice_to_vec(slice_subrange(bytes, start, end));
                    proof {
                        assert(bytes@.subrange(start as int, end as int) =~= rest.subrange(
                            start - pos,
                            start - pos + len,
                        ));
                    }
                    Some((Value::Bytes(data), end))
                }
            },
            None => None,
        },
        WireType::StartGroup => {
            let tail = slice_subrange(bytes, pos, bytes.len());
            proof {
                assert(tail@ =~= rest);
            }
            match skip_group(tag, tail) {
                Some(left) => Some((Value::Other, bytes.len() - left)),
                None => None,
            }
        },
        WireType::EndGroup => None,
        WireType::ThirtyTwoBit => if room >= 4 {
            Some((Value::Other, pos + 4))
        } else {
            None
        },
    }
}

/// Reads the field that starts at `pos` and says where it ends.
fn field_at(bytes: &[u8], pos: usize) -> (r: Option<(Field, usize)>)
    requires
        pos <= bytes@.len(),
    ensures
        match r {
            Some((field, next)) => pos < next <= bytes@.len() && field_prefix(
                bytes@.skip(pos as int),
            ) == Some((field@, (next - pos) as nat)),
            None => field_prefix(bytes@.skip(pos as int)) is None,
        },
{
    let (tag, wire, start) = match key_at(bytes, pos) {
        Some(found) => found,
        None => return None,
    };
    proof {
        assert(bytes@.skip(pos as int).skip(start - pos) =~= bytes@.skip(start as int));
    }
    match value_at(wire, tag, bytes, start) {
        Some((value, next)) => Some((Field { tag, value }, next)),
        None => None,
    }
}

/// Splits a buffer into its fields.
///
/// Succeeds exactly on the buffers that are a run of well-formed fields, and
/// gives them in the order of the bytes.
pub fn read_fields(bytes: &[u8]) -> (r: Result<Vec<Field>, DecodeError>)
    ensures
        match r {
            Ok(fields) => parse_fields(bytes@) == Some(fields_view(fields@)),
            Err(e) => e == DecodeError::Wire && parse_fields(bytes@) is None,
        },
{
    let mut fields: Vec<Field> = Vec::new();
    let mut pos: usize = 0;
    proof {
        assert(bytes@.skip(0) =~= bytes@);
        if let Some(all) = parse_fields(bytes@) {
            assert(fields_view(fields@) + all =~= all);
        }
    }
    while pos < bytes.len()
        invariant
            pos <= bytes@.len(),
            parse_fields(bytes@) == prepend(
                fields_view(fields@),
                parse_fields(bytes@.skip(pos as int)),
            ),
        decreases bytes@.len() - pos,
    {
        let ghost before = fields_view(fields@);
        let ghost rest = bytes@.skip(pos as int);
        match field_at(bytes, pos) {
            Some((field, next)) => {
                proof {
                    reveal(parse_fields);
                    let after = parse_fields(bytes@.skip(next as int));
                    assert(rest.skip(next - pos) =~= bytes@.skip(next as int));
                    assert(parse_fields(rest) == prepend(seq![field@], after));
                    assert(fields_view(fields@.push(field)) =~= before + seq![field@]);
                    if after is Some {
                        assert(before + (seq![field@] + after->Some_0) =~= (before + seq![
                            field@,
                        ]) + after->Some_0);
                    }
                }
                fields.push(field);
                pos = next;
            },
            None => {
                proof {
                    reveal(parse_fields);
                }
                return Err(DecodeError::Wire);
            },
        }
    }
    proof {
        lemma_parse_nothing();
        assert(bytes@.skip(pos as int) =~= Seq::<u8>::empty());
        assert(fields_view(fields@) + Seq::<FieldView>::empty() =~= fields_view(fields@));
    }
    Ok(fields)
}

/// Appends the key of a field.
pub fn put_key(tag: u32, wire: WireType, buf: &mut Vec<u8>)
    requires
        1 <= tag <= MAX_TAG,
    ensures
        final(buf)@ == old(buf)@ + key_bytes(tag, wire),
{
    let number: u64 = match wire {
        WireType::Varint => 0,
        WireType::SixtyFourBit => 1,
        WireType::LengthDelimited => 2,
        WireType::StartGroup => 3,
        WireType::EndGroup => 4,
        WireType::ThirtyTwoBit => 5,
    };
    let wide: u64 = tag as u64;
    put_varint(wide * 8 + number, buf);
}

/// Appends a field that holds a varint.
pub fn put_varint_field(tag: u32, value: u64, buf: &mut Vec<u8>)
    requires
        1 <= tag <= MAX_TAG,
    ensures
        final(buf)@ == old(buf)@ + varint_field(tag, value),
{
    put_key(tag, WireType::Varint, buf);
    put_varint(value, buf);
    proof {
        assert(old(buf)@ + key_bytes(tag, WireType::Varint) + varint_bytes(value as nat) =~= old(
            buf,
        )@ + varint_field(tag, value));
    }
}

/// Appends a field that holds bytes.
pub fn put_bytes_field(tag: u32, data: &[u8], buf: &mut Vec<u8>)
    requires
        1 <= tag <= MAX_TAG,
    ensures
        final(buf)@ == old(buf)@ + bytes_field(tag, data@),
{
    put_key(tag, WireType::LengthDelimited, buf);
    put_varint(data.len() as u64, buf);
    let ghost head = buf@;
    let mut i: usize = 0;
    while i < data.len()
        invariant
            i <= data@.len(),
            buf@ == head + data@.take(i as int),
        decreases data@.len() - i,
    {
        buf.push(data[i]);
        proof {
            assert(data@.take(i + 1) =~= data@.take(i as int).push(data@[i as int]));
        }
        i += 1;
    }
    proof {
        assert(data@.take(data@.len() as int) =~= data@);
        assert(old(buf)@ + key_bytes(tag, WireType::LengthDelimited) + varint_bytes(
            data@.len(),
        ) + data@ =~= old(buf)@ + bytes_field(tag, data@));
    }
}

/// The key that was written is the key that is read, whatever follows it.
pub proof fn lemma_key_round_trip(tag: u32, wire: WireType, rest: Seq<u8>)
    requires
        1 <= tag <= MAX_TAG,
    ensures
        key_prefix(key_bytes(tag, wire) + rest) == Some(
            (tag, wire, key_bytes(tag, wire).len()),
        ),
        key_bytes(tag, wire).len() >= 1,
{
    let key: u64 = (tag as nat * 8 + wire_number(wire)) as u64;
    lemma_varint_round_trip(key, rest);
    lemma_varint_len_u64(key);
}

/// A varint field that was written is read back as that field, whatever
/// follows it.
pub proof fn lemma_varint_field_read(tag: u32, value: u64, rest: Seq<u8>)
    requires
        1 <= tag <= MAX_TAG,
    ensures
        parse_fields(varint_field(tag, value) + rest) == prepend(
            seq![FieldView { tag, value: ValueView::Varint(value) }],
            parse_fields(rest),
        ),
{
    reveal(parse_fields);
    let key = key_bytes(tag, WireType::Varint);
    let body = varint_bytes(value as nat);
    let all = varint_field(tag, value) + rest;
    assert(all =~= key + (body + rest));
    lemma_key_round_trip(tag, WireType::Varint, body + rest);
    assert(all.skip(key.len() as int) =~= body + rest);
    lemma_varint_round_trip(value, rest);
    lemma_varint_len_u64(value);
    assert(all.skip((key.len() + body.len()) as int) =~= rest);
}

/// A bytes field that was written is read back as that field, whatever
/// follows it.
pub proof fn lemma_bytes_field_read(tag: u32, data: Seq<u8>, rest: Seq<u8>)
    requires
        1 <= tag <= MAX_TAG,
        data.len() <= u64::MAX,
    ensures
        parse_fields(bytes_field(tag, data) + rest) == prepend(
            seq![FieldView { tag, value: ValueView::Bytes(data) }],
            parse_fields(rest),
        ),
{
    reveal(parse_fields);
    let key = key_bytes(tag, WireType::LengthDelimited);
    let size = varint_bytes(data.len());
    let all = bytes_field(tag, data) + rest;
    assert(all =~= key + (size + data + rest));
    lemma_key_round_trip(tag, WireType::LengthDelimited, size + data + rest);
    let tail = all.skip(key.len() as int);
    assert(tail =~= size + (data + rest));
    lemma_varint_round_trip(data.len() as u64, data + rest);
    lemma_varint_len_u64(data.len() as u64);
    assert(tail.subrange(size.len() as int, (size.len() + data.len()) as int) =~= data);
    assert(all.skip((key.len() + size.len() + data.len()) as int) =~= rest);
}

/// Repeated fields that were written are read back one field for each item,
/// in order, whatever follows them.
pub proof fn lemma_repeated_field_read(tag: u32, items: Seq<Seq<u8>>, rest: Seq<u8>)
    requires
        1 <= tag <= MAX_TAG,
        forall|i: int| 0 <= i < items.len() ==> (#[trigger] items[i]).len() <= u64::MAX,
    ensures
        parse_fields(repeated_field(tag, items) + rest) == prepend(
            items.map_values(|data: Seq<u8>| FieldView { tag, value: ValueView::Bytes(data) }),
            parse_fields(rest),
        ),
    decreases items.len(),
{
    let wrap = |data: Seq<u8>| FieldView { tag, value: ValueView::Bytes(data) };
    if items.len() == 0 {
        assert(repeated_field(tag, items) + rest =~= rest);
        if parse_fields(rest) is Some {
            assert(items.map_values(wrap) + parse_fields(rest)->Some_0 =~= parse_fields(
                rest,
            )->Some_0);
        }
    } else {
        let front = items.drop_last();
        let last = bytes_field(tag, items.last());
        assert(repeated_field(tag, items) + rest =~= repeated_field(tag, front) + (last + rest));
        lemma_repeated_field_read(tag, front, last + rest);
        lemma_bytes_field_read(tag, items.last(), rest);
        if parse_fields(rest) is Some {
            assert(front.map_values(wrap) + (seq![wrap(items.last())] + parse_fields(
                rest,
            )->Some_0) =~= items.map_values(wrap) + parse_fields(rest)->Some_0);
        }
    }
}

} // verus!
