//! The payloads of the envelope, one type for each schema.

use crate::messages::{
    bits_to_uint32, lemma_merge_single, lemma_text_field_read, lemma_text_list_read,
    lemma_text_of_written, put_text_field, put_text_list, read_text, sizes_fit, text_field,
    text_fields, text_list_fields, text_of, uint32_of, utf8_of_each,
};
use crate::text::texts;
use crate::wire::{
    decoded, fields_view, lemma_merge_concat, lemma_merge_fails, lemma_merge_step,
    lemma_varint_field_read, merge_all, parse_fields, put_varint_field, read_fields,
    repeated_field, varint_field, DecodeError, FieldView, Value, ValueView,
};
use vstd::prelude::*;
use vstd::utf8::encode_utf8;

verus! {

/// The strings of an add or a remove request.
#[derive(Clone, Debug, PartialEq, Eq)]
pub struct StringList {
    pub strings: Vec<String>,
}

/// What a [`StringList`] holds.
pub struct StringListView {
    pub strings: Seq<Seq<char>>,
}

impl View for StringList {
    type V = StringListView;

    open spec fn view(&self) -> StringListView {
        StringListView { strings: texts(self.strings@) }
    }
}

impl StringListView {
    /// The list that an empty buffer decodes to.
    pub open spec fn empty() -> StringListView {
        StringListView { strings: Seq::empty() }
    }

    /// The list after one more field: each field 1 is one more string.
    pub open spec fn merge(self, field: FieldView) -> Option<StringListView> {
        if field.tag == 1 {
            match text_of(field.value) {
                Some(text) => Some(StringListView { strings: self.strings.push(text) }),
                None => None,
            }
        } else {
            Some(self)
        }
    }

    /// [`Self::merge`] as a function, to hand to [`merge_all`].
    pub open spec fn merger() -> spec_fn(StringListView, FieldView) -> Option<StringListView> {
        |list: StringListView, field: FieldView| list.merge(field)
    }

    /// The bytes of the list.
    pub open spec fn encoding(self) -> Seq<u8> {
        repeated_field(1, utf8_of_each(self.strings))
    }

    /// The list that `bytes` decode to, or why there is none.
    pub open spec fn decoding(bytes: Seq<u8>) -> Result<StringListView, DecodeError> {
        decoded(bytes, StringListView::empty(), StringListView::merger())
    }

    /// Merging the fields of a list of texts appends the texts.
    pub proof fn lemma_merge_texts(self, items: Seq<Seq<char>>)
        ensures
            merge_all(text_list_fields(1, items), self, StringListView::merger()) == Some(
                StringListView { strings: self.strings + items },
            ),
        decreases items.len(),
    {
        let fields = text_list_fields(1, items);
        if items.len() == 0 {
            assert(self.strings + items =~= self.strings);
        } else {
            let front = items.drop_last();
            self.lemma_merge_texts(front);
            assert(fields.drop_last() =~= text_list_fields(1, front));
            assert(fields.last().value == ValueView::Bytes(encode_utf8(items.last())));
            lemma_text_of_written(items.last());
            assert((self.strings + front).push(items.last()) =~= self.strings + items);
        }
    }

    /// Decoding the bytes of a list gives the list back.
    pub proof fn lemma_round_trip(self)
        requires
            sizes_fit(self.strings),
        ensures
            StringListView::decoding(self.encoding()) == Ok::<StringListView, DecodeError>(self),
    {
        let fields = text_list_fields(1, self.strings);
        lemma_text_list_read(1, self.strings, Seq::empty());
        assert(self.encoding() + Seq::<u8>::empty() =~= self.encoding());
        crate::wire::lemma_parse_nothing();
        assert(fields + Seq::<FieldView>::empty() =~= fields);
        StringListView::empty().lemma_merge_texts(self.strings);
        assert(Seq::<Seq<char>>::empty() + self.strings =~= self.strings);
    }
}

impl StringList {
    /// Serializes the list: one field for each string, in order.
    pub fn encode(&self) -> (bytes: Vec<u8>)
        ensures
            bytes@ == self@.encoding(),
    {
        let mut buf: Vec<u8> = Vec::new();
        put_text_list(1, &self.strings, &mut buf);
        proof {
            assert(Seq::<u8>::empty() + self@.encoding() =~= self@.encoding());
        }
        buf
    }

    /// Reads a list from a buffer that holds nothing else.
    ///
    /// Fails with [`DecodeError::Wire`] where the buffer is not a run of
    /// well-formed fields, and with [`DecodeError::Field`] where a string is
    /// not length-delimited or not UTF-8.
    pub fn decode(bytes: &[u8]) -> (r: Result<StringList, DecodeError>)
        ensures
            match r {
                Ok(list) => StringListView::decoding(bytes@) == Ok::<StringListView, DecodeError>(
                    list@,
                ),
                Err(e) => StringListView::decoding(bytes@) == Err::<StringListView, DecodeError>(e),
            },
    {
        let fields = match read_fields(bytes) {
            Ok(fields) => fields,
            Err(e) => {
                return Err(e);
            },
        };
        let ghost all = fields_view(fields@);
        let ghost start = StringListView::empty();
        let ghost merge = StringListView::merger();
        let mut list = StringList { strings: Vec::new() };
        let mut i: usize = 0;
        proof {
            assert(all.take(0) =~= Seq::<FieldView>::empty());
            assert(list@.strings =~= start.strings);
        }
        while i < fields.len()
            invariant
                i <= fields@.len(),
                all == fields_view(fields@),
                parse_fields(bytes@) == Some(all),
                start == StringListView::empty(),
                merge == StringListView::merger(),
                merge_all(all.take(i as int), start, merge) == Some(list@),
            decreases fields@.len() - i,
        {
            let field = &fields[i];
            proof {
                lemma_merge_step(all, i as int, start, merge);
                assert(all[i as int] == field@);
            }
            if field.tag == 1 {
                match read_text(&field.value) {
                    Some(text) => {
                        let ghost before = list@.strings;
                        list.strings.push(text);
                        proof {
                            assert(list@.strings =~= before.push(text@));
                        }
                    },
                    None => {
                        proof {
                            lemma_merge_fails(all, i + 1, start, merge);
                        }
                        return Err(DecodeError::Field);
                    },
                }
            }
            i += 1;
        }
        proof {
            assert(all.take(i as int) =~= all);
        }
        Ok(list)
    }
}

/// A search to run.
#[derive(Clone, Debug, PartialEq, Eq)]
pub struct SearchRequest {
    pub query: String,
    /// The token to answer with; empty to have the query stand in for it.
    pub search_id: String,
}

/// What a [`SearchRequest`] holds.
pub struct SearchRequestView {
    pub query: Seq<char>,
    pub search_id: Seq<char>,
}

impl View for SearchRequest {
    type V = SearchRequestView;

    open spec fn view(&self) -> SearchRequestView {
        SearchRequestView { query: self.query@, search_id: self.search_id@ }
    }
}

impl SearchRequestView {
    /// The request that an empty buffer decodes to.
    pub open spec fn empty() -> SearchRequestView {
        SearchRequestView { query: Seq::empty(), search_id: Seq::empty() }
    }

    /// The request after one more field: field 1 is the query, field 2 the
    /// search id.
    pub open spec fn merge(self, field: FieldView) -> Option<SearchRequestView> {
        if field.tag == 1 {
            match text_of(field.value) {
                Some(text) => Some(SearchRequestView { query: text, ..self }),
                None => None,
            }
        } else if field.tag == 2 {
            match text_of(field.value) {
                Some(text) => Some(SearchRequestView { search_id: text, ..self }),
                None => None,
            }
        } else {
            Some(self)
        }
    }

    /// [`Self::merge`] as a function, to hand to [`merge_all`].
    pub open spec fn merger() -> spec_fn(SearchRequestView, FieldView) -> Option<
        SearchRequestView,
    > {
        |request: SearchRequestView, field: FieldView| request.merge(field)
    }

    /// The bytes of the request.
    pub open spec fn encoding(self) -> Seq<u8> {
        text_field(1, self.query) + text_field(2, self.search_id)
    }

    /// The request that `bytes` decode to, or why there is none.
    pub open spec fn decoding(bytes: Seq<u8>) -> Result<SearchRequestView, DecodeError> {
        decoded(bytes, SearchRequestView::empty(), SearchRequestView::merger())
    }

    /// Every text takes no more bytes than a length can say.
    pub open spec fn fits(self) -> bool {
        encode_utf8(self.query).len() <= u64::MAX && encode_utf8(self.search_id).len() <= u64::MAX
    }

    /// Decoding the bytes of a request gives the request back.
    pub proof fn lemma_round_trip(self)
        requires
            self.fits(),
        ensures
            SearchRequestView::decoding(self.encoding()) == Ok::<SearchRequestView, DecodeError>(
                self,
            ),
    {
        let start = SearchRequestView::empty();
        let merge = SearchRequestView::merger();
        let first = text_fields(1, self.query);
        let second = text_fields(2, self.search_id);
        let tail = text_field(2, self.search_id);
        lemma_text_field_read(2, self.search_id, Seq::empty());
        assert(tail + Seq::<u8>::empty() =~= tail);
        crate::wire::lemma_parse_nothing();
        assert(second + Seq::<FieldView>::empty() =~= second);
        lemma_text_field_read(1, self.query, tail);
        assert(parse_fields(self.encoding()) == Some(first + second));
        lemma_merge_concat(first, second, start, merge);
        let middle = SearchRequestView { query: self.query, search_id: Seq::empty() };
        lemma_text_of_written(self.query);
        lemma_text_of_written(self.search_id);
        if self.query.len() == 0 {
            assert(self.query =~= Seq::<char>::empty());
            lemma_merge_single(arbitrary(), start, merge);
        } else {
            lemma_merge_single(first[0], start, merge);
        }
        assert(merge_all(first, start, merge) == Some(middle));
        if self.search_id.len() == 0 {
            assert(self.search_id =~= Seq::<char>::empty());
            lemma_merge_single(arbitrary(), middle, merge);
        } else {
            lemma_merge_single(second[0], middle, merge);
        }
        assert(merge_all(second, middle, merge) == Some(self));
    }
}

impl SearchRequest {
    /// Serializes the request.
    pub fn encode(&self) -> (bytes: Vec<u8>)
        ensures
            bytes@ == self@.encoding(),
    {
        let mut buf: Vec<u8> = Vec::new();
        put_text_field(1, self.query.as_str(), &mut buf);
        put_text_field(2, self.search_id.as_str(), &mut buf);
        proof {
            assert(Seq::<u8>::empty() + text_field(1, self.query@) + text_field(
                2,
                self.search_id@,
            ) =~= self@.encoding());
        }
        buf
    }

    /// Reads a request from a buffer that holds nothing else.
    ///
    /// Fails with [`DecodeError::Wire`] where the buffer is not a run of
    /// well-formed fields, and with [`DecodeError::Field`] where the query or
    /// the search id is not length-delimited or not UTF-8.
    pub fn decode(bytes: &[u8]) -> (r: Result<SearchRequest, DecodeError>)
        ensures
            match r {
                Ok(request) => SearchRequestView::decoding(bytes@) == Ok::<
                    SearchRequestView,
                    DecodeError,
                >(request@),
                Err(e) => SearchRequestView::decoding(bytes@) == Err::<
                    SearchRequestView,
                    DecodeError,
                >(e),
            },
    {
        let fields = match read_fields(bytes) {
            Ok(fields) => fields,
            Err(e) => {
                return Err(e);
            },
        };
        let ghost all = fields_view(fields@);
        let ghost start = SearchRequestView::empty();
        let ghost merge = SearchRequestView::merger();
        let mut request = SearchRequest { query: String::new(), search_id: String::new() };
        let mut i: usize = 0;
        proof {
            assert(all.take(0) =~= Seq::<FieldView>::empty());
        }
        while i < fields.len()
            invariant
                i <= fields@.len(),
                all == fields_view(fields@),
                parse_fields(bytes@) == Some(all),
                start == SearchRequestView::empty(),
                merge == SearchRequestView::merger(),
                merge_all(all.take(i as int), start, merge) == Some(request@),
            decreases fields@.len() - i,
        {
            let field = &fields[i];
            proof {
                lemma_merge_step(all, i as int, start, merge);
                assert(all[i as int] == field@);
            }
            if field.tag == 1 || field.tag == 2 {
                match read_text(&field.value) {
                    Some(text) => {
                        if field.tag == 1 {
                            request.query = text;
                        } else {
                            request.search_id = text;
                        }
                    },
                    None => {
                        proof {
                            lemma_merge_fails(all, i + 1, start, merge);
                        }
                        return Err(DecodeError::Field);
                    },
                }
            }
            i += 1;
        }
        proof {
            assert(all.take(i as int) =~= all);
        }
        Ok(request)
    }
}

/// The strings that a search found.
#[derive(Clone, Debug, PartialEq, Eq)]
pub struct SearchResults {
    /// The matching strings, in the order of the store.
    pub results: Vec<String>,
    /// The token of the search that is answered.
    pub search_id: String,
}

/// What a [`SearchResults`] holds.
pub struct SearchResultsView {
    pub results: Seq<Seq<char>>,
    pub search_id: Seq<char>,
}

impl View for SearchResults {
    type V = SearchResultsView;

    open spec fn view(&self) -> SearchResultsView {
        SearchResultsView { results: texts(self.results@), search_id: self.search_id@ }
    }
}

impl SearchResultsView {
    /// The results that an empty buffer decodes to.
    pub open spec fn empty() -> SearchResultsView {
        SearchResultsView { results: Seq::empty(), search_id: Seq::empty() }
    }

    /// The results after one more field: each field 1 is one more string,
    /// field 2 is the search id.
    pub open spec fn merge(self, field: FieldView) -> Option<SearchResultsView> {
        if field.tag == 1 {
            match text_of(field.value) {
                Some(text) => Some(SearchResultsView { results: self.results.push(text), ..self }),
                None => None,
            }
        } else if field.tag == 2 {
            match text_of(field.value) {
                Some(text) => Some(SearchResultsView { search_id: text, ..self }),
                None => None,
            }
        } else {
            Some(self)
        }
    }

    /// [`Self::merge`] as a function, to hand to [`merge_all`].
    pub open spec fn merger() -> spec_fn(SearchResultsView, FieldView) -> Option<
        SearchResultsView,
    > {
        |results: SearchResultsView, field: FieldView| results.merge(field)
    }

    /// The bytes of the results.
    pub open spec fn encoding(self) -> Seq<u8> {
        repeated_field(1, utf8_of_each(self.results)) + text_field(2, self.search_id)
    }

    /// The results that `bytes` decode to, or why there are none.
    pub open spec fn decoding(bytes: Seq<u8>) -> Result<SearchResultsView, DecodeError> {
        decoded(bytes, SearchResultsView::empty(), SearchResultsView::merger())
    }

    /// Every text takes no more bytes than a length can say.
    pub open spec fn fits(self) -> bool {
        sizes_fit(self.results) && encode_utf8(self.search_id).len() <= u64::MAX
    }

    /// Merging the fields of a list of texts appends the texts.
    pub proof fn lemma_merge_texts(self, items: Seq<Seq<char>>)
        ensures
            merge_all(text_list_fields(1, items), self, SearchResultsView::merger()) == Some(
                SearchResultsView { results: self.results + items, ..self },
            ),
        decreases items.len(),
    {
        let fields = text_list_fields(1, items);
        if items.len() == 0 {
            assert(self.results + items =~= self.results);
        } else {
            let front = items.drop_last();
            self.lemma_merge_texts(front);
            assert(fields.drop_last() =~= text_list_fields(1, front));
            assert(fields.last().value == ValueView::Bytes(encode_utf8(items.last())));
            lemma_text_of_written(items.last());
            assert((self.results + front).push(items.last()) =~= self.results + items);
        }
    }

    /// Decoding the bytes of search results gives them back.
    pub proof fn lemma_round_trip(self)
        requires
            self.fits(),
        ensures
            SearchResultsView::decoding(self.encoding()) == Ok::<SearchResultsView, DecodeError>(
                self,
            ),
    {
        let start = SearchResultsView::empty();
        let merge = SearchResultsView::merger();
        let first = text_list_fields(1, self.results);
        let second = text_fields(2, self.search_id);
        let tail = text_field(2, self.search_id);
        lemma_text_field_read(2, self.search_id, Seq::empty());
        assert(tail + Seq::<u8>::empty() =~= tail);
        crate::wire::lemma_parse_nothing();
        assert(second + Seq::<FieldView>::empty() =~= second);
        lemma_text_list_read(1, self.results, tail);
        assert(parse_fields(self.encoding()) == Some(first + second));
        lemma_merge_concat(first, second, start, merge);
        let middle = SearchResultsView { results: self.results, search_id: Seq::empty() };
        start.lemma_merge_texts(self.results);
        assert(Seq::<Seq<char>>::empty() + self.results =~= self.results);
        assert(merge_all(first, start, merge) == Some(middle));
        lemma_text_of_written(self.search_id);
        if self.search_id.len() == 0 {
            assert(self.search_id =~= Seq::<char>::empty());
            lemma_merge_single(arbitrary(), middle, merge);
        } else {
            lemma_merge_single(second[0], middle, merge);
        }
        assert(merge_all(second, middle, merge) == Some(self));
    }
}

impl SearchResults {
    /// Serializes the results.
    pub fn encode(&self) -> (bytes: Vec<u8>)
        ensures
            bytes@ == self@.encoding(),
    {
        let mut buf: Vec<u8> = Vec::new();
        put_text_list(1, &self.results, &mut buf);
        put_text_field(2, self.search_id.as_str(), &mut buf);
        proof {
            assert(Seq::<u8>::empty() + repeated_field(1, utf8_of_each(texts(self.results@)))
                + text_field(2, self.search_id@) =~= self@.encoding());
        }
        buf
    }

    /// Reads search results from a buffer that holds nothing else.
    ///
    /// Fails with [`DecodeError::Wire`] where the buffer is not a run of
    /// well-formed fields, and with [`DecodeError::Field`] where a result or
    /// the search id is not length-delimited or not UTF-8.
    pub fn decode(bytes: &[u8]) -> (r: Result<SearchResults, DecodeError>)
        ensures
            match r {
                Ok(results) => SearchResultsView::decoding(bytes@) == Ok::<
                    SearchResultsView,
                    DecodeError,
                >(results@),
                Err(e) => SearchResultsView::decoding(bytes@) == Err::<
                    SearchResultsView,
                    DecodeError,
                >(e),
            },
    {
        let fields = match read_fields(bytes) {
            Ok(fields) => fields,
            Err(e) => {
                return Err(e);
            },
        };
        let ghost all = fields_view(fields@);
        let ghost start = SearchResultsView::empty();
        let ghost merge = SearchResultsView::merger();
        let mut found = SearchResults { results: Vec::new(), search_id: String::new() };
        let mut i: usize = 0;
        proof {
            assert(all.take(0) =~= Seq::<FieldView>::empty());
            assert(found@.results =~= start.results);
        }
        while i < fields.len()
            invariant
                i <= fields@.len(),
                all == fields_view(fields@),
                parse_fields(bytes@) == Some(all),
                start == SearchResultsView::empty(),
                merge == SearchResultsView::merger(),
                merge_all(all.take(i as int), start, merge) == Some(found@),
            decreases fields@.len() - i,
        {
            let field = &fields[i];
            proof {
                lemma_merge_step(all, i as int, start, merge);
                assert(all[i as int] == field@);
            }
            if field.tag == 1 || field.tag == 2 {
                match read_text(&field.value) {
                    Some(text) => {
                        if field.tag == 1 {
                            let ghost before = found@.results;
                            found.results.push(text);
                            proof {
                                assert(found@.results =~= before.push(text@));
                            }
                        } else {
                            found.search_id = text;
                        }
                    },
                    None => {
                        proof {
                            lemma_merge_fails(all, i + 1, start, merge);
                        }
                        return Err(DecodeError::Field);
                    },
                }
            }
            i += 1;
        }
        proof {
            assert(all.take(i as int) =~= all);
        }
        Ok(found)
    }
}

/// How many strings the store holds after a change.
#[derive(Clone, Copy, Debug, PartialEq, Eq, Structural)]
pub struct CountResponse {
    pub count: u32,
}

impl CountResponse {
    /// The response that an empty buffer decodes to.
    pub open spec fn empty() -> CountResponse {
        CountResponse { count: 0 }
    }

    /// The response after one more field: field 1 is the count, cut to 32
    /// bits.
    pub open spec fn merge(self, field: FieldView) -> Option<CountResponse> {
        if field.tag == 1 {
            match field.value {
                ValueView::Varint(bits) => Some(CountResponse { count: uint32_of(bits) }),
                _ => None,
            }
        } else {
            Some(self)
        }
    }

    /// [`Self::merge`] as a function, to hand to [`merge_all`].
    pub open spec fn merger() -> spec_fn(CountResponse, FieldView) -> Option<CountResponse> {
        |response: CountResponse, field: FieldView| response.merge(field)
    }

    /// The bytes of the response.
    pub open spec fn encoding(self) -> Seq<u8> {
        if self.count != 0 {
            varint_field(1, self.count as u64)
        } else {
            Seq::empty()
        }
    }

    /// The response that `bytes` decode to, or why there is none.
    pub open spec fn decoding(bytes: Seq<u8>) -> Result<CountResponse, DecodeError> {
        decoded(bytes, CountResponse::empty(), CountResponse::merger())
    }

    /// Decoding the bytes of a response gives the response back.
    pub proof fn lemma_round_trip(self)
        ensures
            CountResponse::decoding(self.encoding()) == Ok::<CountResponse, DecodeError>(self),
    {
        let start = CountResponse::empty();
        let merge = CountResponse::merger();
        crate::wire::lemma_parse_nothing();
        if self.count != 0 {
            let field = FieldView { tag: 1, value: ValueView::Varint(self.count as u64) };
            lemma_varint_field_read(1, self.count as u64, Seq::empty());
            assert(self.encoding() + Seq::<u8>::empty() =~= self.encoding());
            assert(seq![field] + Seq::<FieldView>::empty() =~= seq![field]);
            lemma_merge_single(field, start, merge);
            assert(uint32_of(self.count as u64) == self.count);
        } else {
            lemma_merge_single(arbitrary(), start, merge);
        }
    }

    /// Serializes the response.
    pub fn encode(&self) -> (bytes: Vec<u8>)
        ensures
            bytes@ == self.encoding(),
    {
        let mut buf: Vec<u8> = Vec::new();
        if self.count != 0 {
            put_varint_field(1, self.count as u64, &mut buf);
            proof {
                assert(Seq::<u8>::empty() + self.encoding() =~= self.encoding());
            }
        }
        buf
    }

    /// Reads a response from a buffer that holds nothing else.
    ///
    /// Fails with [`DecodeError::Wire`] where the buffer is not a run of
    /// well-formed fields, and with [`DecodeError::Field`] where the count is
    /// not a varint.
    pub fn decode(bytes: &[u8]) -> (r: Result<CountResponse, DecodeError>)
        ensures
            r == CountResponse::decoding(bytes@),
    {
        let fields = match read_fields(bytes) {
            Ok(fields) => fields,
            Err(e) => {
                return Err(e);
            },
        };
        let ghost all = fields_view(fields@);
        let ghost start = CountResponse::empty();
        let ghost merge = CountResponse::merger();
        let mut response = CountResponse { count: 0 };
        let mut i: usize = 0;
        proof {
            assert(all.take(0) =~= Seq::<FieldView>::empty());
        }
        while i < fields.len()
            invariant
                i <= fields@.len(),
                all == fields_view(fields@),
                parse_fields(bytes@) == Some(all),
                start == CountResponse::empty(),
                merge == CountResponse::merger(),
                merge_all(all.take(i as int), start, merge) == Some(response),
            decreases fields@.len() - i,
        {
            let field = &fields[i];
            proof {
                lemma_merge_step(all, i as int, start, merge);
                assert(all[i as int] == field@);
            }
            if field.tag == 1 {
                match &field.value {
                    Value::Varint(bits) => {
                        response = CountResponse { count: bits_to_uint32(*bits) };
                    },
                    _ => {
                        proof {
                            lemma_merge_fails(all, i + 1, start, merge);
                        }
                        return Err(DecodeError::Field);
                    },
                }
            }
            i += 1;
        }
        proof {
            assert(all.take(i as int) =~= all);
        }
        Ok(response)
    }
}

/// A failure that the host is told of.
#[derive(Clone, Debug, PartialEq, Eq)]
pub struct ErrorMessage {
    pub message: String,
}

/// What an [`ErrorMessage`] holds.
pub struct ErrorMessageView {
    pub message: Seq<char>,
}

impl View for ErrorMessage {
    type V = ErrorMessageView;

    open spec fn view(&self) -> ErrorMessageView {
        ErrorMessageView { message: self.message@ }
    }
}

impl ErrorMessageView {
    /// The message that an empty buffer decodes to.
    pub open spec fn empty() -> ErrorMessageView {
        ErrorMessageView { message: Seq::empty() }
    }

    /// The message after one more field: field 1 is the text.
    pub open spec fn merge(self, field: FieldView) -> Option<ErrorMessageView> {
        if field.tag == 1 {
            match text_of(field.value) {
                Some(text) => Some(ErrorMessageView { message: text }),
                None => None,
            }
        } else {
            Some(self)
        }
    }

    /// [`Self::merge`] as a function, to hand to [`merge_all`].
    pub open spec fn merger() -> spec_fn(ErrorMessageView, FieldView) -> Option<ErrorMessageView> {
        |message: ErrorMessageView, field: FieldView| message.merge(field)
    }

    /// The bytes of the message.
    pub open spec fn encoding(self) -> Seq<u8> {
        text_field(1, self.message)
    }

    /// The message that `bytes` decode to, or why there is none.
    pub open spec fn decoding(bytes: Seq<u8>) -> Result<ErrorMessageView, DecodeError> {
        decoded(bytes, ErrorMessageView::empty(), ErrorMessageView::merger())
    }

    /// Decoding the bytes of a message gives the message back.
    pub proof fn lemma_round_trip(self)
        requires
            encode_utf8(self.message).len() <= u64::MAX,
        ensures
            ErrorMessageView::decoding(self.encoding()) == Ok::<ErrorMessageView, DecodeError>(
                self,
            ),
    {
        let start = ErrorMessageView::empty();
        let merge = ErrorMessageView::merger();
        let fields = text_fields(1, self.message);
        lemma_text_field_read(1, self.message, Seq::empty());
        assert(self.encoding() + Seq::<u8>::empty() =~= self.encoding());
        crate::wire::lemma_parse_nothing();
        assert(fields + Seq::<FieldView>::empty() =~= fields);
        lemma_text_of_written(self.message);
        if self.message.len() == 0 {
            assert(self.message =~= Seq::<char>::empty());
            lemma_merge_single(arbitrary(), start, merge);
        } else {
            lemma_merge_single(fields[0], start, merge);
        }
    }
}

impl ErrorMessage {
    /// Serializes the message.
    pub fn encode(&self) -> (bytes: Vec<u8>)
        ensures
            bytes@ == self@.encoding(),
    {
        let mut buf: Vec<u8> = Vec::new();
        put_text_field(1, self.message.as_str(), &mut buf);
        proof {
            assert(Seq::<u8>::empty() + self@.encoding() =~= self@.encoding());
        }
        buf
    }

    /// Reads a message from a buffer that holds nothing else.
    ///
    /// Fails with [`DecodeError::Wire`] where the buffer is not a run of
    /// well-formed fields, and with [`DecodeError::Field`] where the text is
    /// not length-delimited or not UTF-8.
    pub fn decode(bytes: &[u8]) -> (r: Result<ErrorMessage, DecodeError>)
        ensures
            match r {
                Ok(message) => ErrorMessageView::decoding(bytes@) == Ok::<
                    ErrorMessageView,
                    DecodeError,
                >(message@),
                Err(e) => ErrorMessageView::decoding(bytes@) == Err::<
                    ErrorMessageView,
                    DecodeError,
                >(e),
            },
    {
        let fields = match read_fields(bytes) {
            Ok(fields) => fields,
            Err(e) => {
                return Err(e);
            },
        };
        let ghost all = fields_view(fields@);
        let ghost start = ErrorMessageView::empty();
        let ghost merge = ErrorMessageView::merger();
        let mut message = ErrorMessage { message: String::new() };
        let mut i: usize = 0;
        proof {
            assert(all.take(0) =~= Seq::<FieldView>::empty());
        }
        while i < fields.len()
            invariant
                i <= fields@.len(),
                all == fields_view(fields@),
                parse_fields(bytes@) == Some(all),
                start == ErrorMessageView::empty(),
                merge == ErrorMessageView::merger(),
                merge_all(all.take(i as int), start, merge) == Some(message@),
            decreases fields@.len() - i,
        {
            let field = &fields[i];
            proof {
                lemma_merge_step(all, i as int, start, merge);
                assert(all[i as int] == field@);
            }
            if field.tag == 1 {
                match read_text(&field.value) {
                    Some(text) => {
                        message.message = text;
                    },
                    None => {
                        proof {
                            lemma_merge_fails(all, i + 1, start, merge);
                        }
                        return Err(DecodeError::Field);
                    },
                }
            }
            i += 1;
        }
        proof {
            assert(all.take(i as int) =~= all);
        }
        Ok(message)
    }
}

} // verus!
