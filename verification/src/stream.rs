//! Decoding of replies: whole JSON bodies, streams of newline-delimited
//! JSON, and error bodies.

use vstd::prelude::*;
use vstd::slice::slice_subrange;
use vstd::utf8::{decode_utf8, valid_utf8};

use crate::error::{Application, ApplicationView};

verus! {

/// What the interface needs of one JSON document of a reply.
#[derive(Debug)]
pub struct StreamRecord {
    /// The string at `message.content`, if there is one.
    pub content: Option<String>,
    /// The boolean at `done`, if there is one.
    pub done: Option<bool>,
}

/// A record as the contracts see it.
pub struct RecordView {
    pub content: Option<Seq<char>>,
    pub done: Option<bool>,
}

impl View for StreamRecord {
    type V = RecordView;

    open spec fn view(&self) -> RecordView {
        RecordView {
            content: match self.content {
                Some(text) => Some(text@),
                None => None,
            },
            done: self.done,
        }
    }
}

/// The text that `String::from_utf8_lossy` makes of `bytes`: their decoding
/// as UTF-8, with U+FFFD in place of each invalid sequence.
pub uninterp spec fn lossy_text(bytes: Seq<u8>) -> Seq<char>;

/// Calls `String::from_utf8_lossy`, which reads nothing but the bytes.
/// Bytes that are valid UTF-8 give the text that they encode.
#[verifier::external_body]
fn decode_lossy(bytes: &[u8]) -> (text: String)
    ensures
        text@ == lossy_text(bytes@),
        valid_utf8(bytes@) ==> text@ == decode_utf8(bytes@),
{
    String::from_utf8_lossy(bytes).into_owned()
}

/// The text of `bytes`: their decoding as UTF-8, with U+FFFD in place of
/// what is no UTF-8. Bytes that are valid UTF-8 give the text that they
/// encode.
pub fn lossy(bytes: &[u8]) -> (text: String)
    ensures
        text@ == lossy_text(bytes@),
        valid_utf8(bytes@) ==> lossy_text(bytes@) == decode_utf8(bytes@),
{
    decode_lossy(bytes)
}

/// The string that `serde_json` finds in `text` at the JSON pointer
/// `pointer`: `None` where `text` is not a JSON document, `Some(None)` where
/// the document holds no string there.
pub uninterp spec fn json_string(text: Seq<char>, pointer: Seq<char>) -> Option<
    Option<Seq<char>>,
>;

/// Parses `text` with `serde_json::from_str`, looks `pointer` up with
/// `Value::pointer` and reads the value found with `Value::as_str`. The
/// parser reads nothing but `text`, the lookup nothing but the document and
/// `pointer`.
#[verifier::external_body]
fn string_at(text: &str, pointer: &str) -> (found: Option<Option<String>>)
    ensures
        match found {
            Some(Some(string)) => json_string(text@, pointer@) == Some(Some(string@)),
            Some(None) => json_string(text@, pointer@) == Some(None::<Seq<char>>),
            None => json_string(text@, pointer@) is None,
        },
{
    let value: serde_json::Value = serde_json::from_str(text).ok()?;
    Some(value.pointer(pointer).and_then(|found| found.as_str()).map(String::from))
}

/// The boolean that `serde_json` finds in `text` at the JSON pointer
/// `pointer`: `None` where `text` is not a JSON document, `Some(None)` where
/// the document holds no boolean there.
pub uninterp spec fn json_bool(text: Seq<char>, pointer: Seq<char>) -> Option<Option<bool>>;

/// Parses `text` with `serde_json::from_str`, looks `pointer` up with
/// `Value::pointer` and reads the value found with `Value::as_bool`.
#[verifier::external_body]
fn bool_at(text: &str, pointer: &str) -> (found: Option<Option<bool>>)
    ensures
        found == json_bool(text@, pointer@),
{
    let value: serde_json::Value = serde_json::from_str(text).ok()?;
    Some(value.pointer(pointer).and_then(|found| found.as_bool()))
}

/// What a line of a streamed reply holds: nothing where it is not a JSON
/// document, else the string at `message.content` and the boolean at `done`,
/// each if present.
pub open spec fn parsed_record(text: Seq<char>) -> Option<RecordView> {
    record_found(json_string(text, "/message/content"@), json_bool(text, "/done"@))
}

/// The record made of what was found at `message.content` and at `done`.
pub open spec fn record_found(
    content: Option<Option<Seq<char>>>,
    done: Option<Option<bool>>,
) -> Option<RecordView> {
    match content {
        Some(text) => Some(
            RecordView {
                content: text,
                done: match done {
                    Some(flag) => flag,
                    None => None,
                },
            },
        ),
        None => None,
    }
}

/// The record made of what was found in a document at `message.content`
/// and at `done`; none where the text was no document.
pub fn record_of(content: Option<Option<String>>, done: Option<Option<bool>>) -> (record: Option<
    StreamRecord,
>)
    ensures
        match record {
            Some(found) => record_found(
                match content {
                    Some(Some(text)) => Some(Some(text@)),
                    Some(None) => Some(None),
                    None => None,
                },
                done,
            ) == Some(found@),
            None => content is None,
        },
{
    match content {
        Some(text) => Some(
            StreamRecord {
                content: text,
                done: match done {
                    Some(flag) => flag,
                    None => None,
                },
            },
        ),
        None => None,
    }
}

/// Reads `text` as one line of a streamed reply.
pub fn read_record(text: &str) -> (record: Option<StreamRecord>)
    ensures
        match record {
            Some(found) => parsed_record(text@) == Some(found@),
            None => parsed_record(text@) is None,
        },
{
    let content = string_at(text, "/message/content");
    let done = match content {
        Some(_) => bool_at(text, "/done"),
        None => None,
    };
    record_of(content, done)
}

/// The text that a record adds to the reply: its content, if it has any.
pub open spec fn record_delta(record: Option<RecordView>) -> Seq<Seq<char>> {
    match record {
        Some(RecordView { content: Some(text), .. }) => seq![text],
        _ => Seq::empty(),
    }
}

/// Whether a record ends the reply: it says `done: true`.
pub open spec fn record_done(record: Option<RecordView>) -> bool {
    match record {
        Some(RecordView { done: Some(true), .. }) => true,
        _ => false,
    }
}

/// How many bytes stand before the first line feed of `bytes`; all of them
/// where there is none.
pub open spec fn line_len(bytes: Seq<u8>) -> nat
    decreases bytes.len(),
{
    if bytes.len() == 0 || bytes[0] == 10 {
        0
    } else {
        1 + line_len(bytes.drop_first())
    }
}

/// A line is no longer than the bytes it is found in.
pub proof fn lemma_line_len(bytes: Seq<u8>)
    ensures
        line_len(bytes) <= bytes.len(),
    decreases bytes.len(),
{
    if bytes.len() > 0 && bytes[0] != 10 {
        lemma_line_len(bytes.drop_first());
    }
}

/// What decoding makes of buffered bytes.
pub struct Drained {
    /// The texts found, in order.
    pub deltas: Seq<Seq<char>>,
    /// The bytes behind the last complete line.
    pub rest: Seq<u8>,
    /// Whether a record said that the reply is complete.
    pub done: bool,
}

/// The texts in the complete lines of `bytes`: each line, decoded as UTF-8
/// and parsed as JSON, gives its content, if it has any; a line that is not
/// JSON gives nothing. A record that says `done: true` ends the decoding and
/// what follows it is dropped; otherwise the bytes behind the last line feed
/// are kept.
pub open spec fn drain(bytes: Seq<u8>) -> Drained
    decreases bytes.len(),
{
    let n = line_len(bytes);
    if n >= bytes.len() {
        Drained { deltas: Seq::empty(), rest: bytes, done: false }
    } else {
        let record = parsed_record(lossy_text(bytes.take(n as int)));
        if record_done(record) {
            Drained { deltas: record_delta(record), rest: Seq::empty(), done: true }
        } else {
            let later = drain(bytes.skip(n as int + 1));
            Drained {
                deltas: record_delta(record) + later.deltas,
                rest: later.rest,
                done: later.done,
            }
        }
    }
}

/// The views of `strings`, in order.
pub open spec fn texts_view(strings: Seq<String>) -> Seq<Seq<char>> {
    strings.map_values(|s: String| s@)
}

/// Collects the texts of a reply that arrives in chunks of bytes.
#[derive(Debug)]
pub struct LineDecoder {
    buffer: Vec<u8>,
    done: bool,
}

/// A decoder as the contracts see it.
pub struct DecoderView {
    /// Bytes received that no line feed has ended yet.
    pub buffer: Seq<u8>,
    /// Whether the reply is complete.
    pub done: bool,
}

impl View for LineDecoder {
    type V = DecoderView;

    closed spec fn view(&self) -> DecoderView {
        DecoderView { buffer: self.buffer@, done: self.done }
    }
}

/// The decoder after `chunk` arrived. Once the reply is complete, further
/// chunks change nothing.
pub open spec fn fed(d: DecoderView, chunk: Seq<u8>) -> DecoderView {
    if d.done {
        d
    } else {
        DecoderView { buffer: drain(d.buffer + chunk).rest, done: drain(d.buffer + chunk).done }
    }
}

/// The texts that `chunk` completes. Once the reply is complete, further
/// chunks give nothing.
pub open spec fn fed_deltas(d: DecoderView, chunk: Seq<u8>) -> Seq<Seq<char>> {
    if d.done {
        Seq::empty()
    } else {
        drain(d.buffer + chunk).deltas
    }
}

/// The text of a reply that arrived as one JSON document: its
/// `message.content`, if it has one; an error where the body is not JSON.
pub open spec fn body_delta(body: Seq<char>) -> Result<Option<Seq<char>>, ApplicationView> {
    match json_string(body, "/message/content"@) {
        Some(content) => Ok(content),
        None => Err(ApplicationView::JsonParse(body)),
    }
}

/// The error that a reply without success status stands for: the server's
/// `error` text where the body is JSON and has one, the whole body where it
/// is not JSON, and an unknown error otherwise.
pub open spec fn body_error(body: Seq<char>) -> ApplicationView {
    match json_string(body, "/error"@) {
        Some(Some(text)) => ApplicationView::ApiError(text),
        Some(None) => ApplicationView::Unexpected("Unknown API error"@),
        None => ApplicationView::ApiError(body),
    }
}

/// A line feed in `head` is the first line feed of `head + tail` too.
proof fn lemma_line_len_concat(head: Seq<u8>, tail: Seq<u8>)
    ensures
        line_len(head) < head.len() ==> line_len(head + tail) == line_len(head),
        line_len(head) >= head.len() ==> line_len(head + tail) == head.len() + line_len(tail),
    decreases head.len(),
{
    lemma_line_len(head);
    if head.len() == 0 {
        assert(head + tail =~= tail);
    } else {
        assert((head + tail)[0] == head[0]);
        if head[0] != 10 {
            lemma_line_len_concat(head.drop_first(), tail);
            assert((head + tail).drop_first() =~= head.drop_first() + tail);
        }
    }
}

/// Decoding `head + tail` is decoding `head` and then, unless the reply is
/// complete, what `head` left over together with `tail`.
proof fn lemma_drain_concat(head: Seq<u8>, tail: Seq<u8>)
    ensures
        drain(head).done ==> drain(head + tail) == drain(head),
        !drain(head).done ==> drain(head + tail) == (Drained {
            deltas: drain(head).deltas + drain(drain(head).rest + tail).deltas,
            rest: drain(drain(head).rest + tail).rest,
            done: drain(drain(head).rest + tail).done,
        }),
    decreases head.len(),
{
    lemma_line_len(head);
    lemma_line_len_concat(head, tail);
    let n = line_len(head);
    if n >= head.len() {
        assert(Seq::<Seq<char>>::empty() + drain(head + tail).deltas =~= drain(head + tail).deltas);
    } else {
        assert((head + tail).take(n as int) =~= head.take(n as int));
        assert((head + tail).skip(n as int + 1) =~= head.skip(n as int + 1) + tail);
        let record = parsed_record(lossy_text(head.take(n as int)));
        if !record_done(record) {
            lemma_drain_concat(head.skip(n as int + 1), tail);
            let later = drain(head.skip(n as int + 1));
            if !later.done {
                assert(record_delta(record) + (later.deltas + drain(later.rest + tail).deltas)
                    =~= (record_delta(record) + later.deltas) + drain(later.rest + tail).deltas);
            }
        }
    }
}

/// However the bytes of a reply are cut into chunks, the decoder finds the
/// same texts in the same order and ends in the same state: feeding two
/// chunks one after the other is feeding them joined.
pub proof fn lemma_chunking_does_not_matter(d: DecoderView, first: Seq<u8>, second: Seq<u8>)
    ensures
        fed(fed(d, first), second) == fed(d, first + second),
        fed_deltas(d, first) + fed_deltas(fed(d, first), second) == fed_deltas(
            d,
            first + second,
        ),
{
    if d.done {
        assert(Seq::<Seq<char>>::empty() + Seq::<Seq<char>>::empty() =~= Seq::<
            Seq<char>,
        >::empty());
    } else {
        assert(d.buffer + (first + second) =~= (d.buffer + first) + second);
        lemma_drain_concat(d.buffer + first, second);
        if drain(d.buffer + first).done {
            assert(drain(d.buffer + first).deltas + Seq::<Seq<char>>::empty() =~= drain(
                d.buffer + first,
            ).deltas);
        }
    }
}

impl LineDecoder {
    /// A decoder that has received nothing.
    pub fn new() -> (decoder: Self)
        ensures
            decoder@ == (DecoderView { buffer: Seq::empty(), done: false }),
    {
        LineDecoder { buffer: Vec::new(), done: false }
    }

    /// Whether a record said that the reply is complete.
    pub fn is_done(&self) -> (done: bool)
        ensures
            done == self@.done,
    {
        self.done
    }

    /// Adds the text of `record`, if it has any, to `deltas` and tells
    /// whether the record ends the reply.
    pub fn apply_record(record: Option<StreamRecord>, deltas: &mut Vec<String>) -> (done: bool)
        ensures
            texts_view(final(deltas)@) == texts_view(old(deltas)@) + record_delta(
                match record {
                    Some(found) => Some(found@),
                    None => None,
                },
            ),
            done == record_done(
                match record {
                    Some(found) => Some(found@),
                    None => None,
                },
            ),
    {
        match record {
            Some(found) => {
                let done = match found.done {
                    Some(flag) => flag,
                    None => false,
                };
                match found.content {
                    Some(text) => {
                        let ghost earlier = deltas@;
                        deltas.push(text);
                        assert(texts_view(deltas@) =~= texts_view(earlier) + seq![text@]);
                    },
                    None => {
                        assert(texts_view(deltas@) + Seq::<Seq<char>>::empty() =~= texts_view(
                            deltas@,
                        ));
                    },
                }
                done
            },
            None => {
                assert(texts_view(deltas@) + Seq::<Seq<char>>::empty() =~= texts_view(deltas@));
                false
            },
        }
    }

    /// Takes in the next chunk of the reply and returns the texts of the
    /// lines that it completes, in order.
    pub fn feed(&mut self, chunk: &[u8]) -> (deltas: Vec<String>)
        ensures
            final(self)@ == fed(old(self)@, chunk@),
            texts_view(deltas@) == fed_deltas(old(self)@, chunk@),
    {
        let mut deltas: Vec<String> = Vec::new();
        assert(texts_view(deltas@) =~= Seq::empty());
        if self.done {
            return deltas;
        }
        self.buffer.extend_from_slice(chunk);
        let ghost all = self.buffer@;
        assert(all == old(self)@.buffer + chunk@);
        let mut start: usize = 0;
        assert(all.skip(0) =~= all);
        assert(texts_view(deltas@) + drain(all).deltas =~= drain(all).deltas);
        loop
            invariant_except_break
                start <= self.buffer.len(),
                self.buffer@ == all,
                !self.done,
                drain(all).deltas == texts_view(deltas@) + drain(all.skip(start as int)).deltas,
                drain(all).rest == drain(all.skip(start as int)).rest,
                drain(all).done == drain(all.skip(start as int)).done,
            ensures
                self@ == (DecoderView { buffer: drain(all).rest, done: drain(all).done }),
                texts_view(deltas@) == drain(all).deltas,
            decreases self.buffer.len() - start,
        {
            let ghost rest = all.skip(start as int);
            let mut end: usize = start;
            while end < self.buffer.len() && self.buffer[end] != 10
                invariant
                    start <= end <= self.buffer.len(),
                    self.buffer@ == all,
                    line_len(rest) == (end - start) + line_len(all.skip(end as int)),
                decreases self.buffer.len() - end,
            {
                assert(all.skip(end as int).drop_first() =~= all.skip(end as int + 1));
                end += 1;
            }
            if end >= self.buffer.len() {
                let kept = self.buffer.split_off(start);
                self.buffer = kept;
                assert(self.buffer@ =~= rest);
                assert(texts_view(deltas@) + Seq::<Seq<char>>::empty() =~= texts_view(deltas@));
                break ;
            }
            let line = lossy(slice_subrange(self.buffer.as_slice(), start, end));
            assert(all.subrange(start as int, end as int) =~= rest.take(end - start));
            assert(rest.skip(end - start + 1) =~= all.skip(end as int + 1));
            let record = read_record(line.as_str());
            let ghost earlier = texts_view(deltas@);
            let done = Self::apply_record(record, &mut deltas);
            if done {
                self.buffer = Vec::new();
                self.done = true;
                break ;
            }
            assert((earlier + record_delta(parsed_record(line@))) + drain(
                all.skip(end as int + 1),
            ).deltas =~= earlier + (record_delta(parsed_record(line@)) + drain(
                all.skip(end as int + 1),
            ).deltas));
            start = end + 1;
        }
        deltas
    }
}

/// The text of a reply that arrived as one JSON document, given what was
/// found in `body` at `message.content`: that string, if there is one; an
/// error where the body was no JSON.
pub fn delta_of(found: Option<Option<String>>, body: &str) -> (delta: Result<
    Option<String>,
    Application,
>)
    ensures
        match delta {
            Ok(Some(text)) => found matches Some(Some(string)) && string@ == text@,
            Ok(None) => found matches Some(None),
            Err(error) => found is None && error@ == ApplicationView::JsonParse(body@),
        },
{
    match found {
        Some(content) => Ok(content),
        None => Err(Application::JsonParse(body.to_owned())),
    }
}

/// The error that the body of a reply without success status stands for,
/// given what was found in `body` at `error`: the server's text where there
/// is one, the whole body where it was no JSON, and an unknown error
/// otherwise.
pub fn error_of(found: Option<Option<String>>, body: &str) -> (error: Application)
    ensures
        error@ == match found {
            Some(Some(text)) => ApplicationView::ApiError(text@),
            Some(None) => ApplicationView::Unexpected("Unknown API error"@),
            None => ApplicationView::ApiError(body@),
        },
{
    match found {
        Some(Some(text)) => Application::ApiError(text),
        Some(None) => Application::Unexpected("Unknown API error".to_owned()),
        None => Application::ApiError(body.to_owned()),
    }
}

/// The text of a reply that arrived as one JSON document: the string at
/// `message.content`, if there is one.
pub fn whole_body_delta(body: &str) -> (delta: Result<Option<String>, Application>)
    ensures
        match delta {
            Ok(Some(text)) => body_delta(body@) == Ok::<Option<Seq<char>>, ApplicationView>(
                Some(text@),
            ),
            Ok(None) => body_delta(body@) == Ok::<Option<Seq<char>>, ApplicationView>(None),
            Err(error) => body_delta(body@) == Err::<Option<Seq<char>>, ApplicationView>(error@),
        },
{
    delta_of(string_at(body, "/message/content"), body)
}

/// The error that the body of a reply without success status stands for:
/// the string at `error`, if there is one.
pub fn error_delta(body: &str) -> (error: Application)
    ensures
        error@ == body_error(body@),
{
    error_of(string_at(body, "/error"), body)
}

} // verus!
