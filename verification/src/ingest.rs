//! Connection ingest: one connection carries one locator, and the message
//! ends when the peer closes.

use vstd::prelude::*;
use vstd::string::StringSliceAdditionalSpecFns;
use vstd::utf8::{decode_utf8, valid_utf8};

verus! {

/// The port on which connections are taken, on every interface.
pub const LISTEN_PORT: u16 = 8000;

/// Number of bytes a driver asks of a connection with each read.
pub const CHUNK_SIZE: usize = 1024;

/// `core::str::Utf8Error`, the reason `core::str::from_utf8` gives for a
/// refusal. It is passed along unread.
#[verifier::external_type_specification]
#[verifier::external_body]
pub struct ExUtf8Error(core::str::Utf8Error);

/// `core::str::from_utf8` succeeds on exactly the byte slices that are
/// well-formed UTF-8, and the text it returns has the given bytes as its
/// encoding.
pub assume_specification[ core::str::from_utf8 ](v: &[u8]) -> (r: Result<
    &str,
    core::str::Utf8Error,
>)
    ensures
        r is Ok <==> valid_utf8(v@),
        r matches Ok(s) ==> s.spec_bytes() == v@,
;

/// The text that one chunk contributes to a locator: its decoding where the
/// chunk as a whole is well-formed UTF-8, nothing otherwise.
pub open spec fn chunk_text(chunk: Seq<u8>) -> Seq<char> {
    if valid_utf8(chunk) {
        decode_utf8(chunk)
    } else {
        Seq::empty()
    }
}

/// The locator that a connection yields after it delivered `chunks`, in that
/// order: the contributions of the chunks, concatenated.
pub open spec fn assembled(chunks: Seq<Seq<u8>>) -> Seq<char>
    decreases chunks.len(),
{
    if chunks.len() == 0 {
        Seq::empty()
    } else {
        assembled(chunks.drop_last()) + chunk_text(chunks.last())
    }
}

/// What one read on a connection came back with.
#[derive(Clone, Copy, Debug, PartialEq, Eq)]
pub enum ReadOutcome<'a> {
    /// The bytes that the read placed in the buffer; none means that the peer
    /// has closed.
    Data(&'a [u8]),
    /// The read failed.
    Failed,
}

impl<'a> ReadOutcome<'a> {
    /// True when this read is the last of its connection: an orderly close or
    /// a failure.
    pub open spec fn ends_message(self) -> bool {
        match self {
            ReadOutcome::Data(bytes) => bytes@.len() == 0,
            ReadOutcome::Failed => true,
        }
    }
}

/// A connection that is being drained.
pub struct Connection {
    text: String,
    chunks: Ghost<Seq<Seq<u8>>>,
}

/// Where a connection stands after a read.
pub enum Progress {
    /// The peer may send more.
    Open(Connection),
    /// The message is complete: this is its locator.
    Complete(String),
}

impl Connection {
    #[verifier::type_invariant]
    spec fn text_matches_chunks(self) -> bool {
        self.text@ == assembled(self.chunks@)
    }

    /// The non-empty chunks read from this connection so far, oldest first.
    pub closed spec fn received(self) -> Seq<Seq<u8>> {
        self.chunks@
    }

    /// A connection that was just accepted.
    pub fn new() -> (c: Connection)
        ensures
            c.received() == Seq::<Seq<u8>>::empty(),
    {
        Connection { text: String::new(), chunks: Ghost(Seq::empty()) }
    }

    /// Takes in the outcome of the next read.
    ///
    /// Data keeps the connection open and is recorded; a close or a failure
    /// completes the message with whatever text was gathered until then.
    pub fn on_read(self, read: ReadOutcome<'_>) -> (p: Progress)
        ensures
            read.ends_message() ==> {
                &&& p matches Progress::Complete(locator)
                &&& locator@ == assembled(self.received())
            },
            !read.ends_message() ==> {
                &&& p matches Progress::Open(next)
                &&& read matches ReadOutcome::Data(bytes)
                &&& next.received() == self.received().push(bytes@)
            },
    {
        proof {
            use_type_invariant(&self);
        }
        match read {
            ReadOutcome::Data(bytes) => {
                if bytes.len() == 0 {
                    Progress::Complete(self.text)
                } else {
                    let ghost before = self.chunks@;
                    let ghost chunks = before.push(bytes@);
                    let mut text = self.text;
                    match core::str::from_utf8(bytes) {
                        Ok(fragment) => {
                            proof {
                                vstd::utf8::encode_utf8_decode_utf8(fragment@);
                            }
                            text.append(fragment);
                        },
                        Err(_) => {},
                    }
                    assert(chunks.drop_last() =~= before);
                    Progress::Open(Connection { text, chunks: Ghost(chunks) })
                }
            },
            ReadOutcome::Failed => Progress::Complete(self.text),
        }
    }
}

/// Decoding commutes with concatenation of well-formed pieces.
proof fn lemma_decode_concat(a: Seq<u8>, b: Seq<u8>)
    requires
        valid_utf8(a),
        valid_utf8(b),
    ensures
        valid_utf8(a + b),
        decode_utf8(a + b) == decode_utf8(a) + decode_utf8(b),
    decreases a.len(),
{
    vstd::utf8::valid_utf8_concat(a, b);
    if a.len() > 0 {
        let rest = vstd::utf8::pop_first_scalar(a);
        assert(vstd::utf8::pop_first_scalar(a + b) =~= rest + b);
        lemma_decode_concat(rest, b);
    }
}

/// Chunks that are not well-formed UTF-8 leave no trace in the locator: it is
/// the locator of the well-formed chunks alone.
pub proof fn lemma_unreadable_chunks_are_dropped(chunks: Seq<Seq<u8>>)
    ensures
        assembled(chunks) == assembled(chunks.filter(|chunk: Seq<u8>| valid_utf8(chunk))),
    decreases chunks.len(),
{
    reveal(Seq::filter);
    let readable = |chunk: Seq<u8>| valid_utf8(chunk);
    if chunks.len() > 0 {
        lemma_unreadable_chunks_are_dropped(chunks.drop_last());
        let kept = chunks.drop_last().filter(readable);
        if valid_utf8(chunks.last()) {
            assert(kept.push(chunks.last()).drop_last() =~= kept);
        }
    }
}

/// Where every chunk is well-formed UTF-8, the chunk boundaries do not show:
/// the byte stream as a whole is well formed and the locator is its decoding.
pub proof fn lemma_readable_chunks_decode_as_one_stream(chunks: Seq<Seq<u8>>)
    requires
        forall|i: int| 0 <= i < chunks.len() ==> valid_utf8(#[trigger] chunks[i]),
    ensures
        valid_utf8(chunks.flatten()),
        assembled(chunks) == decode_utf8(chunks.flatten()),
    decreases chunks.len(),
{
    if chunks.len() == 0 {
    } else {
        let init = chunks.drop_last();
        lemma_readable_chunks_decode_as_one_stream(init);
        init.lemma_flatten_push(chunks.last());
        assert(init.push(chunks.last()) =~= chunks);
        lemma_decode_concat(init.flatten(), chunks.last());
    }
}

/// The locator of a connection is the decoding of those of its chunks that
/// are well-formed UTF-8, joined in the order of arrival.
pub proof fn lemma_locator_is_decoded_readable_bytes(chunks: Seq<Seq<u8>>)
    ensures
        assembled(chunks) == decode_utf8(
            chunks.filter(|chunk: Seq<u8>| valid_utf8(chunk)).flatten(),
        ),
{
    let readable = |chunk: Seq<u8>| valid_utf8(chunk);
    lemma_unreadable_chunks_are_dropped(chunks);
    let kept = chunks.filter(readable);
    assert forall|i: int| 0 <= i < kept.len() implies valid_utf8(#[trigger] kept[i]) by {
        chunks.lemma_filter_pred(readable, i);
    }
    lemma_readable_chunks_decode_as_one_stream(kept);
}

} // verus!
