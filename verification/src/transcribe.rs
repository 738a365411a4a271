//! The upload protocol: what one reply of the transcription service means,
//! and the dispatcher that decides which chunk is sent next and gathers the
//! transcripts in chunk order.
//!
//! The dispatcher sends nothing itself. Its caller asks it for the next
//! chunk, performs the request, and hands the reply back.

use vstd::prelude::*;
use crate::auth::ServerMessage;
use crate::error::PttError;

verus! {

/// The body of a successful reply, as the service sends it.
#[derive(Clone, Debug, PartialEq, Eq)]
pub struct TranscribeResponse {
    pub text: String,
    pub messages: Option<Vec<ServerMessage>>,
}

/// A transcript with the notices that came with it.
#[derive(Clone, Debug, PartialEq, Eq)]
pub struct FullResponse {
    pub text: String,
    pub messages: Vec<ServerMessage>,
}

/// A `FullResponse` as a mathematical value.
pub struct Transcript {
    pub text: Seq<char>,
    pub messages: Seq<ServerMessage>,
}

impl View for FullResponse {
    type V = Transcript;

    open spec fn view(&self) -> Transcript {
        Transcript { text: self.text@, messages: self.messages@ }
    }
}

/// What came back for one chunk.
#[derive(Clone, Debug, PartialEq, Eq)]
pub enum ChunkReply {
    /// A status in 2xx with a body that could be read.
    Transcript(FullResponse),
    /// Anything else: the status and the body as received.
    Failure { status: u16, body: String },
}

/// The most bytes that one upload may carry: 3 MiB.
pub const MAX_CHUNK_SIZE: usize = 3 * 1024 * 1024;

/// The name of the form part that carries the audio.
pub const PART_NAME: &'static str = "audio";

/// The file name that the audio is sent under.
pub const FILE_NAME: &'static str = "audio.wav";

/// The media type that the audio is sent as.
pub const MIME_TYPE: &'static str = "audio/wav";

/// The path of the transcription endpoint on the service.
pub const TRANSCRIBE_PATH: &'static str = "/api/transcribe";

/// The address of the transcription endpoint of the service at `base`.
pub fn transcribe_url(base: &str) -> (url: String)
    ensures
        url@ == base@ + TRANSCRIBE_PATH@,
{
    let mut url = String::from_str(base);
    url.append(TRANSCRIBE_PATH);
    url
}

/// The statuses that count as success: 200 to 299.
pub open spec fn success(status: u16) -> bool {
    200 <= status <= 299
}

/// Tests `success`.
pub fn is_success(status: u16) -> (ok: bool)
    ensures
        ok == success(status),
{
    200 <= status && status <= 299
}

/// The value of the `Authorization` header for a token: the word `Bearer`, a
/// space, and the token.
pub fn bearer_header(token: &str) -> (header: String)
    ensures
        header@ == "Bearer "@ + token@,
{
    let mut header = String::from_str("Bearer ");
    header.append(token);
    header
}

/// A reply body with its notices made plain: a body without a `messages`
/// field carries none.
pub fn full_response(response: TranscribeResponse) -> (full: FullResponse)
    ensures
        full.text == response.text,
        full.messages@ == match response.messages {
            Some(messages) => messages@,
            None => Seq::<ServerMessage>::empty(),
        },
{
    let TranscribeResponse { text, messages } = response;
    match messages {
        Some(messages) => FullResponse { text, messages },
        None => FullResponse { text, messages: Vec::new() },
    }
}

/// What a reply means, given its status, its body as text, and the body as
/// parsed where it could be parsed: a transcript where the status is a
/// success and the body was parsed, else a failure that carries status and
/// body.
pub fn chunk_reply(status: u16, body: String, parsed: Option<TranscribeResponse>) -> (reply:
    ChunkReply)
    ensures
        match reply {
            ChunkReply::Transcript(full) => {
                &&& success(status)
                &&& parsed matches Some(response)
                &&& full.text == response.text
                &&& full.messages@ == match response.messages {
                    Some(messages) => messages@,
                    None => Seq::<ServerMessage>::empty(),
                }
            },
            ChunkReply::Failure { status: failed, body: received } => {
                &&& !success(status) || parsed is None
                &&& failed == status
                &&& received == body
            },
        },
{
    if !is_success(status) {
        return ChunkReply::Failure { status, body };
    }
    match parsed {
        Some(response) => ChunkReply::Transcript(full_response(response)),
        None => ChunkReply::Failure { status, body },
    }
}

/// The texts joined in order, with a single space between neighbours.
pub open spec fn joined(texts: Seq<Seq<char>>) -> Seq<char>
    decreases texts.len(),
{
    if texts.len() == 0 {
        Seq::empty()
    } else if texts.len() == 1 {
        texts[0]
    } else {
        joined(texts.drop_last()) + seq![' '] + texts.last()
    }
}

/// The texts of a sequence of transcripts.
pub open spec fn texts_of(transcripts: Seq<Transcript>) -> Seq<Seq<char>> {
    Seq::new(transcripts.len(), |k: int| transcripts[k].text)
}

/// The notices of a sequence of transcripts, one sequence for each.
pub open spec fn notices_of(transcripts: Seq<Transcript>) -> Seq<Seq<ServerMessage>> {
    Seq::new(transcripts.len(), |k: int| transcripts[k].messages)
}

/// The transcripts of a recording's chunks as one: the texts joined with a
/// space, the notices put end to end, both in chunk order.
pub open spec fn combined(transcripts: Seq<Transcript>) -> Transcript {
    Transcript {
        text: joined(texts_of(transcripts)),
        messages: notices_of(transcripts).flatten(),
    }
}

/// The state of one dispatch: how many chunks there are, the transcripts
/// received so far in chunk order, and the failure that ended it, if any.
pub struct Dispatch {
    pub total: nat,
    pub transcripts: Seq<Transcript>,
    pub failure: Option<PttError>,
}

impl Dispatch {
    /// A dispatch of `total` chunks with nothing sent.
    pub open spec fn start(total: nat) -> Dispatch {
        Dispatch { total, transcripts: Seq::empty(), failure: None }
    }

    /// The 1-based index of the chunk to send next: the one after those
    /// answered. `None` once a chunk has failed or all are answered.
    pub open spec fn next_chunk(self) -> Option<nat> {
        if self.failure is None && self.transcripts.len() < self.total {
            Some(self.transcripts.len() + 1)
        } else {
            None
        }
    }

    /// The state after the reply to the chunk that `next_chunk` named. A
    /// transcript is added to those received; a failure ends the dispatch. A
    /// reply that no chunk is waiting for changes nothing.
    pub open spec fn record(self, reply: ChunkReply) -> Dispatch {
        if self.next_chunk() is None {
            self
        } else {
            match reply {
                ChunkReply::Transcript(full) => Dispatch {
                    transcripts: self.transcripts.push(full@),
                    ..self
                },
                ChunkReply::Failure { status, body } => Dispatch {
                    failure: Some(PttError::NetworkError { status, body }),
                    ..self
                },
            }
        }
    }

    /// How the dispatch ended: with the failure of a chunk, or with the
    /// combined transcript once every chunk is answered. `None` while a chunk
    /// is still to be sent.
    pub open spec fn outcome(self) -> Option<Result<Transcript, PttError>> {
        match self.failure {
            Some(error) => Some(Err(error)),
            None => if self.transcripts.len() >= self.total {
                Some(Ok(combined(self.transcripts)))
            } else {
                None
            },
        }
    }

    /// The state after a run of replies, recorded in order.
    pub open spec fn record_all(self, replies: Seq<ChunkReply>) -> Dispatch
        decreases replies.len(),
    {
        if replies.len() == 0 {
            self
        } else {
            self.record_all(replies.drop_last()).record(replies.last())
        }
    }
}

/// Joining after one more text: the text alone where it is the first, else
/// what was joined before, a space, and the text.
pub proof fn lemma_joined_push(texts: Seq<Seq<char>>, text: Seq<char>)
    ensures
        joined(texts.push(text)) == if texts.len() == 0 {
            text
        } else {
            joined(texts) + seq![' '] + text
        },
{
    assert(texts.push(text).drop_last() =~= texts);
    assert(texts.push(text).last() == text);
}

/// Combining after one more transcript: its text is joined on, its notices
/// are put behind those gathered so far.
pub proof fn lemma_combined_push(transcripts: Seq<Transcript>, more: Transcript)
    ensures
        combined(transcripts.push(more)).text == joined(texts_of(transcripts).push(more.text)),
        combined(transcripts.push(more)).messages == combined(transcripts).messages
            + more.messages,
{
    assert(texts_of(transcripts.push(more)) =~= texts_of(transcripts).push(more.text));
    assert(notices_of(transcripts.push(more)) =~= notices_of(transcripts).push(more.messages));
    notices_of(transcripts).lemma_flatten_push(more.messages);
}

/// Once a chunk has failed, no further chunk is sent, no reply changes the
/// state, and the outcome is that failure: no partial transcript comes out.
pub proof fn lemma_failure_is_final(dispatch: Dispatch, replies: Seq<ChunkReply>)
    requires
        dispatch.failure is Some,
    ensures
        dispatch.next_chunk() is None,
        dispatch.record_all(replies) == dispatch,
        dispatch.outcome() == Some(Err::<Transcript, PttError>(dispatch.failure->0)),
    decreases replies.len(),
{
    if replies.len() > 0 {
        lemma_failure_is_final(dispatch, replies.drop_last());
    }
}

/// A dispatch in which every chunk is answered with a transcript ends with
/// the combination of the transcripts, in the order of the chunks; until the
/// last one is in, the chunk asked for is the one after those answered.
pub proof fn lemma_all_answered(fulls: Seq<FullResponse>)
    ensures
        ({
            let replies = Seq::new(fulls.len(), |k: int| ChunkReply::Transcript(fulls[k]));
            let views = Seq::new(fulls.len(), |k: int| fulls[k]@);
            let end = Dispatch::start(fulls.len()).record_all(replies);
            &&& end.transcripts == views
            &&& end.failure is None
            &&& end.outcome() == Some(Ok::<Transcript, PttError>(combined(views)))
        }),
{
    let replies = Seq::new(fulls.len(), |k: int| ChunkReply::Transcript(fulls[k]));
    let views = Seq::new(fulls.len(), |k: int| fulls[k]@);
    lemma_answered_prefix(fulls, fulls.len() as int);
    assert(replies.take(fulls.len() as int) =~= replies);
    assert(views.take(fulls.len() as int) =~= views);
}

/// After the first `j` of the transcripts, those are the ones received.
proof fn lemma_answered_prefix(fulls: Seq<FullResponse>, j: int)
    requires
        0 <= j <= fulls.len(),
    ensures
        ({
            let replies = Seq::new(fulls.len(), |k: int| ChunkReply::Transcript(fulls[k]));
            let views = Seq::new(fulls.len(), |k: int| fulls[k]@);
            let state = Dispatch::start(fulls.len()).record_all(replies.take(j));
            &&& state.total == fulls.len()
            &&& state.transcripts == views.take(j)
            &&& state.failure is None
        }),
    decreases j,
{
    let replies = Seq::new(fulls.len(), |k: int| ChunkReply::Transcript(fulls[k]));
    let views = Seq::new(fulls.len(), |k: int| fulls[k]@);
    if j == 0 {
        assert(replies.take(0) =~= Seq::<ChunkReply>::empty());
        assert(views.take(0) =~= Seq::<Transcript>::empty());
    } else {
        lemma_answered_prefix(fulls, j - 1);
        assert(replies.take(j).drop_last() =~= replies.take(j - 1));
        assert(replies.take(j).last() == replies[j - 1]);
        assert(views.take(j - 1).push(fulls[j - 1]@) =~= views.take(j));
    }
}

/// The dispatcher of one recording's chunks.
pub struct Dispatcher {
    total: usize,
    answered: usize,
    text: String,
    messages: Vec<ServerMessage>,
    failure: Option<PttError>,
    received: Ghost<Seq<Transcript>>,
}

impl View for Dispatcher {
    type V = Dispatch;

    closed spec fn view(&self) -> Dispatch {
        Dispatch { total: self.total as nat, transcripts: self.received@, failure: self.failure }
    }
}

impl Dispatcher {
    #[verifier::type_invariant]
    spec fn gathered(&self) -> bool {
        &&& self.answered <= self.total
        &&& self.received@.len() == self.answered
        &&& self.text@ == combined(self.received@).text
        &&& self.messages@ == combined(self.received@).messages
    }

    /// A dispatcher for `total` chunks, none of them sent.
    pub fn new(total: usize) -> (dispatcher: Dispatcher)
        ensures
            dispatcher@ == Dispatch::start(total as nat),
    {
        let ghost none = Seq::<Transcript>::empty();
        proof {
            assert(texts_of(none) =~= Seq::<Seq<char>>::empty());
            assert(notices_of(none) =~= Seq::<Seq<ServerMessage>>::empty());
        }
        Dispatcher {
            total,
            answered: 0,
            text: String::new(),
            messages: Vec::new(),
            failure: None,
            received: Ghost(none),
        }
    }

    /// The 1-based index of the chunk to send next, or `None` where there is
    /// none to send: after a failure, and when all are answered.
    pub fn next_chunk(&self) -> (next: Option<usize>)
        ensures
            match next {
                Some(index) => self@.next_chunk() == Some(index as nat),
                None => self@.next_chunk() is None,
            },
    {
        proof {
            use_type_invariant(self);
        }
        if self.failure.is_none() && self.answered < self.total {
            Some(self.answered + 1)
        } else {
            None
        }
    }

    /// Takes in the reply to the chunk that `next_chunk` named.
    pub fn record(self, reply: ChunkReply) -> (after: Dispatcher)
        ensures
            after@ == self@.record(reply),
    {
        proof {
            use_type_invariant(&self);
        }
        if self.failure.is_some() || self.answered >= self.total {
            return self;
        }
        let Dispatcher { total, answered, text, messages, failure, received } = self;
        match reply {
            ChunkReply::Failure { status, body } => Dispatcher {
                total,
                answered,
                text,
                messages,
                failure: Some(PttError::NetworkError { status, body }),
                received,
            },
            ChunkReply::Transcript(full) => {
                let ghost more = full@;
                let FullResponse { text: part, messages: notices } = full;
                let mut text = text;
                let mut messages = messages;
                let mut notices = notices;
                if answered > 0 {
                    text.append(" ");
                }
                text.append(part.as_str());
                messages.append(&mut notices);
                proof {
                    reveal_strlit(" ");
                    assert(" "@ =~= seq![' ']);
                    lemma_combined_push(received@, more);
                    lemma_joined_push(texts_of(received@), more.text);
                    if answered == 0 {
                        assert(texts_of(received@) =~= Seq::<Seq<char>>::empty());
                    }
                }
                Dispatcher {
                    total,
                    answered: answered + 1,
                    text,
                    messages,
                    failure,
                    received: Ghost(received@.push(more)),
                }
            },
        }
    }

    /// How the dispatch ended, or `None` while a chunk is still to be sent.
    pub fn outcome(self) -> (outcome: Option<Result<FullResponse, PttError>>)
        ensures
            match outcome {
                Some(Ok(full)) => self@.outcome() == Some(Ok::<Transcript, PttError>(full@)),
                Some(Err(error)) => self@.outcome() == Some(Err::<Transcript, PttError>(error)),
                None => self@.outcome() is None,
            },
    {
        proof {
            use_type_invariant(&self);
        }
        let Dispatcher { total, answered, text, messages, failure, received } = self;
        match failure {
            Some(error) => Some(Err(error)),
            None => if answered >= total {
                Some(Ok(FullResponse { text, messages }))
            } else {
                None
            },
        }
    }
}

} // verus!
