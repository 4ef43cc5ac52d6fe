//! Ingress: which protocol a connection speaks, and how a request that arrives
//! in pieces is put together and its response is sent on.
use vstd::prelude::*;
use vstd::string::*;

use crate::proto::body;
use crate::proto::body::BodyFrame;

verus! {

/// Why a connection ended early.
#[derive(Debug)]
#[non_exhaustive]
pub enum ServeError {
    /// An HTTP/1.1 or HTTP/2 connection failed.
    Hyper(String),
    /// An HTTP/3 connection failed.
    H3Connection(String),
}

impl ServeError {
    /// The error as one line of text.
    pub fn message(&self) -> (r: String)
        ensures
            r@ == match *self {
                ServeError::Hyper(_) => "hyper connection error"@,
                ServeError::H3Connection(e) => "h3 connection error: "@ + e@,
            },
    {
        match self {
            ServeError::Hyper(_) => "hyper connection error".to_owned(),
            ServeError::H3Connection(e) => {
                let mut r = "h3 connection error: ".to_owned();
                r.append(e);
                r
            },
        }
    }
}

/// What is spoken on a TLS connection.
#[derive(Debug, Clone, Copy, PartialEq, Eq, Structural)]
pub enum HttpVersion {
    /// HTTP/1.1.
    H1,
    /// HTTP/2.
    H2,
}

/// What is spoken on a TLS connection that negotiated `alpn`: HTTP/2 where that
/// is `h2`, HTTP/1.1 in every other case, also where nothing was negotiated.
pub fn by_alpn(alpn: &Option<Vec<u8>>) -> (r: HttpVersion)
    ensures
        r == if alpn matches Some(p) && p@ == seq![104u8, 50u8] {
            HttpVersion::H2
        } else {
            HttpVersion::H1
        },
{
    match alpn {
        Some(p) => {
            if p.len() == 2 && p[0] == 104 && p[1] == 50 {
                assert(p@ =~= seq![104u8, 50u8]);
                HttpVersion::H2
            } else {
                HttpVersion::H1
            }
        },
        None => HttpVersion::H1,
    }
}

/// The body of a request that arrives in pieces.
#[derive(Debug)]
pub struct RequestBuffer {
    buf: Vec<u8>,
}

impl View for RequestBuffer {
    type V = Seq<u8>;

    closed spec fn view(&self) -> Seq<u8> {
        self.buf@
    }
}

impl RequestBuffer {
    /// Nothing received yet.
    pub fn new() -> (r: RequestBuffer)
        ensures
            r@ == Seq::<u8>::empty(),
    {
        RequestBuffer { buf: Vec::new() }
    }

    /// Takes the next piece.
    pub fn receive(&mut self, piece: &Vec<u8>)
        ensures
            final(self)@ == old(self)@ + piece@,
    {
        body::append(&mut self.buf, piece);
    }

    /// The whole body.
    pub fn finish(self) -> (r: Vec<u8>)
        ensures
            r@ == self@,
    {
        self.buf
    }
}

/// What is received after the pieces `pieces`.
pub open spec fn received(before: Seq<u8>, pieces: Seq<Seq<u8>>) -> Seq<u8>
    decreases pieces.len(),
{
    if pieces.len() == 0 {
        before
    } else {
        received(before, pieces.drop_last()) + pieces.last()
    }
}

/// However a body is cut into pieces, what is received is the pieces put
/// together.
pub proof fn pieces_make_the_body(pieces: Seq<Seq<u8>>)
    ensures
        received(Seq::<u8>::empty(), pieces) == pieces.flatten(),
    decreases pieces.len(),
{
    if pieces.len() > 0 {
        let rest = pieces.drop_last();
        pieces_make_the_body(rest);
        rest.lemma_flatten_push(pieces.last());
        assert(rest.push(pieces.last()) =~= pieces);
    } else {
        assert(pieces.flatten() =~= Seq::<u8>::empty());
    }
}

/// Where an HTTP/3 exchange stands.
#[derive(Debug, Clone, Copy, PartialEq, Eq, Structural)]
pub enum ExchangePhase {
    /// The response head is to be sent.
    Head,
    /// The response body is being sent.
    Body,
    /// The stream is to be finished.
    Finish,
    /// Nothing is left to do.
    Done,
}

/// What an HTTP/3 exchange does next.
#[derive(Debug)]
pub enum ExchangeStep {
    /// Send this data, then ask for the next frame.
    SendData(Vec<u8>),
    /// Ask for the next frame.
    NextFrame,
    /// Finish the stream.
    Finish,
}

/// Takes the next frame of a response body. Data is sent on; other frames are
/// dropped; the end of the body finishes the stream.
pub fn relay(frame: Option<BodyFrame>) -> (r: ExchangeStep)
    ensures
        match frame {
            Some(BodyFrame::Data(d)) => r == ExchangeStep::SendData(d),
            Some(BodyFrame::Trailers(_)) => r is NextFrame,
            None => r is Finish,
        },
{
    match frame {
        Some(BodyFrame::Data(d)) => ExchangeStep::SendData(d),
        Some(BodyFrame::Trailers(_)) => ExchangeStep::NextFrame,
        None => ExchangeStep::Finish,
    }
}

/// An HTTP/3 exchange from the response head on.
#[derive(Debug, Clone, Copy, PartialEq, Eq, Structural)]
pub struct Exchange {
    phase: ExchangePhase,
}

impl View for Exchange {
    type V = ExchangePhase;

    closed spec fn view(&self) -> ExchangePhase {
        self.phase
    }
}

impl Exchange {
    /// The head comes first.
    pub fn new() -> (r: Exchange)
        ensures
            r@ == ExchangePhase::Head,
    {
        Exchange { phase: ExchangePhase::Head }
    }

    /// The head has been sent.
    pub fn head_sent(&mut self)
        requires
            old(self)@ == ExchangePhase::Head,
        ensures
            final(self)@ == ExchangePhase::Body,
    {
        self.phase = ExchangePhase::Body;
    }

    /// Takes the next frame of the body.
    pub fn on_frame(&mut self, frame: Option<BodyFrame>) -> (r: ExchangeStep)
        requires
            old(self)@ == ExchangePhase::Body,
        ensures
            match frame {
                Some(BodyFrame::Data(d)) => r == ExchangeStep::SendData(d) && final(self)@
                    == ExchangePhase::Body,
                Some(BodyFrame::Trailers(_)) => r is NextFrame && final(self)@
                    == ExchangePhase::Body,
                None => r is Finish && final(self)@ == ExchangePhase::Finish,
            },
    {
        if frame.is_none() {
            self.phase = ExchangePhase::Finish;
        }
        relay(frame)
    }

    /// The stream has been finished.
    pub fn finished(&mut self)
        requires
            old(self)@ == ExchangePhase::Finish,
        ensures
            final(self)@ == ExchangePhase::Done,
    {
        self.phase = ExchangePhase::Done;
    }
}

/// The data that is sent for the frames `frames`, in order.
pub open spec fn sent(frames: Seq<BodyFrame>) -> Seq<Seq<u8>>
    decreases frames.len(),
{
    if frames.len() == 0 {
        Seq::empty()
    } else {
        match frames.last() {
            BodyFrame::Data(d) => sent(frames.drop_last()).push(d@),
            BodyFrame::Trailers(_) => sent(frames.drop_last()),
        }
    }
}

/// Where a body holds data alone, every frame is sent, in its order.
pub proof fn data_frames_are_sent_in_order(frames: Seq<BodyFrame>)
    requires
        forall|i: int| 0 <= i < frames.len() ==> #[trigger] frames[i] is Data,
    ensures
        sent(frames).len() == frames.len(),
        forall|i: int|
            0 <= i < frames.len() ==> #[trigger] sent(frames)[i] == frames[i]->Data_0@,
    decreases frames.len(),
{
    if frames.len() > 0 {
        let rest = frames.drop_last();
        assert forall|i: int| 0 <= i < rest.len() implies #[trigger] rest[i] is Data by {
            assert(rest[i] == frames[i]);
        }
        data_frames_are_sent_in_order(rest);
        assert(frames[frames.len() - 1] is Data);
        assert forall|i: int| 0 <= i < frames.len() implies #[trigger] sent(frames)[i]
            == frames[i]->Data_0@ by {
            if i < rest.len() {
                assert(sent(frames)[i] == sent(rest)[i]);
                assert(rest[i] == frames[i]);
            }
        }
    }
}

} // verus!
