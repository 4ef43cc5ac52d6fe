//! Bodies that are held in memory: data in chunks, then trailers.
use vstd::prelude::*;

use crate::pem;

verus! {

/// Trailer fields: names with their values.
pub type Trailers = Vec<(String, Vec<u8>)>;

/// One frame of a body.
#[derive(Debug)]
pub enum BodyFrame {
    /// A chunk of data.
    Data(Vec<u8>),
    /// The trailers.
    Trailers(Trailers),
}

/// Whether `r` is the next frame of a body that holds `chunks` and `trailers`,
/// and leaves `chunks_after` and `trailers_after`: data comes before trailers,
/// and nothing comes behind them.
pub open spec fn yields(
    chunks: Seq<Seq<u8>>,
    trailers: Option<Trailers>,
    r: Option<BodyFrame>,
    chunks_after: Seq<Seq<u8>>,
    trailers_after: Option<Trailers>,
) -> bool {
    match r {
        Some(BodyFrame::Data(d)) => {
            &&& chunks.len() > 0
            &&& d@ == chunks[0]
            &&& chunks_after == chunks.drop_first()
            &&& trailers_after == trailers
        },
        Some(BodyFrame::Trailers(t)) => {
            &&& chunks.len() == 0
            &&& trailers == Some(t)
            &&& chunks_after == chunks
            &&& trailers_after is None
        },
        None => {
            &&& chunks.len() == 0
            &&& trailers is None
            &&& chunks_after == chunks
            &&& trailers_after is None
        },
    }
}

/// Bodies that yield bytes: data in chunks, then trailers.
pub trait BodyBytes: Sized {
    /// The chunks that are still to come.
    spec fn chunks_left(&self) -> Seq<Seq<u8>>;

    /// The trailers, where they are still to come.
    spec fn trailers_left(&self) -> Option<Trailers>;

    /// Hands out the next frame; `None` at the end of the body.
    fn poll_frame(&mut self) -> (r: Option<BodyFrame>)
        ensures
            yields(
                old(self).chunks_left(),
                old(self).trailers_left(),
                r,
                final(self).chunks_left(),
                final(self).trailers_left(),
            ),
    ;

    /// Whether the whole body has been handed out.
    fn ended(&self) -> (r: bool)
        ensures
            r == (self.chunks_left().len() == 0 && self.trailers_left() is None),
    ;
}

/// A body that is held in memory. Its chunks come in order, then the trailers,
/// where there are any, then nothing.
#[derive(Debug)]
pub struct VecBody {
    chunks: Vec<Vec<u8>>,
    next: usize,
    trailers: Option<Trailers>,
}

impl VecBody {
    #[verifier::type_invariant]
    spec fn inv(self) -> bool {
        self.next <= self.chunks@.len()
    }

    /// The chunks that have not been handed out.
    pub closed spec fn pending(self) -> Seq<Seq<u8>> {
        pem::chain_view(self.chunks@).skip(self.next as int)
    }

    /// The trailers, where they have not been handed out.
    pub closed spec fn rest(self) -> Option<Trailers> {
        self.trailers
    }

    /// A body without anything.
    pub fn empty() -> (r: VecBody)
        ensures
            r.pending() == Seq::<Seq<u8>>::empty(),
            r.rest() is None,
    {
        let r = VecBody { chunks: Vec::new(), next: 0, trailers: None };
        assert(r.pending() =~= Seq::<Seq<u8>>::empty());
        r
    }

    /// A body of one chunk.
    pub fn from_bytes(data: Vec<u8>) -> (r: VecBody)
        ensures
            r.pending() == seq![data@],
            r.rest() is None,
    {
        let mut chunks: Vec<Vec<u8>> = Vec::new();
        chunks.push(data);
        let r = VecBody { chunks, next: 0, trailers: None };
        assert(r.pending() =~= seq![data@]);
        r
    }

    /// A body of these chunks.
    pub fn from_chunks(chunks: Vec<Vec<u8>>) -> (r: VecBody)
        ensures
            r.pending() == pem::chain_view(chunks@),
            r.rest() is None,
    {
        let r = VecBody { chunks, next: 0, trailers: None };
        assert(r.pending() =~= pem::chain_view(chunks@));
        r
    }

    /// The same body with these trailers at its end.
    pub fn with_trailers(self, trailers: Trailers) -> (r: VecBody)
        ensures
            r.pending() == self.pending(),
            r.rest() == Some(trailers),
    {
        proof {
            use_type_invariant(&self);
        }
        VecBody { chunks: self.chunks, next: self.next, trailers: Some(trailers) }
    }

    /// Hands out the next frame; `None` at the end of the body.
    pub fn next_frame(&mut self) -> (r: Option<BodyFrame>)
        ensures
            yields(
                old(self).pending(),
                old(self).rest(),
                r,
                final(self).pending(),
                final(self).rest(),
            ),
    {
        proof {
            use_type_invariant(&*self);
        }
        if self.next < self.chunks.len() {
            let d = pem::copy_bytes(&self.chunks[self.next]);
            self.next = self.next + 1;
            assert(self.pending() =~= old(self).pending().drop_first());
            return Some(BodyFrame::Data(d));
        }
        let mut t: Option<Trailers> = None;
        std::mem::swap(&mut t, &mut self.trailers);
        match t {
            Some(t) => Some(BodyFrame::Trailers(t)),
            None => None,
        }
    }

    /// Whether the whole body has been handed out.
    pub fn is_end_stream(&self) -> (r: bool)
        ensures
            r == (self.pending().len() == 0 && self.rest() is None),
    {
        proof {
            use_type_invariant(self);
        }
        self.next >= self.chunks.len() && self.trailers.is_none()
    }

    /// The data that has not been handed out, in one piece.
    pub fn collect(self) -> (r: Vec<u8>)
        ensures
            r@ == self.pending().flatten(),
    {
        collect_all(self)
    }
}

impl BodyBytes for VecBody {
    open spec fn chunks_left(&self) -> Seq<Seq<u8>> {
        self.pending()
    }

    open spec fn trailers_left(&self) -> Option<Trailers> {
        self.rest()
    }

    fn poll_frame(&mut self) -> (r: Option<BodyFrame>) {
        self.next_frame()
    }

    fn ended(&self) -> (r: bool) {
        self.is_end_stream()
    }
}

/// The data of a body that is still to come, in one piece. Trailers are dropped.
pub fn collect_all<B: BodyBytes>(body: B) -> (r: Vec<u8>)
    ensures
        r@ == body.chunks_left().flatten(),
{
    let mut body = body;
    let ghost all = body.chunks_left().flatten();
    let mut out: Vec<u8> = Vec::new();
    assert(out@ + body.chunks_left().flatten() =~= all);
    loop
        invariant
            out@ + body.chunks_left().flatten() == all,
        ensures
            out@ == all,
        decreases
            body.chunks_left().len() + if body.trailers_left() is Some {
                1int
            } else {
                0int
            },
    {
        let ghost before = body.chunks_left();
        match body.poll_frame() {
            Some(BodyFrame::Data(d)) => {
                let ghost sofar = out@;
                append(&mut out, &d);
                assert(before.flatten() =~= before[0] + before.drop_first().flatten());
                assert(out@ + body.chunks_left().flatten() =~= sofar + before.flatten());
            },
            Some(BodyFrame::Trailers(_)) => {},
            None => {
                assert(before.flatten() =~= Seq::<u8>::empty());
                assert(out@ =~= all);
                break;
            },
        }
    }
    out
}

/// Appends the bytes of `more` to `out`.
pub(crate) fn append(out: &mut Vec<u8>, more: &Vec<u8>)
    ensures
        final(out)@ == old(out)@ + more@,
{
    for i in 0..more.len()
        invariant
            out@ == old(out)@ + more@.take(i as int),
    {
        out.push(more[i]);
        assert(more@.take(i + 1) =~= more@.take(i as int).push(more@[i as int]));
    }
    assert(more@.take(more@.len() as int) =~= more@);
}

/// What a body yields next: its first chunk as long as it has one, then its trailers
/// where it has any, then nothing. What is left is the rest, and nothing else
/// changes.
pub proof fn chunks_come_before_trailers(
    chunks: Seq<Seq<u8>>,
    trailers: Option<Trailers>,
    r: Option<BodyFrame>,
    chunks_after: Seq<Seq<u8>>,
    trailers_after: Option<Trailers>,
)
    requires
        yields(chunks, trailers, r, chunks_after, trailers_after),
    ensures
        chunks.len() > 0 ==> (r matches Some(BodyFrame::Data(d)) && d@ == chunks[0])
            && chunks_after == chunks.skip(1) && trailers_after == trailers,
        chunks.len() == 0 ==> chunks_after.len() == 0 && trailers_after is None,
        chunks.len() == 0 && trailers is None ==> r is None,
        chunks.len() == 0 ==> (trailers matches Some(t) ==> r == Some(BodyFrame::Trailers(t))),
{
    if chunks.len() > 0 {
        assert(chunks.drop_first() =~= chunks.skip(1));
    }
}

} // verus!
