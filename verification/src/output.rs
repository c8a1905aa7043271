//! What is kept of a subprocess's output: the last bytes, and a remark if there were
//! more.

use vstd::prelude::*;

verus! {

/// How many bytes of a stream are kept.
pub const MAX_TRANSFORM_OUTPUT_BYTES: usize = 65536;

/// The last bytes of a stream.
pub open spec fn tail_of(stream: Seq<u8>, limit: nat) -> Seq<u8> {
    if stream.len() <= limit {
        stream
    } else {
        stream.skip(stream.len() - limit)
    }
}

/// The remark that stands before a truncated stream.
pub open spec fn truncation_marker() -> Seq<u8> {
    vstd::utf8::encode_utf8("...(output truncated; showing last 65536 bytes)...\n"@)
}

/// What is kept of a whole stream.
pub open spec fn kept_output(stream: Seq<u8>) -> Seq<u8> {
    if stream.len() > MAX_TRANSFORM_OUTPUT_BYTES {
        truncation_marker() + tail_of(stream, MAX_TRANSFORM_OUTPUT_BYTES as nat)
    } else {
        stream
    }
}

/// A stream that is being read.
pub struct BoundedOutput {
    tail: Vec<u8>,
    truncated: bool,
    received: Ghost<Seq<u8>>,
}

impl View for BoundedOutput {
    type V = Seq<u8>;

    /// Everything that was read so far.
    closed spec fn view(&self) -> Seq<u8> {
        self.received@
    }
}

impl BoundedOutput {
    #[verifier::type_invariant]
    spec fn well_formed(self) -> bool {
        &&& self.tail@ == tail_of(self.received@, MAX_TRANSFORM_OUTPUT_BYTES as nat)
        &&& self.truncated == (self.received@.len() > MAX_TRANSFORM_OUTPUT_BYTES)
    }

    /// A stream of which nothing was read yet.
    pub fn new() -> (output: BoundedOutput)
        ensures
            output@ == Seq::<u8>::empty(),
    {
        BoundedOutput { tail: Vec::new(), truncated: false, received: Ghost(Seq::empty()) }
    }

    /// Takes in the next bytes of the stream.
    pub fn push(self, chunk: &[u8]) -> (output: BoundedOutput)
        ensures
            output@ == self@ + chunk@,
    {
        proof {
            use_type_invariant(&self);
        }
        let ghost received = self.received@ + chunk@;
        let mut tail = self.tail;
        let ghost kept = tail@;
        let mut i: usize = 0;
        while i < chunk.len()
            invariant
                i <= chunk@.len(),
                tail@ == kept + chunk@.take(i as int),
            decreases chunk.len() - i,
        {
            tail.push(chunk[i]);
            i = i + 1;
            assert(tail@ =~= kept + chunk@.take(i as int));
        }
        assert(chunk@.take(i as int) =~= chunk@);
        let mut truncated = self.truncated;
        if tail.len() > MAX_TRANSFORM_OUTPUT_BYTES {
            let excess: usize = tail.len() - MAX_TRANSFORM_OUTPUT_BYTES;
            let ghost long = tail@;
            tail = tail.split_off(excess);
            truncated = true;
            assert(tail@ =~= long.skip(excess as int));
        }
        assert(tail@ =~= tail_of(received, MAX_TRANSFORM_OUTPUT_BYTES as nat));
        BoundedOutput { tail, truncated, received: Ghost(received) }
    }

    /// What is kept of the stream at its end.
    pub fn finish(self) -> (kept: Vec<u8>)
        ensures
            kept@ == kept_output(self@),
    {
        proof {
            use_type_invariant(&self);
        }
        if self.truncated {
            let mut kept = "...(output truncated; showing last 65536 bytes)...\n".as_bytes_vec();
            let mut tail = self.tail;
            kept.append(&mut tail);
            kept
        } else {
            self.tail
        }
    }
}

/// What the reader of a stream handed over: nothing if there was no stream, and
/// otherwise what was kept, the error that ended the reading, or nothing at all
/// because the reader itself broke down.
#[derive(Debug)]
pub enum ReaderReport {
    NoStream,
    Kept(Vec<u8>),
    Failed(String),
    Panicked,
}

/// What was captured of a stream.
pub fn join_bounded_output(report: ReaderReport) -> (captured: Result<Vec<u8>, String>)
    ensures
        match report {
            ReaderReport::NoStream => captured matches Ok(bytes) && bytes@.len() == 0,
            ReaderReport::Kept(kept) => captured matches Ok(bytes) && bytes@ == kept@,
            ReaderReport::Failed(error) => captured matches Err(e) && e@ == error@,
            ReaderReport::Panicked => captured matches Err(e) && e@
                == "output reader thread panicked"@,
        },
{
    match report {
        ReaderReport::NoStream => Ok(Vec::new()),
        ReaderReport::Kept(kept) => Ok(kept),
        ReaderReport::Failed(error) => Err(error),
        ReaderReport::Panicked => Err("output reader thread panicked".to_owned()),
    }
}

/// Output that fits is kept as it is; of longer output the end is kept, behind the
/// remark.
pub proof fn kept_output_ends_as_the_stream(stream: Seq<u8>)
    ensures
        stream.len() <= MAX_TRANSFORM_OUTPUT_BYTES ==> kept_output(stream) == stream,
        stream.len() > MAX_TRANSFORM_OUTPUT_BYTES ==> {
            &&& kept_output(stream).len() == truncation_marker().len()
                + MAX_TRANSFORM_OUTPUT_BYTES
            &&& forall|k: int|
                1 <= k <= MAX_TRANSFORM_OUTPUT_BYTES ==> #[trigger] kept_output(
                    stream,
                )[kept_output(stream).len() - k] == stream[stream.len() - k]
        },
{
}

/// Of a stream of more than 65536 bytes the last 65536 are kept, behind a remark that says
/// so; a shorter stream is kept whole.
pub proof fn long_streams_are_cut_at_the_front(front: Seq<u8>, back: Seq<u8>)
    ensures
        back.len() <= 65536 ==> kept_output(back) == back,
        front.len() > 0 && back.len() == 65536 ==> kept_output(front + back)
            == vstd::utf8::encode_utf8("...(output truncated; showing last 65536 bytes)...\n"@)
            + back,
{
    if front.len() > 0 && back.len() == 65536 {
        assert((front + back).skip(front.len() as int) =~= back);
    }
}

} // verus!
