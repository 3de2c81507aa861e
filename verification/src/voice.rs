use vstd::prelude::*;

verus! {

/// All samples of a list of chunks, in order.
pub open spec fn concat_chunks<T>(chunks: Seq<Seq<T>>) -> Seq<T>
    decreases chunks.len(),
{
    if chunks.len() == 0 {
        Seq::empty()
    } else {
        concat_chunks(chunks.drop_last()) + chunks.last()
    }
}

/// One step of voice segmentation: from the pending message and a chunk
/// classified as voice or not, the next pending message and the message to
/// send, if any. Voice is appended to the pending message; the first chunk
/// without voice after some voice closes the message.
pub open spec fn segment_step<T>(pending: Seq<T>, chunk: Seq<T>, is_voice: bool) -> (Seq<T>, Option<Seq<T>>) {
    if is_voice {
        (pending + chunk, None)
    } else if pending.len() > 0 {
        (Seq::empty(), Some(pending))
    } else {
        (pending, None)
    }
}

/// The messages sent and the message still pending after a run of
/// classified chunks, starting from nothing pending.
pub open spec fn segment_run<T>(events: Seq<(Seq<T>, bool)>) -> (Seq<Seq<T>>, Seq<T>)
    decreases events.len(),
{
    if events.len() == 0 {
        (Seq::empty(), Seq::empty())
    } else {
        let (sent, pending) = segment_run(events.drop_last());
        let (next, out) = segment_step(pending, events.last().0, events.last().1);
        match out {
            Some(m) => (sent.push(m), next),
            None => (sent, next),
        }
    }
}

/// The samples of the chunks classified as voice, in order.
pub open spec fn voiced_samples<T>(events: Seq<(Seq<T>, bool)>) -> Seq<T>
    decreases events.len(),
{
    if events.len() == 0 {
        Seq::empty()
    } else if events.last().1 {
        voiced_samples(events.drop_last()) + events.last().0
    } else {
        voiced_samples(events.drop_last())
    }
}

/// Segmentation neither loses, duplicates nor reorders voice: the messages
/// sent, followed by the message still pending, are exactly the samples of
/// the voice chunks in the order they came; and no message sent is empty.
pub proof fn lemma_segmentation_keeps_voice<T>(events: Seq<(Seq<T>, bool)>)
    ensures
        concat_chunks(segment_run(events).0) + segment_run(events).1 == voiced_samples(events),
        forall|i: int|
            0 <= i < segment_run(events).0.len() ==> #[trigger] segment_run(events).0[i].len() > 0,
    decreases events.len(),
{
    if events.len() > 0 {
        let prev = events.drop_last();
        lemma_segmentation_keeps_voice(prev);
        let (sent, pending) = segment_run(prev);
        let chunk = events.last().0;
        if events.last().1 {
            assert(concat_chunks(sent) + (pending + chunk) =~= (concat_chunks(sent) + pending) + chunk);
        } else if pending.len() > 0 {
            assert(sent.push(pending).drop_last() =~= sent);
            assert(concat_chunks(sent.push(pending)) + Seq::<T>::empty() =~= concat_chunks(sent) + pending);
            assert forall|i: int| 0 <= i < sent.push(pending).len() implies #[trigger] sent.push(
                pending,
            )[i].len() > 0 by {
                if i < sent.len() {
                    assert(sent.push(pending)[i] == sent[i]);
                }
            }
        }
    }
}

/// A chunk without voice ends every non-empty message, whatever its length:
/// the whole pending message is sent and nothing stays pending; with nothing
/// pending, nothing is sent. A voice chunk is appended and nothing is sent.
pub proof fn lemma_silence_flushes<T>(pending: Seq<T>, chunk: Seq<T>)
    ensures
        pending.len() > 0 ==> segment_step(pending, chunk, false) == (
        Seq::<T>::empty(),
        Some(pending),
        ),
        pending.len() == 0 ==> segment_step(pending, chunk, false).1 is None,
        segment_step(pending, chunk, false).0.len() == 0,
        segment_step(pending, chunk, true) == (pending + chunk, None::<Seq<T>>),
{
}

/// After any run of chunks that ends with one without voice, nothing is
/// pending: every voice sample heard so far has been sent; and the messages
/// sent are never more than the silent chunks in the run.
pub proof fn lemma_run_ending_in_silence_sends_all<T>(events: Seq<(Seq<T>, bool)>)
    requires
        events.len() > 0,
        !events.last().1,
    ensures
        segment_run(events).1.len() == 0,
        concat_chunks(segment_run(events).0) == voiced_samples(events),
{
    lemma_segmentation_keeps_voice(events);
    let (sent, pending) = segment_run(events.drop_last());
    assert(segment_run(events).1.len() == 0);
    assert(concat_chunks(segment_run(events).0) + Seq::<T>::empty() =~= concat_chunks(
        segment_run(events).0,
    ));
}

/// Gathers consecutive voice chunks from the microphone into messages.
pub struct VoiceSegmenter<T> {
    message: Vec<T>,
}

impl<T> View for VoiceSegmenter<T> {
    type V = Seq<T>;

    /// The samples of the message being gathered.
    closed spec fn view(&self) -> Seq<T> {
        self.message@
    }
}

impl<T> VoiceSegmenter<T> {
    /// A segmenter with nothing gathered.
    pub fn new() -> (s: Self)
        ensures
            s@ == Seq::<T>::empty(),
    {
        VoiceSegmenter { message: Vec::new() }
    }

    /// Takes one chunk and whether the detector heard voice in it. Voice is
    /// appended to the message being gathered; a chunk without voice closes a
    /// non-empty message, which is returned to be sent.
    pub fn push_chunk(&mut self, chunk: Vec<T>, is_voice: bool) -> (sent: Option<Vec<T>>)
        ensures
            final(self)@ == segment_step(old(self)@, chunk@, is_voice).0,
            match segment_step(old(self)@, chunk@, is_voice).1 {
                Some(m) => sent is Some && sent->Some_0@ == m,
                None => sent is None,
            },
    {
        let mut chunk = chunk;
        if is_voice {
            self.message.append(&mut chunk);
            None
        } else if self.message.len() > 0 {
            let mut out: Vec<T> = Vec::new();
            std::mem::swap(&mut out, &mut self.message);
            Some(out)
        } else {
            None
        }
    }
}

} // verus!
