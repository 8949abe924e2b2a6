//! Bookkeeping for the streamed download of a part: the bytes received so
//! far and the progress reported after each chunk. The transport that yields
//! the chunks is the caller's.

use vstd::prelude::*;

verus! {

#[derive(Clone, Copy, Debug, PartialEq, Eq, Structural)]
pub enum FetchError {
    /// The transport could not say how many bytes the part has, so progress
    /// would have no denominator.
    SizeUnknown,
    /// The transfer failed part-way; nothing received is kept.
    Transport,
}

/// How far a download has come: `done` of `total` bytes. The fraction it
/// stands for is `done / total`, and a download of nothing is complete.
#[derive(Clone, Copy, Debug, PartialEq, Eq, Structural)]
pub struct Progress {
    pub done: u64,
    pub total: u64,
}

/// The count of bytes done after a chunk of `len` bytes, never beyond the
/// declared total.
pub open spec fn advance(done: u64, total: u64, len: nat) -> u64 {
    if done + len >= total {
        total
    } else {
        (done + len) as u64
    }
}

/// A download in progress.
pub struct StreamingFetch {
    pub total: u64,
    pub done: u64,
    pub data: Vec<u8>,
}

impl StreamingFetch {
    pub open spec fn wf(&self) -> bool {
        self.done <= self.total
    }

    /// Starts a download of `content_length` bytes, as the transport declared.
    pub fn start(content_length: Option<u64>) -> (r: Result<StreamingFetch, FetchError>)
        ensures
            match content_length {
                None => r == Err::<StreamingFetch, FetchError>(FetchError::SizeUnknown),
                Some(total) => r matches Ok(f) && f.wf() && f.total == total && f.done == 0 && f.data@.len() == 0,
            },
    {
        match content_length {
            None => Err(FetchError::SizeUnknown),
            Some(total) => Ok(StreamingFetch { total, done: 0, data: Vec::new() }),
        }
    }

    /// Takes in one chunk and reports the progress after it.
    pub fn on_chunk(&mut self, chunk: &[u8]) -> (p: Progress)
        requires
            old(self).wf(),
        ensures
            final(self).wf(),
            final(self).total == old(self).total,
            final(self).done == advance(old(self).done, old(self).total, chunk@.len()),
            final(self).data@ == old(self).data@ + chunk@,
            p == (Progress { done: final(self).done, total: final(self).total }),
    {
        let ghost before = self.data@;
        let ghost (total, done) = (self.total, self.done);
        let mut i: usize = 0;
        while i < chunk.len()
            invariant
                i <= chunk@.len(),
                self.total == total,
                self.done == done,
                done <= total,
                self.data@ == before + chunk@.subrange(0, i as int),
            decreases chunk@.len() - i,
        {
            self.data.push(chunk[i]);
            i += 1;
            assert(self.data@ =~= before + chunk@.subrange(0, i as int));
        }
        assert(chunk@.subrange(0, chunk@.len() as int) =~= chunk@);
        let len = chunk.len() as u64;
        if len >= self.total - self.done {
            self.done = self.total;
        } else {
            self.done = self.done + len;
        }
        Progress { done: self.done, total: self.total }
    }

    /// Ends a download whose chunks have all arrived: the bytes, and the
    /// final report, which is complete whatever the chunks added up to.
    pub fn finish(self) -> (r: (Vec<u8>, Progress))
        ensures
            r.0@ == self.data@,
            r.1 == (Progress { done: self.total, total: self.total }),
    {
        let total = self.total;
        (self.data, Progress { done: total, total })
    }
}

/// The `done` counts reported for a download of `total` bytes that stands at
/// `done` and receives chunks of the lengths `lens`: one report per chunk,
/// then the final one.
pub open spec fn progress_reports(total: u64, done: u64, lens: Seq<nat>) -> Seq<u64>
    decreases lens.len(),
{
    if lens.len() == 0 {
        seq![total]
    } else {
        let next = advance(done, total, lens[0]);
        seq![next] + progress_reports(total, next, lens.drop_first())
    }
}

/// Whatever the chunk lengths, one chunk or many, the reported progress never
/// goes back, never passes the total, and ends exactly complete.
pub proof fn lemma_progress_rises_to_complete(total: u64, done: u64, lens: Seq<nat>)
    requires
        done <= total,
    ensures
        ({
            let reports = progress_reports(total, done, lens);
            &&& reports.len() == lens.len() + 1
            &&& reports.last() == total
            &&& forall|i: int| 0 <= i < reports.len() ==> done <= #[trigger] reports[i] <= total
            &&& forall|i: int, j: int| 0 <= i <= j < reports.len() ==> #[trigger] reports[i] <= #[trigger] reports[j]
        }),
    decreases lens.len(),
{
    if lens.len() > 0 {
        let next = advance(done, total, lens[0]);
        lemma_progress_rises_to_complete(total, next, lens.drop_first());
        let rest = progress_reports(total, next, lens.drop_first());
        let reports = progress_reports(total, done, lens);
        assert(reports == seq![next] + rest);
        assert forall|i: int, j: int| 0 <= i <= j < reports.len() implies #[trigger] reports[i] <= #[trigger] reports[j] by {
            if i > 0 {
                assert(reports[i] == rest[i - 1]);
                assert(reports[j] == rest[j - 1]);
            } else {
                if j > 0 {
                    assert(reports[j] == rest[j - 1]);
                }
            }
        }
        assert forall|i: int| 0 <= i < reports.len() implies done <= #[trigger] reports[i] <= total by {
            if i > 0 {
                assert(reports[i] == rest[i - 1]);
            }
        }
    }
}

} // verus!
