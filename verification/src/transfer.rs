use vstd::arithmetic::div_mod::{lemma_div_is_ordered, lemma_div_by_multiple};
use vstd::prelude::*;

verus! {

/// Why a transfer could not be carried through, each variant one of the
/// failures the engine reports.
#[derive(PartialEq, Eq, Structural, Clone, Copy, Debug)]
pub enum DownloadError {
    /// The GET for the URL could not be issued.
    Get,
    /// The response declared no content length.
    UnknownLength,
    /// A chunk could not be read from the stream.
    Chunk,
    /// A chunk could not be appended to the destination file.
    Write,
    /// The destination file could not be created.
    Create,
    /// The stream ended with no bytes, or with fewer bytes than declared.
    Incomplete,
}

impl DownloadError {
    /// The descriptive message reported for this failure, naming the URL or
    /// path it concerns.
    pub fn message(&self, subject: &str) -> (r: String)
        ensures
            r@ == self.spec_message_head() + subject@ + "'"@,
    {
        let head: &str = match self {
            DownloadError::Get => "Failed to GET from '",
            DownloadError::UnknownLength => "Failed to get content length from '",
            DownloadError::Chunk => "Failed to get chunk from '",
            DownloadError::Write => "Failed to write chunk from '",
            DownloadError::Create => "Failed to create '",
            DownloadError::Incomplete => "Failed to download file from '",
        };
        let mut r = String::from_str(head);
        r.append(subject);
        r.append("'");
        r
    }

    /// The fixed opening words of this failure's message.
    pub open spec fn spec_message_head(self) -> Seq<char> {
        match self {
            DownloadError::Get => "Failed to GET from '"@,
            DownloadError::UnknownLength => "Failed to get content length from '"@,
            DownloadError::Chunk => "Failed to get chunk from '"@,
            DownloadError::Write => "Failed to write chunk from '"@,
            DownloadError::Create => "Failed to create '"@,
            DownloadError::Incomplete => "Failed to download file from '"@,
        }
    }
}

/// The completed share of a transfer, in whole percent, by the formula the
/// progress events carry: `transferred * 100 / total`, rounded down.
pub open spec fn spec_percent(transferred: u64, total: u64) -> int {
    if total == 0 {
        0
    } else {
        (transferred as int) * 100 / (total as int)
    }
}

/// The running state of one streaming transfer: what was declared, what has
/// arrived, and the percentage the two give.
#[derive(Debug)]
pub struct Transfer {
    /// Identifier carried by every progress event of this transfer.
    pub download_id: i64,
    /// The declared content length of the source.
    pub total: u64,
    /// Bytes appended to the destination so far.
    pub transferred: u64,
    /// Whole percent completed, kept equal to `spec_percent`.
    pub percent: u64,
}

impl Transfer {
    /// The state's bookkeeping invariant: the stored percentage is the one
    /// its byte counts give.
    pub open spec fn wf(self) -> bool {
        self.percent == spec_percent(self.transferred, self.total)
    }

    /// Relies on `uuid::Uuid::new_v4`: a freshly generated random identifier,
    /// truncated to the width the progress events carry. Nothing is promised
    /// of the value.
    #[verifier::external_body]
    fn fresh_download_id() -> i64 {
        uuid::Uuid::new_v4().as_u128() as i64
    }

    /// A transfer may begin exactly when the source declared its length; with
    /// no declared length it is refused before any byte is read or written.
    pub fn begin(content_length: Option<u64>) -> (r: Result<Transfer, DownloadError>)
        ensures
            r is Ok <==> content_length is Some,
            r matches Ok(t) ==> t.total == content_length->0 && t.transferred == 0 && t.percent
                == 0 && t.wf(),
            r matches Err(e) ==> e == DownloadError::UnknownLength,
    {
        match content_length {
            Some(total) => Ok(
                Transfer {
                    download_id: Self::fresh_download_id(),
                    total,
                    transferred: 0,
                    percent: 0,
                },
            ),
            None => Err(DownloadError::UnknownLength),
        }
    }

    /// One chunk of `len` bytes accounted for: the byte count grows by `len`
    /// and the percentage is recomputed. The percentage never goes down, and
    /// it is exactly 100 once the declared length is reached.
    pub fn apply_chunk(&mut self, len: u64)
        requires
            old(self).wf(),
            old(self).total > 0,
            old(self).transferred + len <= u64::MAX as int / 100,
        ensures
            final(self).wf(),
            final(self).download_id == old(self).download_id,
            final(self).total == old(self).total,
            final(self).transferred == old(self).transferred + len,
            final(self).percent >= old(self).percent,
            final(self).transferred >= final(self).total <==> final(self).percent >= 100,
            final(self).transferred == final(self).total ==> final(self).percent == 100,
    {
        self.transferred = self.transferred + len;
        self.percent = (self.transferred * 100) / self.total;
        proof {
            lemma_percent_threshold(self.transferred, self.total);
            lemma_percent_threshold(old(self).transferred, self.total);
            lemma_div_is_ordered(
                old(self).transferred * 100,
                self.transferred * 100,
                self.total as int,
            );
            if self.transferred == self.total {
                lemma_div_by_multiple(100, self.total as int);
                assert((self.transferred as int) * 100 == 100 * (self.total as int));
            }
        }
    }

    /// Whether the one completion notification is due: the transfer stands at
    /// (or past) full completion.
    pub fn finished_due(&self) -> (r: bool)
        ensures
            r <==> self.percent >= 100,
    {
        self.percent >= 100
    }

    /// The final verdict on the stream: success exactly when some bytes
    /// arrived and no fewer than declared; otherwise the size-mismatch
    /// failure.
    pub fn outcome(&self) -> (r: Result<(), DownloadError>)
        ensures
            r is Ok <==> (self.transferred != 0 && self.transferred >= self.total),
            r matches Err(e) ==> e == DownloadError::Incomplete,
    {
        if self.transferred == 0 || self.transferred < self.total {
            Err(DownloadError::Incomplete)
        } else {
            Ok(())
        }
    }
}

/// For a positive declared length, the stored percentage passes 100 exactly
/// when the byte count passes the declared length.
proof fn lemma_percent_threshold(transferred: u64, total: u64)
    requires
        total > 0,
    ensures
        spec_percent(transferred, total) >= 100 <==> transferred >= total,
{
    if transferred >= total {
        lemma_div_is_ordered(total * 100, transferred * 100, total as int);
        lemma_div_by_multiple(100, total as int);
    }
    if transferred < total {
        assert((transferred as int) * 100 / (total as int) < 100) by (nonlinear_arith)
            requires
                total > 0,
                transferred < total,
        ;
    }
}

/// The completion law: a finished notification is due if and only if the
/// transfer reached full completion, and it is never due when the outcome is
/// the size-mismatch failure.
pub proof fn lemma_finished_iff_complete(t: Transfer)
    requires
        t.wf(),
        t.total > 0,
    ensures
        t.percent >= 100 <==> t.transferred >= t.total,
        t.transferred == 0 || t.transferred < t.total ==> t.percent < 100,
{
    lemma_percent_threshold(t.transferred, t.total);
}

/// Whether a progress notification is due, given the wall-clock time since
/// the last one: events are spaced at least a second apart.
pub fn progress_due(elapsed_nanos_since_last: u64) -> (r: bool)
    ensures
        r <==> elapsed_nanos_since_last > 1_000_000_000,
{
    elapsed_nanos_since_last > 1_000_000_000
}

} // verus!
