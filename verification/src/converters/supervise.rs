//! Watching a running encoder or prober: when to stop it, and what its
//! end means. The caller polls the child and reports what it saw.

use vstd::prelude::*;
use vstd::string::StringExecFns;
use crate::converters::process::{diagnostic_of, stderr_message, MAX_PROCESS_OUTPUT_BYTES};
use crate::converters::types::ConversionError;
use crate::filesystem::IoErrorKind;
use crate::text::{extend_str, string_of, utf8_lossy};

verus! {

/// How long a child may run, in seconds.
pub const MAX_CONVERSION_SECONDS: u64 = 300;

/// Pause between two looks at a running encoder, in milliseconds.
pub const ENCODER_POLL_MILLIS: u64 = 80;

/// Pause between two looks at a running prober, in milliseconds.
pub const PROBER_POLL_MILLIS: u64 = 40;

/// What a look at the child showed.
#[derive(Debug)]
pub enum ChildStatus {
    Running,
    Exited { success: bool },
    WaitFailed { message: String },
}

/// What the watcher does next.
#[derive(Debug)]
pub enum WatchAction {
    /// Sleep, then look again.
    Sleep,
    /// The child has ended: collect its output and judge it.
    Collect,
    /// Kill the child, reap it, drain its readers, and fail with this.
    Stop(ConversionError),
}

/// One turn of the watch over `executable` working on `path`: a request
/// to cancel wins, then the deadline, then what the child did.
pub fn watch_child(
    executable: &'static str,
    path: &str,
    cancelled: bool,
    deadline_passed: bool,
    status: ChildStatus,
) -> (r: WatchAction)
    ensures
        cancelled ==> r matches WatchAction::Stop(ConversionError::Cancelled),
        !cancelled && deadline_passed ==> (r matches WatchAction::Stop(
            ConversionError::Timeout { executable: x, path: p },
        ) && x == executable && p@ == path@),
        !cancelled && !deadline_passed ==> match status {
            ChildStatus::Running => r is Sleep,
            ChildStatus::Exited { .. } => r is Collect,
            ChildStatus::WaitFailed { message } => r matches WatchAction::Stop(
                ConversionError::Process { executable: x, path: p, message: m },
            ) && x == executable && p@ == path@ && m == message,
        },
{
    if cancelled {
        return WatchAction::Stop(ConversionError::Cancelled);
    }
    if deadline_passed {
        return WatchAction::Stop(
            ConversionError::Timeout { executable, path: String::from_str(path) },
        );
    }
    match status {
        ChildStatus::Running => WatchAction::Sleep,
        ChildStatus::Exited { .. } => WatchAction::Collect,
        ChildStatus::WaitFailed { message } => WatchAction::Stop(
            ConversionError::Process { executable, path: String::from_str(path), message },
        ),
    }
}

/// The error when the child could not be started.
pub fn spawn_failure(executable: &'static str, path: &str, error_text: &str) -> (r: ConversionError)
    ensures
        r matches ConversionError::Process { executable: x, path: p, message: m } && x == executable
            && p@ == path@ && m@ == "o executável resolvido não pôde ser iniciado: "@
            + error_text@,
{
    let mut m: Vec<char> = Vec::new();
    extend_str(&mut m, "o executável resolvido não pôde ser iniciado: ");
    extend_str(&mut m, error_text);
    ConversionError::Process { executable, path: String::from_str(path), message: string_of(&m) }
}

/// Which of the child's streams could not be read.
#[derive(Debug, Clone, Copy, PartialEq, Eq, Structural)]
pub enum Stream {
    Output,
    Diagnostics,
}

/// The error when a reader for one of the child's streams could not start.
pub fn reader_failure(executable: &'static str, path: &str, stream: Stream, error_text: &str) -> (r:
    ConversionError)
    ensures
        r matches ConversionError::Process { executable: x, path: p, message: m } && x == executable
            && p@ == path@ && m@ == (if stream == Stream::Output {
            "não foi possível ler a saída do processo: "@
        } else {
            "não foi possível ler o diagnóstico do processo: "@
        }) + error_text@,
{
    let mut m: Vec<char> = Vec::new();
    match stream {
        Stream::Output => extend_str(&mut m, "não foi possível ler a saída do processo: "),
        Stream::Diagnostics => extend_str(&mut m, "não foi possível ler o diagnóstico do processo: "),
    }
    extend_str(&mut m, error_text);
    ConversionError::Process { executable, path: String::from_str(path), message: string_of(&m) }
}

/// The encoder's end: success publishes nothing yet; a failure is
/// reported with its diagnostic; an unreadable diagnostic with the
/// reading error.
pub fn encoder_finished(source: &str, success: bool, stderr: Result<Vec<u8>, String>) -> (r:
    Result<(), ConversionError>)
    ensures
        match stderr {
            Err(m) => r matches Err(ConversionError::Process { executable: x, path: p, message: t })
                && x@ == "ffmpeg"@ && p@ == source@ && t == m,
            Ok(bytes) => if success {
                r is Ok
            } else {
                r matches Err(ConversionError::Process { executable: x, path: p, message: t })
                    && x@ == "ffmpeg"@ && p@ == source@ && t@ == diagnostic_of(utf8_lossy(bytes@))
            },
        },
{
    match stderr {
        Err(message) => Err(
            ConversionError::Process { executable: "ffmpeg", path: String::from_str(source), message },
        ),
        Ok(bytes) => {
            if success {
                Ok(())
            } else {
                Err(
                    ConversionError::Process {
                        executable: "ffmpeg",
                        path: String::from_str(source),
                        message: stderr_message(&bytes),
                    },
                )
            }
        },
    }
}

/// What the prober left behind.
#[derive(Debug)]
pub struct ProbeOutput {
    pub success: bool,
    pub stdout: Vec<u8>,
    pub stderr: Vec<u8>,
}

/// The prober's end: both streams must have been read.
pub fn prober_finished(
    destination: &str,
    success: bool,
    stdout: Result<Vec<u8>, String>,
    stderr: Result<Vec<u8>, String>,
) -> (r: Result<ProbeOutput, ConversionError>)
    ensures
        match (stdout, stderr) {
            (Err(m), _) => r matches Err(ConversionError::Process { executable: x, path: p, message: t })
                && x@ == "ffprobe"@ && p@ == destination@ && t == m,
            (Ok(_), Err(m)) => r matches Err(
                ConversionError::Process { executable: x, path: p, message: t },
            ) && x@ == "ffprobe"@ && p@ == destination@ && t == m,
            (Ok(o), Ok(e)) => r matches Ok(out) && out.success == success && out.stdout == o
                && out.stderr == e,
        },
{
    let stdout = match stdout {
        Ok(bytes) => bytes,
        Err(message) => {
            return Err(
                ConversionError::Process {
                    executable: "ffprobe",
                    path: String::from_str(destination),
                    message,
                },
            );
        },
    };
    let stderr = match stderr {
        Ok(bytes) => bytes,
        Err(message) => {
            return Err(
                ConversionError::Process {
                    executable: "ffprobe",
                    path: String::from_str(destination),
                    message,
                },
            );
        },
    };
    Ok(ProbeOutput { success, stdout, stderr })
}

/// A child's stream read through a bound: up to
/// `MAX_PROCESS_OUTPUT_BYTES` are kept, and a stream that went past it is
/// refused.
#[derive(Debug)]
pub struct LimitedOutput {
    bytes: Vec<u8>,
    exceeded: bool,
}

/// Why a bounded read was refused.
#[derive(Debug)]
pub struct OutputLimitError {
    pub kind: IoErrorKind,
}

impl OutputLimitError {
    /// The error's kind: the data was too long.
    pub fn kind(&self) -> (r: &IoErrorKind)
        ensures
            *r == self.kind,
    {
        &self.kind
    }

    /// The message of the error.
    pub fn message(&self) -> (r: String)
        ensures
            r@ == "a saída do processo excedeu o limite de diagnóstico"@,
    {
        String::from_str("a saída do processo excedeu o limite de diagnóstico")
    }
}

/// What the bound keeps of a stream after one more chunk: everything
/// while it fits, the first `MAX_PROCESS_OUTPUT_BYTES` bytes and the mark
/// of overflow once it does not.
pub open spec fn after_chunk(kept: Seq<u8>, overflowed: bool, chunk: Seq<u8>) -> (Seq<u8>, bool) {
    if kept.len() + chunk.len() <= MAX_PROCESS_OUTPUT_BYTES {
        (kept + chunk, overflowed)
    } else {
        ((kept + chunk).take(MAX_PROCESS_OUTPUT_BYTES as int), true)
    }
}

/// How a stream is cut into reads does not matter: two chunks in turn
/// leave what their concatenation leaves.
pub proof fn law_chunking_does_not_matter(kept: Seq<u8>, overflowed: bool, a: Seq<u8>, b: Seq<u8>)
    requires
        kept.len() <= MAX_PROCESS_OUTPUT_BYTES,
    ensures
        ({
            let first = after_chunk(kept, overflowed, a);
            after_chunk(first.0, first.1, b)
        }) == after_chunk(kept, overflowed, a + b),
{
    let first = after_chunk(kept, overflowed, a);
    assert(kept + (a + b) =~= (kept + a) + b);
    if kept.len() + a.len() > MAX_PROCESS_OUTPUT_BYTES {
        assert((first.0 + b).take(MAX_PROCESS_OUTPUT_BYTES as int) =~= ((kept + a) + b).take(
            MAX_PROCESS_OUTPUT_BYTES as int,
        ));
        if b.len() == 0 {
            assert(first.0 + b =~= first.0);
        }
    }
}

impl LimitedOutput {
    /// The bytes kept so far.
    pub closed spec fn kept(&self) -> Seq<u8> {
        self.bytes@
    }

    /// Whether the stream went past the bound.
    pub closed spec fn overflowed(&self) -> bool {
        self.exceeded
    }

    #[verifier::type_invariant]
    closed spec fn bounded(&self) -> bool {
        self.bytes@.len() <= MAX_PROCESS_OUTPUT_BYTES
    }

    /// Nothing read yet.
    pub fn new() -> (r: LimitedOutput)
        ensures
            r.kept() == Seq::<u8>::empty(),
            !r.overflowed(),
    {
        LimitedOutput { bytes: Vec::new(), exceeded: false }
    }

    /// Takes in one chunk read from the stream.
    pub fn accept(&mut self, chunk: &[u8])
        ensures
            (final(self).kept(), final(self).overflowed()) == after_chunk(
                old(self).kept(),
                old(self).overflowed(),
                chunk@,
            ),
            old(self).kept().len() + chunk@.len() <= MAX_PROCESS_OUTPUT_BYTES ==> final(self).kept()
                == old(self).kept() + chunk@ && final(self).overflowed() == old(self).overflowed(),
            old(self).kept().len() + chunk@.len() > MAX_PROCESS_OUTPUT_BYTES ==> final(self).kept()
                == (old(self).kept() + chunk@).take(MAX_PROCESS_OUTPUT_BYTES as int)
                && final(self).overflowed(),
    {
        proof {
            use_type_invariant(&*self);
        }
        let len = self.bytes.len();
        if len < MAX_PROCESS_OUTPUT_BYTES {
            let remaining = MAX_PROCESS_OUTPUT_BYTES - len;
            let retained = if chunk.len() < remaining {
                chunk.len()
            } else {
                remaining
            };
            let ghost before = self.bytes@;
            let mut i: usize = 0;
            let mut bytes = Vec::new();
            std::mem::swap(&mut bytes, &mut self.bytes);
            while i < retained
                invariant
                    i <= retained <= chunk@.len(),
                    before.len() + retained <= MAX_PROCESS_OUTPUT_BYTES,
                    bytes@ == before + chunk@.take(i as int),
                decreases retained - i,
            {
                bytes.push(chunk[i]);
                assert(bytes@ =~= before + chunk@.take(i + 1));
                i = i + 1;
            }
            self.bytes = bytes;
            if chunk.len() > remaining {
                self.exceeded = true;
            }
            proof {
                if before.len() + chunk@.len() <= MAX_PROCESS_OUTPUT_BYTES {
                    assert(chunk@.take(retained as int) =~= chunk@);
                } else {
                    assert(before + chunk@.take(retained as int) =~= (before + chunk@).take(
                        MAX_PROCESS_OUTPUT_BYTES as int,
                    ));
                }
            }
        } else {
            if chunk.len() > 0 {
                self.exceeded = true;
            }
            proof {
                if chunk@.len() > 0 {
                    assert((self.bytes@ + chunk@).take(MAX_PROCESS_OUTPUT_BYTES as int)
                        =~= self.bytes@);
                } else {
                    assert(self.bytes@ + chunk@ =~= self.bytes@);
                }
            }
        }
    }

    /// The bytes read, or the refusal of a stream that went past the bound.
    pub fn finish(self) -> (r: Result<Vec<u8>, OutputLimitError>)
        ensures
            !self.overflowed() ==> (r matches Ok(b) && b@ == self.kept()),
            self.overflowed() ==> (r matches Err(e) && e.kind == IoErrorKind::InvalidData),
    {
        if self.exceeded {
            Err(OutputLimitError { kind: IoErrorKind::InvalidData })
        } else {
            Ok(self.bytes)
        }
    }
}

/// Size of each read from a child's stream.
pub const READ_CHUNK_BYTES: usize = 8192;

/// Reads a whole stream through the bound, a chunk at a time: the data
/// when it fits, else `InvalidData`.
pub fn read_limited_output(data: &[u8]) -> (r: Result<Vec<u8>, OutputLimitError>)
    ensures
        data@.len() <= MAX_PROCESS_OUTPUT_BYTES ==> (r matches Ok(b) && b@ == data@),
        data@.len() > MAX_PROCESS_OUTPUT_BYTES ==> (r matches Err(e) && e.kind
            == IoErrorKind::InvalidData),
{
    let mut out = LimitedOutput::new();
    let mut pos: usize = 0;
    while pos < data.len()
        invariant
            pos <= data@.len(),
            pos <= MAX_PROCESS_OUTPUT_BYTES ==> out.kept() == data@.take(pos as int)
                && !out.overflowed(),
            pos > MAX_PROCESS_OUTPUT_BYTES ==> out.overflowed(),
        decreases data@.len() - pos,
    {
        let end = if data.len() - pos < READ_CHUNK_BYTES {
            data.len()
        } else {
            pos + READ_CHUNK_BYTES
        };
        let mut chunk: Vec<u8> = Vec::new();
        let mut k: usize = pos;
        while k < end
            invariant
                pos <= k <= end <= data@.len(),
                chunk@ == data@.subrange(pos as int, k as int),
            decreases end - k,
        {
            chunk.push(data[k]);
            assert(chunk@ =~= data@.subrange(pos as int, k + 1));
            k = k + 1;
        }
        let ghost before = out.kept();
        out.accept(&chunk);
        proof {
            if pos <= MAX_PROCESS_OUTPUT_BYTES && end <= MAX_PROCESS_OUTPUT_BYTES {
                assert(before + chunk@ =~= data@.take(end as int));
            }
        }
        pos = end;
    }
    proof {
        if data@.len() <= MAX_PROCESS_OUTPUT_BYTES {
            assert(data@.take(data@.len() as int) =~= data@);
        }
    }
    out.finish()
}

} // verus!
