//! The decisions of a conversion run: which sources are taken, and how
//! the encoders and probers found are tried one after another.

use vstd::prelude::*;
use vstd::string::StringExecFns;
use crate::converters::backend::{is_backend_retryable_error, retryable};
use crate::converters::paths::{absolute_of, absolute_source, view_opt};
use crate::converters::types::{ConversionError, ConversionKind, ConversionReport};

verus! {

/// Checks what a conversion starts from and makes it absolute: it must
/// be a regular file that is not a link, with an extension the chosen
/// conversion reads, and no cancellation may be pending.
pub fn check_conversion_source(
    source: &str,
    cwd: Option<&str>,
    kind: ConversionKind,
    is_file: bool,
    is_symlink: bool,
    cancelled: bool,
) -> (r: Result<String, ConversionError>)
    ensures
        (!is_file || is_symlink) ==> (r matches Err(
            ConversionError::InvalidInput { path: p, reason },
        ) && p@ == source@ && reason@
            == "a conversão exige um arquivo regular; links simbólicos não são seguidos"@),
        (is_file && !is_symlink) ==> match absolute_of(source@, view_opt(cwd)) {
            None => r matches Err(ConversionError::InvalidInput { path: p, reason }) && p@
                == source@ && reason@ == "não foi possível determinar o diretório atual"@,
            Some(a) => if !kind.accepts_path(a) {
                r matches Err(ConversionError::InvalidInput { path: p, reason }) && p@ == a
                    && reason@ == "a extensão não corresponde ao conversor escolhido"@
            } else if cancelled {
                r matches Err(ConversionError::Cancelled)
            } else {
                r matches Ok(s) && s@ == a
            },
        },
{
    if !is_file || is_symlink {
        return Err(
            ConversionError::InvalidInput {
                path: String::from_str(source),
                reason: "a conversão exige um arquivo regular; links simbólicos não são seguidos",
            },
        );
    }
    let a = absolute_source(source, cwd)?;
    if !kind.accepts(a.as_str()) {
        return Err(
            ConversionError::InvalidInput {
                path: a,
                reason: "a extensão não corresponde ao conversor escolhido",
            },
        );
    }
    if cancelled {
        return Err(ConversionError::Cancelled);
    }
    Ok(a)
}

/// The error when no encoder was found among `attempts` places.
pub fn encoder_missing(attempts: usize) -> (r: ConversionError)
    ensures
        r matches ConversionError::BackendUnavailable { executable: x, attempts: n } && x@
            == "ffmpeg"@ && n == attempts,
{
    ConversionError::BackendUnavailable { executable: "ffmpeg", attempts }
}

/// The report of a published conversion.
pub fn conversion_report(source: &str, destination: &str, kind: ConversionKind) -> (r:
    ConversionReport)
    ensures
        r.source@ == source@,
        r.destination@ == destination@,
        r.codec@ == kind.codec_of(),
{
    ConversionReport {
        source: String::from_str(source),
        destination: String::from_str(destination),
        codec: kind.expected_codec(),
    }
}

/// What follows one attempt with an encoder and a prober.
#[derive(Debug)]
pub enum AttemptStep {
    /// The output was validated: publish it.
    Publish,
    /// This pair failed in a way another pair may not: try the next.
    TryNext,
    /// Stop the conversion with this error.
    Fail(ConversionError),
}

/// The memory of a run through the encoders and probers found: the last
/// failure that let the run go on.
#[derive(Debug)]
pub struct BackendRetry {
    last: Option<ConversionError>,
}

impl BackendRetry {
    /// The last failure after which the run went on.
    pub closed spec fn last_error(&self) -> Option<ConversionError> {
        self.last
    }

    /// Nothing tried yet.
    pub fn new() -> (r: BackendRetry)
        ensures
            r.last_error() is None,
    {
        BackendRetry { last: None }
    }

    /// No prober was found next to this encoder among `attempts` places.
    pub fn prober_missing(&mut self, attempts: usize)
        ensures
            final(self).last_error() matches Some(
                ConversionError::BackendUnavailable { executable: x, attempts: n },
            ) && x@ == "ffprobe"@ && n == attempts,
    {
        self.last = Some(ConversionError::BackendUnavailable { executable: "ffprobe", attempts });
    }

    /// Takes the result of one attempt and whether a cancellation was
    /// asked for since: success publishes unless cancelled, a failure that
    /// another backend may avoid is remembered and the run goes on, any
    /// other failure ends the run.
    pub fn after_attempt(&mut self, result: Result<(), ConversionError>, cancelled: bool) -> (r:
        AttemptStep)
        ensures
            match result {
                Ok(()) => (if cancelled {
                    r == AttemptStep::Fail(ConversionError::Cancelled)
                } else {
                    r is Publish
                }) && final(self).last_error() == old(self).last_error(),
                Err(e) => if retryable(e) {
                    r is TryNext && final(self).last_error() == Some(e)
                } else {
                    r == AttemptStep::Fail(e) && final(self).last_error() == old(
                        self,
                    ).last_error()
                },
            },
    {
        match result {
            Ok(()) => {
                if cancelled {
                    AttemptStep::Fail(ConversionError::Cancelled)
                } else {
                    AttemptStep::Publish
                }
            },
            Err(e) => {
                if is_backend_retryable_error(&e) {
                    self.last = Some(e);
                    AttemptStep::TryNext
                } else {
                    AttemptStep::Fail(e)
                }
            },
        }
    }

    /// The error of a run that published nothing: the last failure
    /// remembered, else the absence of an encoder among `encoder_attempts`
    /// places.
    pub fn finish(self, encoder_attempts: usize) -> (r: ConversionError)
        ensures
            match self.last_error() {
                Some(e) => r == e,
                None => r matches ConversionError::BackendUnavailable { executable: x, attempts: n }
                    && x@ == "ffmpeg"@ && n == encoder_attempts,
            },
    {
        match self.last {
            Some(e) => e,
            None => encoder_missing(encoder_attempts),
        }
    }
}

/// What the run through the backends does next.
#[derive(Debug, Clone, Copy, PartialEq, Eq, Structural)]
pub enum OrderStep {
    /// A cancellation was seen: the conversion ends, cancelled.
    Cancelled,
    /// Look for the probers next to this encoder, then report how many
    /// were found with `probers_found`.
    LookUpProbers(usize),
    /// Run this encoder and validate with this prober of its own.
    Try { encoder: usize, prober: usize },
    /// Every pair was tried: the run ends with `BackendRetry::finish`.
    Finished,
}

/// Where the run through the encoders found, and the probers found next
/// to each, has got to: each encoder in turn, and for it each of its
/// probers in turn, a cancellation being looked at before each encoder
/// and before each pair.
#[derive(Debug)]
pub struct AttemptOrder {
    encoders: usize,
    encoder: usize,
    probers: Option<usize>,
    prober: usize,
}

impl AttemptOrder {
    /// How many encoders were found.
    pub closed spec fn encoders_of(&self) -> nat {
        self.encoders as nat
    }

    /// The encoder being tried, or `encoders_of` once all were.
    pub closed spec fn encoder_of(&self) -> nat {
        self.encoder as nat
    }

    /// How many probers were found next to the current encoder, once
    /// they were looked for.
    pub closed spec fn probers_of(&self) -> Option<nat> {
        match self.probers {
            Some(n) => Some(n as nat),
            None => None,
        }
    }

    /// The next prober to pair with the current encoder.
    pub closed spec fn prober_of(&self) -> nat {
        self.prober as nat
    }

    /// The counters stay within what was found.
    pub closed spec fn wf(&self) -> bool {
        &&& self.encoder <= self.encoders
        &&& self.probers is Some ==> self.encoder < self.encoders && self.prober <= self.probers->0
        &&& self.probers is None ==> self.prober == 0
    }

    /// A run through `encoders` encoders, none tried yet.
    pub fn new(encoders: usize) -> (r: AttemptOrder)
        ensures
            r.wf(),
            r.encoders_of() == encoders,
            r.encoder_of() == 0,
            r.probers_of() is None,
            r.prober_of() == 0,
    {
        AttemptOrder { encoders, encoder: 0, probers: None, prober: 0 }
    }

    /// The next step, given whether a cancellation was asked for.
    pub fn next(&mut self, cancelled: bool) -> (r: OrderStep)
        requires
            old(self).wf(),
        ensures
            final(self).wf(),
            final(self).encoders_of() == old(self).encoders_of(),
            old(self).probers_of() is Some && old(self).prober_of() < old(self).probers_of()->0
                && cancelled ==> r == OrderStep::Cancelled && *final(self) == *old(self),
            old(self).probers_of() is Some && old(self).prober_of() < old(self).probers_of()->0
                && !cancelled ==> r == (OrderStep::Try {
                encoder: old(self).encoder_of() as usize,
                prober: old(self).prober_of() as usize,
            }) && final(self).encoder_of() == old(self).encoder_of() && final(self).probers_of()
                == old(self).probers_of() && final(self).prober_of() == old(self).prober_of() + 1,
            !(old(self).probers_of() is Some && old(self).prober_of() < old(self).probers_of()->0)
                ==> {
                let e = if old(self).probers_of() is Some {
                    old(self).encoder_of() + 1
                } else {
                    old(self).encoder_of()
                };
                &&& final(self).encoder_of() == e
                &&& final(self).probers_of() is None
                &&& final(self).prober_of() == 0
                &&& e >= old(self).encoders_of() ==> r == OrderStep::Finished
                &&& e < old(self).encoders_of() && cancelled ==> r == OrderStep::Cancelled
                &&& e < old(self).encoders_of() && !cancelled ==> r == OrderStep::LookUpProbers(
                    e as usize,
                )
            },
    {
        if let Some(n) = self.probers {
            if self.prober < n {
                if cancelled {
                    return OrderStep::Cancelled;
                }
                let p = self.prober;
                self.prober = self.prober + 1;
                return OrderStep::Try { encoder: self.encoder, prober: p };
            }
            self.encoder = self.encoder + 1;
            self.probers = None;
            self.prober = 0;
        }
        if self.encoder >= self.encoders {
            return OrderStep::Finished;
        }
        if cancelled {
            return OrderStep::Cancelled;
        }
        OrderStep::LookUpProbers(self.encoder)
    }

    /// Takes how many probers were found next to the current encoder
    /// among `attempts` places. None found: the absence is remembered in
    /// `retry` and the run moves to the next encoder.
    pub fn probers_found(&mut self, found: usize, attempts: usize, retry: &mut BackendRetry)
        requires
            old(self).wf(),
            old(self).probers_of() is None,
            old(self).encoder_of() < old(self).encoders_of(),
        ensures
            final(self).wf(),
            final(self).encoders_of() == old(self).encoders_of(),
            final(self).prober_of() == 0,
            found == 0 ==> final(self).encoder_of() == old(self).encoder_of() + 1
                && final(self).probers_of() is None,
            found == 0 ==> (final(retry).last_error() matches Some(
                ConversionError::BackendUnavailable { executable: x, attempts: n },
            ) && x@ == "ffprobe"@ && n == attempts),
            found > 0 ==> final(self).encoder_of() == old(self).encoder_of()
                && final(self).probers_of() == Some(found as nat) && final(retry).last_error()
                == old(retry).last_error(),
    {
        if found == 0 {
            retry.prober_missing(attempts);
            self.encoder = self.encoder + 1;
        } else {
            self.probers = Some(found);
        }
        self.prober = 0;
    }
}

} // verus!
