//! How the encoder and the prober are started, watched and judged.

use vstd::prelude::*;
use vstd::string::StringExecFns;
use crate::converters::types::{ConversionError, ConversionKind};
use crate::filesystem::IoErrorKind;
use crate::operations::{OperationError, ValidationError};
use crate::text::{
    chars_of, decode_lossy, extend_chars, extend_str, lines, split_lines, string_of, trim,
    trim_chars, utf8_lossy,
};

verus! {

/// Most bytes of diagnostics kept from a child process.
pub const MAX_PROCESS_OUTPUT_BYTES: usize = 65536;

/// The texts of a list of strings.
pub open spec fn texts(v: Seq<String>) -> Seq<Seq<char>> {
    v.map_values(|s: String| s@)
}

/// Encoder options that select the output format.
pub open spec fn format_options(kind: ConversionKind) -> Seq<Seq<char>> {
    match kind {
        ConversionKind::JpegXl => seq![
            "-frames:v"@,
            "1"@,
            "-c:v"@,
            "libjxl"@,
            "-distance"@,
            "1.0"@,
            "-f"@,
            "image2"@,
        ],
        ConversionKind::Png => seq!["-frames:v"@, "1"@, "-c:v"@, "png"@, "-f"@, "image2"@],
        ConversionKind::Opus => seq![
            "-map"@,
            "0:a:0"@,
            "-vn"@,
            "-c:a"@,
            "libopus"@,
            "-b:a"@,
            "128k"@,
            "-f"@,
            "opus"@,
        ],
        ConversionKind::Flac => seq!["-map"@, "0:a:0"@, "-vn"@, "-c:a"@, "flac"@, "-f"@, "flac"@],
    }
}

/// The encoder's arguments: quiet, no input from the terminal, read
/// `source`, and write over `temporary` (the placeholder reserved for this
/// run) in the chosen format.
pub open spec fn encoder_args(source: Seq<char>, temporary: Seq<char>, kind: ConversionKind) -> Seq<
    Seq<char>,
> {
    seq!["-hide_banner"@, "-loglevel"@, "error"@, "-nostdin"@, "-y"@, "-i"@, source]
        + format_options(kind) + seq![temporary]
}

fn push_all(out: &mut Vec<String>, items: &[&str])
    ensures
        texts(final(out)@) == texts(old(out)@) + items@.map_values(|p: &str| p@),
{
    let mut i: usize = 0;
    while i < items.len()
        invariant
            i <= items@.len(),
            texts(out@) == texts(old(out)@) + items@.map_values(|p: &str| p@).take(i as int),
        decreases items@.len() - i,
    {
        let ghost before = out@;
        out.push(String::from_str(items[i]));
        assert(texts(out@) =~= texts(before).push(items@[i as int]@));
        assert(items@.map_values(|p: &str| p@).take(i + 1) =~= items@.map_values(|p: &str| p@).take(
            i as int,
        ).push(items@[i as int]@));
        i = i + 1;
    }
    assert(items@.map_values(|p: &str| p@).take(items@.len() as int) =~= items@.map_values(
        |p: &str| p@,
    ));
}

/// The codec an encoder library writes: `libjxl` writes JPEG XL
/// (`jpegxl`), `libopus` writes Opus (`opus`), and the built-in encoders
/// (`png`, `flac`, ...) write the codec they are named after.
pub open spec fn written_codec(encoder: Seq<char>) -> Seq<char> {
    if encoder == "libjxl"@ {
        "jpegxl"@
    } else if encoder == "libopus"@ {
        "opus"@
    } else {
        encoder
    }
}

/// The encoder reads `source` and writes `temporary`, and the codec it is
/// told to use (the argument after `-c:v` for images, `-c:a` for audio)
/// writes exactly the codec the prober then expects for that conversion,
/// so a valid output is one of the right format.
pub proof fn law_encoder_writes_expected_codec(
    source: Seq<char>,
    temporary: Seq<char>,
    kind: ConversionKind,
)
    ensures
        ({
            let a = encoder_args(source, temporary, kind);
            &&& a[5] == "-i"@ && a[6] == source
            &&& a.last() == temporary
            &&& exists|i: int|
                0 <= i < a.len() - 1 && (#[trigger] a[i] == "-c:v"@ || a[i] == "-c:a"@) && written_codec(
                    a[i + 1],
                ) == kind.codec_of() && (a[i] == "-c:v"@ <==> kind.is_image())
        }),
{
    reveal_strlit("libjxl");
    reveal_strlit("libopus");
    reveal_strlit("png");
    reveal_strlit("flac");
    reveal_strlit("jpegxl");
    reveal_strlit("opus");
    reveal_strlit("-c:v");
    reveal_strlit("-c:a");
    let a = encoder_args(source, temporary, kind);
    let head = seq!["-hide_banner"@, "-loglevel"@, "error"@, "-nostdin"@, "-y"@, "-i"@, source];
    let f = format_options(kind);
    assert(a =~= head + f + seq![temporary]);
    assert(a[5] == head[5] && a[6] == head[6]);
    assert("-c:a"@[3] == 'a' && "-c:v"@[3] == 'v');
    assert("-c:a"@ != "-c:v"@);
    match kind {
        ConversionKind::JpegXl => {
            assert(a[9] == f[2] && a[10] == f[3]);
            assert(f[2] == "-c:v"@ && f[3] == "libjxl"@);
            assert(written_codec(a[10]) == kind.codec_of());
        },
        ConversionKind::Png => {
            assert(a[9] == f[2] && a[10] == f[3]);
            assert(f[2] == "-c:v"@ && f[3] == "png"@);
            assert("png"@ != "libjxl"@ && "png"@ != "libopus"@);
            assert(written_codec(a[10]) == kind.codec_of());
        },
        ConversionKind::Opus => {
            assert(a[10] == f[3] && a[11] == f[4]);
            assert(f[3] == "-c:a"@ && f[4] == "libopus"@);
            assert("libopus"@ != "libjxl"@);
            assert(written_codec(a[11]) == kind.codec_of());
        },
        ConversionKind::Flac => {
            assert(a[10] == f[3] && a[11] == f[4]);
            assert(f[3] == "-c:a"@ && f[4] == "flac"@);
            assert("flac"@ != "libjxl"@ && "flac"@ != "libopus"@);
            assert(written_codec(a[11]) == kind.codec_of());
        },
    }
}

/// The encoder's arguments for converting `source` into `temporary`.
pub fn encoder_arguments(source: &str, temporary: &str, kind: ConversionKind) -> (r: Vec<String>)
    ensures
        texts(r@) == encoder_args(source@, temporary@, kind),
{
    let mut out: Vec<String> = Vec::new();
    let head = ["-hide_banner", "-loglevel", "error", "-nostdin", "-y", "-i"];
    push_all(&mut out, &head);
    out.push(String::from_str(source));
    let ghost after_source = out@;
    match kind {
        ConversionKind::JpegXl => {
            let o = ["-frames:v", "1", "-c:v", "libjxl", "-distance", "1.0", "-f", "image2"];
            push_all(&mut out, &o);
            assert(o@.map_values(|p: &str| p@) =~= format_options(kind));
        },
        ConversionKind::Png => {
            let o = ["-frames:v", "1", "-c:v", "png", "-f", "image2"];
            push_all(&mut out, &o);
            assert(o@.map_values(|p: &str| p@) =~= format_options(kind));
        },
        ConversionKind::Opus => {
            let o = ["-map", "0:a:0", "-vn", "-c:a", "libopus", "-b:a", "128k", "-f", "opus"];
            push_all(&mut out, &o);
            assert(o@.map_values(|p: &str| p@) =~= format_options(kind));
        },
        ConversionKind::Flac => {
            let o = ["-map", "0:a:0", "-vn", "-c:a", "flac", "-f", "flac"];
            push_all(&mut out, &o);
            assert(o@.map_values(|p: &str| p@) =~= format_options(kind));
        },
    }
    let ghost before_last = out@;
    out.push(String::from_str(temporary));
    proof {
        assert(head@.map_values(|p: &str| p@) =~= seq![
            "-hide_banner"@,
            "-loglevel"@,
            "error"@,
            "-nostdin"@,
            "-y"@,
            "-i"@,
        ]);
        assert(texts(after_source) =~= seq![
            "-hide_banner"@,
            "-loglevel"@,
            "error"@,
            "-nostdin"@,
            "-y"@,
            "-i"@,
            source@,
        ]);
        assert(texts(out@) =~= texts(before_last).push(temporary@));
        assert(texts(out@) =~= encoder_args(source@, temporary@, kind));
    }
    out
}

/// The stream the prober inspects: the first video stream of an image,
/// the first audio stream of a sound.
pub open spec fn stream_of(kind: ConversionKind) -> Seq<char> {
    match kind {
        ConversionKind::JpegXl | ConversionKind::Png => "v:0"@,
        ConversionKind::Opus | ConversionKind::Flac => "a:0"@,
    }
}

/// The stream the prober inspects.
pub fn probe_stream(kind: ConversionKind) -> (r: &'static str)
    ensures
        r@ == stream_of(kind),
{
    match kind {
        ConversionKind::JpegXl | ConversionKind::Png => "v:0",
        ConversionKind::Opus | ConversionKind::Flac => "a:0",
    }
}

/// The prober's arguments: print only the codec name of `stream` in
/// `destination`.
pub open spec fn prober_args(destination: Seq<char>, stream: Seq<char>) -> Seq<Seq<char>> {
    seq![
        "-hide_banner"@,
        "-v"@,
        "error"@,
        "-select_streams"@,
        stream,
        "-show_entries"@,
        "stream=codec_name"@,
        "-of"@,
        "default=nw=1:nk=1"@,
        destination,
    ]
}

/// The prober's arguments for checking `destination`.
pub fn prober_arguments(destination: &str, stream: &str) -> (r: Vec<String>)
    ensures
        texts(r@) == prober_args(destination@, stream@),
{
    let mut out: Vec<String> = Vec::new();
    let head = ["-hide_banner", "-v", "error", "-select_streams"];
    push_all(&mut out, &head);
    out.push(String::from_str(stream));
    let ghost mid = out@;
    let tail = ["-show_entries", "stream=codec_name", "-of", "default=nw=1:nk=1"];
    push_all(&mut out, &tail);
    let ghost before_last = out@;
    out.push(String::from_str(destination));
    proof {
        assert(head@.map_values(|p: &str| p@) =~= seq![
            "-hide_banner"@,
            "-v"@,
            "error"@,
            "-select_streams"@,
        ]);
        assert(tail@.map_values(|p: &str| p@) =~= seq![
            "-show_entries"@,
            "stream=codec_name"@,
            "-of"@,
            "default=nw=1:nk=1"@,
        ]);
        assert(texts(mid) =~= seq![
            "-hide_banner"@,
            "-v"@,
            "error"@,
            "-select_streams"@,
            stream@,
        ]);
        assert(texts(out@) =~= texts(before_last).push(destination@));
        assert(texts(out@) =~= prober_args(destination@, stream@));
    }
    out
}

/// `ls` joined with single spaces.
pub open spec fn joined(ls: Seq<Seq<char>>) -> Seq<char>
    decreases ls.len(),
{
    if ls.len() == 0 {
        Seq::empty()
    } else if ls.len() == 1 {
        ls[0]
    } else {
        joined(ls.drop_last()) + " "@ + ls.last()
    }
}

/// The last three of `ls`, or all when fewer.
pub open spec fn last_three(ls: Seq<Seq<char>>) -> Seq<Seq<char>> {
    if ls.len() > 3 {
        ls.subrange(ls.len() - 3, ls.len() as int)
    } else {
        ls
    }
}

/// A diagnostic made from a process's error text: its last three lines,
/// trimmed and joined with spaces, or a fixed phrase when it is blank.
pub open spec fn diagnostic_of(text: Seq<char>) -> Seq<char> {
    if trim(text).len() == 0 {
        "o processo terminou sem diagnóstico"@
    } else {
        joined(last_three(lines(trim(text))))
    }
}

/// The diagnostic shown for a process's decoded error text.
pub fn diagnostic_text(text: &str) -> (r: String)
    ensures
        r@ == diagnostic_of(text@),
{
    let t = chars_of(text);
    let t = trim_chars(&t);
    if t.len() == 0 {
        return String::from_str("o processo terminou sem diagnóstico");
    }
    let ls = split_lines(&t);
    let ghost all = lines(t@);
    let start: usize = if ls.len() > 3 {
        ls.len() - 3
    } else {
        0
    };
    let ghost kept = last_three(all);
    assert(kept =~= all.subrange(start as int, all.len() as int));
    let mut out: Vec<char> = Vec::new();
    let mut i: usize = start;
    while i < ls.len()
        invariant
            start <= i <= ls@.len(),
            ls@.len() == all.len(),
            forall|k: int| 0 <= k < ls@.len() ==> #[trigger] ls@[k]@ == all[k],
            out@ == joined(all.subrange(start as int, i as int)),
        decreases ls@.len() - i,
    {
        let ghost before = out@;
        if i > start {
            out.push(' ');
        }
        extend_chars(&mut out, &ls[i]);
        proof {
            let s1 = all.subrange(start as int, i + 1);
            assert(s1.drop_last() =~= all.subrange(start as int, i as int));
            assert(s1.last() == ls@[i as int]@);
            if i > start {
                reveal_strlit(" ");
                assert(out@ =~= before + " "@ + ls@[i as int]@);
            } else {
                assert(s1 =~= seq![ls@[i as int]@]);
                assert(out@ =~= ls@[i as int]@);
            }
        }
        i = i + 1;
    }
    string_of(&out)
}

/// The diagnostic shown for a process's raw error output.
pub fn stderr_message(bytes: &[u8]) -> (r: String)
    ensures
        r@ == diagnostic_of(utf8_lossy(bytes@)),
{
    let text = decode_lossy(bytes);
    diagnostic_text(text.as_str())
}

/// The output is kept only when it is a non-empty regular file.
pub fn check_output_file(destination: &str, kind: ConversionKind, is_file: bool, len: u64) -> (r:
    Result<(), ConversionError>)
    ensures
        (is_file && len > 0) ==> r is Ok,
        !(is_file && len > 0) ==> (r matches Err(
            ConversionError::OutputValidationFailed { path: p, expected_codec: c, detected_codec: d },
        ) && p@ == destination@ && c@ == kind.codec_of() && d@ == "saída ausente ou vazia"@),
{
    if is_file && len > 0 {
        Ok(())
    } else {
        Err(
            ConversionError::OutputValidationFailed {
                path: String::from_str(destination),
                expected_codec: kind.expected_codec(),
                detected_codec: String::from_str("saída ausente ou vazia"),
            },
        )
    }
}

/// Judges the prober's run on `destination` from its decoded output: it
/// must succeed and print exactly the expected codec (surrounding space
/// ignored); otherwise the codec it printed, or its diagnostic when it
/// printed none, is reported.
pub fn probe_verdict(
    destination: &str,
    kind: ConversionKind,
    success: bool,
    stdout_text: &str,
    stderr_text: &str,
) -> (r: Result<(), ConversionError>)
    ensures
        (success && trim(stdout_text@) == kind.codec_of()) ==> r is Ok,
        !(success && trim(stdout_text@) == kind.codec_of()) ==> (r matches Err(
            ConversionError::OutputValidationFailed { path: p, expected_codec: c, detected_codec: d },
        ) && p@ == destination@ && c@ == kind.codec_of() && d@ == (if trim(stdout_text@).len()
            == 0 {
            diagnostic_of(stderr_text@)
        } else {
            trim(stdout_text@)
        })),
{
    let out = chars_of(stdout_text);
    let detected = trim_chars(&out);
    let codec = kind.expected_codec();
    if success && crate::text::eq_str(&detected, codec) {
        return Ok(());
    }
    let detected_codec = if detected.len() == 0 {
        diagnostic_text(stderr_text)
    } else {
        string_of(&detected)
    };
    Err(
        ConversionError::OutputValidationFailed {
            path: String::from_str(destination),
            expected_codec: codec,
            detected_codec,
        },
    )
}

/// Judges the prober's run from its raw output.
pub fn validate_probe_output(
    destination: &str,
    kind: ConversionKind,
    success: bool,
    stdout: &[u8],
    stderr: &[u8],
) -> (r: Result<(), ConversionError>)
    ensures
        (success && trim(utf8_lossy(stdout@)) == kind.codec_of()) ==> r is Ok,
        !(success && trim(utf8_lossy(stdout@)) == kind.codec_of()) ==> (r matches Err(
            ConversionError::OutputValidationFailed { path: p, expected_codec: c, detected_codec: d },
        ) && p@ == destination@ && c@ == kind.codec_of() && d@ == (if trim(
            utf8_lossy(stdout@),
        ).len() == 0 {
            diagnostic_of(utf8_lossy(stderr@))
        } else {
            trim(utf8_lossy(stdout@))
        })),
{
    let out = decode_lossy(stdout);
    let err = decode_lossy(stderr);
    probe_verdict(destination, kind, success, out.as_str(), err.as_str())
}

/// A failure to publish the output: a destination that already exists is
/// reported as such, anything else passes through.
pub fn map_destination_error(error: OperationError, destination: &str) -> (r: ConversionError)
    ensures
        (error matches OperationError::Validation(ValidationError::ExistingDestination { .. })
            || error matches OperationError::FileSystem { kind: IoErrorKind::AlreadyExists, .. })
            ==> (r matches ConversionError::OutputExists { path: p } && p@ == destination@),
        !(error matches OperationError::Validation(ValidationError::ExistingDestination { .. })
            || error matches OperationError::FileSystem { kind: IoErrorKind::AlreadyExists, .. })
            ==> r == ConversionError::Operation(error),
{
    match &error {
        OperationError::Validation(ValidationError::ExistingDestination { .. }) => {
            return ConversionError::OutputExists { path: String::from_str(destination) };
        },
        OperationError::FileSystem { kind: IoErrorKind::AlreadyExists, .. } => {
            return ConversionError::OutputExists { path: String::from_str(destination) };
        },
        _ => {},
    }
    ConversionError::Operation(error)
}

} // verus!
