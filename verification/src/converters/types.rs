//! The conversions offered, their stages, reports and errors.

use vstd::prelude::*;
use vstd::string::StringExecFns;
use crate::operations::OperationError;
use crate::path::{extension, join, last_dot, path_extension, stem_len};
use crate::text::{
    chars_of, decimal, eq_str, extend_str, lower_ascii, push_decimal, string_of, to_lower_ascii,
    to_upper_ascii, upper_ascii,
};

verus! {

/// A target format.
#[derive(Debug, Clone, Copy, PartialEq, Eq, Structural)]
pub enum ConversionKind {
    JpegXl,
    Opus,
    Png,
    Flac,
}

/// Extensions of the images the image conversions read.
pub open spec fn image_extension(e: Seq<char>) -> bool {
    e == "avif"@ || e == "bmp"@ || e == "gif"@ || e == "heic"@ || e == "jpeg"@ || e == "jpg"@
        || e == "jxl"@ || e == "png"@ || e == "tif"@ || e == "tiff"@ || e == "webp"@
}

/// Extensions of the media the audio conversions read.
pub open spec fn audio_extension(e: Seq<char>) -> bool {
    e == "aac"@ || e == "flac"@ || e == "m4a"@ || e == "mka"@ || e == "mp3"@ || e == "mp4"@
        || e == "oga"@ || e == "ogg"@ || e == "opus"@ || e == "wav"@ || e == "webm"@
}

impl ConversionKind {
    pub open spec fn extension_of(self) -> Seq<char> {
        match self {
            ConversionKind::JpegXl => "jxl"@,
            ConversionKind::Opus => "opus"@,
            ConversionKind::Png => "png"@,
            ConversionKind::Flac => "flac"@,
        }
    }

    pub open spec fn label_of(self) -> Seq<char> {
        match self {
            ConversionKind::JpegXl => "JPEG XL"@,
            ConversionKind::Opus => "Opus"@,
            ConversionKind::Png => "PNG"@,
            ConversionKind::Flac => "FLAC"@,
        }
    }

    pub open spec fn codec_of(self) -> Seq<char> {
        match self {
            ConversionKind::JpegXl => "jpegxl"@,
            ConversionKind::Opus => "opus"@,
            ConversionKind::Png => "png"@,
            ConversionKind::Flac => "flac"@,
        }
    }

    /// An image conversion (the others are audio conversions).
    pub open spec fn is_image(self) -> bool {
        self is JpegXl || self is Png
    }

    /// Whether a source with lower-cased extension `e` can be converted.
    pub open spec fn reads(self, e: Seq<char>) -> bool {
        match self {
            ConversionKind::JpegXl | ConversionKind::Png => image_extension(e),
            ConversionKind::Opus | ConversionKind::Flac => audio_extension(e),
        }
    }

    /// Whether the file at `path` can be converted: its extension, ignoring
    /// ASCII case, is one this conversion reads.
    pub open spec fn accepts_path(self, path: Seq<char>) -> bool {
        match extension(path) {
            Some(e) => self.reads(lower_ascii(e)),
            None => false,
        }
    }

    /// Extension of the output file.
    pub fn extension(self) -> (r: &'static str)
        ensures
            r@ == self.extension_of(),
    {
        match self {
            ConversionKind::JpegXl => "jxl",
            ConversionKind::Opus => "opus",
            ConversionKind::Png => "png",
            ConversionKind::Flac => "flac",
        }
    }

    /// Name shown to the user.
    pub fn label(self) -> (r: &'static str)
        ensures
            r@ == self.label_of(),
    {
        match self {
            ConversionKind::JpegXl => "JPEG XL",
            ConversionKind::Opus => "Opus",
            ConversionKind::Png => "PNG",
            ConversionKind::Flac => "FLAC",
        }
    }

    /// Codec name the prober must report for a valid output.
    pub fn expected_codec(self) -> (r: &'static str)
        ensures
            r@ == self.codec_of(),
    {
        match self {
            ConversionKind::JpegXl => "jpegxl",
            ConversionKind::Opus => "opus",
            ConversionKind::Png => "png",
            ConversionKind::Flac => "flac",
        }
    }

    /// Whether the file at `path` can be converted to this format.
    pub fn accepts(self, path: &str) -> (r: bool)
        ensures
            r == self.accepts_path(path@),
    {
        let p = chars_of(path);
        let e = match path_extension(&p) {
            Some(e) => e,
            None => {
                return false;
            },
        };
        let e = to_lower_ascii(&e);
        match self {
            ConversionKind::JpegXl | ConversionKind::Png => {
                eq_str(&e, "avif") || eq_str(&e, "bmp") || eq_str(&e, "gif") || eq_str(&e, "heic")
                    || eq_str(&e, "jpeg") || eq_str(&e, "jpg") || eq_str(&e, "jxl") || eq_str(
                    &e,
                    "png",
                ) || eq_str(&e, "tif") || eq_str(&e, "tiff") || eq_str(&e, "webp")
            },
            ConversionKind::Opus | ConversionKind::Flac => {
                eq_str(&e, "aac") || eq_str(&e, "flac") || eq_str(&e, "m4a") || eq_str(&e, "mka")
                    || eq_str(&e, "mp3") || eq_str(&e, "mp4") || eq_str(&e, "oga") || eq_str(
                    &e,
                    "ogg",
                ) || eq_str(&e, "opus") || eq_str(&e, "wav") || eq_str(&e, "webm")
            },
        }
    }
}

/// No extension names both an image and an audio file.
pub proof fn lemma_kinds_disjoint(e: Seq<char>)
    ensures
        !(image_extension(e) && audio_extension(e)),
{
    reveal_strlit("avif");
    reveal_strlit("bmp");
    reveal_strlit("gif");
    reveal_strlit("heic");
    reveal_strlit("jpeg");
    reveal_strlit("jpg");
    reveal_strlit("jxl");
    reveal_strlit("png");
    reveal_strlit("tif");
    reveal_strlit("tiff");
    reveal_strlit("webp");
    reveal_strlit("aac");
    reveal_strlit("flac");
    reveal_strlit("m4a");
    reveal_strlit("mka");
    reveal_strlit("mp3");
    reveal_strlit("mp4");
    reveal_strlit("oga");
    reveal_strlit("ogg");
    reveal_strlit("opus");
    reveal_strlit("wav");
    reveal_strlit("webm");
    let n = e.len();
    if e == "avif"@ {
        assert(n == 4 && e[0] == 'a' && e[n - 1] == 'f');
    }
    if e == "bmp"@ {
        assert(n == 3 && e[0] == 'b' && e[n - 1] == 'p');
    }
    if e == "gif"@ {
        assert(n == 3 && e[0] == 'g' && e[n - 1] == 'f');
    }
    if e == "heic"@ {
        assert(n == 4 && e[0] == 'h' && e[n - 1] == 'c');
    }
    if e == "jpeg"@ {
        assert(n == 4 && e[0] == 'j' && e[n - 1] == 'g');
    }
    if e == "jpg"@ {
        assert(n == 3 && e[0] == 'j' && e[n - 1] == 'g');
    }
    if e == "jxl"@ {
        assert(n == 3 && e[0] == 'j' && e[n - 1] == 'l');
    }
    if e == "png"@ {
        assert(n == 3 && e[0] == 'p' && e[n - 1] == 'g');
    }
    if e == "tif"@ {
        assert(n == 3 && e[0] == 't' && e[n - 1] == 'f');
    }
    if e == "tiff"@ {
        assert(n == 4 && e[0] == 't' && e[n - 1] == 'f');
    }
    if e == "webp"@ {
        assert(n == 4 && e[0] == 'w' && e[n - 1] == 'p');
    }
    if e == "aac"@ {
        assert(n == 3 && e[0] == 'a' && e[n - 1] == 'c');
    }
    if e == "flac"@ {
        assert(n == 4 && e[0] == 'f' && e[n - 1] == 'c');
    }
    if e == "m4a"@ {
        assert(n == 3 && e[0] == 'm' && e[n - 1] == 'a');
    }
    if e == "mka"@ {
        assert(n == 3 && e[0] == 'm' && e[n - 1] == 'a');
    }
    if e == "mp3"@ {
        assert(n == 3 && e[0] == 'm' && e[n - 1] == '3');
    }
    if e == "mp4"@ {
        assert(n == 3 && e[0] == 'm' && e[n - 1] == '4');
    }
    if e == "oga"@ {
        assert(n == 3 && e[0] == 'o' && e[n - 1] == 'a');
    }
    if e == "ogg"@ {
        assert(n == 3 && e[0] == 'o' && e[n - 1] == 'g');
    }
    if e == "opus"@ {
        assert(n == 4 && e[0] == 'o' && e[n - 1] == 's');
    }
    if e == "wav"@ {
        assert(n == 3 && e[0] == 'w' && e[n - 1] == 'v');
    }
    if e == "webm"@ {
        assert(n == 4 && e[0] == 'w' && e[n - 1] == 'm');
    }
    assert(image_extension(e) ==> ((n == 4 && e[0] == 'a' && e[n - 1] == 'f') || (n == 3 && e[0] == 'b' && e[n - 1] == 'p') || (n == 3 && e[0] == 'g' && e[n - 1] == 'f') || (n == 4 && e[0] == 'h' && e[n - 1] == 'c') || (n == 4 && e[0] == 'j' && e[n - 1] == 'g') || (n == 3 && e[0] == 'j' && e[n - 1] == 'g') || (n == 3 && e[0] == 'j' && e[n - 1] == 'l') || (n == 3 && e[0] == 'p' && e[n - 1] == 'g') || (n == 3 && e[0] == 't' && e[n - 1] == 'f') || (n == 4 && e[0] == 't' && e[n - 1] == 'f') || (n == 4 && e[0] == 'w' && e[n - 1] == 'p')));
    assert(audio_extension(e) ==> ((n == 3 && e[0] == 'a' && e[n - 1] == 'c') || (n == 4 && e[0] == 'f' && e[n - 1] == 'c') || (n == 3 && e[0] == 'm' && e[n - 1] == 'a') || (n == 3 && e[0] == 'm' && e[n - 1] == 'a') || (n == 3 && e[0] == 'm' && e[n - 1] == '3') || (n == 3 && e[0] == 'm' && e[n - 1] == '4') || (n == 3 && e[0] == 'o' && e[n - 1] == 'a') || (n == 3 && e[0] == 'o' && e[n - 1] == 'g') || (n == 4 && e[0] == 'o' && e[n - 1] == 's') || (n == 3 && e[0] == 'w' && e[n - 1] == 'v') || (n == 4 && e[0] == 'w' && e[n - 1] == 'm')));
}

/// The last `.` of `a` + `.` + `b`, where `b` holds none, is the one
/// before `b`.
pub proof fn lemma_last_dot_before(a: Seq<char>, b: Seq<char>)
    requires
        forall|k: int| 0 <= k < b.len() ==> b[k] != '.',
    ensures
        last_dot(a + seq!['.'] + b) == a.len(),
    decreases b.len(),
{
    let t = a + seq!['.'] + b;
    if b.len() == 0 {
        assert(t.last() == '.');
    } else {
        assert(t.last() == b.last());
        assert(t.drop_last() =~= a + seq!['.'] + b.drop_last());
        lemma_last_dot_before(a, b.drop_last());
    }
}

/// Each conversion accepts a file named after its own output: a file
/// `stem.<extension>` in any folder, whatever the stem (not empty, no
/// separator), such as `x.jxl` for JPEG XL.
pub proof fn law_accepts_own_extension(k: ConversionKind, dir: Seq<char>, stem: Seq<char>)
    requires
        stem.len() > 0,
        forall|i: int| 0 <= i < stem.len() ==> stem[i] != '/',
    ensures
        k.accepts_path(join(dir, stem + "."@ + k.extension_of())),
{
    reveal_strlit(".");
    reveal_strlit("jxl");
    reveal_strlit("opus");
    reveal_strlit("png");
    reveal_strlit("flac");
    let ext = k.extension_of();
    let t = stem + "."@ + ext;
    assert("."@ =~= seq!['.']);
    assert(ext.len() >= 3);
    assert forall|i: int| 0 <= i < ext.len() implies ext[i] != '.' && ext[i] != '/' by {}
    assert forall|i: int| 0 <= i < t.len() implies t[i] != '/' by {
        if i < stem.len() {
            assert(t[i] == stem[i]);
        } else if i > stem.len() {
            assert(t[i] == ext[i - stem.len() - 1]);
        }
    }
    assert(t.len() > 2);
    crate::path::lemma_file_name_of_join(dir, t);
    lemma_last_dot_before(stem, ext);
    assert(stem_len(t) == stem.len());
    assert(t.subrange(stem.len() + 1int, t.len() as int) =~= ext);
    assert(extension(join(dir, t)) == Some(ext));
    law_accepts(k, join(dir, t));
}

/// What a conversion accepts depends only on the source's extension,
/// ignoring ASCII case; both image conversions accept the same sources,
/// as do both audio conversions; no source is accepted by an image and an
/// audio conversion; and each conversion accepts its own output's
/// extension.
pub proof fn law_accepts(k: ConversionKind, path: Seq<char>)
    ensures
        k.accepts_path(path) == match extension(path) {
            Some(e) => k.reads(lower_ascii(e)),
            None => false,
        },
        ConversionKind::JpegXl.accepts_path(path) == ConversionKind::Png.accepts_path(path),
        ConversionKind::Opus.accepts_path(path) == ConversionKind::Flac.accepts_path(path),
        !(ConversionKind::Png.accepts_path(path) && ConversionKind::Flac.accepts_path(path)),
        k.reads(lower_ascii(k.extension_of())),
{
    if let Some(e) = extension(path) {
        lemma_kinds_disjoint(lower_ascii(e));
    }
    reveal_strlit("jxl");
    reveal_strlit("opus");
    reveal_strlit("png");
    reveal_strlit("flac");
    assert(lower_ascii("jxl"@) =~= "jxl"@);
    assert(lower_ascii("opus"@) =~= "opus"@);
    assert(lower_ascii("png"@) =~= "png"@);
    assert(lower_ascii("flac"@) =~= "flac"@);
}


/// A step of a conversion, as reported to the progress bar.
#[derive(Debug, Clone, Copy, PartialEq, Eq, Structural)]
pub enum ConversionStage {
    Starting,
    Encoding,
    Validating,
    Publishing,
}

impl ConversionStage {
    pub open spec fn percent_of(self) -> u8 {
        match self {
            ConversionStage::Starting => 5,
            ConversionStage::Encoding => 55,
            ConversionStage::Validating => 85,
            ConversionStage::Publishing => 95,
        }
    }

    /// Progress shown while in this stage.
    pub fn percent(self) -> (r: u8)
        ensures
            r == self.percent_of(),
    {
        match self {
            ConversionStage::Starting => 5,
            ConversionStage::Encoding => 55,
            ConversionStage::Validating => 85,
            ConversionStage::Publishing => 95,
        }
    }
}

/// A published conversion.
#[derive(Debug, Clone, PartialEq, Eq)]
pub struct ConversionReport {
    pub source: String,
    pub destination: String,
    pub codec: &'static str,
}

/// Why a conversion did not publish its output.
#[derive(Debug)]
pub enum ConversionError {
    BackendUnavailable { executable: &'static str, attempts: usize },
    InvalidInput { path: String, reason: &'static str },
    OutputExists { path: String },
    Process { executable: &'static str, path: String, message: String },
    Timeout { executable: &'static str, path: String },
    OutputValidationFailed {
        path: String,
        expected_codec: &'static str,
        detected_codec: String,
    },
    Operation(OperationError),
    Cancelled,
}

impl ConversionError {
    /// The message shown for this error.
    pub open spec fn text_of(&self) -> Seq<char> {
        match self {
            ConversionError::BackendUnavailable { executable, attempts } => "o conversor `"@
                + executable@ + "` não foi encontrado; foram tentadas "@ + decimal(
                *attempts as nat,
            )
                + " localizações seguras (PATH, diretório do Rovex e diretórios padrão). Defina ROVEX_"@
                + upper_ascii(executable@)
                + "_PATH com o caminho absoluto do executável, se necessário"@,
            ConversionError::InvalidInput { path, reason } => "entrada de conversão inválida ("@
                + reason@ + "): "@ + path@,
            ConversionError::OutputExists { path } => "o arquivo de saída já existe: "@ + path@,
            ConversionError::Process { executable, path, message } => "`"@ + executable@
                + "` não conseguiu converter "@ + path@ + ": "@ + message@,
            ConversionError::Timeout { executable, path } => "`"@ + executable@
                + "` excedeu o limite de cinco minutos ao processar "@ + path@,
            ConversionError::OutputValidationFailed { path, expected_codec, detected_codec } =>
                "a saída "@ + path@ + " não foi validada como "@ + expected_codec@
                + " (detectado: "@ + detected_codec@ + ")"@,
            ConversionError::Operation(error) => error.text_of(),
            ConversionError::Cancelled => "conversão cancelada pelo usuário"@,
        }
    }

    /// The message shown for this error.
    pub fn message(&self) -> (r: String)
        ensures
            r@ == self.text_of(),
    {
        let mut out: Vec<char> = Vec::new();
        match self {
            ConversionError::BackendUnavailable { executable, attempts } => {
                extend_str(&mut out, "o conversor `");
                extend_str(&mut out, executable);
                extend_str(&mut out, "` não foi encontrado; foram tentadas ");
                push_decimal(&mut out, *attempts as u64);
                extend_str(
                    &mut out,
                    " localizações seguras (PATH, diretório do Rovex e diretórios padrão). Defina ROVEX_",
                );
                let name = chars_of(executable);
                let upper = to_upper_ascii(&name);
                crate::text::extend_chars(&mut out, &upper);
                extend_str(&mut out, "_PATH com o caminho absoluto do executável, se necessário");
            },
            ConversionError::InvalidInput { path, reason } => {
                extend_str(&mut out, "entrada de conversão inválida (");
                extend_str(&mut out, reason);
                extend_str(&mut out, "): ");
                extend_str(&mut out, path.as_str());
            },
            ConversionError::OutputExists { path } => {
                extend_str(&mut out, "o arquivo de saída já existe: ");
                extend_str(&mut out, path.as_str());
            },
            ConversionError::Process { executable, path, message } => {
                extend_str(&mut out, "`");
                extend_str(&mut out, executable);
                extend_str(&mut out, "` não conseguiu converter ");
                extend_str(&mut out, path.as_str());
                extend_str(&mut out, ": ");
                extend_str(&mut out, message.as_str());
            },
            ConversionError::Timeout { executable, path } => {
                extend_str(&mut out, "`");
                extend_str(&mut out, executable);
                extend_str(&mut out, "` excedeu o limite de cinco minutos ao processar ");
                extend_str(&mut out, path.as_str());
            },
            ConversionError::OutputValidationFailed { path, expected_codec, detected_codec } => {
                extend_str(&mut out, "a saída ");
                extend_str(&mut out, path.as_str());
                extend_str(&mut out, " não foi validada como ");
                extend_str(&mut out, expected_codec);
                extend_str(&mut out, " (detectado: ");
                extend_str(&mut out, detected_codec.as_str());
                extend_str(&mut out, ")");
            },
            ConversionError::Operation(error) => {
                return error.message();
            },
            ConversionError::Cancelled => {
                extend_str(&mut out, "conversão cancelada pelo usuário");
            },
        }
        assert(out@ =~= self.text_of());
        string_of(&out)
    }
}

impl From<OperationError> for ConversionError {
    fn from(error: OperationError) -> (r: ConversionError) {
        ConversionError::Operation(error)
    }
}

impl vstd::std_specs::convert::FromSpecImpl<OperationError> for ConversionError {
    open spec fn obeys_from_spec() -> bool {
        true
    }

    open spec fn from_spec(v: OperationError) -> ConversionError {
        ConversionError::Operation(v)
    }
}

} // verus!
