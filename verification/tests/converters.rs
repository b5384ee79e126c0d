use rovex_core::converters::pipeline::{AttemptOrder, OrderStep};
use rovex_core::converters::paths::{after_reservation, ReserveStep, TEMPORARY_ATTEMPTS};
use rovex_core::converters::backend::{
    backend_candidates, backend_override_name, is_backend_retryable_error,
    push_path_or_directory_candidates, resolve_backend_from_candidates, usable_backends,
    BackendEnvironment, InstallRoot,
};
use rovex_core::converters::paths::{absolute_source, output_path, temporary_path};
use rovex_core::converters::pipeline::{check_conversion_source, AttemptStep, BackendRetry};
use rovex_core::converters::process::{
    diagnostic_text, encoder_arguments, probe_stream, prober_arguments, stderr_message,
    validate_probe_output, MAX_PROCESS_OUTPUT_BYTES,
};
use rovex_core::converters::supervise::{
    encoder_finished, read_limited_output, watch_child, ChildStatus, LimitedOutput, WatchAction,
};
use rovex_core::converters::types::{ConversionError, ConversionKind, ConversionStage};
use rovex_core::filesystem::IoErrorKind;

fn check_extensions() {
    assert!(ConversionKind::JpegXl.accepts("foto.JPEG"));
    assert!(ConversionKind::Opus.accepts("faixa.WAV"));
    assert!(!ConversionKind::Opus.accepts("foto.jpg"));
}

#[test]
fn converters_conversores_reconhecem_extensoes_sem_diferenciar_maiusculas() {
    check_extensions();
}

#[test]
fn tests_conversores_reconhecem_extensoes_sem_diferenciar_maiusculas() {
    check_extensions();
}

fn check_relative_backend() {
    let backend = "ffmpeg.exe".to_owned();
    let error = resolve_backend_from_candidates("ffmpeg", std::slice::from_ref(&backend), &[true], false)
        .expect_err("o worker não deve receber caminho relativo");
    assert!(matches!(
        error,
        ConversionError::BackendUnavailable {
            executable: "ffmpeg",
            attempts: 1
        }
    ));
}

#[test]
fn converters_resolvedor_recusa_caminho_relativo() {
    check_relative_backend();
}

#[test]
fn tests_resolvedor_recusa_caminho_relativo() {
    check_relative_backend();
}

#[test]
fn diagnostico_de_backend_tem_limite_de_tamanho() {
    let oversized = vec![b'x'; MAX_PROCESS_OUTPUT_BYTES + 1];
    let error = read_limited_output(oversized.as_slice())
        .expect_err("diagnóstico acima do limite deve ser recusado");
    assert!(matches!(error.kind(), IoErrorKind::InvalidData));
}

#[test]
fn bounded_read_keeps_data_up_to_the_limit() {
    let exact = vec![7u8; MAX_PROCESS_OUTPUT_BYTES];
    assert_eq!(read_limited_output(&exact).unwrap(), exact);
    assert_eq!(read_limited_output(&[]).unwrap(), Vec::<u8>::new());
    let mut out = LimitedOutput::new();
    out.accept(b"abc");
    out.accept(b"de");
    assert_eq!(out.finish().unwrap(), b"abcde".to_vec());
}

#[test]
fn output_goes_next_to_source_and_avoids_the_source_itself() {
    let jxl = output_path("/fixtures/foto.jpg", None, ConversionKind::JpegXl).unwrap();
    assert_eq!(jxl, "/fixtures/foto.jxl");
    let same = output_path("/fixtures/foto.jxl", None, ConversionKind::JpegXl).unwrap();
    assert_eq!(same, "/fixtures/foto.converted.jxl");
    let relative = output_path("foto.wav", Some("/home/u"), ConversionKind::Flac).unwrap();
    assert_eq!(relative, "/home/u/foto.flac");
    assert!(matches!(
        output_path("foto.wav", None, ConversionKind::Flac),
        Err(ConversionError::InvalidInput { .. })
    ));
    assert!(matches!(
        output_path("/", None, ConversionKind::Png),
        Err(ConversionError::InvalidInput { reason: "o arquivo não possui diretório pai", .. })
    ));
    assert_eq!(absolute_source("/a/b", Some("/c")).unwrap(), "/a/b");
}

#[test]
fn temporary_name_is_hidden_next_to_output() {
    let t = temporary_path("/out/saida.png", 42, 1000, 3).unwrap();
    assert_eq!(t, "/out/.saida.png.rovex-convert-42-1003");
}

#[test]
fn override_without_extension_also_names_executables_inside() {
    let directory: Vec<char> = "/tmp/rovex-ffmpeg-install".chars().collect();
    let mut candidates = Vec::new();
    push_path_or_directory_candidates(&mut candidates, &directory, "ffmpeg");
    assert_eq!(
        candidates,
        vec![
            "/tmp/rovex-ffmpeg-install".to_owned(),
            "/tmp/rovex-ffmpeg-install.exe".to_owned(),
            "/tmp/rovex-ffmpeg-install/ffmpeg".to_owned(),
            "/tmp/rovex-ffmpeg-install/ffmpeg.exe".to_owned(),
        ]
    );
}

fn empty_environment() -> BackendEnvironment {
    BackendEnvironment {
        override_path: None,
        path_entries: Vec::new(),
        registry_path_entries: Vec::new(),
        app_path_candidates: Vec::new(),
        current_exe: None,
        home: None,
        home_package_candidates: Vec::new(),
        install_roots: Vec::new(),
        ffmpeg_locations: Vec::new(),
        windows: false,
    }
}

#[test]
fn discovery_order_and_no_repeats() {
    let mut env = empty_environment();
    env.override_path = Some("/opt/ff".to_owned());
    env.path_entries = vec!["/usr/bin".to_owned(), "/bin".to_owned(), "/usr//bin".to_owned()];
    env.current_exe = Some("/app/rovex".to_owned());
    env.home = Some("/home/u".to_owned());
    env.install_roots = vec![InstallRoot {
        path: "/pf".to_owned(),
        package_candidates: Vec::new(),
    }];
    env.ffmpeg_locations = vec!["relativo".to_owned(), "/ff/bin/ffmpeg.exe".to_owned()];
    let candidates = backend_candidates("ffmpeg", &env, Some("/next"));
    assert_eq!(candidates[0], "/opt/ff");
    assert_eq!(candidates[1], "/opt/ff.exe");
    assert_eq!(candidates[2], "/opt/ff/ffmpeg");
    assert_eq!(candidates[4], "/usr/bin/ffmpeg");
    assert_eq!(candidates[6], "/bin/ffmpeg");
    assert_eq!(candidates[8], "/app/ffmpeg");
    assert_eq!(candidates[10], "/next/ffmpeg");
    assert_eq!(candidates[12], "/home/u/.local/bin/ffmpeg");
    assert!(candidates.contains(&"/pf/lib/ffmpeg/tools/ffmpeg/bin/ffmpeg.exe".to_owned()));
    assert!(candidates.contains(&"/ff/bin/ffmpeg.exe".to_owned()));
    assert!(!candidates.iter().any(|c| c.starts_with("relativo")));
    assert!(!candidates.contains(&"/usr//bin/ffmpeg".to_owned()));
    assert_eq!(candidates.last().unwrap(), "C:\\ProgramData\\chocolatey\\bin/ffmpeg.exe");
    for (i, a) in candidates.iter().enumerate() {
        for b in candidates.iter().skip(i + 1) {
            assert_ne!(a, b);
        }
    }
}

#[test]
fn discovery_never_adds_current_directory_implicitly() {
    let candidates = backend_candidates("rovex-audit-ffmpeg", &empty_environment(), None);
    assert!(!candidates.iter().any(|c| !c.starts_with('/') && !c.starts_with("C:")));
    let adjacent = backend_candidates("x", &empty_environment(), Some("/adj"));
    assert_eq!(adjacent[0], "/adj/x");
}

#[test]
fn resolver_takes_first_regular_absolute_file() {
    let candidates = vec![
        "/missing".to_owned(),
        "/real".to_owned(),
        "/real".to_owned(),
    ];
    let resolved =
        resolve_backend_from_candidates("ffmpeg", &candidates, &[false, true, true], false).unwrap();
    assert_eq!(resolved.path, "/real");
    assert_eq!(usable_backends(&candidates, &[false, true, true], false).len(), 2);
    let error =
        resolve_backend_from_candidates("ffmpeg", &candidates, &[false, false, false], false).unwrap_err();
    assert!(matches!(
        error,
        ConversionError::BackendUnavailable {
            executable: "ffmpeg",
            attempts: 3
        }
    ));
}

#[test]
fn override_variable_name() {
    assert_eq!(backend_override_name("ffprobe"), "ROVEX_FFPROBE_PATH");
}

#[test]
fn encoder_and_prober_arguments() {
    assert_eq!(
        encoder_arguments("/in.wav", "/tmp/.out", ConversionKind::Flac),
        [
            "-hide_banner", "-loglevel", "error", "-nostdin", "-y", "-i", "/in.wav", "-map",
            "0:a:0", "-vn", "-c:a", "flac", "-f", "flac", "/tmp/.out"
        ]
    );
    assert_eq!(probe_stream(ConversionKind::Png), "v:0");
    assert_eq!(
        prober_arguments("/o.opus", "a:0"),
        [
            "-hide_banner", "-v", "error", "-select_streams", "a:0", "-show_entries",
            "stream=codec_name", "-of", "default=nw=1:nk=1", "/o.opus"
        ]
    );
}

#[test]
fn diagnostics_keep_last_three_lines() {
    assert_eq!(stderr_message(b"  \n "), "o processo terminou sem diagnóstico");
    assert_eq!(stderr_message(b"a\nb\nc\nd\n"), "b c d");
    assert_eq!(diagnostic_text(" x \r\ny"), "x  y");
    assert_eq!(stderr_message(&[0xff, b'!']), "\u{fffd}!");
}

#[test]
fn probe_output_must_name_expected_codec() {
    assert!(validate_probe_output("/o", ConversionKind::Opus, true, b"opus\n", b"").is_ok());
    match validate_probe_output("/o", ConversionKind::Opus, true, b"vorbis\n", b"") {
        Err(ConversionError::OutputValidationFailed { detected_codec, expected_codec, .. }) => {
            assert_eq!(detected_codec, "vorbis");
            assert_eq!(expected_codec, "opus");
        }
        other => panic!("unexpected {other:?}"),
    }
    match validate_probe_output("/o", ConversionKind::Png, false, b"", b"boom") {
        Err(ConversionError::OutputValidationFailed { detected_codec, .. }) => {
            assert_eq!(detected_codec, "boom")
        }
        other => panic!("unexpected {other:?}"),
    }
}

#[test]
fn watching_a_child() {
    assert!(matches!(
        watch_child("ffmpeg", "/a", true, true, ChildStatus::Running),
        WatchAction::Stop(ConversionError::Cancelled)
    ));
    assert!(matches!(
        watch_child("ffprobe", "/a", false, true, ChildStatus::Running),
        WatchAction::Stop(ConversionError::Timeout { executable: "ffprobe", .. })
    ));
    assert!(matches!(
        watch_child("ffmpeg", "/a", false, false, ChildStatus::Running),
        WatchAction::Sleep
    ));
    assert!(matches!(
        watch_child("ffmpeg", "/a", false, false, ChildStatus::Exited { success: false }),
        WatchAction::Collect
    ));
    match encoder_finished("/src", false, Ok(b"bad input\n".to_vec())) {
        Err(ConversionError::Process { message, .. }) => assert_eq!(message, "bad input"),
        other => panic!("unexpected {other:?}"),
    }
    assert!(encoder_finished("/src", true, Ok(Vec::new())).is_ok());
}

#[test]
fn retry_keeps_last_backend_failure() {
    let mut retry = BackendRetry::new();
    retry.prober_missing(4);
    let step = retry.after_attempt(Err(ConversionError::Timeout {
        executable: "ffmpeg",
        path: "/a".to_owned(),
    }), false);
    assert!(matches!(step, AttemptStep::TryNext));
    assert!(matches!(
        retry.after_attempt(Err(ConversionError::Cancelled), false),
        AttemptStep::Fail(ConversionError::Cancelled)
    ));
    assert!(matches!(retry.after_attempt(Ok(()), false), AttemptStep::Publish));
    assert!(matches!(retry.after_attempt(Ok(()), true), AttemptStep::Fail(ConversionError::Cancelled)));
    assert!(matches!(retry.finish(2), ConversionError::Timeout { .. }));
    assert!(matches!(
        BackendRetry::new().finish(2),
        ConversionError::BackendUnavailable { executable: "ffmpeg", attempts: 2 }
    ));
    assert!(!is_backend_retryable_error(&ConversionError::OutputExists { path: "/x".to_owned() }));
}

#[test]
fn source_checks_before_conversion() {
    assert!(matches!(
        check_conversion_source("/a.png", None, ConversionKind::JpegXl, true, true, false),
        Err(ConversionError::InvalidInput { .. })
    ));
    assert!(matches!(
        check_conversion_source("/a.txt", None, ConversionKind::JpegXl, true, false, false),
        Err(ConversionError::InvalidInput { reason: "a extensão não corresponde ao conversor escolhido", .. })
    ));
    assert!(matches!(
        check_conversion_source("/a.png", None, ConversionKind::JpegXl, true, false, true),
        Err(ConversionError::Cancelled)
    ));
    assert_eq!(
        check_conversion_source("a.png", Some("/w"), ConversionKind::Png, true, false, false).unwrap(),
        "/w/a.png"
    );
}

#[test]
fn conversion_texts() {
    assert_eq!(ConversionKind::JpegXl.extension(), "jxl");
    assert_eq!(ConversionKind::Flac.label(), "FLAC");
    assert_eq!(ConversionKind::JpegXl.expected_codec(), "jpegxl");
    assert_eq!(ConversionStage::Encoding.percent(), 55);
    assert_eq!(
        ConversionError::BackendUnavailable { executable: "ffmpeg", attempts: 3 }.message(),
        "o conversor `ffmpeg` não foi encontrado; foram tentadas 3 localizações seguras (PATH, diretório do Rovex e diretórios padrão). Defina ROVEX_FFMPEG_PATH com o caminho absoluto do executável, se necessário"
    );
    assert_eq!(
        ConversionError::Timeout { executable: "ffprobe", path: "/a".to_owned() }.message(),
        "`ffprobe` excedeu o limite de cinco minutos ao processar /a"
    );
    assert_eq!(ConversionError::Cancelled.message(), "conversão cancelada pelo usuário");
}

#[test]
fn windows_candidates_serve_when_absolute_there() {
    let candidates = vec!["C:\\ffmpeg\\bin/ffmpeg.exe".to_owned(), "ffmpeg.exe".to_owned()];
    assert_eq!(usable_backends(&candidates, &[true, true], true), ["C:\\ffmpeg\\bin/ffmpeg.exe"]);
    assert!(usable_backends(&candidates, &[true, true], false).is_empty());
    let mut env = empty_environment();
    env.windows = true;
    env.override_path = Some("C:\\tools\\ffmpeg.exe".to_owned());
    let found = backend_candidates("ffmpeg", &env, None);
    assert_eq!(found[0], "C:\\tools\\ffmpeg.exe");
    env.windows = false;
    let found = backend_candidates("ffmpeg", &env, None);
    assert!(!found.iter().any(|c| c == "C:\\tools\\ffmpeg.exe"));
}

#[test]
fn each_kind_accepts_its_own_extension_and_kinds_do_not_overlap() {
    for kind in [ConversionKind::JpegXl, ConversionKind::Png, ConversionKind::Opus, ConversionKind::Flac] {
        assert!(kind.accepts(&format!("/x/a.{}", kind.extension())));
        assert!(kind.accepts(&format!("/x/a.{}", kind.extension().to_uppercase())));
    }
    for name in ["/a.webm", "/a.webp", "/a.mp4", "/a.png", "/a.flac", "/a.txt", "/a"] {
        assert_eq!(ConversionKind::JpegXl.accepts(name), ConversionKind::Png.accepts(name));
        assert_eq!(ConversionKind::Opus.accepts(name), ConversionKind::Flac.accepts(name));
        assert!(!(ConversionKind::Png.accepts(name) && ConversionKind::Flac.accepts(name)));
    }
}

#[test]
fn output_avoids_another_spelling_of_the_source_on_disk() {
    assert_eq!(output_path("/f/foto.JXL", None, ConversionKind::JpegXl).unwrap(), "/f/foto.jxl");
    assert_eq!(
        rovex_core::converters::paths::output_path_on_disk("/f/foto.JXL", None, ConversionKind::JpegXl, true).unwrap(),
        "/f/foto.converted.jxl"
    );
    assert_eq!(
        rovex_core::converters::paths::output_path_on_disk("/f/foto.JXL", None, ConversionKind::JpegXl, false).unwrap(),
        "/f/foto.jxl"
    );
}

#[test]
fn backends_are_tried_encoder_by_encoder_then_prober_by_prober() {
    let mut retry = BackendRetry::new();
    let mut order = AttemptOrder::new(2);
    assert_eq!(order.next(false), OrderStep::LookUpProbers(0));
    order.probers_found(0, 7, &mut retry);
    assert_eq!(order.next(false), OrderStep::LookUpProbers(1));
    order.probers_found(2, 7, &mut retry);
    assert_eq!(order.next(true), OrderStep::Cancelled);
    assert_eq!(order.next(false), OrderStep::Try { encoder: 1, prober: 0 });
    assert_eq!(order.next(false), OrderStep::Try { encoder: 1, prober: 1 });
    assert_eq!(order.next(true), OrderStep::Finished);
    assert!(matches!(retry.finish(2), ConversionError::BackendUnavailable { executable: "ffprobe", attempts: 7 }));
    assert_eq!(AttemptOrder::new(0).next(true), OrderStep::Finished);
}

#[test]
fn reservation_retries_taken_names_a_bounded_number_of_times() {
    assert_eq!(after_reservation(0, true, false), ReserveStep::Reserved);
    assert_eq!(after_reservation(0, false, true), ReserveStep::Retry(1));
    assert_eq!(after_reservation(TEMPORARY_ATTEMPTS - 1, false, true), ReserveStep::Exhausted);
    assert_eq!(after_reservation(3, false, false), ReserveStep::Failed);
}
