use opengate::sinkfmt::{detect_format_from_ext, AudioFormat};

#[test]
fn test_detects_wav_and_flac() {
    assert_eq!(detect_format_from_ext("out.wav"), (AudioFormat::Wav, true));
    assert_eq!(detect_format_from_ext("out.flac"), (AudioFormat::Flac, true));
    assert_eq!(detect_format_from_ext("dir/session.wav"), (AudioFormat::Wav, true));
}

#[test]
fn test_extension_case_is_ignored() {
    assert_eq!(detect_format_from_ext("out.WAV"), (AudioFormat::Wav, true));
    assert_eq!(detect_format_from_ext("out.WaV"), (AudioFormat::Wav, true));
    assert_eq!(detect_format_from_ext("out.FLAC"), (AudioFormat::Flac, true));
    assert_eq!(detect_format_from_ext("a.b/c.Flac"), (AudioFormat::Flac, true));
}

#[test]
fn test_unrecognized_extensions_fall_back_to_wav() {
    assert_eq!(detect_format_from_ext("out.mp3"), (AudioFormat::Wav, false));
    assert_eq!(detect_format_from_ext("out."), (AudioFormat::Wav, false));
    assert_eq!(detect_format_from_ext("out"), (AudioFormat::Wav, false));
    assert_eq!(detect_format_from_ext(""), (AudioFormat::Wav, false));
}

#[test]
fn test_leading_dot_is_not_an_extension() {
    assert_eq!(detect_format_from_ext(".wav"), (AudioFormat::Wav, false));
    assert_eq!(detect_format_from_ext("dir/.flac"), (AudioFormat::Wav, false));
    // but a hidden file can still carry a real extension
    assert_eq!(detect_format_from_ext(".hidden.flac"), (AudioFormat::Flac, true));
    // the dot in a directory name does not name an extension
    assert_eq!(detect_format_from_ext("dir.d/file"), (AudioFormat::Wav, false));
}
