use telegram_yt_dlp::bot::menu::{FormatChoice, CB_AUDIO_MP3, CB_BEST_VIDEO};

#[test]
fn callback_roundtrip() {
    assert_eq!(FormatChoice::from_callback(CB_BEST_VIDEO), Some(FormatChoice::BestVideo));
    assert_eq!(FormatChoice::from_callback(CB_AUDIO_MP3), Some(FormatChoice::AudioMp3));
    assert_eq!(FormatChoice::from_callback("nonsense"), None);
    assert!(FormatChoice::AudioMp3.is_audio());
    assert!(!FormatChoice::BestVideo.is_audio());
}
