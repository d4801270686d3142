use subwave_present::adapter::VideoPrimitive;
use subwave_present::config::{BackendPreference, SubwaveConfig, resolve_backend};
use subwave_present::entry::Transform;
use subwave_present::registry::VideoRenderPipeline;
use subwave_present::types::{AudioTrack, Position, SubtitleTrack};

fn track(codec: Option<&str>) -> SubtitleTrack {
    SubtitleTrack {
        index: 0,
        language: None,
        title: None,
        codec: codec.map(|c| c.to_string()),
    }
}

#[test]
fn text_codecs_are_text_based() {
    assert!(track(Some("subrip")).is_text_based());
    assert!(track(Some("ASS")).is_text_based());
    assert!(track(Some("WebVTT")).is_text_based());
}

#[test]
fn image_codecs_are_not_text_based() {
    assert!(!track(Some("PGS")).is_text_based());
    assert!(!track(Some("S_HDMV/PGS")).is_text_based());
    assert!(!track(Some("dvb_subtitle")).is_text_based());
    assert!(!track(Some("DVD subpicture")).is_text_based());
    assert!(!track(Some("Bluray PG")).is_text_based());
    assert!(!track(Some("bitmap")).is_text_based());
    assert!(!track(Some("VobSub")).is_text_based());
}

#[test]
fn missing_codec_is_assumed_text_based() {
    assert!(track(None).is_text_based());
}

#[test]
fn positions_compare_by_variant_and_value() {
    assert_eq!(Position::Time(5), Position::Time(5));
    assert_ne!(Position::Time(5), Position::Frame(5));
}

#[test]
fn audio_track_holds_metadata() {
    let t = AudioTrack {
        index: 1,
        language: Some("en".to_string()),
        title: None,
        codec: Some("AAC".to_string()),
        channels: Some(2),
        sample_rate: Some(48000),
    };
    assert_eq!(t.clone(), t);
}

#[test]
fn default_config_is_auto() {
    assert_eq!(SubwaveConfig::default().preference, BackendPreference::Auto);
}

#[test]
fn auto_preference_follows_environment() {
    assert_eq!(
        resolve_backend(BackendPreference::Auto, true),
        BackendPreference::ForceWayland
    );
    assert_eq!(
        resolve_backend(BackendPreference::Auto, false),
        BackendPreference::ForceAppsink
    );
}

#[test]
fn forced_preference_is_kept() {
    assert_eq!(
        resolve_backend(BackendPreference::ForceAppsink, true),
        BackendPreference::ForceAppsink
    );
    assert_eq!(
        resolve_backend(BackendPreference::ForceWayland, false),
        BackendPreference::ForceWayland
    );
}

#[test]
fn adapter_uploads_once_and_prepares() {
    let mut pipeline = VideoRenderPipeline::new();
    let frame = vec![50; 2 * 2 + 2];
    let primitive = VideoPrimitive::new(9, true, frame, 2, 2, true);
    let outcome = primitive.prepare(&mut pipeline, Transform { x0: 0, y0: 0, x1: 1, y1: 1 });
    assert!(outcome.write.is_some());
    assert!(pipeline.contains(9));
    assert_eq!(pipeline.videos[0].luma, vec![50; 4]);
    let bound = primitive.render(&mut pipeline);
    assert_eq!(bound, Some(0));
}

#[test]
fn adapter_skips_empty_frame() {
    let mut pipeline = VideoRenderPipeline::new();
    let primitive = VideoPrimitive::new(9, true, Vec::new(), 2, 2, true);
    let outcome = primitive.prepare(&mut pipeline, Transform { x0: 0, y0: 0, x1: 1, y1: 1 });
    // No entry was ever created, so nothing is written and nothing drawn.
    assert!(outcome.write.is_none());
    assert!(!pipeline.contains(9));
    assert_eq!(primitive.render(&mut pipeline), None);
}

#[test]
fn adapter_respects_clean_mailbox() {
    let mut pipeline = VideoRenderPipeline::new();
    let frame = vec![50; 2 * 2 + 2];
    // Dirty flag off: the frame is not uploaded even though it is present.
    let primitive = VideoPrimitive::new(9, true, frame, 2, 2, false);
    let outcome = primitive.prepare(&mut pipeline, Transform { x0: 0, y0: 0, x1: 1, y1: 1 });
    assert!(outcome.write.is_none());
    assert!(!pipeline.contains(9));
}
