use screen_recorder::audio::{
    build_device_list, choose_default_device, get_ffmpeg_device_index, get_ffmpeg_device_mapping,
    get_optimal_buffer_size, lookup_device_index, parse_device_line, AudioDevice,
};
use screen_recorder::text::{i64_to_string, u64_to_string};

#[test]
fn buffer_sizes_match_device_classes() {
    assert_eq!(get_optimal_buffer_size("Microsoft Teams Audio"), 2048);
    assert_eq!(get_optimal_buffer_size("External Microphone"), 1536);
    assert_eq!(get_optimal_buffer_size("MacBook Pro Microphone"), 1024);
    assert_eq!(get_optimal_buffer_size("My USB Interface"), 1536);
    assert_eq!(get_optimal_buffer_size("AirPods BLUETOOTH"), 1536);
    assert_eq!(get_optimal_buffer_size("Built-in Input"), 1024);
    assert_eq!(get_optimal_buffer_size(""), 1024);
}

fn device(id: &str, name: &str, is_default: bool) -> AudioDevice {
    AudioDevice {
        id: id.to_string(),
        name: name.to_string(),
        is_default,
    }
}

#[test]
fn device_list_keys_by_index_and_flags_default() {
    let names = vec!["Mic A".to_string(), "Mic B".to_string()];
    let list = build_device_list(&names, Some(&"Mic B".to_string()));
    assert_eq!(list.len(), 2);
    assert_eq!(list[0], device("0", "Mic A", false));
    assert_eq!(list[1], device("1", "Mic B", true));

    let fallback = build_device_list(&Vec::new(), None);
    assert_eq!(fallback, vec![device("0", "Default Audio Input", true)]);
}

#[test]
fn default_device_selection_prefers_the_flag() {
    let devices = vec![
        device("0", "A", false),
        device("1", "B", true),
        device("2", "C", true),
    ];
    assert_eq!(choose_default_device(&devices), Some(1));
    let no_default = vec![device("0", "A", false), device("1", "B", false)];
    assert_eq!(choose_default_device(&no_default), Some(0));
    assert_eq!(choose_default_device(&Vec::new()), None);
}

fn table() -> Vec<(usize, String)> {
    vec![
        (0, "Microsoft Teams Audio".to_string()),
        (2, "MacBook Pro Microphone".to_string()),
    ]
}

#[test]
fn device_index_lookup_matches_names() {
    assert_eq!(lookup_device_index(&table(), "MacBook Pro Microphone"), Some(2));
    assert_eq!(lookup_device_index(&table(), "Missing"), None);
    assert_eq!(
        get_ffmpeg_device_index("1", Some(&"MacBook Pro Microphone".to_string()), &table()),
        2
    );
    // A miss on the platform name falls through to the identifier itself.
    assert_eq!(
        get_ffmpeg_device_index(
            "Microsoft Teams Audio",
            Some(&"Unknown".to_string()),
            &table()
        ),
        0
    );
    // Nothing matches: device 0.
    assert_eq!(get_ffmpeg_device_index("Unknown", None, &table()), 0);
}

#[test]
fn device_listing_lines_parse_exactly() {
    assert_eq!(
        parse_device_line("[AVFoundation indev @ 0x12b804280] [0] Microsoft Teams Audio"),
        Some((0, "Microsoft Teams Audio".to_string()))
    );
    assert_eq!(
        parse_device_line("[AVFoundation indev @ 0x1] [12]   padded name  "),
        Some((12, "padded name".to_string()))
    );
    assert_eq!(parse_device_line("no markers here"), None);
    assert_eq!(parse_device_line("[AVFoundation indev @ 0x1] [x] Bad index"), None);
}

#[test]
fn device_mapping_reads_only_the_audio_section() {
    let lines: Vec<String> = vec![
        "AVFoundation video devices:",
        "[AVFoundation indev @ 0x1] [0] FaceTime Camera",
        "AVFoundation audio devices:",
        "[AVFoundation indev @ 0x1] [0] Microsoft Teams Audio",
        "[AVFoundation indev @ 0x1] [1] MacBook Pro Microphone",
        "some unrelated chatter",
    ]
    .into_iter()
    .map(|s| s.to_string())
    .collect();
    let mapping = get_ffmpeg_device_mapping(&lines);
    assert_eq!(
        mapping,
        vec![
            (0, "Microsoft Teams Audio".to_string()),
            (1, "MacBook Pro Microphone".to_string()),
        ]
    );
}

#[test]
fn decimal_rendering_is_exact() {
    assert_eq!(u64_to_string(0), "0");
    assert_eq!(u64_to_string(10), "10");
    assert_eq!(u64_to_string(120954), "120954");
    assert_eq!(i64_to_string(-7), "-7");
    assert_eq!(i64_to_string(0), "0");
    assert_eq!(i64_to_string(i64::MIN), i64::MIN.to_string());
}
