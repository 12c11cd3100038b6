use snappea::encoder::{
    best_encoder, candidate_groups, detect_encoders, probe_outcome, probe_pipeline_description,
    select_encoders, sort_by_priority, str_contains, BusEvent, Candidate, Codec, Container,
    EncoderError, EncoderInfo,
};

fn info(name: &str, element: &str, codec: Codec, hardware: bool, priority: u8) -> EncoderInfo {
    EncoderInfo {
        name: name.to_string(),
        gst_element: element.to_string(),
        codec,
        hardware,
        supports_dmabuf_zero_copy: false,
        priority,
    }
}

#[test]
fn test_codec_name() {
    assert_eq!(Codec::H264.name(), "H.264");
    assert_eq!(Codec::H265.name(), "H.265");
    assert_eq!(Codec::VP9.name(), "VP9");
    assert_eq!(Codec::AV1.name(), "AV1");
}

#[test]
fn test_encoder_info_display_name() {
    let hw_encoder = EncoderInfo {
        name: "VA-API H.264".to_string(),
        gst_element: "vaapih264enc".to_string(),
        codec: Codec::H264,
        hardware: true,
        supports_dmabuf_zero_copy: true,
        priority: 10,
    };
    assert_eq!(hw_encoder.display_name(), "VA-API H.264 (Hardware)");

    let sw_encoder = EncoderInfo {
        name: "x264 H.264".to_string(),
        gst_element: "x264enc".to_string(),
        codec: Codec::H264,
        hardware: false,
        supports_dmabuf_zero_copy: false,
        priority: 100,
    };
    assert_eq!(sw_encoder.display_name(), "x264 H.264 (Software)");
}

#[test]
fn test_detect_encoders_returns_sorted_list() {
    // Every candidate works, none works, and only the software ones work.
    for probe_kind in 0..3 {
        let encoders = detect_encoders(|c: &Candidate| match probe_kind {
            0 => true,
            1 => false,
            _ => !c.hardware,
        });
        for i in 1..encoders.len() {
            assert!(encoders[i - 1].priority <= encoders[i].priority);
        }
    }
}

#[test]
fn test_best_encoder() {
    let result = best_encoder(detect_encoders(|c: &Candidate| c.gst_element == "x264enc"));
    if let Ok(encoder) = result {
        assert!(!encoder.name.is_empty());
        assert!(!encoder.gst_element.is_empty());
    }
}

#[test]
fn test_detect_encoders_have_unique_elements() {
    let encoders = detect_encoders(|_c: &Candidate| true);
    let mut seen = std::collections::HashSet::new();
    for e in &encoders {
        assert!(
            seen.insert(e.gst_element.clone()),
            "duplicate encoder element: {}",
            e.gst_element
        );
    }
}

#[test]
fn test_codec_container_support() {
    assert!(Codec::H264.supports_container(Container::Mp4));
    assert!(Codec::H265.supports_container(Container::Mp4));
    assert!(!Codec::VP9.supports_container(Container::Mp4));
    assert!(!Codec::AV1.supports_container(Container::Mp4));

    for codec in [Codec::H264, Codec::H265, Codec::VP9, Codec::AV1] {
        assert!(codec.supports_container(Container::Mkv));
    }

    assert_eq!(Codec::H264.default_container(), Container::Mp4);
    assert_eq!(Codec::VP9.default_container(), Container::Mkv);
}

#[test]
fn test_codec_from_element_name() {
    assert_eq!(Codec::from_element_name("vaapih264enc"), Some(Codec::H264));
    assert_eq!(Codec::from_element_name("vah264enc"), Some(Codec::H264));
    assert_eq!(Codec::from_element_name("x264enc"), Some(Codec::H264));
    assert_eq!(Codec::from_element_name("openh264enc"), Some(Codec::H264));
    assert_eq!(Codec::from_element_name("vah265enc"), Some(Codec::H265));
    assert_eq!(Codec::from_element_name("nvh265enc"), Some(Codec::H265));
    assert_eq!(Codec::from_element_name("vaav1enc"), Some(Codec::AV1));
    assert_eq!(Codec::from_element_name("vp9enc"), Some(Codec::VP9));
    assert_eq!(Codec::from_element_name("wildcard"), None);
}

#[test]
fn test_detected_encoder_codec_container_consistency() {
    let encoders = detect_encoders(|_c: &Candidate| true);
    for e in &encoders {
        assert!(e.codec.supports_container(e.codec.default_container()));
    }
}

#[test]
fn test_hardware_priority_lower_than_software() {
    let hw_priority = 10u8;
    let sw_priority = 100u8;
    assert!(hw_priority < sw_priority);
}

#[test]
fn every_candidate_element_names_its_own_codec() {
    for group in candidate_groups() {
        for c in group {
            assert_eq!(Codec::from_element_name(c.gst_element), Some(c.codec), "{}", c.gst_element);
        }
    }
}

#[test]
fn webm_takes_only_vp9_and_av1() {
    assert!(Codec::VP9.supports_container(Container::Webm));
    assert!(Codec::AV1.supports_container(Container::Webm));
    assert!(!Codec::H264.supports_container(Container::Webm));
    assert!(!Codec::H265.supports_container(Container::Webm));
    assert_eq!(Codec::H265.default_container(), Container::Mp4);
    assert_eq!(Codec::AV1.default_container(), Container::Mkv);
}

#[test]
fn parser_elements() {
    assert_eq!(Codec::H264.parser_element(), Some("h264parse"));
    assert_eq!(Codec::H265.parser_element(), Some("h265parse"));
    assert_eq!(Codec::AV1.parser_element(), Some("av1parse"));
    assert_eq!(Codec::VP9.parser_element(), None);
}

#[test]
fn hevc_names_are_h265_and_h265_wins_over_h264() {
    assert_eq!(Codec::from_element_name("x265hevcenc"), Some(Codec::H265));
    assert_eq!(Codec::from_element_name("h264h265"), Some(Codec::H265));
    assert_eq!(Codec::from_element_name(""), None);
}

#[test]
fn substring_search() {
    assert!(str_contains("vaapih264enc", "h264"));
    assert!(str_contains("abc", ""));
    assert!(str_contains("abc", "abc"));
    assert!(!str_contains("ab", "abc"));
    assert!(!str_contains("vp8enc", "vp9"));
}

#[test]
fn first_working_candidate_of_each_group_is_kept() {
    // Only the modern VA-API H.264 element and the software VP9 encoder work.
    let encoders = detect_encoders(|c: &Candidate| c.gst_element == "vah264enc" || c.gst_element == "vp9enc");
    let elements: Vec<&str> = encoders.iter().map(|e| e.gst_element.as_str()).collect();
    assert_eq!(elements, vec!["vah264enc", "vp9enc"]);
    assert!(!encoders[0].supports_dmabuf_zero_copy);
    assert_eq!(encoders[0].priority, 10);
    assert_eq!(encoders[1].priority, 101);
}

#[test]
fn later_candidates_of_a_group_are_not_probed_after_a_success() {
    let probed = std::cell::RefCell::new(Vec::new());
    let encoders = detect_encoders(|c: &Candidate| {
        probed.borrow_mut().push(c.gst_element);
        true
    });
    assert_eq!(encoders.len(), 7);
    assert_eq!(
        *probed.borrow(),
        vec!["vaapih264enc", "vaapih265enc", "vaapivp9enc", "nvh264enc", "nvh265enc", "x264enc", "vp9enc"]
    );
}

#[test]
fn selection_sorts_by_priority_stably() {
    let groups = vec![
        vec![Candidate { name: "B", gst_element: "b", codec: Codec::VP9, hardware: false, supports_dmabuf_zero_copy: false, priority: 50 }],
        vec![Candidate { name: "A", gst_element: "a", codec: Codec::H264, hardware: true, supports_dmabuf_zero_copy: true, priority: 5 }],
        vec![Candidate { name: "C", gst_element: "c", codec: Codec::H265, hardware: false, supports_dmabuf_zero_copy: false, priority: 50 }],
    ];
    let encoders = select_encoders(&groups, |_c: &Candidate| true);
    let names: Vec<&str> = encoders.iter().map(|e| e.name.as_str()).collect();
    assert_eq!(names, vec!["A", "B", "C"]);
}

#[test]
fn sort_keeps_equal_priorities_in_order() {
    let v = vec![
        info("x", "x", Codec::H264, false, 3),
        info("y", "y", Codec::H264, false, 1),
        info("z", "z", Codec::H264, false, 3),
        info("w", "w", Codec::H264, false, 2),
    ];
    let sorted = sort_by_priority(v);
    let names: Vec<&str> = sorted.iter().map(|e| e.name.as_str()).collect();
    assert_eq!(names, vec!["y", "w", "x", "z"]);
}

#[test]
fn best_encoder_is_first_or_an_error() {
    assert_eq!(best_encoder(Vec::new()), Err(EncoderError::NoEncodersAvailable));
    let best = best_encoder(vec![info("a", "a", Codec::H264, true, 10), info("b", "b", Codec::VP9, false, 101)]);
    assert_eq!(best.map(|e| e.name), Ok("a".to_string()));
}

#[test]
fn zero_copy_display_names() {
    let mut e = info("a", "a", Codec::H264, true, 10);
    assert_eq!(e.zero_copy_display_name(), "copied-memory path only");
    e.supports_dmabuf_zero_copy = true;
    assert_eq!(e.zero_copy_display_name(), "DMA-BUF zero-copy capable");
}

#[test]
fn probe_pipeline_descriptions() {
    assert_eq!(
        probe_pipeline_description("x264enc", Codec::H264),
        "videotestsrc num-buffers=3 ! video/x-raw,format=NV12,width=320,height=240,framerate=10/1 ! videoconvert ! x264enc ! h264parse ! fakesink"
    );
    assert_eq!(
        probe_pipeline_description("vp9enc", Codec::VP9),
        "videotestsrc num-buffers=3 ! video/x-raw,format=NV12,width=320,height=240,framerate=10/1 ! videoconvert ! vp9enc ! fakesink"
    );
}

#[test]
fn probe_outcomes() {
    assert_eq!(probe_outcome(Some(BusEvent::Eos)), Some(true));
    assert_eq!(probe_outcome(Some(BusEvent::Error)), Some(false));
    assert_eq!(probe_outcome(Some(BusEvent::Other)), None);
    assert_eq!(probe_outcome(None), Some(false));
}

#[test]
fn best_encoder_is_hardware_when_any_hardware_works() {
    let detected = detect_encoders(|c: &Candidate| c.gst_element == "openh264enc" || c.gst_element == "nvcudah265enc");
    assert_eq!(detected.len(), 2);
    let best = best_encoder(detected).unwrap();
    assert!(best.hardware);
    assert_eq!(best.gst_element, "nvcudah265enc");
    let software_only = best_encoder(detect_encoders(|c: &Candidate| !c.hardware)).unwrap();
    assert_eq!(software_only.gst_element, "x264enc");
}
