use qsonaut::adapters::cw::{accumulate, clamp_wpm, CwDecode};
use qsonaut::adapters::receiver::{
    martin_header, martin_push, martin_scan_at, martin_settle, receiver_header, receiver_push,
    receiver_scan_at, receiver_settle, MartinState, ReceiverAction, ReceiverState,
};
use qsonaut::adapters::rade::{
    check_feature_count, check_input_count, output_capacity, produced_count, rx_state, RadeMode,
    RadeNativeError, VoiceSyncState,
};
use qsonaut::adapters::sstv::{
    check_martin_m1_image, decimate_to_12k, vis_mode, vis_mode_name, SstvError, VisMode, HEIGHT,
    WIDTH,
};
use qsonaut::adapters::wsjt::{
    capabilities, modes, pack_standard, split_words, standard_message, standard_tones, wspr_message, Fst4Submode,
    Q65Submode, ToneFamily, WsjtMode,
};
use qsonaut::adapters::{require_sample_rate, AdapterError, ModemId};
use std::time::Duration;

#[test]
fn v1_and_v2_share_the_adapter_surface() {
    assert_eq!(RadeMode::V1.capabilities().speech_input_rate_hz, 16_000);
    assert_eq!(RadeMode::V2.capabilities().speech_output_rate_hz, 16_000);
    assert_ne!(RadeMode::V1.native_flags(), RadeMode::V2.native_flags());
    assert!(!RadeMode::V1.development());
    assert!(RadeMode::V2.development());
    assert_eq!(RadeMode::V1.native_flags(), 0x3);
    assert_eq!(RadeMode::V2.native_flags(), 0x13);
    assert_eq!(RadeMode::V2.label(), "RADE V2 (upstream development)");
}

#[test]
fn mode_matrix_has_standard_slot_metadata() {
    assert_eq!(WsjtMode::Ft8.slot(), Duration::from_secs(15));
    assert_eq!(WsjtMode::Ft4.slot(), Duration::from_millis(7_500));
    assert_eq!(WsjtMode::Wspr.slot(), Duration::from_secs(120));
    assert_eq!(WsjtMode::Q65(Q65Submode::A30).slot(), Duration::from_secs(30));
    assert_eq!(
        [
            WsjtMode::Ft8,
            WsjtMode::Ft4,
            WsjtMode::Fst4(Fst4Submode::S60),
            WsjtMode::Wspr,
            WsjtMode::Jt9,
            WsjtMode::Jt65,
            WsjtMode::Q65(Q65Submode::A30),
            WsjtMode::Msk144,
        ]
        .map(WsjtMode::name),
        ["ft8", "ft4", "fst4-60", "wspr", "jt9", "jt65", "q65-a30", "msk144"]
    );
}

#[test]
fn fst4_submodes_have_distinct_names_and_durations() {
    let submodes = [
        Fst4Submode::S15,
        Fst4Submode::S30,
        Fst4Submode::S60,
        Fst4Submode::S120,
        Fst4Submode::S300,
    ];
    assert_eq!(submodes[0].seconds(), 15);
    assert_eq!(submodes[4].seconds(), 300);
    assert_eq!(
        submodes.map(Fst4Submode::name),
        ["fst4-15", "fst4-30", "fst4-60", "fst4-120", "fst4-300"]
    );
}

#[test]
fn q65_submodes_have_distinct_names_and_slot_durations() {
    let submodes = [
        Q65Submode::A15,
        Q65Submode::A30,
        Q65Submode::A60,
        Q65Submode::B60,
        Q65Submode::C60,
        Q65Submode::D60,
        Q65Submode::E60,
        Q65Submode::D120,
        Q65Submode::E120,
        Q65Submode::A300,
    ];
    assert_eq!(submodes[0].seconds(), 15);
    assert_eq!(submodes[1].seconds(), 30);
    assert_eq!(submodes[6].seconds(), 60);
    assert_eq!(submodes[8].seconds(), 120);
    assert_eq!(submodes[9].seconds(), 300);
    assert_eq!(
        submodes.map(Q65Submode::name),
        [
            "q65-a15", "q65-a30", "q65-a60", "q65-b60", "q65-c60", "q65-d60", "q65-e60",
            "q65-d120", "q65-e120", "q65-a300"
        ]
    );
}

#[test]
fn dispatch_rejects_wrong_audio_rate_before_protocol_work() {
    assert_eq!(
        require_sample_rate(WsjtMode::Jt9.name(), 12_000, 48_000),
        Err(AdapterError::UnsupportedSampleRate {
            modem: "jt9",
            expected: 12_000,
            actual: 48_000
        })
    );
    assert_eq!(require_sample_rate("ft8", 12_000, 12_000), Ok(()));
}

#[test]
fn mode_list_and_capabilities_follow_the_adapter_scope() {
    let all = modes();
    assert_eq!(all.len(), 21);
    let upstream: Vec<&str> = all.iter().map(|m| m.upstream_name()).collect();
    assert!(upstream.contains(&"FST4-60A"));
    assert!(upstream.contains(&"Q65-120E"));
    let ft8 = capabilities(WsjtMode::Ft8);
    assert!(ft8.decode_budget && ft8.ft8_slot_acquisition && ft8.deep_decode);
    let msk = capabilities(WsjtMode::Msk144);
    assert!(msk.decode && !msk.synthesize && !msk.decode_budget && !msk.frequency_hint);
    assert!(capabilities(WsjtMode::Ft4).frequency_hint);
    assert!(capabilities(WsjtMode::Fst4(Fst4Submode::S15)).local_equalization);
    assert!(!capabilities(WsjtMode::Jt65).local_equalization);
}

#[test]
fn standard_messages_split_on_white_space_and_pack_through_the_library() {
    assert_eq!(split_words("  CQ\tK7TEST  CN87 "), ["CQ", "K7TEST", "CN87"]);
    assert_eq!(split_words(""), Vec::<String>::new());
    assert_eq!(
        standard_message("cq K7TEST CN87"),
        Some(("cq".into(), "K7TEST".into(), "CN87".into()))
    );
    assert_eq!(standard_message("CQ K7TEST"), None);
    let lower = pack_standard("cq K7TEST CN87").unwrap();
    let upper = pack_standard("CQ K7TEST CN87").unwrap();
    assert_eq!(lower, upper);
    assert_eq!(
        Some(upper),
        mfsk_core::msg::wsjt77::pack77("CQ", "K7TEST", "CN87")
    );
    assert!(upper.iter().all(|&b| b <= 1));
    assert_ne!(
        pack_standard("W1AW K7TEST -12").unwrap(),
        pack_standard("W1AW K7TEST -11").unwrap()
    );
    assert_eq!(pack_standard("W1AW K7TEST"), None);
    assert_eq!(pack_standard("W1AW K7TEST +99"), None);
}

#[test]
fn sstv_vis_codes_and_martin_geometry() {
    assert_eq!(vis_mode_name(0x2c), "Martin M1");
    assert_eq!(vis_mode_name(0x3c), "Scottie S1");
    assert_eq!(vis_mode_name(0x5d), "unknown SSTV mode");
    assert_eq!(vis_mode(0x5d), Some(VisMode::Pd50));
    assert_eq!(vis_mode(0x4c), None);
    let codes = [
        0x2c, 0x28, 0x3c, 0x38, 0x08, 0x0c, 0x5d, 0x63, 0x5f, 0x62, 0x60, 0x61, 0x5e,
    ];
    let mut seen = Vec::new();
    for code in codes {
        let mode = vis_mode(code).unwrap();
        assert!(!seen.contains(&mode));
        seen.push(mode);
    }
    assert_eq!(seen.len(), 13);
    assert_eq!(check_martin_m1_image(&vec![0; WIDTH * HEIGHT * 3]), Ok(()));
    assert_eq!(
        check_martin_m1_image(&vec![0; 10]),
        Err(SstvError::InvalidImage)
    );
    assert_eq!(
        SstvError::Codec("bad".into()).message(),
        "SSTV codec failed: bad"
    );
    assert_eq!(decimate_to_12k(&[1, 2, 3, 4, 5, 6, 7, 8, 9]), [1, 5, 9]);
    assert_eq!(decimate_to_12k(&[]), Vec::<i16>::new());
}

#[test]
fn cw_transcript_and_speed_clamp() {
    let mut text = String::new();
    for event in [
        CwDecode::Character('C'),
        CwDecode::Character('Q'),
        CwDecode::WordBreak,
        CwDecode::Unknown,
    ] {
        accumulate(&mut text, event);
    }
    assert_eq!(text, "CQ ?");
    assert_eq!(clamp_wpm(1), 5);
    assert_eq!(clamp_wpm(60), 40);
    assert_eq!(clamp_wpm(20), 20);
}

#[test]
fn rade_identities_capabilities_and_native_count_checks() {
    assert_eq!(RadeMode::V1.modem_id(), ModemId("rade-v1"));
    assert_eq!(RadeMode::V2.capabilities().modem, ModemId("rade-v2"));
    assert_eq!(RadeMode::V1.capabilities().modem_input_rate_hz, 8_000);
    assert!(!RadeMode::V1.capabilities().development);
    assert!(RadeMode::V2.capabilities().supports_transmit);
    assert_eq!(
        check_feature_count(36, 35),
        Err(RadeNativeError::FeatureCount { expected: 36, actual: 35 })
    );
    assert_eq!(check_feature_count(36, 36), Ok(()));
    assert_eq!(
        check_input_count(-1, 0),
        Err(RadeNativeError::InvalidOutputCount { actual: -1 })
    );
    assert_eq!(
        check_input_count(960, 100),
        Err(RadeNativeError::InputSampleCount { expected: 960, actual: 100 })
    );
    assert_eq!(check_input_count(960, 960), Ok(960));
    assert_eq!(output_capacity(-5), Err(RadeNativeError::InvalidOutputCount { actual: -5 }));
    assert_eq!(output_capacity(7), Ok(7));
    assert_eq!(produced_count(8, 7), Err(RadeNativeError::InvalidOutputCount { actual: 8 }));
    assert_eq!(produced_count(7, 7), Ok(7));
    assert_eq!(rx_state(true, true), VoiceSyncState::EndOfOver);
    assert_eq!(rx_state(false, true), VoiceSyncState::Synchronized);
    assert_eq!(rx_state(false, false), VoiceSyncState::Searching);
    assert_eq!(WsjtMode::Q65(Q65Submode::E120).modem_id(), ModemId("q65-e120"));
}

#[test]
fn vis_header_bits_carry_even_parity_and_read_back() {
    let bits = qsonaut::adapters::sstv::vis_header_bits(0x2c);
    assert_eq!(bits, [false, false, true, true, false, true, false, true]);
    assert_eq!(qsonaut::adapters::sstv::vis_from_bits(&bits[..7], bits[7]), Some(0x2c));
    assert_eq!(qsonaut::adapters::sstv::vis_from_bits(&bits[..7], !bits[7]), None);
    for code in 0..128u8 {
        let bits = qsonaut::adapters::sstv::vis_header_bits(code);
        assert_eq!(qsonaut::adapters::sstv::vis_from_bits(&bits[..7], bits[7]), Some(code));
    }
}

#[test]
fn standard_tones_follow_the_packed_payload() {
    let bits = pack_standard("CQ K7TEST CN87").unwrap();
    let ft8 = standard_tones("cq K7TEST CN87", ToneFamily::Ft8).unwrap();
    assert_eq!(ft8, mfsk_core::ft8::wave_gen::message_to_tones(&bits).to_vec());
    assert_eq!(ft8.len(), 79);
    let ft4 = standard_tones("CQ K7TEST CN87", ToneFamily::Ft4).unwrap();
    assert_eq!(ft4, mfsk_core::ft4::encode::message_to_tones(&bits));
    assert_ne!(ft4, ft8);
    let fst4 = standard_tones("CQ K7TEST CN87", ToneFamily::Fst4).unwrap();
    assert_eq!(fst4, mfsk_core::fst4::encode::message_to_tones(&bits));
    assert_eq!(standard_tones("CQ K7TEST", ToneFamily::Ft8), None);
}

#[test]
fn wspr_messages_take_a_signed_power() {
    assert_eq!(
        wspr_message(" K7TEST CN87 37 "),
        Some(("K7TEST".into(), "CN87".into(), 37))
    );
    assert_eq!(wspr_message("K7TEST CN87 -30"), Some(("K7TEST".into(), "CN87".into(), -30)));
    assert_eq!(wspr_message("K7TEST CN87 +5"), Some(("K7TEST".into(), "CN87".into(), 5)));
    assert_eq!(
        wspr_message("K7TEST CN87 -2147483648"),
        Some(("K7TEST".into(), "CN87".into(), i32::MIN))
    );
    for bad in ["K7TEST CN87 2147483648", "K7TEST CN87 -+5", "K7TEST CN87 -", "K7TEST CN87 1e3", "K7TEST CN87"] {
        assert_eq!(wspr_message(bad), None, "{bad}");
    }
    for text in ["0", "-0", "+12", "-12", "99999999999", "+", "--1"] {
        let compose = format!("A B {text}");
        assert_eq!(wspr_message(&compose).map(|m| m.2), text.parse::<i32>().ok(), "{text}");
    }
}

#[test]
fn adapter_and_native_errors_describe_themselves() {
    assert_eq!(
        AdapterError::UnsupportedSampleRate { modem: "ft8", expected: 12_000, actual: 48_000 }.message(),
        "ft8 requires 12000 Hz mono audio, got 48000 Hz"
    );
    assert_eq!(RadeNativeError::NullContext.message(), "rade_c returned a null context");
    assert_eq!(
        RadeNativeError::FeatureCount { expected: 36, actual: 0 }.message(),
        "rade_c requires 36 feature values, got 0"
    );
    assert_eq!(
        RadeNativeError::InputSampleCount { expected: 960, actual: 12 }.message(),
        "rade_c requires 960 IQ samples, got 12"
    );
    assert_eq!(
        RadeNativeError::InvalidOutputCount { actual: -7 }.message(),
        "rade_c returned an invalid output count -7"
    );
    assert_eq!(
        RadeNativeError::InvalidOutputCount { actual: i32::MIN }.message(),
        "rade_c returned an invalid output count -2147483648"
    );
    assert_eq!(SstvError::InvalidImage.message(), "Martin M1 needs exactly 320 x 256 RGB pixels");
}

#[test]
fn multimode_receiver_accepts_selected_headers_and_bounds_its_search() {
    let header = 100;
    let step = 5;
    let mut s = ReceiverState::new();
    s.set_selected_mode(Some(VisMode::ScottieS1));
    s = receiver_push(&s, 250);
    assert_eq!(receiver_scan_at(&s, header), Some(0));
    s = receiver_header(&s, None, header, step);
    assert_eq!(s.search_from, 5);
    // Martin M1 is not the selected mode: its header is passed over whole.
    s = receiver_header(&s, Some(0x2c), header, step);
    assert_eq!((s.search_from, s.last_vis, s.transmission_start), (105, Some(0x2c), None));
    assert_eq!(receiver_scan_at(&s, header), Some(105));
    // Scottie S1 is accepted where its header starts.
    s = receiver_header(&s, Some(0x3c), header, step);
    assert_eq!(s.transmission_start, Some(105));
    assert_eq!(s.active_mode, Some(VisMode::ScottieS1));
    assert_eq!(receiver_scan_at(&s, header), None);
    let (waiting, action, dropped) = receiver_settle(&s, 200, 10, 150, 1000);
    assert_eq!((action, dropped), (ReceiverAction::Wait, false));
    let s = receiver_push(&waiting, 70);
    let (done, action, _) = receiver_settle(&s, 200, 10, 150, 1000);
    assert_eq!(
        action,
        ReceiverAction::Decode { mode: VisMode::ScottieS1, start: 105, end: 315 }
    );
    assert_eq!((done.buffered, done.transmission_start), (0, None));
    assert_eq!(done.selected_mode, Some(VisMode::ScottieS1));
    // While searching, only the last `keep` samples stay.
    let mut idle = receiver_push(&ReceiverState::new(), 400);
    idle = receiver_header(&idle, None, header, 250);
    let (trimmed, action, _) = receiver_settle(&idle, 0, 10, 150, 1000);
    assert_eq!(action, ReceiverAction::Trim(250));
    assert_eq!((trimmed.buffered, trimmed.search_from), (150, 0));
}

#[test]
fn auto_target_drops_an_unresolved_lock_after_the_timeout() {
    let header = 100;
    let mut s = ReceiverState::new();
    s.set_auto_target(true);
    s.set_selected_mode(Some(VisMode::Robot36));
    s = receiver_push(&s, 120);
    s = receiver_header(&s, Some(0x2c), header, 5);
    assert_eq!(s.unresolved_auto_samples, Some(0));
    let (s, _, dropped) = receiver_settle(&s, 0, 10, 1000, 50);
    assert!(!dropped);
    let s = receiver_push(&s, 60);
    assert_eq!(s.unresolved_auto_samples, Some(60));
    let (mut s, _, dropped) = receiver_settle(&s, 0, 10, 1000, 50);
    assert!(dropped);
    assert_eq!((s.last_vis, s.unresolved_auto_samples), (None, None));
    assert!(s.take_auto_reacquired());
    assert!(!s.take_auto_reacquired());
    // A header with no codec mode never starts a transmission.
    let s = receiver_header(&receiver_push(&ReceiverState::new(), 100), Some(0x4c), header, 5);
    assert_eq!((s.transmission_start, s.search_from), (None, 100));
}

#[test]
fn martin_receiver_starts_the_image_after_its_header() {
    let mut s = martin_push(&MartinState::new(), 150);
    assert_eq!(martin_scan_at(&s, 100), Some(0));
    s = martin_header(&s, Some(0x3c), 100, 10);
    assert_eq!((s.search_from, s.last_vis), (100, Some(0x3c)));
    assert_eq!(martin_scan_at(&s, 100), None);
    s = martin_push(&s, 100);
    s = martin_header(&s, Some(0x2c), 100, 10);
    assert_eq!(s.image_start, Some(200));
    let (s, action) = martin_settle(&s, 80, 500);
    assert_eq!(action, ReceiverAction::Wait);
    let s = martin_push(&s, 40);
    let (s, action) = martin_settle(&s, 80, 500);
    assert_eq!(action, ReceiverAction::Decode { mode: VisMode::MartinM1, start: 200, end: 280 });
    assert_eq!(s, MartinState::new());
}
