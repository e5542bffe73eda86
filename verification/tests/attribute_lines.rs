use turn_core::attributes::{AttrError, Attributes};
use turn_core::kind::Kind;
use turn_core::orient::Orient;
use turn_core::rtp_value::{Codec, RtpValue};

#[test]
fn fresh_record_is_empty() {
    let a = Attributes::default();
    assert_eq!(a.ptime, None);
    assert_eq!(a.maxptime, None);
    assert!(a.rtpmap.is_empty());
    assert!(a.fmtp.is_empty());
    assert_eq!(a.orient, None);
    assert_eq!(a.charset, None);
    assert_eq!(a.sdplang, None);
    assert_eq!(a.lang, None);
    assert_eq!(a.framerate, None);
    assert_eq!(a.quality, None);
    assert_eq!(a.kind, None);
    assert!(!a.recvonly && !a.sendrecv && !a.sendonly && !a.inactive);
    assert!(a.extmap.is_empty());
}

#[test]
fn numeric_attributes_parse() {
    let mut a = Attributes::default();
    assert!(a.handle("ptime:20").is_ok());
    assert!(a.handle("maxptime:120").is_ok());
    assert!(a.handle("framerate:60").is_ok());
    assert!(a.handle("quality:10").is_ok());
    assert_eq!(a.ptime, Some(20));
    assert_eq!(a.maxptime, Some(120));
    assert_eq!(a.framerate, Some(60));
    assert_eq!(a.quality, Some(10));
}

#[test]
fn plus_sign_and_range_limits() {
    let mut a = Attributes::default();
    assert!(a.handle("ptime:+7").is_ok());
    assert_eq!(a.ptime, Some(7));
    // out of range for the field
    assert_eq!(a.handle("quality:256"), Err(AttrError::InvalidNumber));
    assert_eq!(a.quality, None);
    assert_eq!(a.handle("framerate:65536"), Err(AttrError::InvalidNumber));
    // too large for any field
    assert_eq!(a.handle("ptime:18446744073709551616"), Err(AttrError::InvalidNumber));
    assert_eq!(a.ptime, Some(7));
}

#[test]
fn bad_numbers_are_rejected() {
    let mut a = Attributes::default();
    assert_eq!(a.handle("ptime:abc"), Err(AttrError::InvalidNumber));
    assert_eq!(a.handle("ptime:"), Err(AttrError::InvalidNumber));
    assert_eq!(a.handle("ptime:-3"), Err(AttrError::InvalidNumber));
    assert_eq!(a.ptime, None);
}

#[test]
fn known_name_without_value_is_rejected() {
    let mut a = Attributes::default();
    assert_eq!(a.handle("ptime"), Err(AttrError::MissingValue));
    assert_eq!(a.handle("rtpmap"), Err(AttrError::MissingValue));
}

#[test]
fn orient_and_type_parse() {
    let mut a = Attributes::default();
    assert!(a.handle("orient:portrait").is_ok());
    assert_eq!(a.orient, Some(Orient::Portrait));
    assert!(a.handle("orient:seascape").is_ok());
    assert_eq!(a.orient, Some(Orient::Seascape));
    assert_eq!(a.handle("orient:diagonal"), Err(AttrError::InvalidOrient));

    assert!(a.handle("type:moderated").is_ok());
    assert_eq!(a.kind, Some(Kind::Moderated));
    assert!(a.handle("type:H332").is_ok());
    assert_eq!(a.kind, Some(Kind::H332));
    // names are case-sensitive
    assert_eq!(a.handle("type:Broadcast"), Err(AttrError::InvalidKind));
}

#[test]
fn text_attributes_store_their_value() {
    let mut a = Attributes::default();
    assert!(a.handle("charset:ISO-8859-1").is_ok());
    assert!(a.handle("sdplang:fr").is_ok());
    assert!(a.handle("lang:de").is_ok());
    assert_eq!(a.charset.as_deref(), Some("ISO-8859-1"));
    assert_eq!(a.sdplang.as_deref(), Some("fr"));
    assert_eq!(a.lang.as_deref(), Some("de"));
}

#[test]
fn unknown_names_are_ignored() {
    let mut a = Attributes::default();
    assert!(a.handle("recvonly").is_ok());
    assert!(a.handle("candidate:1 1 udp 2130706431 10.0.0.1 8998 typ host").is_ok());
    assert_eq!(a.ptime, None);
    assert!(!a.recvonly);
}

#[test]
fn rtp_value_parses_like_the_doc_example() {
    let value = RtpValue::parse("VP8/9000").unwrap();
    assert_eq!(value.codec, Codec::Vp8);
    assert_eq!(value.frequency, Some(9000));
    assert_eq!(value.channels, None);

    let opus = RtpValue::parse("opus/48000/2").unwrap();
    assert_eq!(opus.codec, Codec::Opus);
    assert_eq!(opus.frequency, Some(48000));
    assert_eq!(opus.channels, Some(2));

    let bare = RtpValue::parse("H264").unwrap();
    assert_eq!(bare.codec, Codec::H264);
    assert_eq!(bare.frequency, None);

    assert!(RtpValue::parse("nocodec/9000").is_none());
    assert!(RtpValue::parse("VP8/fast").is_none());
}

#[test]
fn rtpmap_lines_fill_the_table() {
    let mut a = Attributes::default();
    assert!(a.handle("rtpmap:96 VP8/9000").is_ok());
    assert!(a.handle("rtpmap:111 opus/48000/2").is_ok());
    let vp8 = a.rtpmap.get(&96).unwrap();
    assert_eq!(vp8.codec, Codec::Vp8);
    assert_eq!(vp8.frequency, Some(9000));
    let opus = a.rtpmap.get(&111).unwrap();
    assert_eq!(opus.channels, Some(2));

    assert_eq!(a.handle("rtpmap:96"), Err(AttrError::InvalidRtpmap));
    assert_eq!(a.handle("rtpmap:96 VP8/9000 extra"), Err(AttrError::InvalidRtpmap));
    assert_eq!(a.handle("rtpmap:999 VP8/9000"), Err(AttrError::InvalidNumber));
}

#[test]
fn fmtp_lines_fill_parameter_maps() {
    let mut a = Attributes::default();
    assert!(a.handle("fmtp:96 profile-level-id=42e016;max-mbps=108000;max-fs=3600").is_ok());
    let params = a.fmtp.get(&96).unwrap();
    assert_eq!(params.get("profile-level-id").map(|s| s.as_str()), Some("42e016"));
    assert_eq!(params.get("max-mbps").map(|s| s.as_str()), Some("108000"));
    assert_eq!(params.get("max-fs").map(|s| s.as_str()), Some("3600"));
    assert_eq!(params.get("absent"), None);
}

#[test]
fn fmtp_skips_pieces_without_a_pair() {
    let mut a = Attributes::default();
    // pieces that are not exactly key=value are skipped
    assert!(a.handle("fmtp:97 lonely;a=1;b=c=d").is_ok());
    let params = a.fmtp.get(&97).unwrap();
    assert_eq!(params.get("a").map(|s| s.as_str()), Some("1"));
    assert_eq!(params.get("lonely"), None);
    assert_eq!(params.get("b"), None);

    // a value with no valid pair creates no entry at all
    assert!(a.handle("fmtp:98 nothing-here").is_ok());
    assert!(a.fmtp.get(&98).is_none());

    assert_eq!(a.handle("fmtp:98"), Err(AttrError::InvalidFmtp));
    assert_eq!(a.handle("fmtp:notakey a=1"), Err(AttrError::InvalidNumber));
}

#[test]
fn fmtp_later_value_shadows_earlier() {
    let mut a = Attributes::default();
    assert!(a.handle("fmtp:96 x=1;x=2").is_ok());
    let params = a.fmtp.get(&96).unwrap();
    assert_eq!(params.get("x").map(|s| s.as_str()), Some("2"));
    // a second line for the same payload extends its map
    assert!(a.handle("fmtp:96 y=3").is_ok());
    let params = a.fmtp.get(&96).unwrap();
    assert_eq!(params.get("x").map(|s| s.as_str()), Some("2"));
    assert_eq!(params.get("y").map(|s| s.as_str()), Some("3"));
}

#[test]
fn extmap_lines_fill_the_table() {
    let mut a = Attributes::default();
    assert!(a.handle("extmap:1 urn").is_ok());
    assert_eq!(a.extmap.get(&1).map(|s| s.as_str()), Some("urn"));
    assert_eq!(a.handle("extmap:x urn"), Err(AttrError::InvalidNumber));
    assert_eq!(a.handle("extmap:2"), Err(AttrError::InvalidExtmap));
}

#[test]
fn value_stops_at_the_second_colon() {
    let mut a = Attributes::default();
    // the value piece is what stands between the first and second colon
    assert!(a.handle("extmap:3 urn:ietf:params").is_ok());
    assert_eq!(a.extmap.get(&3).map(|s| s.as_str()), Some("urn"));
}

#[test]
fn error_descriptions_are_stable() {
    assert_eq!(AttrError::MissingValue.as_str(), "missing attribute value");
    assert_eq!(AttrError::InvalidNumber.as_str(), "invalid number");
    assert_eq!(AttrError::InvalidRtpmap.as_str(), "invalid rtpmap");
}
