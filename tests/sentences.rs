use ship_switch::nmea::{Nmea, ParseError, SentenceType, TalkerId};

fn parsed(text: &str) -> Result<Nmea, ParseError> {
    let mut m = Nmea::new();
    m.parse(text.to_string()).map(|_| m)
}

fn names(m: &Nmea) -> Vec<String> {
    m.sentence_fields.iter().map(|f| f.name.clone()).collect()
}

fn values(m: &Nmea) -> Vec<String> {
    m.sentence_fields.iter().map(|f| f.value.clone()).collect()
}

#[test]
fn parse_hdt() {
    let m = parsed("$IIHDT,33,T*44").unwrap();
    assert_eq!(m.talker_id, TalkerId::IiIntegratedInstrumentation);
    assert_eq!(m.sentence_type, SentenceType::Hdt);
    assert_eq!(names(&m), vec!["heading_degrees", "true_checksum"]);
    assert_eq!(values(&m), vec!["33", "T*44"]);
    assert_eq!(m.str_talker_id(), "II");
    assert_eq!(m.str_sentence_type(), "HDT");
    assert_eq!(m.prefix(), "$IIHDT");
}

#[test]
fn parse_trims_tokens_and_keeps_padding_bytes() {
    let m = parsed("$IIHDT, 33 ,\tT*44\0\0").unwrap();
    assert_eq!(values(&m), vec!["33", "T*44\0\0"]);
    let n = parsed("$HEHDT,\u{a0}120.5\u{3000},T").unwrap();
    assert_eq!(values(&n), vec!["120.5", "T"]);
}

#[test]
fn parse_every_supported_type_rejoins_tokens() {
    let cases: Vec<(&str, SentenceType, usize)> = vec![
        ("$GPGGA,123519,4807.038,N,01131.000,E,1,08,0.9,545.4,M,46.9,M,,,*47", SentenceType::Gga, 15),
        ("$GPGLL,4916.45,N,12311.12,W,225444,A,A,*5C", SentenceType::Gll, 8),
        ("$GPRMC,123519,A,4807.038,N,01131.000,E,022.4,084.4,230394,003.1,W,A,V,*6A", SentenceType::Rmc, 14),
        ("$GPZDA,201530.00,04,07,2002,00,00,*60", SentenceType::Zda, 7),
        ("$SDDPT,2.4,0.5,100,*5B", SentenceType::Dpt, 4),
        ("$IIVHW,245.1,T,245.1,M,05.3,N,09.8,K,*4F", SentenceType::Vhw, 9),
        ("$RATTM,11,11.4,13.6,T,7.0,20.0,T,0.4,1.0,N,TGT11,T,,100021.00,A,*63", SentenceType::Ttm, 16),
        ("$RATLL,01,4916.45,N,12311.12,W,TGT01,225444,T,R", SentenceType::Tll, 9),
        ("$HEHDT,274.07,T*03", SentenceType::Hdt, 2),
    ];
    for (text, kind, count) in cases {
        let m = parsed(text).unwrap();
        assert_eq!(m.sentence_type, kind);
        assert_eq!(m.sentence_fields.len(), count, "{}", text);
        let tokens: Vec<&str> = text.split(',').collect();
        let mut rejoined = vec![tokens[0].to_string()];
        rejoined.extend(values(&m));
        assert_eq!(rejoined.join(","), text);
    }
}

#[test]
fn parse_field_names_of_gga_and_ttm() {
    let m = parsed("$GPGGA,123519,4807.038,N,01131.000,E,1,08,0.9,545.4,M,46.9,M,,,*47").unwrap();
    assert_eq!(m.sentence_fields[0].name, "utc_time");
    assert_eq!(m.sentence_fields[13].name, "differential_reference_station_id");
    assert_eq!(m.sentence_fields[13].value, "");
    assert_eq!(m.sentence_fields[14].name, "checksum");
    assert_eq!(m.sentence_fields[14].value, "*47");
    let t = parsed("$RATTM,11,11.4,13.6,T,7.0,20.0,T,0.4,1.0,N,TGT11,T,,100021.00,A,*63").unwrap();
    assert_eq!(t.sentence_fields[6].name, "true_or_relative_2");
    assert_eq!(t.sentence_fields[15].name, "checksum");
    assert_eq!(t.sentence_fields[15].value, "*63");
}

#[test]
fn parse_keeps_extra_tokens_out() {
    let m = parsed("$IIHDT,33,T*44,extra").unwrap();
    assert_eq!(values(&m), vec!["33", "T*44"]);
}

#[test]
fn parse_every_listed_talker() {
    let talkers = vec![
        ("AI", TalkerId::AiAlarmIndicator),
        ("AP", TalkerId::ApAutoPilot),
        ("BD", TalkerId::BdBeidouChina),
        ("CD", TalkerId::CdDsc),
        ("EC", TalkerId::EcEcdis),
        ("GA", TalkerId::GaGalileoPs),
        ("GB", TalkerId::GbBeidouChina),
        ("GI", TalkerId::GiNavicIrnssIndia),
        ("GL", TalkerId::GlGlonassIEIC611621),
        ("GN", TalkerId::GnMultipleSatelliteSystem),
        ("GP", TalkerId::GpGlobalPositioningSystemReceiver),
        ("GQ", TalkerId::GqQZSSRegionalGpsASJapan),
        ("HC", TalkerId::HcHeadingCompass),
        ("HE", TalkerId::HeGyroNorthSeeking),
        ("II", TalkerId::IiIntegratedInstrumentation),
        ("IN", TalkerId::InIntegratedNavigation),
        ("LC", TalkerId::LcLorancReceiver),
        ("PQ", TalkerId::PqQuectelQuirk),
        ("QZ", TalkerId::QzQzssRegionalGpsASJapan),
        ("RA", TalkerId::RaRadarARPA),
        ("SD", TalkerId::SdDepthSounder),
        ("ST", TalkerId::StSkytraq),
        ("TI", TalkerId::TiTurnIndicator),
        ("WI", TalkerId::WiWeatherInstrument),
        ("YX", TalkerId::YxTransducer),
    ];
    for (code, id) in talkers {
        let m = parsed(&format!("${}HDT,1,T", code)).unwrap();
        assert_eq!(m.talker_id, id);
        assert_eq!(m.str_talker_id(), code);
    }
}

#[test]
fn parse_unlisted_talker_fails() {
    for text in ["$XXHDT,33,T*44", "$iiHDT,33,T*44", "$I", "", "$GXGGA,1"] {
        assert_eq!(parsed(text).err(), Some(ParseError::UnknownTalker), "{}", text);
    }
}

#[test]
fn parse_unsupported_types_fail() {
    assert_eq!(parsed("!AIVDM,1,1,,A,13aG?P0P00PD;88MD5MTDww@2<0L,0*4E").err(), Some(ParseError::UnsupportedType));
    assert_eq!(parsed("$AIVDO,1,1,,,B00,0*00").err(), Some(ParseError::UnsupportedType));
    assert_eq!(parsed("$IIXDR,C,19.5,C,AIR").err(), Some(ParseError::UnsupportedType));
    assert_eq!(parsed("$IIHD").err(), Some(ParseError::UnsupportedType));
}

#[test]
fn parse_too_few_tokens_is_schema_mismatch() {
    assert_eq!(parsed("$IIHDT,33").err(), Some(ParseError::SchemaMismatch));
    assert_eq!(parsed("$SDDPT,2.4,0.5").err(), Some(ParseError::SchemaMismatch));
}

#[test]
fn failed_parse_leaves_message_unchanged() {
    let mut m = Nmea::new();
    m.parse("$IIHDT,33,T*44".to_string()).unwrap();
    assert!(m.parse("$IIHDT,33".to_string()).is_err());
    assert_eq!(m.sentence_type, SentenceType::Hdt);
    assert_eq!(values(&m), vec!["33", "T*44"]);
    let fresh = Nmea::new();
    assert_eq!(fresh.talker_id, TalkerId::NotRecognized);
    assert_eq!(fresh.str_talker_id(), "");
    assert_eq!(fresh.str_sentence_type(), "");
    assert_eq!(fresh.prefix(), "$");
}
