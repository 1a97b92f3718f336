//! NMEA 0183 sentences: talker and sentence-type tables, field schemas, and
//! the parser that maps a sentence's tokens onto its schema.
use vstd::prelude::*;
use vstd::string::*;
use crate::text::{chars_of, join_commas, lemma_join_split, split_commas, token_spans, trim, trim_span};

verus! {

/// The subsystem that emitted a sentence, from its two-letter talker code.
#[derive(Clone, Copy, Debug, PartialEq, Eq, Structural)]
pub enum TalkerId {
    AiAlarmIndicator,
    ApAutoPilot,
    BdBeidouChina,
    CdDsc,
    EcEcdis,
    GaGalileoPs,
    GbBeidouChina,
    GiNavicIrnssIndia,
    GlGlonassIEIC611621,
    GnMultipleSatelliteSystem,
    GpGlobalPositioningSystemReceiver,
    GqQZSSRegionalGpsASJapan,
    HcHeadingCompass,
    HeGyroNorthSeeking,
    IiIntegratedInstrumentation,
    InIntegratedNavigation,
    LcLorancReceiver,
    PqQuectelQuirk,
    QzQzssRegionalGpsASJapan,
    RaRadarARPA,
    SdDepthSounder,
    StSkytraq,
    TiTurnIndicator,
    WiWeatherInstrument,
    YxTransducer,
    NotRecognized,
}

/// The kind of a sentence, from its three-letter type code.
#[derive(Clone, Copy, Debug, PartialEq, Eq, Structural)]
pub enum SentenceType {
    /// Actual vessel heading in degrees true.
    Hdt,
    /// AIS message received from another vessel; no field schema.
    Vdm,
    /// AIS message about the own vessel; no field schema.
    Vdo,
    /// Time, position and fix data of a GPS receiver.
    Gga,
    /// Geographic position, latitude and longitude.
    Gll,
    /// Recommended minimum navigation data.
    Rmc,
    /// Time and date.
    Zda,
    /// Depth of water.
    Dpt,
    /// Water speed and heading.
    Vhw,
    /// Tracked target message.
    Ttm,
    /// Target latitude and longitude.
    Tll,
    NotRecognized,
}

/// The talker whose code is `a` `b`.
pub open spec fn talker_of(a: char, b: char) -> TalkerId {
    match (a, b) {
        ('A', 'I') => TalkerId::AiAlarmIndicator,
        ('A', 'P') => TalkerId::ApAutoPilot,
        ('B', 'D') => TalkerId::BdBeidouChina,
        ('C', 'D') => TalkerId::CdDsc,
        ('E', 'C') => TalkerId::EcEcdis,
        ('G', 'A') => TalkerId::GaGalileoPs,
        ('G', 'B') => TalkerId::GbBeidouChina,
        ('G', 'I') => TalkerId::GiNavicIrnssIndia,
        ('G', 'L') => TalkerId::GlGlonassIEIC611621,
        ('G', 'N') => TalkerId::GnMultipleSatelliteSystem,
        ('G', 'P') => TalkerId::GpGlobalPositioningSystemReceiver,
        ('G', 'Q') => TalkerId::GqQZSSRegionalGpsASJapan,
        ('H', 'C') => TalkerId::HcHeadingCompass,
        ('H', 'E') => TalkerId::HeGyroNorthSeeking,
        ('I', 'I') => TalkerId::IiIntegratedInstrumentation,
        ('I', 'N') => TalkerId::InIntegratedNavigation,
        ('L', 'C') => TalkerId::LcLorancReceiver,
        ('P', 'Q') => TalkerId::PqQuectelQuirk,
        ('Q', 'Z') => TalkerId::QzQzssRegionalGpsASJapan,
        ('R', 'A') => TalkerId::RaRadarARPA,
        ('S', 'D') => TalkerId::SdDepthSounder,
        ('S', 'T') => TalkerId::StSkytraq,
        ('T', 'I') => TalkerId::TiTurnIndicator,
        ('W', 'I') => TalkerId::WiWeatherInstrument,
        ('Y', 'X') => TalkerId::YxTransducer,
        _ => TalkerId::NotRecognized,
    }
}

/// The two-letter code of a talker; empty for `NotRecognized`.
pub open spec fn talker_code(t: TalkerId) -> Seq<char> {
    match t {
        TalkerId::AiAlarmIndicator => seq!['A', 'I'],
        TalkerId::ApAutoPilot => seq!['A', 'P'],
        TalkerId::BdBeidouChina => seq!['B', 'D'],
        TalkerId::CdDsc => seq!['C', 'D'],
        TalkerId::EcEcdis => seq!['E', 'C'],
        TalkerId::GaGalileoPs => seq!['G', 'A'],
        TalkerId::GbBeidouChina => seq!['G', 'B'],
        TalkerId::GiNavicIrnssIndia => seq!['G', 'I'],
        TalkerId::GlGlonassIEIC611621 => seq!['G', 'L'],
        TalkerId::GnMultipleSatelliteSystem => seq!['G', 'N'],
        TalkerId::GpGlobalPositioningSystemReceiver => seq!['G', 'P'],
        TalkerId::GqQZSSRegionalGpsASJapan => seq!['G', 'Q'],
        TalkerId::HcHeadingCompass => seq!['H', 'C'],
        TalkerId::HeGyroNorthSeeking => seq!['H', 'E'],
        TalkerId::IiIntegratedInstrumentation => seq!['I', 'I'],
        TalkerId::InIntegratedNavigation => seq!['I', 'N'],
        TalkerId::LcLorancReceiver => seq!['L', 'C'],
        TalkerId::PqQuectelQuirk => seq!['P', 'Q'],
        TalkerId::QzQzssRegionalGpsASJapan => seq!['Q', 'Z'],
        TalkerId::RaRadarARPA => seq!['R', 'A'],
        TalkerId::SdDepthSounder => seq!['S', 'D'],
        TalkerId::StSkytraq => seq!['S', 'T'],
        TalkerId::TiTurnIndicator => seq!['T', 'I'],
        TalkerId::WiWeatherInstrument => seq!['W', 'I'],
        TalkerId::YxTransducer => seq!['Y', 'X'],
        TalkerId::NotRecognized => Seq::empty(),
    }
}

/// The sentence type whose code is `a` `b` `c`.
pub open spec fn sentence_of(a: char, b: char, c: char) -> SentenceType {
    match (a, b, c) {
        ('H', 'D', 'T') => SentenceType::Hdt,
        ('V', 'D', 'M') => SentenceType::Vdm,
        ('V', 'D', 'O') => SentenceType::Vdo,
        ('G', 'G', 'A') => SentenceType::Gga,
        ('G', 'L', 'L') => SentenceType::Gll,
        ('R', 'M', 'C') => SentenceType::Rmc,
        ('Z', 'D', 'A') => SentenceType::Zda,
        ('D', 'P', 'T') => SentenceType::Dpt,
        ('V', 'H', 'W') => SentenceType::Vhw,
        ('T', 'T', 'M') => SentenceType::Ttm,
        ('T', 'L', 'L') => SentenceType::Tll,
        _ => SentenceType::NotRecognized,
    }
}

/// The three-letter code of a sentence type; empty for `NotRecognized`.
pub open spec fn sentence_code(t: SentenceType) -> Seq<char> {
    match t {
        SentenceType::Hdt => seq!['H', 'D', 'T'],
        SentenceType::Vdm => seq!['V', 'D', 'M'],
        SentenceType::Vdo => seq!['V', 'D', 'O'],
        SentenceType::Gga => seq!['G', 'G', 'A'],
        SentenceType::Gll => seq!['G', 'L', 'L'],
        SentenceType::Rmc => seq!['R', 'M', 'C'],
        SentenceType::Zda => seq!['Z', 'D', 'A'],
        SentenceType::Dpt => seq!['D', 'P', 'T'],
        SentenceType::Vhw => seq!['V', 'H', 'W'],
        SentenceType::Ttm => seq!['T', 'T', 'M'],
        SentenceType::Tll => seq!['T', 'L', 'L'],
        SentenceType::NotRecognized => Seq::empty(),
    }
}

/// The sentence types whose fields the parser extracts.
pub open spec fn has_schema(t: SentenceType) -> bool {
    !(t is Vdm || t is Vdo || t is NotRecognized)
}

/// The field names of a sentence type, in the order of its tokens.
pub open spec fn field_names(t: SentenceType) -> Seq<Seq<char>> {
    match t {
        SentenceType::Hdt => seq!["heading_degrees"@, "true_checksum"@],
        SentenceType::Gga => seq!["utc_time"@, "latitude"@, "north_or_south"@, "longitude"@, "east_or_west"@, "gps_quality"@, "number_of_satellites"@, "horizontal_dilution_precision"@, "antenna_altitude"@, "antenna_altitude_units"@, "geoidal_separation"@, "geoidal_separation_units"@, "differential_gps_data_age"@, "differential_reference_station_id"@, "checksum"@],
        SentenceType::Gll => seq!["latitude"@, "north_or_south"@, "longitude"@, "east_or_west"@, "utc"@, "status_a"@, "faa_mode_indicator"@, "checksum"@],
        SentenceType::Rmc => seq!["utc"@, "status"@, "latitude"@, "north_or_south"@, "longitude"@, "east_or_west"@, "speed_over_ground"@, "track_made_good"@, "date"@, "magnetic_variation"@, "east_or_west_magnetic"@, "faa_mode_indicator"@, "nav_status"@, "checksum"@],
        SentenceType::Zda => seq!["utc_time"@, "day"@, "month"@, "year"@, "local_zone_description"@, "local_zone_minutes_description"@, "checksum"@],
        SentenceType::Dpt => seq!["water_depth"@, "transducer_offset"@, "max_range_scale_in_use"@, "checksum"@],
        SentenceType::Vhw => seq!["heading_degrees_true"@, "t_true"@, "heading_degrees_magnetic"@, "m_magnetic"@, "vessel_speed_knots"@, "n_knots"@, "vessel_speed_kmh"@, "k_kilometers"@, "checksum"@],
        SentenceType::Ttm => seq!["target_number"@, "target_distance"@, "bearing_from_own_ship"@, "true_or_relative"@, "target_speed"@, "target_course"@, "true_or_relative_2"@, "distance_from_closest_poa"@, "time_until_closest_poa"@, "speed_distance_units"@, "target_name"@, "target_status"@, "reference_target"@, "utc_of_data"@, "type_amr"@, "checksum"@],
        SentenceType::Tll => seq!["target_number"@, "target_latitude"@, "north_or_south"@, "target_longitude"@, "east_or_west"@, "target_name"@, "utc_of_data"@, "status"@, "reference_target"@],
        _ => Seq::empty(),
    }
}

fn talker_of_chars(a: char, b: char) -> (r: TalkerId)
    ensures
        r == talker_of(a, b),
{
    match (a, b) {
        ('A', 'I') => TalkerId::AiAlarmIndicator,
        ('A', 'P') => TalkerId::ApAutoPilot,
        ('B', 'D') => TalkerId::BdBeidouChina,
        ('C', 'D') => TalkerId::CdDsc,
        ('E', 'C') => TalkerId::EcEcdis,
        ('G', 'A') => TalkerId::GaGalileoPs,
        ('G', 'B') => TalkerId::GbBeidouChina,
        ('G', 'I') => TalkerId::GiNavicIrnssIndia,
        ('G', 'L') => TalkerId::GlGlonassIEIC611621,
        ('G', 'N') => TalkerId::GnMultipleSatelliteSystem,
        ('G', 'P') => TalkerId::GpGlobalPositioningSystemReceiver,
        ('G', 'Q') => TalkerId::GqQZSSRegionalGpsASJapan,
        ('H', 'C') => TalkerId::HcHeadingCompass,
        ('H', 'E') => TalkerId::HeGyroNorthSeeking,
        ('I', 'I') => TalkerId::IiIntegratedInstrumentation,
        ('I', 'N') => TalkerId::InIntegratedNavigation,
        ('L', 'C') => TalkerId::LcLorancReceiver,
        ('P', 'Q') => TalkerId::PqQuectelQuirk,
        ('Q', 'Z') => TalkerId::QzQzssRegionalGpsASJapan,
        ('R', 'A') => TalkerId::RaRadarARPA,
        ('S', 'D') => TalkerId::SdDepthSounder,
        ('S', 'T') => TalkerId::StSkytraq,
        ('T', 'I') => TalkerId::TiTurnIndicator,
        ('W', 'I') => TalkerId::WiWeatherInstrument,
        ('Y', 'X') => TalkerId::YxTransducer,
        _ => TalkerId::NotRecognized,
    }
}

fn sentence_of_chars(a: char, b: char, c: char) -> (r: SentenceType)
    ensures
        r == sentence_of(a, b, c),
{
    match (a, b, c) {
        ('H', 'D', 'T') => SentenceType::Hdt,
        ('V', 'D', 'M') => SentenceType::Vdm,
        ('V', 'D', 'O') => SentenceType::Vdo,
        ('G', 'G', 'A') => SentenceType::Gga,
        ('G', 'L', 'L') => SentenceType::Gll,
        ('R', 'M', 'C') => SentenceType::Rmc,
        ('Z', 'D', 'A') => SentenceType::Zda,
        ('D', 'P', 'T') => SentenceType::Dpt,
        ('V', 'H', 'W') => SentenceType::Vhw,
        ('T', 'T', 'M') => SentenceType::Ttm,
        ('T', 'L', 'L') => SentenceType::Tll,
        _ => SentenceType::NotRecognized,
    }
}

/// The field names of a sentence type that has a schema.
fn schema(t: SentenceType) -> (r: Vec<&'static str>)
    requires
        has_schema(t),
    ensures
        r@.len() == field_names(t).len(),
        forall|i: int| 0 <= i < r@.len() ==> (#[trigger] r@[i])@ == field_names(t)[i],
{
    let r = match t {
        SentenceType::Hdt => vec!["heading_degrees", "true_checksum"],
        SentenceType::Gga => vec!["utc_time", "latitude", "north_or_south", "longitude", "east_or_west", "gps_quality", "number_of_satellites", "horizontal_dilution_precision", "antenna_altitude", "antenna_altitude_units", "geoidal_separation", "geoidal_separation_units", "differential_gps_data_age", "differential_reference_station_id", "checksum"],
        SentenceType::Gll => vec!["latitude", "north_or_south", "longitude", "east_or_west", "utc", "status_a", "faa_mode_indicator", "checksum"],
        SentenceType::Rmc => vec!["utc", "status", "latitude", "north_or_south", "longitude", "east_or_west", "speed_over_ground", "track_made_good", "date", "magnetic_variation", "east_or_west_magnetic", "faa_mode_indicator", "nav_status", "checksum"],
        SentenceType::Zda => vec!["utc_time", "day", "month", "year", "local_zone_description", "local_zone_minutes_description", "checksum"],
        SentenceType::Dpt => vec!["water_depth", "transducer_offset", "max_range_scale_in_use", "checksum"],
        SentenceType::Vhw => vec!["heading_degrees_true", "t_true", "heading_degrees_magnetic", "m_magnetic", "vessel_speed_knots", "n_knots", "vessel_speed_kmh", "k_kilometers", "checksum"],
        SentenceType::Ttm => vec!["target_number", "target_distance", "bearing_from_own_ship", "true_or_relative", "target_speed", "target_course", "true_or_relative_2", "distance_from_closest_poa", "time_until_closest_poa", "speed_distance_units", "target_name", "target_status", "reference_target", "utc_of_data", "type_amr", "checksum"],
        SentenceType::Tll => vec!["target_number", "target_latitude", "north_or_south", "target_longitude", "east_or_west", "target_name", "utc_of_data", "status", "reference_target"],
        _ => Vec::new(),
    };
    r
}

/// One field of a sentence: its schema name and its trimmed token.
#[derive(Debug)]
pub struct Field {
    pub name: String,
    pub value: String,
}

/// Why a text is not a sentence that the parser extracts.
#[derive(Clone, Copy, Debug, PartialEq, Eq, Structural)]
pub enum ParseError {
    /// Characters 1 and 2 are not a known talker code.
    UnknownTalker,
    /// Characters 3 to 5 are not a sentence type with a field schema.
    UnsupportedType,
    /// Fewer tokens follow the header than the schema has fields.
    SchemaMismatch,
}

/// The talker named by characters 1 and 2.
pub open spec fn talker_at(text: Seq<char>) -> TalkerId {
    if text.len() > 2 {
        talker_of(text[1], text[2])
    } else {
        TalkerId::NotRecognized
    }
}

/// The sentence type named by characters 3 to 5.
pub open spec fn sentence_at(text: Seq<char>) -> SentenceType {
    if text.len() > 5 {
        sentence_of(text[3], text[4], text[5])
    } else {
        SentenceType::NotRecognized
    }
}

/// Why `text` does not parse, if it does not.
pub open spec fn parse_error(text: Seq<char>) -> Option<ParseError> {
    if talker_at(text) is NotRecognized {
        Some(ParseError::UnknownTalker)
    } else if !has_schema(sentence_at(text)) {
        Some(ParseError::UnsupportedType)
    } else if split_commas(text).len() < field_names(sentence_at(text)).len() + 1 {
        Some(ParseError::SchemaMismatch)
    } else {
        None
    }
}

/// Field `i` has the schema's name `i` and the trimmed token `i + 1` (token 0
/// is the header).
pub open spec fn fields_match(fields: Seq<Field>, text: Seq<char>) -> bool {
    let names = field_names(sentence_at(text));
    &&& fields.len() == names.len()
    &&& forall|i: int|
        0 <= i < fields.len() ==> (#[trigger] fields[i]).name@ == names[i] && fields[i].value@ == trim(
            split_commas(text)[i + 1],
        )
}

/// A parsed sentence.
#[derive(Debug)]
pub struct Nmea {
    pub talker_id: TalkerId,
    pub sentence_type: SentenceType,
    /// The fields, in the order of the sentence type's schema.
    pub sentence_fields: Vec<Field>,
}

/// `m` is what parsing `text` gives.
pub open spec fn message_of(m: Nmea, text: Seq<char>) -> bool {
    &&& m.talker_id == talker_at(text)
    &&& m.sentence_type == sentence_at(text)
    &&& fields_match(m.sentence_fields@, text)
}

impl Nmea {
    /// An empty message: no talker, no type, no fields.
    pub fn new() -> (r: Self)
        ensures
            r.talker_id is NotRecognized,
            r.sentence_type is NotRecognized,
            r.sentence_fields@.len() == 0,
    {
        Nmea {
            talker_id: TalkerId::NotRecognized,
            sentence_type: SentenceType::NotRecognized,
            sentence_fields: Vec::new(),
        }
    }

    /// The two-letter code of the talker; empty when there is none.
    pub fn str_talker_id(&self) -> (r: &'static str)
        ensures
            r@ == talker_code(self.talker_id),
    {
        match self.talker_id {
            TalkerId::AiAlarmIndicator => {
                proof {
                    reveal_strlit("AI");
                }
                "AI"
            },
            TalkerId::ApAutoPilot => {
                proof {
                    reveal_strlit("AP");
                }
                "AP"
            },
            TalkerId::BdBeidouChina => {
                proof {
                    reveal_strlit("BD");
                }
                "BD"
            },
            TalkerId::CdDsc => {
                proof {
                    reveal_strlit("CD");
                }
                "CD"
            },
            TalkerId::EcEcdis => {
                proof {
                    reveal_strlit("EC");
                }
                "EC"
            },
            TalkerId::GaGalileoPs => {
                proof {
                    reveal_strlit("GA");
                }
                "GA"
            },
            TalkerId::GbBeidouChina => {
                proof {
                    reveal_strlit("GB");
                }
                "GB"
            },
            TalkerId::GiNavicIrnssIndia => {
                proof {
                    reveal_strlit("GI");
                }
                "GI"
            },
            TalkerId::GlGlonassIEIC611621 => {
                proof {
                    reveal_strlit("GL");
                }
                "GL"
            },
            TalkerId::GnMultipleSatelliteSystem => {
                proof {
                    reveal_strlit("GN");
                }
                "GN"
            },
            TalkerId::GpGlobalPositioningSystemReceiver => {
                proof {
                    reveal_strlit("GP");
                }
                "GP"
            },
            TalkerId::GqQZSSRegionalGpsASJapan => {
                proof {
                    reveal_strlit("GQ");
                }
                "GQ"
            },
            TalkerId::HcHeadingCompass => {
                proof {
                    reveal_strlit("HC");
                }
                "HC"
            },
            TalkerId::HeGyroNorthSeeking => {
                proof {
                    reveal_strlit("HE");
                }
                "HE"
            },
            TalkerId::IiIntegratedInstrumentation => {
                proof {
                    reveal_strlit("II");
                }
                "II"
            },
            TalkerId::InIntegratedNavigation => {
                proof {
                    reveal_strlit("IN");
                }
                "IN"
            },
            TalkerId::LcLorancReceiver => {
                proof {
                    reveal_strlit("LC");
                }
                "LC"
            },
            TalkerId::PqQuectelQuirk => {
                proof {
                    reveal_strlit("PQ");
                }
                "PQ"
            },
            TalkerId::QzQzssRegionalGpsASJapan => {
                proof {
                    reveal_strlit("QZ");
                }
                "QZ"
            },
            TalkerId::RaRadarARPA => {
                proof {
                    reveal_strlit("RA");
                }
                "RA"
            },
            TalkerId::SdDepthSounder => {
                proof {
                    reveal_strlit("SD");
                }
                "SD"
            },
            TalkerId::StSkytraq => {
                proof {
                    reveal_strlit("ST");
                }
                "ST"
            },
            TalkerId::TiTurnIndicator => {
                proof {
                    reveal_strlit("TI");
                }
                "TI"
            },
            TalkerId::WiWeatherInstrument => {
                proof {
                    reveal_strlit("WI");
                }
                "WI"
            },
            TalkerId::YxTransducer => {
                proof {
                    reveal_strlit("YX");
                }
                "YX"
            },
            TalkerId::NotRecognized => {
                proof {
                    reveal_strlit("");
                }
                ""
            },
        }
    }

    /// The three-letter code of the sentence type; empty when there is none.
    pub fn str_sentence_type(&self) -> (r: &'static str)
        ensures
            r@ == sentence_code(self.sentence_type),
    {
        match self.sentence_type {
            SentenceType::Hdt => {
                proof {
                    reveal_strlit("HDT");
                }
                "HDT"
            },
            SentenceType::Vdm => {
                proof {
                    reveal_strlit("VDM");
                }
                "VDM"
            },
            SentenceType::Vdo => {
                proof {
                    reveal_strlit("VDO");
                }
                "VDO"
            },
            SentenceType::Gga => {
                proof {
                    reveal_strlit("GGA");
                }
                "GGA"
            },
            SentenceType::Gll => {
                proof {
                    reveal_strlit("GLL");
                }
                "GLL"
            },
            SentenceType::Rmc => {
                proof {
                    reveal_strlit("RMC");
                }
                "RMC"
            },
            SentenceType::Zda => {
                proof {
                    reveal_strlit("ZDA");
                }
                "ZDA"
            },
            SentenceType::Dpt => {
                proof {
                    reveal_strlit("DPT");
                }
                "DPT"
            },
            SentenceType::Vhw => {
                proof {
                    reveal_strlit("VHW");
                }
                "VHW"
            },
            SentenceType::Ttm => {
                proof {
                    reveal_strlit("TTM");
                }
                "TTM"
            },
            SentenceType::Tll => {
                proof {
                    reveal_strlit("TLL");
                }
                "TLL"
            },
            SentenceType::NotRecognized => {
                proof {
                    reveal_strlit("");
                }
                ""
            },
        }
    }

    /// Parses `sentence`: `$`, a talker code, a type code, then comma-separated
    /// fields. On success the message holds the talker, the type and one field
    /// per schema name with its trimmed token; on failure it is left as it was.
    /// The sentence's own trailing checksum is kept as a field, never checked.
    pub fn parse(&mut self, sentence: String) -> (r: Result<(), ParseError>)
        ensures
            match r {
                Ok(()) => parse_error(sentence@) is None && message_of(*final(self), sentence@),
                Err(e) => parse_error(sentence@) == Some(e) && *final(self) == *old(self),
            },
    {
        let text = sentence.as_str();
        let cs = chars_of(text);
        let talker = if cs.len() > 2 {
            talker_of_chars(cs[1], cs[2])
        } else {
            TalkerId::NotRecognized
        };
        if talker == TalkerId::NotRecognized {
            return Err(ParseError::UnknownTalker);
        }
        let kind = if cs.len() > 5 {
            sentence_of_chars(cs[3], cs[4], cs[5])
        } else {
            SentenceType::NotRecognized
        };
        if kind == SentenceType::Vdm || kind == SentenceType::Vdo || kind
            == SentenceType::NotRecognized {
            return Err(ParseError::UnsupportedType);
        }
        let names = schema(kind);
        let spans = token_spans(&cs);
        if spans.len() <= names.len() {
            return Err(ParseError::SchemaMismatch);
        }
        let ghost tokens = split_commas(sentence@);
        let mut fields: Vec<Field> = Vec::new();
        for i in 0..names.len()
            invariant
                cs@ == sentence@,
                text@ == sentence@,
                tokens == split_commas(sentence@),
                names@.len() == field_names(kind).len(),
                forall|j: int| 0 <= j < names@.len() ==> (#[trigger] names@[j])@ == field_names(kind)[j],
                spans@.len() == tokens.len(),
                spans@.len() > names@.len(),
                forall|j: int| 0 <= j < spans@.len() ==> (#[trigger] spans@[j]).0 <= spans@[j].1 <= cs@.len(),
                forall|j: int|
                    0 <= j < spans@.len() ==> #[trigger] tokens[j] == cs@.subrange(
                        spans@[j].0 as int,
                        spans@[j].1 as int,
                    ),
                fields@.len() == i,
                forall|j: int|
                    0 <= j < i ==> (#[trigger] fields@[j]).name@ == field_names(kind)[j]
                        && fields@[j].value@ == trim(tokens[j + 1]),
        {
            let (a, b) = trim_span(&cs, spans[i + 1].0, spans[i + 1].1);
            let value = text.substring_char(a, b).to_string();
            let name = names[i].to_string();
            fields.push(Field { name, value });
        }
        self.talker_id = talker;
        self.sentence_type = kind;
        self.sentence_fields = fields;
        Ok(())
    }

    /// The prefix that policies name: `$`, the talker code, the type code.
    pub fn prefix(&self) -> (r: String)
        ensures
            r@ == seq!['$'] + talker_code(self.talker_id) + sentence_code(self.sentence_type),
    {
        proof {
            reveal_strlit("$");
        }
        let mut p = String::from_str("$");
        p.append(self.str_talker_id());
        p.append(self.str_sentence_type());
        p
    }
}

/// The values of the fields, in order.
pub open spec fn field_values(fields: Seq<Field>) -> Seq<Seq<char>> {
    fields.map_values(|f: Field| f.value@)
}

/// Parsing reproduces the tokens: when a sentence has exactly as many tokens
/// as its schema needs and none of them has white space at its ends, the
/// header token followed by the field values in schema order, joined with
/// commas, is the sentence itself.
pub proof fn lemma_fields_rejoin(text: Seq<char>, m: Nmea)
    requires
        parse_error(text) is None,
        message_of(m, text),
        split_commas(text).len() == field_names(sentence_at(text)).len() + 1,
        forall|i: int|
            0 < i < split_commas(text).len() ==> trim(#[trigger] split_commas(text)[i])
                == split_commas(text)[i],
    ensures
        join_commas(seq![split_commas(text)[0]] + field_values(m.sentence_fields@)) == text,
{
    let tokens = split_commas(text);
    let joined = seq![tokens[0]] + field_values(m.sentence_fields@);
    assert forall|i: int| 0 <= i < tokens.len() implies joined[i] == tokens[i] by {
        if i > 0 {
            assert(m.sentence_fields@[i - 1].value@ == trim(tokens[i]));
        }
    }
    assert(joined =~= tokens);
    lemma_join_split(text);
}

/// Every listed talker code names its own talker.
pub proof fn lemma_talker_code_round_trip(t: TalkerId)
    requires
        !(t is NotRecognized),
    ensures
        talker_code(t).len() == 2,
        talker_of(talker_code(t)[0], talker_code(t)[1]) == t,
{
}

/// A pair of characters that names a talker is that talker's code.
pub proof fn lemma_talker_of_listed(a: char, b: char)
    requires
        !(talker_of(a, b) is NotRecognized),
    ensures
        talker_code(talker_of(a, b)) == seq![a, b],
{
    assert(talker_code(talker_of(a, b)) =~= seq![a, b]);
}

/// A sentence whose characters 1 and 2 are a listed code parses to that
/// talker or fails for another reason than the talker; any other pair fails
/// as an unknown talker.
pub proof fn lemma_talker_decides(text: Seq<char>)
    requires
        text.len() > 2,
    ensures
        (exists|t: TalkerId| !(t is NotRecognized) && talker_code(t) == seq![text[1], text[2]])
            <==> !(talker_of(text[1], text[2]) is NotRecognized),
        talker_of(text[1], text[2]) is NotRecognized ==> parse_error(text) == Some(
            ParseError::UnknownTalker,
        ),
        !(talker_of(text[1], text[2]) is NotRecognized) ==> parse_error(text) != Some(
            ParseError::UnknownTalker,
        ),
{
    if !(talker_of(text[1], text[2]) is NotRecognized) {
        lemma_talker_of_listed(text[1], text[2]);
    }
    if exists|t: TalkerId| !(t is NotRecognized) && talker_code(t) == seq![text[1], text[2]] {
        let t = choose|t: TalkerId| !(t is NotRecognized) && talker_code(t) == seq![text[1], text[2]];
        lemma_talker_code_round_trip(t);
    }
}

/// The field names of every schema are pairwise distinct, so a parsed
/// message never holds two fields under one name.
pub proof fn lemma_field_names_distinct(t: SentenceType)
    ensures
        forall|i: int, j: int|
            0 <= i < j < field_names(t).len() ==> (#[trigger] field_names(t)[i]) != (#[trigger] field_names(
                t,
            )[j]),
{
    match t {
        SentenceType::Hdt => lemma_hdt_names_distinct(),
        SentenceType::Gga => lemma_gga_names_distinct(),
        SentenceType::Gll => lemma_gll_names_distinct(),
        SentenceType::Rmc => lemma_rmc_names_distinct(),
        SentenceType::Zda => lemma_zda_names_distinct(),
        SentenceType::Dpt => lemma_dpt_names_distinct(),
        SentenceType::Vhw => lemma_vhw_names_distinct(),
        SentenceType::Ttm => lemma_ttm_names_distinct(),
        SentenceType::Tll => lemma_tll_names_distinct(),
        _ => {},
    }
}

proof fn lemma_hdt_names_distinct()
    ensures
        forall|i: int, j: int|
            0 <= i < j < field_names(SentenceType::Hdt).len() ==> (#[trigger] field_names(
                SentenceType::Hdt,
            )[i]) != (#[trigger] field_names(SentenceType::Hdt)[j]),
{
    reveal_strlit("heading_degrees");
    reveal_strlit("true_checksum");
    let names = field_names(SentenceType::Hdt);
    assert forall|i: int, j: int| 0 <= i < j < names.len() implies names[i] != names[j] by {
        if i == 0 && j == 1 {
            assert(names[0].len() != names[1].len());
        }
    }
}

proof fn lemma_gga_names_distinct()
    ensures
        forall|i: int, j: int|
            0 <= i < j < field_names(SentenceType::Gga).len() ==> (#[trigger] field_names(
                SentenceType::Gga,
            )[i]) != (#[trigger] field_names(SentenceType::Gga)[j]),
{
    reveal_strlit("antenna_altitude");
    reveal_strlit("antenna_altitude_units");
    reveal_strlit("checksum");
    reveal_strlit("differential_gps_data_age");
    reveal_strlit("differential_reference_station_id");
    reveal_strlit("east_or_west");
    reveal_strlit("geoidal_separation");
    reveal_strlit("geoidal_separation_units");
    reveal_strlit("gps_quality");
    reveal_strlit("horizontal_dilution_precision");
    reveal_strlit("latitude");
    reveal_strlit("longitude");
    reveal_strlit("north_or_south");
    reveal_strlit("number_of_satellites");
    reveal_strlit("utc_time");
    let names = field_names(SentenceType::Gga);
    assert forall|i: int, j: int| 0 <= i < j < names.len() implies names[i] != names[j] by {
        if i == 0 && j == 1 {
            assert(names[0][0] != names[1][0]);
        } else if i == 0 && j == 2 {
            assert(names[0].len() != names[2].len());
        } else if i == 0 && j == 3 {
            assert(names[0].len() != names[3].len());
        } else if i == 0 && j == 4 {
            assert(names[0].len() != names[4].len());
        } else if i == 0 && j == 5 {
            assert(names[0].len() != names[5].len());
        } else if i == 0 && j == 6 {
            assert(names[0].len() != names[6].len());
        } else if i == 0 && j == 7 {
            assert(names[0].len() != names[7].len());
        } else if i == 0 && j == 8 {
            assert(names[0].len() != names[8].len());
        } else if i == 0 && j == 9 {
            assert(names[0].len() != names[9].len());
        } else if i == 0 && j == 10 {
            assert(names[0].len() != names[10].len());
        } else if i == 0 && j == 11 {
            assert(names[0].len() != names[11].len());
        } else if i == 0 && j == 12 {
            assert(names[0].len() != names[12].len());
        } else if i == 0 && j == 13 {
            assert(names[0].len() != names[13].len());
        } else if i == 0 && j == 14 {
            assert(names[0][0] != names[14][0]);
        } else if i == 1 && j == 2 {
            assert(names[1].len() != names[2].len());
        } else if i == 1 && j == 3 {
            assert(names[1].len() != names[3].len());
        } else if i == 1 && j == 4 {
            assert(names[1].len() != names[4].len());
        } else if i == 1 && j == 5 {
            assert(names[1].len() != names[5].len());
        } else if i == 1 && j == 6 {
            assert(names[1].len() != names[6].len());
        } else if i == 1 && j == 7 {
            assert(names[1].len() != names[7].len());
        } else if i == 1 && j == 8 {
            assert(names[1].len() != names[8].len());
        } else if i == 1 && j == 9 {
            assert(names[1].len() != names[9].len());
        } else if i == 1 && j == 10 {
            assert(names[1].len() != names[10].len());
        } else if i == 1 && j == 11 {
            assert(names[1].len() != names[11].len());
        } else if i == 1 && j == 12 {
            assert(names[1].len() != names[12].len());
        } else if i == 1 && j == 13 {
            assert(names[1].len() != names[13].len());
        } else if i == 1 && j == 14 {
            assert(names[1][0] != names[14][0]);
        } else if i == 2 && j == 3 {
            assert(names[2].len() != names[3].len());
        } else if i == 2 && j == 4 {
            assert(names[2].len() != names[4].len());
        } else if i == 2 && j == 5 {
            assert(names[2].len() != names[5].len());
        } else if i == 2 && j == 6 {
            assert(names[2].len() != names[6].len());
        } else if i == 2 && j == 7 {
            assert(names[2].len() != names[7].len());
        } else if i == 2 && j == 8 {
            assert(names[2].len() != names[8].len());
        } else if i == 2 && j == 9 {
            assert(names[2].len() != names[9].len());
        } else if i == 2 && j == 10 {
            assert(names[2].len() != names[10].len());
        } else if i == 2 && j == 11 {
            assert(names[2].len() != names[11].len());
        } else if i == 2 && j == 12 {
            assert(names[2].len() != names[12].len());
        } else if i == 2 && j == 13 {
            assert(names[2].len() != names[13].len());
        } else if i == 2 && j == 14 {
            assert(names[2].len() != names[14].len());
        } else if i == 3 && j == 4 {
            assert(names[3].len() != names[4].len());
        } else if i == 3 && j == 5 {
            assert(names[3].len() != names[5].len());
        } else if i == 3 && j == 6 {
            assert(names[3].len() != names[6].len());
        } else if i == 3 && j == 7 {
            assert(names[3].len() != names[7].len());
        } else if i == 3 && j == 8 {
            assert(names[3].len() != names[8].len());
        } else if i == 3 && j == 9 {
            assert(names[3].len() != names[9].len());
        } else if i == 3 && j == 10 {
            assert(names[3].len() != names[10].len());
        } else if i == 3 && j == 11 {
            assert(names[3].len() != names[11].len());
        } else if i == 3 && j == 12 {
            assert(names[3].len() != names[12].len());
        } else if i == 3 && j == 13 {
            assert(names[3].len() != names[13].len());
        } else if i == 3 && j == 14 {
            assert(names[3].len() != names[14].len());
        } else if i == 4 && j == 5 {
            assert(names[4].len() != names[5].len());
        } else if i == 4 && j == 6 {
            assert(names[4].len() != names[6].len());
        } else if i == 4 && j == 7 {
            assert(names[4].len() != names[7].len());
        } else if i == 4 && j == 8 {
            assert(names[4].len() != names[8].len());
        } else if i == 4 && j == 9 {
            assert(names[4].len() != names[9].len());
        } else if i == 4 && j == 10 {
            assert(names[4].len() != names[10].len());
        } else if i == 4 && j == 11 {
            assert(names[4].len() != names[11].len());
        } else if i == 4 && j == 12 {
            assert(names[4].len() != names[12].len());
        } else if i == 4 && j == 13 {
            assert(names[4].len() != names[13].len());
        } else if i == 4 && j == 14 {
            assert(names[4].len() != names[14].len());
        } else if i == 5 && j == 6 {
            assert(names[5].len() != names[6].len());
        } else if i == 5 && j == 7 {
            assert(names[5].len() != names[7].len());
        } else if i == 5 && j == 8 {
            assert(names[5].len() != names[8].len());
        } else if i == 5 && j == 9 {
            assert(names[5].len() != names[9].len());
        } else if i == 5 && j == 10 {
            assert(names[5].len() != names[10].len());
        } else if i == 5 && j == 11 {
            assert(names[5].len() != names[11].len());
        } else if i == 5 && j == 12 {
            assert(names[5].len() != names[12].len());
        } else if i == 5 && j == 13 {
            assert(names[5].len() != names[13].len());
        } else if i == 5 && j == 14 {
            assert(names[5].len() != names[14].len());
        } else if i == 6 && j == 7 {
            assert(names[6].len() != names[7].len());
        } else if i == 6 && j == 8 {
            assert(names[6].len() != names[8].len());
        } else if i == 6 && j == 9 {
            assert(names[6].len() != names[9].len());
        } else if i == 6 && j == 10 {
            assert(names[6].len() != names[10].len());
        } else if i == 6 && j == 11 {
            assert(names[6].len() != names[11].len());
        } else if i == 6 && j == 12 {
            assert(names[6].len() != names[12].len());
        } else if i == 6 && j == 13 {
            assert(names[6].len() != names[13].len());
        } else if i == 6 && j == 14 {
            assert(names[6].len() != names[14].len());
        } else if i == 7 && j == 8 {
            assert(names[7].len() != names[8].len());
        } else if i == 7 && j == 9 {
            assert(names[7].len() != names[9].len());
        } else if i == 7 && j == 10 {
            assert(names[7].len() != names[10].len());
        } else if i == 7 && j == 11 {
            assert(names[7].len() != names[11].len());
        } else if i == 7 && j == 12 {
            assert(names[7].len() != names[12].len());
        } else if i == 7 && j == 13 {
            assert(names[7].len() != names[13].len());
        } else if i == 7 && j == 14 {
            assert(names[7].len() != names[14].len());
        } else if i == 8 && j == 9 {
            assert(names[8].len() != names[9].len());
        } else if i == 8 && j == 10 {
            assert(names[8].len() != names[10].len());
        } else if i == 8 && j == 11 {
            assert(names[8].len() != names[11].len());
        } else if i == 8 && j == 12 {
            assert(names[8].len() != names[12].len());
        } else if i == 8 && j == 13 {
            assert(names[8].len() != names[13].len());
        } else if i == 8 && j == 14 {
            assert(names[8].len() != names[14].len());
        } else if i == 9 && j == 10 {
            assert(names[9].len() != names[10].len());
        } else if i == 9 && j == 11 {
            assert(names[9].len() != names[11].len());
        } else if i == 9 && j == 12 {
            assert(names[9].len() != names[12].len());
        } else if i == 9 && j == 13 {
            assert(names[9].len() != names[13].len());
        } else if i == 9 && j == 14 {
            assert(names[9].len() != names[14].len());
        } else if i == 10 && j == 11 {
            assert(names[10].len() != names[11].len());
        } else if i == 10 && j == 12 {
            assert(names[10].len() != names[12].len());
        } else if i == 10 && j == 13 {
            assert(names[10].len() != names[13].len());
        } else if i == 10 && j == 14 {
            assert(names[10].len() != names[14].len());
        } else if i == 11 && j == 12 {
            assert(names[11].len() != names[12].len());
        } else if i == 11 && j == 13 {
            assert(names[11].len() != names[13].len());
        } else if i == 11 && j == 14 {
            assert(names[11].len() != names[14].len());
        } else if i == 12 && j == 13 {
            assert(names[12].len() != names[13].len());
        } else if i == 12 && j == 14 {
            assert(names[12].len() != names[14].len());
        } else if i == 13 && j == 14 {
            assert(names[13].len() != names[14].len());
        }
    }
}

proof fn lemma_gll_names_distinct()
    ensures
        forall|i: int, j: int|
            0 <= i < j < field_names(SentenceType::Gll).len() ==> (#[trigger] field_names(
                SentenceType::Gll,
            )[i]) != (#[trigger] field_names(SentenceType::Gll)[j]),
{
    reveal_strlit("checksum");
    reveal_strlit("east_or_west");
    reveal_strlit("faa_mode_indicator");
    reveal_strlit("latitude");
    reveal_strlit("longitude");
    reveal_strlit("north_or_south");
    reveal_strlit("status_a");
    reveal_strlit("utc");
    let names = field_names(SentenceType::Gll);
    assert forall|i: int, j: int| 0 <= i < j < names.len() implies names[i] != names[j] by {
        if i == 0 && j == 1 {
            assert(names[0].len() != names[1].len());
        } else if i == 0 && j == 2 {
            assert(names[0].len() != names[2].len());
        } else if i == 0 && j == 3 {
            assert(names[0].len() != names[3].len());
        } else if i == 0 && j == 4 {
            assert(names[0].len() != names[4].len());
        } else if i == 0 && j == 5 {
            assert(names[0][0] != names[5][0]);
        } else if i == 0 && j == 6 {
            assert(names[0].len() != names[6].len());
        } else if i == 0 && j == 7 {
            assert(names[0][0] != names[7][0]);
        } else if i == 1 && j == 2 {
            assert(names[1].len() != names[2].len());
        } else if i == 1 && j == 3 {
            assert(names[1].len() != names[3].len());
        } else if i == 1 && j == 4 {
            assert(names[1].len() != names[4].len());
        } else if i == 1 && j == 5 {
            assert(names[1].len() != names[5].len());
        } else if i == 1 && j == 6 {
            assert(names[1].len() != names[6].len());
        } else if i == 1 && j == 7 {
            assert(names[1].len() != names[7].len());
        } else if i == 2 && j == 3 {
            assert(names[2].len() != names[3].len());
        } else if i == 2 && j == 4 {
            assert(names[2].len() != names[4].len());
        } else if i == 2 && j == 5 {
            assert(names[2].len() != names[5].len());
        } else if i == 2 && j == 6 {
            assert(names[2].len() != names[6].len());
        } else if i == 2 && j == 7 {
            assert(names[2].len() != names[7].len());
        } else if i == 3 && j == 4 {
            assert(names[3].len() != names[4].len());
        } else if i == 3 && j == 5 {
            assert(names[3].len() != names[5].len());
        } else if i == 3 && j == 6 {
            assert(names[3].len() != names[6].len());
        } else if i == 3 && j == 7 {
            assert(names[3].len() != names[7].len());
        } else if i == 4 && j == 5 {
            assert(names[4].len() != names[5].len());
        } else if i == 4 && j == 6 {
            assert(names[4].len() != names[6].len());
        } else if i == 4 && j == 7 {
            assert(names[4].len() != names[7].len());
        } else if i == 5 && j == 6 {
            assert(names[5].len() != names[6].len());
        } else if i == 5 && j == 7 {
            assert(names[5][0] != names[7][0]);
        } else if i == 6 && j == 7 {
            assert(names[6].len() != names[7].len());
        }
    }
}

proof fn lemma_rmc_names_distinct()
    ensures
        forall|i: int, j: int|
            0 <= i < j < field_names(SentenceType::Rmc).len() ==> (#[trigger] field_names(
                SentenceType::Rmc,
            )[i]) != (#[trigger] field_names(SentenceType::Rmc)[j]),
{
    reveal_strlit("checksum");
    reveal_strlit("date");
    reveal_strlit("east_or_west");
    reveal_strlit("east_or_west_magnetic");
    reveal_strlit("faa_mode_indicator");
    reveal_strlit("latitude");
    reveal_strlit("longitude");
    reveal_strlit("magnetic_variation");
    reveal_strlit("nav_status");
    reveal_strlit("north_or_south");
    reveal_strlit("speed_over_ground");
    reveal_strlit("status");
    reveal_strlit("track_made_good");
    reveal_strlit("utc");
    let names = field_names(SentenceType::Rmc);
    assert forall|i: int, j: int| 0 <= i < j < names.len() implies names[i] != names[j] by {
        if i == 0 && j == 1 {
            assert(names[0].len() != names[1].len());
        } else if i == 0 && j == 2 {
            assert(names[0].len() != names[2].len());
        } else if i == 0 && j == 3 {
            assert(names[0].len() != names[3].len());
        } else if i == 0 && j == 4 {
            assert(names[0].len() != names[4].len());
        } else if i == 0 && j == 5 {
            assert(names[0].len() != names[5].len());
        } else if i == 0 && j == 6 {
            assert(names[0].len() != names[6].len());
        } else if i == 0 && j == 7 {
            assert(names[0].len() != names[7].len());
        } else if i == 0 && j == 8 {
            assert(names[0].len() != names[8].len());
        } else if i == 0 && j == 9 {
            assert(names[0].len() != names[9].len());
        } else if i == 0 && j == 10 {
            assert(names[0].len() != names[10].len());
        } else if i == 0 && j == 11 {
            assert(names[0].len() != names[11].len());
        } else if i == 0 && j == 12 {
            assert(names[0].len() != names[12].len());
        } else if i == 0 && j == 13 {
            assert(names[0].len() != names[13].len());
        } else if i == 1 && j == 2 {
            assert(names[1].len() != names[2].len());
        } else if i == 1 && j == 3 {
            assert(names[1].len() != names[3].len());
        } else if i == 1 && j == 4 {
            assert(names[1].len() != names[4].len());
        } else if i == 1 && j == 5 {
            assert(names[1].len() != names[5].len());
        } else if i == 1 && j == 6 {
            assert(names[1].len() != names[6].len());
        } else if i == 1 && j == 7 {
            assert(names[1].len() != names[7].len());
        } else if i == 1 && j == 8 {
            assert(names[1].len() != names[8].len());
        } else if i == 1 && j == 9 {
            assert(names[1].len() != names[9].len());
        } else if i == 1 && j == 10 {
            assert(names[1].len() != names[10].len());
        } else if i == 1 && j == 11 {
            assert(names[1].len() != names[11].len());
        } else if i == 1 && j == 12 {
            assert(names[1].len() != names[12].len());
        } else if i == 1 && j == 13 {
            assert(names[1].len() != names[13].len());
        } else if i == 2 && j == 3 {
            assert(names[2].len() != names[3].len());
        } else if i == 2 && j == 4 {
            assert(names[2].len() != names[4].len());
        } else if i == 2 && j == 5 {
            assert(names[2].len() != names[5].len());
        } else if i == 2 && j == 6 {
            assert(names[2].len() != names[6].len());
        } else if i == 2 && j == 7 {
            assert(names[2].len() != names[7].len());
        } else if i == 2 && j == 8 {
            assert(names[2].len() != names[8].len());
        } else if i == 2 && j == 9 {
            assert(names[2].len() != names[9].len());
        } else if i == 2 && j == 10 {
            assert(names[2].len() != names[10].len());
        } else if i == 2 && j == 11 {
            assert(names[2].len() != names[11].len());
        } else if i == 2 && j == 12 {
            assert(names[2].len() != names[12].len());
        } else if i == 2 && j == 13 {
            assert(names[2][0] != names[13][0]);
        } else if i == 3 && j == 4 {
            assert(names[3].len() != names[4].len());
        } else if i == 3 && j == 5 {
            assert(names[3].len() != names[5].len());
        } else if i == 3 && j == 6 {
            assert(names[3].len() != names[6].len());
        } else if i == 3 && j == 7 {
            assert(names[3].len() != names[7].len());
        } else if i == 3 && j == 8 {
            assert(names[3].len() != names[8].len());
        } else if i == 3 && j == 9 {
            assert(names[3].len() != names[9].len());
        } else if i == 3 && j == 10 {
            assert(names[3].len() != names[10].len());
        } else if i == 3 && j == 11 {
            assert(names[3].len() != names[11].len());
        } else if i == 3 && j == 12 {
            assert(names[3].len() != names[12].len());
        } else if i == 3 && j == 13 {
            assert(names[3].len() != names[13].len());
        } else if i == 4 && j == 5 {
            assert(names[4].len() != names[5].len());
        } else if i == 4 && j == 6 {
            assert(names[4].len() != names[6].len());
        } else if i == 4 && j == 7 {
            assert(names[4].len() != names[7].len());
        } else if i == 4 && j == 8 {
            assert(names[4].len() != names[8].len());
        } else if i == 4 && j == 9 {
            assert(names[4].len() != names[9].len());
        } else if i == 4 && j == 10 {
            assert(names[4].len() != names[10].len());
        } else if i == 4 && j == 11 {
            assert(names[4].len() != names[11].len());
        } else if i == 4 && j == 12 {
            assert(names[4].len() != names[12].len());
        } else if i == 4 && j == 13 {
            assert(names[4].len() != names[13].len());
        } else if i == 5 && j == 6 {
            assert(names[5].len() != names[6].len());
        } else if i == 5 && j == 7 {
            assert(names[5].len() != names[7].len());
        } else if i == 5 && j == 8 {
            assert(names[5].len() != names[8].len());
        } else if i == 5 && j == 9 {
            assert(names[5].len() != names[9].len());
        } else if i == 5 && j == 10 {
            assert(names[5].len() != names[10].len());
        } else if i == 5 && j == 11 {
            assert(names[5].len() != names[11].len());
        } else if i == 5 && j == 12 {
            assert(names[5].len() != names[12].len());
        } else if i == 5 && j == 13 {
            assert(names[5].len() != names[13].len());
        } else if i == 6 && j == 7 {
            assert(names[6].len() != names[7].len());
        } else if i == 6 && j == 8 {
            assert(names[6].len() != names[8].len());
        } else if i == 6 && j == 9 {
            assert(names[6].len() != names[9].len());
        } else if i == 6 && j == 10 {
            assert(names[6].len() != names[10].len());
        } else if i == 6 && j == 11 {
            assert(names[6].len() != names[11].len());
        } else if i == 6 && j == 12 {
            assert(names[6].len() != names[12].len());
        } else if i == 6 && j == 13 {
            assert(names[6].len() != names[13].len());
        } else if i == 7 && j == 8 {
            assert(names[7].len() != names[8].len());
        } else if i == 7 && j == 9 {
            assert(names[7].len() != names[9].len());
        } else if i == 7 && j == 10 {
            assert(names[7].len() != names[10].len());
        } else if i == 7 && j == 11 {
            assert(names[7].len() != names[11].len());
        } else if i == 7 && j == 12 {
            assert(names[7].len() != names[12].len());
        } else if i == 7 && j == 13 {
            assert(names[7].len() != names[13].len());
        } else if i == 8 && j == 9 {
            assert(names[8].len() != names[9].len());
        } else if i == 8 && j == 10 {
            assert(names[8].len() != names[10].len());
        } else if i == 8 && j == 11 {
            assert(names[8].len() != names[11].len());
        } else if i == 8 && j == 12 {
            assert(names[8].len() != names[12].len());
        } else if i == 8 && j == 13 {
            assert(names[8].len() != names[13].len());
        } else if i == 9 && j == 10 {
            assert(names[9].len() != names[10].len());
        } else if i == 9 && j == 11 {
            assert(names[9][0] != names[11][0]);
        } else if i == 9 && j == 12 {
            assert(names[9].len() != names[12].len());
        } else if i == 9 && j == 13 {
            assert(names[9].len() != names[13].len());
        } else if i == 10 && j == 11 {
            assert(names[10].len() != names[11].len());
        } else if i == 10 && j == 12 {
            assert(names[10].len() != names[12].len());
        } else if i == 10 && j == 13 {
            assert(names[10].len() != names[13].len());
        } else if i == 11 && j == 12 {
            assert(names[11].len() != names[12].len());
        } else if i == 11 && j == 13 {
            assert(names[11].len() != names[13].len());
        } else if i == 12 && j == 13 {
            assert(names[12].len() != names[13].len());
        }
    }
}

proof fn lemma_zda_names_distinct()
    ensures
        forall|i: int, j: int|
            0 <= i < j < field_names(SentenceType::Zda).len() ==> (#[trigger] field_names(
                SentenceType::Zda,
            )[i]) != (#[trigger] field_names(SentenceType::Zda)[j]),
{
    reveal_strlit("checksum");
    reveal_strlit("day");
    reveal_strlit("local_zone_description");
    reveal_strlit("local_zone_minutes_description");
    reveal_strlit("month");
    reveal_strlit("utc_time");
    reveal_strlit("year");
    let names = field_names(SentenceType::Zda);
    assert forall|i: int, j: int| 0 <= i < j < names.len() implies names[i] != names[j] by {
        if i == 0 && j == 1 {
            assert(names[0].len() != names[1].len());
        } else if i == 0 && j == 2 {
            assert(names[0].len() != names[2].len());
        } else if i == 0 && j == 3 {
            assert(names[0].len() != names[3].len());
        } else if i == 0 && j == 4 {
            assert(names[0].len() != names[4].len());
        } else if i == 0 && j == 5 {
            assert(names[0].len() != names[5].len());
        } else if i == 0 && j == 6 {
            assert(names[0][0] != names[6][0]);
        } else if i == 1 && j == 2 {
            assert(names[1].len() != names[2].len());
        } else if i == 1 && j == 3 {
            assert(names[1].len() != names[3].len());
        } else if i == 1 && j == 4 {
            assert(names[1].len() != names[4].len());
        } else if i == 1 && j == 5 {
            assert(names[1].len() != names[5].len());
        } else if i == 1 && j == 6 {
            assert(names[1].len() != names[6].len());
        } else if i == 2 && j == 3 {
            assert(names[2].len() != names[3].len());
        } else if i == 2 && j == 4 {
            assert(names[2].len() != names[4].len());
        } else if i == 2 && j == 5 {
            assert(names[2].len() != names[5].len());
        } else if i == 2 && j == 6 {
            assert(names[2].len() != names[6].len());
        } else if i == 3 && j == 4 {
            assert(names[3].len() != names[4].len());
        } else if i == 3 && j == 5 {
            assert(names[3].len() != names[5].len());
        } else if i == 3 && j == 6 {
            assert(names[3].len() != names[6].len());
        } else if i == 4 && j == 5 {
            assert(names[4].len() != names[5].len());
        } else if i == 4 && j == 6 {
            assert(names[4].len() != names[6].len());
        } else if i == 5 && j == 6 {
            assert(names[5].len() != names[6].len());
        }
    }
}

proof fn lemma_dpt_names_distinct()
    ensures
        forall|i: int, j: int|
            0 <= i < j < field_names(SentenceType::Dpt).len() ==> (#[trigger] field_names(
                SentenceType::Dpt,
            )[i]) != (#[trigger] field_names(SentenceType::Dpt)[j]),
{
    reveal_strlit("checksum");
    reveal_strlit("max_range_scale_in_use");
    reveal_strlit("transducer_offset");
    reveal_strlit("water_depth");
    let names = field_names(SentenceType::Dpt);
    assert forall|i: int, j: int| 0 <= i < j < names.len() implies names[i] != names[j] by {
        if i == 0 && j == 1 {
            assert(names[0].len() != names[1].len());
        } else if i == 0 && j == 2 {
            assert(names[0].len() != names[2].len());
        } else if i == 0 && j == 3 {
            assert(names[0].len() != names[3].len());
        } else if i == 1 && j == 2 {
            assert(names[1].len() != names[2].len());
        } else if i == 1 && j == 3 {
            assert(names[1].len() != names[3].len());
        } else if i == 2 && j == 3 {
            assert(names[2].len() != names[3].len());
        }
    }
}

proof fn lemma_vhw_names_distinct()
    ensures
        forall|i: int, j: int|
            0 <= i < j < field_names(SentenceType::Vhw).len() ==> (#[trigger] field_names(
                SentenceType::Vhw,
            )[i]) != (#[trigger] field_names(SentenceType::Vhw)[j]),
{
    reveal_strlit("checksum");
    reveal_strlit("heading_degrees_magnetic");
    reveal_strlit("heading_degrees_true");
    reveal_strlit("k_kilometers");
    reveal_strlit("m_magnetic");
    reveal_strlit("n_knots");
    reveal_strlit("t_true");
    reveal_strlit("vessel_speed_kmh");
    reveal_strlit("vessel_speed_knots");
    let names = field_names(SentenceType::Vhw);
    assert forall|i: int, j: int| 0 <= i < j < names.len() implies names[i] != names[j] by {
        if i == 0 && j == 1 {
            assert(names[0].len() != names[1].len());
        } else if i == 0 && j == 2 {
            assert(names[0].len() != names[2].len());
        } else if i == 0 && j == 3 {
            assert(names[0].len() != names[3].len());
        } else if i == 0 && j == 4 {
            assert(names[0].len() != names[4].len());
        } else if i == 0 && j == 5 {
            assert(names[0].len() != names[5].len());
        } else if i == 0 && j == 6 {
            assert(names[0].len() != names[6].len());
        } else if i == 0 && j == 7 {
            assert(names[0].len() != names[7].len());
        } else if i == 0 && j == 8 {
            assert(names[0].len() != names[8].len());
        } else if i == 1 && j == 2 {
            assert(names[1].len() != names[2].len());
        } else if i == 1 && j == 3 {
            assert(names[1].len() != names[3].len());
        } else if i == 1 && j == 4 {
            assert(names[1].len() != names[4].len());
        } else if i == 1 && j == 5 {
            assert(names[1].len() != names[5].len());
        } else if i == 1 && j == 6 {
            assert(names[1].len() != names[6].len());
        } else if i == 1 && j == 7 {
            assert(names[1].len() != names[7].len());
        } else if i == 1 && j == 8 {
            assert(names[1].len() != names[8].len());
        } else if i == 2 && j == 3 {
            assert(names[2].len() != names[3].len());
        } else if i == 2 && j == 4 {
            assert(names[2].len() != names[4].len());
        } else if i == 2 && j == 5 {
            assert(names[2].len() != names[5].len());
        } else if i == 2 && j == 6 {
            assert(names[2].len() != names[6].len());
        } else if i == 2 && j == 7 {
            assert(names[2].len() != names[7].len());
        } else if i == 2 && j == 8 {
            assert(names[2].len() != names[8].len());
        } else if i == 3 && j == 4 {
            assert(names[3].len() != names[4].len());
        } else if i == 3 && j == 5 {
            assert(names[3].len() != names[5].len());
        } else if i == 3 && j == 6 {
            assert(names[3].len() != names[6].len());
        } else if i == 3 && j == 7 {
            assert(names[3].len() != names[7].len());
        } else if i == 3 && j == 8 {
            assert(names[3].len() != names[8].len());
        } else if i == 4 && j == 5 {
            assert(names[4].len() != names[5].len());
        } else if i == 4 && j == 6 {
            assert(names[4].len() != names[6].len());
        } else if i == 4 && j == 7 {
            assert(names[4].len() != names[7].len());
        } else if i == 4 && j == 8 {
            assert(names[4].len() != names[8].len());
        } else if i == 5 && j == 6 {
            assert(names[5].len() != names[6].len());
        } else if i == 5 && j == 7 {
            assert(names[5].len() != names[7].len());
        } else if i == 5 && j == 8 {
            assert(names[5].len() != names[8].len());
        } else if i == 6 && j == 7 {
            assert(names[6].len() != names[7].len());
        } else if i == 6 && j == 8 {
            assert(names[6].len() != names[8].len());
        } else if i == 7 && j == 8 {
            assert(names[7].len() != names[8].len());
        }
    }
}

proof fn lemma_ttm_names_distinct()
    ensures
        forall|i: int, j: int|
            0 <= i < j < field_names(SentenceType::Ttm).len() ==> (#[trigger] field_names(
                SentenceType::Ttm,
            )[i]) != (#[trigger] field_names(SentenceType::Ttm)[j]),
{
    reveal_strlit("bearing_from_own_ship");
    reveal_strlit("checksum");
    reveal_strlit("distance_from_closest_poa");
    reveal_strlit("reference_target");
    reveal_strlit("speed_distance_units");
    reveal_strlit("target_course");
    reveal_strlit("target_distance");
    reveal_strlit("target_name");
    reveal_strlit("target_number");
    reveal_strlit("target_speed");
    reveal_strlit("target_status");
    reveal_strlit("time_until_closest_poa");
    reveal_strlit("true_or_relative");
    reveal_strlit("true_or_relative_2");
    reveal_strlit("type_amr");
    reveal_strlit("utc_of_data");
    let names = field_names(SentenceType::Ttm);
    assert forall|i: int, j: int| 0 <= i < j < names.len() implies names[i] != names[j] by {
        if i == 0 && j == 1 {
            assert(names[0].len() != names[1].len());
        } else if i == 0 && j == 2 {
            assert(names[0].len() != names[2].len());
        } else if i == 0 && j == 3 {
            assert(names[0].len() != names[3].len());
        } else if i == 0 && j == 4 {
            assert(names[0].len() != names[4].len());
        } else if i == 0 && j == 5 {
            assert(names[0][7] != names[5][7]);
        } else if i == 0 && j == 6 {
            assert(names[0].len() != names[6].len());
        } else if i == 0 && j == 7 {
            assert(names[0].len() != names[7].len());
        } else if i == 0 && j == 8 {
            assert(names[0].len() != names[8].len());
        } else if i == 0 && j == 9 {
            assert(names[0].len() != names[9].len());
        } else if i == 0 && j == 10 {
            assert(names[0].len() != names[10].len());
        } else if i == 0 && j == 11 {
            assert(names[0][7] != names[11][7]);
        } else if i == 0 && j == 12 {
            assert(names[0].len() != names[12].len());
        } else if i == 0 && j == 13 {
            assert(names[0].len() != names[13].len());
        } else if i == 0 && j == 14 {
            assert(names[0].len() != names[14].len());
        } else if i == 0 && j == 15 {
            assert(names[0].len() != names[15].len());
        } else if i == 1 && j == 2 {
            assert(names[1].len() != names[2].len());
        } else if i == 1 && j == 3 {
            assert(names[1].len() != names[3].len());
        } else if i == 1 && j == 4 {
            assert(names[1].len() != names[4].len());
        } else if i == 1 && j == 5 {
            assert(names[1].len() != names[5].len());
        } else if i == 1 && j == 6 {
            assert(names[1].len() != names[6].len());
        } else if i == 1 && j == 7 {
            assert(names[1].len() != names[7].len());
        } else if i == 1 && j == 8 {
            assert(names[1].len() != names[8].len());
        } else if i == 1 && j == 9 {
            assert(names[1].len() != names[9].len());
        } else if i == 1 && j == 10 {
            assert(names[1].len() != names[10].len());
        } else if i == 1 && j == 11 {
            assert(names[1].len() != names[11].len());
        } else if i == 1 && j == 12 {
            assert(names[1].len() != names[12].len());
        } else if i == 1 && j == 13 {
            assert(names[1].len() != names[13].len());
        } else if i == 1 && j == 14 {
            assert(names[1].len() != names[14].len());
        } else if i == 1 && j == 15 {
            assert(names[1].len() != names[15].len());
        } else if i == 2 && j == 3 {
            assert(names[2].len() != names[3].len());
        } else if i == 2 && j == 4 {
            assert(names[2].len() != names[4].len());
        } else if i == 2 && j == 5 {
            assert(names[2].len() != names[5].len());
        } else if i == 2 && j == 6 {
            assert(names[2].len() != names[6].len());
        } else if i == 2 && j == 7 {
            assert(names[2].len() != names[7].len());
        } else if i == 2 && j == 8 {
            assert(names[2].len() != names[8].len());
        } else if i == 2 && j == 9 {
            assert(names[2].len() != names[9].len());
        } else if i == 2 && j == 10 {
            assert(names[2].len() != names[10].len());
        } else if i == 2 && j == 11 {
            assert(names[2].len() != names[11].len());
        } else if i == 2 && j == 12 {
            assert(names[2].len() != names[12].len());
        } else if i == 2 && j == 13 {
            assert(names[2].len() != names[13].len());
        } else if i == 2 && j == 14 {
            assert(names[2].len() != names[14].len());
        } else if i == 2 && j == 15 {
            assert(names[2].len() != names[15].len());
        } else if i == 3 && j == 4 {
            assert(names[3].len() != names[4].len());
        } else if i == 3 && j == 5 {
            assert(names[3].len() != names[5].len());
        } else if i == 3 && j == 6 {
            assert(names[3].len() != names[6].len());
        } else if i == 3 && j == 7 {
            assert(names[3].len() != names[7].len());
        } else if i == 3 && j == 8 {
            assert(names[3].len() != names[8].len());
        } else if i == 3 && j == 9 {
            assert(names[3].len() != names[9].len());
        } else if i == 3 && j == 10 {
            assert(names[3].len() != names[10].len());
        } else if i == 3 && j == 11 {
            assert(names[3].len() != names[11].len());
        } else if i == 3 && j == 12 {
            assert(names[3][0] != names[12][0]);
        } else if i == 3 && j == 13 {
            assert(names[3].len() != names[13].len());
        } else if i == 3 && j == 14 {
            assert(names[3].len() != names[14].len());
        } else if i == 3 && j == 15 {
            assert(names[3].len() != names[15].len());
        } else if i == 4 && j == 5 {
            assert(names[4].len() != names[5].len());
        } else if i == 4 && j == 6 {
            assert(names[4].len() != names[6].len());
        } else if i == 4 && j == 7 {
            assert(names[4].len() != names[7].len());
        } else if i == 4 && j == 8 {
            assert(names[4].len() != names[8].len());
        } else if i == 4 && j == 9 {
            assert(names[4].len() != names[9].len());
        } else if i == 4 && j == 10 {
            assert(names[4].len() != names[10].len());
        } else if i == 4 && j == 11 {
            assert(names[4].len() != names[11].len());
        } else if i == 4 && j == 12 {
            assert(names[4].len() != names[12].len());
        } else if i == 4 && j == 13 {
            assert(names[4].len() != names[13].len());
        } else if i == 4 && j == 14 {
            assert(names[4].len() != names[14].len());
        } else if i == 4 && j == 15 {
            assert(names[4].len() != names[15].len());
        } else if i == 5 && j == 6 {
            assert(names[5].len() != names[6].len());
        } else if i == 5 && j == 7 {
            assert(names[5].len() != names[7].len());
        } else if i == 5 && j == 8 {
            assert(names[5].len() != names[8].len());
        } else if i == 5 && j == 9 {
            assert(names[5].len() != names[9].len());
        } else if i == 5 && j == 10 {
            assert(names[5].len() != names[10].len());
        } else if i == 5 && j == 11 {
            assert(names[5][7] != names[11][7]);
        } else if i == 5 && j == 12 {
            assert(names[5].len() != names[12].len());
        } else if i == 5 && j == 13 {
            assert(names[5].len() != names[13].len());
        } else if i == 5 && j == 14 {
            assert(names[5].len() != names[14].len());
        } else if i == 5 && j == 15 {
            assert(names[5].len() != names[15].len());
        } else if i == 6 && j == 7 {
            assert(names[6].len() != names[7].len());
        } else if i == 6 && j == 8 {
            assert(names[6].len() != names[8].len());
        } else if i == 6 && j == 9 {
            assert(names[6].len() != names[9].len());
        } else if i == 6 && j == 10 {
            assert(names[6].len() != names[10].len());
        } else if i == 6 && j == 11 {
            assert(names[6].len() != names[11].len());
        } else if i == 6 && j == 12 {
            assert(names[6].len() != names[12].len());
        } else if i == 6 && j == 13 {
            assert(names[6].len() != names[13].len());
        } else if i == 6 && j == 14 {
            assert(names[6].len() != names[14].len());
        } else if i == 6 && j == 15 {
            assert(names[6].len() != names[15].len());
        } else if i == 7 && j == 8 {
            assert(names[7].len() != names[8].len());
        } else if i == 7 && j == 9 {
            assert(names[7].len() != names[9].len());
        } else if i == 7 && j == 10 {
            assert(names[7].len() != names[10].len());
        } else if i == 7 && j == 11 {
            assert(names[7].len() != names[11].len());
        } else if i == 7 && j == 12 {
            assert(names[7].len() != names[12].len());
        } else if i == 7 && j == 13 {
            assert(names[7].len() != names[13].len());
        } else if i == 7 && j == 14 {
            assert(names[7].len() != names[14].len());
        } else if i == 7 && j == 15 {
            assert(names[7].len() != names[15].len());
        } else if i == 8 && j == 9 {
            assert(names[8].len() != names[9].len());
        } else if i == 8 && j == 10 {
            assert(names[8].len() != names[10].len());
        } else if i == 8 && j == 11 {
            assert(names[8].len() != names[11].len());
        } else if i == 8 && j == 12 {
            assert(names[8].len() != names[12].len());
        } else if i == 8 && j == 13 {
            assert(names[8].len() != names[13].len());
        } else if i == 8 && j == 14 {
            assert(names[8].len() != names[14].len());
        } else if i == 8 && j == 15 {
            assert(names[8].len() != names[15].len());
        } else if i == 9 && j == 10 {
            assert(names[9].len() != names[10].len());
        } else if i == 9 && j == 11 {
            assert(names[9].len() != names[11].len());
        } else if i == 9 && j == 12 {
            assert(names[9].len() != names[12].len());
        } else if i == 9 && j == 13 {
            assert(names[9].len() != names[13].len());
        } else if i == 9 && j == 14 {
            assert(names[9].len() != names[14].len());
        } else if i == 9 && j == 15 {
            assert(names[9].len() != names[15].len());
        } else if i == 10 && j == 11 {
            assert(names[10].len() != names[11].len());
        } else if i == 10 && j == 12 {
            assert(names[10].len() != names[12].len());
        } else if i == 10 && j == 13 {
            assert(names[10][0] != names[13][0]);
        } else if i == 10 && j == 14 {
            assert(names[10].len() != names[14].len());
        } else if i == 10 && j == 15 {
            assert(names[10].len() != names[15].len());
        } else if i == 11 && j == 12 {
            assert(names[11].len() != names[12].len());
        } else if i == 11 && j == 13 {
            assert(names[11].len() != names[13].len());
        } else if i == 11 && j == 14 {
            assert(names[11].len() != names[14].len());
        } else if i == 11 && j == 15 {
            assert(names[11].len() != names[15].len());
        } else if i == 12 && j == 13 {
            assert(names[12].len() != names[13].len());
        } else if i == 12 && j == 14 {
            assert(names[12].len() != names[14].len());
        } else if i == 12 && j == 15 {
            assert(names[12].len() != names[15].len());
        } else if i == 13 && j == 14 {
            assert(names[13].len() != names[14].len());
        } else if i == 13 && j == 15 {
            assert(names[13].len() != names[15].len());
        } else if i == 14 && j == 15 {
            assert(names[14][0] != names[15][0]);
        }
    }
}

proof fn lemma_tll_names_distinct()
    ensures
        forall|i: int, j: int|
            0 <= i < j < field_names(SentenceType::Tll).len() ==> (#[trigger] field_names(
                SentenceType::Tll,
            )[i]) != (#[trigger] field_names(SentenceType::Tll)[j]),
{
    reveal_strlit("east_or_west");
    reveal_strlit("north_or_south");
    reveal_strlit("reference_target");
    reveal_strlit("status");
    reveal_strlit("target_latitude");
    reveal_strlit("target_longitude");
    reveal_strlit("target_name");
    reveal_strlit("target_number");
    reveal_strlit("utc_of_data");
    let names = field_names(SentenceType::Tll);
    assert forall|i: int, j: int| 0 <= i < j < names.len() implies names[i] != names[j] by {
        if i == 0 && j == 1 {
            assert(names[0].len() != names[1].len());
        } else if i == 0 && j == 2 {
            assert(names[0].len() != names[2].len());
        } else if i == 0 && j == 3 {
            assert(names[0].len() != names[3].len());
        } else if i == 0 && j == 4 {
            assert(names[0].len() != names[4].len());
        } else if i == 0 && j == 5 {
            assert(names[0].len() != names[5].len());
        } else if i == 0 && j == 6 {
            assert(names[0].len() != names[6].len());
        } else if i == 0 && j == 7 {
            assert(names[0].len() != names[7].len());
        } else if i == 0 && j == 8 {
            assert(names[0].len() != names[8].len());
        } else if i == 1 && j == 2 {
            assert(names[1].len() != names[2].len());
        } else if i == 1 && j == 3 {
            assert(names[1].len() != names[3].len());
        } else if i == 1 && j == 4 {
            assert(names[1].len() != names[4].len());
        } else if i == 1 && j == 5 {
            assert(names[1].len() != names[5].len());
        } else if i == 1 && j == 6 {
            assert(names[1].len() != names[6].len());
        } else if i == 1 && j == 7 {
            assert(names[1].len() != names[7].len());
        } else if i == 1 && j == 8 {
            assert(names[1].len() != names[8].len());
        } else if i == 2 && j == 3 {
            assert(names[2].len() != names[3].len());
        } else if i == 2 && j == 4 {
            assert(names[2].len() != names[4].len());
        } else if i == 2 && j == 5 {
            assert(names[2].len() != names[5].len());
        } else if i == 2 && j == 6 {
            assert(names[2].len() != names[6].len());
        } else if i == 2 && j == 7 {
            assert(names[2].len() != names[7].len());
        } else if i == 2 && j == 8 {
            assert(names[2].len() != names[8].len());
        } else if i == 3 && j == 4 {
            assert(names[3].len() != names[4].len());
        } else if i == 3 && j == 5 {
            assert(names[3].len() != names[5].len());
        } else if i == 3 && j == 6 {
            assert(names[3].len() != names[6].len());
        } else if i == 3 && j == 7 {
            assert(names[3].len() != names[7].len());
        } else if i == 3 && j == 8 {
            assert(names[3][0] != names[8][0]);
        } else if i == 4 && j == 5 {
            assert(names[4].len() != names[5].len());
        } else if i == 4 && j == 6 {
            assert(names[4].len() != names[6].len());
        } else if i == 4 && j == 7 {
            assert(names[4].len() != names[7].len());
        } else if i == 4 && j == 8 {
            assert(names[4].len() != names[8].len());
        } else if i == 5 && j == 6 {
            assert(names[5][0] != names[6][0]);
        } else if i == 5 && j == 7 {
            assert(names[5].len() != names[7].len());
        } else if i == 5 && j == 8 {
            assert(names[5].len() != names[8].len());
        } else if i == 6 && j == 7 {
            assert(names[6].len() != names[7].len());
        } else if i == 6 && j == 8 {
            assert(names[6].len() != names[8].len());
        } else if i == 7 && j == 8 {
            assert(names[7].len() != names[8].len());
        }
    }
}

} // verus!
