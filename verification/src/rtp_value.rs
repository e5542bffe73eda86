//! The `rtpmap` attribute value: an encoding name, an optional clock rate
//! and an optional channel count, separated by slashes, as in `VP8/9000`.

use vstd::prelude::*;
use crate::text::{lemma_views_of_index, parse_u32, parses_as_uint, split_seq, split_str, str_eq};

verus! {

/// A media encoding named by an `rtpmap` value.
#[derive(Clone, Copy, PartialEq, Eq, Debug)]
pub enum Codec {
    Vp8,
    Vp9,
    H264,
    H265,
    Av1,
    Opus,
}

/// The codec an encoding name stands for, if any; names are case-sensitive.
pub open spec fn codec_of(s: Seq<char>) -> Option<Codec> {
    if s == "VP8"@ {
        Some(Codec::Vp8)
    } else if s == "VP9"@ {
        Some(Codec::Vp9)
    } else if s == "H264"@ {
        Some(Codec::H264)
    } else if s == "H265"@ {
        Some(Codec::H265)
    } else if s == "AV1"@ {
        Some(Codec::Av1)
    } else if s == "opus"@ {
        Some(Codec::Opus)
    } else {
        None
    }
}

impl Codec {
    /// Parse an encoding name.
    pub fn parse(value: &str) -> (r: Option<Codec>)
        ensures
            r == codec_of(value@),
    {
        if str_eq(value, "VP8") {
            Some(Codec::Vp8)
        } else if str_eq(value, "VP9") {
            Some(Codec::Vp9)
        } else if str_eq(value, "H264") {
            Some(Codec::H264)
        } else if str_eq(value, "H265") {
            Some(Codec::H265)
        } else if str_eq(value, "AV1") {
            Some(Codec::Av1)
        } else if str_eq(value, "opus") {
            Some(Codec::Opus)
        } else {
            None
        }
    }
}

/// A parsed `rtpmap` value: codec, optional clock rate, optional channels.
#[derive(Clone, Copy, PartialEq, Eq, Debug)]
pub struct RtpValue {
    pub codec: Codec,
    pub frequency: Option<u32>,
    pub channels: Option<u32>,
}

/// The parse of an `rtpmap` value: the piece before the first slash names
/// the codec; the second and third pieces, where present, must be decimal
/// clock rate and channel count; pieces beyond the third are ignored.
pub open spec fn rtp_value_of(s: Seq<char>) -> Option<RtpValue> {
    let parts = split_seq(s, '/');
    match codec_of(parts[0]) {
        None => None,
        Some(codec) => if parts.len() == 1 {
            Some(RtpValue { codec, frequency: None, channels: None })
        } else if parses_as_uint(parts[1]) is None || parses_as_uint(parts[1]).unwrap()
            > u32::MAX {
            None
        } else {
            let f = parses_as_uint(parts[1]).unwrap() as u32;
            if parts.len() == 2 {
                Some(RtpValue { codec, frequency: Some(f), channels: None })
            } else if parses_as_uint(parts[2]) is None || parses_as_uint(parts[2]).unwrap()
                > u32::MAX {
                None
            } else {
                let c = parses_as_uint(parts[2]).unwrap() as u32;
                Some(RtpValue { codec, frequency: Some(f), channels: Some(c) })
            }
        },
    }
}

impl RtpValue {
    /// Parse an `rtpmap` value such as `VP8/9000` or `opus/48000/2`.
    pub fn parse(value: &str) -> (r: Option<RtpValue>)
        ensures
            r == rtp_value_of(value@),
    {
        let parts = split_str(value, '/');
        proof {
            lemma_views_of_index(parts@, 0);
        }
        let codec = match Codec::parse(parts[0].as_str()) {
            None => {
                return None;
            },
            Some(c) => c,
        };
        if parts.len() == 1 {
            return Some(RtpValue { codec, frequency: None, channels: None });
        }
        proof {
            lemma_views_of_index(parts@, 1);
        }
        let f = match parse_u32(parts[1].as_str()) {
            None => {
                return None;
            },
            Some(f) => f,
        };
        if parts.len() == 2 {
            return Some(RtpValue { codec, frequency: Some(f), channels: None });
        }
        proof {
            lemma_views_of_index(parts@, 2);
        }
        let c = match parse_u32(parts[2].as_str()) {
            None => {
                return None;
            },
            Some(c) => c,
        };
        Some(RtpValue { codec, frequency: Some(f), channels: Some(c) })
    }
}

} // verus!
