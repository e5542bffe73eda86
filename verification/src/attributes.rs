//! SDP attribute lines, parsed into a typed record. [`Attributes::handle`]
//! takes one `a=` line already stripped of its prefix, looks at the piece
//! before the first colon, and updates the matching field from the piece
//! between the first and second colon; lines with an unknown name are
//! accepted and ignored.

use vstd::prelude::*;
use std::collections::HashMap;
use crate::kind::{kind_of, Kind};
use crate::orient::{orient_of, Orient};
use crate::params::ParamMap;
use crate::rtp_value::{rtp_value_of, RtpValue};
use crate::text::{
    lemma_views_of_index, parse_u16, parse_u64, parse_u8, parses_as_uint, split_seq, split_str,
    str_eq, views_of,
};

verus! {

broadcast use vstd::std_specs::hash::group_hash_axioms;

/// Why an attribute line was rejected.
#[derive(Clone, Copy, PartialEq, Eq, Debug)]
pub enum AttrError {
    /// A known attribute name with no value piece after it.
    MissingValue,
    /// A numeric field that is not an unsigned decimal in range.
    InvalidNumber,
    /// An unknown orientation name.
    InvalidOrient,
    /// An unknown conference type name.
    InvalidKind,
    /// An `rtpmap` value that is not `payload SP encoding`.
    InvalidRtpmap,
    /// An `fmtp` value that is not `payload SP parameters`.
    InvalidFmtp,
    /// An `extmap` value that is not `key SP extension`.
    InvalidExtmap,
}

impl AttrError {
    /// A short description of the rejection.
    pub fn as_str(&self) -> (r: &'static str)
        ensures
            match self {
                AttrError::MissingValue => r@ == "missing attribute value"@,
                AttrError::InvalidNumber => r@ == "invalid number"@,
                AttrError::InvalidOrient => r@ == "invalid orient"@,
                AttrError::InvalidKind => r@ == "invalid type"@,
                AttrError::InvalidRtpmap => r@ == "invalid rtpmap"@,
                AttrError::InvalidFmtp => r@ == "invalid fmtp"@,
                AttrError::InvalidExtmap => r@ == "invalid extmap"@,
            },
    {
        match self {
            AttrError::MissingValue => "missing attribute value",
            AttrError::InvalidNumber => "invalid number",
            AttrError::InvalidOrient => "invalid orient",
            AttrError::InvalidKind => "invalid type",
            AttrError::InvalidRtpmap => "invalid rtpmap",
            AttrError::InvalidFmtp => "invalid fmtp",
            AttrError::InvalidExtmap => "invalid extmap",
        }
    }
}

/// The mathematical image of an [`Attributes`] record.
#[verifier::ext_equal]
pub struct AttrModel {
    pub ptime: Option<u64>,
    pub maxptime: Option<u64>,
    pub rtpmap: Map<u8, RtpValue>,
    pub fmtp: Map<u8, Map<Seq<char>, Seq<char>>>,
    pub orient: Option<Orient>,
    pub charset: Option<Seq<char>>,
    pub sdplang: Option<Seq<char>>,
    pub lang: Option<Seq<char>>,
    pub framerate: Option<u16>,
    pub quality: Option<u8>,
    pub kind: Option<Kind>,
    pub recvonly: bool,
    pub sendrecv: bool,
    pub sendonly: bool,
    pub inactive: bool,
    pub extmap: Map<u8, Seq<char>>,
}

impl AttrModel {
    /// The record before any line was handled.
    pub open spec fn init() -> AttrModel {
        AttrModel {
            ptime: None,
            maxptime: None,
            rtpmap: Map::empty(),
            fmtp: Map::empty(),
            orient: None,
            charset: None,
            sdplang: None,
            lang: None,
            framerate: None,
            quality: None,
            kind: None,
            recvonly: false,
            sendrecv: false,
            sendonly: false,
            inactive: false,
            extmap: Map::empty(),
        }
    }
}

/// The maps that a table of parameter maps stands for.
pub open spec fn fmtp_views(m: Map<u8, ParamMap>) -> Map<u8, Map<Seq<char>, Seq<char>>> {
    Map::new(|k: u8| m.dom().contains(k), |k: u8| m[k]@)
}

/// The character sequences that a table of strings stands for.
pub open spec fn extmap_views(m: Map<u8, String>) -> Map<u8, Seq<char>> {
    Map::new(|k: u8| m.dom().contains(k), |k: u8| m[k]@)
}

/// `fmtp_views` maps insertion and removal pointwise.
pub proof fn lemma_fmtp_views_insert(m: Map<u8, ParamMap>, k: u8, v: ParamMap)
    ensures
        fmtp_views(m.insert(k, v)) == fmtp_views(m).insert(k, v@),
        fmtp_views(m.remove(k)) == fmtp_views(m).remove(k),
        m.dom().contains(k) ==> fmtp_views(m)[k] == m[k]@,
        fmtp_views(m).dom() == m.dom(),
{
    assert(fmtp_views(m.insert(k, v)) =~= fmtp_views(m).insert(k, v@));
    assert(fmtp_views(m.remove(k)) =~= fmtp_views(m).remove(k));
    assert(fmtp_views(m).dom() =~= m.dom());
}

/// `extmap_views` maps insertion pointwise.
pub proof fn lemma_extmap_views_insert(m: Map<u8, String>, k: u8, v: String)
    ensures
        extmap_views(m.insert(k, v)) == extmap_views(m).insert(k, v@),
        extmap_views(m).dom() == m.dom(),
{
    assert(extmap_views(m.insert(k, v)) =~= extmap_views(m).insert(k, v@));
    assert(extmap_views(m).dom() =~= m.dom());
}

/// A typed record of the attribute lines seen so far.
#[derive(Debug)]
pub struct Attributes {
    /// Packet time in milliseconds, from `ptime`.
    pub ptime: Option<u64>,
    /// Maximum packet time in milliseconds, from `maxptime`.
    pub maxptime: Option<u64>,
    /// Payload number to encoding, from `rtpmap` lines.
    pub rtpmap: HashMap<u8, RtpValue>,
    /// Payload number to format parameters, from `fmtp` lines.
    pub fmtp: HashMap<u8, ParamMap>,
    /// Video orientation, from `orient`.
    pub orient: Option<Orient>,
    /// Character set of the session text, from `charset`.
    pub charset: Option<String>,
    /// Language of the session description, from `sdplang`.
    pub sdplang: Option<String>,
    /// Language capability, from `lang`.
    pub lang: Option<String>,
    /// Maximum video frame rate, from `framerate`.
    pub framerate: Option<u16>,
    /// Suggested encoding quality, from `quality`.
    pub quality: Option<u8>,
    /// Conference type, from `type`.
    pub kind: Option<Kind>,
    /// Receive-only mode.
    pub recvonly: bool,
    /// Send-and-receive mode.
    pub sendrecv: bool,
    /// Send-only mode.
    pub sendonly: bool,
    /// Inactive mode.
    pub inactive: bool,
    /// Extension number to extension name, from `extmap` lines.
    pub extmap: HashMap<u8, String>,
}

impl View for Attributes {
    type V = AttrModel;

    open spec fn view(&self) -> AttrModel {
        AttrModel {
            ptime: self.ptime,
            maxptime: self.maxptime,
            rtpmap: self.rtpmap@,
            fmtp: fmtp_views(self.fmtp@),
            orient: self.orient,
            charset: match self.charset {
                Some(s) => Some(s@),
                None => None,
            },
            sdplang: match self.sdplang {
                Some(s) => Some(s@),
                None => None,
            },
            lang: match self.lang {
                Some(s) => Some(s@),
                None => None,
            },
            framerate: self.framerate,
            quality: self.quality,
            kind: self.kind,
            recvonly: self.recvonly,
            sendrecv: self.sendrecv,
            sendonly: self.sendonly,
            inactive: self.inactive,
            extmap: extmap_views(self.extmap@),
        }
    }
}

impl Default for Attributes {
    /// The record before any line was handled.
    fn default() -> (r: Attributes)
        ensures
            r@ == AttrModel::init(),
    {
        let r = Attributes {
            ptime: None,
            maxptime: None,
            rtpmap: HashMap::new(),
            fmtp: HashMap::new(),
            orient: None,
            charset: None,
            sdplang: None,
            lang: None,
            framerate: None,
            quality: None,
            kind: None,
            recvonly: false,
            sendrecv: false,
            sendonly: false,
            inactive: false,
            extmap: HashMap::new(),
        };
        proof {
            assert(fmtp_views(r.fmtp@) =~= Map::<u8, Map<Seq<char>, Seq<char>>>::empty());
            assert(extmap_views(r.extmap@) =~= Map::<u8, Seq<char>>::empty());
            assert(r@ =~= AttrModel::init());
        }
        r
    }
}

/// What a `ptime` value does to the record.
pub open spec fn ptime_update(pre: AttrModel, v: Seq<char>) -> Option<AttrModel> {
    match parses_as_uint(v) {
        Some(x) => if x <= u64::MAX {
            Some(AttrModel { ptime: Some(x as u64), ..pre })
        } else {
            None
        },
        None => None,
    }
}

/// What a `maxptime` value does to the record.
pub open spec fn maxptime_update(pre: AttrModel, v: Seq<char>) -> Option<AttrModel> {
    match parses_as_uint(v) {
        Some(x) => if x <= u64::MAX {
            Some(AttrModel { maxptime: Some(x as u64), ..pre })
        } else {
            None
        },
        None => None,
    }
}

/// What a `framerate` value does to the record.
pub open spec fn framerate_update(pre: AttrModel, v: Seq<char>) -> Option<AttrModel> {
    match parses_as_uint(v) {
        Some(x) => if x <= u16::MAX {
            Some(AttrModel { framerate: Some(x as u16), ..pre })
        } else {
            None
        },
        None => None,
    }
}

/// What a `quality` value does to the record.
pub open spec fn quality_update(pre: AttrModel, v: Seq<char>) -> Option<AttrModel> {
    match parses_as_uint(v) {
        Some(x) => if x <= u8::MAX {
            Some(AttrModel { quality: Some(x as u8), ..pre })
        } else {
            None
        },
        None => None,
    }
}

/// What an `orient` value does to the record.
pub open spec fn orient_update(pre: AttrModel, v: Seq<char>) -> Option<AttrModel> {
    match orient_of(v) {
        Some(o) => Some(AttrModel { orient: Some(o), ..pre }),
        None => None,
    }
}

/// What a `type` value does to the record.
pub open spec fn kind_update(pre: AttrModel, v: Seq<char>) -> Option<AttrModel> {
    match kind_of(v) {
        Some(k) => Some(AttrModel { kind: Some(k), ..pre }),
        None => None,
    }
}

/// What a `charset` value does to the record.
pub open spec fn charset_update(pre: AttrModel, v: Seq<char>) -> Option<AttrModel> {
    Some(AttrModel { charset: Some(v), ..pre })
}

/// What an `sdplang` value does to the record.
pub open spec fn sdplang_update(pre: AttrModel, v: Seq<char>) -> Option<AttrModel> {
    Some(AttrModel { sdplang: Some(v), ..pre })
}

/// What a `lang` value does to the record.
pub open spec fn lang_update(pre: AttrModel, v: Seq<char>) -> Option<AttrModel> {
    Some(AttrModel { lang: Some(v), ..pre })
}

/// What an `rtpmap` value does to the record: `payload SP encoding`, with
/// the payload a decimal number up to 255 and the encoding a valid
/// [`RtpValue`].
pub open spec fn rtpmap_update(pre: AttrModel, v: Seq<char>) -> Option<AttrModel> {
    let parts = split_seq(v, ' ');
    if parts.len() != 2 {
        None
    } else {
        match rtp_value_of(parts[1]) {
            None => None,
            Some(rv) => match parses_as_uint(parts[0]) {
                Some(x) => if x <= u8::MAX {
                    Some(AttrModel { rtpmap: pre.rtpmap.insert(x as u8, rv), ..pre })
                } else {
                    None
                },
                None => None,
            },
        }
    }
}

/// What an `extmap` value does to the record: `key SP extension`, with the
/// key a decimal number up to 255.
pub open spec fn extmap_update(pre: AttrModel, v: Seq<char>) -> Option<AttrModel> {
    let parts = split_seq(v, ' ');
    if parts.len() != 2 {
        None
    } else {
        match parses_as_uint(parts[0]) {
            Some(x) => if x <= u8::MAX {
                Some(AttrModel { extmap: pre.extmap.insert(x as u8, parts[1]), ..pre })
            } else {
                None
            },
            None => None,
        }
    }
}

/// Whether any piece of an `fmtp` parameter list is a `key=value` pair.
pub open spec fn has_param_pair(pieces: Seq<Seq<char>>) -> bool {
    exists|j: int| 0 <= j < pieces.len() && split_seq(#[trigger] pieces[j], '=').len() == 2
}

/// The parameter map after the pieces of an `fmtp` parameter list are
/// applied in order: each `key=value` piece inserts, any other piece is
/// skipped.
pub open spec fn apply_param_pieces(
    m: Map<Seq<char>, Seq<char>>,
    pieces: Seq<Seq<char>>,
) -> Map<Seq<char>, Seq<char>>
    decreases pieces.len(),
{
    if pieces.len() == 0 {
        m
    } else {
        let parts = split_seq(pieces[0], '=');
        let m1 = if parts.len() == 2 {
            m.insert(parts[0], parts[1])
        } else {
            m
        };
        apply_param_pieces(m1, pieces.drop_first())
    }
}

/// What an `fmtp` value does to the record: `payload SP parameters`, with
/// the payload a decimal number up to 255; the parameters are split at
/// semicolons, and each `key=value` piece lands in that payload's map. A
/// value without a single such pair touches nothing.
pub open spec fn fmtp_update(pre: AttrModel, v: Seq<char>) -> Option<AttrModel> {
    let parts = split_seq(v, ' ');
    if parts.len() != 2 {
        None
    } else {
        match parses_as_uint(parts[0]) {
            Some(x) => if x <= u8::MAX {
                let key = x as u8;
                let pieces = split_seq(parts[1], ';');
                if !has_param_pair(pieces) {
                    Some(pre)
                } else {
                    let base = if pre.fmtp.contains_key(key) {
                        pre.fmtp[key]
                    } else {
                        Map::empty()
                    };
                    Some(
                        AttrModel {
                            fmtp: pre.fmtp.insert(key, apply_param_pieces(base, pieces)),
                            ..pre
                        },
                    )
                }
            } else {
                None
            },
            None => None,
        }
    }
}

/// What one attribute line does to the record: the piece before the first
/// colon picks the field, the piece between the first and second colon is
/// its value; a known name with no value piece is an error, an unknown name
/// changes nothing.
pub open spec fn handle_update(pre: AttrModel, line: Seq<char>) -> Option<AttrModel> {
    let ps = split_seq(line, ':');
    let key = ps[0];
    if key == "ptime"@ {
        if ps.len() < 2 {
            None
        } else {
            ptime_update(pre, ps[1])
        }
    } else if key == "maxptime"@ {
        if ps.len() < 2 {
            None
        } else {
            maxptime_update(pre, ps[1])
        }
    } else if key == "rtpmap"@ {
        if ps.len() < 2 {
            None
        } else {
            rtpmap_update(pre, ps[1])
        }
    } else if key == "orient"@ {
        if ps.len() < 2 {
            None
        } else {
            orient_update(pre, ps[1])
        }
    } else if key == "type"@ {
        if ps.len() < 2 {
            None
        } else {
            kind_update(pre, ps[1])
        }
    } else if key == "charset"@ {
        if ps.len() < 2 {
            None
        } else {
            charset_update(pre, ps[1])
        }
    } else if key == "sdplang"@ {
        if ps.len() < 2 {
            None
        } else {
            sdplang_update(pre, ps[1])
        }
    } else if key == "lang"@ {
        if ps.len() < 2 {
            None
        } else {
            lang_update(pre, ps[1])
        }
    } else if key == "framerate"@ {
        if ps.len() < 2 {
            None
        } else {
            framerate_update(pre, ps[1])
        }
    } else if key == "quality"@ {
        if ps.len() < 2 {
            None
        } else {
            quality_update(pre, ps[1])
        }
    } else if key == "fmtp"@ {
        if ps.len() < 2 {
            None
        } else {
            fmtp_update(pre, ps[1])
        }
    } else if key == "extmap"@ {
        if ps.len() < 2 {
            None
        } else {
            extmap_update(pre, ps[1])
        }
    } else {
        Some(pre)
    }
}

impl Attributes {
    /// Handle one attribute line.
    pub fn handle(&mut self, line: &str) -> (r: Result<(), AttrError>)
        ensures
            match handle_update(old(self)@, line@) {
                Some(m) => r is Ok && final(self)@ == m,
                None => r is Err && final(self)@ == old(self)@,
            },
    {
        let pieces = split_str(line, ':');
        proof {
            lemma_views_of_index(pieces@, 0);
            if pieces@.len() >= 2 {
                lemma_views_of_index(pieces@, 1);
            }
        }
        let key = pieces[0].as_str();
        if str_eq(key, "ptime") {
            if pieces.len() < 2 {
                return Err(AttrError::MissingValue);
            }
            self.handle_ptime(pieces[1].as_str())
        } else if str_eq(key, "maxptime") {
            if pieces.len() < 2 {
                return Err(AttrError::MissingValue);
            }
            self.handle_maxptime(pieces[1].as_str())
        } else if str_eq(key, "rtpmap") {
            if pieces.len() < 2 {
                return Err(AttrError::MissingValue);
            }
            self.handle_rtpmap(pieces[1].as_str())
        } else if str_eq(key, "orient") {
            if pieces.len() < 2 {
                return Err(AttrError::MissingValue);
            }
            self.handle_orient(pieces[1].as_str())
        } else if str_eq(key, "type") {
            if pieces.len() < 2 {
                return Err(AttrError::MissingValue);
            }
            self.handle_kind(pieces[1].as_str())
        } else if str_eq(key, "charset") {
            if pieces.len() < 2 {
                return Err(AttrError::MissingValue);
            }
            self.handle_charset(pieces[1].as_str())
        } else if str_eq(key, "sdplang") {
            if pieces.len() < 2 {
                return Err(AttrError::MissingValue);
            }
            self.handle_sdplang(pieces[1].as_str())
        } else if str_eq(key, "lang") {
            if pieces.len() < 2 {
                return Err(AttrError::MissingValue);
            }
            self.handle_lang(pieces[1].as_str())
        } else if str_eq(key, "framerate") {
            if pieces.len() < 2 {
                return Err(AttrError::MissingValue);
            }
            self.handle_framerate(pieces[1].as_str())
        } else if str_eq(key, "quality") {
            if pieces.len() < 2 {
                return Err(AttrError::MissingValue);
            }
            self.handle_quality(pieces[1].as_str())
        } else if str_eq(key, "fmtp") {
            if pieces.len() < 2 {
                return Err(AttrError::MissingValue);
            }
            self.handle_fmtp(pieces[1].as_str())
        } else if str_eq(key, "extmap") {
            if pieces.len() < 2 {
                return Err(AttrError::MissingValue);
            }
            self.handle_extmap(pieces[1].as_str())
        } else {
            Ok(())
        }
    }

    /// Handle a `quality` value.
    pub fn handle_quality(&mut self, value: &str) -> (r: Result<(), AttrError>)
        ensures
            match quality_update(old(self)@, value@) {
                Some(m) => r is Ok && final(self)@ == m,
                None => r is Err && final(self)@ == old(self)@,
            },
    {
        match parse_u8(value) {
            Some(n) => {
                self.quality = Some(n);
                proof {
                    assert(final(self)@ =~= quality_update(old(self)@, value@).unwrap());
                }
                Ok(())
            },
            None => Err(AttrError::InvalidNumber),
        }
    }

    /// Handle a `ptime` value.
    pub fn handle_ptime(&mut self, value: &str) -> (r: Result<(), AttrError>)
        ensures
            match ptime_update(old(self)@, value@) {
                Some(m) => r is Ok && final(self)@ == m,
                None => r is Err && final(self)@ == old(self)@,
            },
    {
        match parse_u64(value) {
            Some(n) => {
                self.ptime = Some(n);
                proof {
                    assert(final(self)@ =~= ptime_update(old(self)@, value@).unwrap());
                }
                Ok(())
            },
            None => Err(AttrError::InvalidNumber),
        }
    }

    /// Handle a `maxptime` value.
    pub fn handle_maxptime(&mut self, value: &str) -> (r: Result<(), AttrError>)
        ensures
            match maxptime_update(old(self)@, value@) {
                Some(m) => r is Ok && final(self)@ == m,
                None => r is Err && final(self)@ == old(self)@,
            },
    {
        match parse_u64(value) {
            Some(n) => {
                self.maxptime = Some(n);
                proof {
                    assert(final(self)@ =~= maxptime_update(old(self)@, value@).unwrap());
                }
                Ok(())
            },
            None => Err(AttrError::InvalidNumber),
        }
    }

    /// Handle an `orient` value.
    pub fn handle_orient(&mut self, value: &str) -> (r: Result<(), AttrError>)
        ensures
            match orient_update(old(self)@, value@) {
                Some(m) => r is Ok && final(self)@ == m,
                None => r is Err && final(self)@ == old(self)@,
            },
    {
        match Orient::parse(value) {
            Some(o) => {
                self.orient = Some(o);
                proof {
                    assert(final(self)@ =~= orient_update(old(self)@, value@).unwrap());
                }
                Ok(())
            },
            None => Err(AttrError::InvalidOrient),
        }
    }

    /// Handle a `type` value.
    pub fn handle_kind(&mut self, value: &str) -> (r: Result<(), AttrError>)
        ensures
            match kind_update(old(self)@, value@) {
                Some(m) => r is Ok && final(self)@ == m,
                None => r is Err && final(self)@ == old(self)@,
            },
    {
        match Kind::parse(value) {
            Some(k) => {
                self.kind = Some(k);
                proof {
                    assert(final(self)@ =~= kind_update(old(self)@, value@).unwrap());
                }
                Ok(())
            },
            None => Err(AttrError::InvalidKind),
        }
    }

    /// Handle a `charset` value.
    pub fn handle_charset(&mut self, value: &str) -> (r: Result<(), AttrError>)
        ensures
            match charset_update(old(self)@, value@) {
                Some(m) => r is Ok && final(self)@ == m,
                None => r is Err && final(self)@ == old(self)@,
            },
    {
        self.charset = Some(value.to_owned());
        proof {
            assert(final(self)@ =~= charset_update(old(self)@, value@).unwrap());
        }
        Ok(())
    }

    /// Handle an `sdplang` value.
    pub fn handle_sdplang(&mut self, value: &str) -> (r: Result<(), AttrError>)
        ensures
            match sdplang_update(old(self)@, value@) {
                Some(m) => r is Ok && final(self)@ == m,
                None => r is Err && final(self)@ == old(self)@,
            },
    {
        self.sdplang = Some(value.to_owned());
        proof {
            assert(final(self)@ =~= sdplang_update(old(self)@, value@).unwrap());
        }
        Ok(())
    }

    /// Handle a `lang` value.
    pub fn handle_lang(&mut self, value: &str) -> (r: Result<(), AttrError>)
        ensures
            match lang_update(old(self)@, value@) {
                Some(m) => r is Ok && final(self)@ == m,
                None => r is Err && final(self)@ == old(self)@,
            },
    {
        self.lang = Some(value.to_owned());
        proof {
            assert(final(self)@ =~= lang_update(old(self)@, value@).unwrap());
        }
        Ok(())
    }

    /// Handle a `framerate` value.
    pub fn handle_framerate(&mut self, value: &str) -> (r: Result<(), AttrError>)
        ensures
            match framerate_update(old(self)@, value@) {
                Some(m) => r is Ok && final(self)@ == m,
                None => r is Err && final(self)@ == old(self)@,
            },
    {
        match parse_u16(value) {
            Some(n) => {
                self.framerate = Some(n);
                proof {
                    assert(final(self)@ =~= framerate_update(old(self)@, value@).unwrap());
                }
                Ok(())
            },
            None => Err(AttrError::InvalidNumber),
        }
    }

    /// Handle an `rtpmap` value such as `96 VP8/9000`.
    pub fn handle_rtpmap(&mut self, value: &str) -> (r: Result<(), AttrError>)
        ensures
            match rtpmap_update(old(self)@, value@) {
                Some(m) => r is Ok && final(self)@ == m,
                None => r is Err && final(self)@ == old(self)@,
            },
    {
        let parts = split_str(value, ' ');
        proof {
            lemma_views_of_index(parts@, 0);
            if parts@.len() >= 2 {
                lemma_views_of_index(parts@, 1);
            }
        }
        if parts.len() != 2 {
            return Err(AttrError::InvalidRtpmap);
        }
        let rtp = match RtpValue::parse(parts[1].as_str()) {
            None => {
                return Err(AttrError::InvalidRtpmap);
            },
            Some(rv) => rv,
        };
        let key = match parse_u8(parts[0].as_str()) {
            None => {
                return Err(AttrError::InvalidNumber);
            },
            Some(k) => k,
        };
        self.rtpmap.insert(key, rtp);
        proof {
            assert(final(self)@ =~= rtpmap_update(old(self)@, value@).unwrap());
        }
        Ok(())
    }

    /// Handle an `extmap` value such as `1 urn`.
    pub fn handle_extmap(&mut self, value: &str) -> (r: Result<(), AttrError>)
        ensures
            match extmap_update(old(self)@, value@) {
                Some(m) => r is Ok && final(self)@ == m,
                None => r is Err && final(self)@ == old(self)@,
            },
    {
        let parts = split_str(value, ' ');
        proof {
            lemma_views_of_index(parts@, 0);
            if parts@.len() >= 2 {
                lemma_views_of_index(parts@, 1);
            }
        }
        if parts.len() != 2 {
            return Err(AttrError::InvalidExtmap);
        }
        let key = match parse_u8(parts[0].as_str()) {
            None => {
                return Err(AttrError::InvalidNumber);
            },
            Some(k) => k,
        };
        let name = parts[1].clone();
        self.extmap.insert(key, name);
        proof {
            lemma_extmap_views_insert(old(self).extmap@, key, parts@[1]);
            assert(final(self)@ =~= extmap_update(old(self)@, value@).unwrap());
        }
        Ok(())
    }

    /// Handle an `fmtp` value such as `96 max-fs=3600;max-mbps=108000`.
    pub fn handle_fmtp(&mut self, value: &str) -> (r: Result<(), AttrError>)
        ensures
            match fmtp_update(old(self)@, value@) {
                Some(m) => r is Ok && final(self)@ == m,
                None => r is Err && final(self)@ == old(self)@,
            },
    {
        let parts = split_str(value, ' ');
        proof {
            lemma_views_of_index(parts@, 0);
            if parts@.len() >= 2 {
                lemma_views_of_index(parts@, 1);
            }
        }
        if parts.len() != 2 {
            return Err(AttrError::InvalidFmtp);
        }
        let key = match parse_u8(parts[0].as_str()) {
            None => {
                return Err(AttrError::InvalidNumber);
            },
            Some(k) => k,
        };
        let pieces = split_str(parts[1].as_str(), ';');
        let ghost pv = views_of(pieces@);
        let existed = self.fmtp.contains_key(&key);
        let ghost pre_fmtp = self.fmtp@;
        let removed = self.fmtp.remove(&key);
        let mut pm = match removed {
            Some(p) => p,
            None => ParamMap::new(),
        };
        let ghost base = pm@;
        let mut have: bool = false;
        let mut j: usize = 0;
        proof {
            assert(pv.skip(0) =~= pv);
        }
        while j < pieces.len()
            invariant
                j <= pieces@.len(),
                pv == views_of(pieces@),
                pv.len() == pieces@.len(),
                apply_param_pieces(base, pv) == apply_param_pieces(pm@, pv.skip(j as int)),
                !have ==> pm@ == base,
                !have ==> forall|t: int| 0 <= t < j ==> split_seq(#[trigger] pv[t], '=').len()
                    != 2,
                have ==> has_param_pair(pv.take(j as int)),
            decreases pieces@.len() - j,
        {
            let ghost pm_pre = pm@;
            proof {
                lemma_views_of_index(pieces@, j as int);
                assert(pv.skip(j as int)[0] == pv[j as int]);
                assert(pv.skip(j as int).drop_first() =~= pv.skip(j + 1));
            }
            let kv = split_str(pieces[j].as_str(), '=');
            if kv.len() == 2 {
                proof {
                    lemma_views_of_index(kv@, 0);
                    lemma_views_of_index(kv@, 1);
                    assert(split_seq(pv[j as int], '=').len() == 2);
                }
                pm.insert(kv[0].clone(), kv[1].clone());
                have = true;
                proof {
                    assert(has_param_pair(pv.take(j + 1))) by {
                        assert(pv.take(j + 1)[j as int] == pv[j as int]);
                    }
                }
            } else {
                proof {
                    assert(split_seq(pv[j as int], '=').len() == kv@.len());
                    if have {
                        assert(has_param_pair(pv.take(j + 1))) by {
                            let w = choose|t: int|
                                0 <= t < j && split_seq(#[trigger] pv.take(j as int)[t], '=').len()
                                    == 2;
                            assert(pv.take(j + 1)[w] == pv.take(j as int)[w]);
                        }
                    }
                }
            }
            j += 1;
        }
        proof {
            assert(pv.skip(pv.len() as int) =~= Seq::<Seq<char>>::empty());
            assert(pv.take(pv.len() as int) =~= pv);
        }
        if have {
            self.fmtp.insert(key, pm);
            proof {
                lemma_fmtp_views_insert(pre_fmtp.remove(key), key, self.fmtp@[key]);
                lemma_fmtp_views_insert(pre_fmtp, key, pm);
                assert(self.fmtp@ =~= pre_fmtp.remove(key).insert(key, self.fmtp@[key]));
                assert(fmtp_views(self.fmtp@) =~= fmtp_views(pre_fmtp).insert(key, pm@));
                assert(final(self)@ =~= fmtp_update(old(self)@, value@).unwrap());
            }
        } else {
            if existed {
                self.fmtp.insert(key, pm);
                proof {
                    assert(pm@ == pre_fmtp[key]@);
                    assert(self.fmtp@ =~= pre_fmtp.remove(key).insert(key, self.fmtp@[key]));
                    lemma_fmtp_views_insert(pre_fmtp.remove(key), key, self.fmtp@[key]);
                    lemma_fmtp_views_insert(pre_fmtp, key, pm);
                    assert(fmtp_views(self.fmtp@) =~= fmtp_views(pre_fmtp));
                    assert(final(self)@ =~= old(self)@);
                }
            } else {
                proof {
                    assert(self.fmtp@ =~= pre_fmtp);
                    assert(final(self)@ =~= old(self)@);
                }
            }
            proof {
                assert(!has_param_pair(pv));
                assert(fmtp_update(old(self)@, value@) == Some(old(self)@));
            }
        }
        Ok(())
    }
}

} // verus!
