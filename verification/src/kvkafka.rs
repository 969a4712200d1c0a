//! The broker feed: checked observations that arrive as XML documents.

use vstd::prelude::*;
use vstd::string::StringExecFns;
use crate::text::{chars_of, i32_text, is_float, is_float_text, read_i32, same_text};
use crate::time::{instant_or_refusal, naive_datetime_from_str, read_datetime};

verus! {

/// Why a document of the feed, or one of its observations, was not stored.
#[derive(Debug, Clone, PartialEq)]
pub enum Error {
    /// The message is not the XML document that is expected.
    IssueParsingXML(String),
    /// An observation time could not be read; the text is the refusal.
    IssueParsingTime(String),
    /// The broker failed.
    Kafka(String),
    /// Storage failed.
    Database(String),
    /// No timeseries is labelled for this station and parameter.
    TimeseriesMissing { station: i32, param: i32 },
    /// The document does not have the expected structure or values.
    Deserialize(String),
}

pub enum ErrorView {
    IssueParsingXML(Seq<char>),
    IssueParsingTime(Seq<char>),
    Kafka(Seq<char>),
    Database(Seq<char>),
    TimeseriesMissing { station: i32, param: i32 },
    Deserialize(Seq<char>),
}

impl View for Error {
    type V = ErrorView;

    open spec fn view(&self) -> ErrorView {
        match self {
            Error::IssueParsingXML(m) => ErrorView::IssueParsingXML(m@),
            Error::IssueParsingTime(m) => ErrorView::IssueParsingTime(m@),
            Error::Kafka(m) => ErrorView::Kafka(m@),
            Error::Database(m) => ErrorView::Database(m@),
            Error::TimeseriesMissing { station, param } => ErrorView::TimeseriesMissing {
                station: *station,
                param: *param,
            },
            Error::Deserialize(m) => ErrorView::Deserialize(m@),
        }
    }
}

/// The view of a text that may be missing.
pub open spec fn text_view(text: Option<String>) -> Option<Seq<char>> {
    match text {
        Some(t) => Some(t@),
        None => None,
    }
}

/// The view of a borrowed text that may be missing.
pub open spec fn slice_view(text: Option<&str>) -> Option<Seq<char>> {
    match text {
        Some(t) => Some(t@),
        None => None,
    }
}

/// A sensor or level as the feed writes it: 0 and the empty text stand for
/// a missing one, any other text is its number.
pub open spec fn sensor_or_level(text: Option<Seq<char>>) -> Result<Option<i32>, Seq<char>> {
    match text {
        None => Ok(None),
        Some(t) => if t == "0"@ || t == ""@ {
            Ok(None)
        } else {
            match i32_text(t) {
                Some(v) => Ok(Some(v)),
                None => Err(t),
            }
        },
    }
}

/// Reads a sensor or level of the feed, turning 0 into a missing one. The
/// failure carries the text that is no number.
pub fn zero_to_none(text: Option<&str>) -> (r: Result<Option<i32>, Error>)
    ensures
        match sensor_or_level(slice_view(text)) {
            Ok(v) => r == Ok::<Option<i32>, Error>(v),
            Err(t) => r is Err && r->Err_0@ == ErrorView::Deserialize(t),
        },
{
    match text {
        None => Ok(None),
        Some(t) => {
            if same_text(t, "0") || same_text(t, "") {
                Ok(None)
            } else {
                match read_i32(t) {
                    Some(v) => Ok(Some(v)),
                    None => Err(Error::Deserialize(t.to_owned())),
                }
            }
        },
    }
}

/// A whole number that may be missing: the empty text stands for a missing
/// one.
pub open spec fn optional_number(text: Option<Seq<char>>) -> Result<Option<i32>, Seq<char>> {
    match text {
        None => Ok(None),
        Some(t) => if t == ""@ {
            Ok(None)
        } else {
            match i32_text(t) {
                Some(v) => Ok(Some(v)),
                None => Err(t),
            }
        },
    }
}

/// Reads a whole number that may be missing or empty.
pub fn optional_int(text: Option<&str>) -> (r: Result<Option<i32>, Error>)
    ensures
        match optional_number(slice_view(text)) {
            Ok(v) => r == Ok::<Option<i32>, Error>(v),
            Err(t) => r is Err && r->Err_0@ == ErrorView::Deserialize(t),
        },
{
    match text {
        None => Ok(None),
        Some(t) => {
            if same_text(t, "") {
                Ok(None)
            } else {
                match read_i32(t) {
                    Some(v) => Ok(Some(v)),
                    None => Err(Error::Deserialize(t.to_owned())),
                }
            }
        },
    }
}

/// A decimal literal that may be missing: the empty text stands for a
/// missing one, and a text that is no decimal literal fails.
pub open spec fn optional_literal(text: Option<Seq<char>>) -> Result<
    Option<Seq<char>>,
    Seq<char>,
> {
    match text {
        None => Ok(None),
        Some(t) => if t == ""@ {
            Ok(None)
        } else if is_float_text(t) {
            Ok(Some(t))
        } else {
            Err(t)
        },
    }
}

/// Reads a decimal literal that may be missing or empty.
pub fn optional_float(text: Option<&str>) -> (r: Result<Option<String>, Error>)
    ensures
        match optional_literal(slice_view(text)) {
            Ok(v) => r is Ok && text_view(r->Ok_0) == v,
            Err(t) => r is Err && r->Err_0@ == ErrorView::Deserialize(t),
        },
{
    match text {
        None => Ok(None),
        Some(t) => {
            if same_text(t, "") {
                Ok(None)
            } else if is_float(t) {
                Ok(Some(t.to_owned()))
            } else {
                Err(Error::Deserialize(t.to_owned()))
            }
        },
    }
}

/// A text that may be missing: the empty text stands for a missing one.
pub open spec fn optional_words(text: Option<Seq<char>>) -> Option<Seq<char>> {
    match text {
        None => None,
        Some(t) => if t == ""@ {
            None
        } else {
            Some(t)
        },
    }
}

/// Reads a text that may be missing or empty.
pub fn optional_text(text: Option<&str>) -> (r: Option<String>)
    ensures
        text_view(r) == optional_words(slice_view(text)),
{
    match text {
        None => None,
        Some(t) => {
            if same_text(t, "") {
                None
            } else {
                Some(t.to_owned())
            }
        },
    }
}

/// One checked observation of the feed. The two values are decimal
/// literals.
#[derive(Debug, Clone, PartialEq)]
pub struct Kvdata {
    pub paramid: i32,
    pub original: Option<String>,
    pub corrected: Option<String>,
    pub controlinfo: Option<String>,
    pub useinfo: Option<String>,
    pub cfailed: Option<i32>,
}

pub struct KvdataView {
    pub paramid: i32,
    pub original: Option<Seq<char>>,
    pub corrected: Option<Seq<char>>,
    pub controlinfo: Option<Seq<char>>,
    pub useinfo: Option<Seq<char>>,
    pub cfailed: Option<i32>,
}

impl View for Kvdata {
    type V = KvdataView;

    open spec fn view(&self) -> KvdataView {
        KvdataView {
            paramid: self.paramid,
            original: text_view(self.original),
            corrected: text_view(self.corrected),
            controlinfo: text_view(self.controlinfo),
            useinfo: text_view(self.useinfo),
            cfailed: self.cfailed,
        }
    }
}

/// What a timeseries is known by in the feed.
#[derive(Debug, Clone, Copy, PartialEq, Eq, Structural)]
pub struct KvalobsId {
    pub station: i32,
    pub paramid: i32,
    pub typeid: i32,
    pub sensor: Option<i32>,
    pub level: Option<i32>,
}

/// One observation of the feed, ready to be stored.
#[derive(Debug, Clone, PartialEq)]
pub struct Msg {
    pub kvid: KvalobsId,
    /// Seconds since the Unix epoch.
    pub obstime: i64,
    pub kvdata: Kvdata,
}

pub struct MsgView {
    pub kvid: KvalobsId,
    pub obstime: i64,
    pub kvdata: KvdataView,
}

impl View for Msg {
    type V = MsgView;

    open spec fn view(&self) -> MsgView {
        MsgView { kvid: self.kvid, obstime: self.obstime, kvdata: self.kvdata@ }
    }
}

pub open spec fn msg_views(msgs: Seq<Msg>) -> Seq<MsgView> {
    msgs.map_values(|m: Msg| m@)
}

/// An observation under its sensor and level.
#[derive(Debug, Clone, PartialEq)]
pub struct SensorData {
    pub sensor: Option<i32>,
    pub level: Option<i32>,
    pub kvdata: Kvdata,
}

/// The observations of one station under one message type at one
/// observation time, in the order of the document.
#[derive(Debug, Clone, PartialEq)]
pub struct ObstimeGroup {
    pub station: i32,
    pub typeid: i32,
    /// The observation time as the document writes it.
    pub obstime: String,
    pub data: Vec<SensorData>,
}

/// The format of the observation times of the feed.
pub open spec fn obstime_format() -> Seq<char> {
    "%Y-%m-%d %H:%M:%S"@
}

/// The message of the `i`-th observation of a group read at `obstime`.
pub open spec fn group_message(group: ObstimeGroup, obstime: i64, i: int) -> MsgView {
    MsgView {
        kvid: KvalobsId {
            station: group.station,
            paramid: group.data@[i].kvdata.paramid,
            typeid: group.typeid,
            sensor: group.data@[i].sensor,
            level: group.data@[i].level,
        },
        obstime,
        kvdata: group.data@[i].kvdata@,
    }
}

fn copy_text(text: &Option<String>) -> (r: Option<String>)
    ensures
        text_view(r) == text_view(*text),
{
    match text {
        Some(t) => Some(t.clone()),
        None => None,
    }
}

fn copy_kvdata(data: &Kvdata) -> (r: Kvdata)
    ensures
        r@ == data@,
{
    Kvdata {
        paramid: data.paramid,
        original: copy_text(&data.original),
        corrected: copy_text(&data.corrected),
        controlinfo: copy_text(&data.controlinfo),
        useinfo: copy_text(&data.useinfo),
        cfailed: data.cfailed,
    }
}

/// The messages of a group, given what reading its observation time gave:
/// one per observation, in order, all at that time; a refused time fails
/// with the refusal.
pub fn group_messages(group: &ObstimeGroup, stamp: Result<i64, String>) -> (r: Result<
    Vec<Msg>,
    Error,
>)
    ensures
        match instant_or_refusal(stamp) {
            Ok(t) => r is Ok && msg_views(r->Ok_0@) == Seq::new(
                group.data@.len(),
                |i: int| group_message(*group, t, i),
            ),
            Err(m) => r is Err && r->Err_0@ == ErrorView::IssueParsingTime(m),
        },
{
    let obstime: i64 = match stamp {
        Ok(t) => t,
        Err(m) => {
            return Err(Error::IssueParsingTime(m));
        },
    };
    let mut out: Vec<Msg> = Vec::new();
    let mut i: usize = 0;
    while i < group.data.len()
        invariant
            i <= group.data@.len(),
            out@.len() == i,
            forall|j: int| 0 <= j < i ==> (#[trigger] out@[j])@ == group_message(*group, obstime, j),
        decreases group.data@.len() - i,
    {
        let one = &group.data[i];
        out.push(
            Msg {
                kvid: KvalobsId {
                    station: group.station,
                    paramid: one.kvdata.paramid,
                    typeid: group.typeid,
                    sensor: one.sensor,
                    level: one.level,
                },
                obstime,
                kvdata: copy_kvdata(&one.kvdata),
            },
        );
        i += 1;
    }
    assert(msg_views(out@) =~= Seq::new(
        group.data@.len(),
        |i: int| group_message(*group, obstime, i),
    ));
    Ok(out)
}

/// The messages of the groups from `g` on, after those in `acc`, and the
/// failure that stopped the reading, if one did: the groups are read in
/// order, and the first observation time that is refused ends the reading.
pub open spec fn messages_from(groups: Seq<ObstimeGroup>, g: int, acc: Seq<MsgView>) -> (
    Seq<MsgView>,
    Option<Seq<char>>,
)
    decreases groups.len() - g,
{
    if g < 0 || g >= groups.len() {
        (acc, None)
    } else {
        match naive_datetime_from_str(groups[g].obstime@, obstime_format()) {
            Err(m) => (acc, Some(m)),
            Ok(t) => messages_from(
                groups,
                g + 1,
                acc + Seq::new(groups[g].data@.len(), |i: int| group_message(groups[g], t, i)),
            ),
        }
    }
}

/// Turns the observations of a document into messages, as far as its
/// observation times can be read.
pub fn messages_of(groups: &Vec<ObstimeGroup>) -> (r: (Vec<Msg>, Option<Error>))
    ensures
        msg_views(r.0@) == messages_from(groups@, 0, Seq::empty()).0,
        match messages_from(groups@, 0, Seq::empty()).1 {
            Some(m) => r.1 is Some && r.1->Some_0@ == ErrorView::IssueParsingTime(m),
            None => r.1 is None,
        },
{
    let mut out: Vec<Msg> = Vec::new();
    let mut g: usize = 0;
    assert(msg_views(out@) == Seq::<MsgView>::empty());
    while g < groups.len()
        invariant
            g <= groups@.len(),
            messages_from(groups@, g as int, msg_views(out@)) == messages_from(
                groups@,
                0,
                Seq::empty(),
            ),
        decreases groups@.len() - g,
    {
        let group = &groups[g];
        let stamp = read_datetime(group.obstime.as_str(), "%Y-%m-%d %H:%M:%S");
        match group_messages(group, stamp) {
            Err(e) => {
                return (out, Some(e));
            },
            Ok(mut msgs) => {
                let ghost before = msg_views(out@);
                let ghost added = msg_views(msgs@);
                out.append(&mut msgs);
                assert(msg_views(out@) =~= before + added);
            },
        }
        g += 1;
    }
    (out, None)
}

/// Whether the feed drops `c` from a document before reading it.
pub open spec fn is_dropped(c: char) -> bool {
    c == '\n' || c == '\\'
}

/// `s` without line feeds and backslashes.
pub open spec fn cleaned(s: Seq<char>) -> Seq<char>
    decreases s.len(),
{
    if s.len() == 0 {
        s
    } else if is_dropped(s.last()) {
        cleaned(s.drop_last())
    } else {
        cleaned(s.drop_last()).push(s.last())
    }
}

/// Where, from `i` on, the first `?>` of `s` starts.
pub open spec fn prolog_end(s: Seq<char>, i: int) -> Option<int>
    decreases s.len() - i,
{
    if i < 0 || i + 1 >= s.len() {
        None
    } else if s[i] == '?' && s[i + 1] == '>' {
        Some(i)
    } else {
        prolog_end(s, i + 1)
    }
}

/// `s` without the white space around it, as `str::trim` gives it.
pub uninterp spec fn trimmed(s: Seq<char>) -> Seq<char>;

/// `str::trim`. Nothing is claimed of the outcome but that it is the text
/// that the standard library gives for this text.
#[verifier::external_body]
fn trim(s: &str) -> (r: &str)
    ensures
        r@ == trimmed(s@),
{
    s.trim()
}

/// The document that follows the XML declaration of a message: the message
/// is trimmed and loses its line feeds and backslashes; it must then start
/// with `<?xml`, and the document is what follows the first `?>`.
pub open spec fn payload_of(text: Seq<char>) -> Result<Seq<char>, Seq<char>> {
    let xml = cleaned(trimmed(text));
    if !(xml.len() >= 5 && xml.subrange(0, 5) == "<?xml"@) {
        Err("kv2kvdata must be xml starting with '<?xml'"@)
    } else {
        match prolog_end(xml, 0) {
            None => Err("couldn't find end of xml tag '?>'"@),
            Some(at) => Ok(xml.subrange(at + 2, xml.len() as int)),
        }
    }
}

fn clean(s: &str) -> (r: String)
    ensures
        r@ == cleaned(s@),
{
    let chars = chars_of(s);
    let n: usize = chars.len();
    let mut out = String::new();
    let mut start: usize = 0;
    let mut i: usize = 0;
    assert(s@.subrange(0, 0) =~= Seq::<char>::empty());
    assert(out@ + s@.subrange(0, 0) =~= Seq::<char>::empty());
    while i < n
        invariant
            chars@ == s@,
            n == s@.len(),
            start <= i <= n,
            out@ + s@.subrange(start as int, i as int) == cleaned(s@.subrange(0, i as int)),
        decreases n - i,
    {
        let ghost before = s@.subrange(0, i as int);
        let ghost now = s@.subrange(0, i + 1);
        assert(now.drop_last() == before);
        assert(now.last() == s@[i as int]);
        if chars[i] == '\n' || chars[i] == '\\' {
            out.append(s.substring_char(start, i));
            start = i + 1;
            assert(s@.subrange(i + 1, i + 1) =~= Seq::<char>::empty());
            assert(out@ + s@.subrange(i + 1, i + 1) =~= out@);
        } else {
            assert(out@ + s@.subrange(start as int, i + 1) =~= (out@ + s@.subrange(
                start as int,
                i as int,
            )).push(s@[i as int]));
        }
        i += 1;
    }
    out.append(s.substring_char(start, n));
    assert(s@.subrange(0, n as int) == s@);
    out
}

/// Takes the document out of a message of the feed.
pub fn xml_payload(text: &str) -> (r: Result<String, Error>)
    ensures
        match payload_of(text@) {
            Ok(doc) => r is Ok && r->Ok_0@ == doc,
            Err(m) => r is Err && r->Err_0@ == ErrorView::IssueParsingXML(m),
        },
{
    let xml = clean(trim(text));
    let chars = chars_of(xml.as_str());
    let n: usize = chars.len();
    let starts: bool = n >= 5 && same_text(xml.as_str().substring_char(0, 5), "<?xml");
    if !starts {
        return Err(
            Error::IssueParsingXML(String::from_str("kv2kvdata must be xml starting with '<?xml'")),
        );
    }
    let mut i: usize = 0;
    while i + 1 < n
        invariant
            chars@ == xml@,
            n == chars@.len(),
            i < n,
            xml@ == cleaned(trimmed(text@)),
            xml@.len() >= 5 && xml@.subrange(0, 5) == "<?xml"@,
            prolog_end(xml@, i as int) == prolog_end(xml@, 0),
        decreases n - i,
    {
        if chars[i] == '?' && chars[i + 1] == '>' {
            return Ok(xml.as_str().substring_char(i + 2, n).to_owned());
        }
        i += 1;
    }
    Err(Error::IssueParsingXML(String::from_str("couldn't find end of xml tag '?>'")))
}

/// The timeseries of an observation of the feed: the first that storage
/// found under its label, and a failure that names station and parameter
/// where it found none.
pub fn timeseries_for(found: &Vec<i32>, kvid: &KvalobsId) -> (r: Result<i32, Error>)
    ensures
        r == if found@.len() > 0 {
            Ok::<i32, Error>(found@[0])
        } else {
            Err::<i32, Error>(
                Error::TimeseriesMissing { station: kvid.station, param: kvid.paramid },
            )
        },
{
    if found.len() > 0 {
        Ok(found[0])
    } else {
        Err(Error::TimeseriesMissing { station: kvid.station, param: kvid.paramid })
    }
}

} // verus!
