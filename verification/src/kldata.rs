//! Decoding of observation messages: a header line, a line of columns and
//! one line per instant.

use vstd::prelude::*;
use vstd::string::StringExecFns;
use crate::error::{decodes_to, Error};
use crate::reference::{ParamConversions, ReferenceParamView};
use crate::text::{
    chars_of, digits_end, find_first, i32_text, is_float, is_float_text, lemma_split_nonempty,
    lines, read_i32, read_usize, same_text, scan_digits, split, split_lines, split_text,
    usize_text, views,
};
use crate::time::{naive_datetime_from_str, read_datetime, TimeResolution};

verus! {

/// The value of an observation, as the text that the station sent.
#[derive(Debug, Clone, PartialEq)]
pub enum ObsType {
    /// A number: the text is a well-formed decimal literal.
    Scalar(String),
    /// Anything else.
    NonScalar(String),
}

pub enum ObsTypeView {
    Scalar(Seq<char>),
    NonScalar(Seq<char>),
}

impl View for ObsType {
    type V = ObsTypeView;

    open spec fn view(&self) -> ObsTypeView {
        match self {
            ObsType::Scalar(t) => ObsTypeView::Scalar(t@),
            ObsType::NonScalar(t) => ObsTypeView::NonScalar(t@),
        }
    }
}

/// What identifies an observation within a message. A missing sensor and
/// level is not the same as sensor 0 and level 0.
#[derive(Debug, Clone, PartialEq)]
pub struct ObsinnId {
    pub param_code: String,
    pub sensor_and_level: Option<(i32, i32)>,
}

pub struct ObsinnIdView {
    pub param_code: Seq<char>,
    pub sensor_and_level: Option<(i32, i32)>,
}

impl View for ObsinnId {
    type V = ObsinnIdView;

    open spec fn view(&self) -> ObsinnIdView {
        ObsinnIdView { param_code: self.param_code@, sensor_and_level: self.sensor_and_level }
    }
}

/// One observation of a message.
#[derive(Debug, Clone, PartialEq)]
pub struct ObsinnObs {
    pub id: ObsinnId,
    pub value: ObsType,
}

pub struct ObsinnObsView {
    pub id: ObsinnIdView,
    pub value: ObsTypeView,
}

impl View for ObsinnObs {
    type V = ObsinnObsView;

    open spec fn view(&self) -> ObsinnObsView {
        ObsinnObsView { id: self.id@, value: self.value@ }
    }
}

/// The observations of one station at one instant.
#[derive(Debug, Clone, PartialEq)]
pub struct ObsinnChunk {
    pub observations: Vec<ObsinnObs>,
    pub station_id: i32,
    pub type_id: i32,
    /// Seconds since the Unix epoch.
    pub timestamp: i64,
}

pub struct ObsinnChunkView {
    pub observations: Seq<ObsinnObsView>,
    pub station_id: i32,
    pub type_id: i32,
    pub timestamp: i64,
}

impl View for ObsinnChunk {
    type V = ObsinnChunkView;

    open spec fn view(&self) -> ObsinnChunkView {
        ObsinnChunkView {
            observations: self.observations@.map_values(|o: ObsinnObs| o@),
            station_id: self.station_id,
            type_id: self.type_id,
            timestamp: self.timestamp,
        }
    }
}

/// What the header line of a message says.
#[derive(Debug, Clone, Copy, PartialEq, Eq, Structural)]
pub struct ObsinnHeader {
    pub station_id: i32,
    pub type_id: i32,
    pub message_id: usize,
}

/// The header fields read so far.
#[derive(Clone, Copy)]
pub struct HeaderSlots {
    pub station_id: Option<i32>,
    pub type_id: Option<i32>,
    pub message_id: Option<usize>,
}

pub open spec fn unexpected_field(field: Seq<char>) -> Seq<char> {
    "unexpected field in kldata header format: "@ + field
}

pub open spec fn invalid_value(key: Seq<char>, value: Seq<char>) -> Seq<char> {
    "invalid value "@ + value + " in kldata header for key "@ + key
}

/// The `i32` that the value of a header field spells, or the failure that
/// names the value and its key.
pub open spec fn header_value(key: Seq<char>, value: Seq<char>) -> Result<i32, Seq<char>> {
    match i32_text(value) {
        Some(v) => Ok(v),
        None => Err(invalid_value(key, value)),
    }
}

/// The same for a field that holds a count.
pub open spec fn header_count(key: Seq<char>, value: Seq<char>) -> Result<usize, Seq<char>> {
    match usize_text(value) {
        Some(v) => Ok(v),
        None => Err(invalid_value(key, value)),
    }
}

/// The slots after one more field: `add` and `received_time=..` change
/// nothing, the three numeric keys fill their slot, anything else fails.
pub open spec fn read_field(slots: HeaderSlots, field: Seq<char>) -> Result<
    HeaderSlots,
    Seq<char>,
> {
    if field == "add"@ {
        Ok(slots)
    } else {
        match field.index_of_first('=') {
            None => Err(unexpected_field(field)),
            Some(i) => {
                let key = field.subrange(0, i);
                let value = field.subrange(i + 1, field.len() as int);
                if key == "nationalnr"@ {
                    match header_value(key, value) {
                        Ok(v) => Ok(HeaderSlots { station_id: Some(v), ..slots }),
                        Err(m) => Err(m),
                    }
                } else if key == "type"@ {
                    match header_value(key, value) {
                        Ok(v) => Ok(HeaderSlots { type_id: Some(v), ..slots }),
                        Err(m) => Err(m),
                    }
                } else if key == "messageid"@ {
                    match header_count(key, value) {
                        Ok(v) => Ok(HeaderSlots { message_id: Some(v), ..slots }),
                        Err(m) => Err(m),
                    }
                } else if key == "received_time"@ {
                    Ok(slots)
                } else {
                    Err(unexpected_field(field))
                }
            },
        }
    }
}

/// The slots after the fields from `i` on, read in order from `slots`; the
/// first field that fails decides.
pub open spec fn read_fields(fields: Seq<Seq<char>>, i: int, slots: HeaderSlots) -> Result<
    HeaderSlots,
    Seq<char>,
>
    decreases fields.len() - i,
{
    if i < 0 || i >= fields.len() {
        Ok(slots)
    } else {
        match read_field(slots, fields[i]) {
            Err(m) => Err(m),
            Ok(next) => read_fields(fields, i + 1, next),
        }
    }
}

pub open spec fn no_slots() -> HeaderSlots {
    HeaderSlots { station_id: None, type_id: None, message_id: None }
}

/// What a header line decodes to. The line is cut at `/`; the first piece
/// must be the indicator `kldata`; the station and the type must be given;
/// a message id that is not given is 0.
pub open spec fn header_of(meta: Seq<char>) -> Result<ObsinnHeader, Seq<char>> {
    let fields = split(meta, '/');
    if fields[0] != "kldata"@ {
        Err("kldata indicator missing or out of order"@)
    } else {
        match read_fields(fields, 1, no_slots()) {
            Err(m) => Err(m),
            Ok(slots) => if slots.station_id is None {
                Err("missing field `nationalnr` in kldata header"@)
            } else if slots.type_id is None {
                Err("missing field `type` in kldata header"@)
            } else {
                Ok(
                    ObsinnHeader {
                        station_id: slots.station_id->Some_0,
                        type_id: slots.type_id->Some_0,
                        message_id: match slots.message_id {
                            Some(id) => id,
                            None => 0,
                        },
                    },
                )
            },
        }
    }
}

fn invalid_value_error(key: &str, value: &str) -> (e: Error)
    ensures
        e is Parse,
        e.text() == invalid_value(key@, value@),
{
    Error::Parse(
        String::from_str("invalid value ").concat(value).concat(" in kldata header for key ").concat(
            key,
        ),
    )
}

fn unexpected_field_error(field: &str) -> (e: Error)
    ensures
        e is Parse,
        e.text() == unexpected_field(field@),
{
    Error::Parse(String::from_str("unexpected field in kldata header format: ").concat(field))
}

/// Reads the value of the header field `key` as an `i32`.
pub fn parse_value(key: &str, value: &str) -> (r: Result<i32, Error>)
    ensures
        decodes_to(r, header_value(key@, value@)),
{
    match read_i32(value) {
        Some(v) => Ok(v),
        None => Err(invalid_value_error(key, value)),
    }
}

/// Reads the value of the header field `key` as a count.
pub fn parse_count(key: &str, value: &str) -> (r: Result<usize, Error>)
    ensures
        decodes_to(r, header_count(key@, value@)),
{
    match read_usize(value) {
        Some(v) => Ok(v),
        None => Err(invalid_value_error(key, value)),
    }
}

fn parse_field(slots: HeaderSlots, field: &str) -> (r: Result<HeaderSlots, Error>)
    ensures
        decodes_to(r, read_field(slots, field@)),
{
    if same_text(field, "add") {
        return Ok(slots);
    }
    let at: usize = match find_first(field, '=') {
        Some(at) => at,
        None => {
            return Err(unexpected_field_error(field));
        },
    };
    let n: usize = field.unicode_len();
    let key = field.substring_char(0, at);
    let value = field.substring_char(at + 1, n);
    if same_text(key, "nationalnr") {
        match parse_value(key, value) {
            Ok(v) => Ok(
                HeaderSlots {
                    station_id: Some(v),
                    type_id: slots.type_id,
                    message_id: slots.message_id,
                },
            ),
            Err(e) => Err(e),
        }
    } else if same_text(key, "type") {
        match parse_value(key, value) {
            Ok(v) => Ok(
                HeaderSlots {
                    station_id: slots.station_id,
                    type_id: Some(v),
                    message_id: slots.message_id,
                },
            ),
            Err(e) => Err(e),
        }
    } else if same_text(key, "messageid") {
        match parse_count(key, value) {
            Ok(v) => Ok(
                HeaderSlots {
                    station_id: slots.station_id,
                    type_id: slots.type_id,
                    message_id: Some(v),
                },
            ),
            Err(e) => Err(e),
        }
    } else if same_text(key, "received_time") {
        Ok(slots)
    } else {
        Err(unexpected_field_error(field))
    }
}

impl ObsinnHeader {
    /// Decodes the header line of a message.
    pub fn parse(meta: &str) -> (r: Result<ObsinnHeader, Error>)
        ensures
            decodes_to(r, header_of(meta@)),
    {
        let fields = split_text(meta, '/');
        let ghost fs = split(meta@, '/');
        proof {
            lemma_split_nonempty(meta@, '/');
            assert(views(fields@).len() == fields@.len());
            assert(views(fields@)[0] == fields@[0]@);
        }
        if !same_text(fields[0], "kldata") {
            return Err(
                Error::Parse(String::from_str("kldata indicator missing or out of order")),
            );
        }
        let mut slots = HeaderSlots { station_id: None, type_id: None, message_id: None };
        let mut i: usize = 1;
        while i < fields.len()
            invariant
                1 <= i <= fields@.len(),
                views(fields@) == fs,
                fs == split(meta@, '/'),
                fs[0] == "kldata"@,
                read_fields(fs, i as int, slots) == read_fields(fs, 1, no_slots()),
            decreases fields@.len() - i,
        {
            assert(views(fields@)[i as int] == fields@[i as int]@);
            match parse_field(slots, fields[i]) {
                Ok(next) => {
                    slots = next;
                },
                Err(e) => {
                    return Err(e);
                },
            }
            i += 1;
        }
        let station_id: i32 = match slots.station_id {
            Some(v) => v,
            None => {
                return Err(
                    Error::Parse(String::from_str("missing field `nationalnr` in kldata header")),
                );
            },
        };
        let type_id: i32 = match slots.type_id {
            Some(v) => v,
            None => {
                return Err(
                    Error::Parse(String::from_str("missing field `type` in kldata header")),
                );
            },
        };
        let message_id: usize = match slots.message_id {
            Some(v) => v,
            None => 0,
        };
        Ok(ObsinnHeader { station_id, type_id, message_id })
    }
}

/// The views of a list of column identities.
pub open spec fn id_views(ids: Seq<ObsinnId>) -> Seq<ObsinnIdView> {
    ids.map_values(|c: ObsinnId| c@)
}

/// The views of a list of chunks.
pub open spec fn chunk_views(chunks: Seq<ObsinnChunk>) -> Seq<ObsinnChunkView> {
    chunks.map_values(|c: ObsinnChunk| c@)
}

/// Whether `c` can stand in a parameter code.
pub open spec fn is_name_char(c: char) -> bool {
    c != '(' && c != ')' && c != ','
}

/// Where the run of code characters that starts at `from` ends.
pub open spec fn name_end(s: Seq<char>, from: int) -> int
    decreases s.len() - from,
{
    if 0 <= from < s.len() && is_name_char(s[from]) {
        name_end(s, from + 1)
    } else {
        from
    }
}

proof fn lemma_name_end_bounds(s: Seq<char>, from: int)
    requires
        0 <= from <= s.len(),
    ensures
        from <= name_end(s, from) <= s.len(),
    decreases s.len() - from,
{
    if from < s.len() && is_name_char(s[from]) {
        lemma_name_end_bounds(s, from + 1);
    }
}

fn scan_name(chars: &Vec<char>, from: usize) -> (r: usize)
    requires
        from <= chars@.len(),
    ensures
        r == name_end(chars@, from as int),
        from <= r <= chars@.len(),
{
    let mut i: usize = from;
    while i < chars.len() && chars[i] != '(' && chars[i] != ')' && chars[i] != ','
        invariant
            from <= i <= chars@.len(),
            name_end(chars@, from as int) == name_end(chars@, i as int),
        decreases chars@.len() - i,
    {
        i += 1;
    }
    i
}

/// Where the block `(digits,digits)` that starts at `at` ends, if one starts
/// there.
pub open spec fn block_end(s: Seq<char>, at: int) -> Option<int> {
    if 0 <= at < s.len() && s[at] == '(' {
        let comma = digits_end(s, at + 1);
        if comma > at + 1 && comma < s.len() && s[comma] == ',' {
            let close = digits_end(s, comma + 1);
            if close > comma + 1 && close < s.len() && s[close] == ')' {
                Some(close + 1)
            } else {
                None
            }
        } else {
            None
        }
    } else {
        None
    }
}

/// Finds the comma and the end of the block that starts at `at`.
fn scan_block(chars: &Vec<char>, at: usize) -> (r: Option<(usize, usize)>)
    requires
        at <= chars@.len(),
    ensures
        match block_end(chars@, at as int) {
            None => r is None,
            Some(end) => r == Some((digits_end(chars@, at + 1) as usize, end as usize)) && at + 1
                < digits_end(chars@, at + 1) && digits_end(chars@, at + 1) + 2 < end
                <= chars@.len(),
        },
{
    let n: usize = chars.len();
    if at >= n || chars[at] != '(' {
        return None;
    }
    let comma: usize = scan_digits(chars, at + 1);
    if comma == at + 1 || comma >= n || chars[comma] != ',' {
        return None;
    }
    let close: usize = scan_digits(chars, comma + 1);
    if close == comma + 1 || close >= n || chars[close] != ')' {
        return None;
    }
    Some((comma, close + 1))
}

/// The columns that the text from `from` on declares, after those in `acc`.
/// Separators are passed over; a column is a run of code characters, with
/// the sensor and the level where a block `(sensor,level)` follows it at
/// once. A sensor or level too large for an `i32` fails.
pub open spec fn columns_from(s: Seq<char>, from: int, acc: Seq<ObsinnIdView>) -> Result<
    Seq<ObsinnIdView>,
    Seq<char>,
>
    decreases s.len() - from,
{
    if from < 0 || from >= s.len() {
        Ok(acc)
    } else if !is_name_char(s[from]) {
        columns_from(s, from + 1, acc)
    } else {
        let e = name_end(s, from);
        let code = s.subrange(from, e);
        match block_end(s, e) {
            None => columns_from(
                s,
                if from < e <= s.len() {
                    e
                } else {
                    from + 1
                },
                acc.push(ObsinnIdView { param_code: code, sensor_and_level: None }),
            ),
            Some(end) => {
                let comma = digits_end(s, e + 1);
                let sensor = i32_text(s.subrange(e + 1, comma));
                let level = i32_text(s.subrange(comma + 1, end - 1));
                if sensor is Some && level is Some {
                    columns_from(
                        s,
                        if from < end <= s.len() {
                            end
                        } else {
                            from + 1
                        },
                        acc.push(
                            ObsinnIdView {
                                param_code: code,
                                sensor_and_level: Some((sensor->Some_0, level->Some_0)),
                            },
                        ),
                    )
                } else {
                    Err("sensor or level out of range in kldata columns"@)
                }
            },
        }
    }
}

/// The columns that a line of columns declares.
pub open spec fn columns_of(s: Seq<char>) -> Result<Seq<ObsinnIdView>, Seq<char>> {
    columns_from(s, 0, Seq::empty())
}

/// Decodes the line of columns of a message.
pub fn parse_columns(cols_raw: &str) -> (r: Result<Vec<ObsinnId>, Error>)
    ensures
        match columns_of(cols_raw@) {
            Ok(ids) => r is Ok && id_views(r->Ok_0@) == ids,
            Err(m) => r is Err && r->Err_0 is Parse && r->Err_0.text() == m,
        },
{
    let chars = chars_of(cols_raw);
    let n: usize = chars.len();
    let mut out: Vec<ObsinnId> = Vec::new();
    let mut pos: usize = 0;
    assert(id_views(out@) == Seq::<ObsinnIdView>::empty());
    while pos < n
        invariant
            chars@ == cols_raw@,
            n == chars@.len(),
            pos <= n,
            columns_from(chars@, pos as int, id_views(out@)) == columns_of(cols_raw@),
        decreases n - pos,
    {
        let c: char = chars[pos];
        if c == '(' || c == ')' || c == ',' {
            pos += 1;
        } else {
            let e: usize = scan_name(&chars, pos);
            proof {
                lemma_name_end_bounds(chars@, pos + 1);
            }
            let code = cols_raw.substring_char(pos, e);
            let ghost before = out@;
            match scan_block(&chars, e) {
                None => {
                    let id = ObsinnId { param_code: code.to_owned(), sensor_and_level: None };
                    out.push(id);
                    assert(id_views(out@) == id_views(before).push(id@));
                    pos = e;
                },
                Some((comma, end)) => {
                    let sensor = read_i32(cols_raw.substring_char(e + 1, comma));
                    let level = read_i32(cols_raw.substring_char(comma + 1, end - 1));
                    match (sensor, level) {
                        (Some(sensor), Some(level)) => {
                            let id = ObsinnId {
                                param_code: code.to_owned(),
                                sensor_and_level: Some((sensor, level)),
                            };
                            out.push(id);
                            assert(id_views(out@) == id_views(before).push(id@));
                            pos = end;
                        },
                        _ => {
                            return Err(
                                Error::Parse(
                                    String::from_str(
                                        "sensor or level out of range in kldata columns",
                                    ),
                                ),
                            );
                        },
                    }
                },
            }
        }
    }
    Ok(out)
}

/// The value of an observation of the parameter `code`: a parameter that
/// the table knows as scalar takes a decimal literal and nothing else; any
/// other parameter, known or not, takes the text as it is.
pub open spec fn observation_value(
    table: Map<Seq<char>, ReferenceParamView>,
    code: Seq<char>,
    val: Seq<char>,
) -> Result<ObsTypeView, Seq<char>> {
    if table.contains_key(code) && table[code].is_scalar {
        if is_float_text(val) {
            Ok(ObsTypeView::Scalar(val))
        } else {
            Err("value "@ + val + " could not be parsed as float"@)
        }
    } else {
        Ok(ObsTypeView::NonScalar(val))
    }
}

/// The observations that the fields of a row from `i` on give, after those
/// in `acc`. Field `i` belongs to column `i - 1`; a field without a column
/// fails.
pub open spec fn observations_from(
    fields: Seq<Seq<char>>,
    i: int,
    acc: Seq<ObsinnObsView>,
    columns: Seq<ObsinnIdView>,
    table: Map<Seq<char>, ReferenceParamView>,
) -> Result<Seq<ObsinnObsView>, Seq<char>>
    decreases fields.len() - i,
{
    if i < 1 || i >= fields.len() {
        Ok(acc)
    } else if i - 1 >= columns.len() {
        Err("more values than columns in kldata csv row"@)
    } else {
        match observation_value(table, columns[i - 1].param_code, fields[i]) {
            Err(m) => Err(m),
            Ok(v) => observations_from(
                fields,
                i + 1,
                acc.push(ObsinnObsView { id: columns[i - 1], value: v }),
                columns,
                table,
            ),
        }
    }
}

/// The chunk that a row gives. `fields` are the comma-separated fields of
/// the row and `stamp` is what reading the first of them as an instant gave.
/// A refused instant fails with the refusal; a row without values is an
/// empty row.
pub open spec fn chunk_of(
    fields: Seq<Seq<char>>,
    stamp: Result<i64, Seq<char>>,
    columns: Seq<ObsinnIdView>,
    table: Map<Seq<char>, ReferenceParamView>,
    header: ObsinnHeader,
) -> Result<ObsinnChunkView, Seq<char>> {
    match stamp {
        Err(m) => Err(m),
        Ok(t) => match observations_from(fields, 1, Seq::empty(), columns, table) {
            Err(m) => Err(m),
            Ok(obs) => if obs.len() == 0 {
                Err("empty row in kldata csv"@)
            } else {
                Ok(
                    ObsinnChunkView {
                        observations: obs,
                        station_id: header.station_id,
                        type_id: header.type_id,
                        timestamp: t,
                    },
                )
            },
        },
    }
}

/// Classifies one value against the reference table.
pub fn classify_value(params: &ParamConversions, code: &str, val: &str) -> (r: Result<
    ObsType,
    Error,
>)
    ensures
        match observation_value(params@, code@, val@) {
            Ok(v) => r is Ok && r->Ok_0@ == v,
            Err(m) => r is Err && r->Err_0 is Parse && r->Err_0.text() == m,
        },
{
    match params.get(code) {
        Some(param) => {
            if param.is_scalar {
                if is_float(val) {
                    Ok(ObsType::Scalar(val.to_owned()))
                } else {
                    Err(
                        Error::Parse(
                            String::from_str("value ").concat(val).concat(
                                " could not be parsed as float",
                            ),
                        ),
                    )
                }
            } else {
                Ok(ObsType::NonScalar(val.to_owned()))
            }
        },
        None => Ok(ObsType::NonScalar(val.to_owned())),
    }
}

/// Decodes one row from its fields and from what reading its first field as
/// an instant gave.
pub fn decode_row(
    fields: &Vec<&str>,
    stamp: Result<i64, String>,
    columns: &Vec<ObsinnId>,
    params: &ParamConversions,
    header: &ObsinnHeader,
) -> (r: Result<ObsinnChunk, Error>)
    ensures
        match chunk_of(
            views(fields@),
            crate::time::instant_or_refusal(stamp),
            id_views(columns@),
            params@,
            *header,
        ) {
            Ok(chunk) => r is Ok && r->Ok_0@ == chunk,
            Err(m) => r is Err && r->Err_0 is Parse && r->Err_0.text() == m,
        },
{
    let timestamp: i64 = match &stamp {
        Ok(t) => *t,
        Err(m) => {
            return Err(Error::Parse(m.clone()));
        },
    };
    let ghost fs = views(fields@);
    let ghost cols = id_views(columns@);
    let mut obs: Vec<ObsinnObs> = Vec::new();
    let mut i: usize = 1;
    assert(obs@.map_values(|o: ObsinnObs| o@) == Seq::<ObsinnObsView>::empty());
    while i < fields.len()
        invariant
            1 <= i,
            stamp == Ok::<i64, String>(timestamp),
            fs == views(fields@),
            fs.len() == fields@.len(),
            cols == id_views(columns@),
            cols.len() == columns@.len(),
            observations_from(fs, i as int, obs@.map_values(|o: ObsinnObs| o@), cols, params@)
                == observations_from(fs, 1, Seq::empty(), cols, params@),
        decreases fields@.len() - i,
    {
        if i - 1 >= columns.len() {
            return Err(
                Error::Parse(String::from_str("more values than columns in kldata csv row")),
            );
        }
        let col = &columns[i - 1];
        assert(cols[i - 1] == col@);
        assert(fs[i as int] == fields@[i as int]@);
        let value = match classify_value(params, col.param_code.as_str(), fields[i]) {
            Ok(v) => v,
            Err(e) => {
                return Err(e);
            },
        };
        let one = ObsinnObs {
            id: ObsinnId {
                param_code: col.param_code.clone(),
                sensor_and_level: col.sensor_and_level,
            },
            value,
        };
        let ghost before = obs@;
        obs.push(one);
        assert(obs@.map_values(|o: ObsinnObs| o@) == before.map_values(|o: ObsinnObs| o@).push(
            one@,
        ));
        i += 1;
    }
    if obs.len() == 0 {
        return Err(Error::Parse(String::from_str("empty row in kldata csv")));
    }
    Ok(
        ObsinnChunk {
            observations: obs,
            station_id: header.station_id,
            type_id: header.type_id,
            timestamp,
        },
    )
}

/// The format of the instant that starts a row.
pub open spec fn stamp_format() -> Seq<char> {
    "%Y%m%d%H%M%S"@
}

/// The chunks that the rows from `i` on give, after those in `acc`: one per
/// row, the first row that fails deciding. A body that gives no chunk at all
/// is an empty row.
pub open spec fn chunks_from(
    rows: Seq<Seq<char>>,
    i: int,
    acc: Seq<ObsinnChunkView>,
    columns: Seq<ObsinnIdView>,
    table: Map<Seq<char>, ReferenceParamView>,
    header: ObsinnHeader,
) -> Result<Seq<ObsinnChunkView>, Seq<char>>
    decreases rows.len() - i,
{
    if i < 0 || i >= rows.len() {
        if acc.len() == 0 {
            Err("empty row in kldata csv"@)
        } else {
            Ok(acc)
        }
    } else {
        let fields = split(rows[i], ',');
        let stamp = naive_datetime_from_str(fields[0], stamp_format());
        match chunk_of(fields, stamp, columns, table, header) {
            Err(m) => Err(m),
            Ok(chunk) => chunks_from(rows, i + 1, acc.push(chunk), columns, table, header),
        }
    }
}

fn parse_rows(
    rows: &Vec<&str>,
    from: usize,
    columns: &Vec<ObsinnId>,
    params: &ParamConversions,
    header: &ObsinnHeader,
) -> (r: Result<Vec<ObsinnChunk>, Error>)
    ensures
        match chunks_from(
            views(rows@),
            from as int,
            Seq::empty(),
            id_views(columns@),
            params@,
            *header,
        ) {
            Ok(chunks) => r is Ok && chunk_views(r->Ok_0@) == chunks,
            Err(m) => r is Err && r->Err_0 is Parse && r->Err_0.text() == m,
        },
{
    let ghost rs = views(rows@);
    let ghost cols = id_views(columns@);
    let mut chunks: Vec<ObsinnChunk> = Vec::new();
    let mut i: usize = from;
    assert(chunk_views(chunks@) == Seq::<ObsinnChunkView>::empty());
    while i < rows.len()
        invariant
            rs == views(rows@),
            cols == id_views(columns@),
            chunks_from(rs, i as int, chunk_views(chunks@), cols, params@, *header) == chunks_from(
                rs,
                from as int,
                Seq::empty(),
                cols,
                params@,
                *header,
            ),
        decreases rows@.len() - i,
    {
        assert(rs[i as int] == rows@[i as int]@);
        let fields = split_text(rows[i], ',');
        proof {
            lemma_split_nonempty(rows@[i as int]@, ',');
            assert(views(fields@).len() == fields@.len());
            assert(views(fields@)[0] == fields@[0]@);
        }
        let stamp = read_datetime(fields[0], "%Y%m%d%H%M%S");
        let chunk = match decode_row(&fields, stamp, columns, params, header) {
            Ok(chunk) => chunk,
            Err(e) => {
                return Err(e);
            },
        };
        let ghost before = chunks@;
        let ghost view = chunk@;
        chunks.push(chunk);
        assert(chunk_views(chunks@) == chunk_views(before).push(view));
        i += 1;
    }
    if chunks.len() == 0 {
        return Err(Error::Parse(String::from_str("empty row in kldata csv")));
    }
    Ok(chunks)
}

/// Decodes the rows of a message, one chunk per row.
pub fn parse_obs(
    csv_body: &Vec<&str>,
    columns: &Vec<ObsinnId>,
    reference_params: &ParamConversions,
    header: ObsinnHeader,
) -> (r: Result<Vec<ObsinnChunk>, Error>)
    ensures
        match chunks_from(
            views(csv_body@),
            0,
            Seq::empty(),
            id_views(columns@),
            reference_params@,
            header,
        ) {
            Ok(chunks) => r is Ok && chunk_views(r->Ok_0@) == chunks,
            Err(m) => r is Err && r->Err_0 is Parse && r->Err_0.text() == m,
        },
{
    parse_rows(csv_body, 0, columns, reference_params, &header)
}

/// What a message decodes to: the message id and one chunk per row. The
/// first line is the header and the second the columns; a message without
/// one of them has too few lines.
pub open spec fn kldata_of(msg: Seq<char>, table: Map<Seq<char>, ReferenceParamView>) -> Result<
    (usize, Seq<ObsinnChunkView>),
    Seq<char>,
> {
    let ls = lines(msg);
    if ls.len() < 1 {
        Err("kldata message contained too few lines"@)
    } else {
        match header_of(ls[0]) {
            Err(m) => Err(m),
            Ok(header) => if ls.len() < 2 {
                Err("kldata message contained too few lines"@)
            } else {
                match columns_of(ls[1]) {
                    Err(m) => Err(m),
                    Ok(columns) => match chunks_from(ls, 2, Seq::empty(), columns, table, header) {
                        Err(m) => Err(m),
                        Ok(chunks) => Ok((header.message_id, chunks)),
                    },
                }
            },
        }
    }
}

/// Decodes a message.
pub fn parse_kldata(msg: &str, reference_params: &ParamConversions) -> (r: Result<
    (usize, Vec<ObsinnChunk>),
    Error,
>)
    ensures
        match kldata_of(msg@, reference_params@) {
            Ok(decoded) => r is Ok && (r->Ok_0).0 == decoded.0 && chunk_views((r->Ok_0).1@)
                == decoded.1,
            Err(m) => r is Err && r->Err_0 is Parse && r->Err_0.text() == m,
        },
{
    let rows = split_lines(msg);
    assert(views(rows@).len() == rows@.len());
    if rows.len() < 1 {
        return Err(Error::Parse(String::from_str("kldata message contained too few lines")));
    }
    assert(views(rows@)[0] == rows@[0]@);
    let header = match ObsinnHeader::parse(rows[0]) {
        Ok(header) => header,
        Err(e) => {
            return Err(e);
        },
    };
    if rows.len() < 2 {
        return Err(Error::Parse(String::from_str("kldata message contained too few lines")));
    }
    assert(views(rows@)[1] == rows@[1]@);
    let columns = match parse_columns(rows[1]) {
        Ok(columns) => columns,
        Err(e) => {
            return Err(e);
        },
    };
    match parse_rows(&rows, 2, &columns, reference_params, &header) {
        Ok(chunks) => Ok((header.message_id, chunks)),
        Err(e) => Err(e),
    }
}

/// The resolution at which stations report under a message type, for the
/// types of which it is known.
pub open spec fn resolution_of_type(type_id: i32) -> Option<TimeResolution> {
    if type_id == 514 {
        Some(TimeResolution::spec_of_seconds(60))
    } else if type_id == 506 || type_id == 509 || type_id == 510 {
        Some(TimeResolution::spec_of_seconds(600))
    } else if type_id == 7 || type_id == 311 || type_id == 330 || type_id == 342 || type_id == 501
        || type_id == 502 || type_id == 503 || type_id == 505 || type_id == 507 || type_id
        == 511 {
        Some(TimeResolution::spec_of_seconds(3600))
    } else if type_id == 522 {
        Some(TimeResolution::spec_of_seconds(86400))
    } else if type_id == 399 {
        Some(TimeResolution::spec_of_months(12))
    } else {
        None
    }
}

/// The resolutions at which stations report, from the finest to the
/// coarsest.
pub fn reporting_resolutions() -> (r: Vec<TimeResolution>)
    ensures
        r@ == seq![
            TimeResolution::spec_of_seconds(60),
            TimeResolution::spec_of_seconds(600),
            TimeResolution::spec_of_seconds(3600),
            TimeResolution::spec_of_seconds(86400),
            TimeResolution::spec_of_months(12),
        ],
        forall|type_id: i32| #[trigger]
            resolution_of_type(type_id) is Some ==> r@.contains(
                resolution_of_type(type_id)->Some_0,
            ),
{
    let mut r: Vec<TimeResolution> = Vec::new();
    r.push(TimeResolution::of_seconds(60));
    r.push(TimeResolution::of_seconds(600));
    r.push(TimeResolution::of_seconds(3600));
    r.push(TimeResolution::of_seconds(86400));
    r.push(TimeResolution::of_months(12));
    assert(r@[0] == TimeResolution::spec_of_seconds(60));
    assert(r@[1] == TimeResolution::spec_of_seconds(600));
    assert(r@[2] == TimeResolution::spec_of_seconds(3600));
    assert(r@[3] == TimeResolution::spec_of_seconds(86400));
    assert(r@[4] == TimeResolution::spec_of_months(12));
    r
}

/// The resolution at which stations report under the message type `type_id`.
pub fn type_id_to_time_resolution(type_id: i32) -> (r: Option<TimeResolution>)
    ensures
        r == resolution_of_type(type_id),
{
    match type_id {
        514 => Some(TimeResolution::of_seconds(60)),
        506 | 509 | 510 => Some(TimeResolution::of_seconds(600)),
        7 | 311 | 330 | 342 | 501 | 502 | 503 | 505 | 507 | 511 => Some(
            TimeResolution::of_seconds(3600),
        ),
        522 => Some(TimeResolution::of_seconds(86400)),
        399 => Some(TimeResolution::of_months(12)),
        _ => None,
    }
}

/// Whether `field` is `key=..`.
pub open spec fn names(field: Seq<char>, key: Seq<char>) -> bool {
    field.index_of_first('=') == Some(key.len() as int) && field.subrange(0, key.len() as int)
        == key
}

/// Whether the header decoder knows `field`.
pub open spec fn is_known_field(field: Seq<char>) -> bool {
    ||| field == "add"@
    ||| names(field, "nationalnr"@)
    ||| names(field, "type"@)
    ||| names(field, "messageid"@)
    ||| names(field, "received_time"@)
}

proof fn lemma_station_stays_unset(fields: Seq<Seq<char>>, i: int, slots: HeaderSlots)
    requires
        0 <= i,
        slots.station_id is None,
        forall|j: int| i <= j < fields.len() ==> !names(#[trigger] fields[j], "nationalnr"@),
    ensures
        read_fields(fields, i, slots) is Ok ==> read_fields(fields, i, slots)->Ok_0.station_id
            is None,
    decreases fields.len() - i,
{
    if i < fields.len() {
        assert(!names(fields[i], "nationalnr"@));
        match read_field(slots, fields[i]) {
            Ok(next) => {
                fields[i].index_of_first_ensures('=');
                lemma_station_stays_unset(fields, i + 1, next);
            },
            Err(_) => {},
        }
    }
}

proof fn lemma_type_stays_unset(fields: Seq<Seq<char>>, i: int, slots: HeaderSlots)
    requires
        0 <= i,
        slots.type_id is None,
        forall|j: int| i <= j < fields.len() ==> !names(#[trigger] fields[j], "type"@),
    ensures
        read_fields(fields, i, slots) is Ok ==> read_fields(fields, i, slots)->Ok_0.type_id
            is None,
    decreases fields.len() - i,
{
    if i < fields.len() {
        assert(!names(fields[i], "type"@));
        match read_field(slots, fields[i]) {
            Ok(next) => {
                fields[i].index_of_first_ensures('=');
                lemma_type_stays_unset(fields, i + 1, next);
            },
            Err(_) => {},
        }
    }
}

proof fn lemma_unknown_field_fails(fields: Seq<Seq<char>>, i: int, at: int, slots: HeaderSlots)
    requires
        0 <= i <= at < fields.len(),
        !is_known_field(fields[at]),
    ensures
        read_fields(fields, i, slots) is Err,
    decreases at - i,
{
    match read_field(slots, fields[i]) {
        Ok(next) => {
            if i == at {
                fields[at].index_of_first_ensures('=');
                assert(false);
            } else {
                lemma_unknown_field_fails(fields, i + 1, at, next);
            }
        },
        Err(_) => {},
    }
}

/// A header line without a field `nationalnr=..` fails to decode.
pub proof fn lemma_missing_station_fails(meta: Seq<char>)
    requires
        forall|j: int|
            1 <= j < split(meta, '/').len() ==> !names(
                #[trigger] split(meta, '/')[j],
                "nationalnr"@,
            ),
    ensures
        header_of(meta) is Err,
{
    lemma_station_stays_unset(split(meta, '/'), 1, no_slots());
}

/// A header line without a field `type=..` fails to decode.
pub proof fn lemma_missing_type_fails(meta: Seq<char>)
    requires
        forall|j: int|
            1 <= j < split(meta, '/').len() ==> !names(#[trigger] split(meta, '/')[j], "type"@),
    ensures
        header_of(meta) is Err,
{
    lemma_type_stays_unset(split(meta, '/'), 1, no_slots());
}

/// A header line with a field that the decoder does not know fails to
/// decode, wherever the field stands after the indicator.
pub proof fn lemma_unrecognised_field_fails(meta: Seq<char>, at: int)
    requires
        1 <= at < split(meta, '/').len(),
        !is_known_field(split(meta, '/')[at]),
    ensures
        header_of(meta) is Err,
{
    lemma_unknown_field_fails(split(meta, '/'), 1, at, no_slots());
}

/// A message that is a header line and nothing else has too few lines.
pub proof fn lemma_header_alone_is_too_short(
    msg: Seq<char>,
    table: Map<Seq<char>, ReferenceParamView>,
)
    requires
        lines(msg).len() == 1,
        header_of(lines(msg)[0]) is Ok,
    ensures
        kldata_of(msg, table) == Err::<(usize, Seq<ObsinnChunkView>), Seq<char>>(
            "kldata message contained too few lines"@,
        ),
{
}

/// A row that is an instant and nothing else is an empty row, and so is a
/// body without rows.
pub proof fn lemma_row_without_values_is_empty(
    fields: Seq<Seq<char>>,
    instant: i64,
    rows: Seq<Seq<char>>,
    columns: Seq<ObsinnIdView>,
    table: Map<Seq<char>, ReferenceParamView>,
    header: ObsinnHeader,
)
    requires
        fields.len() == 1,
    ensures
        chunk_of(fields, Ok(instant), columns, table, header) == Err::<ObsinnChunkView, Seq<char>>(
            "empty row in kldata csv"@,
        ),
        chunks_from(rows, rows.len() as int, Seq::empty(), columns, table, header) == Err::<
            Seq<ObsinnChunkView>,
            Seq<char>,
        >("empty row in kldata csv"@),
{
}

} // verus!
