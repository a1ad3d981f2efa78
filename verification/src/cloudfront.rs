//! Lines of the access logs of a content delivery network.
//!
//! A line holds twenty-six fields between tabs: the date and the time of a
//! request, where it was served, what was asked for and what was answered. A
//! line whose first visible character is a hash is a comment.
//!
//! Dates and times are read by `chrono`, methods and status codes by `http`,
//! addresses by `url`. A row holds what they give as plain values.

use vstd::prelude::*;
use vstd::std_specs::iter::IteratorSpec;
use crate::cloudfront::fields::{fields, split, texts};
use crate::cloudfront::number::{all_digits, digits_value, number_u64, parse_u64};

pub mod fields;
pub mod number;

verus! {

/// The number of fields of a line.
pub const FIELDS: usize = 26;

/// The days from the first of January of the year one to that of 1970.
pub const EPOCH_DAYS: i64 = 719_163;

/// The text of a field that holds nothing.
pub open spec fn dash() -> Seq<char> {
    seq!['-']
}

/// The status of a request that was not answered.
pub open spec fn no_status() -> Seq<char> {
    seq!['0', '0', '0']
}

/// What a field holds: nothing if it is a dash.
pub open spec fn unless_dash(text: Seq<char>) -> Option<Seq<char>> {
    if text == dash() {
        None
    } else {
        Some(text)
    }
}

/// The day that `chrono` reads from `text` in the format `format`, counted
/// from the first of January of the year one as day one.
pub uninterp spec fn days_of(text: Seq<char>, format: Seq<char>) -> Option<i32>;

/// The time of day that `chrono` reads from `text` in the format `format`:
/// the seconds since midnight, and the nanoseconds since the whole second.
pub uninterp spec fn clock_of(text: Seq<char>, format: Seq<char>) -> Option<(u32, u32)>;

/// The method of a request that `http` reads from `text`, as text.
pub uninterp spec fn method_of(text: Seq<char>) -> Option<Seq<char>>;

/// The address that `url` reads from `text`, as it writes it.
pub uninterp spec fn url_of(text: Seq<char>) -> Option<Seq<char>>;

/// Whether a character is white space.
pub uninterp spec fn white_space(c: char) -> bool;

/// The status code that a text stands for: three digits, the first of them
/// not zero.
pub open spec fn status_of(text: Seq<char>) -> Option<u16> {
    if text.len() == 3 && all_digits(text) && text[0] != '0' {
        Some(digits_value(text) as u16)
    } else {
        None
    }
}

/// The address of a request: the protocol, the host, the path and, unless it
/// is a dash, the query.
pub open spec fn url_text(
    protocol: Seq<char>,
    host: Seq<char>,
    stem: Seq<char>,
    query: Seq<char>,
) -> Seq<char> {
    protocol + seq![':', '/', '/'] + host + stem + if query == dash() {
        Seq::<char>::empty()
    } else {
        seq!['?'] + query
    }
}

/// The seconds from the start of 1970 to `clock` seconds after midnight of
/// day `days`.
pub open spec fn seconds_since_epoch(days: i32, clock: u32) -> int {
    (days - EPOCH_DAYS) * 86_400 + clock
}

/// Reads a date.
///
/// Calls `chrono::NaiveDate::parse_from_str` and takes the number of the day
/// with `chrono::Datelike::num_days_from_ce`. The day read depends on the
/// text and the format alone.
#[verifier::external_body]
pub(crate) fn parse_date(text: &str, format: &str) -> (days: Option<i32>)
    ensures
        days == days_of(text@, format@),
{
    match chrono::NaiveDate::parse_from_str(text, format) {
        Ok(date) => Some(chrono::Datelike::num_days_from_ce(&date)),
        Err(_) => None,
    }
}

/// Reads a time of day.
///
/// Calls `chrono::NaiveTime::parse_from_str` and takes the seconds since
/// midnight and the nanoseconds with the methods of `chrono::Timelike`. The
/// time read depends on the text and the format alone.
#[verifier::external_body]
pub(crate) fn parse_clock(text: &str, format: &str) -> (clock: Option<(u32, u32)>)
    ensures
        clock == clock_of(text@, format@),
{
    match chrono::NaiveTime::parse_from_str(text, format) {
        Ok(time) => Some(
            (
                chrono::Timelike::num_seconds_from_midnight(&time),
                chrono::Timelike::nanosecond(&time),
            ),
        ),
        Err(_) => None,
    }
}

/// Reads the method of a request.
///
/// Calls `http::Method::from_str` and takes the text of the method with
/// `http::Method::as_str`.
#[verifier::external_body]
pub(crate) fn parse_method(text: &str) -> (method: Option<String>)
    ensures
        match method {
            Some(name) => method_of(text@) == Some(name@),
            None => method_of(text@) is None,
        },
{
    match text.parse::<http::Method>() {
        Ok(method) => Some(method.as_str().to_owned()),
        Err(_) => None,
    }
}

/// Reads an address.
///
/// Calls `url::Url::parse` and takes the address as `url` writes it.
#[verifier::external_body]
pub(crate) fn parse_url(text: &str) -> (url: Option<String>)
    ensures
        match url {
            Some(address) => url_of(text@) == Some(address@),
            None => url_of(text@) is None,
        },
{
    match url::Url::parse(text) {
        Ok(url) => Some(String::from(url)),
        Err(_) => None,
    }
}

/// Reads a status code.
///
/// Calls `http::StatusCode::from_bytes`, which takes three bytes that are
/// digits, the first of them not zero, and takes the number with
/// `http::StatusCode::as_u16`.
#[verifier::external_body]
pub(crate) fn parse_status(text: &str) -> (status: Option<u16>)
    ensures
        status == status_of(text@),
{
    match http::StatusCode::from_bytes(text.as_bytes()) {
        Ok(status) => Some(status.as_u16()),
        Err(_) => None,
    }
}

/// Whether a character is white space.
///
/// Calls `char::is_whitespace`.
#[verifier::external_body]
pub(crate) fn is_white_space(c: char) -> (b: bool)
    ensures
        b == white_space(c),
{
    c.is_whitespace()
}

/// Why a line is no row.
#[derive(Debug, PartialEq, Eq, Clone, Copy)]
pub enum RowError {
    /// The line does not have twenty-six fields.
    Fields,
    /// The date or the time cannot be read.
    Time,
    /// A number of bytes cannot be read.
    Number,
    /// The method cannot be read.
    Method,
    /// The protocol, the host, the path and the query make no address.
    Url,
    /// The status is neither three zeros nor a status code.
    Status,
}

/// One request, as a line of the log tells it. The address of the client
/// and the time taken are held as the line writes them.
#[derive(Debug, PartialEq, Eq, Clone)]
pub struct CloudfrontRow {
    /// The seconds from the start of 1970 to the request.
    pub time: i64,
    /// The nanoseconds since the whole second: a thousand million and more in
    /// a leap second.
    pub time_nanos: u32,
    pub edge_location: String,
    pub response_bytes: u64,
    pub remote_ip: String,
    pub method: String,
    pub host: String,
    pub url: String,
    pub status: Option<u16>,
    pub user_agent: Option<String>,
    pub referer: Option<String>,
    pub cookie: Option<String>,
    pub result_type: String,
    pub request_id: String,
    pub request_bytes: u64,
    pub time_taken: String,
    pub forwarded_for: Option<String>,
    pub ssl_protocol_cipher: Option<(String, String)>,
    pub response_result_type: String,
    pub http_version: String,
    pub fle_status: Option<String>,
    pub fle_encrypted_fields: Option<String>,
}

/// The text that an optional string holds.
pub open spec fn text_of(held: Option<String>) -> Option<Seq<char>> {
    match held {
        Some(text) => Some(text@),
        None => None,
    }
}

/// What has been read out of the fields of a line: the day, the time of day,
/// the two numbers of bytes, the method, the address and the status.
pub struct Readings {
    pub days: i32,
    pub clock: (u32, u32),
    pub response_bytes: u64,
    pub request_bytes: u64,
    pub method: String,
    pub url: String,
    pub status: Option<u16>,
}

impl CloudfrontRow {
    /// Whether the row holds what was read out of the fields of a line.
    pub open spec fn holds(&self, read: Readings) -> bool {
        &&& self.time == seconds_since_epoch(read.days, read.clock.0)
        &&& self.time_nanos == read.clock.1
        &&& self.response_bytes == read.response_bytes
        &&& self.request_bytes == read.request_bytes
        &&& self.method == read.method
        &&& self.url == read.url
        &&& self.status == read.status
    }

    /// Whether the row holds the fields of `f` that are held as they are
    /// written, those that are a dash as nothing.
    pub open spec fn carries(&self, f: Seq<Seq<char>>) -> bool {
        &&& self.edge_location@ == f[2]
        &&& self.remote_ip@ == f[4]
        &&& self.host@ == f[6]
        &&& text_of(self.user_agent) == unless_dash(f[10])
        &&& text_of(self.referer) == unless_dash(f[9])
        &&& text_of(self.cookie) == unless_dash(f[12])
        &&& self.result_type@ == f[13]
        &&& self.request_id@ == f[14]
        &&& self.time_taken@ == f[18]
        &&& text_of(self.forwarded_for) == unless_dash(f[19])
        &&& match self.ssl_protocol_cipher {
            Some((protocol, cipher)) => protocol@ == f[20] && cipher@ == f[21] && !(f[20] == dash()
                && f[21] == dash()),
            None => f[20] == dash() && f[21] == dash(),
        }
        &&& self.response_result_type@ == f[22]
        &&& self.http_version@ == f[23]
        &&& text_of(self.fle_status) == unless_dash(f[24])
        &&& text_of(self.fle_encrypted_fields) == unless_dash(f[25])
    }

    /// Makes the row of the fields of a line and of what was read out of
    /// them.
    pub fn of_fields(values: &Vec<String>, read: Readings) -> (row: Self)
        requires
            values.len() == FIELDS,
        ensures
            row.holds(read),
            row.carries(texts(values@)),
    {
        let ssl_protocol_cipher = if is_dash(values[20].as_str()) && is_dash(values[21].as_str()) {
            None
        } else {
            Some((values[20].clone(), values[21].clone()))
        };
        let days: i64 = read.days as i64;
        CloudfrontRow {
            time: (days - EPOCH_DAYS) * 86_400 + read.clock.0 as i64,
            time_nanos: read.clock.1,
            edge_location: values[2].clone(),
            response_bytes: read.response_bytes,
            remote_ip: values[4].clone(),
            method: read.method,
            host: values[6].clone(),
            url: read.url,
            status: read.status,
            user_agent: held(values[10].as_str()),
            referer: held(values[9].as_str()),
            cookie: held(values[12].as_str()),
            result_type: values[13].clone(),
            request_id: values[14].clone(),
            request_bytes: read.request_bytes,
            time_taken: values[18].clone(),
            forwarded_for: held(values[19].as_str()),
            ssl_protocol_cipher,
            response_result_type: values[22].clone(),
            http_version: values[23].clone(),
            fle_status: held(values[24].as_str()),
            fle_encrypted_fields: held(values[25].as_str()),
        }
    }
}

/// Whether a field is a dash.
pub fn is_dash(text: &str) -> (b: bool)
    ensures
        b == (text@ == dash()),
{
    let b = text.unicode_len() == 1 && text.get_char(0) == '-';
    proof {
        if b {
            assert(text@ =~= dash());
        }
    }
    b
}

/// What a field holds: nothing if it is a dash.
pub fn held(text: &str) -> (r: Option<String>)
    ensures
        text_of(r) == unless_dash(text@),
{
    if is_dash(text) {
        None
    } else {
        Some(text.to_owned())
    }
}

/// The format in which a line gives the date.
pub open spec fn date_format() -> Seq<char> {
    "%Y-%m-%d"@
}

/// The format in which a line gives the time.
pub open spec fn clock_format() -> Seq<char> {
    "%H:%M:%S"@
}

/// The address that the fields of a line give.
pub open spec fn url_in(f: Seq<Seq<char>>) -> Seq<char> {
    url_text(f[16], f[15], f[7], f[11])
}

/// Why fields are no row, if they are none: the first of the reasons that
/// holds, in the order of [`RowError`].
pub open spec fn fault(f: Seq<Seq<char>>) -> Option<RowError> {
    if f.len() != FIELDS {
        Some(RowError::Fields)
    } else if days_of(f[0], date_format()) is None || clock_of(f[1], clock_format()) is None {
        Some(RowError::Time)
    } else if number_u64(f[3]) is None || number_u64(f[17]) is None {
        Some(RowError::Number)
    } else if method_of(f[5]) is None {
        Some(RowError::Method)
    } else if url_of(url_in(f)) is None {
        Some(RowError::Url)
    } else if f[8] != no_status() && status_of(f[8]) is None {
        Some(RowError::Status)
    } else {
        None
    }
}

/// Whether `read` is what the fields `f` say.
pub open spec fn read_from(f: Seq<Seq<char>>, read: Readings) -> bool {
    &&& days_of(f[0], date_format()) == Some(read.days)
    &&& clock_of(f[1], clock_format()) == Some(read.clock)
    &&& number_u64(f[3]) == Some(read.response_bytes)
    &&& number_u64(f[17]) == Some(read.request_bytes)
    &&& method_of(f[5]) == Some(read.method@)
    &&& url_of(url_in(f)) == Some(read.url@)
    &&& read.status == if f[8] == no_status() {
        None
    } else {
        status_of(f[8])
    }
}

/// Whether a field is the status of a request that was not answered.
pub fn is_no_status(text: &str) -> (b: bool)
    ensures
        b == (text@ == no_status()),
{
    let b = text.unicode_len() == 3 && text.get_char(0) == '0' && text.get_char(1) == '0'
        && text.get_char(2) == '0';
    proof {
        if b {
            assert(text@ =~= no_status());
        }
    }
    b
}

/// Writes the address of a request.
pub fn request_url(protocol: &str, host: &str, stem: &str, query: &str) -> (url: String)
    ensures
        url@ == url_text(protocol@, host@, stem@, query@),
{
    let mut url = protocol.to_owned();
    proof {
        reveal_strlit("://");
        reveal_strlit("?");
    }
    url.append("://");
    url.append(host);
    url.append(stem);
    if !is_dash(query) {
        url.append("?");
        url.append(query);
        proof {
            assert(url@ =~= url_text(protocol@, host@, stem@, query@));
        }
    } else {
        proof {
            assert(url@ =~= url_text(protocol@, host@, stem@, query@));
        }
    }
    url
}

/// Reads the day, the time, the numbers, the method, the address and the
/// status out of the fields of a line.
pub fn read_fields(values: &Vec<String>) -> (r: Result<Readings, RowError>)
    requires
        values.len() == FIELDS,
    ensures
        match r {
            Ok(read) => fault(texts(values@)) is None && read_from(texts(values@), read),
            Err(e) => fault(texts(values@)) == Some(e),
        },
{
    let days = match parse_date(values[0].as_str(), "%Y-%m-%d") {
        Some(days) => days,
        None => {
            return Err(RowError::Time);
        },
    };
    let clock = match parse_clock(values[1].as_str(), "%H:%M:%S") {
        Some(clock) => clock,
        None => {
            return Err(RowError::Time);
        },
    };
    let response_bytes = match parse_u64(values[3].as_str()) {
        Some(n) => n,
        None => {
            return Err(RowError::Number);
        },
    };
    let request_bytes = match parse_u64(values[17].as_str()) {
        Some(n) => n,
        None => {
            return Err(RowError::Number);
        },
    };
    let method = match parse_method(values[5].as_str()) {
        Some(method) => method,
        None => {
            return Err(RowError::Method);
        },
    };
    let address = request_url(
        values[16].as_str(),
        values[15].as_str(),
        values[7].as_str(),
        values[11].as_str(),
    );
    let url = match parse_url(address.as_str()) {
        Some(url) => url,
        None => {
            return Err(RowError::Url);
        },
    };
    let status = if is_no_status(values[8].as_str()) {
        None
    } else {
        match parse_status(values[8].as_str()) {
            Some(code) => Some(code),
            None => {
                return Err(RowError::Status);
            },
        }
    };
    Ok(Readings { days, clock, response_bytes, request_bytes, method, url, status })
}

impl CloudfrontRow {
    /// Whether this is the row of the fields `f`.
    pub open spec fn is_row_of(&self, f: Seq<Seq<char>>) -> bool {
        &&& self.carries(f)
        &&& days_of(f[0], date_format()) matches Some(days) && clock_of(
            f[1],
            clock_format(),
        ) matches Some(clock) && self.time == seconds_since_epoch(days, clock.0) && self.time_nanos
            == clock.1
        &&& number_u64(f[3]) == Some(self.response_bytes)
        &&& number_u64(f[17]) == Some(self.request_bytes)
        &&& method_of(f[5]) == Some(self.method@)
        &&& url_of(url_in(f)) == Some(self.url@)
        &&& self.status == if f[8] == no_status() {
            None
        } else {
            status_of(f[8])
        }
    }

    /// Reads a line. The line is a row if it has twenty-six fields and the
    /// date, the time, the numbers of bytes, the method, the address and the
    /// status can be read.
    pub fn from_line(line: &str) -> (r: Result<Self, RowError>)
        ensures
            match r {
                Ok(row) => fault(fields(line@)) is None && row.is_row_of(fields(line@)),
                Err(e) => fault(fields(line@)) == Some(e),
            },
    {
        let values = split(line);
        if values.len() != FIELDS {
            return Err(RowError::Fields);
        }
        match read_fields(&values) {
            Ok(read) => Ok(Self::of_fields(&values, read)),
            Err(e) => Err(e),
        }
    }
}

/// The first character of a line that is not white space.
pub open spec fn first_visible(line: Seq<char>) -> Option<char>
    decreases line.len(),
{
    if line.len() == 0 {
        None
    } else if !white_space(line[0]) {
        Some(line[0])
    } else {
        first_visible(line.drop_first())
    }
}

/// Whether a line is a comment: whether its first visible character is a
/// hash.
pub open spec fn comment(line: Seq<char>) -> bool {
    first_visible(line) == Some('#')
}

/// Whether a line is a comment.
pub fn is_comment(line: &str) -> (b: bool)
    ensures
        b == comment(line@),
{
    let ghost all = line@;
    let ghost mut at: int = 0;
    let mut chars = line.chars();
    proof {
        broadcast use vstd::string::axiom_spec_iter;
        assert(all.skip(0) =~= all);
    }
    loop
        invariant
            all == line@,
            0 <= at <= all.len(),
            chars.remaining() == all.skip(at),
            first_visible(all) == first_visible(all.skip(at)),
        decreases all.len() - at,
    {
        let next = chars.next();
        proof {
            broadcast use vstd::string::next_postcondition;
        }
        match next {
            Some(c) => {
                proof {
                    assert(all.skip(at).drop_first() =~= all.skip(at + 1));
                }
                if !is_white_space(c) {
                    return c == '#';
                }
                proof {
                    at = at + 1;
                }
            },
            None => {
                return false;
            },
        }
    }
}

/// The lines that are not comments, in their order.
pub open spec fn records(lines: Seq<Seq<char>>) -> Seq<Seq<char>>
    decreases lines.len(),
{
    if lines.len() == 0 {
        Seq::empty()
    } else if comment(lines.last()) {
        records(lines.drop_last())
    } else {
        records(lines.drop_last()).push(lines.last())
    }
}

/// Whether `r` is what reading `line` gives.
pub open spec fn read_as(line: Seq<char>, r: Result<CloudfrontRow, RowError>) -> bool {
    match r {
        Ok(row) => fault(fields(line)) is None && row.is_row_of(fields(line)),
        Err(e) => fault(fields(line)) == Some(e),
    }
}

/// Reads the lines of a log: leaves out the comments and reads each other
/// line as a row.
pub fn rows(lines: &Vec<String>) -> (out: Vec<Result<CloudfrontRow, RowError>>)
    ensures
        out.len() == records(texts(lines@)).len(),
        forall|i: int| 0 <= i < out.len() ==> read_as(records(texts(lines@))[i], #[trigger] out[i]),
{
    let mut out: Vec<Result<CloudfrontRow, RowError>> = Vec::new();
    let mut k: usize = 0;
    proof {
        assert(texts(lines@).take(0) =~= Seq::<Seq<char>>::empty());
    }
    while k < lines.len()
        invariant
            k <= lines.len(),
            out.len() == records(texts(lines@).take(k as int)).len(),
            forall|i: int|
                0 <= i < out.len() ==> read_as(
                    records(texts(lines@).take(k as int))[i],
                    #[trigger] out[i],
                ),
        decreases lines.len() - k,
    {
        proof {
            assert(texts(lines@).take(k + 1).drop_last() =~= texts(lines@).take(k as int));
        }
        if !is_comment(lines[k].as_str()) {
            out.push(CloudfrontRow::from_line(lines[k].as_str()));
        }
        k = k + 1;
    }
    proof {
        assert(texts(lines@).take(k as int) =~= texts(lines@));
    }
    out
}

} // verus!
