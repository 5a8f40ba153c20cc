//! Values as the MySQL protocol carries them.
use crate::convert::{json_to_db_value, json_value, parameter_json, parameter_to_json, NumberStyle};
use crate::encoding::{
    base64_bytes, base64_text, decode_base64, encode_base64, json_text, parsed_json, read_json,
    utf8_text, write_json,
};
use crate::model::{
    failure, framed, invalid, invalid_request, protocol, protocol_failure, ConnectorError,
    ErrorCategory, ErrorModel, ErrorPhase,
};
use crate::temporal::{date_of, moment_of, parse_date, parse_moment, parse_time, time_of, DateParts};
use crate::text::{decimal, decimal_text, padded, push_padded};
use crate::value::{with_entry, DbRecord, DbValue, Double, DoubleModel, RecordModel, ValueModel};
use vstd::prelude::*;
use vstd::string::StringExecFns;
use vstd::utf8::{decode_utf8, encode_utf8, valid_utf8};

verus! {

broadcast use crate::value::group_models;

/// A date with a time of day, as the protocol carries it.
#[derive(Debug, Clone, Copy, PartialEq, Eq, Structural)]
pub struct WireDate {
    pub year: u16,
    pub month: u8,
    pub day: u8,
    pub hour: u8,
    pub minute: u8,
    pub second: u8,
    pub micros: u32,
}

/// A span of time, as the protocol carries it.
#[derive(Debug, Clone, Copy, PartialEq, Eq, Structural)]
pub struct WireTime {
    pub negative: bool,
    pub days: u32,
    pub hours: u8,
    pub minutes: u8,
    pub seconds: u8,
    pub micros: u32,
}

/// A value of the MySQL protocol.
#[derive(Debug)]
pub enum MySqlValue {
    Null,
    Int(i64),
    UInt(u64),
    Double(Double),
    Bytes(Vec<u8>),
    Date(WireDate),
    Time(WireTime),
}

/// What a [`MySqlValue`] is.
pub enum MySqlModel {
    Null,
    Int(i64),
    UInt(u64),
    Double(DoubleModel),
    Bytes(Seq<u8>),
    Date(WireDate),
    Time(WireTime),
}

impl View for MySqlValue {
    type V = MySqlModel;

    open spec fn view(&self) -> MySqlModel {
        match *self {
            MySqlValue::Null => MySqlModel::Null,
            MySqlValue::Int(value) => MySqlModel::Int(value),
            MySqlValue::UInt(value) => MySqlModel::UInt(value),
            MySqlValue::Double(value) => MySqlModel::Double(value@),
            MySqlValue::Bytes(value) => MySqlModel::Bytes(value@),
            MySqlValue::Date(value) => MySqlModel::Date(value),
            MySqlValue::Time(value) => MySqlModel::Time(value),
        }
    }
}

/// The kinds of columns whose bytes are read differently.
#[derive(Debug, Clone, Copy, PartialEq, Eq, Structural)]
pub enum MySqlColumn {
    Decimal,
    Json,
    /// Bits, binary objects and geometries.
    Binary,
    Other,
}

/// The date parts that the protocol can carry: its years have 16 bits.
pub open spec fn date_parts(date: DateParts) -> Result<(u16, u8, u8), ErrorModel> {
    if 0 <= date.year <= u16::MAX {
        Ok((date.year as u16, date.month, date.day))
    } else {
        Err(invalid_request("MySQL date year is out of range"@))
    }
}

/// The value of a parameter in the MySQL protocol.
pub open spec fn mysql_parameter(value: ValueModel) -> Result<MySqlModel, ErrorModel> {
    match value {
        ValueModel::Null => Ok(MySqlModel::Null),
        ValueModel::Bool(value) => Ok(
            MySqlModel::Int(
                if value {
                    1
                } else {
                    0
                },
            ),
        ),
        ValueModel::Int64(value) => Ok(MySqlModel::Int(value)),
        ValueModel::UInt64(value) => Ok(MySqlModel::UInt(value)),
        ValueModel::Float64(value) => Ok(MySqlModel::Double(value)),
        ValueModel::Decimal(value) => Ok(MySqlModel::Bytes(encode_utf8(value))),
        ValueModel::String(value) => Ok(MySqlModel::Bytes(encode_utf8(value))),
        ValueModel::Uuid(value) => Ok(MySqlModel::Bytes(encode_utf8(value))),
        ValueModel::Date(text) => match date_of(text) {
            None => Err(invalid_request("date parameter must use YYYY-MM-DD"@)),
            Some(date) => match date_parts(date) {
                Err(error) => Err(error),
                Ok((year, month, day)) => Ok(
                    MySqlModel::Date(
                        WireDate {
                            year,
                            month,
                            day,
                            hour: 0,
                            minute: 0,
                            second: 0,
                            micros: 0,
                        },
                    ),
                ),
            },
        },
        ValueModel::Time(text) => match time_of(text) {
            None => Err(invalid_request("time parameter must use HH:MM:SS[.fraction]"@)),
            Some(time) => Ok(
                MySqlModel::Time(
                    WireTime {
                        negative: false,
                        days: 0,
                        hours: time.hour,
                        minutes: time.minute,
                        seconds: time.second,
                        micros: time.nanosecond / 1_000,
                    },
                ),
            ),
        },
        ValueModel::DateTime(text) => match moment_of(text) {
            None => Err(invalid_request("datetime parameter must use RFC 3339"@)),
            Some(moment) => match date_parts(moment.utc_date) {
                Err(error) => Err(error),
                Ok((year, month, day)) => Ok(
                    MySqlModel::Date(
                        WireDate {
                            year,
                            month,
                            day,
                            hour: moment.utc_time.hour,
                            minute: moment.utc_time.minute,
                            second: moment.utc_time.second,
                            micros: moment.utc_time.nanosecond / 1_000,
                        },
                    ),
                ),
            },
        },
        ValueModel::Binary(text) => match base64_bytes(text) {
            None => Err(invalid_request("binary parameter is not valid base64"@)),
            Some(bytes) => Ok(MySqlModel::Bytes(bytes)),
        },
        _ => match json_text(parameter_json(value)) {
            None => Err(invalid_request("could not encode JSON parameter"@)),
            Some(text) => Ok(MySqlModel::Bytes(encode_utf8(text))),
        },
    }
}

/// The bytes of a text in UTF-8.
pub fn text_bytes(text: &str) -> (result: Vec<u8>)
    ensures
        result@ == encode_utf8(text@),
{
    vstd::slice::slice_to_vec(text.as_bytes())
}

/// The date parts that the protocol can carry.
pub fn mysql_date_parts(date: DateParts) -> (result: Result<(u16, u8, u8), ConnectorError>)
    ensures
        match (result, date_parts(date)) {
            (Ok(parts), Ok(wanted)) => parts == wanted,
            (Err(error), Err(wanted)) => error@ == wanted,
            _ => false,
        },
{
    if date.year < 0 || date.year > 65_535 {
        return Err(invalid("MySQL date year is out of range"));
    }
    Ok((date.year as u16, date.month, date.day))
}

/// Writes a parameter as a value of the MySQL protocol.
pub fn db_value_to_mysql(value: &DbValue) -> (result: Result<MySqlValue, ConnectorError>)
    ensures
        match (result, mysql_parameter(value@)) {
            (Ok(wire), Ok(wanted)) => wire@ == wanted,
            (Err(error), Err(wanted)) => error@ == wanted,
            _ => false,
        },
{
    match value {
        DbValue::Null => Ok(MySqlValue::Null),
        DbValue::Bool(value) => Ok(
            MySqlValue::Int(
                if *value {
                    1
                } else {
                    0
                },
            ),
        ),
        DbValue::Int64(value) => Ok(MySqlValue::Int(*value)),
        DbValue::UInt64(value) => Ok(MySqlValue::UInt(*value)),
        DbValue::Float64(value) => Ok(MySqlValue::Double(value.copy())),
        DbValue::Decimal(value) => Ok(MySqlValue::Bytes(text_bytes(value.as_str()))),
        DbValue::String(value) => Ok(MySqlValue::Bytes(text_bytes(value.as_str()))),
        DbValue::Uuid(value) => Ok(MySqlValue::Bytes(text_bytes(value.as_str()))),
        DbValue::Date(text) => match parse_date(text.as_str()) {
            None => Err(invalid("date parameter must use YYYY-MM-DD")),
            Some(date) => match mysql_date_parts(date) {
                Err(error) => Err(error),
                Ok((year, month, day)) => Ok(
                    MySqlValue::Date(
                        WireDate {
                            year,
                            month,
                            day,
                            hour: 0,
                            minute: 0,
                            second: 0,
                            micros: 0,
                        },
                    ),
                ),
            },
        },
        DbValue::Time(text) => match parse_time(text.as_str()) {
            None => Err(invalid("time parameter must use HH:MM:SS[.fraction]")),
            Some(time) => Ok(
                MySqlValue::Time(
                    WireTime {
                        negative: false,
                        days: 0,
                        hours: time.hour,
                        minutes: time.minute,
                        seconds: time.second,
                        micros: time.nanosecond / 1_000,
                    },
                ),
            ),
        },
        DbValue::DateTime(text) => match parse_moment(text.as_str()) {
            None => Err(invalid("datetime parameter must use RFC 3339")),
            Some(moment) => match mysql_date_parts(moment.utc_date) {
                Err(error) => Err(error),
                Ok((year, month, day)) => Ok(
                    MySqlValue::Date(
                        WireDate {
                            year,
                            month,
                            day,
                            hour: moment.utc_time.hour,
                            minute: moment.utc_time.minute,
                            second: moment.utc_time.second,
                            micros: moment.utc_time.nanosecond / 1_000,
                        },
                    ),
                ),
            },
        },
        DbValue::Binary(text) => match decode_base64(text.as_str()) {
            None => Err(invalid("binary parameter is not valid base64")),
            Some(bytes) => Ok(MySqlValue::Bytes(bytes)),
        },
        _ => {
            let document = parameter_to_json(value);
            match write_json(&document) {
                None => Err(invalid("could not encode JSON parameter")),
                Some(text) => Ok(MySqlValue::Bytes(text_bytes(text.as_str()))),
            }
        },
    }
}

/// A date in the form of ISO 8601.
pub open spec fn date_text(year: nat, month: nat, day: nat) -> Seq<char> {
    padded(year, 4) + "-"@ + padded(month, 2) + "-"@ + padded(day, 2)
}

/// A date and time in the form of ISO 8601, with microseconds.
pub open spec fn date_time_text(date: WireDate) -> Seq<char> {
    date_text(date.year as nat, date.month as nat, date.day as nat) + "T"@ + padded(
        date.hour as nat,
        2,
    ) + ":"@ + padded(date.minute as nat, 2) + ":"@ + padded(date.second as nat, 2) + "."@
        + padded(date.micros as nat, 6)
}

/// A span of time in hours, minutes and seconds, with microseconds.
pub open spec fn span_text(time: WireTime) -> Seq<char> {
    (if time.negative {
        "-"@
    } else {
        Seq::empty()
    }) + padded((time.days * 24 + time.hours) as nat, 2) + ":"@ + padded(time.minutes as nat, 2)
        + ":"@ + padded(time.seconds as nat, 2) + "."@ + padded(time.micros as nat, 6)
}

/// The value of a field that the server returned.
pub open spec fn mysql_field(value: MySqlModel, column: MySqlColumn) -> Result<
    ValueModel,
    ErrorModel,
> {
    match value {
        MySqlModel::Null => Ok(ValueModel::Null),
        MySqlModel::Int(value) => Ok(ValueModel::Int64(value)),
        MySqlModel::UInt(value) => Ok(ValueModel::UInt64(value)),
        MySqlModel::Double(value) => Ok(ValueModel::Float64(value)),
        MySqlModel::Bytes(bytes) => match column {
            MySqlColumn::Decimal => if valid_utf8(bytes) {
                Ok(ValueModel::Decimal(decode_utf8(bytes)))
            } else {
                Err(protocol_failure("MySQL decimal is not UTF-8"@))
            },
            MySqlColumn::Json => match parsed_json(bytes) {
                Some(document) => Ok(json_value(NumberStyle::Decimal, document)),
                None => Err(protocol_failure("MySQL JSON value is invalid"@)),
            },
            MySqlColumn::Binary => Ok(ValueModel::Binary(base64_text(bytes))),
            MySqlColumn::Other => if valid_utf8(bytes) {
                Ok(ValueModel::String(decode_utf8(bytes)))
            } else {
                Ok(ValueModel::Binary(base64_text(bytes)))
            },
        },
        MySqlModel::Date(date) => if date.hour == 0 && date.minute == 0 && date.second == 0
            && date.micros == 0 {
            Ok(
                ValueModel::Date(
                    date_text(date.year as nat, date.month as nat, date.day as nat),
                ),
            )
        } else {
            Ok(ValueModel::DateTime(date_time_text(date)))
        },
        MySqlModel::Time(time) => Ok(ValueModel::Time(span_text(time))),
    }
}

/// Appends a date in the form of ISO 8601.
pub fn push_date(out: &mut String, year: u64, month: u64, day: u64)
    ensures
        final(out)@ == old(out)@ + date_text(year as nat, month as nat, day as nat),
{
    push_padded(out, year, 4);
    out.append("-");
    push_padded(out, month, 2);
    out.append("-");
    push_padded(out, day, 2);
    assert(out@ =~= old(out)@ + date_text(year as nat, month as nat, day as nat));
}

/// Reads a field that the server returned.
pub fn mysql_value_to_db(value: &MySqlValue, column: MySqlColumn) -> (result: Result<
    DbValue,
    ConnectorError,
>)
    ensures
        match (result, mysql_field(value@, column)) {
            (Ok(value), Ok(wanted)) => value@ == wanted,
            (Err(error), Err(wanted)) => error@ == wanted,
            _ => false,
        },
{
    match value {
        MySqlValue::Null => Ok(DbValue::Null),
        MySqlValue::Int(value) => Ok(DbValue::Int64(*value)),
        MySqlValue::UInt(value) => Ok(DbValue::UInt64(*value)),
        MySqlValue::Double(value) => Ok(DbValue::Float64(value.copy())),
        MySqlValue::Bytes(bytes) => match column {
            MySqlColumn::Decimal => match utf8_text(bytes) {
                Some(text) => Ok(DbValue::Decimal(text)),
                None => Err(protocol("MySQL decimal is not UTF-8")),
            },
            MySqlColumn::Json => match read_json(bytes.as_slice()) {
                Some(document) => Ok(json_to_db_value(NumberStyle::Decimal, &document)),
                None => Err(protocol("MySQL JSON value is invalid")),
            },
            MySqlColumn::Binary => Ok(DbValue::Binary(encode_base64(bytes.as_slice()))),
            MySqlColumn::Other => match utf8_text(bytes) {
                Some(text) => Ok(DbValue::String(text)),
                None => Ok(DbValue::Binary(encode_base64(bytes.as_slice()))),
            },
        },
        MySqlValue::Date(date) => {
            let mut text = String::new();
            push_date(&mut text, date.year as u64, date.month as u64, date.day as u64);
            assert(text@ =~= date_text(date.year as nat, date.month as nat, date.day as nat));
            if date.hour == 0 && date.minute == 0 && date.second == 0 && date.micros == 0 {
                return Ok(DbValue::Date(text));
            }
            text.append("T");
            push_padded(&mut text, date.hour as u64, 2);
            text.append(":");
            push_padded(&mut text, date.minute as u64, 2);
            text.append(":");
            push_padded(&mut text, date.second as u64, 2);
            text.append(".");
            push_padded(&mut text, date.micros as u64, 6);
            Ok(DbValue::DateTime(text))
        },
        MySqlValue::Time(time) => {
            let mut text = if time.negative {
                "-".to_owned()
            } else {
                String::new()
            };
            let hours: u64 = time.days as u64 * 24 + time.hours as u64;
            push_padded(&mut text, hours, 2);
            text.append(":");
            push_padded(&mut text, time.minutes as u64, 2);
            text.append(":");
            push_padded(&mut text, time.seconds as u64, 2);
            text.append(".");
            push_padded(&mut text, time.micros as u64, 6);
            Ok(DbValue::Time(text))
        },
    }
}

/// The record of a row: each field under the name of its column.
pub open spec fn mysql_row(
    names: Seq<Seq<char>>,
    columns: Seq<MySqlColumn>,
    fields: Seq<MySqlModel>,
) -> Result<RecordModel, ErrorModel>
    decreases names.len(),
{
    if names.len() == 0 {
        Ok(Seq::empty())
    } else {
        let last = (names.len() - 1) as int;
        match mysql_row(names.drop_last(), columns, fields) {
            Err(error) => Err(error),
            Ok(record) => if last >= fields.len() {
                Err(protocol_failure("MySQL row is incomplete"@))
            } else {
                match mysql_field(fields[last], columns[last]) {
                    Err(error) => Err(error),
                    Ok(value) => Ok(with_entry(record, names[last], value)),
                }
            },
        }
    }
}

/// What each of some wire values is.
pub open spec fn wire_values(list: Seq<MySqlValue>) -> Seq<MySqlModel> {
    Seq::new(list.len(), |i: int| list[i]@)
}

/// An error in the first fields is the error of the row.
proof fn lemma_row_fails_early(
    names: Seq<Seq<char>>,
    columns: Seq<MySqlColumn>,
    fields: Seq<MySqlModel>,
    count: int,
)
    requires
        0 <= count <= names.len(),
        mysql_row(names.subrange(0, count), columns, fields) is Err,
    ensures
        mysql_row(names, columns, fields) == mysql_row(names.subrange(0, count), columns, fields),
    decreases names.len(),
{
    if count == names.len() {
        assert(names.subrange(0, count) =~= names);
    } else {
        assert(names.drop_last().subrange(0, count) =~= names.subrange(0, count));
        lemma_row_fails_early(names.drop_last(), columns, fields, count);
    }
}

/// Reads a row that the server returned.
pub fn mysql_row_to_record(
    names: &Vec<String>,
    columns: &Vec<MySqlColumn>,
    fields: &Vec<MySqlValue>,
) -> (result: Result<DbRecord, ConnectorError>)
    requires
        columns@.len() == names@.len(),
    ensures
        match (
            result,
            mysql_row(crate::text::texts(names@), columns@, wire_values(fields@)),
        ) {
            (Ok(record), Ok(wanted)) => record@ == wanted,
            (Err(error), Err(wanted)) => error@ == wanted,
            _ => false,
        },
{
    let ghost all = crate::text::texts(names@);
    let ghost wire = wire_values(fields@);
    let mut record = DbRecord::new();
    let mut i: usize = 0;
    assert(all.subrange(0, 0) =~= Seq::<Seq<char>>::empty());
    while i < names.len()
        invariant
            i <= names@.len(),
            columns@.len() == names@.len(),
            all == crate::text::texts(names@),
            wire == wire_values(fields@),
            mysql_row(all.subrange(0, i as int), columns@, wire) == Ok::<
                RecordModel,
                ErrorModel,
            >(record@),
        decreases names@.len() - i,
    {
        let ghost next = all.subrange(0, i + 1);
        assert(next.drop_last() =~= all.subrange(0, i as int));
        assert(next[i as int] == names@[i as int]@);
        if i >= fields.len() {
            proof {
                lemma_row_fails_early(all, columns@, wire, i + 1);
            }
            return Err(protocol("MySQL row is incomplete"));
        }
        assert(wire[i as int] == fields@[i as int]@);
        match mysql_value_to_db(&fields[i], columns[i]) {
            Err(error) => {
                proof {
                    lemma_row_fails_early(all, columns@, wire, i + 1);
                }
                return Err(error);
            },
            Ok(value) => {
                record.insert(names[i].clone(), value);
            },
        }
        i = i + 1;
    }
    assert(all.subrange(0, i as int) =~= all);
    Ok(record)
}

/// How the driver failed.
#[derive(Debug)]
pub enum MySqlFailure {
    /// The server refused the request.
    Server { code: u16, state: String },
    /// The TLS handshake failed.
    Tls,
    /// Something else; `fatal` where the connection is lost.
    Other { fatal: bool },
}

/// The category of a server's error code.
pub open spec fn code_category(code: u16) -> ErrorCategory {
    if code == 1045 {
        ErrorCategory::Authentication
    } else if code == 1044 || code == 1142 || code == 1143 {
        ErrorCategory::PermissionDenied
    } else if code == 1049 {
        ErrorCategory::NotFound
    } else if code == 1062 || code == 1213 {
        ErrorCategory::Conflict
    } else if code == 1205 {
        ErrorCategory::Timeout
    } else if code == 1040 || code == 1053 {
        ErrorCategory::Unavailable
    } else if code == 1064 || code == 1146 || code == 1366 {
        ErrorCategory::InvalidRequest
    } else {
        ErrorCategory::Protocol
    }
}

/// The error of a failure of the driver.
pub open spec fn mysql_error(cause: MySqlFailure, write: bool) -> ErrorModel {
    match cause {
        MySqlFailure::Server { code, state } => ErrorModel {
            code: Some(decimal(code as nat)),
            retryable: code == 1040 || code == 1053 || code == 1205 || code == 1213,
            ..failure(
                code_category(code),
                "MySQL request failed with code "@ + decimal(code as nat) + " and SQLSTATE "@
                    + state@,
            )
        },
        MySqlFailure::Tls => ErrorModel {
            phase: ErrorPhase::Tls,
            ..failure(
                if write {
                    ErrorCategory::UnknownOutcome
                } else {
                    ErrorCategory::Unavailable
                },
                "MySQL TLS handshake failed"@,
            )
        },
        MySqlFailure::Other { fatal } => ErrorModel {
            retryable: !write && fatal,
            ..failure(
                if write && fatal {
                    ErrorCategory::UnknownOutcome
                } else if fatal {
                    ErrorCategory::Unavailable
                } else {
                    ErrorCategory::Protocol
                },
                "MySQL driver could not complete the request"@,
            )
        },
    }
}

/// The error of a failure of the driver.
pub fn map_mysql_error(cause: &MySqlFailure, write: bool) -> (result: ConnectorError)
    ensures
        result@ == mysql_error(*cause, write),
{
    match cause {
        MySqlFailure::Server { code, state } => {
            let code: u16 = *code;
            let category = if code == 1045 {
                ErrorCategory::Authentication
            } else if code == 1044 || code == 1142 || code == 1143 {
                ErrorCategory::PermissionDenied
            } else if code == 1049 {
                ErrorCategory::NotFound
            } else if code == 1062 || code == 1213 {
                ErrorCategory::Conflict
            } else if code == 1205 {
                ErrorCategory::Timeout
            } else if code == 1040 || code == 1053 {
                ErrorCategory::Unavailable
            } else if code == 1064 || code == 1146 || code == 1366 {
                ErrorCategory::InvalidRequest
            } else {
                ErrorCategory::Protocol
            };
            let number = decimal_text(code as u64);
            let mut message = framed(
                "MySQL request failed with code ",
                number.as_str(),
                " and SQLSTATE ",
            );
            message.append(state.as_str());
            ConnectorError::new(category, message.as_str()).with_code(number.as_str()).retryable(
                code == 1040 || code == 1053 || code == 1205 || code == 1213,
            )
        },
        MySqlFailure::Tls => ConnectorError::new(
            if write {
                ErrorCategory::UnknownOutcome
            } else {
                ErrorCategory::Unavailable
            },
            "MySQL TLS handshake failed",
        ).with_phase(ErrorPhase::Tls),
        MySqlFailure::Other { fatal } => ConnectorError::new(
            if write && *fatal {
                ErrorCategory::UnknownOutcome
            } else if *fatal {
                ErrorCategory::Unavailable
            } else {
                ErrorCategory::Protocol
            },
            "MySQL driver could not complete the request",
        ).retryable(!write && *fatal),
    }
}

} // verus!
