//! Values and the catalog rows of Oracle Database.
use crate::convert::{json_to_db_value, json_value, parameter_json, parameter_to_json, NumberStyle};
use crate::encoding::{base64_bytes, base64_text, decode_base64, encode_base64, utf8_text};
use crate::model::{
    failure, framed, invalid, invalid_request, is_description_result, is_text_result, protocol,
    protocol_failure, CatalogEntity, ConnectorError, DescriptionModel, EntityDescription,
    EntityModel, ErrorCategory, ErrorModel,
};
use crate::temporal::{date_of, moment_of, parse_date, parse_moment, Moment};
use crate::text::{
    padded, parse_signed, push_padded, push_signed_padded, same, signed_decimal,
    signed_decimal_text, signed_padded, signed_value, texts,
};
use crate::value::{
    copy_doubles, doubles, record_of, records, values, with_entry, DbRecord, DbValue, Double,
    DoubleModel, Json, JsonModel, RecordModel, ValueModel,
};
use vstd::prelude::*;
use vstd::string::StringExecFns;
use vstd::utf8::{decode_utf8, valid_utf8};

verus! {

broadcast use {crate::text::group_texts, crate::value::group_models};

/// A date with a time of day.
#[derive(Debug, Clone, Copy, PartialEq, Eq, Structural)]
pub struct OracleDate {
    pub year: i32,
    pub month: u8,
    pub day: u8,
    pub hour: u8,
    pub minute: u8,
    pub second: u8,
}

/// A date with a time of day and an offset from UTC.
#[derive(Debug, Clone, Copy, PartialEq, Eq, Structural)]
pub struct OracleTimestamp {
    pub year: i32,
    pub month: u8,
    pub day: u8,
    pub hour: u8,
    pub minute: u8,
    pub second: u8,
    pub microsecond: u32,
    pub tz_hour_offset: i8,
    pub tz_minute_offset: i8,
}

/// A parameter as the Oracle driver binds it.
#[derive(Debug)]
pub enum OracleParameter {
    Null,
    Integer(i64),
    Float(Double),
    Text(String),
    Date(OracleDate),
    Timestamp(OracleTimestamp),
    Bytes(Vec<u8>),
    Document(Json),
    Vector(Vec<Double>),
}

/// What an [`OracleParameter`] is.
pub enum OracleParameterModel {
    Null,
    Integer(i64),
    Float(DoubleModel),
    Text(Seq<char>),
    Date(OracleDate),
    Timestamp(OracleTimestamp),
    Bytes(Seq<u8>),
    Document(JsonModel),
    Vector(Seq<DoubleModel>),
}

impl View for OracleParameter {
    type V = OracleParameterModel;

    open spec fn view(&self) -> OracleParameterModel {
        match *self {
            OracleParameter::Null => OracleParameterModel::Null,
            OracleParameter::Integer(value) => OracleParameterModel::Integer(value),
            OracleParameter::Float(value) => OracleParameterModel::Float(value@),
            OracleParameter::Text(value) => OracleParameterModel::Text(value@),
            OracleParameter::Date(value) => OracleParameterModel::Date(value),
            OracleParameter::Timestamp(value) => OracleParameterModel::Timestamp(value),
            OracleParameter::Bytes(value) => OracleParameterModel::Bytes(value@),
            OracleParameter::Document(value) => OracleParameterModel::Document(value@),
            OracleParameter::Vector(items) => OracleParameterModel::Vector(doubles(items@)),
        }
    }
}

/// The hours of an offset in seconds, towards zero.
pub open spec fn offset_hours(offset: int) -> int {
    if offset < 0 {
        -((-offset) / 3600)
    } else {
        offset / 3600
    }
}

/// The minutes of an offset in seconds beyond its full hours, towards zero.
pub open spec fn offset_minutes(offset: int) -> int {
    if offset < 0 {
        -(((-offset) % 3600) / 60)
    } else {
        (offset % 3600) / 60
    }
}

/// The timestamp of a moment, in the time of the place where it was written.
pub open spec fn moment_timestamp(moment: Moment) -> OracleTimestamp {
    OracleTimestamp {
        year: moment.local_date.year,
        month: moment.local_date.month,
        day: moment.local_date.day,
        hour: moment.local_time.hour,
        minute: moment.local_time.minute,
        second: moment.local_time.second,
        microsecond: moment.local_time.nanosecond / 1_000,
        tz_hour_offset: offset_hours(moment.offset_seconds as int) as i8,
        tz_minute_offset: offset_minutes(moment.offset_seconds as int) as i8,
    }
}

/// The parameter that a value is.
pub open spec fn oracle_parameter(value: ValueModel) -> Result<OracleParameterModel, ErrorModel> {
    match value {
        ValueModel::Null => Ok(OracleParameterModel::Null),
        ValueModel::Bool(value) => Ok(
            OracleParameterModel::Integer(
                if value {
                    1
                } else {
                    0
                },
            ),
        ),
        ValueModel::Int64(value) => Ok(OracleParameterModel::Integer(value)),
        ValueModel::UInt64(value) => if value <= i64::MAX {
            Ok(OracleParameterModel::Integer(value as i64))
        } else {
            Err(invalid_request("Oracle NUMBER parameter exceeds i64"@))
        },
        ValueModel::Float64(value) => Ok(OracleParameterModel::Float(value)),
        ValueModel::Decimal(text) => Ok(OracleParameterModel::Text(text)),
        ValueModel::String(text) => Ok(OracleParameterModel::Text(text)),
        ValueModel::Uuid(text) => Ok(OracleParameterModel::Text(text)),
        ValueModel::Time(text) => Ok(OracleParameterModel::Text(text)),
        ValueModel::Date(text) => match date_of(text) {
            Some(date) => Ok(
                OracleParameterModel::Date(
                    OracleDate {
                        year: date.year,
                        month: date.month,
                        day: date.day,
                        hour: 0,
                        minute: 0,
                        second: 0,
                    },
                ),
            ),
            None => Err(invalid_request("date parameter must use YYYY-MM-DD"@)),
        },
        ValueModel::DateTime(text) => match moment_of(text) {
            Some(moment) => Ok(OracleParameterModel::Timestamp(moment_timestamp(moment))),
            None => Err(invalid_request("datetime parameter must use RFC 3339"@)),
        },
        ValueModel::Binary(text) => match base64_bytes(text) {
            Some(bytes) => Ok(OracleParameterModel::Bytes(bytes)),
            None => Err(invalid_request("binary parameter is not valid base64"@)),
        },
        ValueModel::Vector(items) => Ok(OracleParameterModel::Vector(items)),
        _ => Ok(OracleParameterModel::Document(parameter_json(value))),
    }
}

/// Writes a value as a parameter.
pub fn db_value_to_oracle(value: &DbValue) -> (result: Result<OracleParameter, ConnectorError>)
    ensures
        match (result, oracle_parameter(value@)) {
            (Ok(parameter), Ok(wanted)) => parameter@ == wanted,
            (Err(error), Err(wanted)) => error@ == wanted,
            _ => false,
        },
{
    match value {
        DbValue::Null => Ok(OracleParameter::Null),
        DbValue::Bool(value) => Ok(
            OracleParameter::Integer(
                if *value {
                    1
                } else {
                    0
                },
            ),
        ),
        DbValue::Int64(value) => Ok(OracleParameter::Integer(*value)),
        DbValue::UInt64(value) => if *value <= 0x7fff_ffff_ffff_ffff {
            Ok(OracleParameter::Integer(*value as i64))
        } else {
            Err(invalid("Oracle NUMBER parameter exceeds i64"))
        },
        DbValue::Float64(value) => Ok(OracleParameter::Float(value.copy())),
        DbValue::Decimal(text) => Ok(OracleParameter::Text(text.clone())),
        DbValue::String(text) => Ok(OracleParameter::Text(text.clone())),
        DbValue::Uuid(text) => Ok(OracleParameter::Text(text.clone())),
        DbValue::Time(text) => Ok(OracleParameter::Text(text.clone())),
        DbValue::Date(text) => match parse_date(text.as_str()) {
            Some(date) => Ok(
                OracleParameter::Date(
                    OracleDate {
                        year: date.year,
                        month: date.month,
                        day: date.day,
                        hour: 0,
                        minute: 0,
                        second: 0,
                    },
                ),
            ),
            None => Err(invalid("date parameter must use YYYY-MM-DD")),
        },
        DbValue::DateTime(text) => match parse_moment(text.as_str()) {
            None => Err(invalid("datetime parameter must use RFC 3339")),
            Some(moment) => {
                let offset: i32 = moment.offset_seconds;
                let (hours, minutes): (i32, i32) = if offset < 0 {
                    (-((-offset) / 3600), -(((-offset) % 3600) / 60))
                } else {
                    (offset / 3600, (offset % 3600) / 60)
                };
                Ok(
                    OracleParameter::Timestamp(
                        OracleTimestamp {
                            year: moment.local_date.year,
                            month: moment.local_date.month,
                            day: moment.local_date.day,
                            hour: moment.local_time.hour,
                            minute: moment.local_time.minute,
                            second: moment.local_time.second,
                            microsecond: moment.local_time.nanosecond / 1_000,
                            tz_hour_offset: hours as i8,
                            tz_minute_offset: minutes as i8,
                        },
                    ),
                )
            },
        },
        DbValue::Binary(text) => match decode_base64(text.as_str()) {
            Some(bytes) => Ok(OracleParameter::Bytes(bytes)),
            None => Err(invalid("binary parameter is not valid base64")),
        },
        DbValue::Vector(items) => Ok(OracleParameter::Vector(copy_doubles(items))),
        _ => Ok(OracleParameter::Document(parameter_to_json(value))),
    }
}

/// A date in the form of ISO 8601.
pub open spec fn calendar_text(year: int, month: nat, day: nat) -> Seq<char> {
    signed_padded(year, 4) + "-"@ + padded(month, 2) + "-"@ + padded(day, 2)
}

/// A time of day in the form of ISO 8601.
pub open spec fn clock_text(hour: nat, minute: nat, second: nat) -> Seq<char> {
    padded(hour, 2) + ":"@ + padded(minute, 2) + ":"@ + padded(second, 2)
}

/// The magnitude of a number.
pub open spec fn magnitude(number: int) -> nat {
    if number < 0 {
        (-number) as nat
    } else {
        number as nat
    }
}

/// A timestamp in the form of ISO 8601, with its offset where it has one.
pub open spec fn timestamp_text(value: OracleTimestamp) -> Seq<char> {
    let base = calendar_text(value.year as int, value.month as nat, value.day as nat) + "T"@
        + clock_text(value.hour as nat, value.minute as nat, value.second as nat) + "."@ + padded(
        value.microsecond as nat,
        6,
    );
    if value.tz_hour_offset != 0 || value.tz_minute_offset != 0 {
        base + (if value.tz_hour_offset < 0 {
            "-"@
        } else {
            "+"@
        }) + padded(magnitude(value.tz_hour_offset as int), 2) + ":"@ + padded(
            magnitude(value.tz_minute_offset as int),
            2,
        )
    } else {
        base
    }
}

/// Appends a date in the form of ISO 8601.
fn push_calendar(out: &mut String, year: i32, month: u8, day: u8)
    ensures
        final(out)@ == old(out)@ + calendar_text(year as int, month as nat, day as nat),
{
    push_signed_padded(out, year as i64, 4);
    out.append("-");
    push_padded(out, month as u64, 2);
    out.append("-");
    push_padded(out, day as u64, 2);
    assert(out@ =~= old(out)@ + calendar_text(year as int, month as nat, day as nat));
}

/// Appends a time of day in the form of ISO 8601.
fn push_clock(out: &mut String, hour: u8, minute: u8, second: u8)
    ensures
        final(out)@ == old(out)@ + clock_text(hour as nat, minute as nat, second as nat),
{
    push_padded(out, hour as u64, 2);
    out.append(":");
    push_padded(out, minute as u64, 2);
    out.append(":");
    push_padded(out, second as u64, 2);
    assert(out@ =~= old(out)@ + clock_text(hour as nat, minute as nat, second as nat));
}

/// Writes a timestamp in the form of ISO 8601.
pub fn timestamp_string(value: &OracleTimestamp) -> (result: String)
    ensures
        result@ == timestamp_text(*value),
{
    let mut text = String::new();
    push_calendar(&mut text, value.year, value.month, value.day);
    assert(text@ =~= calendar_text(value.year as int, value.month as nat, value.day as nat));
    text.append("T");
    push_clock(&mut text, value.hour, value.minute, value.second);
    text.append(".");
    push_padded(&mut text, value.microsecond as u64, 6);
    if value.tz_hour_offset != 0 || value.tz_minute_offset != 0 {
        let hours: i32 = value.tz_hour_offset as i32;
        let minutes: i32 = value.tz_minute_offset as i32;
        text.append(
            if hours < 0 {
                "-"
            } else {
                "+"
            },
        );
        push_padded(
            &mut text,
            (if hours < 0 {
                -hours
            } else {
                hours
            }) as u64,
            2,
        );
        text.append(":");
        push_padded(
            &mut text,
            (if minutes < 0 {
                -minutes
            } else {
                minutes
            }) as u64,
            2,
        );
    }
    text
}

/// The elements of a vector.
#[derive(Debug)]
pub enum VectorData {
    Float32(Vec<Double>),
    Float64(Vec<Double>),
    Int8(Vec<i8>),
    Binary(Vec<u8>),
}

/// A field that the driver returned. A large object is given with its content.
#[derive(Debug)]
pub enum OracleField {
    Null,
    Text(String),
    Bytes(Vec<u8>),
    Integer(i64),
    Float(Double),
    Number(String),
    Date(OracleDate),
    Timestamp(OracleTimestamp),
    RowId(Option<String>),
    Boolean(bool),
    EmptyLob { character: bool },
    LobBytes { bytes: Vec<u8>, character: bool },
    Document(Json),
    Dense(VectorData),
    Sparse { dimensions: u32, indices: Vec<u32>, values: VectorData },
    /// A cursor or a collection, by its text.
    Other(String),
}

/// The values of small integers.
pub open spec fn small_integers(items: Seq<i8>) -> Seq<ValueModel> {
    Seq::new(items.len(), |i: int| ValueModel::Int64(items[i] as i64))
}

/// The values of indices.
pub open spec fn index_values(items: Seq<u32>) -> Seq<ValueModel> {
    Seq::new(items.len(), |i: int| ValueModel::UInt64(items[i] as u64))
}

/// The values of double-precision numbers.
pub open spec fn double_values(items: Seq<Double>) -> Seq<ValueModel> {
    Seq::new(items.len(), |i: int| ValueModel::Float64(items[i]@))
}

/// The value of a vector's elements.
pub open spec fn vector_value(data: VectorData) -> ValueModel {
    match data {
        VectorData::Float32(items) => ValueModel::Vector(doubles(items@)),
        VectorData::Float64(items) => ValueModel::Array(double_values(items@)),
        VectorData::Int8(items) => ValueModel::Array(small_integers(items@)),
        VectorData::Binary(bytes) => ValueModel::Binary(base64_text(bytes@)),
    }
}

/// The value of the bytes of a large object.
pub open spec fn lob_value(bytes: Seq<u8>, character: bool) -> Result<ValueModel, ErrorModel> {
    if !character {
        Ok(ValueModel::Binary(base64_text(bytes)))
    } else if valid_utf8(bytes) {
        Ok(ValueModel::String(decode_utf8(bytes)))
    } else {
        Err(protocol_failure("Oracle CLOB is not valid UTF-8"@))
    }
}

/// The value of a field.
pub open spec fn oracle_field(field: OracleField) -> Result<ValueModel, ErrorModel> {
    match field {
        OracleField::Null => Ok(ValueModel::Null),
        OracleField::Text(text) => Ok(ValueModel::String(text@)),
        OracleField::Bytes(bytes) => Ok(ValueModel::Binary(base64_text(bytes@))),
        OracleField::Integer(value) => Ok(ValueModel::Int64(value)),
        OracleField::Float(value) => Ok(ValueModel::Float64(value@)),
        OracleField::Number(text) => Ok(ValueModel::Decimal(text@)),
        OracleField::Date(date) => {
            let calendar = calendar_text(date.year as int, date.month as nat, date.day as nat);
            if date.hour == 0 && date.minute == 0 && date.second == 0 {
                Ok(ValueModel::Date(calendar))
            } else {
                Ok(
                    ValueModel::DateTime(
                        calendar + "T"@ + clock_text(
                            date.hour as nat,
                            date.minute as nat,
                            date.second as nat,
                        ),
                    ),
                )
            }
        },
        OracleField::Timestamp(value) => Ok(ValueModel::DateTime(timestamp_text(value))),
        OracleField::RowId(Some(text)) => Ok(ValueModel::String(text@)),
        OracleField::RowId(None) => Ok(ValueModel::Null),
        OracleField::Boolean(value) => Ok(ValueModel::Bool(value)),
        OracleField::EmptyLob { character } => Ok(
            if character {
                ValueModel::String(Seq::empty())
            } else {
                ValueModel::Binary(Seq::empty())
            },
        ),
        OracleField::LobBytes { bytes, character } => lob_value(bytes@, character),
        OracleField::Document(document) => Ok(json_value(NumberStyle::Decimal, document@)),
        OracleField::Dense(data) => Ok(vector_value(data)),
        OracleField::Sparse { dimensions, indices, values: data } => Ok(
            ValueModel::Document(
                record_of(
                    seq![("dimensions"@, ValueModel::UInt64(dimensions as u64))].push(
                        ("indices"@, ValueModel::Array(index_values(indices@))),
                    ).push(("values"@, vector_value(data))),
                ),
            ),
        ),
        OracleField::Other(text) => Ok(ValueModel::String(text@)),
    }
}

/// The value of a vector's elements.
fn vector_data_to_db(data: &VectorData) -> (result: DbValue)
    ensures
        result@ == vector_value(*data),
{
    match data {
        VectorData::Float32(items) => DbValue::Vector(copy_doubles(items)),
        VectorData::Float64(items) => {
            let mut list: Vec<DbValue> = Vec::new();
            let mut i: usize = 0;
            while i < items.len()
                invariant
                    i <= items@.len(),
                    list@.len() == i,
                    forall|j: int|
                        0 <= j < i ==> (#[trigger] list@[j])@ == ValueModel::Float64(items@[j]@),
                decreases items@.len() - i,
            {
                list.push(DbValue::Float64(items[i].copy()));
                i = i + 1;
            }
            assert(values(list@) =~= double_values(items@));
            DbValue::Array(list)
        },
        VectorData::Int8(items) => {
            let mut list: Vec<DbValue> = Vec::new();
            let mut i: usize = 0;
            while i < items.len()
                invariant
                    i <= items@.len(),
                    list@.len() == i,
                    forall|j: int|
                        0 <= j < i ==> (#[trigger] list@[j])@ == ValueModel::Int64(
                            items@[j] as i64,
                        ),
                decreases items@.len() - i,
            {
                list.push(DbValue::Int64(items[i] as i64));
                i = i + 1;
            }
            assert(values(list@) =~= small_integers(items@));
            DbValue::Array(list)
        },
        VectorData::Binary(bytes) => DbValue::Binary(encode_base64(bytes.as_slice())),
    }
}

/// The values of indices.
fn indices_to_db(items: &Vec<u32>) -> (result: Vec<DbValue>)
    ensures
        values(result@) == index_values(items@),
{
    let mut list: Vec<DbValue> = Vec::new();
    let mut i: usize = 0;
    while i < items.len()
        invariant
            i <= items@.len(),
            list@.len() == i,
            forall|j: int|
                0 <= j < i ==> (#[trigger] list@[j])@ == ValueModel::UInt64(items@[j] as u64),
        decreases items@.len() - i,
    {
        list.push(DbValue::UInt64(items[i] as u64));
        i = i + 1;
    }
    assert(values(list@) =~= index_values(items@));
    list
}

/// Reads the bytes of a large object.
pub fn lob_bytes_to_db(bytes: &Vec<u8>, character: bool) -> (result: Result<
    DbValue,
    ConnectorError,
>)
    ensures
        match (result, lob_value(bytes@, character)) {
            (Ok(value), Ok(wanted)) => value@ == wanted,
            (Err(error), Err(wanted)) => error@ == wanted,
            _ => false,
        },
{
    if !character {
        return Ok(DbValue::Binary(encode_base64(bytes.as_slice())));
    }
    match utf8_text(bytes) {
        Some(text) => Ok(DbValue::String(text)),
        None => Err(protocol("Oracle CLOB is not valid UTF-8")),
    }
}

/// Reads a field that the driver returned.
pub fn oracle_value_to_db(field: &OracleField) -> (result: Result<DbValue, ConnectorError>)
    ensures
        match (result, oracle_field(*field)) {
            (Ok(value), Ok(wanted)) => value@ == wanted,
            (Err(error), Err(wanted)) => error@ == wanted,
            _ => false,
        },
{
    match field {
        OracleField::Null => Ok(DbValue::Null),
        OracleField::Text(text) => Ok(DbValue::String(text.clone())),
        OracleField::Bytes(bytes) => Ok(DbValue::Binary(encode_base64(bytes.as_slice()))),
        OracleField::Integer(value) => Ok(DbValue::Int64(*value)),
        OracleField::Float(value) => Ok(DbValue::Float64(value.copy())),
        OracleField::Number(text) => Ok(DbValue::Decimal(text.clone())),
        OracleField::Date(date) => {
            let mut text = String::new();
            push_calendar(&mut text, date.year, date.month, date.day);
            assert(text@ =~= calendar_text(date.year as int, date.month as nat, date.day as nat));
            if date.hour == 0 && date.minute == 0 && date.second == 0 {
                return Ok(DbValue::Date(text));
            }
            text.append("T");
            push_clock(&mut text, date.hour, date.minute, date.second);
            Ok(DbValue::DateTime(text))
        },
        OracleField::Timestamp(value) => Ok(DbValue::DateTime(timestamp_string(value))),
        OracleField::RowId(Some(text)) => Ok(DbValue::String(text.clone())),
        OracleField::RowId(None) => Ok(DbValue::Null),
        OracleField::Boolean(value) => Ok(DbValue::Bool(*value)),
        OracleField::EmptyLob { character } => if *character {
            Ok(DbValue::String(String::new()))
        } else {
            Ok(DbValue::Binary(String::new()))
        },
        OracleField::LobBytes { bytes, character } => lob_bytes_to_db(bytes, *character),
        OracleField::Document(document) => Ok(json_to_db_value(NumberStyle::Decimal, document)),
        OracleField::Dense(data) => Ok(vector_data_to_db(data)),
        OracleField::Sparse { dimensions, indices, values } => {
            let mut record = DbRecord::new();
            record.insert("dimensions".to_owned(), DbValue::UInt64(*dimensions as u64));
            record.insert("indices".to_owned(), DbValue::Array(indices_to_db(indices)));
            record.insert("values".to_owned(), vector_data_to_db(values));
            Ok(DbValue::Document(record))
        },
        OracleField::Other(text) => Ok(DbValue::String(text.clone())),
    }
}

/// The record of a row: each field under the name of its column.
pub open spec fn oracle_row(names: Seq<Seq<char>>, fields: Seq<OracleField>) -> Result<
    RecordModel,
    ErrorModel,
>
    decreases names.len(),
{
    if names.len() == 0 {
        Ok(Seq::empty())
    } else {
        let last = (names.len() - 1) as int;
        match oracle_row(names.drop_last(), fields) {
            Err(error) => Err(error),
            Ok(record) => if last >= fields.len() {
                Err(protocol_failure("Oracle row is incomplete"@))
            } else {
                match oracle_field(fields[last]) {
                    Err(error) => Err(error),
                    Ok(value) => Ok(with_entry(record, names[last], value)),
                }
            },
        }
    }
}

/// An error in the first fields is the error of the row.
proof fn lemma_row_fails_early(names: Seq<Seq<char>>, fields: Seq<OracleField>, count: int)
    requires
        0 <= count <= names.len(),
        oracle_row(names.subrange(0, count), fields) is Err,
    ensures
        oracle_row(names, fields) == oracle_row(names.subrange(0, count), fields),
    decreases names.len(),
{
    if count == names.len() {
        assert(names.subrange(0, count) =~= names);
    } else {
        assert(names.drop_last().subrange(0, count) =~= names.subrange(0, count));
        lemma_row_fails_early(names.drop_last(), fields, count);
    }
}

/// Reads a row that the driver returned.
pub fn oracle_row_to_record(names: &Vec<String>, fields: &Vec<OracleField>) -> (result: Result<
    DbRecord,
    ConnectorError,
>)
    ensures
        match (result, oracle_row(texts(names@), fields@)) {
            (Ok(record), Ok(wanted)) => record@ == wanted,
            (Err(error), Err(wanted)) => error@ == wanted,
            _ => false,
        },
{
    let ghost all = texts(names@);
    let mut record = DbRecord::new();
    let mut i: usize = 0;
    assert(all.subrange(0, 0) =~= Seq::<Seq<char>>::empty());
    while i < names.len()
        invariant
            i <= names@.len(),
            all == texts(names@),
            oracle_row(all.subrange(0, i as int), fields@) == Ok::<RecordModel, ErrorModel>(
                record@,
            ),
        decreases names@.len() - i,
    {
        let ghost next = all.subrange(0, i + 1);
        assert(next.drop_last() =~= all.subrange(0, i as int));
        assert(next[i as int] == names@[i as int]@);
        if i >= fields.len() {
            proof {
                lemma_row_fails_early(all, fields@, i + 1);
            }
            return Err(protocol("Oracle row is incomplete"));
        }
        match oracle_value_to_db(&fields[i]) {
            Err(error) => {
                proof {
                    lemma_row_fails_early(all, fields@, i + 1);
                }
                return Err(error);
            },
            Ok(value) => {
                record.insert(names[i].clone(), value);
            },
        }
        i = i + 1;
    }
    assert(all.subrange(0, i as int) =~= all);
    Ok(record)
}

/// A cell of the catalog.
#[derive(Debug)]
pub enum CatalogCell {
    Null,
    Text(String),
    Integer(i64),
    Number(String),
    /// A double, and its text.
    Float { value: Double, shown: String },
    /// Another value, by its text.
    Other(String),
    /// The row ends before this cell.
    Missing,
}

/// The text of a cell of Oracle's catalog.
pub open spec fn cell_text(cell: CatalogCell) -> Result<Seq<char>, ErrorModel> {
    match cell {
        CatalogCell::Null => Ok("NULL"@),
        CatalogCell::Text(text) => Ok(text@),
        CatalogCell::Number(text) => Ok(text@),
        CatalogCell::Integer(number) => Ok(signed_decimal(number as int)),
        CatalogCell::Float { shown, .. } => Ok(shown@),
        CatalogCell::Other(text) => Ok(text@),
        CatalogCell::Missing => Err(protocol_failure("Oracle row is incomplete"@)),
    }
}

/// The text of a cell of Oracle's catalog.
pub fn string_cell(cell: &CatalogCell) -> (result: Result<String, ConnectorError>)
    ensures
        is_text_result(result, cell_text(*cell)),
{
    match cell {
        CatalogCell::Null => Ok("NULL".to_owned()),
        CatalogCell::Text(text) => Ok(text.clone()),
        CatalogCell::Number(text) => Ok(text.clone()),
        CatalogCell::Integer(number) => Ok(signed_decimal_text(*number)),
        CatalogCell::Float { shown, .. } => Ok(shown.clone()),
        CatalogCell::Other(text) => Ok(text.clone()),
        CatalogCell::Missing => Err(protocol("Oracle row is incomplete")),
    }
}

/// The value of a cell that should hold a number.
pub open spec fn number_cell(cell: CatalogCell) -> Result<ValueModel, ErrorModel> {
    match cell {
        CatalogCell::Null => Ok(ValueModel::Null),
        CatalogCell::Integer(value) => Ok(ValueModel::Int64(value)),
        CatalogCell::Number(text) => Ok(ValueModel::Decimal(text@)),
        CatalogCell::Float { value, .. } => Ok(ValueModel::Float64(value@)),
        CatalogCell::Text(text) => match signed_value(text@) {
            Some(value) => Ok(ValueModel::Int64(value)),
            None => Err(
                protocol_failure("Oracle catalog returned a non-numeric column attribute"@),
            ),
        },
        CatalogCell::Other(_) => Err(
            protocol_failure("Oracle catalog returned a non-numeric column attribute"@),
        ),
        CatalogCell::Missing => Err(protocol_failure("Oracle row is incomplete"@)),
    }
}

/// Reads a cell that should hold a number.
pub fn integer_cell(cell: &CatalogCell) -> (result: Result<DbValue, ConnectorError>)
    ensures
        match (result, number_cell(*cell)) {
            (Ok(value), Ok(wanted)) => value@ == wanted,
            (Err(error), Err(wanted)) => error@ == wanted,
            _ => false,
        },
{
    match cell {
        CatalogCell::Null => Ok(DbValue::Null),
        CatalogCell::Integer(value) => Ok(DbValue::Int64(*value)),
        CatalogCell::Number(text) => Ok(DbValue::Decimal(text.clone())),
        CatalogCell::Float { value, .. } => Ok(DbValue::Float64(value.copy())),
        CatalogCell::Text(text) => match parse_signed(text.as_str()) {
            Some(value) => Ok(DbValue::Int64(value)),
            None => Err(protocol("Oracle catalog returned a non-numeric column attribute")),
        },
        CatalogCell::Other(_) => Err(
            protocol("Oracle catalog returned a non-numeric column attribute"),
        ),
        CatalogCell::Missing => Err(protocol("Oracle row is incomplete")),
    }
}

/// A catalog row of a column.
#[derive(Debug)]
pub struct ColumnRow {
    pub name: CatalogCell,
    pub data_type: CatalogCell,
    pub nullable: CatalogCell,
    pub ordinal: CatalogCell,
    pub length: CatalogCell,
    pub precision: CatalogCell,
    pub scale: CatalogCell,
}

/// The record of a column.
pub open spec fn column_result(row: ColumnRow) -> Result<RecordModel, ErrorModel> {
    match (cell_text(row.name), cell_text(row.data_type), cell_text(row.nullable)) {
        (Err(error), _, _) => Err(error),
        (_, Err(error), _) => Err(error),
        (_, _, Err(error)) => Err(error),
        (Ok(name), Ok(data_type), Ok(nullable)) => match (
            number_cell(row.ordinal),
            number_cell(row.length),
            number_cell(row.precision),
            number_cell(row.scale),
        ) {
            (Err(error), _, _, _) => Err(error),
            (_, Err(error), _, _) => Err(error),
            (_, _, Err(error), _) => Err(error),
            (_, _, _, Err(error)) => Err(error),
            (Ok(ordinal), Ok(length), Ok(precision), Ok(scale)) => Ok(
                record_of(
                    seq![("name"@, ValueModel::String(name))].push(
                        ("type"@, ValueModel::String(data_type)),
                    ).push(("nullable"@, ValueModel::Bool(nullable == "Y"@))).push(
                        ("ordinal"@, ordinal),
                    ).push(("length"@, length)).push(("precision"@, precision)).push(
                        ("scale"@, scale),
                    ),
                ),
            ),
        },
    }
}

/// The records of columns; the error of the first row that has one.
pub open spec fn columns_result(rows: Seq<ColumnRow>) -> Result<Seq<RecordModel>, ErrorModel>
    decreases rows.len(),
{
    if rows.len() == 0 {
        Ok(Seq::empty())
    } else {
        match columns_result(rows.drop_last()) {
            Err(error) => Err(error),
            Ok(before) => match column_result(rows.last()) {
                Err(error) => Err(error),
                Ok(last) => Ok(before.push(last)),
            },
        }
    }
}

/// Reads a catalog row of a column.
fn describe_column(row: &ColumnRow) -> (result: Result<DbRecord, ConnectorError>)
    ensures
        match (result, column_result(*row)) {
            (Ok(record), Ok(wanted)) => record@ == wanted,
            (Err(error), Err(wanted)) => error@ == wanted,
            _ => false,
        },
{
    let name = match string_cell(&row.name) {
        Err(error) => {
            return Err(error);
        },
        Ok(value) => value,
    };
    let data_type = match string_cell(&row.data_type) {
        Err(error) => {
            return Err(error);
        },
        Ok(value) => value,
    };
    let nullable = match string_cell(&row.nullable) {
        Err(error) => {
            return Err(error);
        },
        Ok(value) => value,
    };
    let ordinal = match integer_cell(&row.ordinal) {
        Err(error) => {
            return Err(error);
        },
        Ok(value) => value,
    };
    let length = match integer_cell(&row.length) {
        Err(error) => {
            return Err(error);
        },
        Ok(value) => value,
    };
    let precision = match integer_cell(&row.precision) {
        Err(error) => {
            return Err(error);
        },
        Ok(value) => value,
    };
    let scale = match integer_cell(&row.scale) {
        Err(error) => {
            return Err(error);
        },
        Ok(value) => value,
    };
    let mut record = DbRecord::new();
    record.insert("name".to_owned(), DbValue::String(name));
    record.insert("type".to_owned(), DbValue::String(data_type));
    record.insert("nullable".to_owned(), DbValue::Bool(same(nullable.as_str(), "Y")));
    record.insert("ordinal".to_owned(), ordinal);
    record.insert("length".to_owned(), length);
    record.insert("precision".to_owned(), precision);
    record.insert("scale".to_owned(), scale);
    Ok(record)
}

/// An error in the first rows is the error of them all.
proof fn lemma_columns_fail_early(rows: Seq<ColumnRow>, count: int)
    requires
        0 <= count <= rows.len(),
        columns_result(rows.subrange(0, count)) is Err,
    ensures
        columns_result(rows) == columns_result(rows.subrange(0, count)),
    decreases rows.len(),
{
    if count == rows.len() {
        assert(rows.subrange(0, count) =~= rows);
    } else {
        assert(rows.drop_last().subrange(0, count) =~= rows.subrange(0, count));
        lemma_columns_fail_early(rows.drop_last(), count);
    }
}

/// The description of a table that the catalog has columns of.
pub open spec fn oracle_description(
    owner: Seq<char>,
    table: Seq<char>,
    rows: Seq<ColumnRow>,
) -> Result<DescriptionModel, ErrorModel> {
    if rows.len() == 0 {
        Err(failure(ErrorCategory::NotFound, "Oracle table or view was not found"@))
    } else {
        match columns_result(rows) {
            Err(error) => Err(error),
            Ok(fields) => Ok(
                DescriptionModel {
                    entity: EntityModel {
                        id: owner + "."@ + table,
                        namespace: Some(owner),
                        name: table,
                        kind: "table_or_view"@,
                        comment: None,
                    },
                    fields,
                    metadata: record_of(seq![("owner"@, ValueModel::String(owner))]),
                    truncated: false,
                    warnings: Seq::empty(),
                },
            ),
        }
    }
}

/// Describes a table by the rows of the catalog.
pub fn describe_oracle_entity(owner: &str, table: &str, rows: &Vec<ColumnRow>) -> (result: Result<
    EntityDescription,
    ConnectorError,
>)
    ensures
        is_description_result(result, oracle_description(owner@, table@, rows@)),
{
    if rows.len() == 0 {
        return Err(
            ConnectorError::new(ErrorCategory::NotFound, "Oracle table or view was not found"),
        );
    }
    let mut fields: Vec<DbRecord> = Vec::new();
    let mut i: usize = 0;
    assert(rows@.subrange(0, 0) =~= Seq::<ColumnRow>::empty());
    while i < rows.len()
        invariant
            i <= rows@.len(),
            rows@.len() > 0,
            columns_result(rows@.subrange(0, i as int)) == Ok::<Seq<RecordModel>, ErrorModel>(
                records(fields@),
            ),
        decreases rows@.len() - i,
    {
        let ghost next = rows@.subrange(0, i + 1);
        assert(next.drop_last() =~= rows@.subrange(0, i as int));
        assert(next.last() == rows@[i as int]);
        match describe_column(&rows[i]) {
            Err(error) => {
                proof {
                    lemma_columns_fail_early(rows@, i + 1);
                }
                return Err(error);
            },
            Ok(record) => {
                fields.push(record);
            },
        }
        i = i + 1;
    }
    assert(rows@.subrange(0, i as int) =~= rows@);
    let mut metadata = DbRecord::new();
    metadata.insert("owner".to_owned(), DbValue::String(owner.to_owned()));
    Ok(
        EntityDescription {
            entity: CatalogEntity {
                id: framed(owner, ".", table),
                namespace: Some(owner.to_owned()),
                name: table.to_owned(),
                kind: "table_or_view".to_owned(),
                comment: None,
            },
            fields,
            metadata,
            truncated: false,
            warnings: Vec::new(),
        },
    )
}

} // verus!
