//! What databases are given and give back: values keep what they are.
use crate::base64_text::{lemma_base64_is_read_back, Base64Form};
use crate::base_laws::{lemma_entries_are_found, lemma_padded_value, ten_to};
use crate::encoding::{base64_bytes, base64_text, parsed_json, uuid_bytes};
use crate::model::ErrorModel;
use crate::sql::mysql_values::{
    date_text, date_time_text, mysql_field, mysql_parameter, mysql_row, span_text, MySqlColumn,
    MySqlModel, WireDate, WireTime,
};
use crate::sql::oracle_values::{
    calendar_text, clock_text, oracle_field, oracle_parameter, oracle_row, timestamp_text,
    OracleDate, OracleField, OracleParameterModel, OracleTimestamp,
};
use crate::sql::postgres_values::{pg_parameter, PgModel, PgParameterError, PgType};
use crate::sql::sql_server_catalog::{
    tds_field, tds_parameter, TdsField, TdsParameterModel, TdsTemporal,
};
use crate::temporal::{date_of, moment_of, time_of};
use crate::text::{all_digits, digits_value, padded};
use crate::value::{named, ValueModel};
use vstd::prelude::*;
use vstd::utf8::{
    decode_utf8, encode_utf8, encode_utf8_decode_utf8, encode_utf8_valid_utf8, valid_utf8,
};

verus! {

/// Whether a number stands between two places of a text, in digits.
pub open spec fn shows(text: Seq<char>, from: int, to: int, number: nat) -> bool {
    &&& 0 <= from < to <= text.len()
    &&& all_digits(text.subrange(from, to))
    &&& digits_value(text.subrange(from, to)) == number
}

/// Whether a date stands at the beginning of a text: year, month and day with dashes between them.
pub open spec fn shows_date(text: Seq<char>, year: nat, month: nat, day: nat) -> bool {
    &&& shows(text, 0, 4, year)
    &&& text[4] == '-'
    &&& shows(text, 5, 7, month)
    &&& text[7] == '-'
    &&& shows(text, 8, 10, day)
}

/// Whether a time of day stands at a place of a text: hour, minute and second with colons between
/// them.
pub open spec fn shows_time(text: Seq<char>, at: int, hour: nat, minute: nat, second: nat) -> bool {
    &&& shows(text, at, at + 2, hour)
    &&& text[at + 2] == ':'
    &&& shows(text, at + 3, at + 5, minute)
    &&& text[at + 5] == ':'
    &&& shows(text, at + 6, at + 8, second)
}

/// Powers of ten.
proof fn lemma_powers()
    ensures
        ten_to(2) == 100,
        ten_to(3) == 1_000,
        ten_to(4) == 10_000,
        ten_to(6) == 1_000_000,
        ten_to(9) == 1_000_000_000,
{
    reveal_with_fuel(ten_to, 10);
}

/// A number with zeros in front, within another text.
proof fn lemma_shows(before: Seq<char>, number: nat, width: nat, behind: Seq<char>)
    requires
        width > 0,
        number < ten_to(width),
    ensures
        padded(number, width).len() == width,
        shows(
            before + padded(number, width) + behind,
            before.len() as int,
            (before.len() + width) as int,
            number,
        ),
{
    lemma_padded_value(number, width);
    let text = before + padded(number, width) + behind;
    assert(text.subrange(before.len() as int, (before.len() + width) as int) =~= padded(number, width));
}

/// The parts of a date are shown in its text.
proof fn lemma_date_text(year: nat, month: nat, day: nat, behind: Seq<char>)
    requires
        year < 10_000,
        month < 100,
        day < 100,
    ensures
        date_text(year, month, day).len() == 10,
        shows_date(date_text(year, month, day) + behind, year, month, day),
{
    lemma_powers();
    reveal_strlit("-");
    let text = date_text(year, month, day) + behind;
    let a = padded(year, 4);
    let b = padded(month, 2);
    let c = padded(day, 2);
    let none = Seq::<char>::empty();
    lemma_shows(none, year, 4, "-"@ + b + "-"@ + c + behind);
    lemma_shows(a + "-"@, month, 2, "-"@ + c + behind);
    lemma_shows(a + "-"@ + b + "-"@, day, 2, behind);
    assert(text =~= none + a + ("-"@ + b + "-"@ + c + behind));
    assert(text =~= (a + "-"@) + b + ("-"@ + c + behind));
    assert(text =~= (a + "-"@ + b + "-"@) + c + behind);
}

/// The parts of a time of day are shown in its text.
proof fn lemma_clock_text(before: Seq<char>, hour: nat, minute: nat, second: nat, behind: Seq<char>)
    requires
        hour < 100,
        minute < 100,
        second < 100,
    ensures
        clock_text(hour, minute, second).len() == 8,
        shows_time(
            before + clock_text(hour, minute, second) + behind,
            before.len() as int,
            hour,
            minute,
            second,
        ),
{
    lemma_powers();
    reveal_strlit(":");
    let text = before + clock_text(hour, minute, second) + behind;
    let a = padded(hour, 2);
    let b = padded(minute, 2);
    let c = padded(second, 2);
    lemma_shows(before, hour, 2, ":"@ + b + ":"@ + c + behind);
    lemma_shows(before + a + ":"@, minute, 2, ":"@ + c + behind);
    lemma_shows(before + a + ":"@ + b + ":"@, second, 2, behind);
    assert(text =~= before + a + (":"@ + b + ":"@ + c + behind));
    assert(text =~= (before + a + ":"@) + b + (":"@ + c + behind));
    assert(text =~= (before + a + ":"@ + b + ":"@) + c + behind);
}

/// An integer, a floating-point number and a null of a MySQL field are read as what they are,
/// whatever the column is.
pub proof fn lemma_mysql_numbers_are_kept(wire: MySqlModel, column: MySqlColumn)
    ensures
        match wire {
            MySqlModel::Null => mysql_field(wire, column) == Ok::<ValueModel, ErrorModel>(
                ValueModel::Null,
            ),
            MySqlModel::Int(number) => mysql_field(wire, column) matches Ok(ValueModel::Int64(read))
                && read as int == number as int,
            MySqlModel::UInt(number) => mysql_field(wire, column) matches Ok(
                ValueModel::UInt64(read),
            ) && read as int == number as int,
            MySqlModel::Double(number) => mysql_field(wire, column) matches Ok(
                ValueModel::Float64(read),
            ) && read == number,
            _ => true,
        },
{
}

/// Bytes of a MySQL field are read by the kind of the column: as the text that they encode, as a
/// decimal, as a document, or in base64, and no two fields of binary columns are read alike.
pub proof fn lemma_mysql_bytes_are_kept(bytes: Seq<u8>, column: MySqlColumn)
    ensures
        match column {
            MySqlColumn::Decimal => if valid_utf8(bytes) {
                mysql_field(MySqlModel::Bytes(bytes), column) matches Ok(ValueModel::Decimal(text))
                    && encode_utf8(text) == bytes
            } else {
                mysql_field(MySqlModel::Bytes(bytes), column) is Err
            },
            MySqlColumn::Json => mysql_field(MySqlModel::Bytes(bytes), column) is Ok
                <==> parsed_json(bytes) is Some,
            MySqlColumn::Binary => mysql_field(MySqlModel::Bytes(bytes), column) matches Ok(
                ValueModel::Binary(text),
            ) && base64_bytes(text) == Some(bytes),
            MySqlColumn::Other => if valid_utf8(bytes) {
                mysql_field(MySqlModel::Bytes(bytes), column) matches Ok(ValueModel::String(text))
                    && encode_utf8(text) == bytes
            } else {
                mysql_field(MySqlModel::Bytes(bytes), column) matches Ok(ValueModel::Binary(text))
                    && base64_bytes(text) == Some(bytes)
            },
        },
{
    broadcast use vstd::utf8::decode_utf8_encode_utf8;

    lemma_base64_is_read_back(bytes, Base64Form::Standard);
}

/// A value that is written as a parameter and read back as a field of a column of its kind is the
/// same value. A truth value comes back as the number one or zero, and a UUID as its text.
pub proof fn lemma_mysql_values_are_read_back(value: ValueModel, column: MySqlColumn)
    ensures
        mysql_parameter(value) matches Ok(wire) ==> {
            let read = mysql_field(wire, column);
            match value {
                ValueModel::Null
                | ValueModel::Int64(_)
                | ValueModel::UInt64(_)
                | ValueModel::Float64(_) => read == Ok::<ValueModel, ErrorModel>(value),
                ValueModel::Bool(truth) => read == Ok::<ValueModel, ErrorModel>(
                    ValueModel::Int64(
                        if truth {
                            1
                        } else {
                            0
                        },
                    ),
                ),
                ValueModel::String(text) => column is Other ==> read == Ok::<
                    ValueModel,
                    ErrorModel,
                >(value),
                ValueModel::Uuid(text) => column is Other ==> read == Ok::<ValueModel, ErrorModel>(
                    ValueModel::String(text),
                ),
                ValueModel::Decimal(text) => column is Decimal ==> read == Ok::<
                    ValueModel,
                    ErrorModel,
                >(value),
                ValueModel::Binary(text) => column is Binary ==> read == Ok::<
                    ValueModel,
                    ErrorModel,
                >(value),
                _ => true,
            }
        },
        match value {
            ValueModel::Null
            | ValueModel::Bool(_)
            | ValueModel::Int64(_)
            | ValueModel::UInt64(_)
            | ValueModel::Float64(_)
            | ValueModel::String(_)
            | ValueModel::Decimal(_)
            | ValueModel::Uuid(_) => mysql_parameter(value) is Ok,
            ValueModel::Binary(text) => mysql_parameter(value) is Ok <==> base64_bytes(text) is Some,
            _ => true,
        },
{
    broadcast use {encode_utf8_decode_utf8, encode_utf8_valid_utf8};

    if let ValueModel::Binary(text) = value {
        if let Some(bytes) = base64_bytes(text) {
            assert(base64_text(bytes) == text);
        }
    }
}

/// A date of a MySQL field without a time of day shows its year, month and day.
pub proof fn lemma_mysql_dates_are_shown(date: WireDate, column: MySqlColumn)
    requires
        date.year < 10_000 && date.month < 100 && date.day < 100,
        date.hour == 0 && date.minute == 0 && date.second == 0 && date.micros == 0,
    ensures
        mysql_field(MySqlModel::Date(date), column) matches Ok(ValueModel::Date(text)) && text.len()
            == 10 && shows_date(text, date.year as nat, date.month as nat, date.day as nat),
{
    let none = Seq::<char>::empty();
    let day = date_text(date.year as nat, date.month as nat, date.day as nat);
    lemma_date_text(date.year as nat, date.month as nat, date.day as nat, none);
    assert(day + none =~= day);
}

/// The parts of a date and a time of day, to the microsecond.
proof fn lemma_stamp(
    year: nat,
    month: nat,
    day: nat,
    hour: nat,
    minute: nat,
    second: nat,
    micros: nat,
    zone: Seq<char>,
)
    requires
        year < 10_000 && month < 100 && day < 100,
        hour < 100 && minute < 100 && second < 100 && micros < 1_000_000,
    ensures
        ({
            let base = date_text(year, month, day) + "T"@ + clock_text(hour, minute, second) + "."@
                + padded(micros, 6);
            let text = base + zone;
            &&& base.len() == 26
            &&& shows_date(text, year, month, day)
            &&& text[10] == 'T'
            &&& shows_time(text, 11, hour, minute, second)
            &&& text[19] == '.'
            &&& shows(text, 20, 26, micros)
        }),
{
    lemma_powers();
    reveal_strlit("T");
    reveal_strlit(".");
    let date = date_text(year, month, day);
    let clock = clock_text(hour, minute, second);
    let rest = padded(micros, 6);
    let text = date + "T"@ + clock + "."@ + rest + zone;
    lemma_date_text(year, month, day, "T"@ + clock + "."@ + rest + zone);
    lemma_clock_text(date + "T"@, hour, minute, second, "."@ + rest + zone);
    lemma_shows(date + "T"@ + clock + "."@, micros, 6, zone);
    assert(text =~= date + ("T"@ + clock + "."@ + rest + zone));
    assert(text =~= (date + "T"@) + clock + ("."@ + rest + zone));
    assert(text =~= (date + "T"@ + clock + "."@) + rest + zone);
}

/// A date of a MySQL field with a time of day shows both, to the microsecond.
pub proof fn lemma_mysql_moments_are_shown(date: WireDate, column: MySqlColumn)
    requires
        date.year < 10_000 && date.month < 100 && date.day < 100,
        date.hour < 100 && date.minute < 100 && date.second < 100 && date.micros < 1_000_000,
        date.hour != 0 || date.minute != 0 || date.second != 0 || date.micros != 0,
    ensures
        mysql_field(MySqlModel::Date(date), column) matches Ok(ValueModel::DateTime(text)) && {
            &&& text.len() == 26
            &&& shows_date(text, date.year as nat, date.month as nat, date.day as nat)
            &&& text[10] == 'T'
            &&& shows_time(text, 11, date.hour as nat, date.minute as nat, date.second as nat)
            &&& text[19] == '.'
            &&& shows(text, 20, 26, date.micros as nat)
        },
{
    let none = Seq::<char>::empty();
    lemma_stamp(
        date.year as nat,
        date.month as nat,
        date.day as nat,
        date.hour as nat,
        date.minute as nat,
        date.second as nat,
        date.micros as nat,
        none,
    );
    lemma_date_time_text(date);
    assert(date_time_text(date) + none =~= date_time_text(date));
}

/// The text of a date with a time of day, by its two parts.
proof fn lemma_date_time_text(date: WireDate)
    ensures
        date_time_text(date) == date_text(date.year as nat, date.month as nat, date.day as nat)
            + "T"@ + clock_text(date.hour as nat, date.minute as nat, date.second as nat) + "."@
            + padded(date.micros as nat, 6),
{
    let day = date_text(date.year as nat, date.month as nat, date.day as nat) + "T"@;
    let a = padded(date.hour as nat, 2);
    let b = padded(date.minute as nat, 2);
    let c = padded(date.second as nat, 2);
    assert(day + a + ":"@ + b + ":"@ + c =~= day + (a + ":"@ + b + ":"@ + c));
}

/// A span of a MySQL field shows its hours over all days, its minutes, seconds and microseconds, and
/// a sign where it is negative.
pub proof fn lemma_mysql_spans_are_shown(time: WireTime, column: MySqlColumn)
    requires
        time.days * 24 + time.hours < 100 && time.minutes < 100 && time.seconds < 100 && time.micros
            < 1_000_000,
    ensures
        mysql_field(MySqlModel::Time(time), column) matches Ok(ValueModel::Time(text)) && {
            let at: int = if time.negative {
                1
            } else {
                0
            };
            &&& time.negative ==> text[0] == '-'
            &&& text.len() == at + 15
            &&& shows_time(
                text,
                at,
                (time.days * 24 + time.hours) as nat,
                time.minutes as nat,
                time.seconds as nat,
            )
            &&& text[at + 8] == '.'
            &&& shows(text, at + 9, at + 15, time.micros as nat)
        },
{
    lemma_powers();
    reveal_strlit("-");
    reveal_strlit(".");
    let none = Seq::<char>::empty();
    let sign = if time.negative {
        "-"@
    } else {
        none
    };
    let hours = (time.days * 24 + time.hours) as nat;
    let span = clock_text(hours, time.minutes as nat, time.seconds as nat);
    let rest = padded(time.micros as nat, 6);
    let text = span_text(time);
    lemma_clock_text(sign, hours, time.minutes as nat, time.seconds as nat, "."@ + rest);
    lemma_shows(sign + span + "."@, time.micros as nat, 6, none);
    assert(text =~= sign + span + ("."@ + rest));
    assert(text =~= (sign + span + "."@) + rest + none);
}

/// A date, a time of day or a moment is sent to MySQL with the parts that it has, a moment in UTC,
/// and to the microsecond.
pub proof fn lemma_mysql_times_are_sent(text: Seq<char>)
    ensures
        mysql_parameter(ValueModel::Date(text)) matches Ok(wire) ==> date_of(text) matches Some(date)
            && wire == MySqlModel::Date(
            WireDate {
                year: date.year as u16,
                month: date.month,
                day: date.day,
                hour: 0,
                minute: 0,
                second: 0,
                micros: 0,
            },
        ) && 0 <= date.year <= 65_535,
        mysql_parameter(ValueModel::Time(text)) matches Ok(wire) ==> time_of(text) matches Some(time)
            && wire == MySqlModel::Time(
            WireTime {
                negative: false,
                days: 0,
                hours: time.hour,
                minutes: time.minute,
                seconds: time.second,
                micros: time.nanosecond / 1_000,
            },
        ),
        mysql_parameter(ValueModel::DateTime(text)) matches Ok(wire) ==> moment_of(text) matches Some(
            moment,
        ) && wire == MySqlModel::Date(
            WireDate {
                year: moment.utc_date.year as u16,
                month: moment.utc_date.month,
                day: moment.utc_date.day,
                hour: moment.utc_time.hour,
                minute: moment.utc_time.minute,
                second: moment.utc_time.second,
                micros: moment.utc_time.nanosecond / 1_000,
            },
        ) && 0 <= moment.utc_date.year <= 65_535,
        mysql_parameter(ValueModel::Time(text)) is Ok <==> time_of(text) is Some,
{
}

/// Whether a name does not stand again behind its place.
pub open spec fn is_last(names: Seq<Seq<char>>, place: int) -> bool {
    forall|j: int| place < j < names.len() ==> #[trigger] names[j] != names[place]
}

/// A row of MySQL becomes a record in which every name has the value of its own field, the last one
/// where a name stands twice, and there are no other names. A row with too few fields is refused.
#[verifier::rlimit(50)]
pub proof fn lemma_mysql_rows_are_read_by_name(
    names: Seq<Seq<char>>,
    columns: Seq<MySqlColumn>,
    fields: Seq<MySqlModel>,
    name: Seq<char>,
)
    ensures
        mysql_row(names, columns, fields) matches Ok(record) ==> {
            &&& names.len() <= fields.len()
            &&& named(record, name) is Some <==> names.contains(name)
            &&& forall|i: int|
                0 <= i < names.len() && is_last(names, i) && #[trigger] names[i] == name
                    ==> mysql_field(fields[i], columns[i]) == Ok::<ValueModel, ErrorModel>(
                    named(record, name)->0,
                )
        },
    decreases names.len(),
{
    if names.len() > 0 {
        let before = names.drop_last();
        let last = names.len() - 1;
        lemma_mysql_rows_are_read_by_name(before, columns, fields, name);
        if let Ok(record) = mysql_row(names, columns, fields) {
            let shorter = mysql_row(before, columns, fields)->Ok_0;
            let value = mysql_field(fields[last], columns[last])->Ok_0;
            lemma_entries_are_found(shorter, names[last], value, name);
            if name == names[last] {
                assert(names.contains(name));
                assert forall|i: int|
                    0 <= i < names.len() && is_last(names, i) && #[trigger] names[i] == name implies
                    mysql_field(fields[i], columns[i]) == Ok::<ValueModel, ErrorModel>(named(record, name)->0) by {
                    if i < last {
                        assert(names[last] != names[i]);
                    }
                }
            } else {
                assert(names.contains(name) <==> before.contains(name)) by {
                    if names.contains(name) {
                        let k = choose|k: int| 0 <= k < names.len() && names[k] == name;
                        assert(before[k] == name);
                    }
                    if before.contains(name) {
                        let k = choose|k: int| 0 <= k < before.len() && before[k] == name;
                        assert(names[k] == name);
                    }
                }
                assert forall|i: int|
                    0 <= i < names.len() && is_last(names, i) && #[trigger] names[i] == name implies
                    mysql_field(fields[i], columns[i]) == Ok::<ValueModel, ErrorModel>(named(record, name)->0) by {
                    assert(i < last);
                    assert(before[i] == name);
                    assert(is_last(before, i)) by {
                        assert forall|j: int| i < j < before.len() implies #[trigger] before[j] != before[i] by {
                            assert(names[j] != names[i]);
                        }
                    }
                }
            }
        }
    } else {
        assert(!names.contains(name));
    }
}

/// A row of Oracle becomes a record in which every name has the value of its own field, the last one
/// where a name stands twice, and there are no other names. A row with too few fields is refused.
#[verifier::rlimit(50)]
pub proof fn lemma_oracle_rows_are_read_by_name(
    names: Seq<Seq<char>>,
    fields: Seq<OracleField>,
    name: Seq<char>,
)
    ensures
        oracle_row(names, fields) matches Ok(record) ==> {
            &&& names.len() <= fields.len()
            &&& named(record, name) is Some <==> names.contains(name)
            &&& forall|i: int|
                0 <= i < names.len() && is_last(names, i) && #[trigger] names[i] == name
                    ==> oracle_field(fields[i]) == Ok::<ValueModel, ErrorModel>(
                    named(record, name)->0,
                )
        },
    decreases names.len(),
{
    if names.len() > 0 {
        let before = names.drop_last();
        let last = names.len() - 1;
        lemma_oracle_rows_are_read_by_name(before, fields, name);
        if let Ok(record) = oracle_row(names, fields) {
            let shorter = oracle_row(before, fields)->Ok_0;
            let value = oracle_field(fields[last])->Ok_0;
            lemma_entries_are_found(shorter, names[last], value, name);
            if name == names[last] {
                assert(names.contains(name));
                assert forall|i: int|
                    0 <= i < names.len() && is_last(names, i) && #[trigger] names[i] == name implies
                    oracle_field(fields[i]) == Ok::<ValueModel, ErrorModel>(named(record, name)->0) by {
                    if i < last {
                        assert(names[last] != names[i]);
                    }
                }
            } else {
                assert(names.contains(name) <==> before.contains(name)) by {
                    if names.contains(name) {
                        let k = choose|k: int| 0 <= k < names.len() && names[k] == name;
                        assert(before[k] == name);
                    }
                    if before.contains(name) {
                        let k = choose|k: int| 0 <= k < before.len() && before[k] == name;
                        assert(names[k] == name);
                    }
                }
                assert forall|i: int|
                    0 <= i < names.len() && is_last(names, i) && #[trigger] names[i] == name implies
                    oracle_field(fields[i]) == Ok::<ValueModel, ErrorModel>(named(record, name)->0) by {
                    assert(i < last);
                    assert(before[i] == name);
                    assert(is_last(before, i)) by {
                        assert forall|j: int| i < j < before.len() implies #[trigger] before[j] != before[i] by {
                            assert(names[j] != names[i]);
                        }
                    }
                }
            }
        }
    } else {
        assert(!names.contains(name));
    }
}

/// Numbers, truth values, texts and nulls of an Oracle field are read as what they are, and binary
/// fields in base64.
pub proof fn lemma_oracle_values_are_kept(field: OracleField)
    ensures
        match field {
            OracleField::Null => oracle_field(field) == Ok::<ValueModel, ErrorModel>(
                ValueModel::Null,
            ),
            OracleField::Integer(number) => oracle_field(field) matches Ok(ValueModel::Int64(read))
                && read as int == number as int,
            OracleField::Float(number) => oracle_field(field) == Ok::<ValueModel, ErrorModel>(
                ValueModel::Float64(number@),
            ),
            OracleField::Number(text) => oracle_field(field) == Ok::<ValueModel, ErrorModel>(
                ValueModel::Decimal(text@),
            ),
            OracleField::Boolean(truth) => oracle_field(field) == Ok::<ValueModel, ErrorModel>(
                ValueModel::Bool(truth),
            ),
            OracleField::Text(text) => oracle_field(field) == Ok::<ValueModel, ErrorModel>(
                ValueModel::String(text@),
            ),
            OracleField::Bytes(bytes) => oracle_field(field) matches Ok(ValueModel::Binary(text))
                && base64_bytes(text) == Some(bytes@),
            OracleField::RowId(id) => match id {
                Some(id) => oracle_field(field) == Ok::<ValueModel, ErrorModel>(
                    ValueModel::String(id@),
                ),
                None => oracle_field(field) == Ok::<ValueModel, ErrorModel>(ValueModel::Null),
            },
            OracleField::LobBytes { bytes, character } => if !character {
                oracle_field(field) matches Ok(ValueModel::Binary(text)) && base64_bytes(text)
                    == Some(bytes@)
            } else if valid_utf8(bytes@) {
                oracle_field(field) matches Ok(ValueModel::String(text)) && encode_utf8(text)
                    == bytes@
            } else {
                oracle_field(field) is Err
            },
            OracleField::EmptyLob { character } => oracle_field(field) == Ok::<
                ValueModel,
                ErrorModel,
            >(
                if character {
                    ValueModel::String(Seq::empty())
                } else {
                    ValueModel::Binary(Seq::empty())
                },
            ),
            _ => true,
        },
{
    broadcast use vstd::utf8::decode_utf8_encode_utf8;

    match field {
        OracleField::Bytes(bytes) => {
            lemma_base64_is_read_back(bytes@, Base64Form::Standard);
        },
        OracleField::LobBytes { bytes, .. } => {
            lemma_base64_is_read_back(bytes@, Base64Form::Standard);
        },
        _ => {},
    }
}

/// What Oracle is sent for a number, a text or some bytes, an Oracle field of that content is read
/// as; a truth value is sent as the number one or zero, and a number that its integers cannot hold
/// is refused.
pub proof fn lemma_oracle_values_are_sent(value: ValueModel)
    ensures
        match value {
            ValueModel::Null => oracle_parameter(value) == Ok::<OracleParameterModel, ErrorModel>(
                OracleParameterModel::Null,
            ),
            ValueModel::Bool(truth) => oracle_parameter(value) == Ok::<
                OracleParameterModel,
                ErrorModel,
            >(
                OracleParameterModel::Integer(
                    if truth {
                        1
                    } else {
                        0
                    },
                ),
            ),
            ValueModel::Int64(number) => oracle_parameter(value) matches Ok(
                OracleParameterModel::Integer(sent),
            ) && sent as int == number as int,
            ValueModel::UInt64(number) => if number <= i64::MAX {
                oracle_parameter(value) matches Ok(OracleParameterModel::Integer(sent)) && sent as int
                    == number as int
            } else {
                oracle_parameter(value) is Err
            },
            ValueModel::Float64(number) => oracle_parameter(value) == Ok::<
                OracleParameterModel,
                ErrorModel,
            >(OracleParameterModel::Float(number)),
            ValueModel::String(text)
            | ValueModel::Decimal(text)
            | ValueModel::Uuid(text)
            | ValueModel::Time(text) => oracle_parameter(value) == Ok::<
                OracleParameterModel,
                ErrorModel,
            >(OracleParameterModel::Text(text)),
            ValueModel::Binary(text) => match oracle_parameter(value) {
                Ok(sent) => sent matches OracleParameterModel::Bytes(bytes) && base64_text(bytes)
                    == text,
                Err(_) => forall|bytes: Seq<u8>| #[trigger] base64_text(bytes) != text,
            },
            ValueModel::Vector(items) => oracle_parameter(value) == Ok::<
                OracleParameterModel,
                ErrorModel,
            >(OracleParameterModel::Vector(items)),
            ValueModel::Date(text) => match oracle_parameter(value) {
                Ok(sent) => date_of(text) matches Some(date) && sent == OracleParameterModel::Date(
                    OracleDate {
                        year: date.year,
                        month: date.month,
                        day: date.day,
                        hour: 0,
                        minute: 0,
                        second: 0,
                    },
                ),
                Err(_) => date_of(text) is None,
            },
            ValueModel::DateTime(text) => match oracle_parameter(value) {
                Ok(sent) => moment_of(text) matches Some(moment) && sent
                    matches OracleParameterModel::Timestamp(stamp) && {
                    &&& stamp.year == moment.local_date.year
                    &&& stamp.month == moment.local_date.month
                    &&& stamp.day == moment.local_date.day
                    &&& stamp.hour == moment.local_time.hour
                    &&& stamp.minute == moment.local_time.minute
                    &&& stamp.second == moment.local_time.second
                    &&& stamp.microsecond == moment.local_time.nanosecond / 1_000
                    &&& -86_400 < moment.offset_seconds < 86_400 ==> {
                        let seconds = moment.offset_seconds
                            - stamp.tz_hour_offset * 3_600 - stamp.tz_minute_offset * 60;
                        -60 < seconds < 60
                    }
                },
                Err(_) => moment_of(text) is None,
            },
            _ => oracle_parameter(value) matches Ok(OracleParameterModel::Document(_)),
        },
{
    if let ValueModel::Binary(text) = value {
        if let Some(bytes) = base64_bytes(text) {
            assert(base64_text(bytes) == text);
        } else {
            assert forall|bytes: Seq<u8>| #[trigger] base64_text(bytes) != text by {
                if base64_text(bytes) == text {
                    lemma_base64_is_read_back(bytes, Base64Form::Standard);
                }
            }
        }
    }
}

/// A date or timestamp of an Oracle field shows its parts; a timestamp shows its microseconds, and
/// its offset from UTC where it has one.
pub proof fn lemma_oracle_dates_are_shown(date: OracleDate)
    requires
        0 <= date.year < 10_000 && date.month < 100 && date.day < 100,
        date.hour < 100 && date.minute < 100 && date.second < 100,
    ensures
        if date.hour == 0 && date.minute == 0 && date.second == 0 {
            oracle_field(OracleField::Date(date)) matches Ok(ValueModel::Date(text)) && text.len()
                == 10 && shows_date(text, date.year as nat, date.month as nat, date.day as nat)
        } else {
            oracle_field(OracleField::Date(date)) matches Ok(ValueModel::DateTime(text))
                && text.len() == 19 && shows_date(
                text,
                date.year as nat,
                date.month as nat,
                date.day as nat,
            ) && text[10] == 'T' && shows_time(
                text,
                11,
                date.hour as nat,
                date.minute as nat,
                date.second as nat,
            )
        },
{
    reveal_strlit("T");
    let none = Seq::<char>::empty();
    let day = calendar_text(date.year as int, date.month as nat, date.day as nat);
    let clock = clock_text(date.hour as nat, date.minute as nat, date.second as nat);
    assert(day == date_text(date.year as nat, date.month as nat, date.day as nat));
    lemma_date_text(date.year as nat, date.month as nat, date.day as nat, none);
    lemma_date_text(date.year as nat, date.month as nat, date.day as nat, "T"@ + clock);
    lemma_clock_text(
        day + "T"@,
        date.hour as nat,
        date.minute as nat,
        date.second as nat,
        none,
    );
    assert(day + none =~= day);
    assert(day + "T"@ + clock =~= day + ("T"@ + clock));
    assert(day + "T"@ + clock =~= (day + "T"@) + clock + none);
}

/// A timestamp of an Oracle field shows its parts to the microsecond, and behind them its offset
/// from UTC where it has one.
pub proof fn lemma_oracle_timestamps_are_shown(stamp: OracleTimestamp)
    requires
        0 <= stamp.year < 10_000 && stamp.month < 100 && stamp.day < 100,
        stamp.hour < 100 && stamp.minute < 100 && stamp.second < 100,
        stamp.microsecond < 1_000_000,
        -100 < stamp.tz_hour_offset < 100 && -100 < stamp.tz_minute_offset < 100,
    ensures
        oracle_field(OracleField::Timestamp(stamp)) matches Ok(ValueModel::DateTime(text)) && {
            let zoned = stamp.tz_hour_offset != 0 || stamp.tz_minute_offset != 0;
            &&& text.len() == if zoned {
                32int
            } else {
                26
            }
            &&& shows_date(text, stamp.year as nat, stamp.month as nat, stamp.day as nat)
            &&& text[10] == 'T'
            &&& shows_time(text, 11, stamp.hour as nat, stamp.minute as nat, stamp.second as nat)
            &&& text[19] == '.'
            &&& shows(text, 20, 26, stamp.microsecond as nat)
            &&& zoned ==> {
                &&& text[26] == if stamp.tz_hour_offset < 0 {
                    '-'
                } else {
                    '+'
                }
                &&& shows(
                    text,
                    27,
                    29,
                    (if stamp.tz_hour_offset < 0 {
                        -stamp.tz_hour_offset
                    } else {
                        stamp.tz_hour_offset as int
                    }) as nat,
                )
                &&& text[29] == ':'
                &&& shows(
                    text,
                    30,
                    32,
                    (if stamp.tz_minute_offset < 0 {
                        -stamp.tz_minute_offset
                    } else {
                        stamp.tz_minute_offset as int
                    }) as nat,
                )
            }
        },
{
    lemma_powers();
    reveal_strlit("T");
    reveal_strlit(".");
    reveal_strlit(":");
    reveal_strlit("+");
    reveal_strlit("-");
    let none = Seq::<char>::empty();
    let day = calendar_text(stamp.year as int, stamp.month as nat, stamp.day as nat);
    let clock = clock_text(stamp.hour as nat, stamp.minute as nat, stamp.second as nat);
    let micros = padded(stamp.microsecond as nat, 6);
    let base = day + "T"@ + clock + "."@ + micros;
    let hours = crate::sql::oracle_values::magnitude(stamp.tz_hour_offset as int);
    let minutes = crate::sql::oracle_values::magnitude(stamp.tz_minute_offset as int);
    let sign = if stamp.tz_hour_offset < 0 {
        "-"@
    } else {
        "+"@
    };
    let zoned = stamp.tz_hour_offset != 0 || stamp.tz_minute_offset != 0;
    let zone = if zoned {
        sign + padded(hours, 2) + ":"@ + padded(minutes, 2)
    } else {
        none
    };
    let text = timestamp_text(stamp);
    assert(text =~= base + zone);
    lemma_stamp(
        stamp.year as nat,
        stamp.month as nat,
        stamp.day as nat,
        stamp.hour as nat,
        stamp.minute as nat,
        stamp.second as nat,
        stamp.microsecond as nat,
        zone,
    );
    assert(day == date_text(stamp.year as nat, stamp.month as nat, stamp.day as nat));
    if zoned {
        lemma_padded_value(stamp.microsecond as nat, 6);
        lemma_shows(base + sign, hours, 2, ":"@ + padded(minutes, 2));
        lemma_shows(base + sign + padded(hours, 2) + ":"@, minutes, 2, none);
        assert(text =~= (base + sign) + padded(hours, 2) + (":"@ + padded(minutes, 2)));
        assert(text =~= (base + sign + padded(hours, 2) + ":"@) + padded(minutes, 2) + none);
    }
}

/// Numbers, truth values, texts and nulls of an SQL Server field are read as what they are, and
/// binary fields in base64. A date that the driver cannot give is refused.
pub proof fn lemma_tds_values_are_kept(field: TdsField)
    ensures
        match field {
            TdsField::U8(Some(number)) => tds_field(field) matches Ok(ValueModel::UInt64(read))
                && read as int == number as int,
            TdsField::Int(Some(number)) => tds_field(field) matches Ok(ValueModel::Int64(read))
                && read as int == number as int,
            TdsField::Double(Some(number)) => tds_field(field) == Ok::<ValueModel, ErrorModel>(
                ValueModel::Float64(number@),
            ),
            TdsField::Bit(Some(truth)) => tds_field(field) == Ok::<ValueModel, ErrorModel>(
                ValueModel::Bool(truth),
            ),
            TdsField::Text(Some(text)) => tds_field(field) == Ok::<ValueModel, ErrorModel>(
                ValueModel::String(text@),
            ),
            TdsField::Guid(Some(text)) => tds_field(field) == Ok::<ValueModel, ErrorModel>(
                ValueModel::Uuid(text@),
            ),
            TdsField::Binary(Some(bytes)) => tds_field(field) matches Ok(ValueModel::Binary(text))
                && base64_bytes(text) == Some(bytes@),
            TdsField::Numeric(Some(text)) => tds_field(field) == Ok::<ValueModel, ErrorModel>(
                ValueModel::Decimal(text@),
            ),
            TdsField::Date(TdsTemporal::Inconsistent)
            | TdsField::Time(TdsTemporal::Inconsistent)
            | TdsField::DateTime(TdsTemporal::Inconsistent)
            | TdsField::DateTimeOffset(TdsTemporal::Inconsistent) => tds_field(field) is Err,
            TdsField::Date(TdsTemporal::Value(_)) => tds_field(field) matches Ok(ValueModel::Date(_)),
            TdsField::Time(TdsTemporal::Value(_)) => tds_field(field) matches Ok(ValueModel::Time(_)),
            TdsField::DateTime(TdsTemporal::Value(_)) => tds_field(field) matches Ok(
                ValueModel::DateTime(_),
            ),
            TdsField::DateTimeOffset(TdsTemporal::Value(_)) => tds_field(field) matches Ok(
                ValueModel::DateTime(_),
            ),
            _ => tds_field(field) == Ok::<ValueModel, ErrorModel>(ValueModel::Null),
        },
{
    if let TdsField::Binary(Some(bytes)) = field {
        lemma_base64_is_read_back(bytes@, Base64Form::Standard);
    }
}

/// What SQL Server is sent for a value is what an SQL Server field of that content is read as; a
/// number that its integers cannot hold is refused.
pub proof fn lemma_tds_values_are_sent(value: ValueModel)
    ensures
        match value {
            ValueModel::Null => tds_parameter(value) == Ok::<TdsParameterModel, ErrorModel>(
                TdsParameterModel::Null,
            ),
            ValueModel::Bool(truth) => tds_parameter(value) == Ok::<TdsParameterModel, ErrorModel>(
                TdsParameterModel::Bool(truth),
            ),
            ValueModel::Int64(number) => tds_parameter(value) matches Ok(
                TdsParameterModel::Int(sent),
            ) && sent as int == number as int,
            ValueModel::UInt64(number) => if number <= i64::MAX {
                tds_parameter(value) matches Ok(TdsParameterModel::Int(sent)) && sent as int
                    == number as int
            } else {
                tds_parameter(value) is Err
            },
            ValueModel::Float64(number) => tds_parameter(value) == Ok::<
                TdsParameterModel,
                ErrorModel,
            >(TdsParameterModel::Double(number)),
            ValueModel::Decimal(text) | ValueModel::String(text) => tds_parameter(value) == Ok::<
                TdsParameterModel,
                ErrorModel,
            >(TdsParameterModel::Text(text)),
            ValueModel::Date(text) => match tds_parameter(value) {
                Ok(sent) => date_of(text) matches Some(date) && sent == TdsParameterModel::Date(
                    date,
                ),
                Err(_) => date_of(text) is None,
            },
            ValueModel::Time(text) => match tds_parameter(value) {
                Ok(sent) => time_of(text) matches Some(time) && sent == TdsParameterModel::Time(
                    time,
                ),
                Err(_) => time_of(text) is None,
            },
            ValueModel::DateTime(text) => match tds_parameter(value) {
                Ok(sent) => moment_of(text) is Some && sent == TdsParameterModel::Moment(text),
                Err(_) => moment_of(text) is None,
            },
            ValueModel::Uuid(text) => match tds_parameter(value) {
                Ok(sent) => uuid_bytes(text) matches Some(bytes) && sent == TdsParameterModel::Uuid(
                    bytes,
                ),
                Err(_) => uuid_bytes(text) is None,
            },
            ValueModel::Binary(text) => match tds_parameter(value) {
                Ok(sent) => sent matches TdsParameterModel::Bytes(bytes) && base64_text(bytes)
                    == text,
                Err(_) => forall|bytes: Seq<u8>| #[trigger] base64_text(bytes) != text,
            },
            _ => tds_parameter(value) == Ok::<TdsParameterModel, ErrorModel>(
                TdsParameterModel::Encoded(value),
            ),
        },
{
    if let ValueModel::Binary(text) = value {
        lemma_base64_refusals(text);
    }
}

/// Base64 text is read where it is the text of some bytes.
proof fn lemma_base64_refusals(text: Seq<char>)
    ensures
        match base64_bytes(text) {
            Some(bytes) => base64_text(bytes) == text,
            None => forall|bytes: Seq<u8>| #[trigger] base64_text(bytes) != text,
        },
{
    if base64_bytes(text) is None {
        assert forall|bytes: Seq<u8>| #[trigger] base64_text(bytes) != text by {
            if base64_text(bytes) == text {
                lemma_base64_is_read_back(bytes, Base64Form::Standard);
            }
        }
    }
}

/// What PostgreSQL is sent for a value has the same content, in the size of the column; a number
/// that the column cannot hold is refused.
pub proof fn lemma_pg_values_are_sent(value: ValueModel, column: PgType)
    ensures
        match value {
            ValueModel::Null => pg_parameter(value, column) == Ok::<PgModel, PgParameterError>(
                PgModel::Null,
            ),
            ValueModel::Bool(truth) => pg_parameter(value, column) == Ok::<
                PgModel,
                PgParameterError,
            >(PgModel::Bool(truth)),
            ValueModel::Int64(number) => match pg_parameter(value, column) {
                Ok(PgModel::Int2(sent)) => column is Int2 && sent as int == number as int,
                Ok(PgModel::Int4(sent)) => column is Int4 && sent as int == number as int,
                Ok(PgModel::Int8(sent)) => !(column is Int2) && !(column is Int4) && sent as int
                    == number as int,
                Ok(_) => false,
                Err(error) => error is IntegerOutOfRange && ((column is Int2 && !(-0x8000 <= number
                    < 0x8000)) || (column is Int4 && !(-0x8000_0000 <= number < 0x8000_0000))),
            },
            ValueModel::UInt64(number) => match pg_parameter(value, column) {
                Ok(sent) => sent matches PgModel::Int8(sent) && sent as int == number as int,
                Err(error) => error is IntegerOutOfRange && number > i64::MAX,
            },
            ValueModel::Float64(number) => pg_parameter(value, column) == Ok::<
                PgModel,
                PgParameterError,
            >(
                if column is Float4 {
                    PgModel::Float4(number)
                } else {
                    PgModel::Float8(number)
                },
            ),
            ValueModel::String(text) => pg_parameter(value, column) == Ok::<
                PgModel,
                PgParameterError,
            >(PgModel::Text(text)),
            ValueModel::Decimal(text) => if column is Numeric {
                pg_parameter(value, column) matches Ok(sent) ==> sent is Numeric
            } else {
                pg_parameter(value, column) == Ok::<PgModel, PgParameterError>(PgModel::Text(text))
            },
            ValueModel::Date(text) => match pg_parameter(value, column) {
                Ok(sent) => date_of(text) matches Some(date) && sent == PgModel::Date(date),
                Err(error) => date_of(text) is None && error is Date,
            },
            ValueModel::Time(text) => match pg_parameter(value, column) {
                Ok(sent) => time_of(text) matches Some(time) && sent == PgModel::Time(time),
                Err(error) => time_of(text) is None && error is Time,
            },
            ValueModel::DateTime(text) => match pg_parameter(value, column) {
                Ok(sent) => moment_of(text) is Some && sent == PgModel::Moment(text),
                Err(error) => moment_of(text) is None && error is DateTime,
            },
            ValueModel::Uuid(text) => match pg_parameter(value, column) {
                Ok(sent) => uuid_bytes(text) matches Some(bytes) && sent == PgModel::Uuid(bytes),
                Err(error) => uuid_bytes(text) is None && error is Uuid,
            },
            ValueModel::Binary(text) => match pg_parameter(value, column) {
                Ok(sent) => sent matches PgModel::Bytes(bytes) && base64_text(bytes) == text,
                Err(error) => error is Base64 && forall|bytes: Seq<u8>| #[trigger]
                    base64_text(bytes) != text,
            },
            _ => pg_parameter(value, column) matches Ok(PgModel::Document(_)),
        },
{
    if let ValueModel::Binary(text) = value {
        lemma_base64_refusals(text);
    }
}

} // verus!
