//! The fields of the telemetry: under which name each is looked for in a payload, how the value
//! found there is decoded, and in which order the fields are gone through.

use vstd::prelude::*;
use crate::binary64::{from_integer, nearest_to, Binary64};
use crate::difficulty::{deserialize_difficulty, difficulty_of_value, NumberReading};
use crate::error::{DecodeError, DecodeErrorView, Fault, FaultView, Kind, ReasonPart};
use crate::json::{
    find, item_views, lemma_array_view, lemma_object_view, member, member_views, Json, JsonValue,
    Member, Number,
};
use crate::response::{
    reason_views, DifficultyReadings, ShareRejectedReason, ShareRejectedReasonView,
};

verus! {

/// The fields of the telemetry, in the order in which they are decoded.
#[derive(Clone, Copy, Debug, PartialEq, Eq)]
pub enum Field {
    AsicModel,
    Version,
    AxeOsVersion,
    BoardVersion,
    StratumUrl,
    StratumPort,
    StratumUser,
    IsUsingFallbackStratum,
    FallbackStratumUrl,
    FallbackStratumPort,
    FallbackStratumUser,
    StratumLatency,
    Hashrate,
    ExpectedHashrate,
    BestDiff,
    BestSessionDiff,
    PoolDifficulty,
    SharesAccepted,
    SharesRejected,
    SharesRejectedReasons,
    BlockFound,
    AutoFanSpeed,
    FanRpm,
    FanSpeed,
    Frequency,
    Hostname,
    Ssid,
    WifiRssi,
    WifiStatus,
    MacAddr,
    ApEnabled,
    IsPsramAvailable,
    OverclockEnabled,
    OverheatProtectionMode,
    Temp,
    TempTarget,
    UptimeSeconds,
}

/// How the value of a field is decoded.
#[derive(Clone, Copy, Debug, PartialEq, Eq)]
pub enum Shape {
    /// A string.
    Text,
    /// An integer from 0 to 65535.
    Port,
    /// An integer from 0 to 2^64 - 1.
    Count,
    /// An integer from -2^63 to 2^63 - 1.
    Signed,
    /// Any number.
    Real,
    /// Any number; `null` and a missing member stand for no number.
    OptionalReal,
    /// An integer, which stands for `false` where it is 0 and for `true` else.
    Flag,
    /// As `Flag`; a missing member stands for `false`.
    FlagOrAbsent,
    /// A difficulty text, read with the first of the two readings.
    BestDifficulty,
    /// A difficulty text, read with the second of the two readings.
    SessionDifficulty,
    /// An array of objects, each with a text `message` and a count `count`.
    Reasons,
}

impl Field {
    /// The name of the member that holds the field.
    pub open spec fn wire_name(self) -> Seq<char> {
        match self {
            Field::AsicModel => "ASICModel"@,
            Field::Version => "version"@,
            Field::AxeOsVersion => "axeOSVersion"@,
            Field::BoardVersion => "boardVersion"@,
            Field::StratumUrl => "stratumURL"@,
            Field::StratumPort => "stratumPort"@,
            Field::StratumUser => "stratumUser"@,
            Field::IsUsingFallbackStratum => "isUsingFallbackStratum"@,
            Field::FallbackStratumUrl => "fallbackStratumURL"@,
            Field::FallbackStratumPort => "fallbackStratumPort"@,
            Field::FallbackStratumUser => "fallbackStratumUser"@,
            Field::StratumLatency => "responseTime"@,
            Field::Hashrate => "hashRate"@,
            Field::ExpectedHashrate => "expectedHashrate"@,
            Field::BestDiff => "bestDiff"@,
            Field::BestSessionDiff => "bestSessionDiff"@,
            Field::PoolDifficulty => "poolDifficulty"@,
            Field::SharesAccepted => "sharesAccepted"@,
            Field::SharesRejected => "sharesRejected"@,
            Field::SharesRejectedReasons => "sharesRejectedReasons"@,
            Field::BlockFound => "blockFound"@,
            Field::AutoFanSpeed => "autofanspeed"@,
            Field::FanRpm => "fanrpm"@,
            Field::FanSpeed => "fanspeed"@,
            Field::Frequency => "frequency"@,
            Field::Hostname => "hostname"@,
            Field::Ssid => "ssid"@,
            Field::WifiRssi => "wifiRSSI"@,
            Field::WifiStatus => "wifiStatus"@,
            Field::MacAddr => "macAddr"@,
            Field::ApEnabled => "apEnabled"@,
            Field::IsPsramAvailable => "isPSRAMAvailable"@,
            Field::OverclockEnabled => "overclockEnabled"@,
            Field::OverheatProtectionMode => "overheat_mode"@,
            Field::Temp => "temp"@,
            Field::TempTarget => "temptarget"@,
            Field::UptimeSeconds => "uptimeSeconds"@,
        }
    }

    /// How the field is decoded.
    pub open spec fn shape(self) -> Shape {
        match self {
            Field::AsicModel | Field::Version | Field::AxeOsVersion | Field::BoardVersion
            | Field::StratumUrl | Field::StratumUser | Field::FallbackStratumUrl
            | Field::FallbackStratumUser | Field::Hostname | Field::Ssid | Field::WifiStatus
            | Field::MacAddr => Shape::Text,
            Field::StratumPort | Field::FallbackStratumPort => Shape::Port,
            Field::PoolDifficulty | Field::SharesAccepted | Field::SharesRejected
            | Field::UptimeSeconds => Shape::Count,
            Field::FanRpm | Field::Frequency | Field::WifiRssi => Shape::Signed,
            Field::Hashrate | Field::ExpectedHashrate | Field::FanSpeed | Field::Temp
            | Field::TempTarget => Shape::Real,
            Field::StratumLatency => Shape::OptionalReal,
            Field::IsUsingFallbackStratum | Field::AutoFanSpeed | Field::ApEnabled
            | Field::IsPsramAvailable | Field::OverclockEnabled
            | Field::OverheatProtectionMode => Shape::Flag,
            Field::BlockFound => Shape::FlagOrAbsent,
            Field::BestDiff => Shape::BestDifficulty,
            Field::BestSessionDiff => Shape::SessionDifficulty,
            Field::SharesRejectedReasons => Shape::Reasons,
        }
    }

    /// The place of the field in the order in which the fields are decoded.
    pub open spec fn rank(self) -> nat {
        match self {
            Field::AsicModel => 0,
            Field::Version => 1,
            Field::AxeOsVersion => 2,
            Field::BoardVersion => 3,
            Field::StratumUrl => 4,
            Field::StratumPort => 5,
            Field::StratumUser => 6,
            Field::IsUsingFallbackStratum => 7,
            Field::FallbackStratumUrl => 8,
            Field::FallbackStratumPort => 9,
            Field::FallbackStratumUser => 10,
            Field::StratumLatency => 11,
            Field::Hashrate => 12,
            Field::ExpectedHashrate => 13,
            Field::BestDiff => 14,
            Field::BestSessionDiff => 15,
            Field::PoolDifficulty => 16,
            Field::SharesAccepted => 17,
            Field::SharesRejected => 18,
            Field::SharesRejectedReasons => 19,
            Field::BlockFound => 20,
            Field::AutoFanSpeed => 21,
            Field::FanRpm => 22,
            Field::FanSpeed => 23,
            Field::Frequency => 24,
            Field::Hostname => 25,
            Field::Ssid => 26,
            Field::WifiRssi => 27,
            Field::WifiStatus => 28,
            Field::MacAddr => 29,
            Field::ApEnabled => 30,
            Field::IsPsramAvailable => 31,
            Field::OverclockEnabled => 32,
            Field::OverheatProtectionMode => 33,
            Field::Temp => 34,
            Field::TempTarget => 35,
            Field::UptimeSeconds => 36,
        }
    }

    /// The field that is decoded after this one, if any is.
    pub open spec fn next(self) -> Option<Field> {
        match self {
            Field::AsicModel => Some(Field::Version),
            Field::Version => Some(Field::AxeOsVersion),
            Field::AxeOsVersion => Some(Field::BoardVersion),
            Field::BoardVersion => Some(Field::StratumUrl),
            Field::StratumUrl => Some(Field::StratumPort),
            Field::StratumPort => Some(Field::StratumUser),
            Field::StratumUser => Some(Field::IsUsingFallbackStratum),
            Field::IsUsingFallbackStratum => Some(Field::FallbackStratumUrl),
            Field::FallbackStratumUrl => Some(Field::FallbackStratumPort),
            Field::FallbackStratumPort => Some(Field::FallbackStratumUser),
            Field::FallbackStratumUser => Some(Field::StratumLatency),
            Field::StratumLatency => Some(Field::Hashrate),
            Field::Hashrate => Some(Field::ExpectedHashrate),
            Field::ExpectedHashrate => Some(Field::BestDiff),
            Field::BestDiff => Some(Field::BestSessionDiff),
            Field::BestSessionDiff => Some(Field::PoolDifficulty),
            Field::PoolDifficulty => Some(Field::SharesAccepted),
            Field::SharesAccepted => Some(Field::SharesRejected),
            Field::SharesRejected => Some(Field::SharesRejectedReasons),
            Field::SharesRejectedReasons => Some(Field::BlockFound),
            Field::BlockFound => Some(Field::AutoFanSpeed),
            Field::AutoFanSpeed => Some(Field::FanRpm),
            Field::FanRpm => Some(Field::FanSpeed),
            Field::FanSpeed => Some(Field::Frequency),
            Field::Frequency => Some(Field::Hostname),
            Field::Hostname => Some(Field::Ssid),
            Field::Ssid => Some(Field::WifiRssi),
            Field::WifiRssi => Some(Field::WifiStatus),
            Field::WifiStatus => Some(Field::MacAddr),
            Field::MacAddr => Some(Field::ApEnabled),
            Field::ApEnabled => Some(Field::IsPsramAvailable),
            Field::IsPsramAvailable => Some(Field::OverclockEnabled),
            Field::OverclockEnabled => Some(Field::OverheatProtectionMode),
            Field::OverheatProtectionMode => Some(Field::Temp),
            Field::Temp => Some(Field::TempTarget),
            Field::TempTarget => Some(Field::UptimeSeconds),
            Field::UptimeSeconds => None,
        }
    }

    /// The field that is decoded first.
    pub open spec fn first() -> Field {
        Field::AsicModel
    }

    /// The number of fields.
    pub open spec fn count() -> nat {
        37
    }

    /// The name of the member that holds the field.
    pub fn name(self) -> (r: String)
        ensures
            r@ == self.wire_name(),
    {
        match self {
            Field::AsicModel => "ASICModel".to_owned(),
            Field::Version => "version".to_owned(),
            Field::AxeOsVersion => "axeOSVersion".to_owned(),
            Field::BoardVersion => "boardVersion".to_owned(),
            Field::StratumUrl => "stratumURL".to_owned(),
            Field::StratumPort => "stratumPort".to_owned(),
            Field::StratumUser => "stratumUser".to_owned(),
            Field::IsUsingFallbackStratum => "isUsingFallbackStratum".to_owned(),
            Field::FallbackStratumUrl => "fallbackStratumURL".to_owned(),
            Field::FallbackStratumPort => "fallbackStratumPort".to_owned(),
            Field::FallbackStratumUser => "fallbackStratumUser".to_owned(),
            Field::StratumLatency => "responseTime".to_owned(),
            Field::Hashrate => "hashRate".to_owned(),
            Field::ExpectedHashrate => "expectedHashrate".to_owned(),
            Field::BestDiff => "bestDiff".to_owned(),
            Field::BestSessionDiff => "bestSessionDiff".to_owned(),
            Field::PoolDifficulty => "poolDifficulty".to_owned(),
            Field::SharesAccepted => "sharesAccepted".to_owned(),
            Field::SharesRejected => "sharesRejected".to_owned(),
            Field::SharesRejectedReasons => "sharesRejectedReasons".to_owned(),
            Field::BlockFound => "blockFound".to_owned(),
            Field::AutoFanSpeed => "autofanspeed".to_owned(),
            Field::FanRpm => "fanrpm".to_owned(),
            Field::FanSpeed => "fanspeed".to_owned(),
            Field::Frequency => "frequency".to_owned(),
            Field::Hostname => "hostname".to_owned(),
            Field::Ssid => "ssid".to_owned(),
            Field::WifiRssi => "wifiRSSI".to_owned(),
            Field::WifiStatus => "wifiStatus".to_owned(),
            Field::MacAddr => "macAddr".to_owned(),
            Field::ApEnabled => "apEnabled".to_owned(),
            Field::IsPsramAvailable => "isPSRAMAvailable".to_owned(),
            Field::OverclockEnabled => "overclockEnabled".to_owned(),
            Field::OverheatProtectionMode => "overheat_mode".to_owned(),
            Field::Temp => "temp".to_owned(),
            Field::TempTarget => "temptarget".to_owned(),
            Field::UptimeSeconds => "uptimeSeconds".to_owned(),
        }
    }
}

/// The text that stands at a member: the member is there and is a string.
pub open spec fn text_value(value: Option<Json>) -> Result<Seq<char>, FaultView> {
    match value {
        None => Err(FaultView::Missing),
        Some(Json::String(text)) => Ok(text),
        Some(_) => Err(FaultView::Expected(Kind::Text)),
    }
}

/// The integer that stands at a member: the member is there and is an integer from `low` to
/// `high`.
pub open spec fn integer_value(value: Option<Json>, low: int, high: int) -> Result<
    int,
    FaultView,
> {
    match value {
        None => Err(FaultView::Missing),
        Some(Json::Number(Number::Integer(integer))) => if low <= integer <= high {
            Ok(integer as int)
        } else {
            Err(FaultView::OutOfRange)
        },
        Some(_) => Err(FaultView::Expected(Kind::Integer)),
    }
}

/// A JSON number as a binary64 number: an integer as the number nearest to it, any other number
/// as it was read.
pub open spec fn binary64_of(number: Number) -> Binary64 {
    match number {
        Number::Integer(integer) => Binary64 { bits: nearest_to(integer as int) },
        Number::Binary64(bits) => Binary64 { bits },
    }
}

/// The number that stands at a member: the member is there and is a number.
pub open spec fn number_value(value: Option<Json>) -> Result<Binary64, FaultView> {
    match value {
        None => Err(FaultView::Missing),
        Some(Json::Number(number)) => Ok(binary64_of(number)),
        Some(_) => Err(FaultView::Expected(Kind::Number)),
    }
}

/// The number that stands at a member that may be missing or `null`.
pub open spec fn optional_number_value(value: Option<Json>) -> Result<
    Option<Binary64>,
    FaultView,
> {
    match value {
        None => Ok(None),
        Some(Json::Null) => Ok(None),
        Some(Json::Number(number)) => Ok(Some(binary64_of(number))),
        Some(_) => Err(FaultView::Expected(Kind::Number)),
    }
}

/// The truth value that a JSON value stands for: an integer stands for `false` where it is 0
/// and for `true` else, and nothing but an integer stands for one.
pub open spec fn flag_of_value(value: Json) -> Result<bool, FaultView> {
    match value {
        Json::Number(Number::Integer(integer)) => Ok(integer != 0),
        _ => Err(FaultView::Expected(Kind::Integer)),
    }
}

/// The truth value that stands at a member.
pub open spec fn flag_value(value: Option<Json>) -> Result<bool, FaultView> {
    match value {
        None => Err(FaultView::Missing),
        Some(value) => flag_of_value(value),
    }
}

/// The truth value that stands at a member that may be missing.
pub open spec fn flag_or_absent_value(value: Option<Json>) -> Result<bool, FaultView> {
    match value {
        None => Ok(false),
        Some(value) => flag_of_value(value),
    }
}

/// The difficulty that stands at a member, given what came of reading its first word.
pub open spec fn difficulty_value(value: Option<Json>, reading: NumberReading) -> Result<
    u64,
    FaultView,
> {
    match value {
        None => Err(FaultView::Missing),
        Some(value) => difficulty_of_value(value, reading),
    }
}

/// A result about a field: a fault becomes an error that names the field.
pub open spec fn at_field<T>(field: Field, r: Result<T, FaultView>) -> Result<T, DecodeErrorView> {
    match r {
        Ok(value) => Ok(value),
        Err(fault) => Err(DecodeErrorView::Field { field, fault }),
    }
}

/// The members of a payload.
pub type Members = Seq<(Seq<char>, Json)>;

/// The text that `field` holds in the members `m`.
pub open spec fn text_of(m: Members, field: Field) -> Result<Seq<char>, DecodeErrorView> {
    at_field(field, text_value(member(m, field.wire_name())))
}

/// The port that `field` holds in the members `m`.
pub open spec fn port_of(m: Members, field: Field) -> Result<u16, DecodeErrorView> {
    match at_field(field, integer_value(member(m, field.wire_name()), 0, u16::MAX as int)) {
        Ok(integer) => Ok(integer as u16),
        Err(error) => Err(error),
    }
}

/// The count that `field` holds in the members `m`.
pub open spec fn count_of(m: Members, field: Field) -> Result<u64, DecodeErrorView> {
    match at_field(field, integer_value(member(m, field.wire_name()), 0, u64::MAX as int)) {
        Ok(integer) => Ok(integer as u64),
        Err(error) => Err(error),
    }
}

/// The signed integer that `field` holds in the members `m`.
pub open spec fn signed_of(m: Members, field: Field) -> Result<i64, DecodeErrorView> {
    match at_field(
        field,
        integer_value(member(m, field.wire_name()), i64::MIN as int, i64::MAX as int),
    ) {
        Ok(integer) => Ok(integer as i64),
        Err(error) => Err(error),
    }
}

/// The number that `field` holds in the members `m`.
pub open spec fn number_of(m: Members, field: Field) -> Result<Binary64, DecodeErrorView> {
    at_field(field, number_value(member(m, field.wire_name())))
}

/// The number that `field` holds in the members `m`, if it holds one.
pub open spec fn optional_number_of(m: Members, field: Field) -> Result<
    Option<Binary64>,
    DecodeErrorView,
> {
    at_field(field, optional_number_value(member(m, field.wire_name())))
}

/// The truth value that `field` holds in the members `m`.
pub open spec fn flag_of(m: Members, field: Field) -> Result<bool, DecodeErrorView> {
    at_field(field, flag_value(member(m, field.wire_name())))
}

/// The truth value that `field` holds in the members `m`, `false` where it is not there.
pub open spec fn flag_or_absent_of(m: Members, field: Field) -> Result<bool, DecodeErrorView> {
    at_field(field, flag_or_absent_value(member(m, field.wire_name())))
}

/// The difficulty that `field` holds in the members `m`, given what came of reading its first word.
pub open spec fn difficulty_at(m: Members, field: Field, reading: NumberReading) -> Result<
    u64,
    DecodeErrorView,
> {
    at_field(field, difficulty_value(member(m, field.wire_name()), reading))
}

/// The reason that the entry at `index` holds: the entry is an object with a text `message` and
/// a count `count`. The entry is looked at first, then the message, then the count.
pub open spec fn reason_of(entry: Json, index: nat) -> Result<
    ShareRejectedReasonView,
    DecodeErrorView,
> {
    match entry {
        Json::Object(m) => match text_value(member(m, "message"@)) {
            Err(fault) => Err(DecodeErrorView::Reason { index, part: ReasonPart::Message, fault }),
            Ok(message) => match integer_value(member(m, "count"@), 0, u64::MAX as int) {
                Err(fault) => Err(
                    DecodeErrorView::Reason { index, part: ReasonPart::Count, fault },
                ),
                Ok(count) => Ok(ShareRejectedReasonView { count: count as u64, message }),
            },
        },
        _ => Err(
            DecodeErrorView::Reason {
                index,
                part: ReasonPart::Entry,
                fault: FaultView::Expected(Kind::Object),
            },
        ),
    }
}

/// The reasons that the first `n` entries hold, in their order, or the error of the first entry
/// among them that is at fault.
pub open spec fn reasons_upto(entries: Seq<Json>, n: nat) -> Result<
    Seq<ShareRejectedReasonView>,
    DecodeErrorView,
>
    decreases n,
{
    if n == 0 {
        Ok(Seq::empty())
    } else {
        match reasons_upto(entries, (n - 1) as nat) {
            Err(error) => Err(error),
            Ok(before) => match reason_of(entries[n - 1], (n - 1) as nat) {
                Err(error) => Err(error),
                Ok(reason) => Ok(before.push(reason)),
            },
        }
    }
}

/// The rejection reasons that `field` holds in the members `m`, in their order.
pub open spec fn reasons_of(m: Members, field: Field) -> Result<
    Seq<ShareRejectedReasonView>,
    DecodeErrorView,
> {
    match member(m, field.wire_name()) {
        None => Err(DecodeErrorView::Field { field, fault: FaultView::Missing }),
        Some(Json::Array(entries)) => reasons_upto(entries, entries.len()),
        Some(_) => Err(
            DecodeErrorView::Field { field, fault: FaultView::Expected(Kind::Array) },
        ),
    }
}

/// The error of a result, where it is one.
pub open spec fn error_of<T>(r: Result<T, DecodeErrorView>) -> Option<DecodeErrorView> {
    match r {
        Ok(_) => None,
        Err(error) => Some(error),
    }
}

/// The error that stands in the way of decoding `field` from the members `m`, if any does.
pub open spec fn field_error(m: Members, field: Field, readings: DifficultyReadings) -> Option<
    DecodeErrorView,
> {
    match field.shape() {
        Shape::Text => error_of(text_of(m, field)),
        Shape::Port => error_of(port_of(m, field)),
        Shape::Count => error_of(count_of(m, field)),
        Shape::Signed => error_of(signed_of(m, field)),
        Shape::Real => error_of(number_of(m, field)),
        Shape::OptionalReal => error_of(optional_number_of(m, field)),
        Shape::Flag => error_of(flag_of(m, field)),
        Shape::FlagOrAbsent => error_of(flag_or_absent_of(m, field)),
        Shape::BestDifficulty => error_of(difficulty_at(m, field, readings.best)),
        Shape::SessionDifficulty => error_of(difficulty_at(m, field, readings.session)),
        Shape::Reasons => error_of(reasons_of(m, field)),
    }
}

/// The error of the first field, from `field` on in the order of decoding, that cannot be
/// decoded.
pub open spec fn first_error(m: Members, readings: DifficultyReadings, field: Field) -> Option<
    DecodeErrorView,
>
    decreases Field::count() - field.rank(), 1nat,
{
    match field_error(m, field, readings) {
        Some(error) => Some(error),
        None => first_error_after(m, readings, field),
    }
}

/// The error of the first field after `field` that cannot be decoded.
pub open spec fn first_error_after(
    m: Members,
    readings: DifficultyReadings,
    field: Field,
) -> Option<DecodeErrorView>
    decreases Field::count() - field.rank(), 0nat,
{
    match field.next() {
        Some(next) => first_error(m, readings, next),
        None => None,
    }
}

/// The first error is the error of a field before which no field has one; there is none only
/// where no field has one.
pub proof fn lemma_first_error_is_first(m: Members, readings: DifficultyReadings)
    ensures
        match first_error(m, readings, Field::first()) {
            None => forall|field: Field| field_error(m, field, readings) is None,
            Some(error) => exists|field: Field|
                {
                    &&& #[trigger] field_error(m, field, readings) == Some(error)
                    &&& forall|earlier: Field|
                        earlier.rank() < field.rank() ==> #[trigger] field_error(
                            m,
                            earlier,
                            readings,
                        ) is None
                },
        },
{
    lemma_first_error_from(m, readings, Field::first());
}

/// From any field on, the first error lies at a field with no error between the two; there is
/// none only where no field from there on has one.
proof fn lemma_first_error_from(m: Members, readings: DifficultyReadings, from: Field)
    ensures
        match first_error(m, readings, from) {
            None => forall|field: Field|
                from.rank() <= field.rank() ==> #[trigger] field_error(m, field, readings) is None,
            Some(error) => exists|field: Field|
                {
                    &&& from.rank() <= field.rank()
                    &&& #[trigger] field_error(m, field, readings) == Some(error)
                    &&& forall|earlier: Field|
                        from.rank() <= earlier.rank() < field.rank() ==> #[trigger] field_error(
                            m,
                            earlier,
                            readings,
                        ) is None
                },
        },
    decreases Field::count() - from.rank(),
{
    assert forall|a: Field, b: Field| a.rank() == b.rank() implies a == b by {}
    if field_error(m, from, readings) is None {
        match from.next() {
            Some(next) => {
                lemma_first_error_from(m, readings, next);
                assert(next.rank() == from.rank() + 1);
                match first_error(m, readings, next) {
                    None => {},
                    Some(error) => {
                        let field = choose|field: Field|
                            {
                                &&& next.rank() <= field.rank()
                                &&& #[trigger] field_error(m, field, readings) == Some(error)
                                &&& forall|earlier: Field|
                                    next.rank() <= earlier.rank() < field.rank()
                                        ==> #[trigger] field_error(m, earlier, readings) is None
                            };
                        assert(from.rank() <= field.rank());
                        assert(field_error(m, field, readings) == Some(error));
                    },
                }
            },
            None => {
                assert(from.rank() == 36);
            },
        }
    } else {
        assert(from.rank() <= from.rank());
    }
}

/// Payloads that hold the same under the name of every field have the same first error.
pub proof fn lemma_same_members_same_errors(
    a: Members,
    b: Members,
    readings: DifficultyReadings,
    from: Field,
)
    requires
        forall|field: Field|
            member(a, #[trigger] field.wire_name()) == member(b, field.wire_name()),
    ensures
        first_error(a, readings, from) == first_error(b, readings, from),
    decreases Field::count() - from.rank(),
{
    match from.next() {
        Some(next) => {
            lemma_same_members_same_errors(a, b, readings, next);
        },
        None => {},
    }
}

/// The view of the error of a result, where it is one.
pub open spec fn decoded_error<T>(r: Result<T, DecodeError>) -> Option<DecodeErrorView> {
    match r {
        Ok(_) => None,
        Err(error) => Some(error@),
    }
}

/// What the decoding of one field adds to what is known of the first error: `error` is the
/// field's own, and where the field has none, the first error lies after it.
pub open spec fn step(
    m: Members,
    readings: DifficultyReadings,
    field: Field,
    error: Option<DecodeErrorView>,
) -> bool {
    &&& field_error(m, field, readings) == error
    &&& first_error(m, readings, field) == match error {
        Some(error) => Some(error),
        None => first_error_after(m, readings, field),
    }
}

/// Decodes a truth value that the firmware wrote as an integer.
pub fn deserialize_bool_from_int(value: &JsonValue) -> (r: Result<bool, Fault>)
    ensures
        match r {
            Ok(flag) => flag_of_value(value@) == Ok::<bool, FaultView>(flag),
            Err(fault) => flag_of_value(value@) == Err::<bool, FaultView>(fault@),
        },
{
    match value {
        JsonValue::Number(Number::Integer(integer)) => Ok(*integer != 0),
        _ => Err(Fault::Expected(Kind::Integer)),
    }
}

/// A JSON number as a binary64 number.
pub fn to_binary64(number: Number) -> (r: Binary64)
    ensures
        r == binary64_of(number),
{
    match number {
        Number::Integer(integer) => from_integer(integer),
        Number::Binary64(bits) => Binary64 { bits },
    }
}

/// Decodes an integer from `low` to `high`.
pub(crate) fn integer(value: Option<&JsonValue>, low: i128, high: i128) -> (r: Result<
    i128,
    Fault,
>)
    ensures
        match r {
            Ok(integer) => integer_value(
                match value {
                    Some(v) => Some(v@),
                    None => None,
                },
                low as int,
                high as int,
            ) == Ok::<int, FaultView>(integer as int),
            Err(fault) => integer_value(
                match value {
                    Some(v) => Some(v@),
                    None => None,
                },
                low as int,
                high as int,
            ) == Err::<int, FaultView>(fault@),
        },
{
    match value {
        None => Err(Fault::Missing),
        Some(JsonValue::Number(Number::Integer(integer))) => {
            if low <= *integer && *integer <= high {
                Ok(*integer)
            } else {
                Err(Fault::OutOfRange)
            }
        },
        Some(_) => Err(Fault::Expected(Kind::Integer)),
    }
}

/// Decodes a field that is a text.
pub(crate) fn text(
    members: &Vec<Member>,
    field: Field,
    Ghost(readings): Ghost<DifficultyReadings>,
) -> (r: Result<String, DecodeError>)
    requires
        field.shape() == Shape::Text,
    ensures
        step(member_views(members@), readings, field, decoded_error(r)),
        r matches Ok(value) ==> text_of(member_views(members@), field) == Ok::<
            Seq<char>,
            DecodeErrorView,
        >(value@),
{
    match find(members, &field.name()) {
        None => Err(DecodeError::Field { field, fault: Fault::Missing }),
        Some(JsonValue::String(value)) => Ok(value.clone()),
        Some(_) => Err(DecodeError::Field { field, fault: Fault::Expected(Kind::Text) }),
    }
}

/// Decodes a field that is a port.
pub(crate) fn port(
    members: &Vec<Member>,
    field: Field,
    Ghost(readings): Ghost<DifficultyReadings>,
) -> (r: Result<u16, DecodeError>)
    requires
        field.shape() == Shape::Port,
    ensures
        step(member_views(members@), readings, field, decoded_error(r)),
        r matches Ok(value) ==> port_of(member_views(members@), field) == Ok::<
            u16,
            DecodeErrorView,
        >(value),
{
    match integer(find(members, &field.name()), 0, u16::MAX as i128) {
        Ok(integer) => Ok(integer as u16),
        Err(fault) => Err(DecodeError::Field { field, fault }),
    }
}

/// Decodes a field that is a count.
pub(crate) fn count(
    members: &Vec<Member>,
    field: Field,
    Ghost(readings): Ghost<DifficultyReadings>,
) -> (r: Result<u64, DecodeError>)
    requires
        field.shape() == Shape::Count,
    ensures
        step(member_views(members@), readings, field, decoded_error(r)),
        r matches Ok(value) ==> count_of(member_views(members@), field) == Ok::<
            u64,
            DecodeErrorView,
        >(value),
{
    match integer(find(members, &field.name()), 0, u64::MAX as i128) {
        Ok(integer) => Ok(integer as u64),
        Err(fault) => Err(DecodeError::Field { field, fault }),
    }
}

/// Decodes a field that is a signed integer.
pub(crate) fn signed(
    members: &Vec<Member>,
    field: Field,
    Ghost(readings): Ghost<DifficultyReadings>,
) -> (r: Result<i64, DecodeError>)
    requires
        field.shape() == Shape::Signed,
    ensures
        step(member_views(members@), readings, field, decoded_error(r)),
        r matches Ok(value) ==> signed_of(member_views(members@), field) == Ok::<
            i64,
            DecodeErrorView,
        >(value),
{
    match integer(find(members, &field.name()), i64::MIN as i128, i64::MAX as i128) {
        Ok(integer) => Ok(integer as i64),
        Err(fault) => Err(DecodeError::Field { field, fault }),
    }
}

/// Decodes a field that is a number.
pub(crate) fn number(
    members: &Vec<Member>,
    field: Field,
    Ghost(readings): Ghost<DifficultyReadings>,
) -> (r: Result<Binary64, DecodeError>)
    requires
        field.shape() == Shape::Real,
    ensures
        step(member_views(members@), readings, field, decoded_error(r)),
        r matches Ok(value) ==> number_of(member_views(members@), field) == Ok::<
            Binary64,
            DecodeErrorView,
        >(value),
{
    match find(members, &field.name()) {
        None => Err(DecodeError::Field { field, fault: Fault::Missing }),
        Some(JsonValue::Number(value)) => Ok(to_binary64(*value)),
        Some(_) => Err(DecodeError::Field { field, fault: Fault::Expected(Kind::Number) }),
    }
}

/// Decodes a field that is a number or is not there.
pub(crate) fn optional_number(
    members: &Vec<Member>,
    field: Field,
    Ghost(readings): Ghost<DifficultyReadings>,
) -> (r: Result<Option<Binary64>, DecodeError>)
    requires
        field.shape() == Shape::OptionalReal,
    ensures
        step(member_views(members@), readings, field, decoded_error(r)),
        r matches Ok(value) ==> optional_number_of(member_views(members@), field) == Ok::<
            Option<Binary64>,
            DecodeErrorView,
        >(value),
{
    match find(members, &field.name()) {
        None => Ok(None),
        Some(JsonValue::Null) => Ok(None),
        Some(JsonValue::Number(value)) => Ok(Some(to_binary64(*value))),
        Some(_) => Err(DecodeError::Field { field, fault: Fault::Expected(Kind::Number) }),
    }
}

/// Decodes a field that is a truth value.
pub(crate) fn flag(
    members: &Vec<Member>,
    field: Field,
    Ghost(readings): Ghost<DifficultyReadings>,
) -> (r: Result<bool, DecodeError>)
    requires
        field.shape() == Shape::Flag,
    ensures
        step(member_views(members@), readings, field, decoded_error(r)),
        r matches Ok(value) ==> flag_of(member_views(members@), field) == Ok::<
            bool,
            DecodeErrorView,
        >(value),
{
    match find(members, &field.name()) {
        None => Err(DecodeError::Field { field, fault: Fault::Missing }),
        Some(value) => match deserialize_bool_from_int(value) {
            Ok(flag) => Ok(flag),
            Err(fault) => Err(DecodeError::Field { field, fault }),
        },
    }
}

/// Decodes a field that is a truth value or is not there.
pub(crate) fn flag_or_absent(
    members: &Vec<Member>,
    field: Field,
    Ghost(readings): Ghost<DifficultyReadings>,
) -> (r: Result<bool, DecodeError>)
    requires
        field.shape() == Shape::FlagOrAbsent,
    ensures
        step(member_views(members@), readings, field, decoded_error(r)),
        r matches Ok(value) ==> flag_or_absent_of(member_views(members@), field) == Ok::<
            bool,
            DecodeErrorView,
        >(value),
{
    match find(members, &field.name()) {
        None => Ok(false),
        Some(value) => match deserialize_bool_from_int(value) {
            Ok(flag) => Ok(flag),
            Err(fault) => Err(DecodeError::Field { field, fault }),
        },
    }
}

/// Decodes a field that is a difficulty, given what came of reading its first word.
pub(crate) fn difficulty(
    members: &Vec<Member>,
    field: Field,
    reading: NumberReading,
    Ghost(readings): Ghost<DifficultyReadings>,
) -> (r: Result<u64, DecodeError>)
    requires
        field.shape() == Shape::BestDifficulty && reading == readings.best || field.shape()
            == Shape::SessionDifficulty && reading == readings.session,
    ensures
        step(member_views(members@), readings, field, decoded_error(r)),
        r matches Ok(value) ==> difficulty_at(member_views(members@), field, reading) == Ok::<
            u64,
            DecodeErrorView,
        >(value),
{
    match find(members, &field.name()) {
        None => Err(DecodeError::Field { field, fault: Fault::Missing }),
        Some(value) => match deserialize_difficulty(value, reading) {
            Ok(difficulty) => Ok(difficulty),
            Err(fault) => Err(DecodeError::Field { field, fault }),
        },
    }
}

/// Decodes an entry of the rejection reasons.
pub(crate) fn reason(entry: &JsonValue, index: usize) -> (r: Result<
    ShareRejectedReason,
    DecodeError,
>)
    ensures
        match r {
            Ok(value) => reason_of(entry@, index as nat) == Ok::<_, DecodeErrorView>(value@),
            Err(error) => reason_of(entry@, index as nat) == Err::<ShareRejectedReasonView, _>(
                error@,
            ),
        },
{
    match entry {
        JsonValue::Object(members) => {
            proof {
                lemma_object_view(*members);
            }
            let message = match find(members, &"message".to_owned()) {
                None => {
                    return Err(
                        DecodeError::Reason {
                            index,
                            part: ReasonPart::Message,
                            fault: Fault::Missing,
                        },
                    );
                },
                Some(JsonValue::String(message)) => message.clone(),
                Some(_) => {
                    return Err(
                        DecodeError::Reason {
                            index,
                            part: ReasonPart::Message,
                            fault: Fault::Expected(Kind::Text),
                        },
                    );
                },
            };
            match integer(find(members, &"count".to_owned()), 0, u64::MAX as i128) {
                Ok(count) => Ok(ShareRejectedReason { count: count as u64, message }),
                Err(fault) => Err(DecodeError::Reason { index, part: ReasonPart::Count, fault }),
            }
        },
        _ => Err(
            DecodeError::Reason {
                index,
                part: ReasonPart::Entry,
                fault: Fault::Expected(Kind::Object),
            },
        ),
    }
}

/// Decodes the field that holds the rejection reasons.
pub(crate) fn reasons(
    members: &Vec<Member>,
    field: Field,
    Ghost(readings): Ghost<DifficultyReadings>,
) -> (r: Result<Vec<ShareRejectedReason>, DecodeError>)
    requires
        field.shape() == Shape::Reasons,
    ensures
        step(member_views(members@), readings, field, decoded_error(r)),
        r matches Ok(value) ==> reasons_of(member_views(members@), field) == Ok::<
            Seq<ShareRejectedReasonView>,
            DecodeErrorView,
        >(reason_views(value@)),
{
    match find(members, &field.name()) {
        None => Err(DecodeError::Field { field, fault: Fault::Missing }),
        Some(JsonValue::Array(entries)) => {
            proof {
                lemma_array_view(*entries);
            }
            let ghost all = item_views(entries@);
            let mut out: Vec<ShareRejectedReason> = Vec::new();
            let mut i: usize = 0;
            assert(reason_views(out@) =~= Seq::empty());
            while i < entries.len()
                invariant
                    i <= entries.len(),
                    all == item_views(entries@),
                    field.shape() == Shape::Reasons,
                    member(member_views(members@), field.wire_name()) == Some(Json::Array(all)),
                    reasons_upto(all, i as nat) == Ok::<_, DecodeErrorView>(reason_views(out@)),
                decreases entries.len() - i,
            {
                match reason(&entries[i], i) {
                    Ok(value) => {
                        proof {
                            assert(reason_views(out@.push(value)) =~= reason_views(out@).push(
                                value@,
                            ));
                        }
                        out.push(value);
                    },
                    Err(error) => {
                        proof {
                            assert(all[i as int] == entries@[i as int]@);
                            assert(reasons_upto(all, (i + 1) as nat) == Err::<
                                Seq<ShareRejectedReasonView>,
                                _,
                            >(error@));
                            lemma_reasons_error_stays(all, (i + 1) as nat, entries.len() as nat);
                        }
                        return Err(error);
                    },
                }
                i = i + 1;
            }
            Ok(out)
        },
        Some(_) => Err(DecodeError::Field { field, fault: Fault::Expected(Kind::Array) }),
    }
}

/// An error among the first `n` entries is the error of any longer run of entries.
pub proof fn lemma_reasons_error_stays(entries: Seq<Json>, n: nat, longer: nat)
    requires
        n <= longer,
        reasons_upto(entries, n) is Err,
    ensures
        reasons_upto(entries, longer) == reasons_upto(entries, n),
    decreases longer,
{
    if n < longer {
        lemma_reasons_error_stays(entries, n, (longer - 1) as nat);
    }
}

} // verus!
