//! The telemetry of a device, and its decoding from the JSON object that the device sends.

use vstd::prelude::*;
use crate::binary64::Binary64;
use crate::difficulty::{difficulty_query_of, query_of_value, query_view, NumberReading};
use crate::error::{DecodeError, DecodeErrorView};
use crate::fields::{
    count, count_of, difficulty, difficulty_at, difficulty_value, field_error, first_error, flag,
    flag_of, flag_or_absent, flag_or_absent_of, lemma_first_error_is_first,
    lemma_same_members_same_errors, number, number_of, optional_number, optional_number_of, port,
    port_of, reasons, reasons_of, signed, signed_of, text, text_of, Field, Members,
};
use crate::json::{
    find, lemma_member_of_other_name, lemma_object_view, member, Json, JsonValue,
};

verus! {

/// A reason for which the pool rejected shares, and how many it rejected for it.
#[derive(Clone, Debug, PartialEq, Eq)]
pub struct ShareRejectedReason {
    /// Number of shares rejected for this reason.
    pub count: u64,
    /// The reason, in the words of the pool.
    pub message: String,
}

/// A `ShareRejectedReason` with its message as a sequence of characters.
pub ghost struct ShareRejectedReasonView {
    pub count: u64,
    pub message: Seq<char>,
}

impl View for ShareRejectedReason {
    type V = ShareRejectedReasonView;

    open spec fn view(&self) -> ShareRejectedReasonView {
        ShareRejectedReasonView { count: self.count, message: self.message@ }
    }
}

/// The views of the reasons of `v`.
pub open spec fn reason_views(v: Seq<ShareRejectedReason>) -> Seq<ShareRejectedReasonView> {
    v.map_values(|reason: ShareRejectedReason| reason@)
}

/// The telemetry of a device at one moment.
#[derive(Clone, Debug, PartialEq, Eq)]
pub struct SystemInfo {
    /// Model of the ASIC.
    pub asic_model: String,
    /// Version of the firmware.
    pub version: String,
    /// Version of AxeOS.
    pub axe_os_version: String,
    /// Version of the board.
    pub board_version: String,
    /// Host of the primary pool.
    pub stratum_url: String,
    /// Port of the primary pool.
    pub stratum_port: u16,
    /// User at the primary pool.
    pub stratum_user: String,
    /// Whether the fallback pool is in use.
    pub is_using_fallback_stratum: bool,
    /// Host of the fallback pool.
    pub fallback_stratum_url: String,
    /// Port of the fallback pool.
    pub fallback_stratum_port: u16,
    /// User at the fallback pool.
    pub fallback_stratum_user: String,
    /// Latency to the pool in milliseconds.
    pub stratum_latency: Option<Binary64>,
    /// Hashrate now.
    pub hashrate: Binary64,
    /// Hashrate to expect.
    pub expected_hashrate: Binary64,
    /// Best difficulty ever reached.
    pub best_diff: u64,
    /// Best difficulty reached since the device started.
    pub best_session_diff: u64,
    /// Difficulty that the pool asks for.
    pub pool_difficulty: u64,
    /// Number of shares that the pool accepted.
    pub shares_accepted: u64,
    /// Number of shares that the pool rejected.
    pub shares_rejected: u64,
    /// Why shares were rejected, and how often for each reason.
    pub shares_rejected_reasons: Vec<ShareRejectedReason>,
    /// Whether the device ever found a block.
    pub block_found: bool,
    /// Whether the fan speed is set automatically.
    pub auto_fan_speed: bool,
    /// Revolutions of the fan per minute.
    pub fan_rpm: i64,
    /// Fan speed in percent.
    pub fan_speed: Binary64,
    /// Frequency of the ASIC in MHz.
    pub frequency: i64,
    /// Name of the device on the network.
    pub hostname: String,
    /// Name of the Wi-Fi network.
    pub ssid: String,
    /// Strength of the Wi-Fi signal in dBm.
    pub wifi_rssi: i64,
    /// State of the Wi-Fi connection.
    pub wifi_status: String,
    /// MAC address of the device.
    pub mac_addr: String,
    /// Whether the device runs as an access point.
    pub ap_enabled: bool,
    /// Whether PSRAM is there.
    pub is_psram_available: bool,
    /// Whether voltage and frequency may be set freely.
    pub overclock_enabled: bool,
    /// Whether the overheat protection has stepped in.
    pub overheat_protection_mode: bool,
    /// Temperature of the chip.
    pub temp: Binary64,
    /// Temperature that the automatic fan control aims at.
    pub temp_target: Binary64,
    /// Seconds since the device started.
    pub uptime_seconds: u64,
}

/// A `SystemInfo` with its texts as sequences of characters.
pub ghost struct SystemInfoView {
    pub asic_model: Seq<char>,
    pub version: Seq<char>,
    pub axe_os_version: Seq<char>,
    pub board_version: Seq<char>,
    pub stratum_url: Seq<char>,
    pub stratum_port: u16,
    pub stratum_user: Seq<char>,
    pub is_using_fallback_stratum: bool,
    pub fallback_stratum_url: Seq<char>,
    pub fallback_stratum_port: u16,
    pub fallback_stratum_user: Seq<char>,
    pub stratum_latency: Option<Binary64>,
    pub hashrate: Binary64,
    pub expected_hashrate: Binary64,
    pub best_diff: u64,
    pub best_session_diff: u64,
    pub pool_difficulty: u64,
    pub shares_accepted: u64,
    pub shares_rejected: u64,
    pub shares_rejected_reasons: Seq<ShareRejectedReasonView>,
    pub block_found: bool,
    pub auto_fan_speed: bool,
    pub fan_rpm: i64,
    pub fan_speed: Binary64,
    pub frequency: i64,
    pub hostname: Seq<char>,
    pub ssid: Seq<char>,
    pub wifi_rssi: i64,
    pub wifi_status: Seq<char>,
    pub mac_addr: Seq<char>,
    pub ap_enabled: bool,
    pub is_psram_available: bool,
    pub overclock_enabled: bool,
    pub overheat_protection_mode: bool,
    pub temp: Binary64,
    pub temp_target: Binary64,
    pub uptime_seconds: u64,
}

impl View for SystemInfo {
    type V = SystemInfoView;

    open spec fn view(&self) -> SystemInfoView {
        SystemInfoView {
            asic_model: self.asic_model@,
            version: self.version@,
            axe_os_version: self.axe_os_version@,
            board_version: self.board_version@,
            stratum_url: self.stratum_url@,
            stratum_port: self.stratum_port,
            stratum_user: self.stratum_user@,
            is_using_fallback_stratum: self.is_using_fallback_stratum,
            fallback_stratum_url: self.fallback_stratum_url@,
            fallback_stratum_port: self.fallback_stratum_port,
            fallback_stratum_user: self.fallback_stratum_user@,
            stratum_latency: self.stratum_latency,
            hashrate: self.hashrate,
            expected_hashrate: self.expected_hashrate,
            best_diff: self.best_diff,
            best_session_diff: self.best_session_diff,
            pool_difficulty: self.pool_difficulty,
            shares_accepted: self.shares_accepted,
            shares_rejected: self.shares_rejected,
            shares_rejected_reasons: reason_views(self.shares_rejected_reasons@),
            block_found: self.block_found,
            auto_fan_speed: self.auto_fan_speed,
            fan_rpm: self.fan_rpm,
            fan_speed: self.fan_speed,
            frequency: self.frequency,
            hostname: self.hostname@,
            ssid: self.ssid@,
            wifi_rssi: self.wifi_rssi,
            wifi_status: self.wifi_status@,
            mac_addr: self.mac_addr@,
            ap_enabled: self.ap_enabled,
            is_psram_available: self.is_psram_available,
            overclock_enabled: self.overclock_enabled,
            overheat_protection_mode: self.overheat_protection_mode,
            temp: self.temp,
            temp_target: self.temp_target,
            uptime_seconds: self.uptime_seconds,
        }
    }
}

/// What came of reading the first words of the two difficulties of a payload.
#[derive(Clone, Copy, Debug, PartialEq, Eq)]
pub struct DifficultyReadings {
    /// What came of reading the first word of the best difficulty.
    pub best: NumberReading,
    /// What came of reading the first word of the best difficulty of the session.
    pub session: NumberReading,
}

/// The words of the two difficulties of a payload that the caller is to read as binary64
/// numbers. There is none for a difficulty that is missing, is no string or holds no word: its
/// reading is not looked at.
#[derive(Clone, Debug, PartialEq, Eq)]
pub struct DifficultyQueries {
    /// The first word of the best difficulty.
    pub best: Option<String>,
    /// The first word of the best difficulty of the session.
    pub session: Option<String>,
}

/// `DifficultyQueries` with their words as sequences of characters.
pub ghost struct DifficultyQueriesView {
    pub best: Option<Seq<char>>,
    pub session: Option<Seq<char>>,
}

impl View for DifficultyQueries {
    type V = DifficultyQueriesView;

    open spec fn view(&self) -> DifficultyQueriesView {
        DifficultyQueriesView { best: query_view(self.best), session: query_view(self.session) }
    }
}

/// The telemetry that the members `m` hold, where every field can be decoded.
pub open spec fn assembled(m: Members, readings: DifficultyReadings) -> SystemInfoView {
    SystemInfoView {
        asic_model: text_of(m, Field::AsicModel)->Ok_0,
        version: text_of(m, Field::Version)->Ok_0,
        axe_os_version: text_of(m, Field::AxeOsVersion)->Ok_0,
        board_version: text_of(m, Field::BoardVersion)->Ok_0,
        stratum_url: text_of(m, Field::StratumUrl)->Ok_0,
        stratum_port: port_of(m, Field::StratumPort)->Ok_0,
        stratum_user: text_of(m, Field::StratumUser)->Ok_0,
        is_using_fallback_stratum: flag_of(m, Field::IsUsingFallbackStratum)->Ok_0,
        fallback_stratum_url: text_of(m, Field::FallbackStratumUrl)->Ok_0,
        fallback_stratum_port: port_of(m, Field::FallbackStratumPort)->Ok_0,
        fallback_stratum_user: text_of(m, Field::FallbackStratumUser)->Ok_0,
        stratum_latency: optional_number_of(m, Field::StratumLatency)->Ok_0,
        hashrate: number_of(m, Field::Hashrate)->Ok_0,
        expected_hashrate: number_of(m, Field::ExpectedHashrate)->Ok_0,
        best_diff: difficulty_at(m, Field::BestDiff, readings.best)->Ok_0,
        best_session_diff: difficulty_at(m, Field::BestSessionDiff, readings.session)->Ok_0,
        pool_difficulty: count_of(m, Field::PoolDifficulty)->Ok_0,
        shares_accepted: count_of(m, Field::SharesAccepted)->Ok_0,
        shares_rejected: count_of(m, Field::SharesRejected)->Ok_0,
        shares_rejected_reasons: reasons_of(m, Field::SharesRejectedReasons)->Ok_0,
        block_found: flag_or_absent_of(m, Field::BlockFound)->Ok_0,
        auto_fan_speed: flag_of(m, Field::AutoFanSpeed)->Ok_0,
        fan_rpm: signed_of(m, Field::FanRpm)->Ok_0,
        fan_speed: number_of(m, Field::FanSpeed)->Ok_0,
        frequency: signed_of(m, Field::Frequency)->Ok_0,
        hostname: text_of(m, Field::Hostname)->Ok_0,
        ssid: text_of(m, Field::Ssid)->Ok_0,
        wifi_rssi: signed_of(m, Field::WifiRssi)->Ok_0,
        wifi_status: text_of(m, Field::WifiStatus)->Ok_0,
        mac_addr: text_of(m, Field::MacAddr)->Ok_0,
        ap_enabled: flag_of(m, Field::ApEnabled)->Ok_0,
        is_psram_available: flag_of(m, Field::IsPsramAvailable)->Ok_0,
        overclock_enabled: flag_of(m, Field::OverclockEnabled)->Ok_0,
        overheat_protection_mode: flag_of(m, Field::OverheatProtectionMode)->Ok_0,
        temp: number_of(m, Field::Temp)->Ok_0,
        temp_target: number_of(m, Field::TempTarget)->Ok_0,
        uptime_seconds: count_of(m, Field::UptimeSeconds)->Ok_0,
    }
}

/// The telemetry that a payload holds, given what came of reading the first words of its two
/// difficulties.
///
/// The payload is a JSON object. Its fields are decoded in the order of `Field::rank`, each from
/// the first member of its name and as its shape says; members of other names are not looked
/// at. The first field that cannot be decoded gives the error.
pub open spec fn system_info_of(payload: Json, readings: DifficultyReadings) -> Result<
    SystemInfoView,
    DecodeErrorView,
> {
    match payload {
        Json::Object(m) => match first_error(m, readings, Field::first()) {
            Some(error) => Err(error),
            None => Ok(assembled(m, readings)),
        },
        _ => Err(DecodeErrorView::NotAnObject),
    }
}

/// The word of the difficulty at `field` of a payload that is to be read as a number.
pub open spec fn query_at(payload: Json, field: Field) -> Option<Seq<char>> {
    match payload {
        Json::Object(m) => match member(m, field.wire_name()) {
            Some(value) => query_of_value(value),
            None => None,
        },
        _ => None,
    }
}

/// The words of the two difficulties of a payload that are to be read as numbers.
pub open spec fn queries_of(payload: Json) -> DifficultyQueriesView {
    DifficultyQueriesView {
        best: query_at(payload, Field::BestDiff),
        session: query_at(payload, Field::BestSessionDiff),
    }
}

/// A payload without a member `blockFound` says that no block was found: the field is not at
/// fault, and the telemetry of a payload that can be decoded holds `false` for it.
pub proof fn lemma_missing_block_found_is_false(m: Members, readings: DifficultyReadings)
    requires
        member(m, Field::BlockFound.wire_name()) is None,
    ensures
        field_error(m, Field::BlockFound, readings) is None,
        system_info_of(Json::Object(m), readings) matches Ok(info) ==> !info.block_found,
{
}

/// A payload whose best difficulty is at fault is not decoded, whatever else it holds: no
/// difficulty is made up for it.
pub proof fn lemma_best_diff_at_fault_fails(m: Members, readings: DifficultyReadings)
    requires
        difficulty_value(member(m, Field::BestDiff.wire_name()), readings.best) is Err,
    ensures
        system_info_of(Json::Object(m), readings) is Err,
{
    lemma_first_error_is_first(m, readings);
    assert(field_error(m, Field::BestDiff, readings) is Some);
}

/// Whether no field is looked for under `name`.
pub open spec fn is_unknown(name: Seq<char>) -> bool {
    forall|field: Field| #[trigger] field.wire_name() != name
}

/// A member under whose name no field is looked for is ignored: wherever it is put in among the
/// members of a payload, the payload is decoded as without it, and asks the same of the caller.
pub proof fn lemma_unknown_member_is_ignored(
    m: Members,
    at: int,
    added: (Seq<char>, Json),
    readings: DifficultyReadings,
)
    requires
        0 <= at <= m.len(),
        is_unknown(added.0),
    ensures
        system_info_of(Json::Object(m.insert(at, added)), readings) == system_info_of(
            Json::Object(m),
            readings,
        ),
        queries_of(Json::Object(m.insert(at, added))) == queries_of(Json::Object(m)),
{
    let longer = m.insert(at, added);
    assert forall|field: Field|
        member(longer, #[trigger] field.wire_name()) == member(m, field.wire_name()) by {
        lemma_member_of_other_name(m, at, added, field.wire_name());
    }
    lemma_same_members_same_errors(longer, m, readings, Field::first());
}

/// The view of decoded telemetry or of the error that stood in its way.
pub open spec fn decoded_view(r: Result<SystemInfo, DecodeError>) -> Result<
    SystemInfoView,
    DecodeErrorView,
> {
    match r {
        Ok(info) => Ok(info@),
        Err(error) => Err(error@),
    }
}

/// What the two difficulties of a payload ask the caller to read.
pub fn difficulty_queries(payload: &JsonValue) -> (r: DifficultyQueries)
    ensures
        r@ == queries_of(payload@),
{
    match payload {
        JsonValue::Object(members) => {
            proof {
                lemma_object_view(*members);
            }
            let best = match find(members, &Field::BestDiff.name()) {
                Some(value) => difficulty_query_of(value),
                None => None,
            };
            let session = match find(members, &Field::BestSessionDiff.name()) {
                Some(value) => difficulty_query_of(value),
                None => None,
            };
            DifficultyQueries { best, session }
        },
        _ => DifficultyQueries { best: None, session: None },
    }
}

/// Decodes the telemetry from a payload, given what came of reading the first words of
/// its two difficulties.
pub fn decode_system_info(payload: &JsonValue, readings: DifficultyReadings) -> (r: Result<
    SystemInfo,
    DecodeError,
>)
    ensures
        decoded_view(r) == system_info_of(payload@, readings),
{
    let members = match payload {
        JsonValue::Object(members) => members,
        _ => {
            return Err(DecodeError::NotAnObject);
        },
    };
    proof {
        lemma_object_view(*members);
    }
    let asic_model = text(members, Field::AsicModel, Ghost(readings))?;
    let version = text(members, Field::Version, Ghost(readings))?;
    let axe_os_version = text(members, Field::AxeOsVersion, Ghost(readings))?;
    let board_version = text(members, Field::BoardVersion, Ghost(readings))?;
    let stratum_url = text(members, Field::StratumUrl, Ghost(readings))?;
    let stratum_port = port(members, Field::StratumPort, Ghost(readings))?;
    let stratum_user = text(members, Field::StratumUser, Ghost(readings))?;
    let is_using_fallback_stratum = flag(members, Field::IsUsingFallbackStratum, Ghost(readings))?;
    let fallback_stratum_url = text(members, Field::FallbackStratumUrl, Ghost(readings))?;
    let fallback_stratum_port = port(members, Field::FallbackStratumPort, Ghost(readings))?;
    let fallback_stratum_user = text(members, Field::FallbackStratumUser, Ghost(readings))?;
    let stratum_latency = optional_number(members, Field::StratumLatency, Ghost(readings))?;
    let hashrate = number(members, Field::Hashrate, Ghost(readings))?;
    let expected_hashrate = number(members, Field::ExpectedHashrate, Ghost(readings))?;
    let best_diff = difficulty(members, Field::BestDiff, readings.best, Ghost(readings))?;
    let best_session_diff = difficulty(
        members,
        Field::BestSessionDiff,
        readings.session,
        Ghost(readings),
    )?;
    let pool_difficulty = count(members, Field::PoolDifficulty, Ghost(readings))?;
    let shares_accepted = count(members, Field::SharesAccepted, Ghost(readings))?;
    let shares_rejected = count(members, Field::SharesRejected, Ghost(readings))?;
    let shares_rejected_reasons = reasons(members, Field::SharesRejectedReasons, Ghost(readings))?;
    let block_found = flag_or_absent(members, Field::BlockFound, Ghost(readings))?;
    let auto_fan_speed = flag(members, Field::AutoFanSpeed, Ghost(readings))?;
    let fan_rpm = signed(members, Field::FanRpm, Ghost(readings))?;
    let fan_speed = number(members, Field::FanSpeed, Ghost(readings))?;
    let frequency = signed(members, Field::Frequency, Ghost(readings))?;
    let hostname = text(members, Field::Hostname, Ghost(readings))?;
    let ssid = text(members, Field::Ssid, Ghost(readings))?;
    let wifi_rssi = signed(members, Field::WifiRssi, Ghost(readings))?;
    let wifi_status = text(members, Field::WifiStatus, Ghost(readings))?;
    let mac_addr = text(members, Field::MacAddr, Ghost(readings))?;
    let ap_enabled = flag(members, Field::ApEnabled, Ghost(readings))?;
    let is_psram_available = flag(members, Field::IsPsramAvailable, Ghost(readings))?;
    let overclock_enabled = flag(members, Field::OverclockEnabled, Ghost(readings))?;
    let overheat_protection_mode = flag(members, Field::OverheatProtectionMode, Ghost(readings))?;
    let temp = number(members, Field::Temp, Ghost(readings))?;
    let temp_target = number(members, Field::TempTarget, Ghost(readings))?;
    let uptime_seconds = count(members, Field::UptimeSeconds, Ghost(readings))?;
    Ok(
        SystemInfo {
            asic_model,
            version,
            axe_os_version,
            board_version,
            stratum_url,
            stratum_port,
            stratum_user,
            is_using_fallback_stratum,
            fallback_stratum_url,
            fallback_stratum_port,
            fallback_stratum_user,
            stratum_latency,
            hashrate,
            expected_hashrate,
            best_diff,
            best_session_diff,
            pool_difficulty,
            shares_accepted,
            shares_rejected,
            shares_rejected_reasons,
            block_found,
            auto_fan_speed,
            fan_rpm,
            fan_speed,
            frequency,
            hostname,
            ssid,
            wifi_rssi,
            wifi_status,
            mac_addr,
            ap_enabled,
            is_psram_available,
            overclock_enabled,
            overheat_protection_mode,
            temp,
            temp_target,
            uptime_seconds,
        },
    )
}

} // verus!
