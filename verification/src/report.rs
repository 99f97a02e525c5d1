//! The texts that report volumes, battery levels and responses.

use vstd::prelude::*;
use crate::bluez::{ConnectedDevice, MAX_VOLUME};
use crate::commands::{CrossfeedLevel, MultipointStatus};
use crate::gaia::{GaiaResponse, ResponseModel};
use crate::text::{push_decimal, push_hex_list, push_hex_word, push_signed};

verus! {

/// A volume in per cent of the largest, rounded down.
pub open spec fn volume_percent(volume: u16) -> nat {
    (volume * 100 / 127) as nat
}

/// A volume as text, such as `64/127 (50%)`.
pub open spec fn volume_text(volume: u16) -> Seq<char> {
    crate::text::decimal(volume as nat) + "/"@ + crate::text::decimal(MAX_VOLUME as nat) + " ("@
        + crate::text::decimal(volume_percent(volume)) + "%)"@
}

/// A volume as text.
pub fn format_volume(volume: u16) -> (r: String)
    ensures
        r@ == volume_text(volume),
{
    let percent: u32 = volume as u32 * 100 / MAX_VOLUME as u32;
    let mut out: String = String::new();
    push_decimal(&mut out, volume as u64);
    assert(out@ =~= crate::text::decimal(volume as nat));
    out.append("/");
    push_decimal(&mut out, MAX_VOLUME as u64);
    out.append(" (");
    push_decimal(&mut out, percent as u64);
    out.append("%)");
    out
}

/// The line that reports the volume of a device.
pub fn volume_line(name: &str, volume: u16) -> (r: String)
    ensures
        r@ == name@ + ": "@ + volume_text(volume),
{
    let mut out: String = name.to_owned();
    out.append(": ");
    out.append(format_volume(volume).as_str());
    out
}

/// The line that reports that the volume of a device cannot be read.
pub fn volume_unavailable_line(name: &str, error: &str) -> (r: String)
    ensures
        r@ == name@ + ": volume unavailable ("@ + error@ + ")"@,
{
    let mut out: String = name.to_owned();
    out.append(": volume unavailable (");
    out.append(error);
    out.append(")");
    out
}

/// The volume after turning it up by a step, but not past the largest.
pub open spec fn raised(current: u16, step: u16) -> u16 {
    if current + step <= MAX_VOLUME {
        (current + step) as u16
    } else {
        MAX_VOLUME
    }
}

/// The volume after turning it down by a step, but not below zero.
pub open spec fn reduced(current: u16, step: u16) -> u16 {
    if step <= current {
        (current - step) as u16
    } else {
        0
    }
}

/// The volume after turning it up by a step.
pub fn volume_up(current: u16, step: u16) -> (r: u16)
    ensures
        r == raised(current, step),
{
    let sum: u16 = current.saturating_add(step);
    if sum <= MAX_VOLUME {
        sum
    } else {
        MAX_VOLUME
    }
}

/// The volume after turning it down by a step.
pub fn volume_down(current: u16, step: u16) -> (r: u16)
    ensures
        r == reduced(current, step),
{
    current.saturating_sub(step)
}

/// What the status of a response says.
pub open spec fn status_text(status: Option<u8>) -> Seq<char> {
    match status {
        Some(code) => if code == 0 {
            "OK"@
        } else {
            "error/unknown code "@ + crate::text::decimal(code as nat)
        },
        None => "no status byte"@,
    }
}

/// A response as text.
pub open spec fn response_text(resp: ResponseModel) -> Seq<char> {
    "response vendor=0x"@ + crate::text::hex_word(resp.vendor_id) + " command=0x"@
        + crate::text::hex_word(resp.command_id) + " status="@ + status_text(resp.status)
        + " payload="@ + crate::text::hex_list(resp.payload)
}

fn push_status(out: &mut String, status: Option<u8>)
    ensures
        final(out)@ == old(out)@ + status_text(status),
{
    let ghost start = out@;
    match status {
        Some(code) => if code == 0 {
            out.append("OK");
        } else {
            out.append("error/unknown code ");
            push_decimal(out, code as u64);
        },
        None => out.append("no status byte"),
    }
    assert(out@ =~= start + status_text(status));
}

/// A response as text.
pub fn format_gaia_response(resp: &GaiaResponse) -> (r: String)
    ensures
        r@ == response_text(resp@),
{
    let mut out: String = "response vendor=0x".to_owned();
    push_hex_word(&mut out, resp.vendor_id);
    out.append(" command=0x");
    push_hex_word(&mut out, resp.command_id);
    out.append(" status=");
    push_status(&mut out, resp.status);
    out.append(" payload=");
    push_hex_list(&mut out, resp.payload.as_slice());
    out
}

/// The line that reports the response of a device.
pub open spec fn response_line_text(name: Seq<char>, resp: ResponseModel) -> Seq<char> {
    name + ": "@ + response_text(resp)
}

/// The line that reports the response of a device.
pub fn response_line(name: &str, resp: &GaiaResponse) -> (r: String)
    ensures
        r@ == response_line_text(name@, resp@),
{
    let mut out: String = name.to_owned();
    out.append(": ");
    out.append(format_gaia_response(resp).as_str());
    out
}

/// The name of a device with a remark.
pub open spec fn remarked(name: Seq<char>, remark: Seq<char>) -> Seq<char> {
    name + " ("@ + remark + ")"@
}

/// The name of a device with a remark, such as which of two commands a line is
/// about, or its address.
pub fn with_remark(name: &str, remark: &str) -> (r: String)
    ensures
        r@ == remarked(name@, remark@),
{
    let mut out: String = name.to_owned();
    out.append(" (");
    out.append(remark);
    out.append(")");
    out
}

/// A band and its gain.
pub open spec fn band_text(band: u8, gain: i8) -> Seq<char> {
    "band "@ + crate::text::decimal(band as nat) + " -> "@ + crate::text::signed_decimal(
        gain as int,
    )
}

/// A band and its gain.
pub fn format_band(band: u8, gain: i8) -> (r: String)
    ensures
        r@ == band_text(band, gain),
{
    let mut out: String = "band ".to_owned();
    push_decimal(&mut out, band as u64);
    out.append(" -> ");
    push_signed(&mut out, gain);
    out
}

/// The lines that report an applied preset, one for each band.
pub fn eq_preset_lines(name: &str, results: &Vec<(u8, i8, GaiaResponse)>) -> (r: Vec<String>)
    ensures
        r@.len() == results@.len(),
        forall|i: int|
            0 <= i < r@.len() ==> (#[trigger] r@[i])@ == response_line_text(
                remarked(name@, band_text(results@[i].0, results@[i].1)),
                results@[i].2@,
            ),
{
    let mut out: Vec<String> = Vec::new();
    let mut i: usize = 0;
    while i < results.len()
        invariant
            i <= results@.len(),
            out@.len() == i,
            forall|k: int|
                0 <= k < i ==> (#[trigger] out@[k])@ == response_line_text(
                    remarked(name@, band_text(results@[k].0, results@[k].1)),
                    results@[k].2@,
                ),
        decreases results@.len() - i,
    {
        let band: String = format_band(results[i].0, results[i].1);
        let title: String = with_remark(name, band.as_str());
        out.push(response_line(title.as_str(), &results[i].2));
        i += 1;
    }
    out
}

/// How a battery level was read.
#[derive(Debug, Clone, Copy, PartialEq, Eq, Structural)]
pub enum BatterySource {
    Bluez,
    Gatt,
}

/// A battery level as text, with how it was read.
pub open spec fn battery_text(percent: u8, source: BatterySource) -> Seq<char> {
    crate::text::decimal(percent as nat) + match source {
        BatterySource::Bluez => "% (via org.bluez.Battery1)"@,
        BatterySource::Gatt => "% (via btleplug GATT read)"@,
    }
}

/// A battery level as text, with how it was read.
pub fn format_battery(percent: u8, source: BatterySource) -> (r: String)
    ensures
        r@ == battery_text(percent, source),
{
    let mut out: String = String::new();
    push_decimal(&mut out, percent as u64);
    assert(out@ =~= crate::text::decimal(percent as nat));
    match source {
        BatterySource::Bluez => out.append("% (via org.bluez.Battery1)"),
        BatterySource::Gatt => out.append("% (via btleplug GATT read)"),
    }
    out
}

/// The line that reports the battery level of a device.
pub fn battery_line(name: &str, percent: u8, source: BatterySource) -> (r: String)
    ensures
        r@ == name@ + ": battery "@ + battery_text(percent, source),
{
    let mut out: String = name.to_owned();
    out.append(": battery ");
    out.append(format_battery(percent, source).as_str());
    out
}

/// The line that reports the multipoint status of a device.
pub open spec fn multipoint_line_text(name: Seq<char>, status: MultipointStatus) -> Seq<char> {
    match status {
        MultipointStatus::On => name + ": multipoint is ON (2 devices)"@,
        MultipointStatus::Off => name + ": multipoint is OFF (1 device)"@,
        MultipointStatus::Unknown(other) => name
            + ": multipoint status returned unexpected value "@ + crate::text::decimal(
            other as nat,
        ),
        MultipointStatus::NoValue => name + ": multipoint status response had no value"@,
    }
}

/// The line that reports the multipoint status of a device.
pub fn multipoint_line(name: &str, status: MultipointStatus) -> (r: String)
    ensures
        r@ == multipoint_line_text(name@, status),
{
    let mut out: String = name.to_owned();
    match status {
        MultipointStatus::On => out.append(": multipoint is ON (2 devices)"),
        MultipointStatus::Off => out.append(": multipoint is OFF (1 device)"),
        MultipointStatus::Unknown(other) => {
            out.append(": multipoint status returned unexpected value ");
            push_decimal(&mut out, other as u64);
        },
        MultipointStatus::NoValue => out.append(": multipoint status response had no value"),
    }
    out
}

/// The multipoint status as a short text.
pub open spec fn multipoint_text(status: MultipointStatus) -> Seq<char> {
    match status {
        MultipointStatus::On => "ON (2 devices)"@,
        MultipointStatus::Off => "OFF (1 device)"@,
        MultipointStatus::Unknown(other) => "unexpected value "@ + crate::text::decimal(
            other as nat,
        ),
        MultipointStatus::NoValue => "no value returned"@,
    }
}

/// The multipoint status as a short text.
pub fn format_multipoint(status: MultipointStatus) -> (r: String)
    ensures
        r@ == multipoint_text(status),
{
    match status {
        MultipointStatus::On => "ON (2 devices)".to_owned(),
        MultipointStatus::Off => "OFF (1 device)".to_owned(),
        MultipointStatus::Unknown(other) => {
            let mut out: String = "unexpected value ".to_owned();
            push_decimal(&mut out, other as u64);
            out
        },
        MultipointStatus::NoValue => "no value returned".to_owned(),
    }
}

/// The name of a Crossfeed level.
pub open spec fn crossfeed_text(level: CrossfeedLevel) -> Seq<char> {
    match level {
        CrossfeedLevel::Off => "Off"@,
        CrossfeedLevel::Low => "Low"@,
        CrossfeedLevel::High => "High"@,
    }
}

/// The name of a Crossfeed level.
pub fn format_crossfeed(level: CrossfeedLevel) -> (r: &'static str)
    ensures
        r@ == crossfeed_text(level),
{
    match level {
        CrossfeedLevel::Off => "Off",
        CrossfeedLevel::Low => "Low",
        CrossfeedLevel::High => "High",
    }
}

/// The name and address of each device.
pub open spec fn device_texts(devices: Seq<ConnectedDevice>) -> Seq<Seq<char>> {
    devices.map_values(|d: ConnectedDevice| remarked(d.name@, d.address@))
}

/// The name and address of each device.
pub fn device_names(devices: &Vec<ConnectedDevice>) -> (r: Vec<String>)
    ensures
        crate::text::texts(r@) == device_texts(devices@),
{
    let mut out: Vec<String> = Vec::new();
    let mut i: usize = 0;
    while i < devices.len()
        invariant
            i <= devices@.len(),
            out@.len() == i,
            forall|k: int|
                0 <= k < i ==> (#[trigger] out@[k])@ == remarked(
                    devices@[k].name@,
                    devices@[k].address@,
                ),
        decreases devices@.len() - i,
    {
        out.push(with_remark(devices[i].name.as_str(), devices[i].address.as_str()));
        i += 1;
    }
    assert(crate::text::texts(out@) =~= device_texts(devices@));
    out
}

/// The lines that list the connected devices.
pub fn device_lines(devices: &Vec<ConnectedDevice>) -> (r: Vec<String>)
    ensures
        crate::text::texts(r@) == if devices@.len() == 0 {
            seq!["No devices currently connected to this machine."@]
        } else {
            device_texts(devices@)
        },
{
    if devices.len() == 0 {
        let out: Vec<String> = vec!["No devices currently connected to this machine.".to_owned()];
        assert(crate::text::texts(out@)
            =~= seq!["No devices currently connected to this machine."@]);
        return out;
    }
    device_names(devices)
}

/// From a volume that AVRCP allows, turning up and down leads to one that it
/// allows, never in the wrong direction, and each undoes the other unless a
/// limit is hit.
pub proof fn volume_steps_stay_in_range(current: u16, step: u16)
    requires
        current <= MAX_VOLUME,
    ensures
        current <= raised(current, step) <= MAX_VOLUME,
        reduced(current, step) <= current,
        current + step <= MAX_VOLUME ==> reduced(raised(current, step), step) == current,
        step <= current ==> raised(reduced(current, step), step) == current,
{
}

/// The percentage grows with the volume, from 0 at silence to 100 at the
/// largest volume.
pub proof fn volume_percent_grows(low: u16, high: u16)
    requires
        low <= high <= MAX_VOLUME,
    ensures
        volume_percent(low) <= volume_percent(high) <= 100,
        volume_percent(0) == 0,
        volume_percent(MAX_VOLUME) == 100,
{
}

/// The percentage of a volume is the largest whole one that does not exceed its
/// share of 127, and the text of a volume shows the volume, the largest there is
/// and the percentage.
pub proof fn volumes_are_shown_with_their_share(volume: u16, percent: nat)
    requires
        percent * 127 <= volume * 100 < (percent + 1) * 127,
    ensures
        volume_percent(volume) == percent,
        volume_text(volume) == crate::text::decimal(volume as nat) + "/"@ + crate::text::decimal(
            127,
        ) + " ("@ + crate::text::decimal(percent) + "%)"@,
{
}

/// Two volumes that are shown alike are the same volume.
pub proof fn volume_texts_are_unambiguous(a: u16, b: u16)
    requires
        volume_text(a) == volume_text(b),
    ensures
        a == b,
{
    reveal_strlit("/");
    crate::text::decimal_digits_spell_the_number(a as nat);
    crate::text::decimal_digits_spell_the_number(b as nat);
    let da = crate::text::decimal(a as nat);
    let db = crate::text::decimal(b as nat);
    let t = volume_text(a);
    assert(t[da.len() as int] == '/');
    assert(volume_text(b)[db.len() as int] == '/');
    if da.len() < db.len() {
        assert(volume_text(b)[da.len() as int] == db[da.len() as int]);
        assert(false);
    }
    if db.len() < da.len() {
        assert(t[db.len() as int] == da[db.len() as int]);
        assert(false);
    }
    assert(t.take(da.len() as int) =~= da);
    assert(volume_text(b).take(db.len() as int) =~= db);
    crate::text::decimals_are_unambiguous(a as nat, b as nat);
}

/// Turning up adds the step, unless that passes 127, which is then the volume;
/// turning down takes the step off, unless that passes 0. This holds from every
/// volume, also from one above 127.
pub proof fn volume_steps_add_and_take(current: u16, step: u16)
    ensures
        raised(current, step) <= 127,
        raised(current, step) == current + step || (raised(current, step) == 127 && current + step
            > 127),
        reduced(current, step) + step == current || (reduced(current, step) == 0 && step
            > current),
{
}

/// A status of 0 is fine, any other is named, and none is said to be missing.
pub proof fn statuses_are_shown(code: u8)
    ensures
        status_text(Some(0u8)) == "OK"@,
        code != 0 ==> status_text(Some(code)) == "error/unknown code "@ + crate::text::decimal(
            code as nat,
        ),
        status_text(None) == "no status byte"@,
{
}

/// A response is shown with all that it holds, each in its place: the two IDs as
/// four hexadecimal digits, the status in words, and every byte of the payload.
pub proof fn responses_are_shown_whole(resp: ResponseModel)
    ensures
        ({
            let t = response_text(resp);
            &&& t.take(18) == "response vendor=0x"@
            &&& crate::hex::number(t.subrange(18, 22), 0xFFFF) == Ok::<nat, crate::hex::HexError>(
                resp.vendor_id as nat,
            )
            &&& t.subrange(22, 33) == " command=0x"@
            &&& crate::hex::number(t.subrange(33, 37), 0xFFFF) == Ok::<nat, crate::hex::HexError>(
                resp.command_id as nat,
            )
            &&& t.skip(37) == " status="@ + status_text(resp.status) + " payload="@
                + crate::text::hex_list(resp.payload)
        }),
{
    reveal_strlit("response vendor=0x");
    reveal_strlit(" command=0x");
    reveal_strlit(" status=");
    reveal_strlit(" payload=");
    let t = response_text(resp);
    crate::text::word_digits_spell_the_word(resp.vendor_id);
    crate::text::word_digits_spell_the_word(resp.command_id);
    assert(t.take(18) =~= "response vendor=0x"@);
    assert(t.subrange(18, 22) =~= crate::text::hex_word(resp.vendor_id));
    assert(t.subrange(22, 33) =~= " command=0x"@);
    assert(t.subrange(33, 37) =~= crate::text::hex_word(resp.command_id));
    assert(t.skip(37) =~= " status="@ + status_text(resp.status) + " payload="@
        + crate::text::hex_list(resp.payload));
}

/// A line about a device starts with its name, and a remark stands in brackets
/// after it.
pub proof fn lines_start_with_the_name(name: Seq<char>, remark: Seq<char>, resp: ResponseModel)
    ensures
        response_line_text(name, resp) == name + ": "@ + response_text(resp),
        remarked(name, remark) == name + " ("@ + remark + ")"@,
{
}

/// A band is shown with its number and its gain.
pub proof fn bands_are_shown_with_their_gain(band: u8, gain: i8)
    ensures
        band_text(band, gain) == "band "@ + crate::text::decimal(band as nat) + " -> "@ + if gain
            < 0 {
            seq!['-'] + crate::text::decimal((-gain) as nat)
        } else {
            crate::text::decimal(gain as nat)
        },
{
    crate::text::signed_decimal_shows_the_sign(
        if gain < 0 {
            (-gain) as nat
        } else {
            gain as nat
        },
    );
}

/// A battery level is shown with where it comes from.
pub proof fn battery_levels_are_shown(percent: u8)
    ensures
        battery_text(percent, BatterySource::Bluez) == crate::text::decimal(percent as nat)
            + "% (via org.bluez.Battery1)"@,
        battery_text(percent, BatterySource::Gatt) == crate::text::decimal(percent as nat)
            + "% (via btleplug GATT read)"@,
{
}

/// The multipoint status in words, short and as a line about a device.
pub proof fn multipoint_is_put_in_words(name: Seq<char>, other: u8)
    ensures
        multipoint_text(MultipointStatus::On) == "ON (2 devices)"@,
        multipoint_text(MultipointStatus::Off) == "OFF (1 device)"@,
        multipoint_text(MultipointStatus::Unknown(other)) == "unexpected value "@
            + crate::text::decimal(other as nat),
        multipoint_text(MultipointStatus::NoValue) == "no value returned"@,
        multipoint_line_text(name, MultipointStatus::On) == name
            + ": multipoint is ON (2 devices)"@,
        multipoint_line_text(name, MultipointStatus::Off) == name
            + ": multipoint is OFF (1 device)"@,
        multipoint_line_text(name, MultipointStatus::Unknown(other)) == name
            + ": multipoint status returned unexpected value "@ + crate::text::decimal(
            other as nat,
        ),
        multipoint_line_text(name, MultipointStatus::NoValue) == name
            + ": multipoint status response had no value"@,
{
}

/// The Crossfeed levels in words.
pub proof fn crossfeed_is_put_in_words()
    ensures
        crossfeed_text(CrossfeedLevel::Off) == "Off"@,
        crossfeed_text(CrossfeedLevel::Low) == "Low"@,
        crossfeed_text(CrossfeedLevel::High) == "High"@,
{
}

/// Every device is listed, in its place, with its name and its address.
pub proof fn devices_are_listed_with_their_address(devices: Seq<ConnectedDevice>, i: int)
    ensures
        device_texts(devices).len() == devices.len(),
        0 <= i < devices.len() ==> device_texts(devices)[i] == devices[i].name@ + " ("@
            + devices[i].address@ + ")"@,
{
}

} // verus!
