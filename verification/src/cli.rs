//! The subcommands of the command line: what each of them sends to the headset,
//! and what it prints.

use vstd::prelude::*;
use crate::commands::{
    anc_status, eq_preset_results, multipoint_status, multipoint_status_of, send_raw, set_anc,
    set_anti_wind, set_bass_boost, set_crossfeed, set_eq_band, set_eq_preset, set_multipoint,
    set_noise_control_custom, set_transparency, transparency_status, CrossfeedLevel,
    MultipointStatus, Request, RequestModel, UnknownPreset,
};
use crate::gaia::{
    GaiaResponse, ResponseModel, CMD_ANC_GET, CMD_QUALCOMM_MULTIPOINT_SET, CMD_SONOVA_ANC_SET,
    CMD_SONOVA_ANC_SET_COMPANION, CMD_SONOVA_BASS_BOOST_SET, CMD_SONOVA_CROSSFEED_SET,
    CMD_SONOVA_CUSTOM_NOISE_CONTROL_COMMIT, CMD_SONOVA_CUSTOM_NOISE_CONTROL_SET,
    CMD_SONOVA_MULTIPOINT_STATUS_GET, CMD_TRANSPARENCY_GET, CMD_TRANSPARENCY_SET, EQ_PRESETS,
};
use crate::report::{eq_preset_lines, multipoint_line, response_line, with_remark};

verus! {

/// A subcommand that talks to the headset.
#[derive(Debug, Clone)]
pub enum GaiaCommand {
    AncStatus,
    /// Adaptive ANC, or none.
    Anc(bool),
    TransparencyStatus,
    Transparency(bool),
    BassBoost(bool),
    EqPreset(String),
    EqBand(u8, i8),
    NoiseControlCustom(u8),
    Multipoint(bool),
    MultipointStatus,
    AntiWind(bool),
    Crossfeed(CrossfeedLevel),
    Raw(Request),
}

/// The requests of a subcommand. That of a preset are those of its gains.
pub open spec fn command_requests(command: GaiaCommand) -> Seq<RequestModel> {
    match command {
        GaiaCommand::AncStatus => seq![crate::commands::older(CMD_ANC_GET, Seq::empty())],
        GaiaCommand::Anc(adaptive) => {
            let state = crate::commands::switch_byte(adaptive);
            seq![
                crate::commands::sonova(CMD_SONOVA_ANC_SET, seq![3u8, state]),
                crate::commands::sonova(CMD_SONOVA_ANC_SET_COMPANION, seq![state]),
            ]
        },
        GaiaCommand::TransparencyStatus => seq![
            crate::commands::older(CMD_TRANSPARENCY_GET, Seq::empty()),
        ],
        GaiaCommand::Transparency(on) => seq![
            crate::commands::older(CMD_TRANSPARENCY_SET, seq![crate::commands::switch_byte(on)]),
        ],
        GaiaCommand::BassBoost(on) => seq![
            crate::commands::sonova(
                CMD_SONOVA_BASS_BOOST_SET,
                seq![crate::commands::switch_byte(on)],
            ),
        ],
        GaiaCommand::EqPreset(name) => crate::commands::eq_bands(
            preset_gains(crate::letters::lowered(name@)),
        ),
        GaiaCommand::EqBand(band, gain) => seq![crate::commands::eq_band(band, gain)],
        GaiaCommand::NoiseControlCustom(percent) => seq![
            crate::commands::sonova(CMD_SONOVA_CUSTOM_NOISE_CONTROL_SET, seq![percent]),
            crate::commands::sonova(CMD_SONOVA_CUSTOM_NOISE_CONTROL_COMMIT, Seq::empty()),
        ],
        GaiaCommand::Multipoint(on) => seq![
            crate::commands::qualcomm(
                CMD_QUALCOMM_MULTIPOINT_SET,
                seq![crate::commands::switch_byte(on)],
            ),
        ],
        GaiaCommand::MultipointStatus => seq![
            crate::commands::sonova(CMD_SONOVA_MULTIPOINT_STATUS_GET, Seq::empty()),
        ],
        GaiaCommand::AntiWind(on) => seq![
            crate::commands::sonova(
                CMD_SONOVA_ANC_SET,
                seq![1u8, crate::commands::switch_byte(on)],
            ),
        ],
        GaiaCommand::Crossfeed(level) => seq![
            crate::commands::sonova(
                CMD_SONOVA_CROSSFEED_SET,
                seq![crate::commands::crossfeed_byte(level)],
            ),
        ],
        GaiaCommand::Raw(request) => seq![request@],
    }
}

/// Whether a subcommand names a preset that does not exist.
pub open spec fn names_no_preset(command: GaiaCommand) -> bool {
    command matches GaiaCommand::EqPreset(name) && forall|i: int|
        !crate::commands::is_named(i, crate::letters::lowered(name@))
}

/// The gains of the preset with this name.
pub open spec fn preset_gains(key: Seq<char>) -> Seq<i8> {
    EQ_PRESETS@[choose|i: int| crate::commands::is_named(i, key)].1@
}

fn one(request: Request) -> (r: Vec<Request>)
    ensures
        crate::commands::request_models(r@) == seq![request@],
{
    let out: Vec<Request> = vec![request];
    assert(crate::commands::request_models(out@) =~= seq![request@]);
    out
}

fn preset_requests(name: &str) -> (r: Result<([i8; 5], Vec<Request>), UnknownPreset>)
    ensures
        match r {
            Ok((gains, requests)) => {
                &&& exists|i: int| crate::commands::is_named(i, crate::letters::lowered(name@))
                &&& gains@ == preset_gains(crate::letters::lowered(name@))
                &&& crate::commands::request_models(requests@) == crate::commands::eq_bands(gains@)
            },
            Err(e) => e.name@ == name@ && forall|i: int|
                !crate::commands::is_named(i, crate::letters::lowered(name@)),
        },
{
    let ghost key = crate::letters::lowered(name@);
    match set_eq_preset(name) {
        Ok((gains, requests)) => {
            proof {
                let found = choose|i: int| #[trigger]
                    crate::commands::is_named(i, key) && EQ_PRESETS@[i].1 == gains;
                let named = choose|i: int| crate::commands::is_named(i, key);
                crate::commands::preset_names_are_distinct(found, named, key);
            }
            Ok((gains, requests))
        },
        Err(e) => Err(e),
    }
}

/// The requests that a subcommand sends, in order.
pub fn requests_of(command: &GaiaCommand) -> (r: Result<Vec<Request>, UnknownPreset>)
    ensures
        match r {
            Ok(requests) => !names_no_preset(*command) && crate::commands::request_models(
                requests@,
            ) == command_requests(*command),
            Err(e) => names_no_preset(*command) && (command matches GaiaCommand::EqPreset(name)
                && e.name@ == name@),
        },
{
    let requests: Vec<Request> = match command {
        GaiaCommand::AncStatus => one(anc_status()),
        GaiaCommand::Anc(adaptive) => set_anc(*adaptive),
        GaiaCommand::TransparencyStatus => one(transparency_status()),
        GaiaCommand::Transparency(on) => one(set_transparency(*on)),
        GaiaCommand::BassBoost(on) => one(set_bass_boost(*on)),
        GaiaCommand::EqPreset(name) => match preset_requests(name.as_str()) {
            Ok((_, requests)) => requests,
            Err(e) => return Err(e),
        },
        GaiaCommand::EqBand(band, gain) => one(set_eq_band(*band, *gain)),
        GaiaCommand::NoiseControlCustom(percent) => set_noise_control_custom(*percent),
        GaiaCommand::Multipoint(on) => one(set_multipoint(*on)),
        GaiaCommand::MultipointStatus => one(multipoint_status()),
        GaiaCommand::AntiWind(on) => one(set_anti_wind(*on)),
        GaiaCommand::Crossfeed(level) => one(set_crossfeed(*level)),
        GaiaCommand::Raw(request) => one(
            send_raw(
                request.version,
                request.vendor_id,
                request.command_id,
                vstd::slice::slice_to_vec(request.payload.as_slice()),
            ),
        ),
    };
    Ok(requests)
}

/// The line for a response to one of several requests of a subcommand.
pub open spec fn remarked_line(name: Seq<char>, remark: Seq<char>, resp: ResponseModel) -> Seq<char> {
    crate::report::response_line_text(crate::report::remarked(name, remark), resp)
}

/// How many requests a subcommand sends.
pub open spec fn request_count(command: GaiaCommand) -> nat {
    match command {
        GaiaCommand::Anc(_) => 2,
        GaiaCommand::NoiseControlCustom(_) => 2,
        GaiaCommand::EqPreset(_) => 5,
        _ => 1,
    }
}

/// What a subcommand prints once all its requests have been answered. One that
/// names no preset has sent nothing and prints nothing.
pub open spec fn command_lines(
    command: GaiaCommand,
    name: Seq<char>,
    replies: Seq<ResponseModel>,
) -> Seq<Seq<char>> {
    match command {
        GaiaCommand::AncStatus => seq![
            "(unverified opcode for this device - interpret with caution)"@,
            crate::report::response_line_text(name, replies[0]),
        ],
        GaiaCommand::Anc(_) => seq![
            remarked_line(name, "primary"@, replies[0]),
            remarked_line(name, "companion"@, replies[1]),
        ],
        GaiaCommand::EqPreset(preset) => if names_no_preset(command) {
            Seq::empty()
        } else {
            let gains = preset_gains(crate::letters::lowered(preset@));
            Seq::new(
                5,
                |i: int|
                    remarked_line(
                        name,
                        crate::report::band_text(i as u8, gains[i]),
                        replies[i],
                    ),
            )
        },
        GaiaCommand::NoiseControlCustom(_) => seq![
            remarked_line(name, "set"@, replies[0]),
            remarked_line(name, "commit"@, replies[1]),
        ],
        GaiaCommand::MultipointStatus => seq![
            crate::report::multipoint_line_text(
                name,
                match replies[0].status {
                    Some(count) => crate::commands::multipoint_count(count),
                    None => MultipointStatus::NoValue,
                },
            ),
        ],
        _ => seq![crate::report::response_line_text(name, replies[0])],
    }
}

fn remarked_response(name: &str, remark: &str, resp: &GaiaResponse) -> (r: String)
    ensures
        r@ == remarked_line(name@, remark@, resp@),
{
    let title: String = with_remark(name, remark);
    response_line(title.as_str(), resp)
}

/// The lines that a subcommand prints about the device of this name.
pub fn lines_of(command: &GaiaCommand, name: &str, replies: Vec<GaiaResponse>) -> (r: Vec<String>)
    requires
        replies@.len() == request_count(*command),
    ensures
        crate::text::texts(r@) == command_lines(
            *command,
            name@,
            crate::transport::response_models(replies@),
        ),
{
    let ghost models = crate::transport::response_models(replies@);
    let out: Vec<String> = match command {
        GaiaCommand::AncStatus => vec![
            "(unverified opcode for this device - interpret with caution)".to_owned(),
            response_line(name, &replies[0]),
        ],
        GaiaCommand::Anc(_) => vec![
            remarked_response(name, "primary", &replies[0]),
            remarked_response(name, "companion", &replies[1]),
        ],
        GaiaCommand::EqPreset(preset) => match preset_requests(preset.as_str()) {
            Ok((gains, _)) => eq_preset_lines(name, &eq_preset_results(gains, replies)),
            Err(_) => Vec::new(),
        },
        GaiaCommand::NoiseControlCustom(_) => vec![
            remarked_response(name, "set", &replies[0]),
            remarked_response(name, "commit", &replies[1]),
        ],
        GaiaCommand::MultipointStatus => vec![
            multipoint_line(name, multipoint_status_of(&replies[0])),
        ],
        _ => vec![response_line(name, &replies[0])],
    };
    assert(crate::text::texts(out@) =~= command_lines(*command, name@, models));
    out
}

/// A subcommand prints one line for each request that it sends, and a word of
/// caution before the answer to an unconfirmed question.
pub proof fn one_line_for_each_request(
    command: GaiaCommand,
    name: Seq<char>,
    replies: Seq<ResponseModel>,
)
    ensures
        command_requests(command).len() == request_count(command),
        !names_no_preset(command) ==> command_lines(command, name, replies).len()
            == request_count(command) + if command is AncStatus {
            1int
        } else {
            0int
        },
{
}

/// Every request of a subcommand, unless the user made it up, fits in a frame
/// without extended length.
pub proof fn requests_fit_in_a_frame(command: GaiaCommand, i: int)
    requires
        !(command is Raw),
        0 <= i < command_requests(command).len(),
    ensures
        ({
            let m = command_requests(command)[i];
            crate::transport::wire_bytes(
                crate::transport::TransportKind::Classic,
                m.version,
                m.vendor_id,
                m.command_id,
                m.payload,
            ) is Ok
        }),
{
}

/// The ANC subcommand sends the state that means the mode, 1 for Adaptive and 0
/// for off, first after parameter 3 and then to the companion. A headset that
/// acknowledges either with the payload that it was sent is shown in that mode.
pub proof fn anc_sends_the_mode(adaptive: bool, status: Option<u8>)
    ensures
        ({
            let m = command_requests(GaiaCommand::Anc(adaptive));
            &&& m.len() == 2
            &&& m[0].version == 3 && m[0].vendor_id == 0x0495 && m[0].command_id == 0x1a00
            &&& m[0].payload.len() == 2 && m[0].payload[0] == 3
            &&& m[1].version == 3 && m[1].vendor_id == 0x0495 && m[1].command_id == 0x1a04
            &&& m[1].payload.len() == 1
            &&& adaptive <==> m[0].payload[1] == 1
            &&& !adaptive <==> m[0].payload[1] == 0
            &&& m[1].payload[0] == m[0].payload[1]
            &&& crate::commands::event(
                ResponseModel {
                    vendor_id: m[0].vendor_id,
                    command_id: (m[0].command_id + 0x81) as u16,
                    status,
                    payload: m[0].payload,
                },
            ) == Some(crate::commands::EventModel::AncMode(adaptive))
            &&& crate::commands::event(
                ResponseModel {
                    vendor_id: m[1].vendor_id,
                    command_id: (m[1].command_id + 0x81) as u16,
                    status: Some(m[1].payload[0]),
                    payload: Seq::empty(),
                },
            ) == Some(crate::commands::EventModel::AncMode(adaptive))
        }),
{
}

/// Every subcommand that turns something on or off sends one request whose last
/// byte is 1 for on and 0 for off, and one that sends the other state differs in
/// that byte alone.
pub proof fn switches_send_their_state(on: bool)
    ensures
        ({
            let sends = |command: GaiaCommand, version: u8, vendor_id: u16, command_id: u16|
                command_requests(command).len() == 1 && command_requests(command)[0].version
                    == version && command_requests(command)[0].vendor_id == vendor_id
                    && command_requests(command)[0].command_id == command_id;
            let payload = |command: GaiaCommand| command_requests(command)[0].payload;
            let state = if on {
                1u8
            } else {
                0u8
            };
            &&& sends(GaiaCommand::Transparency(on), 1, 0x0494, 0x0704)
            &&& payload(GaiaCommand::Transparency(on)) =~= seq![state]
            &&& sends(GaiaCommand::BassBoost(on), 3, 0x0495, 0x1008)
            &&& payload(GaiaCommand::BassBoost(on)) =~= seq![state]
            &&& sends(GaiaCommand::Multipoint(on), 3, 0x001d, 0x0e00)
            &&& payload(GaiaCommand::Multipoint(on)) =~= seq![state]
            &&& sends(GaiaCommand::AntiWind(on), 3, 0x0495, 0x1a00)
            &&& payload(GaiaCommand::AntiWind(on)) =~= seq![1u8, state]
        }),
{
}

/// What a switch or a level sends is what the headset, acknowledging it with the
/// same value, is shown to be set to.
pub proof fn acknowledged_subcommands_are_shown(on: bool, percent: u8, level: CrossfeedLevel, status: Option<u8>)
    ensures
        ({
            let sent = |command: GaiaCommand| command_requests(command)[0].payload;
            let told = |vendor_id: u16, command_id: u16, value: u8|
                crate::commands::event(
                    ResponseModel {
                        vendor_id,
                        command_id,
                        status: Some(value),
                        payload: Seq::empty(),
                    },
                );
            &&& told(0x0495, 0x1089, sent(GaiaCommand::BassBoost(on))[0]) == Some(
                crate::commands::EventModel::BassBoost(on),
            )
            &&& told(0x001d, 0x0e80, sent(GaiaCommand::Multipoint(on))[0]) == Some(
                crate::commands::EventModel::MultipointEnabled(on),
            )
            &&& told(0x0495, 0x1a83, sent(GaiaCommand::NoiseControlCustom(percent))[0]) == Some(
                crate::commands::EventModel::CustomNoiseControl(percent),
            )
            &&& told(0x0495, 0x2f01, sent(GaiaCommand::Crossfeed(level))[0]) == Some(
                crate::commands::EventModel::Crossfeed(level),
            )
            &&& crate::commands::event(
                ResponseModel {
                    vendor_id: 0x0495,
                    command_id: 0x1a81,
                    status,
                    payload: sent(GaiaCommand::AntiWind(on)),
                },
            ) == Some(crate::commands::EventModel::AntiWind(on))
        }),
{
}

/// The other subcommands: the questions carry no payload, the slider sends its
/// percentage and then commits, a Crossfeed level and a band send what the
/// headset takes, and a made-up request is sent as it is.
pub proof fn other_subcommands_send(
    percent: u8,
    level: CrossfeedLevel,
    band: u8,
    gain: i8,
    request: Request,
)
    ensures
        ({
            let m = |command: GaiaCommand| command_requests(command);
            let asks = |command: GaiaCommand, version: u8, vendor_id: u16, command_id: u16|
                {
                    let list = command_requests(command);
                    list.len() == 1 && list[0].version == version && list[0].vendor_id == vendor_id
                        && list[0].command_id == command_id && list[0].payload.len() == 0
                };
            &&& asks(GaiaCommand::AncStatus, 1, 0x0494, 0x0788)
            &&& asks(GaiaCommand::TransparencyStatus, 1, 0x0494, 0x0784)
            &&& asks(GaiaCommand::MultipointStatus, 3, 0x0495, 0x1409)
            &&& m(GaiaCommand::NoiseControlCustom(percent)).len() == 2
            &&& m(GaiaCommand::NoiseControlCustom(percent))[0] == (RequestModel {
                version: 3,
                vendor_id: 0x0495,
                command_id: 0x1a02,
                payload: seq![percent],
            })
            &&& m(GaiaCommand::NoiseControlCustom(percent))[1] == (RequestModel {
                version: 3,
                vendor_id: 0x0495,
                command_id: 0x1a03,
                payload: Seq::empty(),
            })
            &&& m(GaiaCommand::Crossfeed(level)).len() == 1
            &&& m(GaiaCommand::Crossfeed(level))[0] == (RequestModel {
                version: 3,
                vendor_id: 0x0495,
                command_id: 0x2e00,
                payload: seq![
                    match level {
                        CrossfeedLevel::Off => 2u8,
                        CrossfeedLevel::Low => 0u8,
                        CrossfeedLevel::High => 1u8,
                    },
                ],
            })
            &&& m(GaiaCommand::EqBand(band, gain)).len() == 1
            &&& m(GaiaCommand::EqBand(band, gain))[0].version == 3
            &&& m(GaiaCommand::EqBand(band, gain))[0].vendor_id == 0x0495
            &&& m(GaiaCommand::EqBand(band, gain))[0].command_id == 0x1001
            &&& m(GaiaCommand::EqBand(band, gain))[0].payload.len() == 2
            &&& m(GaiaCommand::EqBand(band, gain))[0].payload[0] == band
            &&& (m(GaiaCommand::EqBand(band, gain))[0].payload[1] - gain) % 256 == 0
            &&& m(GaiaCommand::Raw(request)).len() == 1
            &&& m(GaiaCommand::Raw(request))[0].version == request.version
            &&& m(GaiaCommand::Raw(request))[0].vendor_id == request.vendor_id
            &&& m(GaiaCommand::Raw(request))[0].command_id == request.command_id
            &&& m(GaiaCommand::Raw(request))[0].payload == request.payload@
        }),
{
}

/// The preset subcommand sends the gains of the preset that its name, in lower
/// case, is in the table, band by band; it is refused exactly when the table has
/// no such name.
pub proof fn preset_subcommand_sends_the_table(name: String, i: int, band: int)
    requires
        0 <= i < 9,
        0 <= band < 5,
    ensures
        crate::letters::lowered(name@) == EQ_PRESETS@[i].0@ ==> {
            let m = command_requests(GaiaCommand::EqPreset(name));
            &&& !names_no_preset(GaiaCommand::EqPreset(name))
            &&& m.len() == 5
            &&& m[band].version == 3 && m[band].vendor_id == 0x0495 && m[band].command_id == 0x1001
            &&& m[band].payload.len() == 2
            &&& m[band].payload[0] == band
            &&& (m[band].payload[1] - EQ_PRESETS@[i].1@[band]) % 256 == 0
        },
        (forall|k: int| 0 <= k < 9 ==> EQ_PRESETS@[k].0@ != crate::letters::lowered(name@))
            ==> names_no_preset(GaiaCommand::EqPreset(name)),
{
    let key = crate::letters::lowered(name@);
    if key == EQ_PRESETS@[i].0@ {
        assert(crate::commands::is_named(i, key));
        let named = choose|k: int| crate::commands::is_named(k, key);
        crate::commands::preset_names_are_distinct(i, named, key);
        let gains = EQ_PRESETS@[i].1@;
        assert(preset_gains(key) == gains);
        assert(command_requests(GaiaCommand::EqPreset(name)) == crate::commands::eq_bands(gains));
        crate::commands::preset_commands_set_every_band(gains, band);
        crate::commands::band_commands_carry_band_and_gain(band as u8, gains[band], 0, 0);
    }
}

/// Only the preset subcommand can be refused.
pub proof fn only_presets_are_refused(command: GaiaCommand)
    ensures
        names_no_preset(command) ==> command is EqPreset,
{
}

/// The multipoint question is answered in words: a count of 2 is on, of 1 is off,
/// any other is named, and no count is said to be missing.
pub proof fn multipoint_is_reported(name: Seq<char>, reply: ResponseModel, count: u8)
    ensures
        ({
            let lines = command_lines(GaiaCommand::MultipointStatus, name, seq![reply]);
            &&& lines.len() == 1
            &&& reply.status == Some(2u8) ==> lines[0] == name + ": multipoint is ON (2 devices)"@
            &&& reply.status == Some(1u8) ==> lines[0] == name + ": multipoint is OFF (1 device)"@
            &&& reply.status == Some(count) && count != 1 && count != 2 ==> lines[0] == name
                + ": multipoint status returned unexpected value "@ + crate::text::decimal(
                count as nat,
            )
            &&& reply.status is None ==> lines[0] == name
                + ": multipoint status response had no value"@
        }),
{
}

/// Every other subcommand prints the answer to each request under the name of the
/// device, in the order of the requests, and, where there are several, with what
/// the request was for.
pub proof fn answers_are_printed_in_order(
    command: GaiaCommand,
    name: Seq<char>,
    replies: Seq<ResponseModel>,
    percent: u8,
    preset: String,
    i: int,
)
    requires
        0 <= i < 5,
    ensures
        ({
            let line = |name: Seq<char>, reply: ResponseModel|
                name + ": "@ + crate::report::response_text(reply);
            let remark = |what: Seq<char>| name + " ("@ + what + ")"@;
            let pair = |command: GaiaCommand, first: Seq<char>, second: Seq<char>|
                {
                    let lines = command_lines(command, name, replies);
                    lines.len() == 2 && lines[0] == line(remark(first), replies[0]) && lines[1]
                        == line(remark(second), replies[1])
                };
            &&& request_count(command) == 1 && !(command is AncStatus) && !(
            command is MultipointStatus) ==> command_lines(command, name, replies) =~= seq![
                line(name, replies[0]),
            ]
            &&& command_lines(GaiaCommand::AncStatus, name, replies) =~= seq![
                "(unverified opcode for this device - interpret with caution)"@,
                line(name, replies[0]),
            ]
            &&& pair(GaiaCommand::Anc(true), "primary"@, "companion"@)
            &&& pair(GaiaCommand::Anc(false), "primary"@, "companion"@)
            &&& pair(GaiaCommand::NoiseControlCustom(percent), "set"@, "commit"@)
            &&& !names_no_preset(GaiaCommand::EqPreset(preset)) ==> {
                let lines = command_lines(GaiaCommand::EqPreset(preset), name, replies);
                let gain = preset_gains(crate::letters::lowered(preset@))[i];
                lines.len() == 5 && lines[i] == line(
                    remark(
                        "band "@ + crate::text::decimal(i as nat) + " -> "@
                            + crate::text::signed_decimal(gain as int),
                    ),
                    replies[i],
                )
            }
        }),
{
}

/// How many requests each subcommand sends.
pub proof fn requests_are_counted(command: GaiaCommand)
    ensures
        request_count(command) == if command is EqPreset {
            5
        } else if command is Anc || command is NoiseControlCustom {
            2
        } else {
            1int
        },
{
}

} // verus!
