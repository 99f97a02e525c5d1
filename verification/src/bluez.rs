//! Device discovery, AVRCP absolute volume and battery level, as BlueZ reports
//! them.
//!
//! BlueZ publishes its objects over D-Bus. Here they are plain values: each
//! object has a path and interfaces, each interface has properties. Volume is
//! `org.bluez.MediaTransport1.Volume`, which works for any headset with AVRCP
//! absolute volume; Sennheiser's own protocol has no volume command.

use std::str::FromStr;
use vstd::prelude::*;
use crate::letters::contains_ignoring_case;
use crate::text::same_text;

verus! {

/// The bus name of BlueZ.
pub const BLUEZ_SERVICE: &'static str = "org.bluez";

/// The interface of a device.
pub const DEVICE_IFACE: &'static str = "org.bluez.Device1";

/// The interface of an audio transport.
pub const TRANSPORT_IFACE: &'static str = "org.bluez.MediaTransport1";

/// The interface of a battery.
pub const BATTERY_IFACE: &'static str = "org.bluez.Battery1";

/// AVRCP 1.4 absolute volume is a 7-bit value: 0-127.
pub const MAX_VOLUME: u16 = 127;

/// The value of a property, as far as it matters here.
#[derive(Debug, Clone)]
pub enum PropertyValue {
    Text(String),
    Flag(bool),
    Path(String),
    Byte(u8),
    Word(u16),
    Other,
}

/// What a [`PropertyValue`] holds.
#[verifier::ext_equal]
pub enum ValueModel {
    Text(Seq<char>),
    Flag(bool),
    Path(Seq<char>),
    Byte(u8),
    Word(u16),
    Other,
}

impl View for PropertyValue {
    type V = ValueModel;

    open spec fn view(&self) -> ValueModel {
        match self {
            PropertyValue::Text(s) => ValueModel::Text(s@),
            PropertyValue::Flag(b) => ValueModel::Flag(*b),
            PropertyValue::Path(s) => ValueModel::Path(s@),
            PropertyValue::Byte(v) => ValueModel::Byte(*v),
            PropertyValue::Word(v) => ValueModel::Word(*v),
            PropertyValue::Other => ValueModel::Other,
        }
    }
}

/// A named property.
#[derive(Debug, Clone)]
pub struct Property {
    pub name: String,
    pub value: PropertyValue,
}

/// A named interface with its properties.
#[derive(Debug, Clone)]
pub struct Interface {
    pub name: String,
    pub properties: Vec<Property>,
}

/// An object with its path and interfaces.
#[derive(Debug, Clone)]
pub struct ManagedObject {
    pub path: String,
    pub interfaces: Vec<Interface>,
}

/// The value of the property with this name.
pub open spec fn property(list: Seq<Property>, name: Seq<char>) -> Option<ValueModel>
    decreases list.len(),
{
    if list.len() == 0 {
        None
    } else if list[0].name@ == name {
        Some(list[0].value@)
    } else {
        property(list.skip(1), name)
    }
}

/// The properties of the interface with this name.
pub open spec fn interface(list: Seq<Interface>, name: Seq<char>) -> Option<Seq<Property>>
    decreases list.len(),
{
    if list.len() == 0 {
        None
    } else if list[0].name@ == name {
        Some(list[0].properties@)
    } else {
        interface(list.skip(1), name)
    }
}

/// The interfaces of the object at this path.
pub open spec fn object_at(list: Seq<ManagedObject>, path: Seq<char>) -> Option<Seq<Interface>>
    decreases list.len(),
{
    if list.len() == 0 {
        None
    } else if list[0].path@ == path {
        Some(list[0].interfaces@)
    } else {
        object_at(list.skip(1), path)
    }
}

/// The text of a property.
pub open spec fn text_of(value: Option<ValueModel>) -> Option<Seq<char>> {
    match value {
        Some(ValueModel::Text(s)) => Some(s),
        _ => None,
    }
}

/// The path of a property.
pub open spec fn path_of(value: Option<ValueModel>) -> Option<Seq<char>> {
    match value {
        Some(ValueModel::Path(s)) => Some(s),
        _ => None,
    }
}

/// Whether a device says that it is connected.
pub open spec fn is_connected(device: Seq<Property>) -> bool {
    property(device, "Connected"@) == Some(ValueModel::Flag(true))
}

/// The address of a device; empty if it does not say.
pub open spec fn address_text(device: Seq<Property>) -> Seq<char> {
    match text_of(property(device, "Address"@)) {
        Some(address) => address,
        None => Seq::empty(),
    }
}

/// What to call a device: its alias, else its name, else its path.
pub open spec fn display_name(path: Seq<char>, device: Seq<Property>) -> Seq<char> {
    match text_of(property(device, "Alias"@)) {
        Some(alias) => alias,
        None => match text_of(property(device, "Name"@)) {
            Some(name) => name,
            None => path,
        },
    }
}

fn find_property<'a>(list: &'a Vec<Property>, name: &str) -> (r: Option<&'a PropertyValue>)
    ensures
        match property(list@, name@) {
            Some(m) => r matches Some(v) && v@ == m,
            None => r is None,
        },
{
    let mut i: usize = 0;
    assert(list@.skip(0) =~= list@);
    while i < list.len()
        invariant
            i <= list@.len(),
            property(list@, name@) == property(list@.skip(i as int), name@),
        decreases list@.len() - i,
    {
        if same_text(list[i].name.as_str(), name) {
            return Some(&list[i].value);
        }
        assert(list@.skip(i as int).skip(1) =~= list@.skip(i + 1));
        i += 1;
    }
    None
}

fn find_interface<'a>(list: &'a Vec<Interface>, name: &str) -> (r: Option<&'a Vec<Property>>)
    ensures
        match interface(list@, name@) {
            Some(m) => r matches Some(v) && v@ == m,
            None => r is None,
        },
{
    let mut i: usize = 0;
    assert(list@.skip(0) =~= list@);
    while i < list.len()
        invariant
            i <= list@.len(),
            interface(list@, name@) == interface(list@.skip(i as int), name@),
        decreases list@.len() - i,
    {
        if same_text(list[i].name.as_str(), name) {
            return Some(&list[i].properties);
        }
        assert(list@.skip(i as int).skip(1) =~= list@.skip(i + 1));
        i += 1;
    }
    None
}

fn find_object<'a>(list: &'a Vec<ManagedObject>, path: &str) -> (r: Option<&'a Vec<Interface>>)
    ensures
        match object_at(list@, path@) {
            Some(m) => r matches Some(v) && v@ == m,
            None => r is None,
        },
{
    let mut i: usize = 0;
    assert(list@.skip(0) =~= list@);
    while i < list.len()
        invariant
            i <= list@.len(),
            object_at(list@, path@) == object_at(list@.skip(i as int), path@),
        decreases list@.len() - i,
    {
        if same_text(list[i].path.as_str(), path) {
            return Some(&list[i].interfaces);
        }
        assert(list@.skip(i as int).skip(1) =~= list@.skip(i + 1));
        i += 1;
    }
    None
}

/// Reads a property value as text.
pub fn as_string(value: &PropertyValue) -> (r: Option<String>)
    ensures
        match value@ {
            ValueModel::Text(s) => r matches Some(x) && x@ == s,
            _ => r is None,
        },
{
    match value {
        PropertyValue::Text(s) => Some(s.as_str().to_owned()),
        _ => None,
    }
}

/// Reads a property value as a flag.
pub fn as_bool(value: &PropertyValue) -> (r: Option<bool>)
    ensures
        r == match value@ {
            ValueModel::Flag(b) => Some(b),
            _ => None,
        },
{
    match value {
        PropertyValue::Flag(b) => Some(*b),
        _ => None,
    }
}

/// Reads a property value as an object path.
pub fn as_object_path(value: &PropertyValue) -> (r: Option<String>)
    ensures
        match value@ {
            ValueModel::Path(s) => r matches Some(x) && x@ == s,
            _ => r is None,
        },
{
    match value {
        PropertyValue::Path(s) => Some(s.as_str().to_owned()),
        _ => None,
    }
}

fn text_property(list: &Vec<Property>, name: &str) -> (r: Option<String>)
    ensures
        match text_of(property(list@, name@)) {
            Some(s) => r matches Some(x) && x@ == s,
            None => r is None,
        },
{
    match find_property(list, name) {
        Some(value) => as_string(value),
        None => None,
    }
}

fn path_property(list: &Vec<Property>, name: &str) -> (r: Option<String>)
    ensures
        match path_of(property(list@, name@)) {
            Some(s) => r matches Some(x) && x@ == s,
            None => r is None,
        },
{
    match find_property(list, name) {
        Some(value) => as_object_path(value),
        None => None,
    }
}

fn connected(device: &Vec<Property>) -> (r: bool)
    ensures
        r == is_connected(device@),
{
    match find_property(device, "Connected") {
        Some(value) => match as_bool(value) {
            Some(b) => b,
            None => false,
        },
        None => false,
    }
}

fn device_address_text(device: &Vec<Property>) -> (r: String)
    ensures
        r@ == address_text(device@),
{
    match text_property(device, "Address") {
        Some(address) => address,
        None => String::new(),
    }
}

/// What to call a device.
pub fn device_display_name(path: &str, device: &Vec<Property>) -> (r: String)
    ensures
        r@ == display_name(path@, device@),
{
    match text_property(device, "Alias") {
        Some(alias) => alias,
        None => match text_property(device, "Name") {
            Some(name) => name,
            None => path.to_owned(),
        },
    }
}

/// A connected device with an active audio transport.
#[derive(Debug, Clone)]
pub struct Candidate {
    pub transport_path: String,
    pub display_name: String,
}

/// What a [`Candidate`] holds.
#[verifier::ext_equal]
pub struct CandidateModel {
    pub transport_path: Seq<char>,
    pub display_name: Seq<char>,
}

impl View for Candidate {
    type V = CandidateModel;

    open spec fn view(&self) -> CandidateModel {
        CandidateModel {
            transport_path: self.transport_path@,
            display_name: self.display_name@,
        }
    }
}

/// The device that an object is the audio transport of: its path and its
/// properties.
pub open spec fn transport_device(objects: Seq<ManagedObject>, object: ManagedObject) -> Option<
    (Seq<char>, Seq<Property>),
> {
    match interface(object.interfaces@, TRANSPORT_IFACE@) {
        None => None,
        Some(transport) => match path_of(property(transport, "Device"@)) {
            None => None,
            Some(device_path) => match object_at(objects, device_path) {
                None => None,
                Some(interfaces) => match interface(interfaces, DEVICE_IFACE@) {
                    None => None,
                    Some(device) => Some((device_path, device)),
                },
            },
        },
    }
}

/// The candidate that an object is, if it is the audio transport of a connected
/// device.
pub open spec fn candidate(objects: Seq<ManagedObject>, object: ManagedObject) -> Option<
    CandidateModel,
> {
    match transport_device(objects, object) {
        None => None,
        Some((device_path, device)) => if is_connected(device) {
            Some(
                CandidateModel {
                    transport_path: object.path@,
                    display_name: display_name(device_path, device),
                },
            )
        } else {
            None
        },
    }
}

/// The candidates among the first `n` objects, in order.
pub open spec fn candidates(objects: Seq<ManagedObject>, n: nat) -> Seq<CandidateModel>
    decreases n,
{
    if n == 0 {
        Seq::empty()
    } else {
        let before = candidates(objects, (n - 1) as nat);
        match candidate(objects, objects[n - 1]) {
            Some(c) => before.push(c),
            None => before,
        }
    }
}

/// What a list of candidates holds.
pub open spec fn candidate_models(list: Seq<Candidate>) -> Seq<CandidateModel> {
    list.map_values(|c: Candidate| c@)
}

fn transport_device_of<'a>(objects: &'a Vec<ManagedObject>, object: &ManagedObject) -> (r: Option<
    (String, &'a Vec<Property>),
>)
    ensures
        match transport_device(objects@, *object) {
            Some((path, device)) => r matches Some((p, d)) && p@ == path && d@ == device,
            None => r is None,
        },
{
    let transport: &Vec<Property> = match find_interface(&object.interfaces, TRANSPORT_IFACE) {
        Some(transport) => transport,
        None => return None,
    };
    let device_path: String = match path_property(transport, "Device") {
        Some(path) => path,
        None => return None,
    };
    let interfaces: &Vec<Interface> = match find_object(objects, device_path.as_str()) {
        Some(interfaces) => interfaces,
        None => return None,
    };
    match find_interface(interfaces, DEVICE_IFACE) {
        Some(device) => Some((device_path, device)),
        None => None,
    }
}

fn candidate_of(objects: &Vec<ManagedObject>, object: &ManagedObject) -> (r: Option<Candidate>)
    ensures
        match candidate(objects@, *object) {
            Some(m) => r matches Some(c) && c@ == m,
            None => r is None,
        },
{
    match transport_device_of(objects, object) {
        Some((device_path, device)) => if connected(device) {
            Some(
                Candidate {
                    transport_path: object.path.as_str().to_owned(),
                    display_name: device_display_name(device_path.as_str(), device),
                },
            )
        } else {
            None
        },
        None => None,
    }
}

/// The connected devices with an active audio transport, in the order of the
/// objects.
pub fn list_candidates(objects: &Vec<ManagedObject>) -> (r: Vec<Candidate>)
    ensures
        candidate_models(r@) == candidates(objects@, objects@.len()),
{
    let mut out: Vec<Candidate> = Vec::new();
    let mut i: usize = 0;
    assert(candidate_models(out@) =~= candidates(objects@, 0));
    while i < objects.len()
        invariant
            i <= objects@.len(),
            candidate_models(out@) == candidates(objects@, i as nat),
        decreases objects@.len() - i,
    {
        let ghost before = out@;
        match candidate_of(objects, &objects[i]) {
            Some(c) => {
                out.push(c);
                assert(candidate_models(out@) =~= candidate_models(before).push(c@));
            },
            None => {},
        }
        i += 1;
    }
    out
}

/// A filter by name; without one everything passes.
pub open spec fn filter_text(filter: Option<&str>) -> Option<Seq<char>> {
    match filter {
        Some(f) => Some(f@),
        None => None,
    }
}

/// Whether one of two texts contains the filter, whatever the case.
pub open spec fn passes(first: Seq<char>, second: Seq<char>, filter: Option<Seq<char>>) -> bool {
    match filter {
        Some(f) => crate::letters::has_part_ignoring_case(first, f)
            || crate::letters::has_part_ignoring_case(second, f),
        None => true,
    }
}

/// Tells whether one of two texts contains the filter.
pub fn lets_pass(first: &str, second: &str, filter: Option<&str>) -> (r: bool)
    ensures
        r == passes(first@, second@, filter_text(filter)),
{
    match filter {
        Some(f) => contains_ignoring_case(first, f) || contains_ignoring_case(second, f),
        None => true,
    }
}

/// Why a device could not be used.
#[derive(Debug, Clone)]
pub enum BluezError {
    /// No connected device with an audio transport passes the filter.
    NoTransport(Option<String>),
    /// No connected device passes the filter.
    NoDevice(Option<String>),
    /// The address of a device is not a Bluetooth address: `part` is what could
    /// not be read.
    BadAddress { address: String, part: String },
    /// The battery level is not a byte.
    BatteryNotAByte,
    /// The volume is not a 16-bit number.
    VolumeNotAWord,
}

/// What a [`BluezError`] holds.
#[verifier::ext_equal]
pub enum BluezErrorModel {
    NoTransport(Option<Seq<char>>),
    NoDevice(Option<Seq<char>>),
    BadAddress { address: Seq<char>, part: Seq<char> },
    BatteryNotAByte,
    VolumeNotAWord,
}

/// The text of an optional text.
pub open spec fn optional_text(s: Option<String>) -> Option<Seq<char>> {
    match s {
        Some(s) => Some(s@),
        None => None,
    }
}

impl View for BluezError {
    type V = BluezErrorModel;

    open spec fn view(&self) -> BluezErrorModel {
        match self {
            BluezError::NoTransport(filter) => BluezErrorModel::NoTransport(optional_text(*filter)),
            BluezError::NoDevice(filter) => BluezErrorModel::NoDevice(optional_text(*filter)),
            BluezError::BadAddress { address, part } => BluezErrorModel::BadAddress {
                address: address@,
                part: part@,
            },
            BluezError::BatteryNotAByte => BluezErrorModel::BatteryNotAByte,
            BluezError::VolumeNotAWord => BluezErrorModel::VolumeNotAWord,
        }
    }
}

/// How a filter is named in a message.
pub open spec fn matching_text(filter: Option<Seq<char>>) -> Seq<char> {
    match filter {
        Some(f) => " matching '"@ + f + "'"@,
        None => Seq::empty(),
    }
}

/// Appends how a filter is named in a message.
pub fn push_matching(out: &mut String, filter: Option<&str>)
    ensures
        final(out)@ == old(out)@ + matching_text(filter_text(filter)),
{
    let ghost start = out@;
    match filter {
        Some(f) => {
            out.append(" matching '");
            out.append(f);
            out.append("'");
        },
        None => {},
    }
    assert(out@ =~= start + matching_text(filter_text(filter)));
}

/// The text shown for a [`BluezError`].
pub open spec fn bluez_error_text(e: BluezErrorModel) -> Seq<char> {
    match e {
        BluezErrorModel::NoTransport(filter) =>
            "No connected Bluetooth device with an active AVRCP audio transport was found"@
                + matching_text(filter)
                + ". Make sure the headset is connected and actively streaming audio (or has recently been used for playback), then try again."@,
        BluezErrorModel::NoDevice(filter) => "No connected Bluetooth device was found"@
            + matching_text(filter),
        BluezErrorModel::BadAddress { address, part } => "device address '"@ + address
            + "' was not a valid Bluetooth address: invalid Bluetooth address: "@ + part,
        BluezErrorModel::BatteryNotAByte => "Percentage property was not a u8"@,
        BluezErrorModel::VolumeNotAWord => "Volume property was not a u16"@,
    }
}

fn borrowed<'a>(s: &'a Option<String>) -> (r: Option<&'a str>)
    ensures
        filter_text(r) == optional_text(*s),
{
    match s {
        Some(s) => Some(s.as_str()),
        None => None,
    }
}

fn owned(s: Option<&str>) -> (r: Option<String>)
    ensures
        optional_text(r) == filter_text(s),
{
    match s {
        Some(s) => Some(s.to_owned()),
        None => None,
    }
}

impl BluezError {
    /// The text shown for this error.
    pub fn message(&self) -> (r: String)
        ensures
            r@ == bluez_error_text(self@),
    {
        match self {
            BluezError::NoTransport(filter) => {
                let mut out: String =
                    "No connected Bluetooth device with an active AVRCP audio transport was found".to_owned();
                push_matching(&mut out, borrowed(filter));
                out.append(
                    ". Make sure the headset is connected and actively streaming audio (or has recently been used for playback), then try again.",
                );
                out
            },
            BluezError::NoDevice(filter) => {
                let mut out: String = "No connected Bluetooth device was found".to_owned();
                push_matching(&mut out, borrowed(filter));
                out
            },
            BluezError::BadAddress { address, part } => {
                let mut out: String = "device address '".to_owned();
                out.append(address.as_str());
                out.append("' was not a valid Bluetooth address: invalid Bluetooth address: ");
                out.append(part.as_str());
                out
            },
            BluezError::BatteryNotAByte => "Percentage property was not a u8".to_owned(),
            BluezError::VolumeNotAWord => "Volume property was not a u16".to_owned(),
        }
    }
}

/// The address of the device that an object is the audio transport of; empty if
/// there is none.
pub open spec fn transport_address(objects: Seq<ManagedObject>, object: ManagedObject) -> Seq<char> {
    match transport_device(objects, object) {
        Some((_, device)) => address_text(device),
        None => Seq::empty(),
    }
}

/// Whether the object at `i` is a candidate whose name, address or transport
/// path contains the filter.
pub open spec fn is_target(
    objects: Seq<ManagedObject>,
    filter: Option<Seq<char>>,
    i: int,
) -> bool {
    &&& 0 <= i < objects.len()
    &&& candidate(objects, objects[i]) matches Some(c) && (passes(
        c.display_name,
        transport_address(objects, objects[i]),
        filter,
    ) || passes(c.display_name, c.transport_path, filter))
}

/// Whether the object at `i` is the first target.
pub open spec fn is_first_target(
    objects: Seq<ManagedObject>,
    filter: Option<Seq<char>>,
    i: int,
) -> bool {
    &&& is_target(objects, filter, i)
    &&& forall|k: int| 0 <= k < i ==> !is_target(objects, filter, k)
}

fn target_of(objects: &Vec<ManagedObject>, i: usize, filter: Option<&str>) -> (r: Option<Candidate>)
    requires
        i < objects@.len(),
    ensures
        match r {
            Some(c) => is_target(objects@, filter_text(filter), i as int) && candidate(
                objects@,
                objects@[i as int],
            ) == Some(c@),
            None => !is_target(objects@, filter_text(filter), i as int),
        },
{
    let candidate: Candidate = match candidate_of(objects, &objects[i]) {
        Some(candidate) => candidate,
        None => return None,
    };
    let address: String = match transport_device_of(objects, &objects[i]) {
        Some((_, device)) => device_address_text(device),
        None => String::new(),
    };
    let name: &str = candidate.display_name.as_str();
    if lets_pass(name, address.as_str(), filter) || lets_pass(
        name,
        candidate.transport_path.as_str(),
        filter,
    ) {
        Some(candidate)
    } else {
        None
    }
}

/// Finds the first connected device with an active audio transport whose name,
/// address or transport path contains the filter, whatever the case.
pub fn find_target(objects: &Vec<ManagedObject>, filter: Option<&str>) -> (r: Result<
    Candidate,
    BluezError,
>)
    ensures
        ({
            let f = filter_text(filter);
            match r {
                Ok(c) => exists|i: int| #[trigger]
                    is_first_target(objects@, f, i) && candidate(objects@, objects@[i]) == Some(
                        c@,
                    ),
                Err(e) => e@ == BluezErrorModel::NoTransport(f) && forall|i: int|
                    !is_target(objects@, f, i),
            }
        }),
{
    let mut i: usize = 0;
    while i < objects.len()
        invariant
            i <= objects@.len(),
            forall|k: int| 0 <= k < i ==> !is_target(objects@, filter_text(filter), k),
        decreases objects@.len() - i,
    {
        match target_of(objects, i, filter) {
            Some(candidate) => {
                assert(is_first_target(objects@, filter_text(filter), i as int));
                return Ok(candidate);
            },
            None => {},
        }
        i += 1;
    }
    Err(BluezError::NoTransport(owned(filter)))
}

/// A device that is currently connected to this machine.
#[derive(Debug, Clone)]
pub struct ConnectedDevice {
    pub path: String,
    pub address: String,
    pub name: String,
}

/// What a [`ConnectedDevice`] holds.
#[verifier::ext_equal]
pub struct DeviceModel {
    pub path: Seq<char>,
    pub address: Seq<char>,
    pub name: Seq<char>,
}

impl View for ConnectedDevice {
    type V = DeviceModel;

    open spec fn view(&self) -> DeviceModel {
        DeviceModel { path: self.path@, address: self.address@, name: self.name@ }
    }
}

/// The connected device that an object is, if it is one.
pub open spec fn connected_device(object: ManagedObject) -> Option<DeviceModel> {
    match interface(object.interfaces@, DEVICE_IFACE@) {
        None => None,
        Some(device) => if is_connected(device) {
            Some(
                DeviceModel {
                    path: object.path@,
                    address: address_text(device),
                    name: display_name(object.path@, device),
                },
            )
        } else {
            None
        },
    }
}

/// The connected devices among some objects, in order.
pub open spec fn connected_devices(objects: Seq<ManagedObject>) -> Seq<DeviceModel>
    decreases objects.len(),
{
    if objects.len() == 0 {
        Seq::empty()
    } else {
        let before = connected_devices(objects.drop_last());
        match connected_device(objects.last()) {
            Some(d) => before.push(d),
            None => before,
        }
    }
}

/// What a list of devices holds.
pub open spec fn device_models(list: Seq<ConnectedDevice>) -> Seq<DeviceModel> {
    list.map_values(|d: ConnectedDevice| d@)
}

fn connected_device_of(object: &ManagedObject) -> (r: Option<ConnectedDevice>)
    ensures
        match connected_device(*object) {
            Some(m) => r matches Some(d) && d@ == m,
            None => r is None,
        },
{
    let device: &Vec<Property> = match find_interface(&object.interfaces, DEVICE_IFACE) {
        Some(device) => device,
        None => return None,
    };
    if !connected(device) {
        return None;
    }
    Some(
        ConnectedDevice {
            path: object.path.as_str().to_owned(),
            address: device_address_text(device),
            name: device_display_name(object.path.as_str(), device),
        },
    )
}

/// The devices that are connected to this machine, in the order of the objects.
pub fn list_all_connected_devices(objects: &Vec<ManagedObject>) -> (r: Vec<ConnectedDevice>)
    ensures
        device_models(r@) == connected_devices(objects@),
{
    let mut out: Vec<ConnectedDevice> = Vec::new();
    let mut i: usize = 0;
    assert(device_models(out@) =~= connected_devices(objects@.take(0)));
    while i < objects.len()
        invariant
            i <= objects@.len(),
            device_models(out@) == connected_devices(objects@.take(i as int)),
        decreases objects@.len() - i,
    {
        let ghost before = out@;
        assert(objects@.take(i + 1).drop_last() =~= objects@.take(i as int));
        match connected_device_of(&objects[i]) {
            Some(d) => {
                out.push(d);
                assert(device_models(out@) =~= device_models(before).push(d@));
            },
            None => {},
        }
        i += 1;
    }
    assert(objects@.take(i as int) =~= objects@);
    out
}

/// Whether the device at `i` is the first that passes the filter.
pub open spec fn is_first_device(
    list: Seq<DeviceModel>,
    filter: Option<Seq<char>>,
    i: int,
) -> bool {
    &&& 0 <= i < list.len()
    &&& passes(list[i].name, list[i].address, filter)
    &&& forall|k: int|
        0 <= k < i ==> !passes((#[trigger] list[k]).name, list[k].address, filter)
}

/// Finds the first connected device whose name or address contains the filter,
/// whether or not audio is streaming.
pub fn find_connected_device(objects: &Vec<ManagedObject>, filter: Option<&str>) -> (r: Result<
    ConnectedDevice,
    BluezError,
>)
    ensures
        ({
            let list = connected_devices(objects@);
            let f = filter_text(filter);
            match r {
                Ok(d) => exists|i: int| #[trigger] is_first_device(list, f, i) && d@ == list[i],
                Err(e) => e@ == BluezErrorModel::NoDevice(f) && forall|i: int|
                    !is_first_device(list, f, i),
            }
        }),
{
    let mut list: Vec<ConnectedDevice> = list_all_connected_devices(objects);
    let ghost models = device_models(list@);
    let ghost f = filter_text(filter);
    let mut i: usize = 0;
    while i < list.len()
        invariant
            i <= list@.len(),
            models == device_models(list@),
            models == connected_devices(objects@),
            f == filter_text(filter),
            forall|k: int|
                0 <= k < i ==> !passes((#[trigger] models[k]).name, models[k].address, f),
        decreases list@.len() - i,
    {
        assert(models[i as int] == list@[i as int]@);
        if lets_pass(list[i].name.as_str(), list[i].address.as_str(), filter) {
            assert(is_first_device(models, f, i as int));
            return Ok(list.remove(i));
        }
        i += 1;
    }
    Err(BluezError::NoDevice(owned(filter)))
}

/// The battery level that a property reports.
pub fn get_battery(value: &PropertyValue) -> (r: Result<u8, BluezError>)
    ensures
        match value@ {
            ValueModel::Byte(percent) => r == Ok::<_, BluezError>(percent),
            _ => r matches Err(e) && e@ == BluezErrorModel::BatteryNotAByte,
        },
{
    match value {
        PropertyValue::Byte(percent) => Ok(*percent),
        _ => Err(BluezError::BatteryNotAByte),
    }
}

/// The volume that a property reports.
pub fn get_volume(value: &PropertyValue) -> (r: Result<u16, BluezError>)
    ensures
        match value@ {
            ValueModel::Word(volume) => r == Ok::<_, BluezError>(volume),
            _ => r matches Err(e) && e@ == BluezErrorModel::VolumeNotAWord,
        },
{
    match value {
        PropertyValue::Word(volume) => Ok(*volume),
        _ => Err(BluezError::VolumeNotAWord),
    }
}

/// The volume to write so that a device gets this volume, or the largest that
/// there is.
pub fn set_volume(volume: u16) -> (r: u16)
    ensures
        r == if volume <= MAX_VOLUME {
            volume
        } else {
            MAX_VOLUME
        },
{
    if volume <= MAX_VOLUME {
        volume
    } else {
        MAX_VOLUME
    }
}

/// The parts of a text between its colons.
pub open spec fn fields(text: Seq<char>) -> Seq<Seq<char>>
    decreases text.len(),
{
    if text.len() == 0 {
        seq![Seq::<char>::empty()]
    } else {
        let before = fields(text.drop_last());
        if text.last() == ':' {
            before.push(Seq::empty())
        } else {
            before.drop_last().push(before.last().push(text.last()))
        }
    }
}

/// Whether a part of an address is not a byte in hexadecimal.
pub open spec fn is_bad_field(parts: Seq<Seq<char>>, i: int) -> bool {
    0 <= i < parts.len() && crate::hex::number(parts[i], 0xFF) is Err
}

/// Whether a result is that of reading a text as a Bluetooth address: 6 bytes
/// in hexadecimal between colons. Otherwise it names the first part that is not
/// a byte, or, if there is none, the whole text.
pub open spec fn is_address_result(r: Result<[u8; 6], String>, text: Seq<char>) -> bool {
    let parts = fields(text);
    match r {
        Ok(bytes) => {
            &&& parts.len() == 6
            &&& forall|i: int|
                0 <= i < 6 ==> crate::hex::number(#[trigger] parts[i], 0xFF) == Ok::<
                    nat,
                    crate::hex::HexError,
                >(bytes@[i] as nat)
        },
        Err(part) => {
            ||| exists|i: int| #[trigger]
                is_bad_field(parts, i) && part@ == parts[i] && forall|k: int|
                    0 <= k < i ==> !is_bad_field(parts, k)
            ||| parts.len() != 6 && part@ == text && forall|k: int| !is_bad_field(parts, k)
        },
    }
}

/// Calls `Address::from_str` of the `bluer` crate. It splits the text at the
/// colons, reads each part as a byte in hexadecimal, and wants 6 of them; the
/// error carries the first part that is not a byte, or the whole text if only
/// the number of parts is wrong.
#[verifier::external_body]
fn parse_address(text: &str) -> (r: Result<[u8; 6], String>)
    ensures
        is_address_result(r, text@),
{
    match bluer::Address::from_str(text) {
        Ok(address) => Ok(address.0),
        Err(e) => Err(e.0),
    }
}

/// The address of a device as bytes.
pub fn device_address(address: &str) -> (r: Result<[u8; 6], BluezError>)
    ensures
        match r {
            Ok(bytes) => is_address_result(Ok(bytes), address@),
            Err(e) => exists|part: String|
                is_address_result(Err(part), address@) && e@ == (BluezErrorModel::BadAddress {
                    address: address@,
                    part: #[trigger] part@,
                }),
        },
{
    match parse_address(address) {
        Ok(bytes) => Ok(bytes),
        Err(part) => {
            assert(is_address_result(Err(part), address@));
            Err(BluezError::BadAddress { address: address.to_owned(), part })
        },
    }
}

/// Finds the device to open a GAIA control channel to: its name and address.
pub fn open_gaia_connection(objects: &Vec<ManagedObject>, filter: Option<&str>) -> (r: Result<
    (String, [u8; 6]),
    BluezError,
>)
    ensures
        ({
            let list = connected_devices(objects@);
            let f = filter_text(filter);
            match r {
                Ok((name, bytes)) => exists|i: int| #[trigger]
                    is_first_device(list, f, i) && name@ == list[i].name && is_address_result(
                        Ok(bytes),
                        list[i].address,
                    ),
                Err(e) => match e@ {
                    BluezErrorModel::NoDevice(shown) => shown == f && forall|i: int|
                        !is_first_device(list, f, i),
                    BluezErrorModel::BadAddress { address, part } => exists|i: int, text: String| #[trigger]
                        is_first_device(list, f, i) && address == list[i].address && part
                            == #[trigger] text@ && is_address_result(Err(text), address),
                    _ => false,
                },
            }
        }),
{
    match find_connected_device(objects, filter) {
        Ok(device) => match device_address(device.address.as_str()) {
            Ok(bytes) => Ok((device.name, bytes)),
            Err(e) => Err(e),
        },
        Err(e) => Err(e),
    }
}

/// The candidates are exactly the audio transports of connected devices.
pub proof fn candidates_are_connected_transports(
    objects: Seq<ManagedObject>,
    n: nat,
    c: CandidateModel,
)
    requires
        n <= objects.len(),
    ensures
        candidates(objects, n).contains(c) <==> exists|k: int|
            0 <= k < n && candidate(objects, #[trigger] objects[k]) == Some(c),
    decreases n,
{
    if n > 0 {
        let before = candidates(objects, (n - 1) as nat);
        let all = candidates(objects, n);
        candidates_are_connected_transports(objects, (n - 1) as nat, c);
        let last = candidate(objects, objects[n - 1]);
        if before.contains(c) {
            let at = choose|at: int| 0 <= at < before.len() && before[at] == c;
            assert(all[at] == c);
        }
        if last == Some(c) {
            assert(all[all.len() - 1] == c);
        }
        if all.contains(c) && last != Some(c) {
            let at = choose|at: int| 0 <= at < all.len() && all[at] == c;
            assert(before[at] == c);
        }
    }
}

/// The connected devices are exactly the objects that are one.
pub proof fn connected_devices_are_objects(objects: Seq<ManagedObject>, d: DeviceModel)
    ensures
        connected_devices(objects).contains(d) <==> exists|k: int|
            0 <= k < objects.len() && connected_device(#[trigger] objects[k]) == Some(d),
    decreases objects.len(),
{
    if objects.len() > 0 {
        let earlier = objects.drop_last();
        let before = connected_devices(earlier);
        let all = connected_devices(objects);
        connected_devices_are_objects(earlier, d);
        let last = connected_device(objects.last());
        if before.contains(d) {
            let at = choose|at: int| 0 <= at < before.len() && before[at] == d;
            assert(all[at] == d);
            let k = choose|k: int|
                0 <= k < earlier.len() && connected_device(#[trigger] earlier[k]) == Some(d);
            assert(objects[k] == earlier[k]);
        }
        if last == Some(d) {
            assert(all[all.len() - 1] == d);
            assert(objects[objects.len() - 1] == objects.last());
        }
        if all.contains(d) && last != Some(d) {
            let at = choose|at: int| 0 <= at < all.len() && all[at] == d;
            assert(before[at] == d);
        }
        if exists|k: int|
            0 <= k < objects.len() && connected_device(#[trigger] objects[k]) == Some(d) {
            let k = choose|k: int|
                0 <= k < objects.len() && connected_device(#[trigger] objects[k]) == Some(d);
            if k < earlier.len() {
                assert(earlier[k] == objects[k]);
            }
        }
    }
}

/// The search for a target finds one whenever there is one, and there is only
/// one that it can find.
pub proof fn first_target_is_determined(
    objects: Seq<ManagedObject>,
    filter: Option<Seq<char>>,
    k: int,
)
    requires
        is_target(objects, filter, k),
    ensures
        exists|i: int| i <= k && #[trigger] is_first_target(objects, filter, i),
        forall|i: int, j: int|
            is_first_target(objects, filter, i) && is_first_target(objects, filter, j) ==> i == j,
    decreases k,
{
    if !is_first_target(objects, filter, k) {
        let earlier = choose|i: int| 0 <= i < k && is_target(objects, filter, i);
        first_target_is_determined(objects, filter, earlier);
    }
}

proof fn lemma_first_listed(objects: Seq<ManagedObject>, i: int, n: nat)
    requires
        0 <= i < n <= objects.len(),
        candidate(objects, objects[i]) is Some,
        forall|k: int| 0 <= k < i ==> candidate(objects, #[trigger] objects[k]) is None,
    ensures
        candidates(objects, n).len() > 0,
        candidates(objects, n)[0] == candidate(objects, objects[i])->0,
    decreases n,
{
    if n == i + 1 {
        lemma_none_listed(objects, i as nat);
    } else {
        lemma_first_listed(objects, i, (n - 1) as nat);
    }
}

proof fn lemma_none_listed(objects: Seq<ManagedObject>, n: nat)
    requires
        n <= objects.len(),
        forall|k: int| 0 <= k < n ==> candidate(objects, #[trigger] objects[k]) is None,
    ensures
        candidates(objects, n).len() == 0,
    decreases n,
{
    if n > 0 {
        lemma_none_listed(objects, (n - 1) as nat);
    }
}

/// A target is one of the candidates; without a filter it is the first of them.
pub proof fn target_is_a_candidate(
    objects: Seq<ManagedObject>,
    filter: Option<Seq<char>>,
    i: int,
)
    requires
        is_first_target(objects, filter, i),
    ensures
        ({
            let list = candidates(objects, objects.len());
            let found = candidate(objects, objects[i])->0;
            &&& list.contains(found)
            &&& filter is None ==> list[0] == found
        }),
{
    let found = candidate(objects, objects[i])->0;
    candidates_are_connected_transports(objects, objects.len(), found);
    if filter is None {
        assert forall|k: int| 0 <= k < i implies candidate(objects, #[trigger] objects[k]) is None by {
            assert(!is_target(objects, filter, k));
        }
        lemma_first_listed(objects, i, objects.len());
    }
}

/// A candidate is a target for every filter that its name, its device's address
/// or its transport path contains, whatever the case, and so for each of them as
/// a whole.
pub proof fn candidate_is_found_by_name_or_address(
    objects: Seq<ManagedObject>,
    i: int,
    filter: Seq<char>,
)
    requires
        0 <= i < objects.len(),
        candidate(objects, objects[i]) is Some,
    ensures
        ({
            let c = candidate(objects, objects[i])->0;
            let address = transport_address(objects, objects[i]);
            &&& is_target(objects, Some(filter), i) <==> {
                ||| crate::letters::has_part_ignoring_case(c.display_name, filter)
                ||| crate::letters::has_part_ignoring_case(address, filter)
                ||| crate::letters::has_part_ignoring_case(c.transport_path, filter)
            }
            &&& is_target(objects, Some(c.display_name), i)
            &&& is_target(objects, Some(address), i)
            &&& is_target(objects, Some(c.transport_path), i)
            &&& is_target(objects, None, i)
        }),
{
    let c = candidate(objects, objects[i])->0;
    own_name_passes(c.display_name, transport_address(objects, objects[i]));
    own_name_passes(c.display_name, c.transport_path);
}

/// The search for a connected device finds one whenever some device passes the
/// filter, and there is only one that it can find. Without a filter it is the
/// first.
pub proof fn first_device_is_determined(
    list: Seq<DeviceModel>,
    filter: Option<Seq<char>>,
    k: int,
)
    requires
        0 <= k < list.len(),
        passes(list[k].name, list[k].address, filter),
    ensures
        exists|i: int| i <= k && #[trigger] is_first_device(list, filter, i),
        forall|i: int, j: int|
            is_first_device(list, filter, i) && is_first_device(list, filter, j) ==> i == j,
        filter is None ==> is_first_device(list, filter, 0),
    decreases k,
{
    if !is_first_device(list, filter, k) {
        let earlier = choose|i: int|
            0 <= i < k && passes((#[trigger] list[i]).name, list[i].address, filter);
        first_device_is_determined(list, filter, earlier);
    }
}

/// A device passes a filter that is its own name or address, and so it does
/// the empty filter.
pub proof fn own_name_passes(name: Seq<char>, address: Seq<char>)
    ensures
        passes(name, address, Some(name)),
        passes(name, address, Some(address)),
        passes(name, address, Some(Seq::empty())),
{
    crate::letters::text_has_its_parts(crate::letters::lowered(name), 0, 0);
    crate::letters::text_has_its_parts(crate::letters::lowered(address), 0, 0);
    assert(crate::letters::lowered(Seq::<char>::empty()) =~= Seq::<char>::empty());
}

/// When no two objects share a path, every object is found at its own path,
/// whatever the order of the objects.
pub proof fn objects_are_found_by_path(list: Seq<ManagedObject>, i: int)
    requires
        0 <= i < list.len(),
        paths_are_distinct(list),
    ensures
        object_at(list, list[i].path@) == Some(list[i].interfaces@),
    decreases list.len(),
{
    if i > 0 {
        assert(list[0].path@ != list[i].path@);
        let rest = list.skip(1);
        assert forall|a: int, b: int| 0 <= a < b < rest.len() implies rest[a].path@
            != rest[b].path@ by {
            assert(rest[a] == list[a + 1] && rest[b] == list[b + 1]);
        }
        objects_are_found_by_path(rest, i - 1);
    }
}

proof fn lemma_fields_of_two(before: Seq<char>, last: Seq<char>)
    requires
        !last.contains(':'),
    ensures
        fields(before + seq![':'] + last) == fields(before).push(last),
    decreases last.len(),
{
    let text = before + seq![':'] + last;
    if last.len() == 0 {
        assert(text.drop_last() =~= before);
        assert(last =~= Seq::<char>::empty());
    } else {
        let shorter = last.drop_last();
        assert forall|i: int| 0 <= i < shorter.len() implies shorter[i] != ':' by {
            assert(shorter[i] == last[i]);
        }
        lemma_fields_of_two(before, shorter);
        assert(text.drop_last() =~= before + seq![':'] + shorter);
        assert(text.last() == last.last());
        assert(last.contains(last.last()));
        assert(fields(before).push(shorter).drop_last() =~= fields(before));
        assert(shorter.push(last.last()) =~= last);
    }
}

proof fn lemma_fields_of_one(text: Seq<char>)
    requires
        !text.contains(':'),
    ensures
        fields(text) == seq![text],
    decreases text.len(),
{
    if text.len() > 0 {
        let shorter = text.drop_last();
        assert forall|i: int| 0 <= i < shorter.len() implies shorter[i] != ':' by {
            assert(shorter[i] == text[i]);
        }
        lemma_fields_of_one(shorter);
        assert(text.contains(text.last()));
        assert(shorter.push(text.last()) =~= text);
        assert(fields(text) =~= seq![text]);
    } else {
        assert(text =~= Seq::<char>::empty());
    }
}

proof fn lemma_fields_of_joined(parts: Seq<Seq<char>>)
    requires
        parts.len() > 0,
        forall|i: int| 0 <= i < parts.len() ==> !(#[trigger] parts[i]).contains(':'),
    ensures
        fields(crate::text::joined(parts, ":"@)) == parts,
    decreases parts.len(),
{
    reveal_strlit(":");
    assert(":"@ =~= seq![':']);
    if parts.len() == 1 {
        lemma_fields_of_one(parts[0]);
        assert(parts =~= seq![parts[0]]);
    } else {
        let earlier = parts.drop_last();
        lemma_fields_of_joined(earlier);
        lemma_fields_of_two(crate::text::joined(earlier, ":"@), parts.last());
        assert(earlier.push(parts.last()) =~= parts);
    }
}

proof fn lemma_upper_digit(d: int)
    requires
        0 <= d < 16,
    ensures
        crate::hex::digit_value(crate::text::upper_digit_char(d)) == Some(d as nat),
{
    reveal_strlit("0123456789ABCDEF");
}

/// An address as the operating system writes it, 6 bytes in hexadecimal with
/// colons between them, is read as these bytes and as nothing else.
pub proof fn address_round_trip(bytes: [u8; 6], r: Result<[u8; 6], String>)
    requires
        is_address_result(r, crate::text::colon_hex(bytes@)),
    ensures
        is_address_result(Ok(bytes), crate::text::colon_hex(bytes@)),
        r matches Ok(read) && read@ == bytes@,
{
    let parts = bytes@.map_values(|b: u8| crate::text::upper_hex_byte(b));
    assert forall|i: int| 0 <= i < 6 implies !(#[trigger] parts[i]).contains(':')
        && crate::hex::number(parts[i], 0xFF) == Ok::<nat, crate::hex::HexError>(
        bytes@[i] as nat,
    ) by {
        let b = bytes@[i];
        let s = crate::text::upper_hex_byte(b);
        lemma_upper_digit(b as int / 16);
        lemma_upper_digit(b as int % 16);
        assert(crate::hex::digit_value('+') is None && crate::hex::digit_value(':') is None);
        assert(s.drop_last().drop_last() =~= Seq::<char>::empty());
        reveal_with_fuel(crate::hex::digits, 3);
    }
    lemma_fields_of_joined(parts);
    match r {
        Ok(read) => {
            assert forall|i: int| 0 <= i < 6 implies read@[i] == bytes@[i] by {
                assert(crate::hex::number(parts[i], 0xFF) == Ok::<nat, crate::hex::HexError>(
                    read@[i] as nat,
                ));
            }
            assert(read@ =~= bytes@);
        },
        Err(_) => {
            assert(forall|i: int| !is_bad_field(parts, i));
        },
    }
}

proof fn lemma_no_object(list: Seq<ManagedObject>, path: Seq<char>)
    requires
        forall|i: int| 0 <= i < list.len() ==> (#[trigger] list[i]).path@ != path,
    ensures
        object_at(list, path) is None,
    decreases list.len(),
{
    if list.len() > 0 {
        let rest = list.skip(1);
        assert forall|i: int| 0 <= i < rest.len() implies (#[trigger] rest[i]).path@ != path by {
            assert(rest[i] == list[i + 1]);
        }
        lemma_no_object(rest, path);
    }
}

/// Whether no two objects share a path.
pub open spec fn paths_are_distinct(list: Seq<ManagedObject>) -> bool {
    forall|a: int, b: int| 0 <= a < b < list.len() ==> list[a].path@ != list[b].path@
}

proof fn lemma_same_object(first: Seq<ManagedObject>, second: Seq<ManagedObject>, path: Seq<char>)
    requires
        paths_are_distinct(first),
        paths_are_distinct(second),
        forall|o: ManagedObject| first.contains(o) <==> second.contains(o),
    ensures
        object_at(first, path) == object_at(second, path),
{
    if exists|i: int| 0 <= i < first.len() && (#[trigger] first[i]).path@ == path {
        let i = choose|i: int| 0 <= i < first.len() && (#[trigger] first[i]).path@ == path;
        assert(first.contains(first[i]));
        let j = choose|j: int| 0 <= j < second.len() && second[j] == first[i];
        objects_are_found_by_path(first, i);
        objects_are_found_by_path(second, j);
    } else {
        lemma_no_object(first, path);
        assert forall|j: int| 0 <= j < second.len() implies (#[trigger] second[j]).path@
            != path by {
            assert(second.contains(second[j]));
            let i = choose|i: int| 0 <= i < first.len() && first[i] == second[j];
            assert(first[i].path@ == second[j].path@);
        }
        lemma_no_object(second, path);
    }
}

/// BlueZ lists its objects in no particular order. The order decides which
/// candidate comes first, but not which candidates and which connected devices
/// there are.
pub proof fn order_of_objects_does_not_matter(
    first: Seq<ManagedObject>,
    second: Seq<ManagedObject>,
    c: CandidateModel,
    d: DeviceModel,
)
    requires
        paths_are_distinct(first),
        paths_are_distinct(second),
        forall|o: ManagedObject| first.contains(o) <==> second.contains(o),
    ensures
        candidates(first, first.len()).contains(c) <==> candidates(second, second.len()).contains(
            c,
        ),
        connected_devices(first).contains(d) <==> connected_devices(second).contains(d),
{
    candidates_are_connected_transports(first, first.len(), c);
    candidates_are_connected_transports(second, second.len(), c);
    connected_devices_are_objects(first, d);
    connected_devices_are_objects(second, d);
    assert forall|o: ManagedObject| candidate(first, o) == candidate(second, o) by {
        lemma_same_device(first, second, o);
    }
    lemma_same_members(first, second, c, d);
    lemma_same_members(second, first, c, d);
}

proof fn lemma_same_device(
    first: Seq<ManagedObject>,
    second: Seq<ManagedObject>,
    object: ManagedObject,
)
    requires
        paths_are_distinct(first),
        paths_are_distinct(second),
        forall|o: ManagedObject| first.contains(o) <==> second.contains(o),
    ensures
        candidate(first, object) == candidate(second, object),
{
    match interface(object.interfaces@, TRANSPORT_IFACE@) {
        None => {},
        Some(transport) => match path_of(property(transport, "Device"@)) {
            None => {},
            Some(device_path) => lemma_same_object(first, second, device_path),
        },
    }
}

proof fn lemma_same_members(
    from: Seq<ManagedObject>,
    to: Seq<ManagedObject>,
    c: CandidateModel,
    d: DeviceModel,
)
    requires
        forall|o: ManagedObject| from.contains(o) <==> to.contains(o),
        forall|o: ManagedObject| candidate(from, o) == candidate(to, o),
    ensures
        (exists|k: int| 0 <= k < from.len() && candidate(from, #[trigger] from[k]) == Some(c))
            ==> (exists|k: int| 0 <= k < to.len() && candidate(to, #[trigger] to[k]) == Some(c)),
        (exists|k: int| 0 <= k < from.len() && connected_device(#[trigger] from[k]) == Some(d))
            ==> (exists|k: int| 0 <= k < to.len() && connected_device(#[trigger] to[k]) == Some(d)),
{
    if exists|k: int| 0 <= k < from.len() && candidate(from, #[trigger] from[k]) == Some(c) {
        let k = choose|k: int|
            0 <= k < from.len() && candidate(from, #[trigger] from[k]) == Some(c);
        assert(from.contains(from[k]));
        let at = choose|at: int| 0 <= at < to.len() && to[at] == from[k];
        assert(candidate(to, to[at]) == Some(c));
    }
    if exists|k: int| 0 <= k < from.len() && connected_device(#[trigger] from[k]) == Some(d) {
        let k = choose|k: int|
            0 <= k < from.len() && connected_device(#[trigger] from[k]) == Some(d);
        assert(from.contains(from[k]));
        let at = choose|at: int| 0 <= at < to.len() && to[at] == from[k];
        assert(connected_device(to[at]) == Some(d));
    }
}

/// When no two properties share a name, the lookup of the name of each of them gives
/// that property's value, wherever it stands and however many there are. A lookup gives nothing
/// exactly when none has the name.
pub proof fn properties_are_found_wherever_they_stand(list: Seq<Property>, i: int, name: Seq<char>)
    ensures
        (forall|a: int, b: int| 0 <= a < b < list.len() ==> list[a].name@ != list[b].name@) && 0 <= i
            < list.len() ==> property(list, list[i].name@) == Some(list[i].value@),
        property(list, name) is None <==> forall|k: int|
            0 <= k < list.len() ==> (#[trigger] list[k]).name@ != name,
    decreases list.len(),
{
    if list.len() > 0 {
        let rest = list.skip(1);
        assert(forall|k: int| 0 <= k < rest.len() ==> rest[k] == list[k + 1]);
        properties_are_found_wherever_they_stand(rest, i - 1, name);
        if property(list, name) is None {
            assert forall|k: int| 0 <= k < list.len() implies (#[trigger] list[k]).name@
                != name by {
                if k > 0 {
                    assert(rest[k - 1] == list[k]);
                }
            }
        }
        if forall|k: int| 0 <= k < list.len() ==> (#[trigger] list[k]).name@ != name {
            assert forall|k: int| 0 <= k < rest.len() implies (#[trigger] rest[k]).name@
                != name by {
                assert(rest[k] == list[k + 1]);
            }
            assert(list[0].name@ != name);
        }
        if (forall|a: int, b: int| 0 <= a < b < list.len() ==> list[a].name@ != list[b].name@) && 0
            < i < list.len() {
            assert forall|a: int, b: int| 0 <= a < b < rest.len() implies rest[a].name@
                != rest[b].name@ by {
                assert(rest[a] == list[a + 1] && rest[b] == list[b + 1]);
            }
            assert(rest[i - 1] == list[i]);
            assert(list[0].name@ != list[i].name@);
        }
    }
}

/// When no two interfaces share a name, the lookup of the name of each of them gives
/// that interface's properties, wherever it stands and however many there are. A lookup gives nothing
/// exactly when none has the name.
pub proof fn interfaces_are_found_wherever_they_stand(list: Seq<Interface>, i: int, name: Seq<char>)
    ensures
        (forall|a: int, b: int| 0 <= a < b < list.len() ==> list[a].name@ != list[b].name@) && 0 <= i
            < list.len() ==> interface(list, list[i].name@) == Some(list[i].properties@),
        interface(list, name) is None <==> forall|k: int|
            0 <= k < list.len() ==> (#[trigger] list[k]).name@ != name,
    decreases list.len(),
{
    if list.len() > 0 {
        let rest = list.skip(1);
        assert(forall|k: int| 0 <= k < rest.len() ==> rest[k] == list[k + 1]);
        interfaces_are_found_wherever_they_stand(rest, i - 1, name);
        if interface(list, name) is None {
            assert forall|k: int| 0 <= k < list.len() implies (#[trigger] list[k]).name@
                != name by {
                if k > 0 {
                    assert(rest[k - 1] == list[k]);
                }
            }
        }
        if forall|k: int| 0 <= k < list.len() ==> (#[trigger] list[k]).name@ != name {
            assert forall|k: int| 0 <= k < rest.len() implies (#[trigger] rest[k]).name@
                != name by {
                assert(rest[k] == list[k + 1]);
            }
            assert(list[0].name@ != name);
        }
        if (forall|a: int, b: int| 0 <= a < b < list.len() ==> list[a].name@ != list[b].name@) && 0
            < i < list.len() {
            assert forall|a: int, b: int| 0 <= a < b < rest.len() implies rest[a].name@
                != rest[b].name@ by {
                assert(rest[a] == list[a + 1] && rest[b] == list[b + 1]);
            }
            assert(rest[i - 1] == list[i]);
            assert(list[0].name@ != list[i].name@);
        }
    }
}

/// When no two objects share a path, the lookup of the path of each of them gives
/// that object's interfaces, wherever it stands and however many there are. A lookup gives nothing
/// exactly when none has the path.
pub proof fn objects_are_found_wherever_they_stand(list: Seq<ManagedObject>, i: int, path: Seq<char>)
    ensures
        (forall|a: int, b: int| 0 <= a < b < list.len() ==> list[a].path@ != list[b].path@) && 0 <= i
            < list.len() ==> object_at(list, list[i].path@) == Some(list[i].interfaces@),
        object_at(list, path) is None <==> forall|k: int|
            0 <= k < list.len() ==> (#[trigger] list[k]).path@ != path,
    decreases list.len(),
{
    if list.len() > 0 {
        let rest = list.skip(1);
        assert(forall|k: int| 0 <= k < rest.len() ==> rest[k] == list[k + 1]);
        objects_are_found_wherever_they_stand(rest, i - 1, path);
        if object_at(list, path) is None {
            assert forall|k: int| 0 <= k < list.len() implies (#[trigger] list[k]).path@
                != path by {
                if k > 0 {
                    assert(rest[k - 1] == list[k]);
                }
            }
        }
        if forall|k: int| 0 <= k < list.len() ==> (#[trigger] list[k]).path@ != path {
            assert forall|k: int| 0 <= k < rest.len() implies (#[trigger] rest[k]).path@
                != path by {
                assert(rest[k] == list[k + 1]);
            }
            assert(list[0].path@ != path);
        }
        if (forall|a: int, b: int| 0 <= a < b < list.len() ==> list[a].path@ != list[b].path@) && 0
            < i < list.len() {
            assert forall|a: int, b: int| 0 <= a < b < rest.len() implies rest[a].path@
                != rest[b].path@ by {
                assert(rest[a] == list[a + 1] && rest[b] == list[b + 1]);
            }
            assert(rest[i - 1] == list[i]);
            assert(list[0].path@ != list[i].path@);
        }
    }
}

/// The bus names of what is looked up.
pub proof fn names_on_the_bus()
    ensures
        BLUEZ_SERVICE@ == "org.bluez"@,
        DEVICE_IFACE@ == "org.bluez.Device1"@,
        TRANSPORT_IFACE@ == "org.bluez.MediaTransport1"@,
        BATTERY_IFACE@ == "org.bluez.Battery1"@,
        MAX_VOLUME == 127,
{
}

/// A device is called by its alias; without one by its name; without either by its
/// path. A property of another kind than text counts as missing. The address is
/// that of the `Address` property, or nothing.
pub proof fn devices_are_called_by_alias_name_or_path(
    path: Seq<char>,
    device: Seq<Property>,
    alias: Seq<char>,
    name: Seq<char>,
    address: Seq<char>,
)
    ensures
        ({
            let has = |key: Seq<char>, s: Seq<char>| property(device, key) == Some(
                ValueModel::Text(s),
            );
            let lacks = |key: Seq<char>|
                !(property(device, key) matches Some(ValueModel::Text(_)));
            &&& has("Alias"@, alias) ==> display_name(path, device) == alias
            &&& lacks("Alias"@) && has("Name"@, name) ==> display_name(path, device) == name
            &&& lacks("Alias"@) && lacks("Name"@) ==> display_name(path, device) == path
            &&& has("Address"@, address) ==> address_text(device) == address
            &&& lacks("Address"@) ==> address_text(device).len() == 0
        }),
{
}

/// A device is connected exactly when its `Connected` property is a flag that is
/// set.
pub proof fn connected_is_a_set_flag(device: Seq<Property>, on: bool)
    ensures
        property(device, "Connected"@) == Some(ValueModel::Flag(on)) ==> is_connected(device) == on,
        !(property(device, "Connected"@) matches Some(ValueModel::Flag(_))) ==> !is_connected(
            device,
        ),
{
}

/// An object is a candidate exactly when it is a media transport that names a
/// device, an object of that path is known, and it is a device that is connected.
/// The candidate has the path of the transport and the name of the device.
pub proof fn candidates_are_transports_of_connected_devices(
    objects: Seq<ManagedObject>,
    object: ManagedObject,
    transport: Seq<Property>,
    device_path: Seq<char>,
    interfaces: Seq<Interface>,
    device: Seq<Property>,
)
    ensures
        ({
            let is_transport = interface(object.interfaces@, "org.bluez.MediaTransport1"@) == Some(
                transport,
            );
            let of_device = property(transport, "Device"@) == Some(ValueModel::Path(device_path));
            let known = object_at(objects, device_path) == Some(interfaces);
            let is_device = interface(interfaces, "org.bluez.Device1"@) == Some(device);
            let on = property(device, "Connected"@) == Some(ValueModel::Flag(true));
            &&& is_transport && of_device && known && is_device && on ==> candidate(objects, object)
                == Some(
                CandidateModel {
                    transport_path: object.path@,
                    display_name: display_name(device_path, device),
                },
            ) && transport_address(objects, object) == address_text(device)
            &&& is_transport && of_device && known && is_device && !on ==> candidate(
                objects,
                object,
            ) is None
            &&& is_transport && of_device && known && interface(interfaces, "org.bluez.Device1"@)
                is None ==> candidate(objects, object) is None
            &&& is_transport && of_device && object_at(objects, device_path) is None ==> candidate(
                objects,
                object,
            ) is None
            &&& is_transport && !(property(transport, "Device"@) matches Some(ValueModel::Path(_)))
                ==> candidate(objects, object) is None
            &&& interface(object.interfaces@, "org.bluez.MediaTransport1"@) is None ==> candidate(
                objects,
                object,
            ) is None
        }),
{
}

/// An object is a connected device exactly when it has the device interface and
/// that says so. It has its own path, its address and its name.
pub proof fn connected_devices_say_so(object: ManagedObject, device: Seq<Property>)
    ensures
        ({
            let is_device = interface(object.interfaces@, "org.bluez.Device1"@) == Some(device);
            let on = property(device, "Connected"@) == Some(ValueModel::Flag(true));
            &&& is_device && on ==> connected_device(object) == Some(
                DeviceModel {
                    path: object.path@,
                    address: address_text(device),
                    name: display_name(object.path@, device),
                },
            )
            &&& is_device && !on ==> connected_device(object) is None
            &&& interface(object.interfaces@, "org.bluez.Device1"@) is None ==> connected_device(
                object,
            ) is None
        }),
{
}

/// The candidates are listed in the order of the objects, each object at most
/// once: the one that the object at `k` is stands after those of the objects
/// before it.
pub proof fn candidates_keep_the_order(objects: Seq<ManagedObject>, k: nat, n: nat)
    requires
        k < n <= objects.len(),
    ensures
        ({
            let before = candidates(objects, k);
            let all = candidates(objects, n);
            &&& candidates(objects, 0).len() == 0
            &&& before.len() <= all.len() <= before.len() + (n - k)
            &&& all.take(before.len() as int) == before
            &&& candidate(objects, objects[k as int]) matches Some(c) ==> before.len() < all.len()
                && all[before.len() as int] == c
            &&& candidate(objects, objects[k as int]) is None ==> candidates(objects, k + 1)
                == before
        }),
    decreases n,
{
    let before = candidates(objects, k);
    let all = candidates(objects, n);
    if n == k + 1 {
        assert(all.take(before.len() as int) =~= before);
    } else {
        candidates_keep_the_order(objects, k, (n - 1) as nat);
        let most = candidates(objects, (n - 1) as nat);
        assert(all.take(before.len() as int) =~= most.take(before.len() as int));
    }
}

/// The connected devices are listed in the order of the objects: those of two
/// lists in a row are those of the first and then those of the second.
pub proof fn connected_devices_keep_the_order(
    first: Seq<ManagedObject>,
    second: Seq<ManagedObject>,
    object: ManagedObject,
)
    ensures
        connected_devices(first + second) == connected_devices(first) + connected_devices(second),
        connected_devices(seq![object]) == match connected_device(object) {
            Some(d) => seq![d],
            None => Seq::empty(),
        },
        connected_devices(Seq::empty()).len() == 0,
    decreases second.len(),
{
    assert(seq![object].drop_last() =~= Seq::<ManagedObject>::empty());
    reveal_with_fuel(connected_devices, 2);
    assert(connected_devices(seq![object]) =~= match connected_device(object) {
        Some(d) => seq![d],
        None => Seq::empty(),
    });
    if second.len() == 0 {
        assert(first + second =~= first);
        assert(connected_devices(first) + connected_devices(second) =~= connected_devices(first));
    } else {
        assert((first + second).drop_last() =~= first + second.drop_last());
        connected_devices_keep_the_order(first, second.drop_last(), object);
        assert(connected_devices(first + second) =~= connected_devices(first) + connected_devices(
            second,
        ));
    }
}

/// A filter lets pass what contains it in either of two texts, whatever the case;
/// without a filter everything passes. Which of the texts it is, and how long
/// they are, makes no difference.
pub proof fn filters_look_at_both_texts(
    first: Seq<char>,
    second: Seq<char>,
    before: Seq<char>,
    part: Seq<char>,
    after: Seq<char>,
    typed: Seq<char>,
)
    ensures
        passes(first, second, None),
        passes(first, second, Some(part)) == passes(second, first, Some(part)),
        crate::letters::is_ascii_text(before + part + after) && crate::letters::same_but_for_case(
            part,
            typed,
        ) ==> passes(before + part + after, second, Some(typed)) && passes(
            first,
            before + part + after,
            Some(typed),
        ),
        passes(first, second, Some(part)) <==> crate::letters::has_part_ignoring_case(first, part)
            || crate::letters::has_part_ignoring_case(second, part),
{
    let all = before + part + after;
    if crate::letters::is_ascii_text(all) && crate::letters::same_but_for_case(part, typed) {
        crate::letters::parts_are_surrounded(all, before, part, after);
        assert(crate::letters::same_but_for_case(all, all));
        crate::letters::case_makes_no_difference(all, all, part, typed);
    }
}

/// The first of a list that passes is found wherever it stands, and what comes
/// before it does not pass.
pub proof fn first_device_stands_anywhere(
    list: Seq<DeviceModel>,
    filter: Option<Seq<char>>,
    i: int,
)
    ensures
        is_first_device(list, filter, i) <==> 0 <= i < list.len() && passes(
            list[i].name,
            list[i].address,
            filter,
        ) && !exists|k: int|
            0 <= k < i && passes((#[trigger] list[k]).name, list[k].address, filter),
{
}

/// The first target is a target before which there is none.
pub proof fn first_target_has_none_before(
    objects: Seq<ManagedObject>,
    filter: Option<Seq<char>>,
    i: int,
)
    ensures
        is_first_target(objects, filter, i) <==> is_target(objects, filter, i) && !exists|k: int|
            0 <= k < i && is_target(objects, filter, k),
{
}

/// The filter is named in a message as it was typed, and not at all if there is
/// none; an address is shown with the part that could not be read.
pub proof fn messages_name_the_filter(f: Seq<char>, address: Seq<char>, part: Seq<char>)
    ensures
        matching_text(Some(f)) == " matching '"@ + f + "'"@,
        matching_text(None).len() == 0,
        bluez_error_text(BluezErrorModel::NoDevice(Some(f)))
            == "No connected Bluetooth device was found"@ + (" matching '"@ + f + "'"@),
        bluez_error_text(BluezErrorModel::NoTransport(Some(f)))
            == "No connected Bluetooth device with an active AVRCP audio transport was found"@ + (
        " matching '"@ + f + "'"@)
            + ". Make sure the headset is connected and actively streaming audio (or has recently been used for playback), then try again."@,
        bluez_error_text((BluezErrorModel::BadAddress { address, part })) == "device address '"@
            + address + "' was not a valid Bluetooth address: invalid Bluetooth address: "@ + part,
{
}

/// The views of what is read off the bus, and of what is found, hold everything.
pub proof fn values_are_viewed_whole(
    s: String,
    on: bool,
    byte: u8,
    word: u16,
    candidate: Candidate,
    device: ConnectedDevice,
    filter: Option<&str>,
    text: &str,
)
    ensures
        PropertyValue::Text(s)@ == ValueModel::Text(s@),
        PropertyValue::Flag(on)@ == ValueModel::Flag(on),
        PropertyValue::Path(s)@ == ValueModel::Path(s@),
        PropertyValue::Byte(byte)@ == ValueModel::Byte(byte),
        PropertyValue::Word(word)@ == ValueModel::Word(word),
        PropertyValue::Other@ == ValueModel::Other,
        candidate@.transport_path == candidate.transport_path@,
        candidate@.display_name == candidate.display_name@,
        device@.path == device.path@,
        device@.address == device.address@,
        device@.name == device.name@,
        filter_text(Some(text)) == Some(text@),
        filter_text(None) is None,
        optional_text(Some(s)) == Some(s@),
        optional_text(None) is None,
        BluezError::NoTransport(Some(s))@ == BluezErrorModel::NoTransport(Some(s@)),
        BluezError::NoTransport(None)@ == BluezErrorModel::NoTransport(None),
        BluezError::NoDevice(Some(s))@ == BluezErrorModel::NoDevice(Some(s@)),
        BluezError::NoDevice(None)@ == BluezErrorModel::NoDevice(None),
        BluezError::BatteryNotAByte@ == BluezErrorModel::BatteryNotAByte,
        BluezError::VolumeNotAWord@ == BluezErrorModel::VolumeNotAWord,
        (BluezError::BadAddress { address: s, part: device.name })@
            == (BluezErrorModel::BadAddress { address: s@, part: device.name@ }),
{
}

/// Lists of candidates and of devices are viewed one by one.
pub proof fn found_lists_are_viewed_whole(
    candidates: Seq<Candidate>,
    devices: Seq<ConnectedDevice>,
    i: int,
)
    ensures
        candidate_models(candidates).len() == candidates.len(),
        0 <= i < candidates.len() ==> candidate_models(candidates)[i] == candidates[i]@,
        device_models(devices).len() == devices.len(),
        0 <= i < devices.len() ==> device_models(devices)[i] == devices[i]@,
{
}

/// An address is read in one way only: it is never both accepted and refused, and
/// it is accepted as the bytes that its 6 parts spell. A part that is not a byte
/// is refused by name, the first of them if there are several; a wrong number of
/// parts is refused with the whole text.
pub proof fn addresses_are_read_in_one_way(
    text: Seq<char>,
    bytes: [u8; 6],
    part: String,
    i: int,
)
    ensures
        is_address_result(Ok(bytes), text) ==> fields(text).len() == 6 && (0 <= i < 6
            ==> crate::hex::number(fields(text)[i], 0xFF) == Ok::<nat, crate::hex::HexError>(
            bytes@[i] as nat,
        )),
        is_address_result(Err(part), text) ==> !is_address_result(Ok(bytes), text),
        is_address_result(Err(part), text) && 0 <= i < fields(text).len() && crate::hex::number(
            fields(text)[i],
            0xFF,
        ) is Err && (forall|k: int| 0 <= k < i ==> !is_bad_field(fields(text), k)) ==> part@
            == fields(text)[i],
        is_address_result(Err(part), text) && (forall|k: int| !is_bad_field(fields(text), k))
            ==> part@ == text && fields(text).len() != 6,
        is_bad_field(fields(text), i) <==> 0 <= i < fields(text).len() && crate::hex::number(
            fields(text)[i],
            0xFF,
        ) is Err,
{
    let parts = fields(text);
    if is_address_result(Err(part), text) && is_address_result(Ok(bytes), text) {
        if exists|k: int| #[trigger] is_bad_field(parts, k) {
            let k = choose|k: int| #[trigger] is_bad_field(parts, k);
            assert(crate::hex::number(parts[k], 0xFF) is Err);
            assert(false);
        }
    }
    if is_address_result(Err(part), text) && 0 <= i < parts.len() && crate::hex::number(
        parts[i],
        0xFF,
    ) is Err && (forall|k: int| 0 <= k < i ==> !is_bad_field(parts, k)) {
        assert(is_bad_field(parts, i));
        let j = choose|j: int| #[trigger]
            is_bad_field(parts, j) && part@ == parts[j] && forall|k: int|
                0 <= k < j ==> !is_bad_field(parts, k);
        assert(j == i);
    }
}

/// A colon ends a part of an address: what follows the last one is the last
/// part, what comes before it is divided alike, and a text without one is a
/// single part.
pub proof fn colons_divide_addresses(before: Seq<char>, last: Seq<char>)
    requires
        !last.contains(':'),
    ensures
        fields(before + seq![':'] + last) == fields(before).push(last),
        fields(last) == seq![last],
{
    lemma_fields_of_two(before, last);
    lemma_fields_of_one(last);
}

} // verus!
