//! Battery level over the standard Bluetooth GATT Battery Service (`0x180F`)
//! and its Battery Level characteristic (`0x2A19`), without BlueZ.
//!
//! BlueZ's own `org.bluez.Battery1.Percentage` is a read of the same
//! characteristic, so both give the same value.

use vstd::prelude::*;
use crate::bluez::{lets_pass, push_matching};
use crate::text::push_colon_hex;

verus! {

/// How long to wait for a BLE connection, in seconds.
pub const CONNECT_TIMEOUT_SECS: u64 = 20;

/// The UUID of the Battery Level characteristic.
pub const BATTERY_LEVEL_CHARACTERISTIC_UUID: u128 = 0x0000_2a19_0000_1000_8000_00805f9b34fb;

/// What to call a peripheral: its local name, else its address.
pub open spec fn peripheral_text(local_name: Option<Seq<char>>, address: Seq<u8>) -> Seq<char> {
    match local_name {
        Some(name) => name,
        None => crate::text::colon_hex(address),
    }
}

/// What to call a peripheral.
pub fn peripheral_name(local_name: Option<String>, address: [u8; 6]) -> (r: String)
    ensures
        r@ == peripheral_text(crate::bluez::optional_text(local_name), address@),
{
    match local_name {
        Some(name) => name,
        None => {
            let mut out: String = String::new();
            push_colon_hex(&mut out, &address);
            assert(out@ =~= crate::text::colon_hex(address@));
            out
        },
    }
}

/// Whether the name or the address of a peripheral contains the filter, whatever
/// the case.
pub open spec fn peripheral_passes(
    local_name: Option<Seq<char>>,
    address: Seq<u8>,
    filter: Option<Seq<char>>,
) -> bool {
    crate::bluez::passes(
        peripheral_text(local_name, address),
        crate::text::colon_hex(address),
        filter,
    )
}

/// Decides on one peripheral: it is taken, under its name, if its name or its
/// address contains the filter.
pub fn take_peripheral(local_name: Option<String>, address: [u8; 6], filter: Option<&str>) -> (r:
    Option<String>)
    ensures
        ({
            let name = crate::bluez::optional_text(local_name);
            if peripheral_passes(name, address@, crate::bluez::filter_text(filter)) {
                r matches Some(x) && x@ == peripheral_text(name, address@)
            } else {
                r is None
            }
        }),
{
    let name: String = peripheral_name(local_name, address);
    let address_text: String = peripheral_name(None, address);
    if lets_pass(name.as_str(), address_text.as_str(), filter) {
        Some(name)
    } else {
        None
    }
}

/// Why no battery level was read.
#[derive(Debug, Clone)]
pub enum BatteryError {
    /// This machine has no Bluetooth adapter.
    NoAdapter,
    /// No known peripheral passes the filter.
    NoDevice(Option<String>),
    /// The device has no Battery Level characteristic.
    NoCharacteristic,
    /// The characteristic holds no byte.
    EmptyResponse,
}

/// What a [`BatteryError`] holds.
#[verifier::ext_equal]
pub enum BatteryErrorModel {
    NoAdapter,
    NoDevice(Option<Seq<char>>),
    NoCharacteristic,
    EmptyResponse,
}

impl View for BatteryError {
    type V = BatteryErrorModel;

    open spec fn view(&self) -> BatteryErrorModel {
        match self {
            BatteryError::NoAdapter => BatteryErrorModel::NoAdapter,
            BatteryError::NoDevice(filter) => BatteryErrorModel::NoDevice(
                crate::bluez::optional_text(*filter),
            ),
            BatteryError::NoCharacteristic => BatteryErrorModel::NoCharacteristic,
            BatteryError::EmptyResponse => BatteryErrorModel::EmptyResponse,
        }
    }
}

/// The text shown for a [`BatteryError`].
pub open spec fn battery_error_text(e: BatteryErrorModel) -> Seq<char> {
    match e {
        BatteryErrorModel::NoAdapter => "no Bluetooth adapter available"@,
        BatteryErrorModel::NoDevice(filter) => "no known BLE device found"@
            + crate::bluez::matching_text(filter),
        BatteryErrorModel::NoCharacteristic =>
            "device does not expose the standard Battery Level (0x2A19) characteristic"@,
        BatteryErrorModel::EmptyResponse => "empty Battery Level response"@,
    }
}

impl BatteryError {
    /// The text shown for this error.
    pub fn message(&self) -> (r: String)
        ensures
            r@ == battery_error_text(self@),
    {
        match self {
            BatteryError::NoAdapter => "no Bluetooth adapter available".to_owned(),
            BatteryError::NoDevice(filter) => {
                let mut out: String = "no known BLE device found".to_owned();
                match filter {
                    Some(f) => push_matching(&mut out, Some(f.as_str())),
                    None => push_matching(&mut out, None),
                }
                out
            },
            BatteryError::NoCharacteristic =>
                "device does not expose the standard Battery Level (0x2A19) characteristic".to_owned(),
            BatteryError::EmptyResponse => "empty Battery Level response".to_owned(),
        }
    }
}

/// The search for the peripheral to read while the known ones are walked in
/// order. It holds the place and the name of the first match.
pub struct PeripheralSearch {
    filter: Option<String>,
    found: Option<(usize, String)>,
}

/// What a [`PeripheralSearch`] holds.
#[verifier::ext_equal]
pub struct SearchModel {
    pub filter: Option<Seq<char>>,
    pub found: Option<(int, Seq<char>)>,
}

impl View for PeripheralSearch {
    type V = SearchModel;

    closed spec fn view(&self) -> SearchModel {
        SearchModel {
            filter: crate::bluez::optional_text(self.filter),
            found: match self.found {
                Some((index, name)) => Some((index as int, name@)),
                None => None,
            },
        }
    }
}

/// A search after one more peripheral: the first match stays.
pub open spec fn after_peripheral(
    search: SearchModel,
    index: int,
    local_name: Option<Seq<char>>,
    address: Seq<u8>,
) -> SearchModel {
    if search.found is None && peripheral_passes(local_name, address, search.filter) {
        SearchModel { found: Some((index, peripheral_text(local_name, address))), ..search }
    } else {
        search
    }
}

impl PeripheralSearch {
    /// A search for a peripheral whose name or address contains the filter.
    pub fn new(filter: Option<&str>) -> (r: PeripheralSearch)
        ensures
            r@ == (SearchModel { filter: crate::bluez::filter_text(filter), found: None }),
    {
        let filter: Option<String> = match filter {
            Some(f) => Some(f.to_owned()),
            None => None,
        };
        PeripheralSearch { filter, found: None }
    }

    /// Takes in one peripheral, and tells whether the search is over.
    pub fn visit(&mut self, index: usize, local_name: Option<String>, address: [u8; 6]) -> (r: bool)
        ensures
            final(self)@ == after_peripheral(
                old(self)@,
                index as int,
                crate::bluez::optional_text(local_name),
                address@,
            ),
            r == (final(self)@.found is Some),
    {
        if self.found.is_some() {
            return true;
        }
        let taken: Option<String> = match &self.filter {
            Some(f) => take_peripheral(local_name, address, Some(f.as_str())),
            None => take_peripheral(local_name, address, None),
        };
        match taken {
            Some(name) => {
                self.found = Some((index, name));
                true
            },
            None => false,
        }
    }

    /// The outcome of the search: the place and the name of the peripheral to
    /// read.
    pub fn result(self) -> (r: Result<(usize, String), BatteryError>)
        ensures
            match self@.found {
                Some((index, name)) => r matches Ok((i, n)) && i == index && n@ == name,
                None => r matches Err(e) && e@ == BatteryErrorModel::NoDevice(self@.filter),
            },
    {
        match self.found {
            Some(found) => Ok(found),
            None => Err(BatteryError::NoDevice(self.filter)),
        }
    }
}

/// A search after a walk over some peripherals, each given by its local name and
/// its address.
pub open spec fn after_peripherals(
    search: SearchModel,
    peripherals: Seq<(Option<Seq<char>>, Seq<u8>)>,
) -> SearchModel
    decreases peripherals.len(),
{
    if peripherals.len() == 0 {
        search
    } else {
        after_peripheral(
            after_peripherals(search, peripherals.drop_last()),
            peripherals.len() - 1,
            peripherals.last().0,
            peripherals.last().1,
        )
    }
}

/// Whether the peripheral at `i` is the first whose name or address contains the
/// filter.
pub open spec fn is_first_peripheral(
    peripherals: Seq<(Option<Seq<char>>, Seq<u8>)>,
    filter: Option<Seq<char>>,
    i: int,
) -> bool {
    &&& 0 <= i < peripherals.len()
    &&& peripheral_passes(peripherals[i].0, peripherals[i].1, filter)
    &&& forall|k: int|
        0 <= k < i ==> !peripheral_passes((#[trigger] peripherals[k]).0, peripherals[k].1, filter)
}

/// The search ends with the first peripheral whose name or address contains the
/// filter, under its name, and with nothing exactly when there is none.
pub proof fn search_finds_the_first_peripheral(
    search: SearchModel,
    peripherals: Seq<(Option<Seq<char>>, Seq<u8>)>,
)
    requires
        search.found is None,
    ensures
        ({
            let r = after_peripherals(search, peripherals);
            &&& r.filter == search.filter
            &&& match r.found {
                Some((i, name)) => is_first_peripheral(peripherals, search.filter, i) && name
                    == peripheral_text(peripherals[i].0, peripherals[i].1),
                None => forall|k: int|
                    0 <= k < peripherals.len() ==> !peripheral_passes(
                        (#[trigger] peripherals[k]).0,
                        peripherals[k].1,
                        search.filter,
                    ),
            }
        }),
    decreases peripherals.len(),
{
    if peripherals.len() > 0 {
        let earlier = peripherals.drop_last();
        search_finds_the_first_peripheral(search, earlier);
        assert(forall|k: int| 0 <= k < earlier.len() ==> earlier[k] == peripherals[k]);
        assert(peripherals[peripherals.len() - 1] == peripherals.last());
    }
}

/// Once a peripheral has been found, the ones after it make no difference, so
/// the walk can stop there.
pub proof fn search_may_stop_when_found(
    search: SearchModel,
    peripherals: Seq<(Option<Seq<char>>, Seq<u8>)>,
    n: int,
)
    requires
        0 <= n <= peripherals.len(),
        after_peripherals(search, peripherals.take(n)).found is Some,
    ensures
        after_peripherals(search, peripherals) == after_peripherals(search, peripherals.take(n)),
    decreases peripherals.len(),
{
    if n == peripherals.len() {
        assert(peripherals.take(n) =~= peripherals);
    } else {
        let earlier = peripherals.drop_last();
        assert(earlier.take(n) =~= peripherals.take(n));
        search_may_stop_when_found(search, earlier, n);
    }
}

/// Finds the Battery Level characteristic among the UUIDs of all
/// characteristics: the first of that UUID.
pub fn find_battery_characteristic(uuids: &Vec<u128>) -> (r: Result<usize, BatteryError>)
    ensures
        match r {
            Ok(i) => {
                &&& i < uuids@.len()
                &&& uuids@[i as int] == BATTERY_LEVEL_CHARACTERISTIC_UUID
                &&& forall|k: int| 0 <= k < i ==> uuids@[k] != BATTERY_LEVEL_CHARACTERISTIC_UUID
            },
            Err(e) => e@ == BatteryErrorModel::NoCharacteristic && !uuids@.contains(
                BATTERY_LEVEL_CHARACTERISTIC_UUID,
            ),
        },
{
    let mut i: usize = 0;
    while i < uuids.len()
        invariant
            i <= uuids@.len(),
            forall|k: int| 0 <= k < i ==> uuids@[k] != BATTERY_LEVEL_CHARACTERISTIC_UUID,
        decreases uuids@.len() - i,
    {
        if uuids[i] == BATTERY_LEVEL_CHARACTERISTIC_UUID {
            return Ok(i);
        }
        i += 1;
    }
    Err(BatteryError::NoCharacteristic)
}

/// What is read of a device: its name and, as the battery level, the first
/// byte that the characteristic holds.
pub fn read_battery_percentage(name: String, data: &[u8]) -> (r: Result<
    (String, u8),
    BatteryError,
>)
    ensures
        if data@.len() > 0 {
            r matches Ok((shown, percent)) && shown@ == name@ && percent == data@[0]
        } else {
            r matches Err(e) && e@ == BatteryErrorModel::EmptyResponse
        },
{
    if data.len() > 0 {
        Ok((name, data[0]))
    } else {
        Err(BatteryError::EmptyResponse)
    }
}

/// A peripheral is called by its local name, or else by its address, which is its
/// bytes in hexadecimal with colons between them. It passes a filter that either
/// contains, whatever the case, and without a filter it always does.
pub proof fn peripherals_pass_by_name_or_address(
    name: Seq<char>,
    address: Seq<u8>,
    filter: Seq<char>,
    local_name: Option<Seq<char>>,
)
    ensures
        peripheral_text(Some(name), address) == name,
        peripheral_text(None, address) == crate::text::colon_hex(address),
        peripheral_passes(local_name, address, None),
        peripheral_passes(Some(name), address, Some(filter)) <==> (
        crate::letters::has_part_ignoring_case(name, filter)
            || crate::letters::has_part_ignoring_case(crate::text::colon_hex(address), filter)),
        peripheral_passes(None, address, Some(filter)) <==> crate::letters::has_part_ignoring_case(
            crate::text::colon_hex(address),
            filter,
        ),
{
}

/// One look at a peripheral during the search: the first that passes is kept with
/// its place and name, and nothing after it changes that.
pub proof fn first_match_stays(
    search: SearchModel,
    index: int,
    local_name: Option<Seq<char>>,
    address: Seq<u8>,
)
    ensures
        ({
            let after = after_peripheral(search, index, local_name, address);
            &&& after.filter == search.filter
            &&& search.found is Some ==> after.found == search.found
            &&& search.found is None && peripheral_passes(local_name, address, search.filter)
                ==> after.found == Some((index, peripheral_text(local_name, address)))
            &&& search.found is None && !peripheral_passes(local_name, address, search.filter)
                ==> after.found is None
        }),
{
}

/// The characteristic that is looked for is the standard one of its 16-bit number
/// 0x2A19 in the Bluetooth base, and how long a connection may take.
pub proof fn battery_constants()
    ensures
        BATTERY_LEVEL_CHARACTERISTIC_UUID == 0x2a19 * 0x1_0000_0000_0000_0000_0000_0000int
            + 0x0000_1000_8000_00805f9b34fb,
        CONNECT_TIMEOUT_SECS == 20,
{
}

/// The filter is named in the message as it was typed; the views hold everything.
pub proof fn battery_errors_name_the_filter(f: String)
    ensures
        battery_error_text(BatteryErrorModel::NoDevice(Some(f@))) == "no known BLE device found"@ + (
        " matching '"@ + f@ + "'"@),
        BatteryError::NoDevice(Some(f))@ == BatteryErrorModel::NoDevice(Some(f@)),
        BatteryError::NoDevice(None)@ == BatteryErrorModel::NoDevice(None),
        BatteryError::NoAdapter@ == BatteryErrorModel::NoAdapter,
        BatteryError::NoCharacteristic@ == BatteryErrorModel::NoCharacteristic,
        BatteryError::EmptyResponse@ == BatteryErrorModel::EmptyResponse,
{
}

} // verus!
