# sennheiser_core

Controls Sennheiser/Sonova Bluetooth headphones: device discovery and AVRCP
volume over BlueZ, battery level, and the GAIA control protocol (ANC,
transparency, EQ, multipoint, crossfeed). The library is written and verified
with Verus; the two frontends around it are ordinary Rust.

## The library, `src/`

| Module        | What it holds                                                        |
| ------------- | -------------------------------------------------------------------- |
| `gaia`        | Packets and frames, the command IDs, hexadecimal input                |
| `transport`   | Reading frames off a byte stream, sending a command, opening a channel |
| `commands`    | The requests of each operation, and decoding what the headset sends   |
| `bluez`       | Finding devices among BlueZ's objects, addresses, volume, battery      |
| `battery_ble` | The battery level over GATT                                           |
| `raw`         | Commands that a user types in                                         |
| `cli`         | What each subcommand sends and prints                                  |
| `panel`       | What the control panel shows                                          |
| `report`      | The texts that both frontends share                                   |
| `text`, `letters`, `hex` | Numbers, lists and characters as text                      |

Contracts speak of models (`ResponseModel`, `RequestModel`, `EventModel`, ...),
which are the views of the executable types. What relates several functions is
stated by public proof functions: that a frame is read back however the stream
is cut into reads (`frames_survive_any_cut`), that a reported preset is
recognised (`reported_gains_are_recognised`), that an address is read back
(`address_round_trip`), and so on.

Three functions from outside the library are called from verified code, each
behind a wrapper whose contract is trusted: `str::to_lowercase`, `uuid::Uuid::from_str`
and `bluer::Address::from_str`.

## The frontends, `app/`

The command line, and a Slint window when the program is started under a name
that ends in `-gui`. They do the I/O: D-Bus, sockets, GATT, timeouts, printing.
The decisions are the library's.
