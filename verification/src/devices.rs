//! Devices: smart sockets and smart thermometers.
//!
//! Each device is modelled by a [`DeviceModel`]: its immutable name together
//! with its simulated state. Every executable operation is specified against
//! that model, so a device's behaviour is pinned down exactly: when a query
//! succeeds, what text it produces, and which error it returns otherwise.

use crate::text::{dec_int, push_i32};
use vstd::prelude::*;
use vstd::string::StringExecFns;

verus! {

/// Why a device operation failed. Each error names the offending device.
#[derive(Clone, Debug, PartialEq, Eq)]
pub enum DeviceError {
    /// The named socket's power was queried while the socket was switched
    /// off.
    DeviceIsTurnedOff { device: String },
    /// The named device has no on/off state to switch.
    SwitchOnOffError { device: String },
}

/// The text of a device error, offending device included.
pub open spec fn device_error_text(e: DeviceError) -> Seq<char> {
    match e {
        DeviceError::DeviceIsTurnedOff { device } => "Device is turned off: '"@ + device@ + "'"@,
        DeviceError::SwitchOnOffError { device } => "Can't switch on/off this device: '"@ + device@
            + "'"@,
    }
}

impl DeviceError {
    /// The name of the device the operation failed on.
    pub fn device(&self) -> (r: &str)
        ensures
            (*self matches DeviceError::DeviceIsTurnedOff { device } ==> r@ == device@),
            (*self matches DeviceError::SwitchOnOffError { device } ==> r@ == device@),
    {
        match self {
            DeviceError::DeviceIsTurnedOff { device } => device.as_str(),
            DeviceError::SwitchOnOffError { device } => device.as_str(),
        }
    }

    /// A human-readable description of the error, offending device included.
    pub fn message(&self) -> (r: String)
        ensures
            r@ == device_error_text(*self),
    {
        let mut s = match self {
            DeviceError::DeviceIsTurnedOff { device } => {
                let mut s = String::from_str("Device is turned off: '");
                s.append(device.as_str());
                s
            },
            DeviceError::SwitchOnOffError { device } => {
                let mut s = String::from_str("Can't switch on/off this device: '");
                s.append(device.as_str());
                s
            },
        };
        s.append("'");
        proof {
            assert(s@ =~= device_error_text(*self));
        }
        s
    }
}

/// The mathematical model of a device: its name and simulated state.
pub ghost enum DeviceModel {
    Socket { name: Seq<char>, on: bool, watts: int },
    Thermometer { name: Seq<char>, degrees: int },
}

impl DeviceModel {
    /// The device's immutable identity.
    pub open spec fn name(self) -> Seq<char> {
        match self {
            DeviceModel::Socket { name, .. } => name,
            DeviceModel::Thermometer { name, .. } => name,
        }
    }

    /// Whether rendering the device's state succeeds: a socket must be
    /// switched on, a thermometer always renders.
    pub open spec fn state_ok(self) -> bool {
        match self {
            DeviceModel::Socket { on, .. } => on,
            DeviceModel::Thermometer { .. } => true,
        }
    }

    /// The rated wattage of a socket (meaningful only for sockets).
    pub open spec fn watts(self) -> int {
        match self {
            DeviceModel::Socket { watts, .. } => watts,
            DeviceModel::Thermometer { .. } => 0,
        }
    }

    /// The simulated reading of a thermometer (meaningful only for
    /// thermometers).
    pub open spec fn degrees(self) -> int {
        match self {
            DeviceModel::Socket { .. } => 0,
            DeviceModel::Thermometer { degrees, .. } => degrees,
        }
    }

    /// Whether the device has an on/off state.
    pub open spec fn switchable(self) -> bool {
        self is Socket
    }

    /// The same socket with its on/off state set to `b`; a thermometer is
    /// left unchanged.
    pub open spec fn with_on(self, b: bool) -> DeviceModel {
        match self {
            DeviceModel::Socket { name, watts, .. } => DeviceModel::Socket {
                name,
                on: b,
                watts,
            },
            t => t,
        }
    }

    /// The device after a switch: a socket's on/off state is flipped, a
    /// thermometer is unchanged.
    pub open spec fn switched(self) -> DeviceModel {
        match self {
            DeviceModel::Socket { name, on, watts } => DeviceModel::Socket {
                name,
                on: !on,
                watts,
            },
            t => t,
        }
    }

    /// The label a successful switch returns: the state the socket was in
    /// before the call.
    pub open spec fn switch_label(self) -> Seq<char> {
        match self {
            DeviceModel::Socket { on, .. } => if on {
                "On"@
            } else {
                "Off"@
            },
            DeviceModel::Thermometer { .. } => Seq::empty(),
        }
    }

    /// The compact one-line state string.
    pub open spec fn summary_text(self) -> Seq<char> {
        match self {
            DeviceModel::Socket { watts, .. } => "power: "@ + dec_int(watts),
            DeviceModel::Thermometer { degrees, .. } => "temperature: "@ + dec_int(degrees),
        }
    }

    /// The two-line printable status block.
    pub open spec fn print_text(self) -> Seq<char> {
        match self {
            DeviceModel::Socket { name, watts, .. } => ">> Socket name is: "@ + name
                + "\n>>>> Socket power is '"@ + dec_int(watts) + "'\n"@,
            DeviceModel::Thermometer { name, degrees } => ">> Thermometer name is: "@ + name
                + "\n>>>> Temperature is: "@ + dec_int(degrees) + "\n"@,
        }
    }
}

/// The common capability surface of every device.
///
/// Each method is specified against the implementor's [`DeviceModel`], so the
/// contracts are exact for every device kind.
pub trait SmartDevice {
    /// The model the implementor's state maps to.
    spec fn model(&self) -> DeviceModel;

    /// Returns the device's immutable name.
    fn name(&self) -> (r: &str)
        ensures
            r@ == self.model().name(),
    ;

    /// Returns the compact one-line state string, or `DeviceIsTurnedOff`
    /// naming this device for an off socket.
    fn return_state(&self) -> (r: Result<String, DeviceError>)
        ensures
            self.model().state_ok() ==> (r matches Ok(s) && s@ == self.model().summary_text()),
            !self.model().state_ok() ==> (r matches Err(e) && e matches
                DeviceError::DeviceIsTurnedOff { device } && device@ == self.model().name()),
    ;

    /// Returns the two-line printable status block, or `DeviceIsTurnedOff`
    /// naming this device for an off socket.
    fn print_state(&self) -> (r: Result<String, DeviceError>)
        ensures
            self.model().state_ok() ==> (r matches Ok(s) && s@ == self.model().print_text()),
            !self.model().state_ok() ==> (r matches Err(e) && e matches
                DeviceError::DeviceIsTurnedOff { device } && device@ == self.model().name()),
    ;

    /// Flips a socket's on/off state and returns the prior-state label;
    /// fails with `SwitchOnOffError` naming this device when it has no
    /// on/off state, leaving it unchanged.
    fn switch_device(&mut self) -> (r: Result<String, DeviceError>)
        ensures
            old(self).model().switchable() ==> {
                &&& final(self).model() == old(self).model().switched()
                &&& r matches Ok(s) && s@ == old(self).model().switch_label()
            },
            !old(self).model().switchable() ==> {
                &&& final(self).model() == old(self).model()
                &&& r matches Err(e) && e matches DeviceError::SwitchOnOffError { device }
                    && device@ == old(self).model().name()
            },
    ;
}

/// A simulated wall socket with a fixed rated wattage and an on/off state.
#[derive(Debug)]
pub struct SmartSocket {
    name: String,
    is_switched_on: bool,
    power: i32,
}

impl View for SmartSocket {
    type V = DeviceModel;

    closed spec fn view(&self) -> DeviceModel {
        DeviceModel::Socket { name: self.name@, on: self.is_switched_on, watts: self.power as int }
    }
}

impl SmartSocket {
    /// Creates a socket that is switched off and rated at 220 watts. A
    /// device's name is its identity and must not be empty.
    pub fn new(name: String) -> (r: Self)
        requires
            name@.len() > 0,
        ensures
            r@ == (DeviceModel::Socket { name: name@, on: false, watts: 220int }),
    {
        SmartSocket { name, is_switched_on: false, power: 220 }
    }

    /// Switches the socket on.
    pub fn switch_on(&mut self)
        ensures
            final(self)@ == old(self)@.with_on(true),
    {
        self.is_switched_on = true;
    }

    /// Switches the socket off.
    pub fn switch_off(&mut self)
        ensures
            final(self)@ == old(self)@.with_on(false),
    {
        self.is_switched_on = false;
    }

    /// Returns the rated wattage while the socket is on, and
    /// `DeviceIsTurnedOff` naming this socket while it is off: "off" is a
    /// defined error, never a zero reading.
    pub fn power(&self) -> (r: Result<i32, DeviceError>)
        ensures
            self@.state_ok() ==> (r matches Ok(p) && p as int == self@.watts()),
            !self@.state_ok() ==> (r matches Err(e) && e matches
                DeviceError::DeviceIsTurnedOff { device } && device@ == self@.name()),
    {
        if self.is_switched_on {
            Ok(self.power)
        } else {
            Err(DeviceError::DeviceIsTurnedOff { device: self.name.clone() })
        }
    }
}

impl SmartDevice for SmartSocket {
    open spec fn model(&self) -> DeviceModel {
        self@
    }

    fn name(&self) -> (r: &str) {
        self.name.as_str()
    }

    fn return_state(&self) -> (r: Result<String, DeviceError>) {
        match self.power() {
            Ok(p) => {
                proof {
                    reveal_strlit("power: ");
                }
                let mut s = String::from_str("power: ");
                push_i32(&mut s, p);
                proof {
                    assert(s@ =~= self@.summary_text());
                }
                Ok(s)
            },
            Err(e) => Err(e),
        }
    }

    fn print_state(&self) -> (r: Result<String, DeviceError>) {
        match self.power() {
            Ok(p) => {
                proof {
                    reveal_strlit(">> Socket name is: ");
                    reveal_strlit("\n>>>> Socket power is '");
                    reveal_strlit("'\n");
                }
                let mut s = String::from_str(">> Socket name is: ");
                s.append(self.name.as_str());
                s.append("\n>>>> Socket power is '");
                push_i32(&mut s, p);
                s.append("'\n");
                proof {
                    assert(s@ =~= self@.print_text());
                }
                Ok(s)
            },
            Err(e) => Err(e),
        }
    }

    fn switch_device(&mut self) -> (r: Result<String, DeviceError>) {
        let label = if self.is_switched_on {
            self.switch_off();
            "On"
        } else {
            self.switch_on();
            "Off"
        };
        Ok(String::from_str(label))
    }
}

/// A simulated thermometer with a fixed reading and no on/off state.
#[derive(Debug)]
pub struct SmartThermometer {
    name: String,
    temperature: i32,
}

impl View for SmartThermometer {
    type V = DeviceModel;

    closed spec fn view(&self) -> DeviceModel {
        DeviceModel::Thermometer { name: self.name@, degrees: self.temperature as int }
    }
}

impl SmartThermometer {
    /// Creates a thermometer whose simulated reading is 25 degrees.
    pub fn new(name: String) -> (r: Self)
        requires
            name@.len() > 0,
        ensures
            r@ == (DeviceModel::Thermometer { name: name@, degrees: 25int }),
    {
        SmartThermometer { name, temperature: 25 }
    }

    /// Returns the simulated reading; a thermometer query never fails.
    pub fn get_temperature(&self) -> (r: i32)
        ensures
            r as int == self@.degrees(),
    {
        self.temperature
    }
}

impl SmartDevice for SmartThermometer {
    open spec fn model(&self) -> DeviceModel {
        self@
    }

    fn name(&self) -> (r: &str) {
        self.name.as_str()
    }

    fn return_state(&self) -> (r: Result<String, DeviceError>) {
        proof {
            reveal_strlit("temperature: ");
        }
        let mut s = String::from_str("temperature: ");
        push_i32(&mut s, self.temperature);
        proof {
            assert(s@ =~= self@.summary_text());
        }
        Ok(s)
    }

    fn print_state(&self) -> (r: Result<String, DeviceError>) {
        proof {
            reveal_strlit(">> Thermometer name is: ");
            reveal_strlit("\n>>>> Temperature is: ");
            reveal_strlit("\n");
        }
        let mut s = String::from_str(">> Thermometer name is: ");
        s.append(self.name.as_str());
        s.append("\n>>>> Temperature is: ");
        push_i32(&mut s, self.temperature);
        s.append("\n");
        proof {
            assert(s@ =~= self@.print_text());
        }
        Ok(s)
    }

    fn switch_device(&mut self) -> (r: Result<String, DeviceError>) {
        Err(DeviceError::SwitchOnOffError { device: self.name.clone() })
    }
}

/// A device of either kind, as a room stores it.
#[derive(Debug)]
pub enum Device {
    Socket(SmartSocket),
    Thermometer(SmartThermometer),
}

impl View for Device {
    type V = DeviceModel;

    /// Open on purpose: `Device::Socket(s)@ == s@` and
    /// `Device::Thermometer(t)@ == t@` are visible to every caller, so a
    /// user of the library can reason about the concrete devices it inserts.
    open spec fn view(&self) -> DeviceModel {
        match self {
            Device::Socket(s) => s@,
            Device::Thermometer(t) => t@,
        }
    }
}

impl SmartDevice for Device {
    open spec fn model(&self) -> DeviceModel {
        self@
    }

    fn name(&self) -> (r: &str) {
        match self {
            Device::Socket(s) => s.name(),
            Device::Thermometer(t) => t.name(),
        }
    }

    fn return_state(&self) -> (r: Result<String, DeviceError>) {
        match self {
            Device::Socket(s) => s.return_state(),
            Device::Thermometer(t) => t.return_state(),
        }
    }

    fn print_state(&self) -> (r: Result<String, DeviceError>) {
        match self {
            Device::Socket(s) => s.print_state(),
            Device::Thermometer(t) => t.print_state(),
        }
    }

    fn switch_device(&mut self) -> (r: Result<String, DeviceError>) {
        match self {
            Device::Socket(s) => s.switch_device(),
            Device::Thermometer(t) => t.switch_device(),
        }
    }
}

} // verus!
