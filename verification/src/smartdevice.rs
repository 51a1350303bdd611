//! The devices that a house stores: each owns an immutable name and a
//! numeric state, and renders a one-line description of itself.

use vstd::prelude::*;
use vstd::string::StringExecFns;

use crate::text::int_text;
use crate::text::i64_text;

verus! {

/// The capability set of a device: read and write the numeric state, read
/// the name, render the description line.
///
/// Reading operations take `&self` and each returns a value determined by
/// the device alone, so repeated calls without an intervening write return
/// identical values.
pub trait SmartDevice: Sized {
    /// The immutable identifying name.
    spec fn spec_name(&self) -> Seq<char>;

    /// The current numeric state.
    spec fn spec_current(&self) -> i64;

    /// This device with its numeric state replaced by `c`.
    spec fn with_current(&self, c: i64) -> Self;

    /// The description line that `describe` renders.
    spec fn spec_describe(&self) -> Seq<char>;

    /// Law: writing the state then reading it back yields exactly the
    /// written value, and the name is untouched by the write.
    proof fn lemma_current_round_trip(&self, c: i64)
        ensures
            self.with_current(c).spec_current() == c,
            self.with_current(c).spec_name() == self.spec_name(),
    ;

    fn get_current(&self) -> (r: i64)
        ensures
            r == self.spec_current(),
    ;

    fn set_current(&mut self, current: i64)
        ensures
            *final(self) == old(self).with_current(current),
    ;

    fn get_name(&self) -> (r: &str)
        ensures
            r@ == self.spec_name(),
    ;

    fn describe(&self) -> (r: String)
        ensures
            r@ == self.spec_describe(),
    ;
}

/// A socket: a name and a numeric state.
#[derive(Debug)]
pub struct SmartSocket {
    name: String,
    current: i64,
}

impl SmartSocket {
    /// A socket with the given name and a zero state.
    pub fn new(name: &str) -> (r: SmartSocket)
        ensures
            r.spec_name() == name@,
            r.spec_current() == 0,
    {
        SmartSocket { name: name.to_owned(), current: 0 }
    }

    /// Law: a socket's description line is its name and its state in the
    /// fixed form `SmartSocket <name> current: <current>`.
    pub proof fn lemma_describe(&self)
        ensures
            self.spec_describe() == "SmartSocket "@ + self.spec_name() + " current: "@
                + int_text(self.spec_current() as int),
    {
    }
}

impl SmartDevice for SmartSocket {
    closed spec fn spec_name(&self) -> Seq<char> {
        self.name@
    }

    closed spec fn spec_current(&self) -> i64 {
        self.current
    }

    closed spec fn with_current(&self, c: i64) -> SmartSocket {
        SmartSocket { name: self.name, current: c }
    }

    closed spec fn spec_describe(&self) -> Seq<char> {
        "SmartSocket "@ + self.name@ + " current: "@ + int_text(self.current as int)
    }

    proof fn lemma_current_round_trip(&self, c: i64) {
    }

    fn get_current(&self) -> i64 {
        self.current
    }

    fn set_current(&mut self, current: i64) {
        self.current = current;
    }

    fn get_name(&self) -> &str {
        self.name.as_str()
    }

    fn describe(&self) -> (r: String) {
        let mut s = String::new();
        s.append("SmartSocket ");
        s.append(self.name.as_str());
        s.append(" current: ");
        let t = i64_text(self.current);
        s.append(t.as_str());
        proof {
            assert(s@ =~= self.spec_describe());
        }
        s
    }
}

/// A thermometer: a name, a numeric state, and a measured temperature.
#[derive(Debug)]
pub struct SmartThermometer {
    name: String,
    current: i64,
    temperature: i64,
}

impl SmartThermometer {
    /// A thermometer with the given name and zero state and temperature.
    pub fn new(name: &str) -> (r: SmartThermometer)
        ensures
            r.spec_name() == name@,
            r.spec_current() == 0,
            r.spec_temperature() == 0,
    {
        SmartThermometer { name: name.to_owned(), current: 0, temperature: 0 }
    }

    /// The measured temperature.
    pub closed spec fn spec_temperature(&self) -> i64 {
        self.temperature
    }

    pub fn get_temperature(&self) -> (r: i64)
        ensures
            r == self.spec_temperature(),
    {
        self.temperature
    }

    pub fn set_temperature(&mut self, temperature: i64)
        ensures
            final(self).spec_temperature() == temperature,
            final(self).spec_name() == old(self).spec_name(),
            final(self).spec_current() == old(self).spec_current(),
    {
        self.temperature = temperature;
    }

    /// Law: a thermometer's description line is its name and both numeric
    /// fields in the fixed form
    /// `SmartThermometer <name> current: <current> temperature: <temperature>`.
    pub proof fn lemma_describe(&self)
        ensures
            self.spec_describe() == "SmartThermometer "@ + self.spec_name() + " current: "@
                + int_text(self.spec_current() as int) + " temperature: "@
                + int_text(self.spec_temperature() as int),
    {
    }
}

impl SmartDevice for SmartThermometer {
    closed spec fn spec_name(&self) -> Seq<char> {
        self.name@
    }

    closed spec fn spec_current(&self) -> i64 {
        self.current
    }

    closed spec fn with_current(&self, c: i64) -> SmartThermometer {
        SmartThermometer { name: self.name, current: c, temperature: self.temperature }
    }

    closed spec fn spec_describe(&self) -> Seq<char> {
        "SmartThermometer "@ + self.name@ + " current: "@ + int_text(self.current as int)
            + " temperature: "@ + int_text(self.temperature as int)
    }

    proof fn lemma_current_round_trip(&self, c: i64) {
    }

    fn get_current(&self) -> i64 {
        self.current
    }

    fn set_current(&mut self, current: i64) {
        self.current = current;
    }

    fn get_name(&self) -> &str {
        self.name.as_str()
    }

    fn describe(&self) -> (r: String) {
        let mut s = String::new();
        s.append("SmartThermometer ");
        s.append(self.name.as_str());
        s.append(" current: ");
        let t = i64_text(self.current);
        s.append(t.as_str());
        s.append(" temperature: ");
        let u = i64_text(self.temperature);
        s.append(u.as_str());
        proof {
            assert(s@ =~= self.spec_describe());
        }
        s
    }
}

/// A device of any of the supported kinds, as the house stores it.
#[derive(Debug)]
pub enum DynamicSmartDevice {
    Socket(SmartSocket),
    Thermometer(SmartThermometer),
}

impl SmartDevice for DynamicSmartDevice {
    open spec fn spec_name(&self) -> Seq<char> {
        match self {
            DynamicSmartDevice::Socket(d) => d.spec_name(),
            DynamicSmartDevice::Thermometer(d) => d.spec_name(),
        }
    }

    open spec fn spec_current(&self) -> i64 {
        match self {
            DynamicSmartDevice::Socket(d) => d.spec_current(),
            DynamicSmartDevice::Thermometer(d) => d.spec_current(),
        }
    }

    open spec fn with_current(&self, c: i64) -> DynamicSmartDevice {
        match self {
            DynamicSmartDevice::Socket(d) => DynamicSmartDevice::Socket(d.with_current(c)),
            DynamicSmartDevice::Thermometer(d) => DynamicSmartDevice::Thermometer(
                d.with_current(c),
            ),
        }
    }

    open spec fn spec_describe(&self) -> Seq<char> {
        match self {
            DynamicSmartDevice::Socket(d) => d.spec_describe(),
            DynamicSmartDevice::Thermometer(d) => d.spec_describe(),
        }
    }

    proof fn lemma_current_round_trip(&self, c: i64) {
    }

    fn get_current(&self) -> i64 {
        match self {
            DynamicSmartDevice::Socket(d) => d.get_current(),
            DynamicSmartDevice::Thermometer(d) => d.get_current(),
        }
    }

    fn set_current(&mut self, current: i64) {
        match self {
            DynamicSmartDevice::Socket(d) => d.set_current(current),
            DynamicSmartDevice::Thermometer(d) => d.set_current(current),
        }
    }

    fn get_name(&self) -> &str {
        match self {
            DynamicSmartDevice::Socket(d) => d.get_name(),
            DynamicSmartDevice::Thermometer(d) => d.get_name(),
        }
    }

    fn describe(&self) -> (r: String) {
        match self {
            DynamicSmartDevice::Socket(d) => d.describe(),
            DynamicSmartDevice::Thermometer(d) => d.describe(),
        }
    }
}

} // verus!
