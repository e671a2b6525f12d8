//! The process-wide serial-port configuration record and the conversions
//! from its plain fields to the driver-level settings.
//!
//! A configuration is stored as plain values (`i8` counts and setting
//! names as strings); the typed settings (`DataBits`, `StopBits`,
//! `Parity`, `FlowControl`) are what an open request carries once the
//! plain values have been converted and checked.

use vstd::prelude::*;

verus! {

/// Number of data bits per character frame.
#[derive(Clone, Copy, Debug, PartialEq, Eq, Structural)]
pub enum DataBits {
    Five,
    Six,
    Seven,
    Eight,
}

/// Number of stop bits per character frame.
#[derive(Clone, Copy, Debug, PartialEq, Eq, Structural)]
pub enum StopBits {
    One,
    Two,
}

/// Parity checking mode.
#[derive(Clone, Copy, Debug, PartialEq, Eq, Structural)]
pub enum Parity {
    NoParity,
    Odd,
    Even,
}

/// Flow control mode.
#[derive(Clone, Copy, Debug, PartialEq, Eq, Structural)]
pub enum FlowControl {
    NoFlowControl,
    Software,
    Hardware,
}

/// The global configuration consulted when a port is opened.
///
/// The fields are deliberately plain: the counts as `i8` and the modes as
/// their setting names, exactly as a frontend hands them over. Replacing
/// the record does not validate it; validity is checked when a port is
/// opened with it.
#[derive(Debug)]
pub struct SerialPortConfig {
    pub data_bits: i8,
    pub stop_bits: i8,
    pub parity: String,
    pub flow_control: String,
}

pub open spec fn valid_data_bits(bits: int) -> bool {
    bits == 5 || bits == 6 || bits == 7 || bits == 8
}

pub open spec fn valid_stop_bits(bits: int) -> bool {
    bits == 1 || bits == 2
}

pub open spec fn valid_parity(s: Seq<char>) -> bool {
    s == "None"@ || s == "Odd"@ || s == "Even"@
}

pub open spec fn valid_flow_control(s: Seq<char>) -> bool {
    s == "None"@ || s == "Software"@ || s == "Hardware"@
}

pub open spec fn data_bits_of(bits: int) -> DataBits {
    if bits == 5 {
        DataBits::Five
    } else if bits == 6 {
        DataBits::Six
    } else if bits == 7 {
        DataBits::Seven
    } else {
        DataBits::Eight
    }
}

pub open spec fn stop_bits_of(bits: int) -> StopBits {
    if bits == 1 {
        StopBits::One
    } else {
        StopBits::Two
    }
}

pub open spec fn parity_of(s: Seq<char>) -> Parity {
    if s == "None"@ {
        Parity::NoParity
    } else if s == "Odd"@ {
        Parity::Odd
    } else {
        Parity::Even
    }
}

pub open spec fn flow_control_of(s: Seq<char>) -> FlowControl {
    if s == "None"@ {
        FlowControl::NoFlowControl
    } else if s == "Software"@ {
        FlowControl::Software
    } else {
        FlowControl::Hardware
    }
}

/// Converts a data-bit count to its setting. Counts outside 5..=8 are not
/// accepted: the caller checks the configuration first.
pub fn convert_to_data_bits(bits: i8) -> (r: DataBits)
    requires
        valid_data_bits(bits as int),
    ensures
        r == data_bits_of(bits as int),
{
    match bits {
        5 => DataBits::Five,
        6 => DataBits::Six,
        7 => DataBits::Seven,
        8 => DataBits::Eight,
        _ => vstd::pervasive::unreached(),
    }
}

/// Converts a stop-bit count to its setting. Counts other than 1 and 2 are
/// not accepted: the caller checks the configuration first.
pub fn convert_to_stop_bits(bits: i8) -> (r: StopBits)
    requires
        valid_stop_bits(bits as int),
    ensures
        r == stop_bits_of(bits as int),
{
    match bits {
        1 => StopBits::One,
        2 => StopBits::Two,
        _ => vstd::pervasive::unreached(),
    }
}

/// Converts a parity name to its setting. Names other than "None", "Odd"
/// and "Even" are not accepted: the caller checks the configuration first.
pub fn convert_to_parity(s: &str) -> (r: Parity)
    requires
        valid_parity(s@),
    ensures
        r == parity_of(s@),
{
    let t = s.to_owned();
    if t == "None".to_owned() {
        Parity::NoParity
    } else if t == "Odd".to_owned() {
        Parity::Odd
    } else {
        Parity::Even
    }
}

/// Converts a flow-control name to its setting. Names other than "None",
/// "Software" and "Hardware" are not accepted: the caller checks the
/// configuration first.
pub fn convert_to_flow_control(s: &str) -> (r: FlowControl)
    requires
        valid_flow_control(s@),
    ensures
        r == flow_control_of(s@),
{
    let t = s.to_owned();
    if t == "None".to_owned() {
        FlowControl::NoFlowControl
    } else if t == "Software".to_owned() {
        FlowControl::Software
    } else {
        FlowControl::Hardware
    }
}

impl SerialPortConfig {
    /// A configuration can be opened with only if the counts and names are
    /// among the settings the conversions accept.
    pub open spec fn valid(&self) -> bool {
        &&& valid_data_bits(self.data_bits as int)
        &&& valid_stop_bits(self.stop_bits as int)
        &&& valid_parity(self.parity@)
        &&& valid_flow_control(self.flow_control@)
    }

    /// Decides validity, so a caller can refuse an open request instead of
    /// converting settings that no conversion accepts.
    pub fn is_valid(&self) -> (r: bool)
        ensures
            r == self.valid(),
    {
        let db = self.data_bits == 5 || self.data_bits == 6 || self.data_bits == 7
            || self.data_bits == 8;
        let sb = self.stop_bits == 1 || self.stop_bits == 2;
        let pa = self.parity == "None".to_owned() || self.parity == "Odd".to_owned()
            || self.parity == "Even".to_owned();
        let fc = self.flow_control == "None".to_owned()
            || self.flow_control == "Software".to_owned()
            || self.flow_control == "Hardware".to_owned();
        db && sb && pa && fc
    }
}

impl Default for SerialPortConfig {
    /// The starting configuration: 8 data bits, 1 stop bit, no parity, no
    /// flow control.
    fn default() -> (r: Self)
        ensures
            r.data_bits == 8,
            r.stop_bits == 1,
            r.parity@ == "None"@,
            r.flow_control@ == "None"@,
            r.valid(),
    {
        SerialPortConfig {
            data_bits: 8,
            stop_bits: 1,
            parity: "None".to_owned(),
            flow_control: "None".to_owned(),
        }
    }
}

} // verus!
