//! The command surface over the bridge state: the configuration record
//! plus the registry of open ports, and one function (or decision /
//! completion pair) per command.
//!
//! Commands that touch the device are split in two: a decision step that
//! reads the state and says what the driver should be asked, and a
//! completion step that folds the driver's answer back into the state.
//! Both steps are specified exactly; the driver call itself stands
//! between them, outside this library.

use vstd::prelude::*;

use crate::config::DataBits;
use crate::config::FlowControl;
use crate::config::Parity;
use crate::config::SerialPortConfig;
use crate::config::StopBits;
use crate::config::convert_to_data_bits;
use crate::config::convert_to_flow_control;
use crate::config::convert_to_parity;
use crate::config::convert_to_stop_bits;
use crate::config::data_bits_of;
use crate::config::flow_control_of;
use crate::config::parity_of;
use crate::config::stop_bits_of;
use crate::registry::PortRegistry;

verus! {

/// How long an open request waits for the device, in milliseconds.
pub const OPEN_TIMEOUT_MS: u64 = 200;

/// The message a successful open request answers with.
pub open spec fn opened_text() -> Seq<char> {
    "Opened"@
}

/// Everything the driver needs to open a port: the typed settings taken
/// from the configuration at the moment of the request, the requested
/// baud rate, and the fixed timeout.
#[derive(Clone, Copy, Debug, PartialEq, Eq, Structural)]
pub struct OpenParams {
    pub baud_rate: u32,
    pub data_bits: DataBits,
    pub stop_bits: StopBits,
    pub parity: Parity,
    pub flow_control: FlowControl,
    pub timeout_ms: u64,
}

/// The whole state behind the command surface: the process-wide
/// configuration and the registry of open ports.
pub struct SerialState<H> {
    pub config: SerialPortConfig,
    pub ports: PortRegistry<H>,
}

impl<H> SerialState<H> {
    /// Well-formedness of the state: the registry is well-formed.
    pub open spec fn wf(&self) -> bool {
        self.ports.wf()
    }

    /// The starting state: the default configuration and no open port.
    pub fn new() -> (r: Self)
        ensures
            r.wf(),
            r.config.data_bits == 8,
            r.config.stop_bits == 1,
            r.config.parity@ == "None"@,
            r.config.flow_control@ == "None"@,
            r.config.valid(),
            r.ports@ == Map::<Seq<char>, H>::empty(),
    {
        SerialState { config: Default::default(), ports: PortRegistry::new() }
    }

    /// Replaces the configuration with the given values, unchecked, and
    /// leaves every open port exactly as it was.
    pub fn set_serial_port_config(
        &mut self,
        data_bits: i8,
        stop_bits: i8,
        parity: String,
        flow_control: String,
    )
        requires
            old(self).wf(),
        ensures
            final(self).wf(),
            final(self).config.data_bits == data_bits,
            final(self).config.stop_bits == stop_bits,
            final(self).config.parity@ == parity@,
            final(self).config.flow_control@ == flow_control@,
            final(self).ports == old(self).ports,
    {
        self.config = SerialPortConfig { data_bits, stop_bits, parity, flow_control };
    }

    /// Hands out a copy of the current configuration.
    pub fn get_serial_port_config(&self) -> (r: SerialPortConfig)
        ensures
            r == self.config,
    {
        SerialPortConfig {
            data_bits: self.config.data_bits,
            stop_bits: self.config.stop_bits,
            parity: self.config.parity.clone(),
            flow_control: self.config.flow_control.clone(),
        }
    }

    /// Is a port of this name open? Exactly registry membership.
    pub fn is_serial_port_open(&self, port_name: &str) -> (r: bool)
        requires
            self.wf(),
        ensures
            r == self.ports@.dom().contains(port_name@),
    {
        self.ports.is_open(port_name)
    }

    /// The decision step of an open request: nothing to do when the port
    /// is already open, otherwise the parameters the driver is to be asked
    /// to open with — the current configuration converted to its typed
    /// settings, the requested baud rate, and the fixed timeout.
    ///
    /// Only a valid configuration can be converted, so the caller checks
    /// `config.is_valid()` first and refuses the request otherwise.
    pub fn open_serial_port_plan(&self, port_name: &str, baud_rate: u32) -> (r: Option<
        OpenParams,
    >)
        requires
            self.wf(),
            self.config.valid(),
        ensures
            match r {
                Option::None => self.ports@.dom().contains(port_name@),
                Option::Some(p) => {
                    &&& !self.ports@.dom().contains(port_name@)
                    &&& p.baud_rate == baud_rate
                    &&& p.data_bits == data_bits_of(self.config.data_bits as int)
                    &&& p.stop_bits == stop_bits_of(self.config.stop_bits as int)
                    &&& p.parity == parity_of(self.config.parity@)
                    &&& p.flow_control == flow_control_of(self.config.flow_control@)
                    &&& p.timeout_ms == OPEN_TIMEOUT_MS
                },
            },
    {
        if self.ports.is_open(port_name) {
            None
        } else {
            Some(
                OpenParams {
                    baud_rate,
                    data_bits: convert_to_data_bits(self.config.data_bits),
                    stop_bits: convert_to_stop_bits(self.config.stop_bits),
                    parity: convert_to_parity(self.config.parity.as_str()),
                    flow_control: convert_to_flow_control(self.config.flow_control.as_str()),
                    timeout_ms: OPEN_TIMEOUT_MS,
                },
            )
        }
    }

    /// The completion step of an open request: a handle the driver opened
    /// enters the registry under the port's name and the request answers
    /// with the opened message; a driver error leaves the state untouched
    /// and is passed to the caller word for word.
    pub fn open_serial_port_finish(&mut self, port_name: String, outcome: Result<H, String>) -> (r:
        Result<String, String>)
        requires
            old(self).wf(),
        ensures
            final(self).wf(),
            final(self).config == old(self).config,
            match outcome {
                Result::Ok(h) => {
                    &&& final(self).ports@ == old(self).ports@.insert(port_name@, h)
                    &&& (r matches Result::Ok(m) && m@ == opened_text())
                },
                Result::Err(e) => {
                    &&& final(self).ports == old(self).ports
                    &&& (r matches Result::Err(m) && m@ == e@)
                },
            },
    {
        match outcome {
            Result::Ok(h) => {
                self.ports.insert(port_name, h);
                opened_ok()
            },
            Result::Err(e) => Result::Err(e),
        }
    }

    /// Closes the port of this name: its entry leaves the registry, and
    /// its handle is handed back to be dropped. Closing a port that is not
    /// open changes nothing.
    pub fn stop_serial_port(&mut self, port_name: &str) -> (r: Option<H>)
        requires
            old(self).wf(),
        ensures
            final(self).wf(),
            final(self).config == old(self).config,
            final(self).ports@ == old(self).ports@.remove(port_name@),
            !old(self).ports@.dom().contains(port_name@) ==> final(self).ports@ == old(
                self,
            ).ports@,
            match r {
                Some(h) => old(self).ports@.dom().contains(port_name@) && h == old(
                    self,
                ).ports@[port_name@],
                None => !old(self).ports@.dom().contains(port_name@),
            },
    {
        let r = self.ports.remove(port_name);
        proof {
            if !old(self).ports@.dom().contains(port_name@) {
                assert(self.ports@ =~= old(self).ports@);
            }
        }
        r
    }
}

/// The answer of a successful open request.
pub fn opened_ok() -> (r: Result<String, String>)
    ensures
        r matches Result::Ok(m) && m@ == opened_text(),
{
    Result::Ok("Opened".to_owned())
}

/// The answer of a write command: it succeeds exactly when the port was
/// open and the driver accepted the bytes. In particular a write to a
/// port that is not open answers false.
pub fn write_outcome(port_open: bool, bytes_written: Option<usize>) -> (r: bool)
    ensures
        r == (port_open && bytes_written is Some),
        !port_open ==> r == false,
{
    port_open && bytes_written.is_some()
}

/// The answer of a read command: the bytes the driver put into the
/// buffer — the buffer's first `n` bytes when the driver read `n` — and
/// the empty answer when the port was not open or the driver failed.
pub fn read_outcome(port_open: bool, buf: Vec<u8>, bytes_read: Option<usize>) -> (r: Vec<u8>)
    requires
        bytes_read matches Some(n) ==> n <= buf.len(),
    ensures
        !port_open ==> r@ == Seq::<u8>::empty(),
        port_open ==> match bytes_read {
            Some(n) => r@ == buf@.take(n as int),
            None => r@ == Seq::<u8>::empty(),
        },
{
    if !port_open {
        return Vec::new();
    }
    match bytes_read {
        Some(n) => {
            let mut b = buf;
            b.truncate(n);
            proof {
                assert(b@ =~= buf@.take(n as int));
            }
            b
        },
        None => Vec::new(),
    }
}

/// Law: opening is idempotent. After a successful open the port's name is
/// in the registry, and recording the same open handle again leaves the
/// registry exactly as it is — so a second open request finds the port
/// open, asks the driver nothing, and changes nothing.
pub proof fn lemma_open_idempotent<H>(ports: Map<Seq<char>, H>, name: Seq<char>, h: H)
    ensures
        ports.insert(name, h).dom().contains(name),
        ports.insert(name, h).insert(name, h) == ports.insert(name, h),
{
    assert(ports.insert(name, h).insert(name, h) =~= ports.insert(name, h));
}

} // verus!
