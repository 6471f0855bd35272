//! The requested session: the mode to run in and the radio parameters
//! to apply before it starts.
//!
//! These mirror the parameter set of the radio module itself; the
//! hardware driver receives them converted one to one.

use crate::config::Parity;
use vstd::prelude::*;

verus! {

/// The two entry modes of the tool.
#[derive(Clone, Copy, Debug, PartialEq, Eq, Structural)]
pub enum Mode {
    /// Echo every byte the radio receives.
    Listen,
    /// Transmit typed lines over the radio.
    Send,
}

/// The over-the-air data rate of the radio.
#[derive(Clone, Copy, Debug, PartialEq, Eq, Structural)]
pub enum AirBaudRate {
    Bps300,
    Bps1200,
    Bps2400,
    Bps4800,
    Bps9600,
    Bps19200,
}

/// The UART data rate of the radio's serial side.
#[derive(Clone, Copy, Debug, PartialEq, Eq, Structural)]
pub enum BaudRate {
    Bps1200,
    Bps2400,
    Bps4800,
    Bps9600,
    Bps19200,
    Bps38400,
    Bps57600,
    Bps115200,
}

/// The transmission power of the radio.
#[derive(Clone, Copy, Debug, PartialEq, Eq, Structural)]
pub enum TransmissionPower {
    Dbm30,
    Dbm27,
    Dbm24,
    Dbm21,
}

/// Whether a parameter write is applied transiently or saved to the
/// module's non-volatile storage.
#[derive(Clone, Copy, Debug, PartialEq, Eq, Structural)]
pub enum Persistence {
    /// Apply now; lost on power-down.
    Temporary,
    /// Save to non-volatile storage.
    Permanent,
}

/// Fixed or transparent transmission.
#[derive(Clone, Copy, Debug, PartialEq, Eq, Structural)]
pub enum TransmissionMode {
    Transparent,
    Fixed,
}

/// Drive mode of the module's digital outputs.
#[derive(Clone, Copy, Debug, PartialEq, Eq, Structural)]
pub enum IoDriveMode {
    PushPull,
    OpenCollector,
}

/// Wireless wakeup interval.
#[derive(Clone, Copy, Debug, PartialEq, Eq, Structural)]
pub enum WakeupTime {
    Ms250,
    Ms500,
    Ms750,
    Ms1000,
    Ms1250,
    Ms1500,
    Ms1750,
    Ms2000,
}

/// Forward error correction.
#[derive(Clone, Copy, Debug, PartialEq, Eq, Structural)]
pub enum ForwardErrorCorrectionMode {
    On,
    Off,
}

/// One invocation of the tool: the selected mode and the radio
/// parameters it carries.
#[derive(Clone, Copy, Debug, PartialEq, Eq, Structural)]
pub struct App {
    /// The selected session mode.
    pub mode: Mode,
    /// The module address, carried over the air as a high/low byte pair.
    pub address: u16,
    /// The radio channel number.
    pub channel: u8,
    /// The over-the-air data rate.
    pub air_rate: AirBaudRate,
    /// The UART rate of the radio's serial side.
    pub uart_rate: BaudRate,
    /// The UART parity of the radio's serial side.
    pub uart_parity: Parity,
    /// The transmission power.
    pub transmission_power: TransmissionPower,
    /// Whether the parameters are saved to non-volatile storage.
    pub persistence: Persistence,
}

/// The full parameter set pushed to the radio module.
#[derive(Clone, Copy, Debug, PartialEq, Eq, Structural)]
pub struct RadioParameters {
    pub address: u16,
    pub channel: u8,
    pub uart_parity: Parity,
    pub uart_rate: BaudRate,
    pub air_rate: AirBaudRate,
    pub transmission_mode: TransmissionMode,
    pub io_drive_mode: IoDriveMode,
    pub wakeup_time: WakeupTime,
    pub fec: ForwardErrorCorrectionMode,
    pub transmission_power: TransmissionPower,
}

/// The parameters an invocation asks for: its own fields one to one,
/// and the module's default for everything it does not carry.
pub open spec fn spec_params_of_app(a: App) -> RadioParameters {
    RadioParameters {
        address: a.address,
        channel: a.channel,
        uart_parity: a.uart_parity,
        uart_rate: a.uart_rate,
        air_rate: a.air_rate,
        transmission_mode: TransmissionMode::Transparent,
        io_drive_mode: IoDriveMode::PushPull,
        wakeup_time: WakeupTime::Ms250,
        fec: ForwardErrorCorrectionMode::On,
        transmission_power: a.transmission_power,
    }
}

/// Builds the parameter set for an invocation.
pub fn params_of_app(a: &App) -> (p: RadioParameters)
    ensures
        p == spec_params_of_app(*a),
{
    RadioParameters {
        address: a.address,
        channel: a.channel,
        uart_parity: a.uart_parity,
        uart_rate: a.uart_rate,
        air_rate: a.air_rate,
        transmission_mode: TransmissionMode::Transparent,
        io_drive_mode: IoDriveMode::PushPull,
        wakeup_time: WakeupTime::Ms250,
        fec: ForwardErrorCorrectionMode::On,
        transmission_power: a.transmission_power,
    }
}

/// Whether the invocation selects the listen loop rather than the send
/// loop.
pub fn is_listen(a: &App) -> (r: bool)
    ensures
        r == (a.mode == Mode::Listen),
{
    match a.mode {
        Mode::Listen => true,
        Mode::Send => false,
    }
}

/// The selected mode determines only which loop runs: two invocations
/// that differ in nothing but the mode ask for the same radio
/// parameters, and the mode is carried through unchanged.
pub proof fn lemma_mode_no_cross_contamination(a: App, m: Mode)
    ensures
        spec_params_of_app(App { mode: m, ..a }) == spec_params_of_app(a),
        (App { mode: m, ..a }).mode == m,
{
}

/// The high byte of the module address.
pub fn address_high(address: u16) -> (r: u8)
    ensures
        r == address / 256,
{
    (address / 256) as u8
}

/// The low byte of the module address.
pub fn address_low(address: u16) -> (r: u8)
    ensures
        r == address % 256,
{
    (address % 256) as u8
}

} // verus!
