use ebyte_e32_ui::config::Parity;
use ebyte_e32_ui::interface::{
    address_high, address_low, is_listen, params_of_app, AirBaudRate, App, BaudRate,
    ForwardErrorCorrectionMode, IoDriveMode, Mode, Persistence, TransmissionMode,
    TransmissionPower, WakeupTime,
};

fn sample_app(mode: Mode) -> App {
    App {
        mode,
        address: 0x1234,
        channel: 23,
        air_rate: AirBaudRate::Bps9600,
        uart_rate: BaudRate::Bps115200,
        uart_parity: Parity::Even,
        transmission_power: TransmissionPower::Dbm21,
        persistence: Persistence::Permanent,
    }
}

#[test]
fn parameters_carry_the_requested_fields() {
    let app = sample_app(Mode::Send);
    let p = params_of_app(&app);
    assert_eq!(p.address, 0x1234);
    assert_eq!(p.channel, 23);
    assert_eq!(p.air_rate, AirBaudRate::Bps9600);
    assert_eq!(p.uart_rate, BaudRate::Bps115200);
    assert_eq!(p.uart_parity, Parity::Even);
    assert_eq!(p.transmission_power, TransmissionPower::Dbm21);
}

#[test]
fn parameters_fill_fixed_fields_with_module_defaults() {
    let p = params_of_app(&sample_app(Mode::Listen));
    assert_eq!(p.transmission_mode, TransmissionMode::Transparent);
    assert_eq!(p.io_drive_mode, IoDriveMode::PushPull);
    assert_eq!(p.wakeup_time, WakeupTime::Ms250);
    assert_eq!(p.fec, ForwardErrorCorrectionMode::On);
}

#[test]
fn mode_selects_the_loop() {
    assert!(is_listen(&sample_app(Mode::Listen)));
    assert!(!is_listen(&sample_app(Mode::Send)));
}

#[test]
fn mode_does_not_leak_into_parameters() {
    let listen = params_of_app(&sample_app(Mode::Listen));
    let send = params_of_app(&sample_app(Mode::Send));
    assert_eq!(listen, send);
}

#[test]
fn address_splits_into_byte_pair() {
    assert_eq!(address_high(0x1234), 0x12);
    assert_eq!(address_low(0x1234), 0x34);
    assert_eq!(address_high(0), 0);
    assert_eq!(address_low(0), 0);
    assert_eq!(address_high(u16::MAX), 0xFF);
    assert_eq!(address_low(u16::MAX), 0xFF);
}
