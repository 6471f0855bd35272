use ebyte_e32_ui::config::{parse_config, to_toml, Config, Parity};

fn sample_config() -> Config {
    Config {
        serial_path: b"/dev/ttyS1".to_vec(),
        baudrate: 115200,
        parity: Parity::Even,
        data_bits: 7,
        stop_bits: 2,
        aux_pin: 4,
        m0_pin: 5,
        m1_pin: 6,
    }
}

#[test]
fn default_has_documented_values() {
    let c = Config::default();
    assert_eq!(c.serial_path, b"/dev/ttyAMA0".to_vec());
    assert_eq!(c.baudrate, 9600);
    assert_eq!(c.parity, Parity::Off);
    assert_eq!(c.data_bits, 8);
    assert_eq!(c.stop_bits, 1);
    assert_eq!(c.aux_pin, 18);
    assert_eq!(c.m0_pin, 23);
    assert_eq!(c.m1_pin, 24);
}

#[test]
fn default_renders_exactly() {
    let text = String::from_utf8(to_toml(&Config::default())).unwrap();
    assert_eq!(
        text,
        "serial_path = \"/dev/ttyAMA0\"\n\
         baudrate = 9600\n\
         parity = \"None\"\n\
         data_bits = 8\n\
         stop_bits = 1\n\
         aux_pin = 18\n\
         m0_pin = 23\n\
         m1_pin = 24\n"
    );
}

#[test]
fn default_fallback_parses_back_to_default() {
    let rendered = to_toml(&Config::default());
    let parsed = parse_config(&rendered).expect("default rendering must parse");
    assert_eq!(parsed, Config::default());
}

#[test]
fn round_trip_of_custom_config() {
    let c = sample_config();
    let parsed = parse_config(&to_toml(&c)).expect("rendering must parse");
    assert_eq!(parsed, c);
}

#[test]
fn round_trip_keeps_odd_parity() {
    let mut c = sample_config();
    c.parity = Parity::Odd;
    let parsed = parse_config(&to_toml(&c)).unwrap();
    assert_eq!(parsed.parity, Parity::Odd);
}

#[test]
fn parses_a_written_out_file() {
    let text = "serial_path = \"/dev/serial0\"\n\
                baudrate = 19200\n\
                parity = \"Odd\"\n\
                data_bits = 8\n\
                stop_bits = 1\n\
                aux_pin = 17\n\
                m0_pin = 27\n\
                m1_pin = 22\n";
    let c = parse_config(text.as_bytes()).expect("well-formed file must parse");
    assert_eq!(c.serial_path, b"/dev/serial0".to_vec());
    assert_eq!(c.baudrate, 19200);
    assert_eq!(c.parity, Parity::Odd);
    assert_eq!(c.data_bits, 8);
    assert_eq!(c.stop_bits, 1);
    assert_eq!(c.aux_pin, 17);
    assert_eq!(c.m0_pin, 27);
    assert_eq!(c.m1_pin, 22);
}

#[test]
fn rejects_empty_input() {
    assert_eq!(parse_config(b""), None);
}

#[test]
fn rejects_missing_line() {
    let text = "serial_path = \"/dev/ttyAMA0\"\n\
                baudrate = 9600\n\
                parity = \"None\"\n\
                data_bits = 8\n\
                stop_bits = 1\n\
                aux_pin = 18\n\
                m0_pin = 23\n";
    assert_eq!(parse_config(text.as_bytes()), None);
}

#[test]
fn rejects_reordered_keys() {
    let text = "baudrate = 9600\n\
                serial_path = \"/dev/ttyAMA0\"\n\
                parity = \"None\"\n\
                data_bits = 8\n\
                stop_bits = 1\n\
                aux_pin = 18\n\
                m0_pin = 23\n\
                m1_pin = 24\n";
    assert_eq!(parse_config(text.as_bytes()), None);
}

#[test]
fn rejects_trailing_bytes() {
    let mut bytes = to_toml(&Config::default());
    bytes.extend_from_slice(b"extra = 1\n");
    assert_eq!(parse_config(&bytes), None);
}

#[test]
fn rejects_unterminated_quote() {
    let text = "serial_path = \"/dev/ttyAMA0\n\
                baudrate = 9600\n\
                parity = \"None\"\n\
                data_bits = 8\n\
                stop_bits = 1\n\
                aux_pin = 18\n\
                m0_pin = 23\n\
                m1_pin = 24\n";
    assert_eq!(parse_config(text.as_bytes()), None);
}

#[test]
fn rejects_backslash_in_path() {
    let text = "serial_path = \"C:\\dev\\radio\"\n\
                baudrate = 9600\n\
                parity = \"None\"\n\
                data_bits = 8\n\
                stop_bits = 1\n\
                aux_pin = 18\n\
                m0_pin = 23\n\
                m1_pin = 24\n";
    assert_eq!(parse_config(text.as_bytes()), None);
}

#[test]
fn rejects_unknown_parity_keyword() {
    let text = "serial_path = \"/dev/ttyAMA0\"\n\
                baudrate = 9600\n\
                parity = \"none\"\n\
                data_bits = 8\n\
                stop_bits = 1\n\
                aux_pin = 18\n\
                m0_pin = 23\n\
                m1_pin = 24\n";
    assert_eq!(parse_config(text.as_bytes()), None);
}

#[test]
fn rejects_non_numeric_baudrate() {
    let text = "serial_path = \"/dev/ttyAMA0\"\n\
                baudrate = fast\n\
                parity = \"None\"\n\
                data_bits = 8\n\
                stop_bits = 1\n\
                aux_pin = 18\n\
                m0_pin = 23\n\
                m1_pin = 24\n";
    assert_eq!(parse_config(text.as_bytes()), None);
}

#[test]
fn rejects_baudrate_overflowing_u32() {
    let text = "serial_path = \"/dev/ttyAMA0\"\n\
                baudrate = 4294967296\n\
                parity = \"None\"\n\
                data_bits = 8\n\
                stop_bits = 1\n\
                aux_pin = 18\n\
                m0_pin = 23\n\
                m1_pin = 24\n";
    assert_eq!(parse_config(text.as_bytes()), None);
}

#[test]
fn accepts_largest_u32_baudrate() {
    let text = "serial_path = \"/dev/ttyAMA0\"\n\
                baudrate = 4294967295\n\
                parity = \"None\"\n\
                data_bits = 8\n\
                stop_bits = 1\n\
                aux_pin = 18\n\
                m0_pin = 23\n\
                m1_pin = 24\n";
    let c = parse_config(text.as_bytes()).unwrap();
    assert_eq!(c.baudrate, u32::MAX);
}

#[test]
fn rejects_pin_overflowing_u8() {
    let text = "serial_path = \"/dev/ttyAMA0\"\n\
                baudrate = 9600\n\
                parity = \"None\"\n\
                data_bits = 8\n\
                stop_bits = 1\n\
                aux_pin = 256\n\
                m0_pin = 23\n\
                m1_pin = 24\n";
    assert_eq!(parse_config(text.as_bytes()), None);
}

#[test]
fn round_trip_of_empty_path() {
    let mut c = sample_config();
    c.serial_path = Vec::new();
    let parsed = parse_config(&to_toml(&c)).unwrap();
    assert_eq!(parsed, c);
}

#[test]
fn rendering_is_real_toml() {
    let rendered = String::from_utf8(to_toml(&sample_config())).unwrap();
    let value: toml::Value = toml::from_str(&rendered).expect("rendering must be valid TOML");
    let table = value.as_table().unwrap();
    assert_eq!(
        table.get("serial_path").unwrap().as_str().unwrap(),
        "/dev/ttyS1"
    );
    assert_eq!(table.get("baudrate").unwrap().as_integer().unwrap(), 115200);
    assert_eq!(table.get("parity").unwrap().as_str().unwrap(), "Even");
    assert_eq!(table.get("data_bits").unwrap().as_integer().unwrap(), 7);
    assert_eq!(table.get("stop_bits").unwrap().as_integer().unwrap(), 2);
    assert_eq!(table.get("aux_pin").unwrap().as_integer().unwrap(), 4);
    assert_eq!(table.get("m0_pin").unwrap().as_integer().unwrap(), 5);
    assert_eq!(table.get("m1_pin").unwrap().as_integer().unwrap(), 6);
}
