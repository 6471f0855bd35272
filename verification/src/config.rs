//! Connection settings for the radio module: the serial device, its
//! framing, and the numbers of the three GPIO control pins.

use vstd::prelude::*;

verus! {

/// Parity setting of the serial link.
#[derive(Clone, Copy, Debug, PartialEq, Eq, Structural)]
pub enum Parity {
    /// No parity bit.
    Off,
    /// Even parity.
    Even,
    /// Odd parity.
    Odd,
}

/// Connection settings, loaded once at startup and immutable afterwards.
///
/// The serial device path is kept as raw bytes; the configuration file
/// stores it as a quoted string.
#[derive(Clone, Debug, PartialEq, Eq)]
pub struct Config {
    /// Path of the serial device, e.g. `/dev/ttyAMA0`.
    pub serial_path: Vec<u8>,
    /// Baud rate of the serial link to the module.
    pub baudrate: u32,
    /// Parity of the serial link.
    pub parity: Parity,
    /// Number of data bits per character.
    pub data_bits: u8,
    /// Number of stop bits per character.
    pub stop_bits: u8,
    /// GPIO pin number of the module's AUX (busy/ready) line, an input.
    pub aux_pin: u8,
    /// GPIO pin number of the module's M0 mode line, an output.
    pub m0_pin: u8,
    /// GPIO pin number of the module's M1 mode line, an output.
    pub m1_pin: u8,
}

/// The mathematical model of a [`Config`]: the same fields with the
/// serial path as a sequence of bytes.
pub struct ConfigModel {
    pub serial_path: Seq<u8>,
    pub baudrate: u32,
    pub parity: Parity,
    pub data_bits: u8,
    pub stop_bits: u8,
    pub aux_pin: u8,
    pub m0_pin: u8,
    pub m1_pin: u8,
}

impl View for Config {
    type V = ConfigModel;

    open spec fn view(&self) -> ConfigModel {
        ConfigModel {
            serial_path: self.serial_path@,
            baudrate: self.baudrate,
            parity: self.parity,
            data_bits: self.data_bits,
            stop_bits: self.stop_bits,
            aux_pin: self.aux_pin,
            m0_pin: self.m0_pin,
            m1_pin: self.m1_pin,
        }
    }
}

/// A byte that may stand unescaped inside a quoted string value:
/// printable ASCII except the double quote and the backslash.
pub open spec fn plain_string_byte(b: u8) -> bool {
    32 <= b < 127 && b != 34 && b != 92
}

impl ConfigModel {
    /// A configuration can be written back to a file when its path
    /// contains no byte that would break the quoted-string syntax:
    /// no double quote, no backslash, and no control characters.
    pub open spec fn wf(self) -> bool {
        forall|i: int| 0 <= i < self.serial_path.len() ==> plain_string_byte(#[trigger] self.serial_path[i])
    }
}

impl Default for Config {
    /// The built-in default configuration, printed as guidance when no
    /// configuration file can be read.
    fn default() -> (c: Config)
        ensures
            c@ == spec_default_config(),
    {
        Config {
            serial_path: default_serial_path(),
            baudrate: 9600,
            parity: Parity::Off,
            data_bits: 8,
            stop_bits: 1,
            aux_pin: 18,
            m0_pin: 23,
            m1_pin: 24,
        }
    }
}

/// The default serial device path, `/dev/ttyAMA0`, as bytes.
pub open spec fn spec_default_serial_path() -> Seq<u8> {
    "/dev/ttyAMA0"@.map_values(|c: char| c as u8)
}

/// The default configuration value.
pub open spec fn spec_default_config() -> ConfigModel {
    ConfigModel {
        serial_path: spec_default_serial_path(),
        baudrate: 9600,
        parity: Parity::Off,
        data_bits: 8,
        stop_bits: 1,
        aux_pin: 18,
        m0_pin: 23,
        m1_pin: 24,
    }
}

/// The `serial_path` key with its key-value separator.
pub open spec fn key_serial_path() -> Seq<u8> {
    crate::text::ascii_bytes("serial_path = "@)
}

/// The `baudrate` key with its key-value separator.
pub open spec fn key_baudrate() -> Seq<u8> {
    crate::text::ascii_bytes("baudrate = "@)
}

/// The `parity` key with its key-value separator.
pub open spec fn key_parity() -> Seq<u8> {
    crate::text::ascii_bytes("parity = "@)
}

/// The `data_bits` key with its key-value separator.
pub open spec fn key_data_bits() -> Seq<u8> {
    crate::text::ascii_bytes("data_bits = "@)
}

/// The `stop_bits` key with its key-value separator.
pub open spec fn key_stop_bits() -> Seq<u8> {
    crate::text::ascii_bytes("stop_bits = "@)
}

/// The `aux_pin` key with its key-value separator.
pub open spec fn key_aux_pin() -> Seq<u8> {
    crate::text::ascii_bytes("aux_pin = "@)
}

/// The `m0_pin` key with its key-value separator.
pub open spec fn key_m0_pin() -> Seq<u8> {
    crate::text::ascii_bytes("m0_pin = "@)
}

/// The `m1_pin` key with its key-value separator.
pub open spec fn key_m1_pin() -> Seq<u8> {
    crate::text::ascii_bytes("m1_pin = "@)
}

/// The keyword that stands for a parity setting in the file.
pub open spec fn parity_keyword(p: Parity) -> Seq<u8> {
    match p {
        Parity::Off => crate::text::ascii_bytes("None"@),
        Parity::Even => crate::text::ascii_bytes("Even"@),
        Parity::Odd => crate::text::ascii_bytes("Odd"@),
    }
}

/// One line of the file: key prefix, value, line feed.
pub open spec fn spec_line(prefix: Seq<u8>, value: Seq<u8>) -> Seq<u8> {
    prefix + value + seq![crate::text::newline()]
}

/// The canonical rendering of a configuration: one line per field, in
/// fixed order, strings quoted and numbers decimal.
pub open spec fn spec_toml(m: ConfigModel) -> Seq<u8> {
    spec_line(key_serial_path(), crate::text::spec_render_quoted(m.serial_path)) + spec_line(
        key_baudrate(),
        crate::text::spec_render_nat(m.baudrate as nat),
    ) + spec_line(key_parity(), crate::text::spec_render_quoted(parity_keyword(m.parity)))
        + spec_line(key_data_bits(), crate::text::spec_render_nat(m.data_bits as nat)) + spec_line(
        key_stop_bits(),
        crate::text::spec_render_nat(m.stop_bits as nat),
    ) + spec_line(key_aux_pin(), crate::text::spec_render_nat(m.aux_pin as nat)) + spec_line(
        key_m0_pin(),
        crate::text::spec_render_nat(m.m0_pin as nat),
    ) + spec_line(key_m1_pin(), crate::text::spec_render_nat(m.m1_pin as nat))
}

/// Takes the next line and strips the expected key prefix from it,
/// yielding the value bytes and the remaining input.
pub open spec fn parse_field(s: Seq<u8>, prefix: Seq<u8>) -> Option<(Seq<u8>, Seq<u8>)> {
    match crate::text::take_line(s) {
        Option::None => Option::None,
        Option::Some((line, rest)) => if crate::text::starts_with(line, prefix) {
            Option::Some((line.subrange(prefix.len() as int, line.len() as int), rest))
        } else {
            Option::None
        },
    }
}

/// The parity value of a line: a quoted keyword.
pub open spec fn spec_parse_parity(s: Seq<u8>) -> Option<Parity> {
    match crate::text::spec_parse_quoted(s) {
        Option::None => Option::None,
        Option::Some(k) => if k == parity_keyword(Parity::Off) {
            Option::Some(Parity::Off)
        } else if k == parity_keyword(Parity::Even) {
            Option::Some(Parity::Even)
        } else if k == parity_keyword(Parity::Odd) {
            Option::Some(Parity::Odd)
        } else {
            Option::None
        },
    }
}

/// What loading a configuration file means: all eight fields, in the
/// canonical order, with nothing after the last line.
pub open spec fn spec_parse_config(s: Seq<u8>) -> Option<ConfigModel> {
    match parse_field(s, key_serial_path()) {
        Option::None => Option::None,
        Option::Some((v1, s1)) => match crate::text::spec_parse_quoted(v1) {
            Option::None => Option::None,
            Option::Some(serial_path) => match parse_field(s1, key_baudrate()) {
                Option::None => Option::None,
                Option::Some((v2, s2)) => match crate::text::spec_parse_u32(v2) {
                    Option::None => Option::None,
                    Option::Some(baudrate) => match parse_field(s2, key_parity()) {
                        Option::None => Option::None,
                        Option::Some((v3, s3)) => match spec_parse_parity(v3) {
                            Option::None => Option::None,
                            Option::Some(parity) => match parse_field(s3, key_data_bits()) {
                                Option::None => Option::None,
                                Option::Some((v4, s4)) => match crate::text::spec_parse_u8(v4) {
                                    Option::None => Option::None,
                                    Option::Some(data_bits) => match parse_field(
                                        s4,
                                        key_stop_bits(),
                                    ) {
                                        Option::None => Option::None,
                                        Option::Some((v5, s5)) => match crate::text::spec_parse_u8(
                                            v5,
                                        ) {
                                            Option::None => Option::None,
                                            Option::Some(stop_bits) => match parse_field(
                                                s5,
                                                key_aux_pin(),
                                            ) {
                                                Option::None => Option::None,
                                                Option::Some(
                                                    (v6, s6),
                                                ) => match crate::text::spec_parse_u8(v6) {
                                                    Option::None => Option::None,
                                                    Option::Some(aux_pin) => match parse_field(
                                                        s6,
                                                        key_m0_pin(),
                                                    ) {
                                                        Option::None => Option::None,
                                                        Option::Some(
                                                            (v7, s7),
                                                        ) => match crate::text::spec_parse_u8(v7) {
                                                            Option::None => Option::None,
                                                            Option::Some(
                                                                m0_pin,
                                                            ) => match parse_field(
                                                                s7,
                                                                key_m1_pin(),
                                                            ) {
                                                                Option::None => Option::None,
                                                                Option::Some(
                                                                    (v8, s8),
                                                                ) => match crate::text::spec_parse_u8(
                                                                    v8,
                                                                ) {
                                                                    Option::None => Option::None,
                                                                    Option::Some(m1_pin) => if s8.len()
                                                                        == 0 {
                                                                        Option::Some(
                                                                            ConfigModel {
                                                                                serial_path,
                                                                                baudrate,
                                                                                parity,
                                                                                data_bits,
                                                                                stop_bits,
                                                                                aux_pin,
                                                                                m0_pin,
                                                                                m1_pin,
                                                                            },
                                                                        )
                                                                    } else {
                                                                        Option::None
                                                                    },
                                                                },
                                                            },
                                                        },
                                                    },
                                                },
                                            },
                                        },
                                    },
                                },
                            },
                        },
                    },
                },
            },
        },
    }
}

fn default_serial_path() -> (v: Vec<u8>)
    ensures
        v@ == spec_default_serial_path(),
{
    let s: &str = "/dev/ttyAMA0";
    proof {
        reveal_strlit("/dev/ttyAMA0");
        assert(vstd::string::is_ascii(s));
        vstd::string::is_ascii_spec_bytes(s);
    }
    let bytes: &[u8] = s.as_bytes();
    proof {
        assert(bytes@ =~= spec_default_serial_path());
    }
    vstd::slice::slice_to_vec(bytes)
}

/// None of the key prefixes and parity keywords contains a line feed,
/// and the keywords consist of plain string bytes.
pub proof fn lemma_keys_plain()
    ensures
        forall|j: int| 0 <= j < key_serial_path().len() ==> key_serial_path()[j] != 10,
        forall|j: int| 0 <= j < key_baudrate().len() ==> key_baudrate()[j] != 10,
        forall|j: int| 0 <= j < key_parity().len() ==> key_parity()[j] != 10,
        forall|j: int| 0 <= j < key_data_bits().len() ==> key_data_bits()[j] != 10,
        forall|j: int| 0 <= j < key_stop_bits().len() ==> key_stop_bits()[j] != 10,
        forall|j: int| 0 <= j < key_aux_pin().len() ==> key_aux_pin()[j] != 10,
        forall|j: int| 0 <= j < key_m0_pin().len() ==> key_m0_pin()[j] != 10,
        forall|j: int| 0 <= j < key_m1_pin().len() ==> key_m1_pin()[j] != 10,
        forall|p: Parity, j: int|
            0 <= j < parity_keyword(p).len() ==> plain_string_byte(#[trigger] parity_keyword(p)[j]),
        parity_keyword(Parity::Off) != parity_keyword(Parity::Even),
        parity_keyword(Parity::Off) != parity_keyword(Parity::Odd),
        parity_keyword(Parity::Even) != parity_keyword(Parity::Odd),
{
    reveal_strlit("serial_path = ");
    reveal_strlit("baudrate = ");
    reveal_strlit("parity = ");
    reveal_strlit("data_bits = ");
    reveal_strlit("stop_bits = ");
    reveal_strlit("aux_pin = ");
    reveal_strlit("m0_pin = ");
    reveal_strlit("m1_pin = ");
    reveal_strlit("None");
    reveal_strlit("Even");
    reveal_strlit("Odd");
    assert(parity_keyword(Parity::Off).len() == 4);
    assert(parity_keyword(Parity::Even).len() == 4);
    assert(parity_keyword(Parity::Odd).len() == 3);
    assert(parity_keyword(Parity::Off)[0] == 'N' as u8);
    assert(parity_keyword(Parity::Even)[0] == 'E' as u8);
    assert forall|p: Parity, j: int|
        0 <= j < parity_keyword(p).len() implies plain_string_byte(
        #[trigger] parity_keyword(p)[j],
    ) by {
        match p {
            Parity::Off => assert(plain_string_byte(parity_keyword(p)[j])),
            Parity::Even => assert(plain_string_byte(parity_keyword(p)[j])),
            Parity::Odd => assert(plain_string_byte(parity_keyword(p)[j])),
        }
    }
}

/// A quoted well-formed value contains no line feed.
proof fn lemma_quoted_no_newline(content: Seq<u8>)
    requires
        forall|i: int| 0 <= i < content.len() ==> plain_string_byte(#[trigger] content[i]),
    ensures
        forall|j: int|
            0 <= j < crate::text::spec_render_quoted(content).len()
                ==> #[trigger] crate::text::spec_render_quoted(content)[j] != 10,
{
    let q = crate::text::spec_render_quoted(content);
    assert forall|j: int| 0 <= j < q.len() implies #[trigger] q[j] != 10 by {
        if 1 <= j < q.len() - 1 {
            assert(q[j] == content[j - 1]);
        }
    }
}

/// A decimal rendering contains no line feed.
proof fn lemma_digits_no_newline(n: nat)
    ensures
        forall|j: int|
            0 <= j < crate::text::spec_render_nat(n).len()
                ==> #[trigger] crate::text::spec_render_nat(n)[j] != 10,
{
    crate::text::lemma_render_nat_val(n);
    let d = crate::text::spec_render_nat(n);
    assert forall|j: int| 0 <= j < d.len() implies #[trigger] d[j] != 10 by {
        assert(crate::text::is_digit(d[j]));
    }
}

/// A line whose content has no line feed parses back into its key's
/// value and leaves exactly the rest.
proof fn lemma_parse_field_line(prefix: Seq<u8>, value: Seq<u8>, rest: Seq<u8>)
    requires
        forall|j: int| 0 <= j < prefix.len() ==> prefix[j] != 10,
        forall|j: int| 0 <= j < value.len() ==> value[j] != 10,
    ensures
        parse_field(spec_line(prefix, value) + rest, prefix) == Some((value, rest)),
{
    let content = prefix + value;
    let s = spec_line(prefix, value) + rest;
    assert(s =~= content + seq![crate::text::newline()] + rest);
    assert forall|j: int| 0 <= j < content.len() implies #[trigger] content[j]
        != crate::text::newline() by {
        if j < prefix.len() {
            assert(content[j] == prefix[j]);
        } else {
            assert(content[j] == value[j - prefix.len()]);
        }
    }
    crate::text::lemma_take_line_concat(content, rest);
    assert(content.subrange(0, prefix.len() as int) =~= prefix);
    assert(crate::text::starts_with(content, prefix));
    assert(content.subrange(prefix.len() as int, content.len() as int) =~= value);
}

/// Parsing the canonical rendering of a well-formed configuration
/// yields exactly that configuration.
pub proof fn lemma_config_round_trip(m: ConfigModel)
    requires
        m.wf(),
    ensures
        spec_parse_config(spec_toml(m)) == Some(m),
{
    lemma_keys_plain();
    let v1 = crate::text::spec_render_quoted(m.serial_path);
    let v2 = crate::text::spec_render_nat(m.baudrate as nat);
    let v3 = crate::text::spec_render_quoted(parity_keyword(m.parity));
    let v4 = crate::text::spec_render_nat(m.data_bits as nat);
    let v5 = crate::text::spec_render_nat(m.stop_bits as nat);
    let v6 = crate::text::spec_render_nat(m.aux_pin as nat);
    let v7 = crate::text::spec_render_nat(m.m0_pin as nat);
    let v8 = crate::text::spec_render_nat(m.m1_pin as nat);
    let l1 = spec_line(key_serial_path(), v1);
    let l2 = spec_line(key_baudrate(), v2);
    let l3 = spec_line(key_parity(), v3);
    let l4 = spec_line(key_data_bits(), v4);
    let l5 = spec_line(key_stop_bits(), v5);
    let l6 = spec_line(key_aux_pin(), v6);
    let l7 = spec_line(key_m0_pin(), v7);
    let l8 = spec_line(key_m1_pin(), v8);
    let r8 = Seq::<u8>::empty();
    let r7 = l8 + r8;
    let r6 = l7 + r7;
    let r5 = l6 + r6;
    let r4 = l5 + r5;
    let r3 = l4 + r4;
    let r2 = l3 + r3;
    let r1 = l2 + r2;
    lemma_quoted_no_newline(m.serial_path);
    lemma_quoted_no_newline(parity_keyword(m.parity));
    lemma_digits_no_newline(m.baudrate as nat);
    lemma_digits_no_newline(m.data_bits as nat);
    lemma_digits_no_newline(m.stop_bits as nat);
    lemma_digits_no_newline(m.aux_pin as nat);
    lemma_digits_no_newline(m.m0_pin as nat);
    lemma_digits_no_newline(m.m1_pin as nat);
    assert(spec_toml(m) =~= l1 + r1);
    lemma_parse_field_line(key_serial_path(), v1, r1);
    assert(parse_field(spec_toml(m), key_serial_path()) == Some((v1, r1)));
    crate::text::lemma_quoted_round_trip(m.serial_path);
    assert(r1 =~= l2 + r2);
    lemma_parse_field_line(key_baudrate(), v2, r2);
    crate::text::lemma_render_nat_val(m.baudrate as nat);
    assert(crate::text::spec_parse_u32(v2) == Some(m.baudrate));
    assert(r2 =~= l3 + r3);
    lemma_parse_field_line(key_parity(), v3, r3);
    crate::text::lemma_quoted_round_trip(parity_keyword(m.parity));
    assert(spec_parse_parity(v3) == Some(m.parity));
    assert(r3 =~= l4 + r4);
    lemma_parse_field_line(key_data_bits(), v4, r4);
    crate::text::lemma_render_nat_val(m.data_bits as nat);
    assert(crate::text::spec_parse_u8(v4) == Some(m.data_bits));
    assert(r4 =~= l5 + r5);
    lemma_parse_field_line(key_stop_bits(), v5, r5);
    crate::text::lemma_render_nat_val(m.stop_bits as nat);
    assert(crate::text::spec_parse_u8(v5) == Some(m.stop_bits));
    assert(r5 =~= l6 + r6);
    lemma_parse_field_line(key_aux_pin(), v6, r6);
    crate::text::lemma_render_nat_val(m.aux_pin as nat);
    assert(crate::text::spec_parse_u8(v6) == Some(m.aux_pin));
    assert(r6 =~= l7 + r7);
    lemma_parse_field_line(key_m0_pin(), v7, r7);
    crate::text::lemma_render_nat_val(m.m0_pin as nat);
    assert(crate::text::spec_parse_u8(v7) == Some(m.m0_pin));
    assert(r7 =~= l8 + r8);
    lemma_parse_field_line(key_m1_pin(), v8, r8);
    crate::text::lemma_render_nat_val(m.m1_pin as nat);
    assert(crate::text::spec_parse_u8(v8) == Some(m.m1_pin));
    assert(r8.len() == 0);
    assert(spec_parse_config(spec_toml(m)) == Some(m));
}

/// Every configuration a file parses into is well formed, so it can be
/// rendered and parsed again unchanged.
pub proof fn lemma_parse_config_wf(s: Seq<u8>)
    ensures
        spec_parse_config(s) matches Some(m) ==> m.wf(),
{
    if spec_parse_config(s) is Some {
        let m = spec_parse_config(s)->Some_0;
        let f1 = parse_field(s, key_serial_path());
        let v1 = f1->Some_0.0;
        assert(m.serial_path == crate::text::spec_parse_quoted(v1)->Some_0);
        assert(forall|i: int|
            0 <= i < m.serial_path.len() ==> plain_string_byte(#[trigger] m.serial_path[i]));
    }
}

/// Loading a file and rendering the result yields a file that parses
/// back into exactly the loaded value.
pub proof fn lemma_load_render_round_trip(t: Seq<u8>)
    ensures
        spec_parse_config(t) matches Some(m) ==> spec_parse_config(spec_toml(m)) == Some(m),
{
    lemma_parse_config_wf(t);
    if spec_parse_config(t) is Some {
        lemma_config_round_trip(spec_parse_config(t)->Some_0);
    }
}

/// The default configuration is well formed, and the fallback text
/// printed for a missing file parses back into exactly the default.
pub proof fn lemma_default_round_trip()
    ensures
        spec_default_config().wf(),
        spec_parse_config(spec_toml(spec_default_config())) == Some(spec_default_config()),
{
    reveal_strlit("/dev/ttyAMA0");
    assert(spec_default_config().wf());
    lemma_config_round_trip(spec_default_config());
}

fn key_serial_path_bytes() -> (r: &'static [u8])
    ensures
        r@ == key_serial_path(),
{
    let s: &str = "serial_path = ";
    proof {
        reveal_strlit("serial_path = ");
        assert(vstd::string::is_ascii(s));
        vstd::string::is_ascii_spec_bytes(s);
    }
    let r = s.as_bytes();
    proof {
        assert(r@ =~= key_serial_path());
    }
    r
}

fn key_baudrate_bytes() -> (r: &'static [u8])
    ensures
        r@ == key_baudrate(),
{
    let s: &str = "baudrate = ";
    proof {
        reveal_strlit("baudrate = ");
        assert(vstd::string::is_ascii(s));
        vstd::string::is_ascii_spec_bytes(s);
    }
    let r = s.as_bytes();
    proof {
        assert(r@ =~= key_baudrate());
    }
    r
}

fn key_parity_bytes() -> (r: &'static [u8])
    ensures
        r@ == key_parity(),
{
    let s: &str = "parity = ";
    proof {
        reveal_strlit("parity = ");
        assert(vstd::string::is_ascii(s));
        vstd::string::is_ascii_spec_bytes(s);
    }
    let r = s.as_bytes();
    proof {
        assert(r@ =~= key_parity());
    }
    r
}

fn key_data_bits_bytes() -> (r: &'static [u8])
    ensures
        r@ == key_data_bits(),
{
    let s: &str = "data_bits = ";
    proof {
        reveal_strlit("data_bits = ");
        assert(vstd::string::is_ascii(s));
        vstd::string::is_ascii_spec_bytes(s);
    }
    let r = s.as_bytes();
    proof {
        assert(r@ =~= key_data_bits());
    }
    r
}

fn key_stop_bits_bytes() -> (r: &'static [u8])
    ensures
        r@ == key_stop_bits(),
{
    let s: &str = "stop_bits = ";
    proof {
        reveal_strlit("stop_bits = ");
        assert(vstd::string::is_ascii(s));
        vstd::string::is_ascii_spec_bytes(s);
    }
    let r = s.as_bytes();
    proof {
        assert(r@ =~= key_stop_bits());
    }
    r
}

fn key_aux_pin_bytes() -> (r: &'static [u8])
    ensures
        r@ == key_aux_pin(),
{
    let s: &str = "aux_pin = ";
    proof {
        reveal_strlit("aux_pin = ");
        assert(vstd::string::is_ascii(s));
        vstd::string::is_ascii_spec_bytes(s);
    }
    let r = s.as_bytes();
    proof {
        assert(r@ =~= key_aux_pin());
    }
    r
}

fn key_m0_pin_bytes() -> (r: &'static [u8])
    ensures
        r@ == key_m0_pin(),
{
    let s: &str = "m0_pin = ";
    proof {
        reveal_strlit("m0_pin = ");
        assert(vstd::string::is_ascii(s));
        vstd::string::is_ascii_spec_bytes(s);
    }
    let r = s.as_bytes();
    proof {
        assert(r@ =~= key_m0_pin());
    }
    r
}

fn key_m1_pin_bytes() -> (r: &'static [u8])
    ensures
        r@ == key_m1_pin(),
{
    let s: &str = "m1_pin = ";
    proof {
        reveal_strlit("m1_pin = ");
        assert(vstd::string::is_ascii(s));
        vstd::string::is_ascii_spec_bytes(s);
    }
    let r = s.as_bytes();
    proof {
        assert(r@ =~= key_m1_pin());
    }
    r
}

fn parity_keyword_bytes(p: Parity) -> (r: &'static [u8])
    ensures
        r@ == parity_keyword(p),
{
    match p {
        Parity::Off => {
            let s: &str = "None";
            proof {
                reveal_strlit("None");
                assert(vstd::string::is_ascii(s));
                vstd::string::is_ascii_spec_bytes(s);
            }
            let r = s.as_bytes();
            proof {
                assert(r@ =~= parity_keyword(p));
            }
            r
        },
        Parity::Even => {
            let s: &str = "Even";
            proof {
                reveal_strlit("Even");
                assert(vstd::string::is_ascii(s));
                vstd::string::is_ascii_spec_bytes(s);
            }
            let r = s.as_bytes();
            proof {
                assert(r@ =~= parity_keyword(p));
            }
            r
        },
        Parity::Odd => {
            let s: &str = "Odd";
            proof {
                reveal_strlit("Odd");
                assert(vstd::string::is_ascii(s));
                vstd::string::is_ascii_spec_bytes(s);
            }
            let r = s.as_bytes();
            proof {
                assert(r@ =~= parity_keyword(p));
            }
            r
        },
    }
}

/// Appends all bytes of `s` to `out`.
fn push_bytes(out: &mut Vec<u8>, s: &[u8])
    ensures
        final(out)@ == old(out)@ + s@,
{
    let mut i: usize = 0;
    while i < s.len()
        invariant
            0 <= i <= s@.len(),
            out@ == old(out)@ + s@.subrange(0, i as int),
        decreases s@.len() - i,
    {
        out.push(*vstd::slice::slice_index_get(s, i));
        proof {
            assert(out@ =~= old(out)@ + s@.subrange(0, i as int + 1));
        }
        i = i + 1;
    }
    proof {
        assert(out@ =~= old(out)@ + s@);
    }
}

/// Renders a configuration in the canonical file format.
pub fn to_toml(c: &Config) -> (r: Vec<u8>)
    ensures
        r@ == spec_toml(c@),
{
    let mut out: Vec<u8> = Vec::new();
    push_bytes(&mut out, key_serial_path_bytes());
    out.push(34);
    push_bytes(&mut out, c.serial_path.as_slice());
    out.push(34);
    out.push(10);
    proof {
        assert(out@ =~= spec_line(
            key_serial_path(),
            crate::text::spec_render_quoted(c@.serial_path),
        ));
    }
    let ghost part1 = out@;
    push_bytes(&mut out, key_baudrate_bytes());
    crate::text::push_render_u32(&mut out, c.baudrate);
    out.push(10);
    proof {
        assert(out@ =~= part1 + spec_line(
            key_baudrate(),
            crate::text::spec_render_nat(c@.baudrate as nat),
        ));
    }
    let ghost part2 = out@;
    push_bytes(&mut out, key_parity_bytes());
    out.push(34);
    push_bytes(&mut out, parity_keyword_bytes(c.parity));
    out.push(34);
    out.push(10);
    proof {
        assert(out@ =~= part2 + spec_line(
            key_parity(),
            crate::text::spec_render_quoted(parity_keyword(c@.parity)),
        ));
    }
    let ghost part3 = out@;
    push_bytes(&mut out, key_data_bits_bytes());
    crate::text::push_render_u32(&mut out, c.data_bits as u32);
    out.push(10);
    proof {
        assert(out@ =~= part3 + spec_line(
            key_data_bits(),
            crate::text::spec_render_nat(c@.data_bits as nat),
        ));
    }
    let ghost part4 = out@;
    push_bytes(&mut out, key_stop_bits_bytes());
    crate::text::push_render_u32(&mut out, c.stop_bits as u32);
    out.push(10);
    proof {
        assert(out@ =~= part4 + spec_line(
            key_stop_bits(),
            crate::text::spec_render_nat(c@.stop_bits as nat),
        ));
    }
    let ghost part5 = out@;
    push_bytes(&mut out, key_aux_pin_bytes());
    crate::text::push_render_u32(&mut out, c.aux_pin as u32);
    out.push(10);
    proof {
        assert(out@ =~= part5 + spec_line(
            key_aux_pin(),
            crate::text::spec_render_nat(c@.aux_pin as nat),
        ));
    }
    let ghost part6 = out@;
    push_bytes(&mut out, key_m0_pin_bytes());
    crate::text::push_render_u32(&mut out, c.m0_pin as u32);
    out.push(10);
    proof {
        assert(out@ =~= part6 + spec_line(
            key_m0_pin(),
            crate::text::spec_render_nat(c@.m0_pin as nat),
        ));
    }
    let ghost part7 = out@;
    push_bytes(&mut out, key_m1_pin_bytes());
    crate::text::push_render_u32(&mut out, c.m1_pin as u32);
    out.push(10);
    proof {
        assert(out@ =~= part7 + spec_line(
            key_m1_pin(),
            crate::text::spec_render_nat(c@.m1_pin as nat),
        ));
        assert(out@ =~= spec_toml(c@));
    }
    out
}

/// The canonical rendering of the default configuration, printed as
/// guidance when no configuration file can be read.
pub fn default_toml() -> (r: Vec<u8>)
    ensures
        r@ == spec_toml(spec_default_config()),
{
    let c = Config::default();
    to_toml(&c)
}

fn take_line_exec(s: &[u8]) -> (r: Option<(&[u8], &[u8])>)
    ensures
        r is Some <==> crate::text::take_line(s@) is Some,
        r matches Some(p) ==> crate::text::take_line(s@) == Some((p.0@, p.1@)),
{
    let mut i: usize = 0;
    while i < s.len()
        invariant
            0 <= i <= s@.len(),
            forall|j: int| 0 <= j < i ==> s@[j] != 10,
        decreases s@.len() - i,
    {
        if *vstd::slice::slice_index_get(s, i) == 10 {
            proof {
                crate::text::lemma_find_byte_at(s@, crate::text::newline(), i as int);
            }
            let line = vstd::slice::slice_subrange(s, 0, i);
            let rest = vstd::slice::slice_subrange(s, i + 1, s.len());
            return Some((line, rest));
        }
        i = i + 1;
    }
    proof {
        crate::text::lemma_find_byte_none(s@, crate::text::newline());
    }
    None
}

fn parse_field_exec<'a>(s: &'a [u8], prefix: &[u8]) -> (r: Option<(&'a [u8], &'a [u8])>)
    ensures
        r is Some <==> parse_field(s@, prefix@) is Some,
        r matches Some(p) ==> parse_field(s@, prefix@) == Some((p.0@, p.1@)),
{
    match take_line_exec(s) {
        None => None,
        Some((line, rest)) => match crate::text::strip_prefix(line, prefix) {
            None => None,
            Some(value) => Some((value, rest)),
        },
    }
}

fn parse_parity_bytes_exec(s: &[u8]) -> (r: Option<Parity>)
    ensures
        r == spec_parse_parity(s@),
{
    match crate::text::parse_quoted_bytes(s) {
        None => None,
        Some(k) => {
            if crate::text::bytes_eq(k.as_slice(), parity_keyword_bytes(Parity::Off)) {
                Some(Parity::Off)
            } else if crate::text::bytes_eq(k.as_slice(), parity_keyword_bytes(Parity::Even)) {
                Some(Parity::Even)
            } else if crate::text::bytes_eq(k.as_slice(), parity_keyword_bytes(Parity::Odd)) {
                Some(Parity::Odd)
            } else {
                None
            }
        },
    }
}

/// Loads a configuration from the bytes of its file.
///
/// Succeeds exactly on the files that [`spec_parse_config`] accepts and
/// returns exactly the configuration they denote.
pub fn parse_config(input: &[u8]) -> (r: Option<Config>)
    ensures
        r is Some <==> spec_parse_config(input@) is Some,
        r matches Some(c) ==> spec_parse_config(input@) == Some(c@),
{
    let f1 = match parse_field_exec(input, key_serial_path_bytes()) {
        None => {
            return None;
        },
        Some(p) => p,
    };
    let serial_path = match crate::text::parse_quoted_bytes(f1.0) {
        None => {
            return None;
        },
        Some(v) => v,
    };
    let f2 = match parse_field_exec(f1.1, key_baudrate_bytes()) {
        None => {
            return None;
        },
        Some(p) => p,
    };
    let baudrate = match crate::text::parse_u32_bytes(f2.0) {
        None => {
            return None;
        },
        Some(v) => v,
    };
    let f3 = match parse_field_exec(f2.1, key_parity_bytes()) {
        None => {
            return None;
        },
        Some(p) => p,
    };
    let parity = match parse_parity_bytes_exec(f3.0) {
        None => {
            return None;
        },
        Some(v) => v,
    };
    let f4 = match parse_field_exec(f3.1, key_data_bits_bytes()) {
        None => {
            return None;
        },
        Some(p) => p,
    };
    let data_bits = match crate::text::parse_u8_bytes(f4.0) {
        None => {
            return None;
        },
        Some(v) => v,
    };
    let f5 = match parse_field_exec(f4.1, key_stop_bits_bytes()) {
        None => {
            return None;
        },
        Some(p) => p,
    };
    let stop_bits = match crate::text::parse_u8_bytes(f5.0) {
        None => {
            return None;
        },
        Some(v) => v,
    };
    let f6 = match parse_field_exec(f5.1, key_aux_pin_bytes()) {
        None => {
            return None;
        },
        Some(p) => p,
    };
    let aux_pin = match crate::text::parse_u8_bytes(f6.0) {
        None => {
            return None;
        },
        Some(v) => v,
    };
    let f7 = match parse_field_exec(f6.1, key_m0_pin_bytes()) {
        None => {
            return None;
        },
        Some(p) => p,
    };
    let m0_pin = match crate::text::parse_u8_bytes(f7.0) {
        None => {
            return None;
        },
        Some(v) => v,
    };
    let f8 = match parse_field_exec(f7.1, key_m1_pin_bytes()) {
        None => {
            return None;
        },
        Some(p) => p,
    };
    let m1_pin = match crate::text::parse_u8_bytes(f8.0) {
        None => {
            return None;
        },
        Some(v) => v,
    };
    if f8.1.len() != 0 {
        return None;
    }
    Some(
        Config {
            serial_path,
            baudrate,
            parity,
            data_bits,
            stop_bits,
            aux_pin,
            m0_pin,
            m1_pin,
        },
    )
}

} // verus!
