use vstd::prelude::*;

verus! {

/// How long one read of the channel may wait for data, in milliseconds.
pub const READ_TIMEOUT_MS: u64 = 10;

#[derive(Debug, Clone, Copy, PartialEq, Eq, Structural)]
pub enum DataBits {
    Five,
    Six,
    Seven,
    Eight,
}

#[derive(Debug, Clone, Copy, PartialEq, Eq, Structural)]
pub enum Parity {
    Off,
    Odd,
    Even,
}

#[derive(Debug, Clone, Copy, PartialEq, Eq, Structural)]
pub enum StopBits {
    One,
    Two,
}

#[derive(Debug, Clone, Copy, PartialEq, Eq, Structural)]
pub enum FlowControl {
    Off,
    Hardware,
    Software,
}

/// A setting given on the command line that names no known mode.
#[derive(Debug, Clone, Copy, PartialEq, Eq, Structural)]
pub enum SettingsError {
    UnknownDataBits,
    UnknownParity,
    UnknownStopBits,
    UnknownFlowControl,
}

impl SettingsError {
    /// The message shown to the user.
    pub fn message(&self) -> (r: &'static str)
        ensures
            r@ == (match *self {
                SettingsError::UnknownDataBits => "unknown data bits"@,
                SettingsError::UnknownParity => "unknown parity"@,
                SettingsError::UnknownStopBits => "unknown stop bits"@,
                SettingsError::UnknownFlowControl => "unknown flow control"@,
            }),
    {
        match self {
            SettingsError::UnknownDataBits => "unknown data bits",
            SettingsError::UnknownParity => "unknown parity",
            SettingsError::UnknownStopBits => "unknown stop bits",
            SettingsError::UnknownFlowControl => "unknown flow control",
        }
    }
}

/// Everything needed to open the serial line.
#[derive(Debug)]
pub struct SerialSettings {
    pub device: String,
    pub baud_rate: u32,
    pub data_bits: DataBits,
    pub parity: Parity,
    pub stop_bits: StopBits,
    pub flow_control: FlowControl,
    pub timeout_ms: u64,
}

pub open spec fn data_bits_of(n: u8) -> Option<DataBits> {
    if n == 5 {
        Some(DataBits::Five)
    } else if n == 6 {
        Some(DataBits::Six)
    } else if n == 7 {
        Some(DataBits::Seven)
    } else if n == 8 {
        Some(DataBits::Eight)
    } else {
        None
    }
}

/// The one character of `s`, when it has exactly one.
pub open spec fn single(s: Seq<char>) -> Option<char> {
    if s.len() == 1 {
        Some(s[0])
    } else {
        None
    }
}

pub open spec fn parity_of(s: Seq<char>) -> Option<Parity> {
    match single(s) {
        Some('N') | Some('n') => Some(Parity::Off),
        Some('O') | Some('o') => Some(Parity::Odd),
        Some('E') | Some('e') => Some(Parity::Even),
        _ => None,
    }
}

pub open spec fn stop_bits_of(n: u8) -> Option<StopBits> {
    if n == 1 {
        Some(StopBits::One)
    } else if n == 2 {
        Some(StopBits::Two)
    } else {
        None
    }
}

pub open spec fn flow_control_of(s: Seq<char>) -> Option<FlowControl> {
    match single(s) {
        Some('N') | Some('n') => Some(FlowControl::Off),
        Some('H') | Some('h') => Some(FlowControl::Hardware),
        Some('S') | Some('s') => Some(FlowControl::Software),
        _ => None,
    }
}

/// The one character of a one-character string.
fn single_char(s: &str) -> (r: Option<char>)
    ensures
        r == single(s@),
{
    if s.unicode_len() != 1 {
        return None;
    }
    Some(s.get_char(0))
}

pub fn match_data_bits(data_bits: u8) -> (r: Result<DataBits, SettingsError>)
    ensures
        match data_bits_of(data_bits) {
            Some(d) => r == Ok::<DataBits, SettingsError>(d),
            None => r == Err::<DataBits, SettingsError>(SettingsError::UnknownDataBits),
        },
{
    match data_bits {
        8 => Ok(DataBits::Eight),
        7 => Ok(DataBits::Seven),
        6 => Ok(DataBits::Six),
        5 => Ok(DataBits::Five),
        _ => Err(SettingsError::UnknownDataBits),
    }
}

/// `N`, `O` or `E`, in either case.
pub fn match_parity(parity: &str) -> (r: Result<Parity, SettingsError>)
    ensures
        match parity_of(parity@) {
            Some(p) => r == Ok::<Parity, SettingsError>(p),
            None => r == Err::<Parity, SettingsError>(SettingsError::UnknownParity),
        },
{
    match single_char(parity) {
        Some('N') | Some('n') => Ok(Parity::Off),
        Some('O') | Some('o') => Ok(Parity::Odd),
        Some('E') | Some('e') => Ok(Parity::Even),
        _ => Err(SettingsError::UnknownParity),
    }
}

pub fn match_stop_bits(stop_bits: u8) -> (r: Result<StopBits, SettingsError>)
    ensures
        match stop_bits_of(stop_bits) {
            Some(s) => r == Ok::<StopBits, SettingsError>(s),
            None => r == Err::<StopBits, SettingsError>(SettingsError::UnknownStopBits),
        },
{
    match stop_bits {
        1 => Ok(StopBits::One),
        2 => Ok(StopBits::Two),
        _ => Err(SettingsError::UnknownStopBits),
    }
}

/// `N`, `H` or `S`, in either case.
pub fn match_flow_control(flow_control: &str) -> (r: Result<FlowControl, SettingsError>)
    ensures
        match flow_control_of(flow_control@) {
            Some(f) => r == Ok::<FlowControl, SettingsError>(f),
            None => r == Err::<FlowControl, SettingsError>(SettingsError::UnknownFlowControl),
        },
{
    match single_char(flow_control) {
        Some('N') | Some('n') => Ok(FlowControl::Off),
        Some('H') | Some('h') => Ok(FlowControl::Hardware),
        Some('S') | Some('s') => Ok(FlowControl::Software),
        _ => Err(SettingsError::UnknownFlowControl),
    }
}

/// The first setting, in the order data bits, parity, stop bits, flow
/// control, that names no known mode.
pub open spec fn settings_error(
    data_bits: u8,
    parity: Seq<char>,
    stop_bits: u8,
    flow_control: Seq<char>,
) -> Option<SettingsError> {
    if data_bits_of(data_bits) is None {
        Some(SettingsError::UnknownDataBits)
    } else if parity_of(parity) is None {
        Some(SettingsError::UnknownParity)
    } else if stop_bits_of(stop_bits) is None {
        Some(SettingsError::UnknownStopBits)
    } else if flow_control_of(flow_control) is None {
        Some(SettingsError::UnknownFlowControl)
    } else {
        None
    }
}

/// Validates the command-line settings of the serial line and gathers them,
/// with the fixed read timeout; the first unknown setting is the error.
pub fn parse_serial_settings(
    device: String,
    baud_rate: u32,
    data_bits: u8,
    parity: &str,
    stop_bits: u8,
    flow_control: &str,
) -> (r: Result<SerialSettings, SettingsError>)
    ensures
        match settings_error(data_bits, parity@, stop_bits, flow_control@) {
            Some(e) => r == Err::<SerialSettings, SettingsError>(e),
            None => r is Ok && r->Ok_0.device@ == device@ && r->Ok_0.baud_rate == baud_rate
                && Some(r->Ok_0.data_bits) == data_bits_of(data_bits) && Some(r->Ok_0.parity)
                == parity_of(parity@) && Some(r->Ok_0.stop_bits) == stop_bits_of(stop_bits)
                && Some(r->Ok_0.flow_control) == flow_control_of(flow_control@)
                && r->Ok_0.timeout_ms == READ_TIMEOUT_MS,
        },
{
    let data_bits = match match_data_bits(data_bits) {
        Ok(d) => d,
        Err(e) => return Err(e),
    };
    let parity = match match_parity(parity) {
        Ok(p) => p,
        Err(e) => return Err(e),
    };
    let stop_bits = match match_stop_bits(stop_bits) {
        Ok(s) => s,
        Err(e) => return Err(e),
    };
    let flow_control = match match_flow_control(flow_control) {
        Ok(f) => f,
        Err(e) => return Err(e),
    };
    Ok(
        SerialSettings {
            device,
            baud_rate,
            data_bits,
            parity,
            stop_bits,
            flow_control,
            timeout_ms: READ_TIMEOUT_MS,
        },
    )
}

} // verus!
