use vstd::prelude::*;

verus! {

/// How the receive gain is controlled.
#[derive(PartialEq, Eq, Structural, Clone, Copy, Debug)]
pub enum GainMode {
    /// The device's default mode.
    Default,
    /// Manual gain control: the gain is set explicitly.
    Manual,
    /// Automatic gain control with fast attack.
    FastAttackAgc,
    /// Automatic gain control with slow attack.
    SlowAttackAgc,
    /// Hybrid automatic gain control.
    HybridAgc,
}

/// The logic capacity of the device's FPGA, which decides its default image.
#[derive(PartialEq, Eq, Structural, Clone, Copy, Debug)]
pub enum FpgaSize {
    Unknown,
    Kle40,
    Kle115,
    A4,
    A5,
    A9,
}

/// One interleaved complex sample.
#[allow(non_camel_case_types)]
#[derive(Clone, Copy, Debug)]
pub struct iq {
    pub i: i16,
    pub q: i16,
}

/// The tunables of one module of the radio.
#[derive(Clone, Debug)]
pub struct BladeRFModuleConfig {
    pub frequency: u32,
    pub sample_rate: u32,
    pub bandwidth: u32,
    pub lna_gain: GainMode,
    pub vga1: i32,
    pub vga2: i32,
}

/// The tunables of both modules of the radio.
#[derive(Clone, Debug)]
pub struct BladeRFConfig {
    pub tx: BladeRFModuleConfig,
    pub rx: BladeRFModuleConfig,
}

/// The gain mode a configuration name selects; unrecognised names keep the default.
pub open spec fn gain_mode_named(name: Seq<char>) -> GainMode {
    if name == "manual"@ {
        GainMode::Manual
    } else if name == "fast"@ {
        GainMode::FastAttackAgc
    } else if name == "slow"@ {
        GainMode::SlowAttackAgc
    } else if name == "hybrid"@ {
        GainMode::HybridAgc
    } else {
        GainMode::Default
    }
}

impl GainMode {
    /// Reads a gain mode from its configuration name: `default`, `manual`,
    /// `fast`, `slow` or `hybrid`. Any other name leaves the default mode.
    pub fn from_name(name: &str) -> (r: GainMode)
        ensures
            r == gain_mode_named(name@),
    {
        let name = String::from_str(name);
        if name == String::from_str("manual") {
            GainMode::Manual
        } else if name == String::from_str("fast") {
            GainMode::FastAttackAgc
        } else if name == String::from_str("slow") {
            GainMode::SlowAttackAgc
        } else if name == String::from_str("hybrid") {
            GainMode::HybridAgc
        } else {
            GainMode::Default
        }
    }

    /// Whether the gain has to be set explicitly in this mode.
    pub fn is_manual(self) -> (r: bool)
        ensures
            r == (self == GainMode::Manual),
    {
        match self {
            GainMode::Manual => true,
            _ => false,
        }
    }
}

/// The first-stage amplifier gain used for reception.
pub const RX_VGA1: i32 = 10;

/// The second-stage amplifier gain used for reception.
pub const RX_VGA2: i32 = 6;

/// The receive module configuration for the given tunables.
pub fn rx_module_config(frequency: u32, bandwidth: u32, sample_rate: u32, lna_gain: GainMode) -> (r:
    BladeRFModuleConfig)
    ensures
        r.frequency == frequency,
        r.bandwidth == bandwidth,
        r.sample_rate == sample_rate,
        r.lna_gain == lna_gain,
        r.vga1 == RX_VGA1,
        r.vga2 == RX_VGA2,
{
    BladeRFModuleConfig { frequency, sample_rate, bandwidth, lna_gain, vga1: RX_VGA1, vga2: RX_VGA2 }
}

/// The image installed for each known FPGA size.
pub open spec fn default_image(size: FpgaSize) -> Option<Seq<char>> {
    match size {
        FpgaSize::Unknown => None,
        FpgaSize::Kle40 => Some("/usr/share/Nuand/bladeRF/adsbx40.rbf"@),
        FpgaSize::Kle115 => Some("/usr/share/Nuand/bladeRF/adsbx115.rbf"@),
        FpgaSize::A4 => Some("/usr/share/Nuand/bladeRF/adsbxA4.rbf"@),
        FpgaSize::A5 => Some("/usr/share/Nuand/bladeRF/adsbxA5.rbf"@),
        FpgaSize::A9 => Some("/usr/share/Nuand/bladeRF/adsbxA9.rbf"@),
    }
}

/// The installed image for an FPGA of the given size; `None` when the size is unknown.
pub fn default_fpga_path(size: FpgaSize) -> (r: Option<String>)
    ensures
        r is Some <==> default_image(size) is Some,
        r matches Some(p) ==> Some(p@) == default_image(size),
{
    match size {
        FpgaSize::Unknown => None,
        FpgaSize::Kle40 => Some(String::from_str("/usr/share/Nuand/bladeRF/adsbx40.rbf")),
        FpgaSize::Kle115 => Some(String::from_str("/usr/share/Nuand/bladeRF/adsbx115.rbf")),
        FpgaSize::A4 => Some(String::from_str("/usr/share/Nuand/bladeRF/adsbxA4.rbf")),
        FpgaSize::A5 => Some(String::from_str("/usr/share/Nuand/bladeRF/adsbxA5.rbf")),
        FpgaSize::A9 => Some(String::from_str("/usr/share/Nuand/bladeRF/adsbxA9.rbf")),
    }
}

/// The image to load: the configured path when one is given, else the
/// installed image for the FPGA's size; `None` when neither is known.
pub fn fpga_image_path(configured: &str, size: FpgaSize) -> (r: Option<String>)
    ensures
        configured@.len() > 0 ==> (r matches Some(p) && p@ == configured@),
        configured@.len() == 0 ==> (r is Some <==> default_image(size) is Some),
        configured@.len() == 0 ==> (r matches Some(p) ==> Some(p@) == default_image(size)),
{
    if !configured.is_empty() {
        Some(String::from_str(configured))
    } else {
        default_fpga_path(size)
    }
}

/// A device status code as a result: codes at or above zero are success and
/// carry `value`, negative codes are errors and carry the code.
pub fn status_with<T>(code: i32, value: T) -> (r: Result<T, isize>)
    ensures
        code >= 0 ==> r == Ok::<T, isize>(value),
        code < 0 ==> r == Err::<T, isize>(code as isize),
{
    if code >= 0 {
        Ok(value)
    } else {
        Err(code as isize)
    }
}

/// A device status code as a result carrying the code itself either way.
pub fn status_code(code: i32) -> (r: Result<isize, isize>)
    ensures
        code >= 0 ==> r == Ok::<isize, isize>(code as isize),
        code < 0 ==> r == Err::<isize, isize>(code as isize),
{
    status_with(code, code as isize)
}

/// The number of transfers a synchronous stream uses: the one asked for, else four.
pub fn transfer_count(requested: Option<u32>) -> (r: u32)
    ensures
        requested matches Some(t) ==> r == t,
        requested is None ==> r == 4,
{
    match requested {
        Some(t) => t,
        None => 4,
    }
}

} // verus!
