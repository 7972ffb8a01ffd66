//! Schema: an immutable description of what to poll and how to interpret it.
//!
//! The configuration is handed in already parsed and validated; nothing here
//! reads files. Defaults mirror what an absent field of the configuration
//! document stands for.

use vstd::prelude::*;

verus! {

/// Which of two consecutive 16-bit words is most significant when combining
/// them into a wider value.
#[derive(Debug, Clone, Copy, PartialEq, Eq, Structural)]
pub enum Endianness {
    Big,
    Little,
}

/// The two readable register banks of the remote device.
#[derive(Debug, Clone, Copy, PartialEq, Eq, Structural)]
pub enum RegisterType {
    Holding,
    Input,
}

/// Declared interpretation of the words read for one datapoint.
#[derive(Debug, Clone, Copy, PartialEq, Eq, Structural)]
pub enum DataType {
    U16,
    I16,
    U32,
    I32,
    F32,
    Bitfield,
}

/// One labelled bit of a bitfield datapoint.
#[derive(Debug, Clone)]
pub struct BitfieldConfig {
    pub bit: u8,
    pub name: String,
    pub description: Option<String>,
}

/// One declared datapoint: where to read and how to decode.
#[derive(Debug, Clone)]
pub struct DatapointConfig {
    pub name: String,
    pub address: u16,
    pub length: u16,
    pub data_type: DataType,
    pub description: Option<String>,
    pub bitfields: Option<Vec<BitfieldConfig>>,
    pub register_type: RegisterType,
}

/// The remote endpoint to poll.
#[derive(Debug, Clone)]
pub struct ServerConfig {
    pub protocol: String,
    pub host: String,
    pub port: u16,
    pub unit_id: u8,
    pub endianness: Endianness,
}

/// The whole schema: endpoint, datapoints in declared order, scan cadence.
#[derive(Debug, Clone)]
pub struct Config {
    pub server: ServerConfig,
    pub datapoints: Vec<DatapointConfig>,
    pub scan_interval_ms: u64,
}

impl DatapointConfig {
    /// Every declared bit index addresses a bit of a 16-bit word.
    pub open spec fn bits_wf(self) -> bool {
        self.bitfields matches Some(bs) ==> forall|i: int|
            0 <= i < bs@.len() ==> (#[trigger] bs@[i]).bit < 16
    }
}

impl Config {
    /// Every datapoint's declared bit indices are in range.
    pub open spec fn wf(self) -> bool {
        forall|i: int| 0 <= i < self.datapoints@.len() ==> (#[trigger] self.datapoints@[i]).bits_wf()
    }
}

/// Scan cadence used when the configuration document names none.
pub fn default_scan_interval() -> (r: u64)
    ensures
        r == 1000,
{
    1000
}

/// Station identifier used when the configuration document names none.
pub fn default_unit_id() -> (r: u8)
    ensures
        r == 1,
{
    1
}

/// Word order used when the configuration document names none.
pub fn default_endianness() -> (r: Endianness)
    ensures
        r == Endianness::Big,
{
    Endianness::Big
}

/// Declared type used when the configuration document names none.
pub fn default_data_type() -> (r: DataType)
    ensures
        r == DataType::U16,
{
    DataType::U16
}

/// Register bank used when the configuration document names none.
pub fn default_register_type() -> (r: RegisterType)
    ensures
        r == RegisterType::Holding,
{
    RegisterType::Holding
}

} // verus!
