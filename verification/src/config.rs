//! The settings of a diagnostic run.

use vstd::prelude::*;

verus! {

/// The classes of compute device that a run can ask for.
#[derive(Clone, Copy, Debug, PartialEq, Eq, Structural)]
pub enum DeviceType {
    Default,
    Cpu,
    Gpu,
    Accelerator,
    Custom,
    All,
}

/// How often the standard run repeats its loop.
pub const ITERATION_COUNT: i32 = 1;

/// The size, in elements, of each buffer of the standard run.
pub const ELEM_COUNT: usize = 1_000_000;

/// The class of device that the standard run asks for.
pub const DEVICE_TYPE: DeviceType = DeviceType::Gpu;

/// The settings of a run.
#[derive(Clone, Copy, Debug, PartialEq, Eq, Structural)]
pub struct Config {
    /// How often the loop is repeated; a count below one gives no iteration.
    pub iteration_count: i32,
    /// The size of each buffer, in elements.
    pub elem_count: usize,
    /// The class of device to run on.
    pub device_type: DeviceType,
}

impl Config {
    /// The number of iterations that a run with these settings makes.
    pub open spec fn iterations(self) -> nat {
        if self.iteration_count > 0 {
            self.iteration_count as nat
        } else {
            0
        }
    }

    /// The settings of the standard run.
    pub fn standard() -> (config: Config)
        ensures
            config == (Config {
                iteration_count: ITERATION_COUNT,
                elem_count: ELEM_COUNT,
                device_type: DEVICE_TYPE,
            }),
    {
        Config {
            iteration_count: ITERATION_COUNT,
            elem_count: ELEM_COUNT,
            device_type: DEVICE_TYPE,
        }
    }
}

} // verus!
