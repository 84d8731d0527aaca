use crate::cell::ZERO_BITS;
use vstd::prelude::*;

verus! {

/// Which derived field a renderer is expected to draw. Only `Curl` matters to
/// the engine: the curl field is refreshed only while it is selected.
#[derive(Clone, Copy, Debug, PartialEq, Eq, Structural)]
pub enum DrawMode {
    Speed,
    XVelocity,
    YVelocity,
    Density,
    Curl,
    Nothing,
}

/// Why a configuration was refused.
#[derive(Clone, Copy, Debug, PartialEq, Eq, Structural)]
pub enum ConfigError {
    /// The width or the height is below 2, so the grid has no outer ring.
    TooSmall,
    /// The number of cells does not fit in 32 bits.
    TooLarge,
}

/// Grid dimensions and the parameters of a frame.
#[derive(Clone, Copy, Debug)]
pub struct Config {
    pub(crate) width: u32,
    pub(crate) height: u32,
    pub(crate) steps_per_frame: u8,
    pub(crate) flow_speed: u64,
    pub(crate) draw_mode: DrawMode,
    pub(crate) omega: u64,
}

impl Config {
    pub open(crate) spec fn spec_width(&self) -> int {
        self.width as int
    }

    pub open(crate) spec fn spec_height(&self) -> int {
        self.height as int
    }

    pub open(crate) spec fn spec_steps_per_frame(&self) -> int {
        self.steps_per_frame as int
    }

    pub open(crate) spec fn spec_flow_speed(&self) -> u64 {
        self.flow_speed
    }

    pub open(crate) spec fn spec_draw_mode(&self) -> DrawMode {
        self.draw_mode
    }

    pub open(crate) spec fn spec_omega(&self) -> u64 {
        self.omega
    }

    /// The configuration has exactly these six values.
    pub open spec fn holds(
        self,
        width: int,
        height: int,
        steps_per_frame: int,
        flow_speed: u64,
        draw_mode: DrawMode,
        omega: u64,
    ) -> bool {
        &&& self.spec_width() == width
        &&& self.spec_height() == height
        &&& self.spec_steps_per_frame() == steps_per_frame
        &&& self.spec_flow_speed() == flow_speed
        &&& self.spec_draw_mode() == draw_mode
        &&& self.spec_omega() == omega
    }

    /// This configuration with another draw mode.
    pub open(crate) spec fn with_draw_mode(self, draw_mode: DrawMode) -> Config {
        Config { draw_mode, ..self }
    }

    /// This configuration with another inflow speed.
    pub open(crate) spec fn with_flow_speed(self, flow_speed: u64) -> Config {
        Config { flow_speed, ..self }
    }

    /// This configuration with another number of steps per frame.
    pub open(crate) spec fn with_steps_per_frame(self, steps_per_frame: u8) -> Config {
        Config { steps_per_frame, ..self }
    }

    /// This configuration with another relaxation rate.
    pub open(crate) spec fn with_omega(self, omega: u64) -> Config {
        Config { omega, ..self }
    }

    /// The dimensions describe a grid with an outer ring whose cell count
    /// fits in 32 bits.
    pub open spec fn wf(&self) -> bool {
        &&& 2 <= self.spec_width()
        &&& 2 <= self.spec_height()
        &&& self.spec_width() * self.spec_height() <= u32::MAX
    }

    /// The dimensions that `new` takes.
    pub open spec fn dims_ok(width: u32, height: u32) -> bool {
        &&& 2 <= width
        &&& 2 <= height
        &&& width * height <= u32::MAX
    }

    /// Builds a configuration. `relaxation_rate` turns the viscosity into the
    /// relaxation rate; it is applied once, to `viscosity`.
    ///
    /// Dimensions below 2 are refused with `TooSmall`, and otherwise a cell
    /// count over `u32::MAX` with `TooLarge`.
    pub fn new<F: Fn(u64) -> u64>(
        width: u32,
        height: u32,
        steps_per_frame: u8,
        flow_speed: u64,
        draw_mode: DrawMode,
        viscosity: u64,
        relaxation_rate: F,
    ) -> (res: Result<Config, ConfigError>)
        requires
            relaxation_rate.requires((viscosity,)),
        ensures
            (width < 2 || height < 2) <==> res == Err::<Config, ConfigError>(ConfigError::TooSmall),
            (width >= 2 && height >= 2 && width * height > u32::MAX) <==> res == Err::<
                Config,
                ConfigError,
            >(ConfigError::TooLarge),
            Self::dims_ok(width, height) <==> res is Ok,
            res is Ok ==> {
                let config = res->Ok_0;
                &&& config.wf()
                &&& config.spec_width() == width
                &&& config.spec_height() == height
                &&& config.spec_steps_per_frame() == steps_per_frame
                &&& config.spec_flow_speed() == flow_speed
                &&& config.spec_draw_mode() == draw_mode
                &&& relaxation_rate.ensures((viscosity,), config.spec_omega())
            },
    {
        if width < 2 || height < 2 {
            return Err(ConfigError::TooSmall);
        }
        assert(width * height <= 0xFFFF_FFFF * 0xFFFF_FFFF) by (nonlinear_arith)
            requires
                0 <= width <= 0xFFFF_FFFF,
                0 <= height <= 0xFFFF_FFFF,
        ;
        if (width as u64) * (height as u64) > (u32::MAX as u64) {
            assert(width * height > u32::MAX);
            return Err(ConfigError::TooLarge);
        }
        let mut config = Config {
            width,
            height,
            steps_per_frame,
            flow_speed,
            draw_mode,
            omega: ZERO_BITS,
        };
        config.update_viscosity(viscosity, relaxation_rate);
        Ok(config)
    }

    /// Replaces the relaxation rate by what `relaxation_rate` makes of
    /// `viscosity`. Nothing else changes.
    pub fn update_viscosity<F: Fn(u64) -> u64>(&mut self, viscosity: u64, relaxation_rate: F)
        requires
            relaxation_rate.requires((viscosity,)),
        ensures
            old(self).wf() ==> final(self).wf(),
            relaxation_rate.ensures((viscosity,), final(self).spec_omega()),
            final(self).spec_width() == old(self).spec_width(),
            final(self).spec_height() == old(self).spec_height(),
            final(self).spec_steps_per_frame() == old(self).spec_steps_per_frame(),
            final(self).spec_flow_speed() == old(self).spec_flow_speed(),
            final(self).spec_draw_mode() == old(self).spec_draw_mode(),
    {
        let omega: u64 = relaxation_rate(viscosity);
        self.omega = omega;
    }

    pub fn width(&self) -> (w: u32)
        ensures
            w == self.spec_width(),
    {
        self.width
    }

    pub fn height(&self) -> (h: u32)
        ensures
            h == self.spec_height(),
    {
        self.height
    }

    pub fn steps_per_frame(&self) -> (n: u8)
        ensures
            n == self.spec_steps_per_frame(),
    {
        self.steps_per_frame
    }

    pub fn flow_speed(&self) -> (v: u64)
        ensures
            v == self.spec_flow_speed(),
    {
        self.flow_speed
    }

    pub fn draw_mode(&self) -> (m: DrawMode)
        ensures
            m == self.spec_draw_mode(),
    {
        self.draw_mode
    }

    pub fn omega(&self) -> (v: u64)
        ensures
            v == self.spec_omega(),
    {
        self.omega
    }
}

} // verus!
