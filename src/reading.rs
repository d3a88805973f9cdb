use vstd::prelude::*;

verus! {

/// One phase's derived measurement.
///
/// The five measured quantities are IEEE 754 binary32 values held as their
/// bit patterns (`f32::to_bits`), which is also how they are stored on disk;
/// the pattern `0` is positive zero.
#[derive(Clone, Copy, Debug, PartialEq, Eq, Structural)]
pub struct CTReading {
    pub real_power: u32,
    pub apparent_power: u32,
    pub i_rms: u32,
    pub v_rms: u32,
    pub kwh: u32,
    /// Milliseconds since the epoch.
    pub timestamp: u64,
}

/// The reading with every field zero.
pub open spec fn zero_reading() -> CTReading {
    CTReading { real_power: 0, apparent_power: 0, i_rms: 0, v_rms: 0, kwh: 0, timestamp: 0 }
}

impl CTReading {
    /// A reading with every field zero.
    pub fn zero() -> (r: CTReading)
        ensures
            r == zero_reading(),
    {
        CTReading { real_power: 0, apparent_power: 0, i_rms: 0, v_rms: 0, kwh: 0, timestamp: 0 }
    }

    /// Clears every field, energy and timestamp included (a period boundary).
    pub fn reset(&mut self)
        ensures
            *final(self) == zero_reading(),
    {
        self.i_rms = 0;
        self.v_rms = 0;
        self.real_power = 0;
        self.apparent_power = 0;
        self.kwh = 0;
        self.timestamp = 0;
    }
}

/// Calibration of a current channel (binary32 bit patterns).
#[derive(Clone, Copy, Debug, PartialEq, Eq, Structural)]
pub struct CurrentCalibration {
    /// Scales raw ADC units to amperes.
    pub ical: u32,
    /// Running estimate of the channel's DC offset, in ADC units.
    pub offset_i: u32,
}

/// Calibration of a voltage channel (binary32 bit patterns).
#[derive(Clone, Copy, Debug, PartialEq, Eq, Structural)]
pub struct VoltageCalibration {
    /// Scales raw ADC units to volts.
    pub vcal: u32,
    /// Interpolation coefficient that compensates the delay between the
    /// sequential current and voltage reads.
    pub phase_cal: u32,
    /// Running estimate of the channel's DC offset, in ADC units.
    pub offset_v: u32,
}

/// A phase unit: its id, the calibration of its two channels and the
/// reading merged over the current save period.
pub struct CT {
    id: u16,
    current: CurrentCalibration,
    voltage: VoltageCalibration,
    reading: CTReading,
}

impl CT {
    /// A phase unit with the given id and calibration, and a zero reading.
    pub fn new(id: u16, current: CurrentCalibration, voltage: VoltageCalibration) -> (r: CT)
        ensures
            r.spec_id() == id,
            r.spec_current() == current,
            r.spec_voltage() == voltage,
            r.spec_reading() == zero_reading(),
    {
        CT { id, current, voltage, reading: CTReading::zero() }
    }

    pub closed spec fn spec_id(&self) -> u16 {
        self.id
    }

    pub closed spec fn spec_current(&self) -> CurrentCalibration {
        self.current
    }

    pub closed spec fn spec_voltage(&self) -> VoltageCalibration {
        self.voltage
    }

    pub closed spec fn spec_reading(&self) -> CTReading {
        self.reading
    }

    /// The phase id.
    pub fn id(&self) -> (r: u16)
        ensures
            r == self.spec_id(),
    {
        self.id
    }

    /// The current channel's calibration.
    pub fn current_calibration(&self) -> (r: CurrentCalibration)
        ensures
            r == self.spec_current(),
    {
        self.current
    }

    /// The voltage channel's calibration.
    pub fn voltage_calibration(&self) -> (r: VoltageCalibration)
        ensures
            r == self.spec_voltage(),
    {
        self.voltage
    }

    /// Stores the DC offsets refined by a sampling window; the calibration
    /// ratios and the phase coefficient stay as they were.
    pub fn set_offsets(&mut self, offset_i: u32, offset_v: u32)
        ensures
            final(self).spec_id() == old(self).spec_id(),
            final(self).spec_reading() == old(self).spec_reading(),
            final(self).spec_current() == (CurrentCalibration { offset_i, ..old(self).spec_current() }),
            final(self).spec_voltage() == (VoltageCalibration { offset_v, ..old(self).spec_voltage() }),
    {
        self.current.offset_i = offset_i;
        self.voltage.offset_v = offset_v;
    }

    /// The reading merged over the current save period.
    pub fn reading(&self) -> (r: CTReading)
        ensures
            r == self.spec_reading(),
    {
        self.reading
    }

    /// Replaces the merged reading; id and calibration stay as they were.
    pub fn set_reading(&mut self, reading: CTReading)
        ensures
            final(self).spec_reading() == reading,
            final(self).spec_id() == old(self).spec_id(),
            final(self).spec_current() == old(self).spec_current(),
            final(self).spec_voltage() == old(self).spec_voltage(),
    {
        self.reading = reading;
    }

    /// Clears the merged reading (a period boundary).
    pub fn reset(&mut self)
        ensures
            final(self).spec_reading() == zero_reading(),
            final(self).spec_id() == old(self).spec_id(),
            final(self).spec_current() == old(self).spec_current(),
            final(self).spec_voltage() == old(self).spec_voltage(),
    {
        self.reading.reset();
    }
}

} // verus!
