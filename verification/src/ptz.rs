//! Store of the latest tracking sample of one camera head.
//!
//! The store keeps exactly one sample. Publishing replaces it as a whole, so
//! a reader never sees fields of two different publications; samples that
//! nobody read before the next one arrived are lost on purpose.

use vstd::prelude::*;
use crate::freed::{spec_decode, spec_zero, DecodeError, FreeD};

verus! {

/// Port below the ports on which the camera heads send their tracking data.
pub const BASE_PORT: u16 = 5550;

/// Highest number of a camera head.
pub const MAX_PTZ: u8 = 6;

/// One camera head and its latest tracking sample.
pub struct Ptz {
    num: u8,
    latest_freed_data: FreeD,
}

impl Ptz {
    #[verifier::type_invariant]
    spec fn well_formed(self) -> bool {
        self.num <= 6
    }

    /// Number of the camera head.
    pub closed spec fn spec_num(self) -> u8 {
        self.num
    }

    /// The sample that was published last.
    pub closed spec fn spec_snapshot(self) -> FreeD {
        self.latest_freed_data
    }

    /// The store of camera head `ptz_num`, holding the all-zero sample.
    pub fn new(ptz_num: u8) -> (r: Ptz)
        requires
            ptz_num <= 6,
        ensures
            r.spec_num() == ptz_num,
            r.spec_snapshot() == spec_zero(),
    {
        Ptz { num: ptz_num, latest_freed_data: FreeD::zero() }
    }

    /// The store of camera head `ptz_num`, if there is such a head.
    pub fn try_new(ptz_num: u8) -> (r: Option<Ptz>)
        ensures
            ptz_num <= 6 ==> r is Some && r->0.spec_num() == ptz_num && r->0.spec_snapshot()
                == spec_zero(),
            ptz_num > 6 ==> r is None,
    {
        if ptz_num <= MAX_PTZ {
            Some(Ptz::new(ptz_num))
        } else {
            None
        }
    }

    /// Port on which this camera head sends its tracking data.
    pub fn port(&self) -> (r: u16)
        ensures
            r == 5550 + self.spec_num(),
    {
        proof {
            use_type_invariant(self);
        }
        BASE_PORT + self.num as u16
    }

    /// Publishes `freed`: it replaces the stored sample as a whole.
    pub fn set_freed_data(&mut self, freed: FreeD)
        ensures
            final(self).spec_snapshot() == freed,
            final(self).spec_num() == old(self).spec_num(),
    {
        proof {
            use_type_invariant(&*self);
        }
        self.latest_freed_data = freed;
    }

    /// Decodes one datagram and publishes the sample that it carries. A
    /// datagram that does not decode leaves the store as it was.
    pub fn receive(&mut self, datagram: &[u8]) -> (r: Result<(), DecodeError>)
        ensures
            final(self).spec_num() == old(self).spec_num(),
            match spec_decode(datagram@) {
                Ok(sample) => r == Ok::<(), DecodeError>(()) && final(self).spec_snapshot()
                    == sample,
                Err(e) => r == Err::<(), DecodeError>(e) && final(self).spec_snapshot() == old(
                    self,
                ).spec_snapshot(),
            },
    {
        match FreeD::try_from(datagram) {
            Ok(sample) => {
                self.set_freed_data(sample);
                Ok(())
            },
            Err(e) => Err(e),
        }
    }

    /// The sample that was published last, whole.
    pub fn snapshot(&self) -> (r: FreeD)
        ensures
            r == self.spec_snapshot(),
    {
        self.latest_freed_data
    }

    /// Number of the camera head.
    pub fn num(&self) -> (r: u8)
        ensures
            r == self.spec_num(),
            r <= 6,
    {
        proof {
            use_type_invariant(self);
        }
        self.num
    }

    /// The two angles and the zoom that the camera model takes from the
    /// latest sample, the angles in units of 1/32768 degree.
    ///
    /// The first angle is the tilt of the head: it turns the camera about its
    /// `x` axis. The second is the pan of the head: it turns the camera about
    /// its `y` axis, which points upwards where the tracking data has `z`.
    /// The roll of the head is not used.
    pub fn yaw_pitch_zoom(&self) -> (r: (i32, i32, u32))
        ensures
            r == (self.spec_snapshot().tilt, self.spec_snapshot().pan, self.spec_snapshot().zoom),
    {
        (self.latest_freed_data.tilt, self.latest_freed_data.pan, self.latest_freed_data.zoom)
    }
}

} // verus!
