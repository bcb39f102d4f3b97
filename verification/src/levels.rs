//! Levels shared between the interface and the audio callback: volume, speed, meter
//! peaks and the interpolation mode. Each value sits in its own atomic cell; the
//! floating-point values are kept as their bit patterns, which callers convert.
use std::sync::Arc;
use std::sync::atomic::AtomicU32;
use vstd::prelude::*;

verus! {

/// The bit pattern of the floating-point value 1.0.
pub const UNITY_BITS: u32 = 0x3F80_0000;

/// Shared level cells; clones share the same cells.
#[derive(Clone)]
pub struct AudioLevels {
    volume: Arc<AtomicU32>,
    speed: Arc<AtomicU32>,
    peak_l: Arc<AtomicU32>,
    peak_r: Arc<AtomicU32>,
    display_l: Arc<AtomicU32>,
    display_r: Arc<AtomicU32>,
    interp: Arc<AtomicU32>,
}

impl AudioLevels {
    /// Fresh cells: volume and speed at 1.0, meters at 0, interpolation mode 0. The cells
    /// are shared with other threads, so nothing is promised of what a later read sees.
    pub fn new() -> Self {
        AudioLevels {
            volume: Arc::new(AtomicU32::new(UNITY_BITS)),
            speed: Arc::new(AtomicU32::new(UNITY_BITS)),
            peak_l: Arc::new(AtomicU32::new(0)),
            peak_r: Arc::new(AtomicU32::new(0)),
            display_l: Arc::new(AtomicU32::new(0)),
            display_r: Arc::new(AtomicU32::new(0)),
            interp: Arc::new(AtomicU32::new(0)),
        }
    }

    /// The interpolation mode last stored by any thread.
    /// The cells are shared with other threads and the value an atomic holds is not
    /// modelled, so nothing is promised of what this read returns.
    pub fn interpolation(&self) -> u32 {
        self.interp.load(std::sync::atomic::Ordering::Relaxed)
    }

    pub fn set_interpolation(&self, mode: u32) {
        self.interp.store(mode, std::sync::atomic::Ordering::Relaxed);
    }

    /// The bit pattern of the volume.
    /// The cells are shared with other threads and the value an atomic holds is not
    /// modelled, so nothing is promised of what this read returns.
    pub fn volume_bits(&self) -> u32 {
        self.volume.load(std::sync::atomic::Ordering::Relaxed)
    }

    pub fn set_volume_bits(&self, bits: u32) {
        self.volume.store(bits, std::sync::atomic::Ordering::Relaxed);
    }

    /// The bit pattern of the playback speed.
    /// The cells are shared with other threads and the value an atomic holds is not
    /// modelled, so nothing is promised of what this read returns.
    pub fn speed_bits(&self) -> u32 {
        self.speed.load(std::sync::atomic::Ordering::Relaxed)
    }

    pub fn set_speed_bits(&self, bits: u32) {
        self.speed.store(bits, std::sync::atomic::Ordering::Relaxed);
    }

    /// The bit patterns of the raw left and right meter peaks.
    /// The cells are shared with other threads and the value an atomic holds is not
    /// modelled, so nothing is promised of what this read returns.
    pub fn peak_bits(&self) -> (u32, u32) {
        (
            self.peak_l.load(std::sync::atomic::Ordering::Relaxed),
            self.peak_r.load(std::sync::atomic::Ordering::Relaxed),
        )
    }

    pub fn set_peak_bits(&self, l: u32, r: u32) {
        self.peak_l.store(l, std::sync::atomic::Ordering::Relaxed);
        self.peak_r.store(r, std::sync::atomic::Ordering::Relaxed);
    }

    /// The bit patterns of the displayed (smoothed) left and right meter values.
    /// The cells are shared with other threads and the value an atomic holds is not
    /// modelled, so nothing is promised of what this read returns.
    pub fn display_bits(&self) -> (u32, u32) {
        (
            self.display_l.load(std::sync::atomic::Ordering::Relaxed),
            self.display_r.load(std::sync::atomic::Ordering::Relaxed),
        )
    }

    pub fn set_display_bits(&self, l: u32, r: u32) {
        self.display_l.store(l, std::sync::atomic::Ordering::Relaxed);
        self.display_r.store(r, std::sync::atomic::Ordering::Relaxed);
    }
}

} // verus!
