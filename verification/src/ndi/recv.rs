//! Settings and counters of a video receiver.

use vstd::prelude::*;

verus! {

/// Current performance levels of the receiving.
///
/// This allows you determine whether frames have been dropped.
#[derive(Debug, Clone, Copy, Hash, PartialEq, Eq, Structural)]
pub struct RecvPerformance {
    /// number of video frames
    pub video_frames: i64,
    /// number of audio frames
    pub audio_frames: i64,
    /// number of metadata frames
    pub metadata_frames: i64,
}

impl RecvPerformance {
    /// The levels with the given counts.
    pub fn from_binding(video_frames: i64, audio_frames: i64, metadata_frames: i64) -> (r: Self)
        ensures
            r == (RecvPerformance { video_frames, audio_frames, metadata_frames }),
    {
        Self { video_frames, audio_frames, metadata_frames }
    }
}

impl Default for RecvPerformance {
    fn default() -> (r: Self)
        ensures
            r == (RecvPerformance { video_frames: 0, audio_frames: 0, metadata_frames: 0 }),
    {
        Self { video_frames: 0, audio_frames: 0, metadata_frames: 0 }
    }
}

/// Determines what color formats you are passed when a frame is received.
///
/// In general, there are two color formats used in any scenario: one that
/// exists when the source has an alpha channel, and another when it does not.
#[derive(Debug, Clone, Copy, PartialEq, Eq, Structural)]
#[allow(non_camel_case_types)]
pub enum RecvColorFormat {
    /// BGRX or BGRA
    BGRX_BGRA,
    /// UYVY or BGRA
    UYVY_BGRA,
    /// RGBX or RGBA
    RGBX_RGBA,
    /// UYVY or RGBA
    UYVY_RGBA,
    /// Buffers in the format that is processed internally, without any
    /// conversion. Video fields are then always allowed.
    Fastest,
    /// Buffers in the format closest to the native precision of the video
    /// codec. Video fields are then always allowed.
    Best,
}

/// Specify whether this connection is in high or low bandwidth mode.
#[derive(Debug, Clone, Copy, PartialEq, Eq, Structural)]
pub enum RecvBandwidth {
    /// Receive metadata only.
    MetadataOnly,
    /// Receive metadata + audio.
    AudioOnly,
    /// Receive metadata, audio, video at a lower bandwidth and resolution.
    Lowest,
    /// Receive metadata, audio, video at full resolution.
    Highest,
}

/// What a receiver is created with, every choice made.
#[derive(Debug, Clone)]
pub struct RecvSettings {
    pub color_format: RecvColorFormat,
    pub bandwidth: RecvBandwidth,
    pub allow_video_fields: bool,
    pub ndi_recv_name: Option<String>,
}

/// Builder for the settings of a receiver.
#[derive(Debug, Clone)]
pub struct RecvBuilder {
    color_format: Option<RecvColorFormat>,
    bandwidth: Option<RecvBandwidth>,
    allow_video_fields: Option<bool>,
    ndi_recv_name: Option<String>,
}

impl RecvBuilder {
    /// The colour format that was chosen, if any.
    pub closed spec fn spec_color_format(self) -> Option<RecvColorFormat> {
        self.color_format
    }

    /// The bandwidth mode that was chosen, if any.
    pub closed spec fn spec_bandwidth(self) -> Option<RecvBandwidth> {
        self.bandwidth
    }

    /// Whether fielded video was allowed or refused, if either.
    pub closed spec fn spec_allow_video_fields(self) -> Option<bool> {
        self.allow_video_fields
    }

    /// The name that was chosen, if any.
    pub closed spec fn spec_ndi_recv_name(self) -> Option<String> {
        self.ndi_recv_name
    }

    /// The settings that the choices `self` stand for: UYVY or BGRA, the
    /// highest bandwidth and fielded video where nothing else was chosen.
    pub open spec fn spec_settings(self) -> RecvSettings {
        RecvSettings {
            color_format: match self.spec_color_format() {
                Some(c) => c,
                None => RecvColorFormat::UYVY_BGRA,
            },
            bandwidth: match self.spec_bandwidth() {
                Some(b) => b,
                None => RecvBandwidth::Highest,
            },
            allow_video_fields: match self.spec_allow_video_fields() {
                Some(a) => a,
                None => true,
            },
            ndi_recv_name: self.spec_ndi_recv_name(),
        }
    }

    /// Create a new instance of the builder
    pub fn new() -> (r: Self)
        ensures
            r.spec_color_format() is None,
            r.spec_bandwidth() is None,
            r.spec_allow_video_fields() is None,
            r.spec_ndi_recv_name() is None,
    {
        Self { color_format: None, bandwidth: None, allow_video_fields: None, ndi_recv_name: None }
    }

    /// Choose the color format of preference
    pub fn color_format(self, color_format: RecvColorFormat) -> (r: Self)
        ensures
            r.spec_color_format() == Some(color_format),
            r.spec_bandwidth() == self.spec_bandwidth(),
            r.spec_allow_video_fields() == self.spec_allow_video_fields(),
            r.spec_ndi_recv_name() == self.spec_ndi_recv_name(),
    {
        let mut this = self;
        this.color_format = Some(color_format);
        this
    }

    /// Select a bandwidth mode
    pub fn bandwidth(self, bandwidth: RecvBandwidth) -> (r: Self)
        ensures
            r.spec_color_format() == self.spec_color_format(),
            r.spec_bandwidth() == Some(bandwidth),
            r.spec_allow_video_fields() == self.spec_allow_video_fields(),
            r.spec_ndi_recv_name() == self.spec_ndi_recv_name(),
    {
        let mut this = self;
        this.bandwidth = Some(bandwidth);
        this
    }

    /// If your application does not like receiving fielded video data you can specify
    /// `false` to this value, and all video received will be de-interlaced before it is
    /// passed to you.
    pub fn allow_video_fields(self, allow_video_fields: bool) -> (r: Self)
        ensures
            r.spec_color_format() == self.spec_color_format(),
            r.spec_bandwidth() == self.spec_bandwidth(),
            r.spec_allow_video_fields() == Some(allow_video_fields),
            r.spec_ndi_recv_name() == self.spec_ndi_recv_name(),
    {
        let mut this = self;
        this.allow_video_fields = Some(allow_video_fields);
        this
    }

    /// The name of the receiver to create
    ///
    /// Give your receiver a meaningful, descriptive, and unique name. This will
    /// be the name of the receiver on the network.
    pub fn ndi_recv_name(self, ndi_recv_name: String) -> (r: Self)
        ensures
            r.spec_color_format() == self.spec_color_format(),
            r.spec_bandwidth() == self.spec_bandwidth(),
            r.spec_allow_video_fields() == self.spec_allow_video_fields(),
            r.spec_ndi_recv_name() == Some(ndi_recv_name),
    {
        let mut this = self;
        this.ndi_recv_name = Some(ndi_recv_name);
        this
    }

    /// Makes every choice that was left open.
    pub fn settings(self) -> (r: RecvSettings)
        ensures
            r == self.spec_settings(),
    {
        RecvSettings {
            color_format: match self.color_format {
                Some(c) => c,
                None => RecvColorFormat::UYVY_BGRA,
            },
            bandwidth: match self.bandwidth {
                Some(b) => b,
                None => RecvBandwidth::Highest,
            },
            allow_video_fields: match self.allow_video_fields {
                Some(a) => a,
                None => true,
            },
            ndi_recv_name: self.ndi_recv_name,
        }
    }
}

/// Check the current queue size
#[derive(Debug, Clone, Copy, PartialEq, Eq, Structural)]
pub struct RecvQueueSize {
    /// Number of video frames in queue
    pub video_frames: u32,
    /// Number of audio frames in queue
    pub audio_frames: u32,
    /// Number of metadata frames in queue
    pub metadata_frames: u32,
}

impl RecvQueueSize {
    /// Create new queue size
    pub fn new() -> (r: Self)
        ensures
            r == (RecvQueueSize { video_frames: 0, audio_frames: 0, metadata_frames: 0 }),
    {
        Self { video_frames: 0, audio_frames: 0, metadata_frames: 0 }
    }
}

} // verus!
