//! Audio files and their running time.

use vstd::prelude::*;
use crate::duration::Duration;

verus! {

/// One counted audio file.
#[derive(Clone)]
pub struct AudioFileInfo {
    pub file_path: String,
    pub file_name: String,
    pub duration: Duration,
}

/// The content of an `AudioFileInfo`: its path, its displayed name and its
/// running time in nanoseconds.
pub ghost struct FileView {
    pub path: Seq<char>,
    pub name: Seq<char>,
    pub nanos: nat,
}

impl View for AudioFileInfo {
    type V = FileView;

    open spec fn view(&self) -> FileView {
        FileView { path: self.file_path@, name: self.file_name@, nanos: self.duration@ }
    }
}

/// The views of a sequence of files.
pub open spec fn views(s: Seq<AudioFileInfo>) -> Seq<FileView> {
    s.map_values(|f: AudioFileInfo| f@)
}

/// The running time the tool takes for a file: the one the Windows shell
/// reports when it reports a positive one, else the one decoded from the file.
pub open spec fn chosen_duration(shell: Option<Duration>, decoded: Option<Duration>) -> Option<Duration> {
    match shell {
        Some(d) if d@ > 0 => Some(d),
        _ => decoded,
    }
}

/// Whether the shell's answer settles the running time, so that the file
/// need not be decoded.
pub fn shell_duration_settles(shell: &Option<Duration>) -> (r: bool)
    ensures
        r == (shell matches Some(d) && d@ > 0),
{
    match shell {
        Some(d) => !d.is_zero(),
        None => false,
    }
}

/// The running time of an audio file, from what the Windows shell reports
/// (`shell`, `None` off Windows or where it reports nothing) and from what
/// decoding the file gives (`decoded`).
pub fn get_audio_duration(shell: Option<Duration>, decoded: Option<Duration>) -> (r: Option<Duration>)
    ensures
        r == chosen_duration(shell, decoded),
{
    if shell_duration_settles(&shell) {
        shell
    } else {
        decoded
    }
}

/// The length of the default track and its time base, as the decoder reports
/// them.
#[derive(Clone, Copy, Debug, PartialEq, Eq)]
pub struct TrackTiming {
    /// Frames in the track.
    pub n_frames: u64,
    /// Numerator of the length of one frame in seconds.
    pub numer: u32,
    /// Denominator of the length of one frame in seconds.
    pub denom: u32,
}

/// The timing of the default track where the probe found both its frame count
/// and its time base.
pub open spec fn timing_of(probe: Option<(Option<u64>, Option<(u32, u32)>)>) -> Option<TrackTiming> {
    match probe {
        Some((Some(n), Some((numer, denom)))) => Some(TrackTiming { n_frames: n, numer, denom }),
        _ => None,
    }
}

/// The timing of the default track, from what the probe reported.
pub fn timing_from_probe(probe: Option<(Option<u64>, Option<(u32, u32)>)>) -> (r: Option<TrackTiming>)
    ensures
        r == timing_of(probe),
{
    match probe {
        Some((Some(n), Some((numer, denom)))) => Some(TrackTiming { n_frames: n, numer, denom }),
        _ => None,
    }
}

/// The running time the Windows shell reports, from its `System.Media.Duration`
/// property read as a signed count of 100-nanosecond units (`None` where the
/// property could not be read as one): a positive count becomes that many
/// 100-nanosecond units, anything else none.
pub open spec fn shell_reading(units: Option<i64>) -> Option<nat> {
    match units {
        Some(v) if v > 0 => Some((v * 100) as nat),
        _ => None,
    }
}

/// The running time from the shell's reading of `System.Media.Duration`.
pub fn shell_duration_from_units(units: Option<i64>) -> (r: Option<Duration>)
    requires
        match units {
            Some(v) => v > 0 ==> v * 100 <= u64::MAX,
            None => true,
        },
    ensures
        match r {
            Some(d) => shell_reading(units) == Some(d@),
            None => shell_reading(units) is None,
        },
{
    match units {
        Some(v) => {
            if v > 0 {
                Some(Duration::from_nanos((v as u64) * 100))
            } else {
                None
            }
        },
        None => None,
    }
}

} // verus!
