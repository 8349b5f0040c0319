//! Audio device descriptions handed to the shell.
//!
//! Device and host enumeration itself happens outside the library; the
//! logic here assembles what the shell polls: the device list, the host
//! list, whether an ASIO host is among them, and the engine's fixed default
//! sample rate.

use vstd::prelude::*;
use vstd::utf8::encode_utf8;

verus! {

/// One audio device, as shown to the user.
#[derive(Clone, Debug, PartialEq, Eq)]
pub struct AudioDevice {
    /// The device's name, as the host reports it.
    pub name: String,
    /// Whether it captures (true) or plays (false).
    pub is_input: bool,
    /// Whether it is the host's default device for its direction.
    pub is_default: bool,
}

/// Everything the shell asks about audio at once.
#[derive(Clone, Debug, PartialEq, Eq)]
pub struct AudioInfo {
    /// The names of the available audio hosts.
    pub hosts: Vec<String>,
    /// The available devices.
    pub devices: Vec<AudioDevice>,
    /// Whether an ASIO host is available.
    pub asio_available: bool,
    /// The engine's sample rate in Hz.
    pub default_sample_rate: u32,
}

/// Parameters of one audio stream.
#[derive(Clone, Debug, PartialEq, Eq, Structural)]
pub struct AudioStreamConfig {
    /// Sample rate in Hz.
    pub sample_rate: u32,
    /// Channel count.
    pub channels: u16,
    /// Samples per buffer.
    pub buffer_size: u32,
}

impl Default for AudioStreamConfig {
    /// The engine's default: 48 kHz mono in 10 ms buffers.
    fn default() -> (r: AudioStreamConfig)
        ensures
            r == (AudioStreamConfig { sample_rate: 48000, channels: 1, buffer_size: 480 }),
    {
        AudioStreamConfig { sample_rate: 48000, channels: 1, buffer_size: 480 }
    }
}

/// Shared flags and format of one running audio stream.
#[derive(Clone, Debug, PartialEq, Eq, Structural)]
pub struct StreamState {
    /// Whether the stream runs.
    pub is_running: bool,
    /// Whether capture is muted.
    pub is_muted: bool,
    /// Sample rate in Hz.
    pub sample_rate: u32,
    /// Channel count.
    pub channels: u16,
}

impl Default for StreamState {
    /// A stopped, unmuted 48 kHz mono stream.
    fn default() -> (r: StreamState)
        ensures
            r == (StreamState {
                is_running: false,
                is_muted: false,
                sample_rate: 48000,
                channels: 1,
            }),
    {
        StreamState { is_running: false, is_muted: false, sample_rate: 48000, channels: 1 }
    }
}

/// `needle` occurs in `hay` starting at position `i`.
pub open spec fn match_at(hay: Seq<u8>, needle: Seq<u8>, i: int) -> bool {
    0 <= i && i + needle.len() <= hay.len() && hay.subrange(i, i + needle.len()) == needle
}

/// `needle` occurs somewhere in `hay`.
pub open spec fn bytes_contain(hay: Seq<u8>, needle: Seq<u8>) -> bool {
    exists|i: int| #[trigger] match_at(hay, needle, i)
}

/// Whether one byte string occurs inside another.
pub fn contains_bytes(hay: &[u8], needle: &[u8]) -> (r: bool)
    ensures
        r == bytes_contain(hay@, needle@),
{
    let n = hay.len();
    let m = needle.len();
    if m > n {
        proof {
            assert forall|i: int| !match_at(hay@, needle@, i) by {}
        }
        return false;
    }
    let mut i: usize = 0;
    while i <= n - m
        invariant
            m <= n,
            n == hay@.len(),
            m == needle@.len(),
            0 <= i <= n - m + 1,
            forall|j: int| 0 <= j < i ==> !match_at(hay@, needle@, j),
        decreases n - m + 1 - i,
    {
        let mut k: usize = 0;
        while k < m && hay[i + k] == needle[k]
            invariant
                0 <= k <= m,
                m <= n,
                n == hay@.len(),
                m == needle@.len(),
                i + m <= n,
                forall|t: int| 0 <= t < k ==> hay@[i + t] == (#[trigger] needle@[t]),
            decreases m - k,
        {
            k = k + 1;
        }
        if k == m {
            proof {
                assert(hay@.subrange(i as int, i + m) =~= needle@);
                assert(match_at(hay@, needle@, i as int));
            }
            return true;
        }
        proof {
            assert(!match_at(hay@, needle@, i as int)) by {
                if match_at(hay@, needle@, i as int) {
                    assert(hay@.subrange(i as int, i + m)[k as int] == needle@[k as int]);
                }
            }
        }
        i = i + 1;
    }
    proof {
        assert forall|j: int| !match_at(hay@, needle@, j) by {
            if 0 <= j < i {
            } else {
                assert(!(0 <= j && j + m <= n) || j >= i);
            }
        }
    }
    false
}

/// The bytes of the name tag an ASIO host carries.
pub open spec fn asio_tag() -> Seq<u8> {
    seq![65u8, 115u8, 105u8, 111u8]
}

/// Whether any of the given host names names an ASIO host: true exactly
/// when some name contains "Asio".
pub fn is_asio_available(hosts: &Vec<String>) -> (r: bool)
    ensures
        r <==> exists|i: int|
            0 <= i < hosts@.len() && bytes_contain(encode_utf8((#[trigger] hosts@[i])@), asio_tag()),
{
    let mut needle: Vec<u8> = Vec::new();
    needle.push(65);
    needle.push(115);
    needle.push(105);
    needle.push(111);
    proof {
        assert(needle@ =~= asio_tag());
    }
    let mut i: usize = 0;
    let n = hosts.len();
    while i < n
        invariant
            0 <= i <= n,
            n == hosts@.len(),
            needle@ == asio_tag(),
            forall|j: int|
                0 <= j < i ==> !bytes_contain(encode_utf8((#[trigger] hosts@[j])@), asio_tag()),
        decreases n - i,
    {
        let host: &String = &hosts[i];
        if contains_bytes(host.as_str().as_bytes(), needle.as_slice()) {
            return true;
        }
        i = i + 1;
    }
    false
}

/// Whether the list already shows a device of this direction whose name
/// contains the given name; used to keep a host's default device from
/// showing twice when the full enumeration repeats it.
pub fn device_list_has(devices: &Vec<AudioDevice>, name: &String, is_input: bool) -> (r: bool)
    ensures
        r <==> exists|i: int|
            0 <= i < devices@.len() && bytes_contain(
                encode_utf8((#[trigger] devices@[i]).name@),
                encode_utf8(name@),
            ) && devices@[i].is_input == is_input,
{
    let mut i: usize = 0;
    let n = devices.len();
    while i < n
        invariant
            0 <= i <= n,
            n == devices@.len(),
            forall|j: int|
                0 <= j < i ==> !(bytes_contain(
                    encode_utf8((#[trigger] devices@[j]).name@),
                    encode_utf8(name@),
                ) && devices@[j].is_input == is_input),
        decreases n - i,
    {
        let d: &AudioDevice = &devices[i];
        if d.is_input == is_input && contains_bytes(d.name.as_str().as_bytes(), name.as_str().as_bytes()) {
            return true;
        }
        i = i + 1;
    }
    false
}

/// Assemble the audio information the shell polls, from the host and
/// device lists the enumeration layer supplies: the lists as given, the
/// ASIO flag computed from the host names, and the engine's fixed 48 kHz
/// sample rate.
pub fn get_audio_info(hosts: Vec<String>, devices: Vec<AudioDevice>) -> (r: AudioInfo)
    ensures
        r.hosts == hosts,
        r.devices == devices,
        r.asio_available <==> exists|i: int|
            0 <= i < hosts@.len() && bytes_contain(encode_utf8((#[trigger] hosts@[i])@), asio_tag()),
        r.default_sample_rate == 48000,
{
    let asio_available = is_asio_available(&hosts);
    AudioInfo { hosts, devices, asio_available, default_sample_rate: 48000 }
}

} // verus!
