//! Server and client configuration, as read from their TOML files.

use crate::keyed::KeyedList;
use vstd::prelude::*;

verus! {

/// TLS configuration.
#[derive(Debug, Clone)]
pub struct ConfigTls {
    pub server_name: String,
    pub ca_file: String,
    pub crl_file: Option<String>,
    pub ocsp_file: Option<String>,
    pub auth_cert: String,
    pub auth_key: String,
    /// Domains whose clients are authenticated.
    pub allowed_client_domains: Option<Vec<String>>,
}

/// Behaviour of the video frames.
#[derive(Debug)]
pub struct Video {
    /// Largest frame rate.
    pub max_fps: u64,
    /// Number of identical frames after which the server stops sending
    /// frames to the encoder and to the client, until the screen changes.
    pub max_stall_img: u32,
    /// Command whose output gives extra options of the codec, run at each
    /// creation of an encoder.
    pub ffmpeg_options_cmd: Option<String>,
    /// Path of the control socket.
    pub control_path: Option<String>,
}

/// Behaviour of the audio.
#[derive(Debug)]
pub struct Audio {
    /// Size of the server side buffer, in milliseconds.
    pub max_buffer_ms: u64,
}

/// Export of the video through a PCI shared memory.
#[derive(Debug)]
pub struct ExportVideoPci {
    /// PCI subsystem vendor (for virtio, 0x1af4).
    pub vendor: String,
    /// PCI device (for a shared memory, 0x1110).
    pub device: String,
}

/// Authentication mechanism.
#[derive(Debug, Clone)]
pub enum AuthType {
    /// Kerberos, with the realms that are allowed.
    Kerberos(Vec<String>),
    /// PAM, with the name of the PAM service.
    Pam(String),
}

/// The name under which the options of `codec` are found: its own name, or
/// `global` when none is given.
pub open spec fn codec_key(codec: Option<&str>) -> Seq<char> {
    match codec {
        Some(c) => c@,
        None => "global"@,
    }
}

/// Looks the options of a codec up.
fn lookup_codec<'a>(
    ffmpeg: &'a KeyedList<KeyedList<String>>,
    codec: Option<&str>,
) -> (r: Option<&'a KeyedList<String>>)
    ensures
        r matches Some(o) ==> ffmpeg@.contains_key(codec_key(codec)) && *o == ffmpeg@[codec_key(
            codec,
        )],
        r is None ==> !ffmpeg@.contains_key(codec_key(codec)),
{
    match codec {
        Some(c) => ffmpeg.get(c),
        None => ffmpeg.get("global"),
    }
}

/// Server configuration.
#[derive(Debug)]
pub struct ConfigServer {
    pub video: Video,
    pub audio: Audio,
    pub export_video_pci: Option<ExportVideoPci>,
    pub tls: Option<ConfigTls>,
    pub auth_type: Option<AuthType>,
    /// For each codec name, its options and their values.
    pub ffmpeg: KeyedList<KeyedList<String>>,
}

impl ConfigServer {
    /// The options of `codec`, or the global options when `codec` is `None`.
    pub fn ffmpeg_options(&self, codec: Option<&str>) -> (r: Option<&KeyedList<String>>)
        ensures
            r matches Some(o) ==> self.ffmpeg@.contains_key(codec_key(codec)) && *o
                == self.ffmpeg@[codec_key(codec)],
            r is None ==> !self.ffmpeg@.contains_key(codec_key(codec)),
    {
        lookup_codec(&self.ffmpeg, codec)
    }
}

/// Client configuration.
#[derive(Debug)]
pub struct ConfigClient {
    /// For each codec name, its options and their values.
    pub ffmpeg: KeyedList<KeyedList<String>>,
}

impl ConfigClient {
    /// The options of `codec`, or the global options when `codec` is `None`.
    pub fn ffmpeg_options(&self, codec: Option<&str>) -> (r: Option<&KeyedList<String>>)
        ensures
            r matches Some(o) ==> self.ffmpeg@.contains_key(codec_key(codec)) && *o
                == self.ffmpeg@[codec_key(codec)],
            r is None ==> !self.ffmpeg@.contains_key(codec_key(codec)),
    {
        lookup_codec(&self.ffmpeg, codec)
    }
}

} // verus!
