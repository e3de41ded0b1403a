//! Runtime configuration and the names of clip files.
//!
//! The defaults are local-first: clips go to a `clips` folder and nothing leaves the
//! machine.

use crate::buffer::ring_fits;
use crate::media::{
    container_extension, AudioCodec, AudioSource, CaptureTarget, Codec, Container, EncodeSettings,
};
use crate::path::{
    body_end, file_name_of, file_stem, is_plain_name, join, joined_path, last_dot, law_join_then_split,
    law_sibling_has_same_parent, lemma_file_name_is_plain, lemma_last_dot, name_stem, parent,
    parent_of, stem_of,
};
use crate::text::{decimal, joined, joined3, u64_text};
use vstd::prelude::*;
use vstd::string::*;

verus! {

/// User settings.
#[derive(Debug)]
pub struct Config {
    /// How many seconds of footage to keep in the rolling buffer.
    pub buffer_seconds: u32,
    /// Target capture frame rate, in frames per second.
    pub target_fps: u32,
    /// What to capture.
    pub capture_target: CaptureTarget,
    /// Where saved clips are written.
    pub output_dir: String,
    /// Global hotkey that flushes the buffer to a clip.
    pub save_hotkey: String,
    /// Encoder target bitrate, in kilobits per second.
    pub bitrate_kbps: u32,
    /// Output container format.
    pub container: Container,
    /// Video codec.
    pub codec: Codec,
    /// Capture and mux an audio track alongside the video.
    pub capture_audio: bool,
    /// Where audio is captured from.
    pub audio_source: AudioSource,
    /// Audio bitrate, in kilobits per second.
    pub audio_bitrate_kbps: u32,
    /// After saving, convert the clip to a shareable H.264/AAC MP4.
    pub auto_convert: bool,
    /// After saving, put a reference to the clip on the clipboard.
    pub copy_to_clipboard: bool,
}

impl Default for Config {
    fn default() -> (r: Config)
        ensures
            r.buffer_seconds == 30,
            r.target_fps == 60,
            r.capture_target == CaptureTarget::Monitor,
            r.output_dir@ == "clips"@,
            r.save_hotkey@ == "Ctrl+Alt+S"@,
            r.bitrate_kbps == 40_000,
            r.container == Container::Mp4,
            r.codec == Codec::H264,
            r.capture_audio,
            r.audio_source == AudioSource::SystemMonitor,
            r.audio_bitrate_kbps == 160,
            r.auto_convert,
            !r.copy_to_clipboard,
    {
        Config {
            buffer_seconds: 30,
            target_fps: 60,
            capture_target: CaptureTarget::Monitor,
            output_dir: "clips".to_owned(),
            save_hotkey: "Ctrl+Alt+S".to_owned(),
            bitrate_kbps: 40_000,
            container: Container::Mp4,
            codec: Codec::H264,
            capture_audio: true,
            audio_source: AudioSource::SystemMonitor,
            audio_bitrate_kbps: 160,
            auto_convert: true,
            copy_to_clipboard: false,
        }
    }
}

impl Clone for Config {
    fn clone(&self) -> (r: Config)
        ensures
            r == *self,
    {
        Config {
            buffer_seconds: self.buffer_seconds,
            target_fps: self.target_fps,
            capture_target: self.capture_target,
            output_dir: self.output_dir.clone(),
            save_hotkey: self.save_hotkey.clone(),
            bitrate_kbps: self.bitrate_kbps,
            container: self.container,
            codec: self.codec,
            capture_audio: self.capture_audio,
            audio_source: self.audio_source,
            audio_bitrate_kbps: self.audio_bitrate_kbps,
            auto_convert: self.auto_convert,
            copy_to_clipboard: self.copy_to_clipboard,
        }
    }
}

/// The audio codec that goes with a container: AAC in MP4 plays everywhere, and Opus
/// pairs with MKV.
pub open spec fn audio_codec_for(container: Container) -> AudioCodec {
    match container {
        Container::Mkv => AudioCodec::Opus,
        Container::Mp4 => AudioCodec::Aac,
    }
}

/// The file name of a clip that is saved at a time in seconds.
pub open spec fn clip_name(secs: u64, container: Container) -> Seq<char> {
    "rewind_"@ + decimal(secs as nat) + "."@ + container_extension(container)
}

/// The path of a clip that is saved at a time in seconds.
pub open spec fn clip_path(dir: Seq<char>, secs: u64, container: Container) -> Seq<char> {
    joined_path(dir, clip_name(secs, container))
}

/// The path of the shareable copy of a clip.
pub open spec fn share_path(clip: Seq<char>) -> Seq<char> {
    let stem = match stem_of(clip) {
        Some(stem) => stem,
        None => "clip"@,
    };
    let dir = match parent_of(clip) {
        Some(dir) => dir,
        None => "."@,
    };
    joined_path(dir, stem + ".share.mp4"@)
}

impl Config {
    /// The encoder settings of this configuration.
    pub open spec fn settings(self) -> EncodeSettings {
        EncodeSettings {
            codec: self.codec,
            bitrate_kbps: self.bitrate_kbps,
            container: self.container,
            keyframe_interval: if self.target_fps == 0 {
                1
            } else {
                (self.target_fps * 2) as u32
            },
            capture_audio: self.capture_audio,
            audio_source: self.audio_source,
            audio_codec: audio_codec_for(self.container),
            audio_bitrate_kbps: self.audio_bitrate_kbps,
            auto_convert: self.auto_convert,
        }
    }

    /// Whether the numbers derived from this configuration stay in range.
    pub open spec fn in_range(self) -> bool {
        &&& ring_fits(self.buffer_seconds, self.target_fps)
        &&& self.target_fps * 2 <= u32::MAX
    }

    /// Decides whether the numbers derived from this configuration stay in range.
    pub fn is_in_range(&self) -> (r: bool)
        ensures
            r == self.in_range(),
    {
        let seconds: u64 = if self.buffer_seconds == 0 {
            1
        } else {
            self.buffer_seconds as u64
        };
        let fps: u64 = if self.target_fps == 0 {
            1
        } else {
            self.target_fps as u64
        };
        assert(seconds * fps <= u32::MAX * u32::MAX) by (nonlinear_arith)
            requires
                0 <= seconds <= u32::MAX,
                0 <= fps <= u32::MAX,
        ;
        seconds * fps <= u32::MAX as u64 && self.target_fps <= u32::MAX / 2
    }

    /// Derives the encoder settings for this configuration. A keyframe comes at least
    /// every two seconds, which bounds how much of the start of a clip is trimmed.
    pub fn encode_settings(&self) -> (r: EncodeSettings)
        requires
            self.target_fps * 2 <= u32::MAX,
        ensures
            r == self.settings(),
    {
        let doubled: u32 = self.target_fps * 2;
        EncodeSettings {
            codec: self.codec,
            bitrate_kbps: self.bitrate_kbps,
            container: self.container,
            keyframe_interval: if doubled < 1 {
                1
            } else {
                doubled
            },
            capture_audio: self.capture_audio,
            audio_source: self.audio_source,
            audio_codec: match self.container {
                Container::Mkv => AudioCodec::Opus,
                Container::Mp4 => AudioCodec::Aac,
            },
            audio_bitrate_kbps: self.audio_bitrate_kbps,
            auto_convert: self.auto_convert,
        }
    }

    /// The path of a clip saved `secs` seconds after the Unix epoch, inside the
    /// configured folder.
    pub fn new_clip_path(&self, secs: u64) -> (r: String)
        ensures
            r@ == clip_path(self.output_dir@, secs, self.container),
    {
        let number = u64_text(secs);
        let stem = joined3("rewind_", number.as_str(), ".");
        let name = joined(stem.as_str(), self.container.extension());
        join(self.output_dir.as_str(), name.as_str())
    }

    /// The path of the shareable copy of `clip`, beside it.
    pub fn shareable_path(clip: &str) -> (r: String)
        ensures
            r@ == share_path(clip@),
    {
        let stem = match file_stem(clip) {
            Some(stem) => stem,
            None => "clip".to_owned(),
        };
        let dir = match parent(clip) {
            Some(dir) => dir,
            None => ".".to_owned(),
        };
        let name = joined(stem.as_str(), ".share.mp4");
        join(dir.as_str(), name.as_str())
    }
}

// --- laws --------------------------------------------------------------------------

/// Digits are digits, so no decimal numeral holds a separator.
proof fn lemma_decimal_chars(n: nat)
    ensures
        decimal(n).len() > 0,
        forall|i: int| 0 <= i < decimal(n).len() ==> '0' <= #[trigger] decimal(n)[i] <= '9',
    decreases n,
{
    if n >= 10 {
        lemma_decimal_chars(n / 10);
    }
}

/// Different numbers have different numerals.
proof fn lemma_decimal_injective(a: nat, b: nat)
    requires
        decimal(a) == decimal(b),
    ensures
        a == b,
    decreases a,
{
    let x = decimal(a);
    let y = decimal(b);
    assert(x.last() == y.last());
    lemma_decimal_chars(a / 10);
    lemma_decimal_chars(b / 10);
    if a >= 10 && b >= 10 {
        assert(x.drop_last() =~= decimal(a / 10));
        assert(y.drop_last() =~= decimal(b / 10));
        lemma_decimal_injective(a / 10, b / 10);
    }
}

/// The name of a clip is a plain file name.
proof fn lemma_clip_name_is_plain(secs: u64, container: Container)
    ensures
        is_plain_name(clip_name(secs, container)),
{
    reveal_strlit("rewind_");
    reveal_strlit(".");
    reveal_strlit("mp4");
    reveal_strlit("mkv");
    lemma_decimal_chars(secs as nat);
    let name = clip_name(secs, container);
    assert(name[0] == 'r');
}

/// A clip lies in the configured folder, written without what follows its last
/// component, under its own name.
pub proof fn law_clip_lies_in_folder(dir: Seq<char>, secs: u64, container: Container)
    ensures
        file_name_of(clip_path(dir, secs, container)) == Some(clip_name(secs, container)),
        parent_of(clip_path(dir, secs, container)) == Some(
            dir.take(body_end(dir, dir.len() as int)),
        ),
{
    lemma_clip_name_is_plain(secs, container);
    law_join_then_split(dir, clip_name(secs, container));
}

/// Clips that are saved at different seconds have different paths.
pub proof fn law_clip_paths_distinct(dir: Seq<char>, container: Container, a: u64, b: u64)
    requires
        a != b,
    ensures
        clip_path(dir, a, container) != clip_path(dir, b, container),
{
    if clip_path(dir, a, container) == clip_path(dir, b, container) {
        lemma_clip_name_is_plain(a, container);
        lemma_clip_name_is_plain(b, container);
        law_join_then_split(dir, clip_name(a, container));
        law_join_then_split(dir, clip_name(b, container));
        let x = clip_name(a, container);
        let y = clip_name(b, container);
        let lead = "rewind_"@.len() as int;
        let tail = "."@.len() + container_extension(container).len();
        assert(x.subrange(lead, x.len() - tail) =~= decimal(a as nat));
        assert(y.subrange(lead, y.len() - tail) =~= decimal(b as nat));
        lemma_decimal_injective(a as nat, b as nat);
    }
}

/// The shareable copy of a file lies in the same folder, or in the current one where the
/// path has no parent. It is named after the file, or `clip` where the path has no file
/// name, and is never the file itself.
pub proof fn law_shareable_copy_lies_beside(clip: Seq<char>)
    ensures
        parent_of(share_path(clip)) == Some(
            match parent_of(clip) {
                Some(dir) => dir,
                None => "."@,
            },
        ),
        file_name_of(share_path(clip)) == Some(
            match file_name_of(clip) {
                Some(name) => name_stem(name),
                None => "clip"@,
            } + ".share.mp4"@,
        ),
        file_name_of(share_path(clip)) != file_name_of(clip),
        share_path(clip) != clip,
{
    reveal_strlit(".share.mp4");
    reveal_strlit("clip");
    reveal_strlit(".");
    let stem = match stem_of(clip) {
        Some(stem) => stem,
        None => "clip"@,
    };
    let copy = stem + ".share.mp4"@;
    if file_name_of(clip) is Some {
        let name = file_name_of(clip)->0;
        lemma_file_name_is_plain(clip);
        lemma_last_dot(name);
        assert(forall|i: int| 0 <= i < stem.len() ==> stem[i] == name[i]);
        if copy == name {
            // The last dot of `copy` stands before `mp4`, so `name` would have a longer stem.
            let d = stem.len() as int + 6;
            assert(copy[d] == '.');
            assert(last_dot(name) >= d);
            assert(stem.len() == last_dot(name));
        }
    }
    assert(copy[copy.len() - 1] == '4');
    assert(is_plain_name(copy));
    if parent_of(clip) is Some {
        law_sibling_has_same_parent(clip, copy);
        law_join_then_split(parent_of(clip)->0, copy);
    } else {
        law_join_then_split("."@, copy);
        assert("."@.take(1) =~= "."@);
    }
}

/// The encoder is told what the configuration says, and a keyframe comes every two
/// seconds of frames. MP4 has AAC and MKV has Opus.
pub proof fn law_settings_follow_the_configuration(config: Config, r: EncodeSettings)
    requires
        call_ensures(Config::encode_settings, (&config,), r),
        config.target_fps * 2 <= u32::MAX,
    ensures
        r == config.settings(),
        r.codec == config.codec,
        r.bitrate_kbps == config.bitrate_kbps,
        r.container == config.container,
        config.target_fps > 0 ==> r.keyframe_interval == 2 * config.target_fps,
        config.target_fps == 0 ==> r.keyframe_interval == 1,
        r.capture_audio == config.capture_audio,
        r.audio_source == config.audio_source,
        r.audio_codec is Aac <==> config.container is Mp4,
        r.audio_bitrate_kbps == config.audio_bitrate_kbps,
        r.auto_convert == config.auto_convert,
{
}

/// A configuration is in range exactly where its nominal number of packets and twice its
/// frame rate fit in 32 bits.
pub proof fn law_range(config: Config, r: bool)
    requires
        call_ensures(Config::is_in_range, (&config,), r),
        config.buffer_seconds >= 1,
        config.target_fps >= 1,
    ensures
        r == config.in_range(),
        r <==> config.buffer_seconds * config.target_fps <= u32::MAX && config.target_fps * 2
            <= u32::MAX,
{
}

/// A copy of a configuration is the configuration.
pub proof fn law_configuration_copies_are_equal(config: Config, r: Config)
    requires
        call_ensures(Config::clone, (&config,), r),
    ensures
        r == config,
{
}

/// A clip is named `rewind_` and the seconds, with the extension of its container, in the
/// configured folder.
pub proof fn law_clip_name(config: Config, secs: u64, r: String)
    requires
        call_ensures(Config::new_clip_path, (&config, secs), r),
    ensures
        r@ == clip_path(config.output_dir@, secs, config.container),
        config.container is Mp4 ==> r@ == joined_path(
            config.output_dir@,
            "rewind_"@ + decimal(secs as nat) + ".mp4"@,
        ),
        config.container is Mkv ==> r@ == joined_path(
            config.output_dir@,
            "rewind_"@ + decimal(secs as nat) + ".mkv"@,
        ),
        config.output_dir@.len() > 0 && config.output_dir@.last() != '/' ==> exists|ext: Seq<char>|
            r@ == config.output_dir@ + seq!['/'] + "rewind_"@ + decimal(secs as nat)
                + #[trigger] (seq!['.'] + ext),
{
    reveal_strlit("rewind_");
    reveal_strlit(".");
    reveal_strlit("mp4");
    reveal_strlit("mkv");
    reveal_strlit(".mp4");
    reveal_strlit(".mkv");
    let number = decimal(secs as nat);
    let ext = container_extension(config.container);
    let name = clip_name(secs, config.container);
    assert(name =~= "rewind_"@ + number + ("."@ + ext));
    assert("."@ + "mp4"@ =~= ".mp4"@);
    assert("."@ + "mkv"@ =~= ".mkv"@);
    assert(name[0] == 'r');
    let dir = config.output_dir@;
    if dir.len() > 0 && dir.last() != '/' {
        assert(r@ =~= dir + seq!['/'] + "rewind_"@ + number + (seq!['.'] + ext));
    }
}

/// The shareable copy of a clip in a folder is beside it: the name of the clip without its
/// extension, with `.share.mp4` behind it.
pub proof fn law_share_path_of_a_clip(
    above: Seq<char>,
    last: Seq<char>,
    stem: Seq<char>,
    ext: Seq<char>,
    clip: &str,
    up: Option<String>,
    file: Option<String>,
    r: String,
)
    requires
        last.len() > 0 && stem.len() > 0,
        forall|i: int| 0 <= i < last.len() ==> last[i] != '/',
        last != seq!['.'] && last != seq!['.', '.'],
        forall|i: int| 0 <= i < stem.len() ==> stem[i] != '/',
        forall|i: int| 0 <= i < ext.len() ==> ext[i] != '/' && ext[i] != '.',
        ext.len() > 0,
        clip@ == above + seq!['/'] + last + seq!['/'] + (stem + seq!['.'] + ext),
        call_ensures(parent, (clip,), up),
        call_ensures(crate::path::file_name, (clip,), file),
        call_ensures(Config::shareable_path, (clip,), r),
    ensures
        r@ == above + seq!['/'] + last + seq!['/'] + stem + ".share.mp4"@,
{
    let name = stem + seq!['.'] + ext;
    assert(name.len() >= 3);
    assert(name[name.len() - 1] == ext[ext.len() - 1]);
    assert forall|i: int| 0 <= i < name.len() implies name[i] != '/' by {
        if i < stem.len() {
            assert(name[i] == stem[i]);
        } else if i > stem.len() {
            assert(name[i] == ext[i - stem.len() - 1]);
        }
    }
    crate::path::law_paths_come_apart(above, last, name, clip, up, file);
    lemma_last_dot(name);
    let d = stem.len() as int;
    assert(name[d] == '.');
    assert(last_dot(name) == d) by {
        if last_dot(name) > d {
            assert(name[last_dot(name)] == ext[last_dot(name) - d - 1]);
        }
    }
    assert(name.take(d) =~= stem);
    reveal_strlit(".share.mp4");
    let dir = above + seq!['/'] + last;
    assert(dir[dir.len() - 1] == last[last.len() - 1]);
    assert((stem + ".share.mp4"@)[0] == stem[0]);
    assert(parent_of(clip@) == Some(dir));
    assert(file_name_of(clip@) == Some(name));
    assert(r@ =~= dir + seq!['/'] + stem + ".share.mp4"@);
}

/// The shareable copy of any path lies in the folder of the path, or in the current one where
/// it has none, under the stem of its name, or `clip` where it has none, and `.share.mp4`.
pub proof fn law_share_path_of_any_path(
    clip: &str,
    stem: Option<String>,
    dir: Option<String>,
    folder: &str,
    name: &str,
    beside: String,
    r: String,
)
    requires
        call_ensures(file_stem, (clip,), stem),
        call_ensures(parent, (clip,), dir),
        dir matches Some(d) ==> folder@ == d@,
        dir is None ==> folder@ == "."@,
        stem matches Some(s) ==> name@ == s@ + ".share.mp4"@,
        stem is None ==> name@ == "clip"@ + ".share.mp4"@,
        call_ensures(join, (folder, name), beside),
        call_ensures(Config::shareable_path, (clip,), r),
    ensures
        r@ == beside@,
{
}

/// A clip is named after the seconds and its container, in the configured folder, wherever
/// that is.
pub proof fn law_clip_path_in_any_folder(
    config: Config,
    secs: u64,
    number: String,
    extension: &'static str,
    folder: &str,
    name: &str,
    inside: String,
    r: String,
)
    requires
        call_ensures(u64_text, (secs,), number),
        call_ensures(Container::extension, (config.container,), extension),
        folder@ == config.output_dir@,
        name@ == "rewind_"@ + number@ + seq!['.'] + extension@,
        call_ensures(join, (folder, name), inside),
        call_ensures(Config::new_clip_path, (&config, secs), r),
    ensures
        r@ == inside@,
{
    reveal_strlit(".");
    assert("."@ =~= seq!['.']);
}

/// The defaults: half a minute of the whole screen at 60 frames a second, in a local folder
/// and with sound, and nothing on the clipboard.
pub proof fn law_defaults(r: Config)
    requires
        call_ensures(Config::default, (), r),
    ensures
        r.buffer_seconds == 30 && r.target_fps == 60 && r.capture_target is Monitor,
        r.output_dir@ == "clips"@ && r.save_hotkey@ == "Ctrl+Alt+S"@,
        r.bitrate_kbps == 40_000 && r.container is Mp4 && r.codec is H264,
        r.capture_audio && r.audio_source is SystemMonitor && r.audio_bitrate_kbps == 160,
        r.auto_convert && !r.copy_to_clipboard,
        r.in_range(),
{
}

/// A configuration for no seconds or no frames is in range as one for one of them is.
pub proof fn law_range_of_nothing(config: Config, one: Config, r: bool, s: bool)
    requires
        call_ensures(Config::is_in_range, (&config,), r),
        call_ensures(Config::is_in_range, (&one,), s),
        one.buffer_seconds == (if config.buffer_seconds == 0 {
            1
        } else {
            config.buffer_seconds
        }),
        one.target_fps == (if config.target_fps == 0 {
            1
        } else {
            config.target_fps
        }),
    ensures
        r == s,
{
}

} // verus!
