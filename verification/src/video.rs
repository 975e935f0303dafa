//! The transcode plan: which rungs of the ladder a source gets, the argument vector
//! of each encoder process, and the master playlist that ties the rungs together.
//!
//! Nothing here starts a process or touches a file. The functions turn the source
//! height, the encoder's name and the paths into the values that the caller hands
//! to FFmpeg and writes to disk.

use crate::text::{
    chars_of, concat3, contains_str, decimal, decimal_string, parse_u32, parse_unsigned,
    push_decimal, push_str, push_string, str_contains, strings_view, strip_trailing,
    strip_trailing_len, sub_chars,
};
use crate::types::{VariantView, VideoVariant};
use vstd::prelude::*;
use vstd::string::*;

verus! {

// ---------------------------------------------------------------------------
// The ladder
// ---------------------------------------------------------------------------

/// The fixed ladder, lowest rung first.
pub open spec fn ladder() -> Seq<VariantView> {
    seq![
        VariantView { label: "480p"@, height: 480, bitrate: "1000k"@ },
        VariantView { label: "720p"@, height: 720, bitrate: "2500k"@ },
        VariantView { label: "1080p"@, height: 1080, bitrate: "5000k"@ },
        VariantView { label: "1440p"@, height: 1440, bitrate: "8000k"@ },
    ]
}

/// The rungs that a source of the given height gets: those that are not taller
/// than the source, in the ladder's order.
pub open spec fn selected_variants(source_height: u32) -> Seq<VariantView> {
    ladder().filter(|v: VariantView| v.height <= source_height)
}

/// The views of a sequence of variants.
pub open spec fn variants_view(v: Seq<VideoVariant>) -> Seq<VariantView> {
    v.map_values(|x: VideoVariant| x@)
}

fn ladder_rung(i: usize) -> (v: VideoVariant)
    requires
        i < 4,
    ensures
        v@ == ladder()[i as int],
{
    if i == 0 {
        VideoVariant {
            label: String::from_str("480p"),
            height: 480,
            bitrate: String::from_str("1000k"),
        }
    } else if i == 1 {
        VideoVariant {
            label: String::from_str("720p"),
            height: 720,
            bitrate: String::from_str("2500k"),
        }
    } else if i == 2 {
        VideoVariant {
            label: String::from_str("1080p"),
            height: 1080,
            bitrate: String::from_str("5000k"),
        }
    } else {
        VideoVariant {
            label: String::from_str("1440p"),
            height: 1440,
            bitrate: String::from_str("8000k"),
        }
    }
}

/// Selects the rungs of the ladder for a source of the given height.
///
/// The result is empty exactly when the source is shorter than the lowest rung.
pub fn get_variants_for_height(source_height: u32) -> (variants: Vec<VideoVariant>)
    ensures
        variants_view(variants@) == selected_variants(source_height),
        variants@.len() == 0 <==> source_height < 480,
{
    let mut variants: Vec<VideoVariant> = Vec::new();
    let ghost pred = |v: VariantView| v.height <= source_height;
    let mut i: usize = 0;
    proof {
        reveal(Seq::filter);
        assert(ladder().take(0) =~= Seq::<VariantView>::empty());
        assert(variants_view(variants@) =~= ladder().take(0).filter(pred));
    }
    while i < 4
        invariant
            i <= 4,
            pred == (|v: VariantView| v.height <= source_height),
            variants_view(variants@) == ladder().take(i as int).filter(pred),
            variants@.len() == 0 <==> (i == 0 || source_height < 480),
        decreases 4 - i,
    {
        let rung = ladder_rung(i);
        proof {
            reveal(Seq::filter);
            let next = ladder().take(i as int + 1);
            assert(next.drop_last() =~= ladder().take(i as int));
            assert(next.last() == ladder()[i as int]);
        }
        let ghost before = variants@;
        if rung.height <= source_height {
            variants.push(rung);
            assert(variants_view(variants@) =~= variants_view(before).push(rung@));
        }
        i += 1;
    }
    assert(ladder().take(4) =~= ladder());
    variants
}

/// What is owed of every selection: it is drawn from the ladder, none of its rungs
/// is taller than the source, and no rung that fits is left out.
pub proof fn lemma_selected_variants(source_height: u32)
    ensures
        forall|i: int|
            0 <= i < selected_variants(source_height).len() ==> ladder().contains(
                #[trigger] selected_variants(source_height)[i],
            ) && selected_variants(source_height)[i].height <= source_height,
        forall|j: int|
            0 <= j < ladder().len() && (#[trigger] ladder()[j]).height <= source_height
                ==> selected_variants(source_height).contains(ladder()[j]),
{
    let pred = |v: VariantView| v.height <= source_height;
    let sel = ladder().filter(pred);
    assert forall|i: int| 0 <= i < sel.len() implies ladder().contains(#[trigger] sel[i])
        && sel[i].height <= source_height by {
        ladder().lemma_filter_pred(pred, i);
        assert(sel.contains(sel[i]));
        ladder().lemma_filter_contains_rev(pred, sel[i]);
    }
    assert forall|j: int|
        0 <= j < ladder().len() && (#[trigger] ladder()[j]).height <= source_height implies sel.contains(
        ladder()[j],
    ) by {
        ladder().lemma_filter_contains(pred, j);
    }
}

// ---------------------------------------------------------------------------
// The encoder family
// ---------------------------------------------------------------------------

/// The family of an encoder: it decides the hardware flags, the scaling filter
/// and the pixel format.
#[derive(Debug, Clone, Copy, PartialEq, Eq, Structural)]
pub enum EncoderType {
    Nvenc,
    Vaapi,
    Qsv,
    Cpu,
}

/// The family that an encoder's name belongs to, by the first of `nvenc`, `vaapi`
/// and `qsv` that occurs in it; the software family if none does.
pub open spec fn encoder_family(name: Seq<char>) -> EncoderType {
    if contains_str(name, "nvenc"@) {
        EncoderType::Nvenc
    } else if contains_str(name, "vaapi"@) {
        EncoderType::Vaapi
    } else if contains_str(name, "qsv"@) {
        EncoderType::Qsv
    } else {
        EncoderType::Cpu
    }
}

impl EncoderType {
    /// Classifies an encoder by its name.
    pub fn from_string(s: &str) -> (e: EncoderType)
        ensures
            e == encoder_family(s@),
    {
        if str_contains(s, "nvenc") {
            EncoderType::Nvenc
        } else if str_contains(s, "vaapi") {
            EncoderType::Vaapi
        } else if str_contains(s, "qsv") {
            EncoderType::Qsv
        } else {
            EncoderType::Cpu
        }
    }

    /// Whether frames of this family live in the memory of a graphics device.
    pub open spec fn on_device(self) -> bool {
        self != EncoderType::Cpu
    }
}

// ---------------------------------------------------------------------------
// Bit rates and sizes
// ---------------------------------------------------------------------------

/// The number of kilobits per second that a bit rate such as `2500k` names:
/// the numeral before the trailing `k`, or 1000 where there is none that fits in
/// 32 bits.
pub open spec fn bitrate_kbps(bitrate: Seq<char>) -> nat {
    match parse_unsigned(strip_trailing(bitrate, 'k')) {
        Some(n) => if n <= u32::MAX {
            n
        } else {
            1000
        },
        None => 1000,
    }
}

/// Reads the kilobits per second out of a bit rate.
pub fn parse_bitrate_kbps(bitrate: &str) -> (kbps: u32)
    ensures
        kbps == bitrate_kbps(bitrate@),
{
    let chars = chars_of(bitrate);
    let n = strip_trailing_len(&chars, 'k');
    let head = sub_chars(&chars, 0, n);
    assert(head@ =~= chars@.take(n as int));
    match parse_u32(&head) {
        Some(k) => k,
        None => 1000,
    }
}

/// The width of a 16:9 frame of the given height, rounded to the nearest pixel.
pub open spec fn approx_width(height: nat) -> nat {
    (height * 16 + 4) / 9
}

/// The width of a 16:9 frame of the given height.
pub fn approx_width_of(height: u32) -> (w: u64)
    ensures
        w == approx_width(height as nat),
{
    (height as u64 * 16 + 4) / 9
}

/// A directory and a name joined by a slash.
pub open spec fn join_path(dir: Seq<char>, name: Seq<char>) -> Seq<char> {
    dir + "/"@ + name
}

/// Joins a directory and a name by a slash.
pub fn path_join(dir: &str, name: &str) -> (p: String)
    ensures
        p@ == join_path(dir@, name@),
{
    concat3(dir, "/", name)
}

// ---------------------------------------------------------------------------
// The argument vector of one variant
// ---------------------------------------------------------------------------

/// Number of frames between two key frames.
pub const GOP: u64 = 48;

/// The flags that switch hardware decoding on.
pub open spec fn hwaccel_args(e: EncoderType) -> Seq<Seq<char>> {
    match e {
        EncoderType::Nvenc => seq!["-hwaccel"@, "cuda"@, "-hwaccel_output_format"@, "cuda"@],
        EncoderType::Vaapi => seq![
            "-hwaccel"@,
            "vaapi"@,
            "-hwaccel_output_format"@,
            "vaapi"@,
            "-vaapi_device"@,
            "/dev/dri/renderD128"@,
        ],
        EncoderType::Qsv => seq!["-hwaccel"@, "qsv"@, "-hwaccel_output_format"@, "qsv"@],
        EncoderType::Cpu => seq![],
    }
}

/// The filter that scales to `height` and keeps the aspect ratio.
pub open spec fn scale_filter(e: EncoderType, height: u32) -> Seq<char> {
    match e {
        EncoderType::Nvenc => "scale_cuda=-2:"@ + decimal(height as nat),
        EncoderType::Vaapi => "scale_vaapi=-2:"@ + decimal(height as nat),
        EncoderType::Qsv => "vpp_qsv=w=-2:h="@ + decimal(height as nat),
        EncoderType::Cpu => "scale=-2:"@ + decimal(height as nat),
    }
}

/// Preset, profile and rate-control flags of each family.
pub open spec fn encoder_args(e: EncoderType) -> Seq<Seq<char>> {
    match e {
        EncoderType::Nvenc => seq![
            "-preset"@,
            "p3"@,
            "-profile:v"@,
            "main"@,
            "-level:v"@,
            "4.1"@,
            "-rc:v"@,
            "vbr"@,
            "-rc-lookahead"@,
            "20"@,
            "-bf"@,
            "3"@,
            "-spatial-aq"@,
            "1"@,
            "-temporal-aq"@,
            "1"@,
            "-aq-strength"@,
            "8"@,
            "-surfaces"@,
            "8"@,
            "-weighted_pred"@,
            "1"@,
        ],
        EncoderType::Vaapi => seq![
            "-compression_level"@,
            "20"@,
            "-rc_mode"@,
            "VBR"@,
            "-profile:v"@,
            "main"@,
        ],
        EncoderType::Qsv => seq![
            "-preset"@,
            "faster"@,
            "-profile:v"@,
            "main"@,
            "-look_ahead"@,
            "1"@,
            "-look_ahead_depth"@,
            "40"@,
        ],
        EncoderType::Cpu => seq![
            "-preset"@,
            "veryfast"@,
            "-profile:v"@,
            "main"@,
            "-level:v"@,
            "4.0"@,
        ],
    }
}

/// A number of kilobits per second as FFmpeg reads it.
pub open spec fn kbps_text(kbps: nat) -> Seq<char> {
    decimal(kbps) + "k"@
}

/// Target bit rate, a ceiling of one and a half times the target, and a buffer of
/// twice the target.
pub open spec fn rate_args(bitrate: Seq<char>) -> Seq<Seq<char>> {
    seq![
        "-b:v"@,
        bitrate,
        "-maxrate"@,
        kbps_text(bitrate_kbps(bitrate) * 3 / 2),
        "-bufsize"@,
        kbps_text(bitrate_kbps(bitrate) * 2),
    ]
}

/// The pixel format of each family.
pub open spec fn pixel_format(e: EncoderType) -> Seq<char> {
    match e {
        EncoderType::Nvenc => "cuda"@,
        EncoderType::Vaapi => "vaapi"@,
        EncoderType::Qsv => "qsv"@,
        EncoderType::Cpu => "yuv420p"@,
    }
}

/// A key frame every `GOP` frames and at every multiple of four seconds, AAC
/// stereo at 128 kbit/s, and no subtitle stream.
pub open spec fn stream_args() -> Seq<Seq<char>> {
    seq![
        "-g"@,
        decimal(GOP as nat),
        "-keyint_min"@,
        decimal(GOP as nat),
        "-sc_threshold"@,
        "0"@,
        "-force_key_frames"@,
        "expr:gte(t,n_forced*4)"@,
        "-c:a"@,
        "aac"@,
        "-b:a"@,
        "128k"@,
        "-ac"@,
        "2"@,
        "-sn"@,
    ]
}

/// Four-second MPEG-TS segments in a complete playlist, written under `seg_dir`.
pub open spec fn hls_args(seg_dir: Seq<char>) -> Seq<Seq<char>> {
    seq![
        "-hls_time"@,
        "4"@,
        "-hls_list_size"@,
        "0"@,
        "-hls_playlist_type"@,
        "vod"@,
        "-hls_segment_type"@,
        "mpegts"@,
        "-start_number"@,
        "0"@,
        "-hls_segment_filename"@,
        join_path(seg_dir, "segment_%03d.ts"@),
        join_path(seg_dir, "index.m3u8"@),
    ]
}

/// The arguments of the FFmpeg process that encodes one variant of `input` with
/// the encoder `codec` into the directory `out_dir/{label}`.
pub open spec fn variant_args(
    codec: Seq<char>,
    input: Seq<char>,
    out_dir: Seq<char>,
    variant: VariantView,
) -> Seq<Seq<char>> {
    let e = encoder_family(codec);
    seq!["-loglevel"@, "error"@, "-y"@] + hwaccel_args(e) + seq!["-i"@, input, "-c:v"@, codec]
        + encoder_args(e) + rate_args(variant.bitrate) + seq![
        "-vf"@,
        scale_filter(e, variant.height),
        "-pix_fmt"@,
        pixel_format(e),
    ] + stream_args() + hls_args(join_path(out_dir, variant.label))
}

fn push_hwaccel(args: &mut Vec<String>, e: EncoderType)
    ensures
        strings_view(final(args)@) == strings_view(old(args)@) + hwaccel_args(e),
{
    match e {
        EncoderType::Nvenc => {
            push_str(args, "-hwaccel");
            push_str(args, "cuda");
            push_str(args, "-hwaccel_output_format");
            push_str(args, "cuda");
        },
        EncoderType::Vaapi => {
            push_str(args, "-hwaccel");
            push_str(args, "vaapi");
            push_str(args, "-hwaccel_output_format");
            push_str(args, "vaapi");
            push_str(args, "-vaapi_device");
            push_str(args, "/dev/dri/renderD128");
        },
        EncoderType::Qsv => {
            push_str(args, "-hwaccel");
            push_str(args, "qsv");
            push_str(args, "-hwaccel_output_format");
            push_str(args, "qsv");
        },
        EncoderType::Cpu => {},
    }
    assert(strings_view(args@) =~= strings_view(old(args)@) + hwaccel_args(e));
}

fn push_encoder_args(args: &mut Vec<String>, e: EncoderType)
    ensures
        strings_view(final(args)@) == strings_view(old(args)@) + encoder_args(e),
{
    match e {
        EncoderType::Nvenc => {
            push_str(args, "-preset");
            push_str(args, "p3");
            push_str(args, "-profile:v");
            push_str(args, "main");
            push_str(args, "-level:v");
            push_str(args, "4.1");
            push_str(args, "-rc:v");
            push_str(args, "vbr");
            push_str(args, "-rc-lookahead");
            push_str(args, "20");
            push_str(args, "-bf");
            push_str(args, "3");
            push_str(args, "-spatial-aq");
            push_str(args, "1");
            push_str(args, "-temporal-aq");
            push_str(args, "1");
            push_str(args, "-aq-strength");
            push_str(args, "8");
            push_str(args, "-surfaces");
            push_str(args, "8");
            push_str(args, "-weighted_pred");
            push_str(args, "1");
        },
        EncoderType::Vaapi => {
            push_str(args, "-compression_level");
            push_str(args, "20");
            push_str(args, "-rc_mode");
            push_str(args, "VBR");
            push_str(args, "-profile:v");
            push_str(args, "main");
        },
        EncoderType::Qsv => {
            push_str(args, "-preset");
            push_str(args, "faster");
            push_str(args, "-profile:v");
            push_str(args, "main");
            push_str(args, "-look_ahead");
            push_str(args, "1");
            push_str(args, "-look_ahead_depth");
            push_str(args, "40");
        },
        EncoderType::Cpu => {
            push_str(args, "-preset");
            push_str(args, "veryfast");
            push_str(args, "-profile:v");
            push_str(args, "main");
            push_str(args, "-level:v");
            push_str(args, "4.0");
        },
    }
    assert(strings_view(args@) =~= strings_view(old(args)@) + encoder_args(e));
}

fn kbps_string(kbps: u64) -> (s: String)
    ensures
        s@ == kbps_text(kbps as nat),
{
    let mut s = decimal_string(kbps);
    s.append("k");
    s
}

fn push_rate_args(args: &mut Vec<String>, bitrate: &str)
    ensures
        strings_view(final(args)@) == strings_view(old(args)@) + rate_args(bitrate@),
{
    let kbps: u64 = parse_bitrate_kbps(bitrate) as u64;
    push_str(args, "-b:v");
    push_str(args, bitrate);
    push_str(args, "-maxrate");
    push_string(args, kbps_string(kbps * 3 / 2));
    push_str(args, "-bufsize");
    push_string(args, kbps_string(kbps * 2));
    assert(strings_view(args@) =~= strings_view(old(args)@) + rate_args(bitrate@));
}

fn scale_filter_string(e: EncoderType, height: u32) -> (s: String)
    ensures
        s@ == scale_filter(e, height),
{
    let mut s = match e {
        EncoderType::Nvenc => String::from_str("scale_cuda=-2:"),
        EncoderType::Vaapi => String::from_str("scale_vaapi=-2:"),
        EncoderType::Qsv => String::from_str("vpp_qsv=w=-2:h="),
        EncoderType::Cpu => String::from_str("scale=-2:"),
    };
    push_decimal(&mut s, height as u64);
    s
}

fn pixel_format_str(e: EncoderType) -> (s: &'static str)
    ensures
        s@ == pixel_format(e),
{
    match e {
        EncoderType::Nvenc => "cuda",
        EncoderType::Vaapi => "vaapi",
        EncoderType::Qsv => "qsv",
        EncoderType::Cpu => "yuv420p",
    }
}

fn push_stream_args(args: &mut Vec<String>)
    ensures
        strings_view(final(args)@) == strings_view(old(args)@) + stream_args(),
{
    push_str(args, "-g");
    push_string(args, decimal_string(GOP));
    push_str(args, "-keyint_min");
    push_string(args, decimal_string(GOP));
    push_str(args, "-sc_threshold");
    push_str(args, "0");
    push_str(args, "-force_key_frames");
    push_str(args, "expr:gte(t,n_forced*4)");
    push_str(args, "-c:a");
    push_str(args, "aac");
    push_str(args, "-b:a");
    push_str(args, "128k");
    push_str(args, "-ac");
    push_str(args, "2");
    push_str(args, "-sn");
    assert(strings_view(args@) =~= strings_view(old(args)@) + stream_args());
}

fn push_hls_args(args: &mut Vec<String>, seg_dir: &str)
    ensures
        strings_view(final(args)@) == strings_view(old(args)@) + hls_args(seg_dir@),
{
    push_str(args, "-hls_time");
    push_str(args, "4");
    push_str(args, "-hls_list_size");
    push_str(args, "0");
    push_str(args, "-hls_playlist_type");
    push_str(args, "vod");
    push_str(args, "-hls_segment_type");
    push_str(args, "mpegts");
    push_str(args, "-start_number");
    push_str(args, "0");
    push_str(args, "-hls_segment_filename");
    push_string(args, path_join(seg_dir, "segment_%03d.ts"));
    push_string(args, path_join(seg_dir, "index.m3u8"));
    assert(strings_view(args@) =~= strings_view(old(args)@) + hls_args(seg_dir@));
}

/// Builds the arguments of the FFmpeg process that encodes one variant.
///
/// The caller creates the directory `out_dir/{label}` and runs `ffmpeg` with these
/// arguments, its standard output discarded and its standard error captured.
pub fn variant_command(codec: &str, input: &str, out_dir: &str, variant: &VideoVariant) -> (args:
    Vec<String>)
    ensures
        strings_view(args@) == variant_args(codec@, input@, out_dir@, variant@),
{
    let e = EncoderType::from_string(codec);
    let mut args: Vec<String> = Vec::new();
    assert(strings_view(args@) =~= Seq::<Seq<char>>::empty());
    push_str(&mut args, "-loglevel");
    push_str(&mut args, "error");
    push_str(&mut args, "-y");
    push_hwaccel(&mut args, e);
    push_str(&mut args, "-i");
    push_str(&mut args, input);
    push_str(&mut args, "-c:v");
    push_str(&mut args, codec);
    push_encoder_args(&mut args, e);
    push_rate_args(&mut args, variant.bitrate.as_str());
    push_str(&mut args, "-vf");
    push_string(&mut args, scale_filter_string(e, variant.height));
    push_str(&mut args, "-pix_fmt");
    push_str(&mut args, pixel_format_str(e));
    push_stream_args(&mut args);
    let seg_dir = path_join(out_dir, variant.label.as_str());
    push_hls_args(&mut args, seg_dir.as_str());
    assert(strings_view(args@) =~= variant_args(codec@, input@, out_dir@, variant@));
    args
}

/// The directory that holds the playlist and the segments of one variant.
pub fn variant_dir(out_dir: &str, variant: &VideoVariant) -> (dir: String)
    ensures
        dir@ == join_path(out_dir@, variant@.label),
{
    path_join(out_dir, variant.label.as_str())
}

// ---------------------------------------------------------------------------
// The thumbnail
// ---------------------------------------------------------------------------

/// The arguments of the FFmpeg process that writes the first frame of `input` to
/// `out_dir/thumbnail.jpg`: decoded with the encoder's family, and downloaded from
/// the device first where the frames live there.
pub open spec fn thumbnail_args(codec: Seq<char>, input: Seq<char>, out_dir: Seq<char>) -> Seq<
    Seq<char>,
> {
    let e = encoder_family(codec);
    seq!["-loglevel"@, "error"@, "-y"@] + hwaccel_args(e) + seq![
        "-ss"@,
        "0"@,
        "-i"@,
        input,
        "-vframes"@,
        "1"@,
    ] + (if e.on_device() {
        seq!["-vf"@, "hwdownload,format=nv12"@]
    } else {
        seq![]
    }) + seq!["-q:v"@, "20"@, join_path(out_dir, "thumbnail.jpg"@)]
}

/// Builds the arguments of the thumbnail process.
pub fn thumbnail_command(codec: &str, input: &str, out_dir: &str) -> (args: Vec<String>)
    ensures
        strings_view(args@) == thumbnail_args(codec@, input@, out_dir@),
{
    let e = EncoderType::from_string(codec);
    let mut args: Vec<String> = Vec::new();
    assert(strings_view(args@) =~= Seq::<Seq<char>>::empty());
    push_str(&mut args, "-loglevel");
    push_str(&mut args, "error");
    push_str(&mut args, "-y");
    push_hwaccel(&mut args, e);
    push_str(&mut args, "-ss");
    push_str(&mut args, "0");
    push_str(&mut args, "-i");
    push_str(&mut args, input);
    push_str(&mut args, "-vframes");
    push_str(&mut args, "1");
    match e {
        EncoderType::Cpu => {},
        _ => {
            push_str(&mut args, "-vf");
            push_str(&mut args, "hwdownload,format=nv12");
        },
    }
    push_str(&mut args, "-q:v");
    push_str(&mut args, "20");
    push_string(&mut args, path_join(out_dir, "thumbnail.jpg"));
    assert(strings_view(args@) =~= thumbnail_args(codec@, input@, out_dir@));
    args
}

// ---------------------------------------------------------------------------
// The master playlist
// ---------------------------------------------------------------------------

/// The line that announces a variant: its bandwidth in bits per second and its
/// resolution.
pub open spec fn stream_inf_line(v: VariantView) -> Seq<char> {
    "#EXT-X-STREAM-INF:BANDWIDTH="@ + decimal(bitrate_kbps(v.bitrate) * 1000) + ",RESOLUTION="@
        + decimal(approx_width(v.height as nat)) + "x"@ + decimal(v.height as nat)
}

/// The address of a variant's playlist, relative to the master playlist.
pub open spec fn variant_uri(v: VariantView) -> Seq<char> {
    v.label + "/index.m3u8"@
}

/// The lines of the master playlist: the two header lines, then for each variant
/// its announcement and, on the next line, its address.
pub open spec fn master_playlist_lines(variants: Seq<VariantView>) -> Seq<Seq<char>>
    decreases variants.len(),
{
    if variants.len() == 0 {
        seq!["#EXTM3U"@, "#EXT-X-VERSION:3"@]
    } else {
        master_playlist_lines(variants.drop_last()).push(stream_inf_line(variants.last())).push(
            variant_uri(variants.last()),
        )
    }
}

/// Lines written one after the other, each closed by a line feed.
pub open spec fn unlines(lines: Seq<Seq<char>>) -> Seq<char>
    decreases lines.len(),
{
    if lines.len() == 0 {
        Seq::<char>::empty()
    } else {
        unlines(lines.drop_last()) + lines.last() + "\n"@
    }
}

/// The text of the master playlist of the given variants.
pub open spec fn master_playlist(variants: Seq<VariantView>) -> Seq<char> {
    unlines(master_playlist_lines(variants))
}

/// The master playlist has one announcement per variant and no other: after the
/// two header lines, lines `2 + 2i` and `3 + 2i` announce and address variant `i`.
pub proof fn lemma_master_playlist_layout(variants: Seq<VariantView>)
    ensures
        master_playlist_lines(variants).len() == 2 + 2 * variants.len(),
        master_playlist_lines(variants)[0] == "#EXTM3U"@,
        master_playlist_lines(variants)[1] == "#EXT-X-VERSION:3"@,
        forall|i: int|
            0 <= i < variants.len() ==> master_playlist_lines(variants)[2 + 2 * i]
                == stream_inf_line(#[trigger] variants[i]) && master_playlist_lines(variants)[3 + 2
                * i] == variant_uri(variants[i]),
    decreases variants.len(),
{
    if variants.len() > 0 {
        let init = variants.drop_last();
        lemma_master_playlist_layout(init);
        let lines = master_playlist_lines(variants);
        assert forall|i: int| 0 <= i < variants.len() implies lines[2 + 2 * i] == stream_inf_line(
            #[trigger] variants[i],
        ) && lines[3 + 2 * i] == variant_uri(variants[i]) by {
            if i < init.len() {
                assert(init[i] == variants[i]);
            }
        }
    }
}

/// Adding a line adds its text and a line feed.
pub proof fn lemma_unlines_push(lines: Seq<Seq<char>>, line: Seq<char>)
    ensures
        unlines(lines.push(line)) == unlines(lines) + line + "\n"@,
{
    assert(lines.push(line).drop_last() =~= lines);
}

fn stream_inf_string(v: &VideoVariant) -> (s: String)
    ensures
        s@ == stream_inf_line(v@),
{
    let kbps: u64 = parse_bitrate_kbps(v.bitrate.as_str()) as u64;
    let mut s = String::from_str("#EXT-X-STREAM-INF:BANDWIDTH=");
    push_decimal(&mut s, kbps * 1000);
    s.append(",RESOLUTION=");
    push_decimal(&mut s, approx_width_of(v.height));
    s.append("x");
    push_decimal(&mut s, v.height as u64);
    s
}

/// Writes the master playlist of the given variants, in their order.
pub fn build_master_playlist(variants: &Vec<VideoVariant>) -> (text: String)
    ensures
        text@ == master_playlist(variants_view(variants@)),
{
    let mut text = String::from_str("#EXTM3U\n#EXT-X-VERSION:3\n");
    let ghost vs = variants_view(variants@);
    proof {
        reveal_strlit("#EXTM3U\n#EXT-X-VERSION:3\n");
        reveal_strlit("#EXTM3U");
        reveal_strlit("#EXT-X-VERSION:3");
        reveal_strlit("\n");
        let none = Seq::<Seq<char>>::empty();
        assert(vs.take(0) =~= Seq::<VariantView>::empty());
        assert(master_playlist_lines(vs.take(0)) =~= none.push("#EXTM3U"@).push(
            "#EXT-X-VERSION:3"@,
        ));
        lemma_unlines_push(none, "#EXTM3U"@);
        lemma_unlines_push(none.push("#EXTM3U"@), "#EXT-X-VERSION:3"@);
        assert(text@ =~= master_playlist(vs.take(0)));
    }
    let mut i: usize = 0;
    while i < variants.len()
        invariant
            i <= variants.len(),
            vs == variants_view(variants@),
            text@ == master_playlist(vs.take(i as int)),
        decreases variants.len() - i,
    {
        let v = &variants[i];
        let line = stream_inf_string(v);
        let ghost before = text@;
        text.append(line.as_str());
        text.append("\n");
        text.append(v.label.as_str());
        text.append("/index.m3u8");
        text.append("\n");
        proof {
            let cur = vs.take(i as int + 1);
            assert(cur.drop_last() =~= vs.take(i as int));
            assert(cur.last() == v@);
            let init = master_playlist_lines(cur.drop_last());
            lemma_unlines_push(init, stream_inf_line(v@));
            lemma_unlines_push(init.push(stream_inf_line(v@)), variant_uri(v@));
            assert(text@ =~= before + stream_inf_line(v@) + "\n"@ + variant_uri(v@) + "\n"@);
        }
        i += 1;
    }
    assert(vs.take(i as int) =~= vs);
    text
}

/// The variants, and with them the master playlist, depend on the source only
/// through the rungs that fit it: a second run on the same source, or on one that
/// the same rungs fit, lists the same variants.
pub proof fn lemma_same_rungs_same_playlist(a: u32, b: u32)
    requires
        forall|i: int|
            0 <= i < ladder().len() ==> ((#[trigger] ladder()[i]).height <= a <==> ladder()[i].height
                <= b),
    ensures
        selected_variants(a) == selected_variants(b),
        master_playlist(selected_variants(a)) == master_playlist(selected_variants(b)),
{
    let pa = |v: VariantView| v.height <= a;
    let pb = |v: VariantView| v.height <= b;
    assert forall|k: int| 0 <= k <= ladder().len() implies #[trigger] ladder().take(k).filter(pa)
        == ladder().take(k).filter(pb) by {
        lemma_filters_agree(ladder(), k, pa, pb);
    }
    assert(ladder().take(ladder().len() as int) =~= ladder());
}

proof fn lemma_filters_agree(
    s: Seq<VariantView>,
    k: int,
    p: spec_fn(VariantView) -> bool,
    q: spec_fn(VariantView) -> bool,
)
    requires
        0 <= k <= s.len(),
        forall|i: int| 0 <= i < s.len() ==> (p(#[trigger] s[i]) <==> q(s[i])),
    ensures
        s.take(k).filter(p) == s.take(k).filter(q),
    decreases k,
{
    reveal(Seq::filter);
    if k > 0 {
        lemma_filters_agree(s, k - 1, p, q);
        assert(s.take(k).drop_last() =~= s.take(k - 1));
        assert(s.take(k).last() == s[k - 1]);
    }
}

} // verus!
