//! Hardware AV1 through FFmpeg: which device is tried, how the process is started, and what is said
//! when it fails. The process itself and its pipes are driven from outside.

use crate::text::{before, decimal, lossy_text, trimmed};
use crate::text;
use vstd::prelude::*;

verus! {

/// The environment variable that names the FFmpeg program.
pub const BINARY_VARIABLE: &'static str = "NEWFOUNDSYNC_FFMPEG";

/// The FFmpeg program that a sandboxed installation brings.
pub const BUNDLED_BINARY: &'static str = "/app/bin/ffmpeg";

/// Where render nodes lie.
pub const DEVICE_DIRECTORY: &'static str = "/dev/dri";

/// How a hardware encoder is reached. AMD and Intel offer VA-API on a render node, NVIDIA offers
/// NVENC.
pub enum HardwareBackend {
    /// VA-API on the device at a path.
    Vaapi(String),
    /// NVENC.
    Nvenc,
}

/// A backend, with the path as text.
#[verifier::ext_equal]
pub enum BackendView {
    /// VA-API on the device at a path.
    Vaapi(Seq<char>),
    /// NVENC.
    Nvenc,
}

impl View for HardwareBackend {
    type V = BackendView;

    open spec fn view(&self) -> BackendView {
        match self {
            HardwareBackend::Vaapi(device) => BackendView::Vaapi(device@),
            HardwareBackend::Nvenc => BackendView::Nvenc,
        }
    }
}

/// How a backend is called in messages.
pub open spec fn description(b: BackendView) -> Seq<char> {
    match b {
        BackendView::Vaapi(device) => "VA-API ("@ + device + ")"@,
        BackendView::Nvenc => "NVENC"@,
    }
}

impl HardwareBackend {
    /// How the backend is called in the status.
    pub fn label(&self) -> (r: &'static str)
        ensures
            r@ == (match self@ {
                BackendView::Vaapi(_) => "GPU AV1 (VA-API)"@,
                BackendView::Nvenc => "GPU AV1 (NVENC)"@,
            }),
    {
        match self {
            HardwareBackend::Vaapi(_) => "GPU AV1 (VA-API)",
            HardwareBackend::Nvenc => "GPU AV1 (NVENC)",
        }
    }

    /// How the backend is called in messages.
    pub fn describe(&self) -> (r: String)
        ensures
            r@ == description(self@),
    {
        match self {
            HardwareBackend::Vaapi(device) => {
                let mut r = "VA-API (".to_string();
                r.append(device.as_str());
                r.append(")");
                r
            },
            HardwareBackend::Nvenc => "NVENC".to_string(),
        }
    }
}

/// The texts of strings.
pub open spec fn texts(v: Seq<String>) -> Seq<Seq<char>> {
    v.map_values(|s: String| s@)
}

fn push_text(v: &mut Vec<String>, s: &str)
    ensures
        texts(final(v)@) == texts(old(v)@).push(s@),
{
    v.push(s.to_string());
    assert(texts(v@) =~= texts(old(v)@).push(s@));
}

/// What the size must be like.
pub open spec fn size_fits(width: u32, height: u32) -> bool {
    width != 0 && height != 0 && width % 2 == 0 && height % 2 == 0
}

/// A size as FFmpeg writes it.
pub open spec fn size_text(width: u32, height: u32) -> Seq<char> {
    decimal(width as nat) + "x"@ + decimal(height as nat)
}

fn size_string(width: u32, height: u32) -> (r: String)
    ensures
        r@ == size_text(width, height),
{
    let mut r = text::decimal_text(width as u64);
    r.append("x");
    text::append_decimal(&mut r, height as u64);
    r
}

/// Refuses a size that the hardware encoders cannot take.
pub fn check_size(width: u32, height: u32) -> (r: Result<(), String>)
    ensures
        r is Ok <==> size_fits(width, height),
        match r {
            Ok(_) => true,
            Err(e) => e@ == "hardware AV1 requires non-zero, even dimensions ("@ + size_text(
                width,
                height,
            ) + ")"@,
        },
{
    if width == 0 || height == 0 || width % 2 != 0 || height % 2 != 0 {
        let mut e = "hardware AV1 requires non-zero, even dimensions (".to_string();
        e.append(size_string(width, height).as_str());
        e.append(")");
        Err(e)
    } else {
        Ok(())
    }
}

/// The frame rate, never zero.
pub open spec fn rate_of(fps: u32) -> u32 {
    if fps == 0 {
        1
    } else {
        fps
    }
}

fn rate(fps: u32) -> (r: u32)
    ensures
        r == rate_of(fps),
{
    if fps == 0 {
        1
    } else {
        fps
    }
}

/// Twice `n`, or the largest number there is.
pub open spec fn doubled_of(n: u32) -> u32 {
    if 2 * n > u32::MAX {
        u32::MAX
    } else {
        (2 * n) as u32
    }
}

fn doubled(n: u32) -> (r: u32)
    ensures
        r == doubled_of(n),
{
    if n > u32::MAX / 2 {
        u32::MAX
    } else {
        2 * n
    }
}

/// A bit rate as FFmpeg writes it.
pub open spec fn kilo_text(n: u32) -> Seq<char> {
    decimal(n as nat) + "k"@
}

fn kilo(n: u32) -> (r: String)
    ensures
        r@ == kilo_text(n),
{
    let mut r = text::decimal_text(n as u64);
    r.append("k");
    r
}

/// The arguments that pick the device.
pub open spec fn device_args(b: BackendView) -> Seq<Seq<char>> {
    match b {
        BackendView::Vaapi(device) => seq!["-vaapi_device"@, device],
        BackendView::Nvenc => Seq::empty(),
    }
}

/// The arguments that pick the encoder.
pub open spec fn encoder_args(b: BackendView) -> Seq<Seq<char>> {
    match b {
        BackendView::Vaapi(_) => seq!["-vf"@, "format=nv12,hwupload"@, "-c:v"@, "av1_vaapi"@],
        BackendView::Nvenc => seq!["-c:v"@, "av1_nvenc"@, "-pix_fmt"@, "yuv420p"@, "-bf"@, "0"@],
    }
}

/// The arguments that every run starts with.
pub open spec fn quiet_args() -> Seq<Seq<char>> {
    seq!["-hide_banner"@, "-loglevel"@, "error"@, "-nostdin"@]
}

/// The arguments of the run that encodes one black frame and throws it away.
pub open spec fn probe_arguments(
    width: u32,
    height: u32,
    fps: u32,
    kbps: u32,
    b: BackendView,
) -> Seq<Seq<char>> {
    quiet_args() + device_args(b) + seq![
        "-f"@,
        "lavfi"@,
        "-i"@,
        "color=c=black:s="@ + size_text(width, height) + ":r="@ + decimal(rate_of(fps) as nat),
        "-frames:v"@,
        "1"@,
        "-an"@,
    ] + encoder_args(b) + seq!["-b:v"@, kilo_text(kbps), "-f"@, "null"@, "-"@]
}

/// The arguments of the run that encodes the stream.
pub open spec fn encode_arguments(
    width: u32,
    height: u32,
    fps: u32,
    kbps: u32,
    b: BackendView,
) -> Seq<Seq<char>> {
    quiet_args() + device_args(b) + seq![
        "-f"@,
        "rawvideo"@,
        "-pixel_format"@,
        "bgra"@,
        "-video_size"@,
        size_text(width, height),
        "-framerate"@,
        decimal(rate_of(fps) as nat),
        "-i"@,
        "pipe:0"@,
        "-an"@,
    ] + encoder_args(b) + seq![
        "-b:v"@,
        kilo_text(kbps),
        "-maxrate"@,
        kilo_text(kbps),
        "-bufsize"@,
        kilo_text(doubled_of(kbps)),
        "-g"@,
        decimal(doubled_of(rate_of(fps)) as nat),
        "-flush_packets"@,
        "1"@,
        "-f"@,
        "ivf"@,
        "pipe:1"@,
    ]
}

fn push_quiet(v: &mut Vec<String>)
    ensures
        texts(final(v)@) == texts(old(v)@) + quiet_args(),
{
    push_text(v, "-hide_banner");
    push_text(v, "-loglevel");
    push_text(v, "error");
    push_text(v, "-nostdin");
    assert(texts(v@) =~= texts(old(v)@) + quiet_args());
}

fn push_device(v: &mut Vec<String>, b: &HardwareBackend)
    ensures
        texts(final(v)@) == texts(old(v)@) + device_args(b@),
{
    match b {
        HardwareBackend::Vaapi(device) => {
            push_text(v, "-vaapi_device");
            push_text(v, device.as_str());
        },
        HardwareBackend::Nvenc => {},
    }
    assert(texts(v@) =~= texts(old(v)@) + device_args(b@));
}

fn push_encoder(v: &mut Vec<String>, b: &HardwareBackend)
    ensures
        texts(final(v)@) == texts(old(v)@) + encoder_args(b@),
{
    match b {
        HardwareBackend::Vaapi(_) => {
            push_text(v, "-vf");
            push_text(v, "format=nv12,hwupload");
            push_text(v, "-c:v");
            push_text(v, "av1_vaapi");
        },
        HardwareBackend::Nvenc => {
            push_text(v, "-c:v");
            push_text(v, "av1_nvenc");
            push_text(v, "-pix_fmt");
            push_text(v, "yuv420p");
            push_text(v, "-bf");
            push_text(v, "0");
        },
    }
    assert(texts(v@) =~= texts(old(v)@) + encoder_args(b@));
}

/// The arguments of the run that tests a backend by encoding one black frame.
pub fn probe_args(width: u32, height: u32, fps: u32, kbps: u32, b: &HardwareBackend) -> (v: Vec<
    String,
>)
    ensures
        texts(v@) == probe_arguments(width, height, fps, kbps, b@),
{
    let mut v: Vec<String> = Vec::new();
    push_quiet(&mut v);
    push_device(&mut v, b);
    let ghost front = texts(v@);
    assert(front =~= quiet_args() + device_args(b@));
    let mut source = "color=c=black:s=".to_string();
    source.append(size_string(width, height).as_str());
    source.append(":r=");
    text::append_decimal(&mut source, rate(fps) as u64);
    push_text(&mut v, "-f");
    push_text(&mut v, "lavfi");
    push_text(&mut v, "-i");
    push_text(&mut v, source.as_str());
    push_text(&mut v, "-frames:v");
    push_text(&mut v, "1");
    push_text(&mut v, "-an");
    push_encoder(&mut v, b);
    push_text(&mut v, "-b:v");
    push_text(&mut v, kilo(kbps).as_str());
    push_text(&mut v, "-f");
    push_text(&mut v, "null");
    push_text(&mut v, "-");
    assert(texts(v@) =~= probe_arguments(width, height, fps, kbps, b@));
    v
}

/// The arguments of the run that encodes the stream.
pub fn encode_args(width: u32, height: u32, fps: u32, kbps: u32, b: &HardwareBackend) -> (v: Vec<
    String,
>)
    ensures
        texts(v@) == encode_arguments(width, height, fps, kbps, b@),
{
    let mut v: Vec<String> = Vec::new();
    push_quiet(&mut v);
    push_device(&mut v, b);
    assert(texts(v@) =~= quiet_args() + device_args(b@));
    push_text(&mut v, "-f");
    push_text(&mut v, "rawvideo");
    push_text(&mut v, "-pixel_format");
    push_text(&mut v, "bgra");
    push_text(&mut v, "-video_size");
    push_text(&mut v, size_string(width, height).as_str());
    push_text(&mut v, "-framerate");
    push_text(&mut v, text::decimal_text(rate(fps) as u64).as_str());
    push_text(&mut v, "-i");
    push_text(&mut v, "pipe:0");
    push_text(&mut v, "-an");
    push_encoder(&mut v, b);
    push_text(&mut v, "-b:v");
    push_text(&mut v, kilo(kbps).as_str());
    push_text(&mut v, "-maxrate");
    push_text(&mut v, kilo(kbps).as_str());
    push_text(&mut v, "-bufsize");
    push_text(&mut v, kilo(doubled(kbps)).as_str());
    push_text(&mut v, "-g");
    push_text(&mut v, text::decimal_text(doubled(rate(fps)) as u64).as_str());
    push_text(&mut v, "-flush_packets");
    push_text(&mut v, "1");
    push_text(&mut v, "-f");
    push_text(&mut v, "ivf");
    push_text(&mut v, "pipe:1");
    assert(texts(v@) =~= encode_arguments(width, height, fps, kbps, b@));
    v
}

/// Which program is run.
#[derive(Clone, Copy, Debug, PartialEq, Eq, Structural)]
pub enum FfmpegBinary {
    /// The one that the environment names.
    Named,
    /// The one that the installation brings.
    Bundled,
    /// The one on the search path.
    OnPath,
}

/// Which program is run.
pub open spec fn binary_of(named: bool, bundled: bool) -> FfmpegBinary {
    if named {
        FfmpegBinary::Named
    } else if bundled {
        FfmpegBinary::Bundled
    } else {
        FfmpegBinary::OnPath
    }
}

/// Which program is run, given whether the environment names one and whether one is bundled.
pub fn ffmpeg_binary(named: bool, bundled: bool) -> (r: FfmpegBinary)
    ensures
        r == binary_of(named, bundled),
{
    if named {
        FfmpegBinary::Named
    } else if bundled {
        FfmpegBinary::Bundled
    } else {
        FfmpegBinary::OnPath
    }
}

/// Whether a file below the device directory is a render node.
pub open spec fn is_render_node(name: Seq<char>) -> bool {
    text::occurs_at(name, "renderD"@, 0)
}

/// The paths of the render nodes among the names of a directory.
pub open spec fn node_paths(names: Seq<Seq<char>>) -> Seq<Seq<char>> {
    names.filter(|n: Seq<char>| is_render_node(n)).map_values(
        |n: Seq<char>| "/dev/dri/"@ + n,
    )
}

/// Whether texts are in order.
pub open spec fn texts_in_order(s: Seq<Seq<char>>) -> bool {
    forall|i: int, j: int| 0 <= i < j < s.len() ==> !before(#[trigger] s[j], #[trigger] s[i])
}

fn insert_in_order(v: &mut Vec<String>, s: String)
    requires
        texts_in_order(texts(old(v)@)),
    ensures
        texts_in_order(texts(final(v)@)),
        texts(final(v)@).to_multiset() == texts(old(v)@).to_multiset().insert(s@),
{
    let ghost e = texts(v@);
    let ghost x = s@;
    let mut at: usize = v.len();
    while at > 0 && text::comes_before(s.as_str(), v[at - 1].as_str())
        invariant
            at <= v@.len(),
            e == texts(v@),
            x == s@,
            forall|i: int| at <= i < e.len() ==> before(x, #[trigger] e[i]),
        decreases at,
    {
        assert(e[at - 1] == v@[at - 1]@);
        at -= 1;
    }
    v.insert(at, s);
    proof {
        broadcast use vstd::seq_lib::group_to_multiset_ensures;
        let f = texts(v@);
        assert(f =~= e.insert(at as int, x));
        if at > 0 {
            assert(e[at - 1] == old(v)@[at - 1]@);
        }
        assert forall|i: int, j: int| 0 <= i < j < f.len() implies !before(
            #[trigger] f[j],
            #[trigger] f[i],
        ) by {
            if j < at {
                assert(f[i] == e[i] && f[j] == e[j]);
            } else if j == at {
                assert(f[i] == e[i]);
                if i < at - 1 {
                    assert(!before(e[at - 1], e[i]));
                    text::lemma_not_before_transitive(e[i], e[at - 1], x);
                }
            } else if i == at {
                assert(f[j] == e[j - 1]);
                text::lemma_before_asymmetric(x, e[j - 1]);
            } else if i < at {
                assert(f[i] == e[i] && f[j] == e[j - 1]);
            } else {
                assert(f[i] == e[i - 1] && f[j] == e[j - 1]);
            }
        }
    }
}

/// The paths of the render nodes, in order, given the names in the device directory.
pub fn render_nodes(names: &Vec<String>) -> (v: Vec<String>)
    ensures
        texts_in_order(texts(v@)),
        texts(v@).to_multiset() == node_paths(texts(names@)).to_multiset(),
{
    let mut v: Vec<String> = Vec::new();
    let mut i: usize = 0;
    let ghost all = texts(names@);
    proof {
        broadcast use vstd::seq_lib::group_to_multiset_ensures;

        assert(node_paths(all.take(0)) =~= Seq::empty()) by {
            reveal(Seq::filter);
        }
        assert(texts(v@) =~= Seq::<Seq<char>>::empty());
    }
    while i < names.len()
        invariant
            i <= names@.len(),
            all == texts(names@),
            texts_in_order(texts(v@)),
            texts(v@).to_multiset() == node_paths(all.take(i as int)).to_multiset(),
        decreases names@.len() - i,
    {
        let ghost keep = |n: Seq<char>| is_render_node(n);
        let ghost path = |n: Seq<char>| "/dev/dri/"@ + n;
        proof {
            broadcast use vstd::seq_lib::group_to_multiset_ensures;

            assert(all.take(i + 1).drop_last() =~= all.take(i as int));
            assert(all.take(i + 1).last() == names@[i as int]@);
            reveal(Seq::filter);
            let n = all[i as int];
            if is_render_node(n) {
                assert(node_paths(all.take(i + 1)) =~= node_paths(all.take(i as int)).push(
                    "/dev/dri/"@ + n,
                ));
            } else {
                assert(node_paths(all.take(i + 1)) =~= node_paths(all.take(i as int)));
            }
        }
        if text::starts_with(names[i].as_str(), "renderD") {
            let mut p = "/dev/dri/".to_string();
            p.append(names[i].as_str());
            insert_in_order(&mut v, p);
        }
        i += 1;
    }
    assert(all.take(i as int) =~= all);
    v
}

/// A backend that was tried and what came of it.
pub struct Failure {
    /// The backend.
    pub backend: HardwareBackend,
    /// What went wrong.
    pub error: String,
}

/// One failure as text.
pub open spec fn failure_text(f: Failure) -> Seq<char> {
    description(f.backend@) + ": "@ + f.error@
}

/// The failures as text.
pub open spec fn failures_text(f: Seq<Failure>) -> Seq<char>
    decreases f.len(),
{
    if f.len() == 0 {
        Seq::empty()
    } else if f.len() == 1 {
        failure_text(f[0])
    } else {
        failures_text(f.drop_last()) + "; "@ + failure_text(f.last())
    }
}

/// The views of backends.
pub open spec fn backend_views(v: Seq<HardwareBackend>) -> Seq<BackendView> {
    v.map_values(|b: HardwareBackend| b@)
}

/// The backends that are tried, and the failures so far.
pub struct Trials {
    /// Backends to try, first to last.
    pub backends: Vec<HardwareBackend>,
    /// The failures, one for each backend that was tried.
    pub failures: Vec<Failure>,
}

impl Trials {
    /// There are no more failures than backends.
    pub open spec fn wf(&self) -> bool {
        self.failures@.len() <= self.backends@.len()
    }

    /// Every render node by VA-API, then NVENC.
    pub fn new(nodes: Vec<String>) -> (t: Trials)
        ensures
            t.wf(),
            t.failures@.len() == 0,
            backend_views(t.backends@) == texts(nodes@).map_values(
                |d: Seq<char>| BackendView::Vaapi(d),
            ).push(BackendView::Nvenc),
    {
        let mut backends: Vec<HardwareBackend> = Vec::new();
        let mut i: usize = 0;
        while i < nodes.len()
            invariant
                i <= nodes@.len(),
                backends@.len() == i,
                forall|k: int| 0 <= k < i ==> (#[trigger] backends@[k])@ == BackendView::Vaapi(
                    nodes@[k]@,
                ),
            decreases nodes@.len() - i,
        {
            let s = text::chars_of(nodes[i].as_str());
            let p = text::string_of(s.as_slice(), 0, s.len());
            assert(p@ =~= nodes@[i as int]@);
            backends.push(HardwareBackend::Vaapi(p));
            i += 1;
        }
        backends.push(HardwareBackend::Nvenc);
        assert(backend_views(backends@) =~= texts(nodes@).map_values(
            |d: Seq<char>| BackendView::Vaapi(d),
        ).push(BackendView::Nvenc));
        Trials { backends, failures: Vec::new() }
    }

    /// The backend to try next, none when all have failed.
    pub fn next(&self) -> (r: Option<&HardwareBackend>)
        requires
            self.wf(),
        ensures
            match r {
                Some(b) => self.failures@.len() < self.backends@.len() && *b
                    == self.backends@[self.failures@.len() as int],
                None => self.failures@.len() == self.backends@.len(),
            },
    {
        if self.failures.len() < self.backends.len() {
            Some(&self.backends[self.failures.len()])
        } else {
            None
        }
    }

    /// The backend that was tried last failed.
    pub fn failed(&mut self, error: String)
        requires
            old(self).wf(),
            old(self).failures@.len() < old(self).backends@.len(),
        ensures
            final(self).wf(),
            final(self).backends@ == old(self).backends@,
            final(self).failures@.len() == old(self).failures@.len() + 1,
            final(self).failures@.drop_last() == old(self).failures@,
            final(self).failures@.last().backend@ == old(
                self,
            ).backends@[old(self).failures@.len() as int]@,
            final(self).failures@.last().error@ == error@,
    {
        let n: usize = self.failures.len();
        let backend = match &self.backends[n] {
            HardwareBackend::Vaapi(d) => {
                let s = text::chars_of(d.as_str());
                let p = text::string_of(s.as_slice(), 0, s.len());
                assert(p@ =~= d@);
                HardwareBackend::Vaapi(p)
            },
            HardwareBackend::Nvenc => HardwareBackend::Nvenc,
        };
        self.failures.push(Failure { backend, error });
        assert(self.failures@.drop_last() =~= old(self).failures@);
    }

    /// What is said when every backend has failed.
    pub fn message(&self) -> (r: String)
        ensures
            r@ == "could not start a hardware AV1 encoder: "@ + failures_text(self.failures@),
    {
        let mut r = "could not start a hardware AV1 encoder: ".to_string();
        let mut i: usize = 0;
        let ghost head = r@;
        assert(r@ =~= head + failures_text(self.failures@.take(0)));
        while i < self.failures.len()
            invariant
                i <= self.failures@.len(),
                r@ == head + failures_text(self.failures@.take(i as int)),
            decreases self.failures@.len() - i,
        {
            let ghost done = r@;
            if i > 0 {
                r.append("; ");
            }
            let f = &self.failures[i];
            r.append(f.backend.describe().as_str());
            r.append(": ");
            r.append(f.error.as_str());
            proof {
                let t = self.failures@.take(i + 1);
                assert(t.drop_last() =~= self.failures@.take(i as int));
                assert(t.last() == self.failures@[i as int]);
                if i == 0 {
                    assert(done =~= head);
                    assert(r@ =~= head + failure_text(t[0]));
                } else {
                    assert(r@ =~= head + failures_text(t));
                }
            }
            i += 1;
        }
        assert(self.failures@.take(i as int) =~= self.failures@);
        r
    }
}

/// Every backend is tried before the encoder is given up, render nodes first and NVENC last.
pub proof fn law_nvenc_is_tried_last(t: Trials, nodes: Seq<Seq<char>>)
    requires
        t.wf(),
        backend_views(t.backends@) == nodes.map_values(
            |d: Seq<char>| BackendView::Vaapi(d),
        ).push(BackendView::Nvenc),
    ensures
        t.backends@.last()@ == BackendView::Nvenc,
        forall|i: int| 0 <= i < nodes.len() ==> (#[trigger] t.backends@[i])@ == BackendView::Vaapi(
            nodes[i],
        ),
        t.failures@.len() == t.backends@.len() ==> t.failures@.len() == nodes.len() + 1,
{
    let w = backend_views(t.backends@);
    assert(w.len() == nodes.len() + 1);
    assert(w[nodes.len() as int] == t.backends@[nodes.len() as int]@);
    assert forall|i: int| 0 <= i < nodes.len() implies (#[trigger] t.backends@[i])@
        == BackendView::Vaapi(nodes[i]) by {
        assert(w[i] == t.backends@[i]@);
    }
}

/// What came of the run that tests a backend, given how it ended and what it wrote to its error
/// output.
pub fn probe_verdict(b: &HardwareBackend, success: bool, status: &str, errors: &[u8]) -> (r: Result<
    (),
    String,
>)
    ensures
        r is Ok <==> success,
        match r {
            Ok(_) => true,
            Err(e) => e@ == "FFmpeg "@ + description(b@) + " AV1 probe exited ("@ + status@ + ")"@
                + (if trimmed(lossy_text(errors@)).len() == 0 {
                Seq::empty()
            } else {
                ": "@ + trimmed(lossy_text(errors@))
            }),
        },
{
    if success {
        return Ok(());
    }
    let mut e = "FFmpeg ".to_string();
    e.append(b.describe().as_str());
    e.append(" AV1 probe exited (");
    e.append(status);
    e.append(")");
    let said = text::trim(text::from_utf8_lossy(errors).as_str());
    let ghost front = e@;
    if text::chars_of(said.as_str()).len() > 0 {
        e.append(": ");
        e.append(said.as_str());
        assert(e@ =~= front + (": "@ + said@));
    } else {
        assert(e@ =~= front + Seq::<char>::empty());
    }
    Err(e)
}

/// What is said when the process could not be started. `what` is `probe` or `encoder`.
pub fn start_failure(b: &HardwareBackend, what: &str) -> (r: String)
    ensures
        r@ == "start FFmpeg "@ + description(b@) + " AV1 "@ + what@,
{
    let mut r = "start FFmpeg ".to_string();
    r.append(b.describe().as_str());
    r.append(" AV1 ");
    r.append(what);
    r
}

/// Refuses a picture that does not have the bytes that its size takes.
pub fn check_frame(width: u32, height: u32, len: usize) -> (r: Result<(), String>)
    requires
        width * height * 4 <= usize::MAX,
    ensures
        r is Ok <==> len == width * height * 4,
        match r {
            Ok(_) => true,
            Err(e) => e@ == "short BGRA frame: "@ + decimal(len as nat) + " != "@ + decimal(
                (width * height * 4) as nat,
            ),
        },
{
    assert(0 <= width * height <= width * height * 4) by (nonlinear_arith);
    let expected: usize = width as usize * height as usize * 4;
    if len != expected {
        let mut e = "short BGRA frame: ".to_string();
        text::append_decimal(&mut e, len as u64);
        e.append(" != ");
        text::append_decimal(&mut e, expected as u64);
        Err(e)
    } else {
        Ok(())
    }
}

/// What the process last wrote to its error output.
pub enum Diagnostic {
    /// Nothing.
    Silent,
    /// A line.
    Line(String),
    /// It cannot be told.
    Lost,
}

/// A diagnostic as text.
pub open spec fn diagnostic_text(d: Diagnostic) -> Seq<char> {
    match d {
        Diagnostic::Silent => "no FFmpeg diagnostic"@,
        Diagnostic::Line(s) => if s@.len() == 0 {
            "no FFmpeg diagnostic"@
        } else {
            s@
        },
        Diagnostic::Lost => "FFmpeg diagnostic lock poisoned"@,
    }
}

impl Diagnostic {
    /// The diagnostic as text.
    pub fn text(&self) -> (r: String)
        ensures
            r@ == diagnostic_text(*self),
    {
        match self {
            Diagnostic::Silent => "no FFmpeg diagnostic".to_string(),
            Diagnostic::Line(s) => {
                let c = text::chars_of(s.as_str());
                if c.len() == 0 {
                    "no FFmpeg diagnostic".to_string()
                } else {
                    let r = text::string_of(c.as_slice(), 0, c.len());
                    assert(r@ =~= s@);
                    r
                }
            },
            Diagnostic::Lost => "FFmpeg diagnostic lock poisoned".to_string(),
        }
    }
}

/// What came of a frame that was handed to the process.
pub enum PipeEvent {
    /// The process is gone, with this status.
    Exited(String),
    /// Its input is closed.
    InputClosed,
    /// The frame could not be written, for this reason.
    WriteFailed(String),
    /// It handed out a packet.
    Packet(Vec<u8>),
    /// Its output could not be read, for this reason.
    ReadFailed(String),
    /// It has no packet yet.
    Nothing,
    /// Its output is closed.
    OutputClosed,
}

/// What is said of an event that ends the stream.
pub open spec fn pipe_error(b: BackendView, e: PipeEvent, d: Diagnostic) -> Seq<char> {
    match e {
        PipeEvent::Exited(status) => "FFmpeg "@ + description(b) + " encoder exited ("@ + status@
            + "): "@ + diagnostic_text(d),
        PipeEvent::InputClosed => "FFmpeg hardware encoder input is closed"@,
        PipeEvent::WriteFailed(why) => "write frame to FFmpeg "@ + description(b) + " encoder: "@
            + diagnostic_text(d) + ": "@ + why@,
        PipeEvent::ReadFailed(why) => "read FFmpeg "@ + description(b) + " output: "@ + why@ + ": "@
            + diagnostic_text(d),
        PipeEvent::OutputClosed => "FFmpeg "@ + description(b) + " output closed: "@
            + diagnostic_text(d),
        PipeEvent::Packet(_) => Seq::empty(),
        PipeEvent::Nothing => Seq::empty(),
    }
}

/// What comes of a frame that was handed to the process.
pub open spec fn pipe_step(
    b: BackendView,
    e: PipeEvent,
    d: Diagnostic,
    r: Result<Vec<u8>, String>,
) -> bool {
    match r {
        Ok(p) => match e {
            PipeEvent::Packet(bytes) => p@ == bytes@,
            PipeEvent::Nothing => p@.len() == 0,
            _ => false,
        },
        Err(m) => !(e is Packet) && !(e is Nothing) && m@ == pipe_error(b, e, d),
    }
}

/// The packet that came of a frame, empty when the process has none yet.
pub fn encoded(b: &HardwareBackend, e: PipeEvent, d: &Diagnostic) -> (r: Result<Vec<u8>, String>)
    ensures
        pipe_step(b@, e, *d, r),
{
    match e {
        PipeEvent::Packet(bytes) => Ok(bytes),
        PipeEvent::Nothing => Ok(Vec::new()),
        PipeEvent::Exited(status) => {
            let mut m = "FFmpeg ".to_string();
            m.append(b.describe().as_str());
            m.append(" encoder exited (");
            m.append(status.as_str());
            m.append("): ");
            m.append(d.text().as_str());
            Err(m)
        },
        PipeEvent::InputClosed => Err("FFmpeg hardware encoder input is closed".to_string()),
        PipeEvent::WriteFailed(why) => {
            let mut m = "write frame to FFmpeg ".to_string();
            m.append(b.describe().as_str());
            m.append(" encoder: ");
            m.append(d.text().as_str());
            m.append(": ");
            m.append(why.as_str());
            Err(m)
        },
        PipeEvent::ReadFailed(why) => {
            let mut m = "read FFmpeg ".to_string();
            m.append(b.describe().as_str());
            m.append(" output: ");
            m.append(why.as_str());
            m.append(": ");
            m.append(d.text().as_str());
            Err(m)
        },
        PipeEvent::OutputClosed => {
            let mut m = "FFmpeg ".to_string();
            m.append(b.describe().as_str());
            m.append(" output closed: ");
            m.append(d.text().as_str());
            Err(m)
        },
    }
}

/// What a hardware encoder was started with, for an encoder on the processor to take over.
#[derive(Clone, Copy, Debug, PartialEq, Eq, Structural)]
pub struct EncoderSetup {
    /// Width of the picture.
    pub width: u32,
    /// Height of the picture.
    pub height: u32,
    /// Frames per second.
    pub fps: u32,
    /// Bit rate in kbit/s.
    pub bitrate_kbps: u32,
}

impl EncoderSetup {
    /// A setup whose frame rate is never zero.
    pub fn new(width: u32, height: u32, fps: u32, bitrate_kbps: u32) -> (s: EncoderSetup)
        ensures
            s == (EncoderSetup { width, height, fps: rate_of(fps), bitrate_kbps }),
    {
        EncoderSetup { width, height, fps: rate(fps), bitrate_kbps }
    }

    /// Width, height, frame rate and bit rate.
    pub fn cpu_fallback_config(&self) -> (r: (u32, u32, u32, u32))
        ensures
            r == (self.width, self.height, self.fps, self.bitrate_kbps),
    {
        (self.width, self.height, self.fps, self.bitrate_kbps)
    }
}

/// Whether the option is given this value: it stands somewhere among the arguments with the value
/// right behind it.
pub open spec fn option_is(args: Seq<Seq<char>>, option: Seq<char>, value: Seq<char>) -> bool {
    exists|i: int|
        0 <= i < args.len() - 1 && #[trigger] args[i] == option && args[i + 1] == value
}

/// The stream is encoded at the size, frame rate and bit rate that were asked for, from raw
/// pictures to IVF, with at most the bit rate, a buffer of two seconds and a keyframe every two
/// seconds.
pub proof fn law_stream_is_encoded_as_asked(width: u32, height: u32, fps: u32, kbps: u32, b: BackendView)
    requires
        0 < fps <= 0x7FFF_FFFF,
        kbps <= 0x7FFF_FFFF,
    ensures
        ({
            let args = encode_arguments(width, height, fps, kbps, b);
            &&& option_is(args, "-pixel_format"@, "bgra"@)
            &&& option_is(args, "-video_size"@, decimal(width as nat) + "x"@ + decimal(height as nat))
            &&& option_is(args, "-framerate"@, decimal(fps as nat))
            &&& option_is(args, "-i"@, "pipe:0"@)
            &&& option_is(args, "-b:v"@, decimal(kbps as nat) + "k"@)
            &&& option_is(args, "-maxrate"@, decimal(kbps as nat) + "k"@)
            &&& option_is(args, "-bufsize"@, decimal((2 * kbps) as nat) + "k"@)
            &&& option_is(args, "-g"@, decimal((2 * fps) as nat))
            &&& option_is(args, "-f"@, "ivf"@)
            &&& args.last() == "pipe:1"@
        }),
{
    let args = encode_arguments(width, height, fps, kbps, b);
    let d = device_args(b).len() as int;
    let e = encoder_args(b).len() as int;
    assert(args[4 + d + 2] == "-pixel_format"@ && args[4 + d + 3] == "bgra"@);
    assert(args[4 + d + 4] == "-video_size"@ && args[4 + d + 5] == size_text(width, height));
    assert(args[4 + d + 6] == "-framerate"@ && args[4 + d + 7] == decimal(fps as nat));
    assert(args[4 + d + 8] == "-i"@ && args[4 + d + 9] == "pipe:0"@);
    let t = 15 + d + e;
    assert(args[t] == "-b:v"@ && args[t + 1] == kilo_text(kbps));
    assert(args[t + 2] == "-maxrate"@ && args[t + 3] == kilo_text(kbps));
    assert(args[t + 4] == "-bufsize"@ && args[t + 5] == kilo_text(doubled_of(kbps)));
    assert(args[t + 6] == "-g"@ && args[t + 7] == decimal(doubled_of(fps) as nat));
    assert(args[t + 10] == "-f"@ && args[t + 11] == "ivf"@);
}

/// Each backend is run with its own encoder, VA-API on the device that it was found at; the test
/// run has the same encoder, device, size and bit rate as the stream, encodes one picture and keeps
/// nothing.
pub proof fn law_test_run_is_like_the_stream(width: u32, height: u32, fps: u32, kbps: u32, b: BackendView)
    requires
        fps > 0,
    ensures
        ({
            let args = encode_arguments(width, height, fps, kbps, b);
            let probe = probe_arguments(width, height, fps, kbps, b);
            let codec = match b {
                BackendView::Vaapi(_) => "av1_vaapi"@,
                BackendView::Nvenc => "av1_nvenc"@,
            };
            &&& option_is(args, "-c:v"@, codec) && option_is(probe, "-c:v"@, codec)
            &&& b matches BackendView::Vaapi(device) ==> option_is(args, "-vaapi_device"@, device)
                && option_is(probe, "-vaapi_device"@, device)
            &&& b is Vaapi ==> option_is(args, "-vf"@, "format=nv12,hwupload"@)
            &&& b is Nvenc ==> option_is(args, "-pix_fmt"@, "yuv420p"@) && option_is(
                args,
                "-bf"@,
                "0"@,
            )
            &&& option_is(probe, "-b:v"@, decimal(kbps as nat) + "k"@)
            &&& option_is(probe, "-frames:v"@, "1"@)
            &&& option_is(
                probe,
                "-i"@,
                "color=c=black:s="@ + (decimal(width as nat) + "x"@ + decimal(height as nat)) + ":r="@
                    + decimal(fps as nat),
            )
            &&& option_is(probe, "-f"@, "null"@)
        }),
{
    let args = encode_arguments(width, height, fps, kbps, b);
    let probe = probe_arguments(width, height, fps, kbps, b);
    let d = device_args(b).len() as int;
    let e = encoder_args(b).len() as int;
    match b {
        BackendView::Vaapi(device) => {
            assert(args[4] == "-vaapi_device"@ && args[5] == device);
            assert(probe[4] == "-vaapi_device"@ && probe[5] == device);
            assert(args[17] == "-vf"@ && args[18] == "format=nv12,hwupload"@);
            assert(args[19] == "-c:v"@ && args[20] == "av1_vaapi"@);
            assert(probe[15] == "-c:v"@ && probe[16] == "av1_vaapi"@);
        },
        BackendView::Nvenc => {
            assert(args[15] == "-c:v"@ && args[16] == "av1_nvenc"@);
            assert(args[17] == "-pix_fmt"@ && args[18] == "yuv420p"@);
            assert(args[19] == "-bf"@ && args[20] == "0"@);
            assert(probe[11] == "-c:v"@ && probe[12] == "av1_nvenc"@);
        },
    }
    assert(probe[4 + d + 2] == "-i"@ && probe[4 + d + 3] == "color=c=black:s="@ + size_text(
        width,
        height,
    ) + ":r="@ + decimal(fps as nat));
    assert(probe[4 + d + 4] == "-frames:v"@ && probe[4 + d + 5] == "1"@);
    let t = 11 + d + e;
    assert(probe[t] == "-b:v"@ && probe[t + 1] == kilo_text(kbps));
    assert(probe[t + 2] == "-f"@ && probe[t + 3] == "null"@);
}

/// A size is taken if neither side is zero and both are even, and a render node is known by how its
/// name begins.
pub proof fn law_sizes_and_nodes(width: u32, height: u32, tail: Seq<char>)
    ensures
        size_fits(width, height) <==> width > 0 && height > 0 && width % 2 == 0 && height % 2 == 0,
        is_render_node("renderD"@ + tail),
        !is_render_node("card0"@),
{
    reveal_strlit("renderD");
    reveal_strlit("card0");
    let name = "renderD"@ + tail;
    assert(name.subrange(0, 7) =~= "renderD"@);
    assert("renderD"@.len() == 7);
}

/// A program that was named counts more than the one that comes with the server, and that more than
/// whatever is on the search path.
pub proof fn law_program_that_is_run(bundled: bool)
    ensures
        binary_of(true, bundled) == FfmpegBinary::Named,
        binary_of(false, true) == FfmpegBinary::Bundled,
        binary_of(false, false) == FfmpegBinary::OnPath,
{
}

/// Every render node is listed by its path in the device directory, and nothing else is.
pub proof fn law_nodes_are_listed(names: Seq<Seq<char>>, i: int, k: int)
    ensures
        0 <= i < names.len() && is_render_node(names[i]) ==> node_paths(names).contains(
            "/dev/dri/"@ + names[i],
        ),
        0 <= k < node_paths(names).len() ==> exists|j: int|
            0 <= j < names.len() && is_render_node(#[trigger] names[j]) && node_paths(names)[k]
                == "/dev/dri/"@ + names[j],
{
    let keep = |n: Seq<char>| is_render_node(n);
    let kept = names.filter(keep);
    let paths = kept.map_values(|n: Seq<char>| "/dev/dri/"@ + n);
    assert(paths == node_paths(names));
    if 0 <= i < names.len() && is_render_node(names[i]) {
        names.lemma_filter_contains(keep, i);
        let j = choose|j: int| 0 <= j < kept.len() && kept[j] == names[i];
        assert(paths[j] == "/dev/dri/"@ + names[i]);
    }
    if 0 <= k < paths.len() {
        names.lemma_filter_pred(keep, k);
        lemma_kept_is_there(names, keep, k);
        let j = choose|j: int| 0 <= j < names.len() && names[j] == kept[k];
        assert(is_render_node(names[j]));
    }
}

proof fn lemma_kept_is_there(v: Seq<Seq<char>>, keep: spec_fn(Seq<char>) -> bool, i: int)
    requires
        0 <= i < v.filter(keep).len(),
    ensures
        v.contains(v.filter(keep)[i]),
    decreases v.len(),
{
    reveal(Seq::filter);
    let rest = v.drop_last();
    let x = v.filter(keep)[i];
    if i < rest.filter(keep).len() {
        lemma_kept_is_there(rest, keep, i);
        let k = choose|k: int| 0 <= k < rest.len() && rest[k] == x;
        assert(v[k] == x);
    } else {
        assert(v[v.len() - 1] == x);
    }
}

/// What is said of a backend names the device that it was tried on, and what is said of a failure
/// names the backend and the reason.
pub proof fn law_failures_name_the_backend(device: Seq<char>, f: Failure, more: Seq<Failure>)
    ensures
        text::occurs(description(BackendView::Vaapi(device)), device),
        text::occurs(failure_text(f), description(f.backend@)),
        text::occurs(failure_text(f), f.error@),
        failures_text(seq![f]) == failure_text(f),
        more.len() > 0 ==> failures_text(more.push(f)) == failures_text(more) + "; "@
            + failure_text(f),
{
    text::law_found_wherever_it_stands("VA-API ("@, device, ")"@);
    let name = description(f.backend@);
    let none = Seq::<char>::empty();
    text::law_found_wherever_it_stands(none, name, ": "@ + f.error@);
    assert(none + name + (": "@ + f.error@) =~= failure_text(f));
    text::law_found_wherever_it_stands(name + ": "@, f.error@, none);
    assert(name + ": "@ + f.error@ + none =~= failure_text(f));
    assert(more.push(f).drop_last() =~= more);
}

/// Diagnostics are passed on; where there is none, or an empty one, that is said.
pub proof fn law_diagnostics(line: String)
    ensures
        line@.len() > 0 ==> diagnostic_text(Diagnostic::Line(line)) == line@,
        line@.len() == 0 ==> diagnostic_text(Diagnostic::Line(line)) == diagnostic_text(
            Diagnostic::Silent,
        ),
        diagnostic_text(Diagnostic::Silent) == "no FFmpeg diagnostic"@,
{
}

/// A packet is passed on as it is, a process without one gives an empty one, and everything else is a
/// failure that is told with the process's own words.
pub proof fn law_packets_are_passed_on(
    b: BackendView,
    e: PipeEvent,
    d: Diagnostic,
    r: Result<Vec<u8>, String>,
)
    requires
        pipe_step(b, e, d, r),
    ensures
        e matches PipeEvent::Packet(bytes) ==> (r matches Ok(p) && p@ == bytes@),
        e is Nothing ==> (r matches Ok(p) && p@.len() == 0),
        e is Exited || e is InputClosed || e is WriteFailed || e is ReadFailed || e is OutputClosed
            ==> r is Err,
        e is Exited || e is OutputClosed || e is ReadFailed ==> (r matches Err(m)
            && diagnostic_text(d).is_suffix_of(m@)),
        e matches PipeEvent::WriteFailed(why) ==> (r matches Err(m) && why@.is_suffix_of(m@)),
{
    if let Err(m) = r {
        let t = diagnostic_text(d);
        if e is Exited || e is OutputClosed || e is ReadFailed {
            assert(t =~= m@.subrange(m@.len() - t.len(), m@.len() as int));
        }
        if let PipeEvent::WriteFailed(why) = e {
            assert(why@ =~= m@.subrange(m@.len() - why@.len(), m@.len() as int));
        }
    }
}

} // verus!
