//! Video encoder selection for screen recording.
//!
//! The candidates are probed in preference order; for each codec/backend the
//! first candidate that works is kept, and the kept encoders are ordered by
//! priority (lower is better: hardware before software).
use vstd::prelude::*;

verus! {

/// Container formats a recording can be written to.
#[derive(Clone, Copy, Debug, PartialEq, Eq, Structural)]
pub enum Container {
    Mp4,
    Mkv,
    Webm,
}

/// Codec type.
#[derive(Clone, Copy, Debug, PartialEq, Eq, Structural)]
pub enum Codec {
    H264,
    H265,
    VP9,
    AV1,
}

/// The display name of a codec.
pub open spec fn codec_name(c: Codec) -> Seq<char> {
    match c {
        Codec::H264 => "H.264"@,
        Codec::H265 => "H.265"@,
        Codec::VP9 => "VP9"@,
        Codec::AV1 => "AV1"@,
    }
}

/// The GStreamer parser element needed to mux a codec, if any.
pub open spec fn codec_parser(c: Codec) -> Option<Seq<char>> {
    match c {
        Codec::H264 => Some("h264parse"@),
        Codec::H265 => Some("h265parse"@),
        Codec::AV1 => Some("av1parse"@),
        Codec::VP9 => None,
    }
}

/// Which containers the recording pipeline can mux a codec into: Matroska
/// takes everything, MP4 only H.264/H.265, WebM only VP9/AV1.
pub open spec fn codec_supports(c: Codec, container: Container) -> bool {
    match container {
        Container::Mkv => true,
        Container::Mp4 => c == Codec::H264 || c == Codec::H265,
        Container::Webm => c == Codec::VP9 || c == Codec::AV1,
    }
}

/// The container to fall back to when the configured one is incompatible.
pub open spec fn codec_default_container(c: Codec) -> Container {
    match c {
        Codec::H264 | Codec::H265 => Container::Mp4,
        Codec::VP9 | Codec::AV1 => Container::Mkv,
    }
}

/// `pat` occurs in `s` as a contiguous run of characters.
pub open spec fn contains_seq(s: Seq<char>, pat: Seq<char>) -> bool {
    exists|i: int| 0 <= i && i + pat.len() <= s.len() && #[trigger] s.subrange(i, i + pat.len()) == pat
}

/// The codec an encoder element name suggests, from the substrings it holds.
pub open spec fn codec_of_element(name: Seq<char>) -> Option<Codec> {
    if contains_seq(name, "h265"@) || contains_seq(name, "hevc"@) {
        Some(Codec::H265)
    } else if contains_seq(name, "h264"@) || contains_seq(name, "x264"@) || contains_seq(name, "openh264"@) {
        Some(Codec::H264)
    } else if contains_seq(name, "av1"@) {
        Some(Codec::AV1)
    } else if contains_seq(name, "vp9"@) {
        Some(Codec::VP9)
    } else {
        None
    }
}

/// Whether `needle` occurs in `hay`.
pub fn str_contains(hay: &str, needle: &str) -> (r: bool)
    ensures
        r == contains_seq(hay@, needle@),
{
    let n = hay.unicode_len();
    let m = needle.unicode_len();
    if m > n {
        proof {
            assert forall|i: int| !(0 <= i && i + needle@.len() <= hay@.len() && #[trigger] hay@.subrange(
                i,
                i + needle@.len(),
            ) == needle@) by {}
        }
        return false;
    }
    let mut i: usize = 0;
    while i <= n - m
        invariant
            n == hay@.len(),
            m == needle@.len(),
            m <= n,
            i <= n - m + 1,
            forall|k: int| 0 <= k < i ==> #[trigger] hay@.subrange(k, k + m) != needle@,
        decreases n - m + 1 - i,
    {
        let mut j: usize = 0;
        let mut same = true;
        while j < m
            invariant
                n == hay@.len(),
                m == needle@.len(),
                i + m <= n,
                j <= m,
                same == (forall|l: int| 0 <= l < j ==> hay@[i + l] == needle@[l]),
            decreases m - j,
        {
            if hay.get_char(i + j) != needle.get_char(j) {
                same = false;
            }
            j = j + 1;
        }
        if same {
            proof {
                assert(hay@.subrange(i as int, i + m) =~= needle@);
            }
            return true;
        }
        proof {
            let l = choose|l: int| 0 <= l < m && hay@[i + l] != needle@[l];
            assert(hay@.subrange(i as int, i + m)[l] != needle@[l]);
        }
        i = i + 1;
    }
    false
}

impl Codec {
    pub fn name(&self) -> (r: &'static str)
        ensures
            r@ == codec_name(*self),
    {
        match self {
            Codec::H264 => "H.264",
            Codec::H265 => "H.265",
            Codec::VP9 => "VP9",
            Codec::AV1 => "AV1",
        }
    }

    /// GStreamer parser element required to mux this codec, if any.
    ///
    /// H.264/H.265 need a parser for MP4; VP9 goes into WebM/MKV without one.
    pub fn parser_element(&self) -> (r: Option<&'static str>)
        ensures
            match r {
                Some(p) => codec_parser(*self) == Some(p@),
                None => codec_parser(*self) is None,
            },
    {
        match self {
            Codec::H264 => Some("h264parse"),
            Codec::H265 => Some("h265parse"),
            Codec::AV1 => Some("av1parse"),
            Codec::VP9 => None,
        }
    }

    /// Whether this codec can be muxed into the given container by the pipeline.
    ///
    /// Matroska (MKV) is a catch-all. MP4 is only offered for H.264/H.265.
    pub fn supports_container(&self, container: Container) -> (r: bool)
        ensures
            r == codec_supports(*self, container),
    {
        match (self, container) {
            (_, Container::Mkv) => true,
            (Codec::H264, Container::Mp4) | (Codec::H265, Container::Mp4) => true,
            (Codec::VP9, Container::Mp4) | (Codec::AV1, Container::Mp4) => false,
            (_, Container::Webm) => match self {
                Codec::VP9 | Codec::AV1 => true,
                _ => false,
            },
        }
    }

    /// Container to fall back to when the configured one is incompatible.
    pub fn default_container(&self) -> (r: Container)
        ensures
            r == codec_default_container(*self),
    {
        match self {
            Codec::H264 | Codec::H265 => Container::Mp4,
            Codec::VP9 | Codec::AV1 => Container::Mkv,
        }
    }

    /// Best-effort codec inference from a GStreamer encoder element name.
    pub fn from_element_name(name: &str) -> (r: Option<Codec>)
        ensures
            r == codec_of_element(name@),
    {
        if str_contains(name, "h265") || str_contains(name, "hevc") {
            Some(Codec::H265)
        } else if str_contains(name, "h264") || str_contains(name, "x264") || str_contains(
            name,
            "openh264",
        ) {
            Some(Codec::H264)
        } else if str_contains(name, "av1") {
            Some(Codec::AV1)
        } else if str_contains(name, "vp9") {
            Some(Codec::VP9)
        } else {
            None
        }
    }
}

/// Information about an available encoder.
#[derive(Clone, Debug, PartialEq, Eq)]
pub struct EncoderInfo {
    /// Human-readable name (e.g., "VA-API H.264")
    pub name: String,
    /// GStreamer element name (e.g., "vaapih264enc")
    pub gst_element: String,
    pub codec: Codec,
    /// Whether this is hardware-accelerated
    pub hardware: bool,
    /// Whether this encoder can participate in the real DMA-BUF zero-copy path
    pub supports_dmabuf_zero_copy: bool,
    /// Priority (lower = better, hardware encoders have lower priority)
    pub priority: u8,
}

/// The mathematical value of an `EncoderInfo`, and of a `Candidate`.
pub struct EncoderView {
    pub name: Seq<char>,
    pub gst_element: Seq<char>,
    pub codec: Codec,
    pub hardware: bool,
    pub supports_dmabuf_zero_copy: bool,
    pub priority: u8,
}

impl View for EncoderInfo {
    type V = EncoderView;

    open spec fn view(&self) -> EncoderView {
        EncoderView {
            name: self.name@,
            gst_element: self.gst_element@,
            codec: self.codec,
            hardware: self.hardware,
            supports_dmabuf_zero_copy: self.supports_dmabuf_zero_copy,
            priority: self.priority,
        }
    }
}

/// The indicator appended to an encoder's name for display.
pub open spec fn hardware_suffix(hardware: bool) -> Seq<char> {
    if hardware {
        " (Hardware)"@
    } else {
        " (Software)"@
    }
}

impl EncoderInfo {
    /// Display name with hardware/software indicator.
    pub fn display_name(&self) -> (r: String)
        ensures
            r@ == self.name@ + hardware_suffix(self.hardware),
            self.hardware ==> r@ == self.name@ + " (Hardware)"@,
            !self.hardware ==> r@ == self.name@ + " (Software)"@,
    {
        let hw_indicator = if self.hardware {
            " (Hardware)"
        } else {
            " (Software)"
        };
        let mut r = self.name.clone();
        r.append(hw_indicator);
        r
    }

    /// Which capture path the encoder can use, for display.
    pub fn zero_copy_display_name(&self) -> (r: &'static str)
        ensures
            r@ == if self.supports_dmabuf_zero_copy {
                "DMA-BUF zero-copy capable"@
            } else {
                "copied-memory path only"@
            },
    {
        if self.supports_dmabuf_zero_copy {
            "DMA-BUF zero-copy capable"
        } else {
            "copied-memory path only"
        }
    }
}

/// A candidate encoder: an element name to probe plus the metadata to publish
/// if it resolves.
#[derive(Clone, Copy, Debug, PartialEq, Eq)]
pub struct Candidate {
    pub name: &'static str,
    pub gst_element: &'static str,
    pub codec: Codec,
    pub hardware: bool,
    pub supports_dmabuf_zero_copy: bool,
    pub priority: u8,
}

impl View for Candidate {
    type V = EncoderView;

    open spec fn view(&self) -> EncoderView {
        EncoderView {
            name: self.name@,
            gst_element: self.gst_element@,
            codec: self.codec,
            hardware: self.hardware,
            supports_dmabuf_zero_copy: self.supports_dmabuf_zero_copy,
            priority: self.priority,
        }
    }
}

/// A candidate's entry in the table.
pub open spec fn cand(
    name: Seq<char>,
    gst_element: Seq<char>,
    codec: Codec,
    hardware: bool,
    supports_dmabuf_zero_copy: bool,
    priority: u8,
) -> EncoderView {
    EncoderView { name, gst_element, codec, hardware, supports_dmabuf_zero_copy, priority }
}

/// The candidate encoders, one preference-ordered group per codec/backend.
///
/// Legacy `vaapi*` elements come first so systems that still have them keep
/// the DMA-BUF zero-copy path; the modern `va*` elements go through the
/// copied-memory pipeline.
pub open spec fn candidate_table() -> Seq<Seq<EncoderView>> {
    seq![
        // VA-API H.264 (Intel/AMD)
        seq![
            cand("VA-API H.264"@, "vaapih264enc"@, Codec::H264, true, true, 10),
            cand("VA-API H.264"@, "vah264enc"@, Codec::H264, true, false, 10),
            cand("VA-API H.264 (low-power)"@, "vah264lpenc"@, Codec::H264, true, false, 10),
        ],
        // VA-API H.265
        seq![
            cand("VA-API H.265"@, "vaapih265enc"@, Codec::H265, true, true, 11),
            cand("VA-API H.265"@, "vah265enc"@, Codec::H265, true, false, 11),
            cand("VA-API H.265 (low-power)"@, "vah265lpenc"@, Codec::H265, true, false, 11),
        ],
        // VA-API VP9
        seq![
            cand("VA-API VP9"@, "vaapivp9enc"@, Codec::VP9, true, true, 12),
            cand("VA-API VP9"@, "vavp9enc"@, Codec::VP9, true, false, 12),
        ],
        // NVENC H.264 (NVIDIA)
        seq![
            cand("NVENC H.264"@, "nvh264enc"@, Codec::H264, true, false, 20),
            cand("NVENC H.264"@, "nvcudah264enc"@, Codec::H264, true, false, 20),
        ],
        // NVENC H.265
        seq![
            cand("NVENC H.265"@, "nvh265enc"@, Codec::H265, true, false, 21),
            cand("NVENC H.265"@, "nvcudah265enc"@, Codec::H265, true, false, 21),
        ],
        // Software H.264: x264 preferred, openh264 as a fallback
        seq![
            cand("x264 H.264"@, "x264enc"@, Codec::H264, false, false, 100),
            cand("OpenH264"@, "openh264enc"@, Codec::H264, false, false, 100),
        ],
        // Software VP9
        seq![cand("VP9"@, "vp9enc"@, Codec::VP9, false, false, 101)],
    ]
}

/// The views of groups of candidates.
pub open spec fn groups_view(groups: Seq<Vec<Candidate>>) -> Seq<Seq<EncoderView>> {
    groups.map_values(|g: Vec<Candidate>| g@.map_values(|c: Candidate| c@))
}

fn candidate(
    name: &'static str,
    gst_element: &'static str,
    codec: Codec,
    hardware: bool,
    supports_dmabuf_zero_copy: bool,
    priority: u8,
) -> (r: Candidate)
    ensures
        r@ == cand(name@, gst_element@, codec, hardware, supports_dmabuf_zero_copy, priority),
{
    Candidate { name, gst_element, codec, hardware, supports_dmabuf_zero_copy, priority }
}

/// The candidate encoders, one preference-ordered group per codec/backend.
pub fn candidate_groups() -> (r: Vec<Vec<Candidate>>)
    ensures
        groups_view(r@) == candidate_table(),
{
    let g1 = vec![
        candidate("VA-API H.264", "vaapih264enc", Codec::H264, true, true, 10),
        candidate("VA-API H.264", "vah264enc", Codec::H264, true, false, 10),
        candidate("VA-API H.264 (low-power)", "vah264lpenc", Codec::H264, true, false, 10),
    ];
    let g2 = vec![
        candidate("VA-API H.265", "vaapih265enc", Codec::H265, true, true, 11),
        candidate("VA-API H.265", "vah265enc", Codec::H265, true, false, 11),
        candidate("VA-API H.265 (low-power)", "vah265lpenc", Codec::H265, true, false, 11),
    ];
    let g3 = vec![
        candidate("VA-API VP9", "vaapivp9enc", Codec::VP9, true, true, 12),
        candidate("VA-API VP9", "vavp9enc", Codec::VP9, true, false, 12),
    ];
    let g4 = vec![
        candidate("NVENC H.264", "nvh264enc", Codec::H264, true, false, 20),
        candidate("NVENC H.264", "nvcudah264enc", Codec::H264, true, false, 20),
    ];
    let g5 = vec![
        candidate("NVENC H.265", "nvh265enc", Codec::H265, true, false, 21),
        candidate("NVENC H.265", "nvcudah265enc", Codec::H265, true, false, 21),
    ];
    let g6 = vec![
        candidate("x264 H.264", "x264enc", Codec::H264, false, false, 100),
        candidate("OpenH264", "openh264enc", Codec::H264, false, false, 100),
    ];
    let g7 = vec![candidate("VP9", "vp9enc", Codec::VP9, false, false, 101)];
    let r = vec![g1, g2, g3, g4, g5, g6, g7];
    proof {
        assert(groups_view(r@) =~= candidate_table()) by {
            assert(r@[0]@.map_values(|c: Candidate| c@) =~= candidate_table()[0]);
            assert(r@[1]@.map_values(|c: Candidate| c@) =~= candidate_table()[1]);
            assert(r@[2]@.map_values(|c: Candidate| c@) =~= candidate_table()[2]);
            assert(r@[3]@.map_values(|c: Candidate| c@) =~= candidate_table()[3]);
            assert(r@[4]@.map_values(|c: Candidate| c@) =~= candidate_table()[4]);
            assert(r@[5]@.map_values(|c: Candidate| c@) =~= candidate_table()[5]);
            assert(r@[6]@.map_values(|c: Candidate| c@) =~= candidate_table()[6]);
        }
    }
    r
}

/// The views of a sequence of encoders.
pub open spec fn encoders_view(s: Seq<EncoderInfo>) -> Seq<EncoderView> {
    s.map_values(|e: EncoderInfo| e@)
}

/// What the probe reported for a group: `Some(j)` when candidate `j` worked
/// and every earlier one failed, `None` when every candidate failed.
pub open spec fn group_outcome<P: Fn(&Candidate) -> bool>(probe: P, g: Seq<Candidate>, pick: Option<int>) -> bool {
    match pick {
        Some(j) => {
            &&& 0 <= j < g.len()
            &&& call_ensures(probe, (&g[j],), true)
            &&& forall|k: int| 0 <= k < j ==> call_ensures(probe, (&g[k],), false)
        },
        None => forall|k: int| 0 <= k < g.len() ==> call_ensures(probe, (&g[k],), false),
    }
}

/// The candidates picked from the groups, in group order.
pub open spec fn picked(groups: Seq<Seq<EncoderView>>, picks: Seq<Option<int>>) -> Seq<EncoderView>
    decreases groups.len(),
{
    if groups.len() == 0 || picks.len() != groups.len() {
        Seq::empty()
    } else {
        let rest = picked(groups.drop_last(), picks.drop_last());
        match picks.last() {
            Some(j) => rest.push(groups.last()[j]),
            None => rest,
        }
    }
}

/// Position of the first entry with a priority above `p` (the length if none).
pub open spec fn first_above(s: Seq<EncoderView>, p: u8) -> int
    decreases s.len(),
{
    if s.len() == 0 {
        0
    } else if s[0].priority > p {
        0
    } else {
        1 + first_above(s.drop_first(), p)
    }
}

/// The stable sort by priority: each entry in turn is inserted after every
/// entry of equal or lower priority.
pub open spec fn sorted_by_priority(s: Seq<EncoderView>) -> Seq<EncoderView>
    decreases s.len(),
{
    if s.len() == 0 {
        s
    } else {
        let r = sorted_by_priority(s.drop_last());
        r.insert(first_above(r, s.last().priority), s.last())
    }
}

/// Priorities never decrease along the sequence.
pub open spec fn priorities_ascending(s: Seq<EncoderView>) -> bool {
    forall|i: int, j: int| 0 <= i <= j < s.len() ==> #[trigger] s[i].priority <= #[trigger] s[j].priority
}

/// What `first_above` finds.
pub proof fn lemma_first_above(s: Seq<EncoderView>, p: u8)
    ensures
        0 <= first_above(s, p) <= s.len(),
        forall|k: int| 0 <= k < first_above(s, p) ==> s[k].priority <= p,
        first_above(s, p) < s.len() ==> s[first_above(s, p)].priority > p,
    decreases s.len(),
{
    if s.len() > 0 && s[0].priority <= p {
        lemma_first_above(s.drop_first(), p);
        assert forall|k: int| 0 <= k < first_above(s, p) implies s[k].priority <= p by {
            if k > 0 {
                assert(s[k] == s.drop_first()[k - 1]);
            }
        }
    }
}

/// Sorting keeps the length.
pub proof fn lemma_sorted_len(s: Seq<EncoderView>)
    ensures
        sorted_by_priority(s).len() == s.len(),
    decreases s.len(),
{
    if s.len() > 0 {
        lemma_sorted_len(s.drop_last());
        lemma_first_above(sorted_by_priority(s.drop_last()), s.last().priority);
    }
}

/// The detected encoders come out ordered by priority.
pub proof fn lemma_sorted_is_ascending(s: Seq<EncoderView>)
    ensures
        priorities_ascending(sorted_by_priority(s)),
    decreases s.len(),
{
    if s.len() > 0 {
        let r = sorted_by_priority(s.drop_last());
        let x = s.last();
        lemma_sorted_is_ascending(s.drop_last());
        lemma_first_above(r, x.priority);
        let k = first_above(r, x.priority);
        let r2 = r.insert(k, x);
        assert forall|i: int, j: int| 0 <= i <= j < r2.len() implies #[trigger] r2[i].priority
            <= #[trigger] r2[j].priority by {
            if i < k && j < k {
                assert(r2[i] == r[i] && r2[j] == r[j]);
            } else if i < k && j == k {
                assert(r2[i] == r[i]);
            } else if i < k && j > k {
                assert(r2[i] == r[i] && r2[j] == r[j - 1]);
                assert(r[i].priority <= r[j - 1].priority);
            } else if i == k && j > k {
                assert(r2[j] == r[j - 1]);
                assert(r[k].priority <= r[j - 1].priority);
            } else if i > k {
                assert(r2[i] == r[i - 1] && r2[j] == r[j - 1]);
            }
        }
    }
}

/// Orders encoders by priority, keeping the order of equal priorities.
pub fn sort_by_priority(v: Vec<EncoderInfo>) -> (r: Vec<EncoderInfo>)
    ensures
        encoders_view(r@) == sorted_by_priority(encoders_view(v@)),
{
    let ghost vv = encoders_view(v@);
    let mut r: Vec<EncoderInfo> = Vec::new();
    let mut rest = v;
    let ghost mut done: int = 0;
    proof {
        assert(vv.take(0) =~= Seq::<EncoderView>::empty());
        assert(encoders_view(r@) =~= Seq::<EncoderView>::empty());
        assert(vv.skip(0) =~= vv);
    }
    while rest.len() > 0
        invariant
            0 <= done <= vv.len(),
            encoders_view(rest@) == vv.skip(done),
            encoders_view(r@) == sorted_by_priority(vv.take(done)),
        decreases rest.len(),
    {
        let ghost rv = encoders_view(rest@);
        let ghost old_rest = rest@;
        proof {
            assert(rv.len() == old_rest.len());
            assert(rv[0] == old_rest[0]@);
            assert(vv.skip(done)[0] == vv[done]);
        }
        let x = rest.remove(0);
        proof {
            assert(rest@ =~= old_rest.subrange(1, old_rest.len() as int));
            assert(encoders_view(rest@) =~= rv.subrange(1, rv.len() as int));
            assert(rv.subrange(1, rv.len() as int) =~= vv.skip(done + 1));
        }
        let ghost cur = encoders_view(r@);
        let p = x.priority;
        let mut i: usize = 0;
        proof {
            assert(cur.skip(0) =~= cur);
        }
        while i < r.len() && r[i].priority <= p
            invariant
                cur == encoders_view(r@),
                i <= r.len(),
                first_above(cur, p) == i + first_above(cur.skip(i as int), p),
            decreases r.len() - i,
        {
            proof {
                assert(cur.skip(i as int).drop_first() =~= cur.skip(i + 1));
                assert(cur.skip(i as int)[0] == cur[i as int]);
            }
            i = i + 1;
        }
        proof {
            if i < r.len() {
                assert(cur.skip(i as int)[0] == cur[i as int]);
            } else {
                assert(cur.skip(i as int).len() == 0);
            }
            assert(first_above(cur, p) == i);
        }
        r.insert(i, x);
        proof {
            assert(vv.take(done + 1).drop_last() =~= vv.take(done));
            assert(vv.take(done + 1).last() == vv[done]);
            assert(encoders_view(r@) =~= cur.insert(i as int, vv[done]));
            done = done + 1;
        }
    }
    proof {
        assert(vv.take(done) =~= vv);
    }
    r
}

/// The encoder that a candidate stands for.
fn encoder_info(c: &Candidate) -> (r: EncoderInfo)
    ensures
        r@ == c@,
{
    EncoderInfo {
        name: c.name.to_owned(),
        gst_element: c.gst_element.to_owned(),
        codec: c.codec,
        hardware: c.hardware,
        supports_dmabuf_zero_copy: c.supports_dmabuf_zero_copy,
        priority: c.priority,
    }
}

/// For each group, keeps the first candidate that the probe accepts (the
/// probe is not asked about later ones), then orders the kept encoders by
/// priority.
pub fn select_encoders<P: Fn(&Candidate) -> bool>(groups: &Vec<Vec<Candidate>>, probe: P) -> (r: Vec<EncoderInfo>)
    requires
        forall|c: Candidate| call_requires(probe, (&c,)),
    ensures
        exists|picks: Seq<Option<int>>|
            {
                &&& picks.len() == groups@.len()
                &&& forall|g: int| 0 <= g < groups@.len() ==> group_outcome(probe, #[trigger] groups@[g]@, picks[g])
                &&& encoders_view(r@) == sorted_by_priority(picked(groups_view(groups@), picks))
            },
{
    let ghost gv = groups_view(groups@);
    let mut found_encoders: Vec<EncoderInfo> = Vec::new();
    let ghost mut picks: Seq<Option<int>> = Seq::empty();
    let mut gi: usize = 0;
    proof {
        assert(gv.take(0) =~= Seq::<Seq<EncoderView>>::empty());
        assert(encoders_view(found_encoders@) =~= Seq::<EncoderView>::empty());
    }
    while gi < groups.len()
        invariant
            forall|c: Candidate| call_requires(probe, (&c,)),
            gv == groups_view(groups@),
            gi <= groups@.len(),
            picks.len() == gi,
            forall|g: int| 0 <= g < gi ==> group_outcome(probe, #[trigger] groups@[g]@, picks[g]),
            encoders_view(found_encoders@) == picked(gv.take(gi as int), picks),
        decreases groups@.len() - gi,
    {
        let group = &groups[gi];
        let mut j: usize = 0;
        let mut found: Option<usize> = None;
        while j < group.len() && found.is_none()
            invariant
                forall|c: Candidate| call_requires(probe, (&c,)),
                j <= group@.len(),
                match found {
                    Some(k) => k < group@.len() && group_outcome(probe, group@, Some(k as int)),
                    None => forall|k: int| 0 <= k < j ==> call_ensures(probe, (&group@[k],), false),
                },
            decreases group@.len() - j, if found is None { 1int } else { 0int },
        {
            let ok = probe(&group[j]);
            if ok {
                found = Some(j);
            } else {
                j = j + 1;
            }
        }
        let ghost pick: Option<int> = match found {
            Some(k) => Some(k as int),
            None => None,
        };
        let ghost before = encoders_view(found_encoders@);
        match found {
            Some(k) => {
                let info = encoder_info(&group[k]);
                found_encoders.push(info);
                proof {
                    assert(encoders_view(found_encoders@) =~= before.push(group@[k as int]@));
                }
            },
            None => {},
        }
        proof {
            let old_picks = picks;
            picks = picks.push(pick);
            assert(gv.take(gi + 1).drop_last() =~= gv.take(gi as int));
            assert(picks.drop_last() =~= old_picks);
            assert(gv.take(gi + 1).last() == gv[gi as int]);
            assert(gv[gi as int] == group@.map_values(|c: Candidate| c@));
            assert forall|g: int| 0 <= g < gi + 1 implies group_outcome(probe, #[trigger] groups@[g]@, picks[g]) by {
                if g < gi {
                    assert(picks[g] == old_picks[g]);
                }
            }
        }
        gi = gi + 1;
    }
    proof {
        assert(gv.take(gi as int) =~= gv);
    }
    sort_by_priority(found_encoders)
}

/// Hardware encoders, and only they, rank below priority 100.
pub open spec fn ranked_by_hardware(e: EncoderView) -> bool {
    e.hardware <==> e.priority < 100
}

/// Every entry of `s` is ranked by whether it is hardware.
pub open spec fn all_ranked_by_hardware(s: Seq<EncoderView>) -> bool {
    forall|i: int| 0 <= i < s.len() ==> ranked_by_hardware(#[trigger] s[i])
}

/// The candidate table ranks hardware encoders first.
pub proof fn lemma_table_ranked_by_hardware()
    ensures
        forall|g: int, j: int|
            0 <= g < candidate_table().len() && 0 <= j < candidate_table()[g].len() ==> ranked_by_hardware(
                #[trigger] candidate_table()[g][j],
            ),
{
    let t = candidate_table();
    assert forall|g: int, j: int| 0 <= g < t.len() && 0 <= j < t[g].len() implies ranked_by_hardware(
        #[trigger] t[g][j],
    ) by {
        assert(t[0].len() == 3 && t[1].len() == 3 && t[2].len() == 2 && t[3].len() == 2);
        assert(t[4].len() == 2 && t[5].len() == 2 && t[6].len() == 1);
    }
}

/// The element is one of the legacy `gstreamer-vaapi` encoders.
pub open spec fn is_legacy_vaapi(element: Seq<char>) -> bool {
    "vaapi"@.is_prefix_of(element)
}

/// An encoder keeps the DMA-BUF zero-copy path exactly when its element is a
/// legacy vaapi one.
pub open spec fn zero_copy_iff_legacy_vaapi(e: EncoderView) -> bool {
    e.supports_dmabuf_zero_copy <==> is_legacy_vaapi(e.gst_element)
}

/// In the candidate table, exactly the legacy `vaapi*` elements keep the
/// DMA-BUF zero-copy path, and each comes first in its group; the candidates
/// of one group share their codec, hardware flag and priority.
pub proof fn lemma_table_zero_copy_is_legacy_vaapi()
    ensures
        forall|g: int, j: int|
            0 <= g < candidate_table().len() && 0 <= j < candidate_table()[g].len() ==> {
                let e = #[trigger] candidate_table()[g][j];
                &&& zero_copy_iff_legacy_vaapi(e)
                &&& is_legacy_vaapi(e.gst_element) ==> j == 0
                &&& e.codec == candidate_table()[g][0].codec
                &&& e.hardware == candidate_table()[g][0].hardware
                &&& e.priority == candidate_table()[g][0].priority
            },
{
    reveal_strlit("vaapi");
    reveal_strlit("vaapih264enc");
    reveal_strlit("vah264enc");
    reveal_strlit("vah264lpenc");
    reveal_strlit("vaapih265enc");
    reveal_strlit("vah265enc");
    reveal_strlit("vah265lpenc");
    reveal_strlit("vaapivp9enc");
    reveal_strlit("vavp9enc");
    reveal_strlit("nvh264enc");
    reveal_strlit("nvcudah264enc");
    reveal_strlit("nvh265enc");
    reveal_strlit("nvcudah265enc");
    reveal_strlit("x264enc");
    reveal_strlit("openh264enc");
    reveal_strlit("vp9enc");
    let t = candidate_table();
    assert(t[0].len() == 3 && t[1].len() == 3 && t[2].len() == 2 && t[3].len() == 2);
    assert(t[4].len() == 2 && t[5].len() == 2 && t[6].len() == 1);
    assert forall|g: int, j: int| 0 <= g < t.len() && 0 <= j < t[g].len() implies {
        let e = #[trigger] t[g][j];
        &&& zero_copy_iff_legacy_vaapi(e)
        &&& is_legacy_vaapi(e.gst_element) ==> j == 0
        &&& e.codec == t[g][0].codec
        &&& e.hardware == t[g][0].hardware
        &&& e.priority == t[g][0].priority
    } by {
        let e = t[g][j];
        let v = "vaapi"@;
        if e.supports_dmabuf_zero_copy {
            assert(v =~= e.gst_element.subrange(0, 5));
        } else {
            assert(e.gst_element.len() < 5 || e.gst_element[2] != v[2] || e.gst_element[0] != v[0]);
        }
    }
}

/// Every picked entry has a property that every candidate has.
proof fn lemma_picked_keeps(
    groups: Seq<Seq<EncoderView>>,
    picks: Seq<Option<int>>,
    p: spec_fn(EncoderView) -> bool,
)
    requires
        forall|g: int, j: int| 0 <= g < groups.len() && 0 <= j < groups[g].len() ==> p(#[trigger] groups[g][j]),
        picks_in_range(groups, picks),
    ensures
        forall|i: int| 0 <= i < picked(groups, picks).len() ==> p(#[trigger] picked(groups, picks)[i]),
    decreases groups.len(),
{
    if groups.len() > 0 && picks.len() == groups.len() {
        let gs = groups.drop_last();
        let ps = picks.drop_last();
        assert forall|g: int, j: int| 0 <= g < gs.len() && 0 <= j < gs[g].len() implies p(#[trigger] gs[g][j]) by {
            assert(gs[g] == groups[g]);
        }
        assert forall|g: int| 0 <= g < ps.len() && (#[trigger] ps[g]) is Some implies 0 <= ps[g]->0 < gs[g].len() by {
            assert(ps[g] == picks[g]);
            assert(gs[g] == groups[g]);
        }
        lemma_picked_keeps(gs, ps, p);
        let last = groups.len() - 1;
        let rest = picked(gs, ps);
        let all = picked(groups, picks);
        assert forall|i: int| 0 <= i < all.len() implies p(#[trigger] all[i]) by {
            if i < rest.len() {
                assert(all[i] == rest[i]);
            } else {
                let j = picks.last()->0;
                assert(picks[last] is Some);
                assert(all[i] == groups[last][j]);
            }
        }
    }
}

/// Picking keeps a property that every candidate has.
proof fn lemma_picked_ranked(groups: Seq<Seq<EncoderView>>, picks: Seq<Option<int>>)
    requires
        forall|g: int, j: int|
            0 <= g < groups.len() && 0 <= j < groups[g].len() ==> ranked_by_hardware(#[trigger] groups[g][j]),
        forall|g: int| 0 <= g < picks.len() && (#[trigger] picks[g]) is Some ==> 0 <= picks[g]->0 < groups[g].len(),
    ensures
        all_ranked_by_hardware(picked(groups, picks)),
    decreases groups.len(),
{
    if groups.len() > 0 && picks.len() == groups.len() {
        let gs = groups.drop_last();
        let ps = picks.drop_last();
        assert forall|g: int, j: int| 0 <= g < gs.len() && 0 <= j < gs[g].len() implies ranked_by_hardware(
            #[trigger] gs[g][j],
        ) by {
            assert(gs[g] == groups[g]);
        }
        assert forall|g: int| 0 <= g < ps.len() && (#[trigger] ps[g]) is Some implies 0 <= ps[g]->0 < gs[g].len() by {
            assert(ps[g] == picks[g]);
            assert(gs[g] == groups[g]);
        }
        lemma_picked_ranked(gs, ps);
        let last = groups.len() - 1;
        if let Some(j) = picks.last() {
            assert(picks[last] is Some);
            assert(ranked_by_hardware(groups[last][j]));
        }
    }
}

/// When any hardware encoder was detected, the best one (the first) is a
/// hardware encoder.
pub proof fn lemma_best_is_hardware_when_any(s: Seq<EncoderView>, k: int)
    requires
        priorities_strictly_ascending(s),
        all_ranked_by_hardware(s),
        0 <= k < s.len(),
        s[k].hardware,
    ensures
        s[0].hardware,
{
    assert(ranked_by_hardware(s[k]));
    if k > 0 {
        assert(s[0].priority < s[k].priority);
    }
    assert(ranked_by_hardware(s[0]));
}

/// Priorities strictly increase along the sequence.
pub open spec fn priorities_strictly_ascending(s: Seq<EncoderView>) -> bool {
    forall|i: int, j: int| 0 <= i < j < s.len() ==> #[trigger] s[i].priority < #[trigger] s[j].priority
}

/// Each group has a priority of its own, and the groups come in increasing order of it.
pub open spec fn groups_strictly_ascending(groups: Seq<Seq<EncoderView>>) -> bool {
    forall|g1: int, g2: int, j1: int, j2: int|
        0 <= g1 < g2 < groups.len() && 0 <= j1 < groups[g1].len() && 0 <= j2 < groups[g2].len()
            ==> #[trigger] groups[g1][j1].priority < #[trigger] groups[g2][j2].priority
}

/// Picks are positions within their groups.
pub open spec fn picks_in_range(groups: Seq<Seq<EncoderView>>, picks: Seq<Option<int>>) -> bool {
    forall|g: int| 0 <= g < picks.len() && (#[trigger] picks[g]) is Some ==> 0 <= picks[g]->0 < groups[g].len()
}

/// The candidate table's groups have strictly increasing priorities.
pub proof fn lemma_table_strictly_ascending()
    ensures
        groups_strictly_ascending(candidate_table()),
{
    let t = candidate_table();
    assert(t[0].len() == 3 && t[1].len() == 3 && t[2].len() == 2 && t[3].len() == 2);
    assert(t[4].len() == 2 && t[5].len() == 2 && t[6].len() == 1);
    assert forall|g: int, j: int| 0 <= g < t.len() && 0 <= j < t[g].len() implies #[trigger] t[g][j].priority
        == if g == 0 { 10u8 } else if g == 1 { 11u8 } else if g == 2 { 12u8 } else if g == 3 { 20u8 }
        else if g == 4 { 21u8 } else if g == 5 { 100u8 } else { 101u8 } by {}
}

/// Every picked entry lies below a bound that all candidates lie below.
proof fn lemma_picked_below(groups: Seq<Seq<EncoderView>>, picks: Seq<Option<int>>, bound: int)
    requires
        forall|g: int, j: int| 0 <= g < groups.len() && 0 <= j < groups[g].len() ==> #[trigger] groups[g][j].priority < bound,
        picks_in_range(groups, picks),
    ensures
        forall|i: int| 0 <= i < picked(groups, picks).len() ==> #[trigger] picked(groups, picks)[i].priority < bound,
    decreases groups.len(),
{
    if groups.len() > 0 && picks.len() == groups.len() {
        let gs = groups.drop_last();
        let ps = picks.drop_last();
        assert forall|g: int, j: int| 0 <= g < gs.len() && 0 <= j < gs[g].len() implies #[trigger] gs[g][j].priority < bound by {
            assert(gs[g] == groups[g]);
        }
        assert forall|g: int| 0 <= g < ps.len() && (#[trigger] ps[g]) is Some implies 0 <= ps[g]->0 < gs[g].len() by {
            assert(ps[g] == picks[g]);
            assert(gs[g] == groups[g]);
        }
        lemma_picked_below(gs, ps, bound);
        if let Some(j) = picks.last() {
            assert(picks[groups.len() - 1] is Some);
            assert(groups[groups.len() - 1][j].priority < bound);
        }
    }
}

/// Picking at most one candidate per group from groups of increasing
/// priority gives strictly increasing priorities.
proof fn lemma_picked_strictly_ascending(groups: Seq<Seq<EncoderView>>, picks: Seq<Option<int>>)
    requires
        groups_strictly_ascending(groups),
        picks_in_range(groups, picks),
    ensures
        priorities_strictly_ascending(picked(groups, picks)),
    decreases groups.len(),
{
    if groups.len() > 0 && picks.len() == groups.len() {
        let gs = groups.drop_last();
        let ps = picks.drop_last();
        let last = groups.len() - 1;
        assert forall|g1: int, g2: int, j1: int, j2: int|
            0 <= g1 < g2 < gs.len() && 0 <= j1 < gs[g1].len() && 0 <= j2 < gs[g2].len()
                implies #[trigger] gs[g1][j1].priority < #[trigger] gs[g2][j2].priority by {
            assert(gs[g1] == groups[g1] && gs[g2] == groups[g2]);
        }
        assert forall|g: int| 0 <= g < ps.len() && (#[trigger] ps[g]) is Some implies 0 <= ps[g]->0 < gs[g].len() by {
            assert(ps[g] == picks[g]);
            assert(gs[g] == groups[g]);
        }
        lemma_picked_strictly_ascending(gs, ps);
        if let Some(j) = picks.last() {
            assert(picks[last] is Some);
            let p = groups[last][j].priority;
            assert forall|g: int, k: int| 0 <= g < gs.len() && 0 <= k < gs[g].len() implies #[trigger] gs[g][k].priority < p by {
                assert(gs[g] == groups[g]);
                assert(groups[g][k].priority < groups[last][j].priority);
            }
            lemma_picked_below(gs, ps, p as int);
        }
    }
}

/// Sorting a sequence whose priorities already strictly increase leaves it as it is.
proof fn lemma_sorted_of_strictly_ascending(s: Seq<EncoderView>)
    requires
        priorities_strictly_ascending(s),
    ensures
        sorted_by_priority(s) == s,
    decreases s.len(),
{
    if s.len() > 0 {
        let r0 = s.drop_last();
        assert forall|i: int, j: int| 0 <= i < j < r0.len() implies #[trigger] r0[i].priority < #[trigger] r0[j].priority by {
            assert(r0[i] == s[i] && r0[j] == s[j]);
        }
        lemma_sorted_of_strictly_ascending(r0);
        let p = s.last().priority;
        lemma_first_above(r0, p);
        if first_above(r0, p) < r0.len() {
            assert(r0[first_above(r0, p)] == s[first_above(r0, p)]);
            assert(s[first_above(r0, p)].priority < s[s.len() - 1].priority);
        }
        assert(r0.insert(r0.len() as int, s.last()) =~= s);
    }
}

/// Detects available video encoders: for each codec/backend the first
/// candidate that the probe accepts, ordered by priority.
pub fn detect_encoders<P: Fn(&Candidate) -> bool>(probe: P) -> (r: Vec<EncoderInfo>)
    requires
        forall|c: Candidate| call_requires(probe, (&c,)),
    ensures
        exists|groups: Seq<Vec<Candidate>>, picks: Seq<Option<int>>|
            {
                &&& groups_view(groups) == candidate_table()
                &&& picks.len() == groups.len()
                &&& forall|g: int| 0 <= g < groups.len() ==> group_outcome(probe, #[trigger] groups[g]@, picks[g])
                &&& encoders_view(r@) == picked(candidate_table(), picks)
            },
        priorities_strictly_ascending(encoders_view(r@)),
        all_ranked_by_hardware(encoders_view(r@)),
        forall|i: int| 0 <= i < r@.len() ==> zero_copy_iff_legacy_vaapi(#[trigger] encoders_view(r@)[i]),
        forall|i: int| 0 <= i < r@.len() ==> codec_of_element((#[trigger] encoders_view(r@)[i]).gst_element)
            == Some(encoders_view(r@)[i].codec),
{
    let groups = candidate_groups();
    let r = select_encoders(&groups, probe);
    proof {
        let picks = choose|picks: Seq<Option<int>>|
            {
                &&& picks.len() == groups@.len()
                &&& forall|g: int| 0 <= g < groups@.len() ==> group_outcome(probe, #[trigger] groups@[g]@, picks[g])
                &&& encoders_view(r@) == sorted_by_priority(picked(groups_view(groups@), picks))
            };
        lemma_table_ranked_by_hardware();
        lemma_table_strictly_ascending();
        assert forall|g: int| 0 <= g < picks.len() && (#[trigger] picks[g]) is Some implies 0 <= picks[g]->0
            < candidate_table()[g].len() by {
            assert(group_outcome(probe, groups@[g]@, picks[g]));
            assert(candidate_table()[g] == groups@[g]@.map_values(|c: Candidate| c@));
        }
        lemma_picked_ranked(candidate_table(), picks);
        lemma_table_zero_copy_is_legacy_vaapi();
        lemma_picked_keeps(candidate_table(), picks, |e: EncoderView| zero_copy_iff_legacy_vaapi(e));
        lemma_table_codec_matches_element();
        lemma_picked_keeps(
            candidate_table(),
            picks,
            |e: EncoderView| codec_of_element(e.gst_element) == Some(e.codec),
        );
        lemma_picked_strictly_ascending(candidate_table(), picks);
        lemma_sorted_of_strictly_ascending(picked(candidate_table(), picks));
    }
    r
}

/// Why no encoder could be chosen.
#[derive(Clone, Copy, Debug, PartialEq, Eq, Structural)]
pub enum EncoderError {
    NoEncodersAvailable,
}

/// The best of the detected encoders: the first one, which has the lowest
/// priority value; an error when none was detected.
pub fn best_encoder(detected: Vec<EncoderInfo>) -> (r: Result<EncoderInfo, EncoderError>)
    ensures
        match r {
            Ok(e) => detected@.len() > 0 && e@ == detected@[0]@,
            Err(err) => detected@.len() == 0 && err == EncoderError::NoEncodersAvailable,
        },
{
    let mut detected = detected;
    if detected.len() == 0 {
        Err(EncoderError::NoEncodersAvailable)
    } else {
        Ok(detected.remove(0))
    }
}

/// The parser stage of a probe pipeline, if the codec needs one.
pub open spec fn parser_stage(c: Codec) -> Seq<char> {
    match codec_parser(c) {
        Some(p) => " ! "@ + p,
        None => Seq::empty(),
    }
}

/// The throwaway pipeline that checks an encoder actually works:
/// test source, format conversion, the encoder, its parser, a fake sink.
pub fn probe_pipeline_description(element_name: &str, codec: Codec) -> (r: String)
    ensures
        r@ == "videotestsrc num-buffers=3 ! video/x-raw,format=NV12,width=320,height=240,framerate=10/1 ! videoconvert ! "@
            + element_name@ + parser_stage(codec) + " ! fakesink"@,
{
    let mut r = "videotestsrc num-buffers=3 ! video/x-raw,format=NV12,width=320,height=240,framerate=10/1 ! videoconvert ! ".to_owned();
    r.append(element_name);
    match codec.parser_element() {
        Some(p) => {
            let ghost before = r@;
            r.append(" ! ");
            r.append(p);
            proof {
                assert(r@ =~= before + (" ! "@ + p@));
            }
        },
        None => {
            proof {
                assert(r@ =~= r@ + Seq::<char>::empty());
            }
        },
    }
    r.append(" ! fakesink");
    r
}

/// What a probe pipeline reported on its bus.
#[derive(Clone, Copy, Debug, PartialEq, Eq, Structural)]
pub enum BusEvent {
    /// End of stream: the encoder got through the test frames
    Eos,
    /// The pipeline failed
    Error,
    /// Any other message
    Other,
}

/// The decision after waiting on the probe pipeline's bus: `None` (timed
/// out) and errors fail the probe, end of stream passes it, anything else
/// means keep waiting (`None` returned).
pub fn probe_outcome(event: Option<BusEvent>) -> (r: Option<bool>)
    ensures
        r == match event {
            None => Some(false),
            Some(BusEvent::Eos) => Some(true),
            Some(BusEvent::Error) => Some(false),
            Some(BusEvent::Other) => None::<bool>,
        },
{
    match event {
        Some(BusEvent::Eos) => Some(true),
        Some(BusEvent::Error) => Some(false),
        Some(BusEvent::Other) => None,
        None => Some(false),
    }
}

/// Matroska takes every codec; every codec fits exactly one of MP4 and WebM;
/// the fallback container is MP4 for the codecs that fit MP4 and Matroska for
/// the others, never WebM.
pub proof fn lemma_container_rules(c: Codec)
    ensures
        codec_supports(c, Container::Mkv),
        codec_supports(c, Container::Mp4) != codec_supports(c, Container::Webm),
        codec_supports(c, Container::Mp4) <==> codec_default_container(c) == Container::Mp4,
        !codec_supports(c, Container::Mp4) ==> codec_default_container(c) == Container::Mkv,
{
}

/// Every codec can be muxed into its own fallback container.
pub proof fn lemma_default_container_is_supported(c: Codec)
    ensures
        codec_supports(c, codec_default_container(c)),
{
}



/// `vaapih264enc` names a H264 encoder or parser.
proof fn lemma_element_codec_vaapih264enc()
    ensures
        codec_of_element("vaapih264enc"@) == Some(Codec::H264),
{
    reveal_strlit("vaapih264enc");
    reveal_strlit("h265");
    reveal_strlit("hevc");
    reveal_strlit("h264");
    reveal_strlit("x264");
    reveal_strlit("openh264");
    reveal_strlit("av1");
    reveal_strlit("vp9");
    let s = "vaapih264enc"@;
    assert forall|i: int| !(0 <= i && i + "h265"@.len() <= s.len() && #[trigger] s.subrange(i, i + "h265"@.len()) == "h265"@) by {
        if 0 <= i && i + 4 <= s.len() && s.subrange(i, i + 4) == "h265"@ {
            assert(s.subrange(i, i + 4)[0] == s[i + 0]);
            assert(s.subrange(i, i + 4)[3] == s[i + 3]);
        }
    }
    assert forall|i: int| !(0 <= i && i + "hevc"@.len() <= s.len() && #[trigger] s.subrange(i, i + "hevc"@.len()) == "hevc"@) by {
        if 0 <= i && i + 4 <= s.len() && s.subrange(i, i + 4) == "hevc"@ {
            assert(s.subrange(i, i + 4)[0] == s[i + 0]);
            assert(s.subrange(i, i + 4)[1] == s[i + 1]);
        }
    }
    assert(s.subrange(5, 5int + "h264"@.len()) == "h264"@);
}

/// `vah264enc` names a H264 encoder or parser.
proof fn lemma_element_codec_vah264enc()
    ensures
        codec_of_element("vah264enc"@) == Some(Codec::H264),
{
    reveal_strlit("vah264enc");
    reveal_strlit("h265");
    reveal_strlit("hevc");
    reveal_strlit("h264");
    reveal_strlit("x264");
    reveal_strlit("openh264");
    reveal_strlit("av1");
    reveal_strlit("vp9");
    let s = "vah264enc"@;
    assert forall|i: int| !(0 <= i && i + "h265"@.len() <= s.len() && #[trigger] s.subrange(i, i + "h265"@.len()) == "h265"@) by {
        if 0 <= i && i + 4 <= s.len() && s.subrange(i, i + 4) == "h265"@ {
            assert(s.subrange(i, i + 4)[0] == s[i + 0]);
            assert(s.subrange(i, i + 4)[3] == s[i + 3]);
        }
    }
    assert forall|i: int| !(0 <= i && i + "hevc"@.len() <= s.len() && #[trigger] s.subrange(i, i + "hevc"@.len()) == "hevc"@) by {
        if 0 <= i && i + 4 <= s.len() && s.subrange(i, i + 4) == "hevc"@ {
            assert(s.subrange(i, i + 4)[0] == s[i + 0]);
            assert(s.subrange(i, i + 4)[1] == s[i + 1]);
        }
    }
    assert(s.subrange(2, 2int + "h264"@.len()) == "h264"@);
}

/// `vah264lpenc` names a H264 encoder or parser.
proof fn lemma_element_codec_vah264lpenc()
    ensures
        codec_of_element("vah264lpenc"@) == Some(Codec::H264),
{
    reveal_strlit("vah264lpenc");
    reveal_strlit("h265");
    reveal_strlit("hevc");
    reveal_strlit("h264");
    reveal_strlit("x264");
    reveal_strlit("openh264");
    reveal_strlit("av1");
    reveal_strlit("vp9");
    let s = "vah264lpenc"@;
    assert forall|i: int| !(0 <= i && i + "h265"@.len() <= s.len() && #[trigger] s.subrange(i, i + "h265"@.len()) == "h265"@) by {
        if 0 <= i && i + 4 <= s.len() && s.subrange(i, i + 4) == "h265"@ {
            assert(s.subrange(i, i + 4)[0] == s[i + 0]);
            assert(s.subrange(i, i + 4)[3] == s[i + 3]);
        }
    }
    assert forall|i: int| !(0 <= i && i + "hevc"@.len() <= s.len() && #[trigger] s.subrange(i, i + "hevc"@.len()) == "hevc"@) by {
        if 0 <= i && i + 4 <= s.len() && s.subrange(i, i + 4) == "hevc"@ {
            assert(s.subrange(i, i + 4)[0] == s[i + 0]);
            assert(s.subrange(i, i + 4)[1] == s[i + 1]);
        }
    }
    assert(s.subrange(2, 2int + "h264"@.len()) == "h264"@);
}

/// `nvh264enc` names a H264 encoder or parser.
proof fn lemma_element_codec_nvh264enc()
    ensures
        codec_of_element("nvh264enc"@) == Some(Codec::H264),
{
    reveal_strlit("nvh264enc");
    reveal_strlit("h265");
    reveal_strlit("hevc");
    reveal_strlit("h264");
    reveal_strlit("x264");
    reveal_strlit("openh264");
    reveal_strlit("av1");
    reveal_strlit("vp9");
    let s = "nvh264enc"@;
    assert forall|i: int| !(0 <= i && i + "h265"@.len() <= s.len() && #[trigger] s.subrange(i, i + "h265"@.len()) == "h265"@) by {
        if 0 <= i && i + 4 <= s.len() && s.subrange(i, i + 4) == "h265"@ {
            assert(s.subrange(i, i + 4)[0] == s[i + 0]);
            assert(s.subrange(i, i + 4)[3] == s[i + 3]);
        }
    }
    assert forall|i: int| !(0 <= i && i + "hevc"@.len() <= s.len() && #[trigger] s.subrange(i, i + "hevc"@.len()) == "hevc"@) by {
        if 0 <= i && i + 4 <= s.len() && s.subrange(i, i + 4) == "hevc"@ {
            assert(s.subrange(i, i + 4)[0] == s[i + 0]);
            assert(s.subrange(i, i + 4)[1] == s[i + 1]);
        }
    }
    assert(s.subrange(2, 2int + "h264"@.len()) == "h264"@);
}

/// `nvcudah264enc` names a H264 encoder or parser.
proof fn lemma_element_codec_nvcudah264enc()
    ensures
        codec_of_element("nvcudah264enc"@) == Some(Codec::H264),
{
    reveal_strlit("nvcudah264enc");
    reveal_strlit("h265");
    reveal_strlit("hevc");
    reveal_strlit("h264");
    reveal_strlit("x264");
    reveal_strlit("openh264");
    reveal_strlit("av1");
    reveal_strlit("vp9");
    let s = "nvcudah264enc"@;
    assert forall|i: int| !(0 <= i && i + "h265"@.len() <= s.len() && #[trigger] s.subrange(i, i + "h265"@.len()) == "h265"@) by {
        if 0 <= i && i + 4 <= s.len() && s.subrange(i, i + 4) == "h265"@ {
            assert(s.subrange(i, i + 4)[0] == s[i + 0]);
            assert(s.subrange(i, i + 4)[3] == s[i + 3]);
        }
    }
    assert forall|i: int| !(0 <= i && i + "hevc"@.len() <= s.len() && #[trigger] s.subrange(i, i + "hevc"@.len()) == "hevc"@) by {
        if 0 <= i && i + 4 <= s.len() && s.subrange(i, i + 4) == "hevc"@ {
            assert(s.subrange(i, i + 4)[0] == s[i + 0]);
            assert(s.subrange(i, i + 4)[1] == s[i + 1]);
        }
    }
    assert(s.subrange(6, 6int + "h264"@.len()) == "h264"@);
}

/// `x264enc` names a H264 encoder or parser.
proof fn lemma_element_codec_x264enc()
    ensures
        codec_of_element("x264enc"@) == Some(Codec::H264),
{
    reveal_strlit("x264enc");
    reveal_strlit("h265");
    reveal_strlit("hevc");
    reveal_strlit("h264");
    reveal_strlit("x264");
    reveal_strlit("openh264");
    reveal_strlit("av1");
    reveal_strlit("vp9");
    let s = "x264enc"@;
    assert forall|i: int| !(0 <= i && i + "h265"@.len() <= s.len() && #[trigger] s.subrange(i, i + "h265"@.len()) == "h265"@) by {
        if 0 <= i && i + 4 <= s.len() && s.subrange(i, i + 4) == "h265"@ {
            assert(s.subrange(i, i + 4)[0] == s[i + 0]);
        }
    }
    assert forall|i: int| !(0 <= i && i + "hevc"@.len() <= s.len() && #[trigger] s.subrange(i, i + "hevc"@.len()) == "hevc"@) by {
        if 0 <= i && i + 4 <= s.len() && s.subrange(i, i + 4) == "hevc"@ {
            assert(s.subrange(i, i + 4)[0] == s[i + 0]);
        }
    }
    assert(s.subrange(0, 0int + "x264"@.len()) == "x264"@);
}

/// `openh264enc` names a H264 encoder or parser.
proof fn lemma_element_codec_openh264enc()
    ensures
        codec_of_element("openh264enc"@) == Some(Codec::H264),
{
    reveal_strlit("openh264enc");
    reveal_strlit("h265");
    reveal_strlit("hevc");
    reveal_strlit("h264");
    reveal_strlit("x264");
    reveal_strlit("openh264");
    reveal_strlit("av1");
    reveal_strlit("vp9");
    let s = "openh264enc"@;
    assert forall|i: int| !(0 <= i && i + "h265"@.len() <= s.len() && #[trigger] s.subrange(i, i + "h265"@.len()) == "h265"@) by {
        if 0 <= i && i + 4 <= s.len() && s.subrange(i, i + 4) == "h265"@ {
            assert(s.subrange(i, i + 4)[0] == s[i + 0]);
            assert(s.subrange(i, i + 4)[3] == s[i + 3]);
        }
    }
    assert forall|i: int| !(0 <= i && i + "hevc"@.len() <= s.len() && #[trigger] s.subrange(i, i + "hevc"@.len()) == "hevc"@) by {
        if 0 <= i && i + 4 <= s.len() && s.subrange(i, i + 4) == "hevc"@ {
            assert(s.subrange(i, i + 4)[0] == s[i + 0]);
            assert(s.subrange(i, i + 4)[1] == s[i + 1]);
        }
    }
    assert(s.subrange(4, 4int + "h264"@.len()) == "h264"@);
}

/// `vaapih265enc` names a H265 encoder or parser.
proof fn lemma_element_codec_vaapih265enc()
    ensures
        codec_of_element("vaapih265enc"@) == Some(Codec::H265),
{
    reveal_strlit("vaapih265enc");
    reveal_strlit("h265");
    reveal_strlit("hevc");
    reveal_strlit("h264");
    reveal_strlit("x264");
    reveal_strlit("openh264");
    reveal_strlit("av1");
    reveal_strlit("vp9");
    let s = "vaapih265enc"@;
    assert(s.subrange(5, 5int + "h265"@.len()) == "h265"@);
}

/// `vah265enc` names a H265 encoder or parser.
proof fn lemma_element_codec_vah265enc()
    ensures
        codec_of_element("vah265enc"@) == Some(Codec::H265),
{
    reveal_strlit("vah265enc");
    reveal_strlit("h265");
    reveal_strlit("hevc");
    reveal_strlit("h264");
    reveal_strlit("x264");
    reveal_strlit("openh264");
    reveal_strlit("av1");
    reveal_strlit("vp9");
    let s = "vah265enc"@;
    assert(s.subrange(2, 2int + "h265"@.len()) == "h265"@);
}

/// `vah265lpenc` names a H265 encoder or parser.
proof fn lemma_element_codec_vah265lpenc()
    ensures
        codec_of_element("vah265lpenc"@) == Some(Codec::H265),
{
    reveal_strlit("vah265lpenc");
    reveal_strlit("h265");
    reveal_strlit("hevc");
    reveal_strlit("h264");
    reveal_strlit("x264");
    reveal_strlit("openh264");
    reveal_strlit("av1");
    reveal_strlit("vp9");
    let s = "vah265lpenc"@;
    assert(s.subrange(2, 2int + "h265"@.len()) == "h265"@);
}

/// `nvh265enc` names a H265 encoder or parser.
proof fn lemma_element_codec_nvh265enc()
    ensures
        codec_of_element("nvh265enc"@) == Some(Codec::H265),
{
    reveal_strlit("nvh265enc");
    reveal_strlit("h265");
    reveal_strlit("hevc");
    reveal_strlit("h264");
    reveal_strlit("x264");
    reveal_strlit("openh264");
    reveal_strlit("av1");
    reveal_strlit("vp9");
    let s = "nvh265enc"@;
    assert(s.subrange(2, 2int + "h265"@.len()) == "h265"@);
}

/// `nvcudah265enc` names a H265 encoder or parser.
proof fn lemma_element_codec_nvcudah265enc()
    ensures
        codec_of_element("nvcudah265enc"@) == Some(Codec::H265),
{
    reveal_strlit("nvcudah265enc");
    reveal_strlit("h265");
    reveal_strlit("hevc");
    reveal_strlit("h264");
    reveal_strlit("x264");
    reveal_strlit("openh264");
    reveal_strlit("av1");
    reveal_strlit("vp9");
    let s = "nvcudah265enc"@;
    assert(s.subrange(6, 6int + "h265"@.len()) == "h265"@);
}

/// `vaapivp9enc` names a VP9 encoder or parser.
proof fn lemma_element_codec_vaapivp9enc()
    ensures
        codec_of_element("vaapivp9enc"@) == Some(Codec::VP9),
{
    reveal_strlit("vaapivp9enc");
    reveal_strlit("h265");
    reveal_strlit("hevc");
    reveal_strlit("h264");
    reveal_strlit("x264");
    reveal_strlit("openh264");
    reveal_strlit("av1");
    reveal_strlit("vp9");
    let s = "vaapivp9enc"@;
    assert forall|i: int| !(0 <= i && i + "h265"@.len() <= s.len() && #[trigger] s.subrange(i, i + "h265"@.len()) == "h265"@) by {
        if 0 <= i && i + 4 <= s.len() && s.subrange(i, i + 4) == "h265"@ {
            assert(s.subrange(i, i + 4)[0] == s[i + 0]);
        }
    }
    assert forall|i: int| !(0 <= i && i + "hevc"@.len() <= s.len() && #[trigger] s.subrange(i, i + "hevc"@.len()) == "hevc"@) by {
        if 0 <= i && i + 4 <= s.len() && s.subrange(i, i + 4) == "hevc"@ {
            assert(s.subrange(i, i + 4)[0] == s[i + 0]);
        }
    }
    assert forall|i: int| !(0 <= i && i + "h264"@.len() <= s.len() && #[trigger] s.subrange(i, i + "h264"@.len()) == "h264"@) by {
        if 0 <= i && i + 4 <= s.len() && s.subrange(i, i + 4) == "h264"@ {
            assert(s.subrange(i, i + 4)[0] == s[i + 0]);
        }
    }
    assert forall|i: int| !(0 <= i && i + "x264"@.len() <= s.len() && #[trigger] s.subrange(i, i + "x264"@.len()) == "x264"@) by {
        if 0 <= i && i + 4 <= s.len() && s.subrange(i, i + 4) == "x264"@ {
            assert(s.subrange(i, i + 4)[0] == s[i + 0]);
        }
    }
    assert forall|i: int| !(0 <= i && i + "openh264"@.len() <= s.len() && #[trigger] s.subrange(i, i + "openh264"@.len()) == "openh264"@) by {
        if 0 <= i && i + 8 <= s.len() && s.subrange(i, i + 8) == "openh264"@ {
            assert(s.subrange(i, i + 8)[0] == s[i + 0]);
        }
    }
    assert forall|i: int| !(0 <= i && i + "av1"@.len() <= s.len() && #[trigger] s.subrange(i, i + "av1"@.len()) == "av1"@) by {
        if 0 <= i && i + 3 <= s.len() && s.subrange(i, i + 3) == "av1"@ {
            assert(s.subrange(i, i + 3)[0] == s[i + 0]);
            assert(s.subrange(i, i + 3)[1] == s[i + 1]);
        }
    }
    assert(s.subrange(5, 5int + "vp9"@.len()) == "vp9"@);
}

/// `vavp9enc` names a VP9 encoder or parser.
proof fn lemma_element_codec_vavp9enc()
    ensures
        codec_of_element("vavp9enc"@) == Some(Codec::VP9),
{
    reveal_strlit("vavp9enc");
    reveal_strlit("h265");
    reveal_strlit("hevc");
    reveal_strlit("h264");
    reveal_strlit("x264");
    reveal_strlit("openh264");
    reveal_strlit("av1");
    reveal_strlit("vp9");
    let s = "vavp9enc"@;
    assert forall|i: int| !(0 <= i && i + "h265"@.len() <= s.len() && #[trigger] s.subrange(i, i + "h265"@.len()) == "h265"@) by {
        if 0 <= i && i + 4 <= s.len() && s.subrange(i, i + 4) == "h265"@ {
            assert(s.subrange(i, i + 4)[0] == s[i + 0]);
        }
    }
    assert forall|i: int| !(0 <= i && i + "hevc"@.len() <= s.len() && #[trigger] s.subrange(i, i + "hevc"@.len()) == "hevc"@) by {
        if 0 <= i && i + 4 <= s.len() && s.subrange(i, i + 4) == "hevc"@ {
            assert(s.subrange(i, i + 4)[0] == s[i + 0]);
        }
    }
    assert forall|i: int| !(0 <= i && i + "h264"@.len() <= s.len() && #[trigger] s.subrange(i, i + "h264"@.len()) == "h264"@) by {
        if 0 <= i && i + 4 <= s.len() && s.subrange(i, i + 4) == "h264"@ {
            assert(s.subrange(i, i + 4)[0] == s[i + 0]);
        }
    }
    assert forall|i: int| !(0 <= i && i + "x264"@.len() <= s.len() && #[trigger] s.subrange(i, i + "x264"@.len()) == "x264"@) by {
        if 0 <= i && i + 4 <= s.len() && s.subrange(i, i + 4) == "x264"@ {
            assert(s.subrange(i, i + 4)[0] == s[i + 0]);
        }
    }
    assert forall|i: int| !(0 <= i && i + "openh264"@.len() <= s.len() && #[trigger] s.subrange(i, i + "openh264"@.len()) == "openh264"@) by {
        if 0 <= i && i + 8 <= s.len() && s.subrange(i, i + 8) == "openh264"@ {
            assert(s.subrange(i, i + 8)[0] == s[i + 0]);
        }
    }
    assert forall|i: int| !(0 <= i && i + "av1"@.len() <= s.len() && #[trigger] s.subrange(i, i + "av1"@.len()) == "av1"@) by {
        if 0 <= i && i + 3 <= s.len() && s.subrange(i, i + 3) == "av1"@ {
            assert(s.subrange(i, i + 3)[0] == s[i + 0]);
            assert(s.subrange(i, i + 3)[2] == s[i + 2]);
        }
    }
    assert(s.subrange(2, 2int + "vp9"@.len()) == "vp9"@);
}

/// `vp9enc` names a VP9 encoder or parser.
proof fn lemma_element_codec_vp9enc()
    ensures
        codec_of_element("vp9enc"@) == Some(Codec::VP9),
{
    reveal_strlit("vp9enc");
    reveal_strlit("h265");
    reveal_strlit("hevc");
    reveal_strlit("h264");
    reveal_strlit("x264");
    reveal_strlit("openh264");
    reveal_strlit("av1");
    reveal_strlit("vp9");
    let s = "vp9enc"@;
    assert forall|i: int| !(0 <= i && i + "h265"@.len() <= s.len() && #[trigger] s.subrange(i, i + "h265"@.len()) == "h265"@) by {
        if 0 <= i && i + 4 <= s.len() && s.subrange(i, i + 4) == "h265"@ {
            assert(s.subrange(i, i + 4)[0] == s[i + 0]);
        }
    }
    assert forall|i: int| !(0 <= i && i + "hevc"@.len() <= s.len() && #[trigger] s.subrange(i, i + "hevc"@.len()) == "hevc"@) by {
        if 0 <= i && i + 4 <= s.len() && s.subrange(i, i + 4) == "hevc"@ {
            assert(s.subrange(i, i + 4)[0] == s[i + 0]);
        }
    }
    assert forall|i: int| !(0 <= i && i + "h264"@.len() <= s.len() && #[trigger] s.subrange(i, i + "h264"@.len()) == "h264"@) by {
        if 0 <= i && i + 4 <= s.len() && s.subrange(i, i + 4) == "h264"@ {
            assert(s.subrange(i, i + 4)[0] == s[i + 0]);
        }
    }
    assert forall|i: int| !(0 <= i && i + "x264"@.len() <= s.len() && #[trigger] s.subrange(i, i + "x264"@.len()) == "x264"@) by {
        if 0 <= i && i + 4 <= s.len() && s.subrange(i, i + 4) == "x264"@ {
            assert(s.subrange(i, i + 4)[0] == s[i + 0]);
        }
    }
    assert forall|i: int| !(0 <= i && i + "openh264"@.len() <= s.len() && #[trigger] s.subrange(i, i + "openh264"@.len()) == "openh264"@) by {
        if 0 <= i && i + 8 <= s.len() && s.subrange(i, i + 8) == "openh264"@ {

        }
    }
    assert forall|i: int| !(0 <= i && i + "av1"@.len() <= s.len() && #[trigger] s.subrange(i, i + "av1"@.len()) == "av1"@) by {
        if 0 <= i && i + 3 <= s.len() && s.subrange(i, i + 3) == "av1"@ {
            assert(s.subrange(i, i + 3)[0] == s[i + 0]);
        }
    }
    assert(s.subrange(0, 0int + "vp9"@.len()) == "vp9"@);
}

/// `h264parse` names a H264 encoder or parser.
proof fn lemma_element_codec_h264parse()
    ensures
        codec_of_element("h264parse"@) == Some(Codec::H264),
{
    reveal_strlit("h264parse");
    reveal_strlit("h265");
    reveal_strlit("hevc");
    reveal_strlit("h264");
    reveal_strlit("x264");
    reveal_strlit("openh264");
    reveal_strlit("av1");
    reveal_strlit("vp9");
    let s = "h264parse"@;
    assert forall|i: int| !(0 <= i && i + "h265"@.len() <= s.len() && #[trigger] s.subrange(i, i + "h265"@.len()) == "h265"@) by {
        if 0 <= i && i + 4 <= s.len() && s.subrange(i, i + 4) == "h265"@ {
            assert(s.subrange(i, i + 4)[0] == s[i + 0]);
            assert(s.subrange(i, i + 4)[3] == s[i + 3]);
        }
    }
    assert forall|i: int| !(0 <= i && i + "hevc"@.len() <= s.len() && #[trigger] s.subrange(i, i + "hevc"@.len()) == "hevc"@) by {
        if 0 <= i && i + 4 <= s.len() && s.subrange(i, i + 4) == "hevc"@ {
            assert(s.subrange(i, i + 4)[0] == s[i + 0]);
            assert(s.subrange(i, i + 4)[1] == s[i + 1]);
        }
    }
    assert(s.subrange(0, 0int + "h264"@.len()) == "h264"@);
}

/// `h265parse` names a H265 encoder or parser.
proof fn lemma_element_codec_h265parse()
    ensures
        codec_of_element("h265parse"@) == Some(Codec::H265),
{
    reveal_strlit("h265parse");
    reveal_strlit("h265");
    reveal_strlit("hevc");
    reveal_strlit("h264");
    reveal_strlit("x264");
    reveal_strlit("openh264");
    reveal_strlit("av1");
    reveal_strlit("vp9");
    let s = "h265parse"@;
    assert(s.subrange(0, 0int + "h265"@.len()) == "h265"@);
}

/// `av1parse` names a AV1 encoder or parser.
proof fn lemma_element_codec_av1parse()
    ensures
        codec_of_element("av1parse"@) == Some(Codec::AV1),
{
    reveal_strlit("av1parse");
    reveal_strlit("h265");
    reveal_strlit("hevc");
    reveal_strlit("h264");
    reveal_strlit("x264");
    reveal_strlit("openh264");
    reveal_strlit("av1");
    reveal_strlit("vp9");
    let s = "av1parse"@;
    assert forall|i: int| !(0 <= i && i + "h265"@.len() <= s.len() && #[trigger] s.subrange(i, i + "h265"@.len()) == "h265"@) by {
        if 0 <= i && i + 4 <= s.len() && s.subrange(i, i + 4) == "h265"@ {
            assert(s.subrange(i, i + 4)[0] == s[i + 0]);
        }
    }
    assert forall|i: int| !(0 <= i && i + "hevc"@.len() <= s.len() && #[trigger] s.subrange(i, i + "hevc"@.len()) == "hevc"@) by {
        if 0 <= i && i + 4 <= s.len() && s.subrange(i, i + 4) == "hevc"@ {
            assert(s.subrange(i, i + 4)[0] == s[i + 0]);
        }
    }
    assert forall|i: int| !(0 <= i && i + "h264"@.len() <= s.len() && #[trigger] s.subrange(i, i + "h264"@.len()) == "h264"@) by {
        if 0 <= i && i + 4 <= s.len() && s.subrange(i, i + 4) == "h264"@ {
            assert(s.subrange(i, i + 4)[0] == s[i + 0]);
        }
    }
    assert forall|i: int| !(0 <= i && i + "x264"@.len() <= s.len() && #[trigger] s.subrange(i, i + "x264"@.len()) == "x264"@) by {
        if 0 <= i && i + 4 <= s.len() && s.subrange(i, i + 4) == "x264"@ {
            assert(s.subrange(i, i + 4)[0] == s[i + 0]);
        }
    }
    assert forall|i: int| !(0 <= i && i + "openh264"@.len() <= s.len() && #[trigger] s.subrange(i, i + "openh264"@.len()) == "openh264"@) by {
        if 0 <= i && i + 8 <= s.len() && s.subrange(i, i + 8) == "openh264"@ {
            assert(s.subrange(i, i + 8)[0] == s[i + 0]);
        }
    }
    assert(s.subrange(0, 0int + "av1"@.len()) == "av1"@);
}

/// Each candidate's element name names the codec that the candidate is listed
/// with, so the table never offers an encoder under another codec.
pub proof fn lemma_table_codec_matches_element()
    ensures
        forall|g: int, j: int|
            0 <= g < candidate_table().len() && 0 <= j < candidate_table()[g].len() ==> codec_of_element(
                (#[trigger] candidate_table()[g][j]).gst_element,
            ) == Some(candidate_table()[g][j].codec),
{
    lemma_element_codec_vaapih264enc();
    lemma_element_codec_vah264enc();
    lemma_element_codec_vah264lpenc();
    lemma_element_codec_nvh264enc();
    lemma_element_codec_nvcudah264enc();
    lemma_element_codec_x264enc();
    lemma_element_codec_openh264enc();
    lemma_element_codec_vaapih265enc();
    lemma_element_codec_vah265enc();
    lemma_element_codec_vah265lpenc();
    lemma_element_codec_nvh265enc();
    lemma_element_codec_nvcudah265enc();
    lemma_element_codec_vaapivp9enc();
    lemma_element_codec_vavp9enc();
    lemma_element_codec_vp9enc();
    let t = candidate_table();
    assert(t[0].len() == 3 && t[1].len() == 3 && t[2].len() == 2 && t[3].len() == 2);
    assert(t[4].len() == 2 && t[5].len() == 2 && t[6].len() == 1);
}

/// The parser a codec is muxed through is that codec's parser.
pub proof fn lemma_parser_is_for_its_codec(c: Codec)
    ensures
        codec_parser(c) matches Some(p) ==> codec_of_element(p) == Some(c),
{
    lemma_element_codec_h264parse();
    lemma_element_codec_h265parse();
    lemma_element_codec_av1parse();
}

} // verus!
