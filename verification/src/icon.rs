//! Application icons: which file to take, and its pixels at the wanted size.

use vstd::prelude::*;
use vstd::string::*;

use crate::text::{
    after_last, chars_of, find_mark, lower, lowered, mark_from, number_in, parse_number, part,
    same, tail_after, texts,
};

verus! {

/// An image of `width` times `height` pixels, four bytes each: red, green,
/// blue and alpha, row after row.
#[derive(Debug)]
pub struct Icon {
    pub rgba: Vec<u8>,
    pub width: u32,
    pub height: u32,
}

impl Icon {
    /// Whether every pixel has its four bytes.
    pub open spec fn complete(self) -> bool {
        self.width * self.height * 4 <= self.rgba@.len()
    }
}

/// The names under which an application's icon is looked for, best first: its
/// identifier, that in lower case, and the last part of a dotted one.
pub open spec fn icon_names(app_id: Seq<char>) -> Seq<Seq<char>> {
    let low = lowered(app_id);
    let last = after_last(low, '.');
    seq![app_id] + (if low != app_id {
        seq![low]
    } else {
        Seq::empty()
    }) + (if last != low {
        seq![last]
    } else {
        Seq::empty()
    })
}

/// The names under which an application's icon is looked for, best first.
pub fn name_candidates(app_id: &str) -> (r: Vec<String>)
    ensures
        texts(r@) == icon_names(app_id@),
{
    let mut out: Vec<String> = Vec::new();
    out.push(app_id.to_owned());
    let low = lower(app_id);
    let last = tail_after(low.as_str(), '.');
    if !same(low.as_str(), app_id) {
        out.push(low.clone());
    }
    if !same(last.as_str(), low.as_str()) {
        out.push(last);
    }
    assert(texts(out@) =~= icon_names(app_id@));
    out
}

proof fn last_part_is_a_suffix(s: Seq<char>, mark: char)
    ensures
        after_last(s, mark).len() <= s.len(),
        after_last(s, mark) == s.subrange(s.len() - after_last(s, mark).len(), s.len() as int),
    decreases s.len(),
{
    if s.len() > 0 && s.last() != mark {
        last_part_is_a_suffix(s.drop_last(), mark);
        let k = after_last(s.drop_last(), mark).len() as int;
        assert(s.subrange(s.len() - 1 - k, s.len() as int) =~= s.drop_last().subrange(
            s.len() - 1 - k,
            s.len() - 1,
        ).push(s.last()));
    } else {
        assert(s.subrange(s.len() as int, s.len() as int) =~= Seq::<char>::empty());
    }
}

/// No icon name is tried twice.
pub proof fn icon_names_are_distinct(app_id: Seq<char>, i: int, j: int)
    requires
        0 <= i < j < icon_names(app_id).len(),
    ensures
        icon_names(app_id)[i] != icon_names(app_id)[j],
{
    let low = lowered(app_id);
    last_part_is_a_suffix(low, '.');
    let last = after_last(low, '.');
    if last != low {
        assert(last.len() < low.len()) by {
            if last.len() == low.len() {
                assert(low.subrange(0, low.len() as int) =~= low);
            }
        }
        assert(last.len() != app_id.len());
    }
}

/// A directory with another below it.
pub open spec fn joined(base: Seq<char>, leaf: Seq<char>) -> Seq<char> {
    if base.len() == 0 || base.last() == '/' {
        base + leaf
    } else {
        base + seq!['/'] + leaf
    }
}

pub(crate) fn join(base: &str, leaf: &str) -> (r: String)
    ensures
        r@ == joined(base@, leaf@),
{
    let n: usize = base.unicode_len();
    let mut out = base.to_owned();
    if n > 0 && base.get_char(n - 1) != '/' {
        proof {
            reveal_strlit("/");
        }
        out.append("/");
        assert("/"@ =~= seq!['/']);
    }
    out.append(leaf);
    out
}

/// The icon directories of a colon-separated list of data directories, from
/// position `from` on. Empty entries do not count.
pub open spec fn listed_dirs(list: Seq<char>, from: int) -> Seq<Seq<char>>
    decreases list.len() + 1 - from,
    when 0 <= from
    via listed_dirs_end
{
    if from > list.len() {
        Seq::empty()
    } else {
        let end = mark_from(list, ':', from);
        let rest = listed_dirs(list, end + 1);
        if end == from {
            rest
        } else {
            seq![joined(list.subrange(from, end), "icons"@)] + rest
        }
    }
}

#[via_fn]
proof fn listed_dirs_end(list: Seq<char>, from: int) {
    if from <= list.len() {
        crate::text::mark_is_first(list, ':', from);
    }
}

/// Where icon themes are looked for: below the home directory, below the
/// user's data directory, below each shared one, and at the usual place.
pub open spec fn theme_dirs(
    home: Option<Seq<char>>,
    data_home: Option<Seq<char>>,
    data_dirs: Option<Seq<char>>,
) -> Seq<Seq<char>> {
    (match home {
        Some(h) => seq![joined(h, ".local/share/icons"@), joined(h, ".icons"@)],
        None => Seq::empty(),
    }) + (match data_home {
        Some(d) => seq![joined(d, "icons"@)],
        None => Seq::empty(),
    }) + listed_dirs(
        match data_dirs {
            Some(d) => d,
            None => "/usr/local/share:/usr/share"@,
        },
        0,
    ) + seq!["/usr/share/icons"@]
}

/// A text that may be missing, as it reads.
pub open spec fn opt_text(s: Option<&str>) -> Option<Seq<char>> {
    match s {
        Some(s) => Some(s@),
        None => None,
    }
}

/// Where icon themes are looked for, given the values of `HOME`,
/// `XDG_DATA_HOME` and `XDG_DATA_DIRS`.
pub fn icon_dirs(home: Option<&str>, data_home: Option<&str>, data_dirs: Option<&str>) -> (r: Vec<
    String,
>)
    ensures
        texts(r@) == theme_dirs(opt_text(home), opt_text(data_home), opt_text(data_dirs)),
{
    let mut dirs: Vec<String> = Vec::new();
    if let Some(h) = home {
        dirs.push(join(h, ".local/share/icons"));
        dirs.push(join(h, ".icons"));
    }
    if let Some(d) = data_home {
        dirs.push(join(d, "icons"));
    }
    let ghost base = texts(dirs@);
    assert(base =~= (match opt_text(home) {
        Some(h) => seq![joined(h, ".local/share/icons"@), joined(h, ".icons"@)],
        None => Seq::empty(),
    }) + (match opt_text(data_home) {
        Some(d) => seq![joined(d, "icons"@)],
        None => Seq::empty(),
    }));
    let list = match data_dirs {
        Some(d) => chars_of(d),
        None => chars_of("/usr/local/share:/usr/share"),
    };
    let n: usize = list.len();
    let mut from: usize = 0;
    let mut done = false;
    while !done
        invariant
            n == list@.len(),
            !done ==> from <= n,
            base + listed_dirs(list@, 0) =~= texts(dirs@) + (if done {
                Seq::empty()
            } else {
                listed_dirs(list@, from as int)
            }),
        decreases n + 1 - from,
            (if done {
                0int
            } else {
                1int
            }),
    {
        let end: usize = find_mark(&list, ':', from);
        let ghost before = texts(dirs@);
        if end > from {
            let base_dir = part(&list, from, end);
            dirs.push(join(base_dir.as_str(), "icons"));
            assert(texts(dirs@) =~= before.push(
                joined(list@.subrange(from as int, end as int), "icons"@),
            ));
        }
        if end < n {
            from = end + 1;
        } else {
            assert(listed_dirs(list@, end + 1) =~= Seq::empty());
            done = true;
        }
    }
    let ghost before = texts(dirs@);
    dirs.push("/usr/share/icons".to_owned());
    assert(texts(dirs@) =~= before.push("/usr/share/icons"@));
    assert(texts(dirs@) =~= theme_dirs(opt_text(home), opt_text(data_home), opt_text(data_dirs)));
    dirs
}

/// The icon size that a theme's directory is for: `48x48` and `48` are for 48.
pub open spec fn dir_size(stem: Seq<char>) -> Option<u32> {
    let cut = mark_from(stem, 'x', 0);
    let width = number_in(stem.subrange(0, cut));
    if cut < stem.len() && width.is_some() {
        width
    } else {
        number_in(stem)
    }
}

/// The icon size that a theme's directory is for.
pub fn icon_size(stem: &str) -> (r: Option<u32>)
    ensures
        r == dir_size(stem@),
{
    let chars = chars_of(stem);
    let cut: usize = find_mark(&chars, 'x', 0);
    if cut < chars.len() {
        let width = parse_number(part(&chars, 0, cut).as_str());
        if width.is_some() {
            return width;
        }
    }
    parse_number(stem)
}

/// How far an icon size is from the wanted one, and on which side: an icon at
/// least as large as wanted is better than any smaller one, and of two on the
/// same side the nearer is better.
pub open spec fn nearer(size: u32, than: u32, want: u32) -> bool {
    if size >= want && than >= want {
        size < than
    } else if size < want && than < want {
        size > than
    } else {
        size >= want
    }
}

/// The first of the best among the first `n` icon sizes.
pub open spec fn best_size(sizes: Seq<u32>, want: u32, n: int) -> Option<int>
    decreases n,
{
    if n <= 0 {
        None
    } else {
        match best_size(sizes, want, n - 1) {
            None => Some(n - 1),
            Some(b) => if nearer(sizes[n - 1], sizes[b], want) {
                Some(n - 1)
            } else {
                Some(b)
            },
        }
    }
}

/// Picks among the icons that were found, given with their sizes in the order
/// in which they were found.
pub fn pick_icon(sizes: &Vec<u32>, want: u32) -> (r: Option<usize>)
    ensures
        r.is_some() == (sizes@.len() > 0),
        r.is_some() ==> best_size(sizes@, want, sizes@.len() as int) == Some(r.unwrap() as int)
            && r.unwrap() < sizes@.len(),
{
    let mut best: Option<usize> = None;
    let mut i: usize = 0;
    while i < sizes.len()
        invariant
            i <= sizes@.len(),
            best.is_some() == (i > 0),
            best.is_some() ==> best.unwrap() < i && best_size(sizes@, want, i as int) == Some(
                best.unwrap() as int,
            ),
            best.is_none() ==> best_size(sizes@, want, i as int).is_none(),
        decreases sizes@.len() - i,
    {
        let size: u32 = sizes[i];
        let better = match best {
            None => true,
            Some(b) => {
                let than: u32 = sizes[b];
                if size >= want && than >= want {
                    size < than
                } else if size < want && than < want {
                    size > than
                } else {
                    size >= want
                }
            },
        };
        if better {
            best = Some(i);
        }
        i += 1;
    }
    best
}

/// No icon that was found beats the one picked.
pub proof fn picked_icon_is_best(sizes: Seq<u32>, want: u32, n: int, j: int)
    requires
        0 <= j < n <= sizes.len(),
    ensures
        best_size(sizes, want, n) matches Some(b) && 0 <= b < n && !nearer(
            sizes[j],
            sizes[b],
            want,
        ),
    decreases n,
{
    if j < n - 1 {
        picked_icon_is_best(sizes, want, n - 1, j);
    } else if n > 1 {
        picked_icon_is_best(sizes, want, n - 1, 0);
    }
}

/// How the samples of a decoded PNG make up a pixel.
#[derive(Debug, Clone, Copy, PartialEq, Eq, Structural)]
pub enum Samples {
    Grayscale,
    Rgb,
    Indexed,
    GrayscaleAlpha,
    Rgba,
}

impl Samples {
    /// The bytes of a pixel at eight bits a sample.
    pub open spec fn bytes(self) -> int {
        match self {
            Samples::Grayscale => 1,
            Samples::Rgb => 3,
            Samples::Indexed => 1,
            Samples::GrayscaleAlpha => 2,
            Samples::Rgba => 4,
        }
    }

    /// The bytes of a pixel at eight bits a sample.
    pub fn stride(self) -> (r: usize)
        ensures
            r == self.bytes(),
    {
        match self {
            Samples::Grayscale => 1,
            Samples::Rgb => 3,
            Samples::Indexed => 1,
            Samples::GrayscaleAlpha => 2,
            Samples::Rgba => 4,
        }
    }

    /// The byte of the decoded data that becomes channel `c` of pixel `i`;
    /// none for the alpha of pixels that have none.
    pub open spec fn source(self, i: int, c: int) -> Option<int> {
        match self {
            Samples::Rgba => Some(i * 4 + c),
            Samples::Rgb => if c == 3 {
                None
            } else {
                Some(i * 3 + c)
            },
            Samples::GrayscaleAlpha => Some(
                if c == 3 {
                    i * 2 + 1
                } else {
                    i * 2
                },
            ),
            _ => if c == 3 {
                None
            } else {
                Some(i)
            },
        }
    }
}

/// A decoded PNG: its bytes, its size, and the meaning and the bits of its
/// samples.
#[derive(Debug)]
pub struct PngFrame {
    pub data: Vec<u8>,
    pub width: u32,
    pub height: u32,
    pub samples: Samples,
    pub bits: u8,
}

/// What the first frame of a PNG decodes to; none for bytes that are no PNG.
pub uninterp spec fn png_frame(bytes: Seq<u8>) -> Option<(Seq<u8>, u32, u32, Samples, u8)>;

/// A decoded PNG as plain values.
pub open spec fn frame_values(f: Option<PngFrame>) -> Option<(Seq<u8>, u32, u32, Samples, u8)> {
    match f {
        None => None,
        Some(f) => Some((f.data@, f.width, f.height, f.samples, f.bits)),
    }
}

/// `png::Decoder::new`, `read_info` and `next_frame` on bytes in memory, with
/// the decoder's own settings. For pictures that fit in memory what comes out
/// rests on the bytes alone. That the buffer holds a whole pixel for each of the
/// frame's is not claimed, for samples of less than eight bits are packed.
#[verifier::external_body]
fn decode_png(bytes: &Vec<u8>) -> (r: Option<PngFrame>)
    ensures
        frame_values(r) == png_frame(bytes@),
{
    let source = std::io::Cursor::new(bytes.as_slice());
    let mut reader = png::Decoder::new(source).read_info().ok()?;
    let mut data = vec![0; reader.output_buffer_size()?];
    let info = reader.next_frame(&mut data).ok()?;
    let samples = match info.color_type {
        png::ColorType::Grayscale => Samples::Grayscale,
        png::ColorType::Rgb => Samples::Rgb,
        png::ColorType::Indexed => Samples::Indexed,
        png::ColorType::GrayscaleAlpha => Samples::GrayscaleAlpha,
        png::ColorType::Rgba => Samples::Rgba,
    };
    let bits = info.bit_depth as u8;
    Some(PngFrame { data, width: info.width, height: info.height, samples, bits })
}

/// Whether a decoded PNG can be an icon: it has pixels, no palette, eight bits
/// a sample, and all the bytes that these take.
pub open spec fn usable(
    data: Seq<u8>,
    width: u32,
    height: u32,
    samples: Samples,
    bits: u8,
) -> bool {
    &&& width > 0
    &&& height > 0
    &&& samples != Samples::Indexed
    &&& bits == 8
    &&& width * height * samples.bytes() <= data.len()
    &&& width * height * 4 <= usize::MAX
}

/// A sample of a pixel of decoded data: red, green, blue and alpha, opaque
/// where the data has no alpha.
pub open spec fn sample(data: Seq<u8>, samples: Samples, i: int, c: int) -> u8 {
    match samples.source(i, c) {
        Some(at) => data[at],
        None => 255u8,
    }
}

/// A colour multiplied by an alpha of 255 parts, rounded down.
pub open spec fn faded(v: u8, alpha: u8) -> u8 {
    (v * alpha / 255) as u8
}

/// The icon's bytes: each pixel's samples spread to four, the colours
/// multiplied by the alpha.
pub open spec fn spread(data: Seq<u8>, pixels: int, samples: Samples) -> Seq<u8> {
    Seq::new(
        (pixels * 4) as nat,
        |k: int|
            if k % 4 == 3 {
                sample(data, samples, k / 4, 3)
            } else {
                faded(sample(data, samples, k / 4, k % 4), sample(data, samples, k / 4, 3))
            },
    )
}

fn fade(v: u8, alpha: u8) -> (r: u8)
    ensures
        r == faded(v, alpha),
        r <= alpha,
{
    proof {
        let (x, a) = (v as int, alpha as int);
        assert(0 <= x * a <= 255 * a && 0 <= x * a / 255 <= a) by (nonlinear_arith)
            requires
                0 <= x <= 255,
                0 <= a,
        ;
    }
    (v as u32 * alpha as u32 / 255) as u8
}

/// The icon of decoded PNG bytes; none for an empty or a palette image.
pub fn to_icon(data: &Vec<u8>, width: u32, height: u32, samples: Samples) -> (r: Option<Icon>)
    requires
        width * height * samples.bytes() <= data@.len(),
        width * height * 4 <= usize::MAX,
    ensures
        r.is_some() == (width > 0 && height > 0 && samples != Samples::Indexed),
        r matches Some(icon) ==> icon.width == width && icon.height == height && icon.rgba@
            == spread(data@, width * height, samples) && icon.complete(),
{
    if width == 0 || height == 0 || samples == Samples::Indexed {
        return None;
    }
    let ghost px = width * height;
    assert(0 <= px && px * 4 == width * height * 4) by (nonlinear_arith)
        requires
            px == width * height,
    ;
    let stride: usize = samples.stride();
    assert(px <= px * 4);
    let pixels: usize = width as usize * height as usize;
    let mut rgba: Vec<u8> = Vec::new();
    let ghost want = spread(data@, px, samples);
    let mut i: usize = 0;
    while i < pixels
        invariant
            i <= pixels,
            pixels == px,
            px * 4 <= usize::MAX,
            stride == samples.bytes(),
            px * samples.bytes() <= data@.len(),
            samples != Samples::Indexed,
            want == spread(data@, px, samples),
            rgba@ =~= want.take(i * 4),
        decreases pixels - i,
    {
        let ghost st = stride as int;
        assert(i * st + st <= px * st) by (nonlinear_arith)
            requires
                i + 1 <= px,
                st >= 0,
        ;
        assert(px * st <= data@.len());
        let base: usize = i * stride;
        let (r, g, b, a) = match samples {
            Samples::Rgba => (data[base], data[base + 1], data[base + 2], data[base + 3]),
            Samples::Rgb => (data[base], data[base + 1], data[base + 2], 255u8),
            Samples::GrayscaleAlpha => (data[base], data[base], data[base], data[base + 1]),
            _ => (data[base], data[base], data[base], 255u8),
        };
        let ghost k = i * 4;
        assert((k + 0) / 4 == i && (k + 0) % 4 == 0);
        assert((k + 1) / 4 == i && (k + 1) % 4 == 1);
        assert((k + 2) / 4 == i && (k + 2) % 4 == 2);
        assert((k + 3) / 4 == i && (k + 3) % 4 == 3);
        rgba.push(fade(r, a));
        rgba.push(fade(g, a));
        rgba.push(fade(b, a));
        rgba.push(a);
        i += 1;
    }
    assert(want.take(i * 4) =~= want);
    Some(Icon { rgba, width, height })
}

/// Reads an icon out of the bytes of a PNG file; none where they do not make a
/// usable image.
pub fn load(bytes: &Vec<u8>) -> (r: Option<Icon>)
    ensures
        r.is_some() == (png_frame(bytes@) matches Some(f) && usable(f.0, f.1, f.2, f.3, f.4)),
        r matches Some(icon) ==> (png_frame(bytes@) matches Some(f) && icon.width == f.1
            && icon.height == f.2 && icon.rgba@ == spread(f.0, f.1 * f.2, f.3)
            && icon.complete()),
{
    let frame = match decode_png(bytes) {
        None => {
            return None;
        },
        Some(f) => f,
    };
    if frame.bits != 8 {
        return None;
    }
    let ghost px = frame.width * frame.height;
    assert(0 <= px <= 0xffff_ffff * 0xffff_ffff) by (nonlinear_arith)
        requires
            px == frame.width * frame.height,
            0 <= frame.width <= 0xffff_ffff,
            0 <= frame.height <= 0xffff_ffff,
    ;
    let pixels: u128 = frame.width as u128 * frame.height as u128;
    let stride: usize = frame.samples.stride();
    assert(px * stride == px * frame.samples.bytes());
    assert(px * stride <= px * 4) by (nonlinear_arith)
        requires
            0 <= px,
            stride <= 4,
    ;
    let fits = pixels * stride as u128 <= frame.data.len() as u128 && pixels * 4
        <= usize::MAX as u128;
    if !fits {
        return None;
    }
    to_icon(&frame.data, frame.width, frame.height, frame.samples)
}

/// The source pixels along one side that make up pixel `at` of the result. A
/// side that grows or stays takes the one nearest pixel, a side that shrinks
/// all those that the pixel covers; at least one where the source has any.
pub open spec fn box_side(at: int, from: int, to: int) -> (int, int) {
    let lo = at * from / to;
    let hi = ((at + 1) * from + to - 1) / to;
    let wide = if from > to && hi > lo + 1 {
        hi
    } else {
        lo + 1
    };
    (
        lo,
        if wide < from {
            wide
        } else {
            from
        },
    )
}

/// The sum over pixels `x0` to `x1` of a row.
pub open spec fn row_sum(rgba: Seq<u8>, w: int, y: int, x0: int, x1: int, c: int) -> int
    decreases x1 - x0,
{
    if x1 <= x0 {
        0
    } else {
        row_sum(rgba, w, y, x0, x1 - 1, c) + rgba[(y * w + x1 - 1) * 4 + c]
    }
}

/// The sum over a box of pixels.
pub open spec fn box_sum(
    rgba: Seq<u8>,
    w: int,
    x0: int,
    x1: int,
    y0: int,
    y1: int,
    c: int,
) -> int
    decreases y1 - y0,
{
    if y1 <= y0 {
        0
    } else {
        box_sum(rgba, w, x0, x1, y0, y1 - 1, c) + row_sum(rgba, w, y1 - 1, x0, x1, c)
    }
}

/// The number of pixels of a box.
pub open spec fn box_count(x0: int, x1: int, y0: int, y1: int) -> int {
    if x1 <= x0 || y1 <= y0 {
        0
    } else {
        (x1 - x0) * (y1 - y0)
    }
}

/// A channel of a pixel of the resized icon: the average over the source
/// pixels, rounded down. Since colours are multiplied by their alpha, each
/// pixel counts by its alpha. A box without any alpha is clear black.
pub open spec fn resized_channel(icon: Icon, size: int, x: int, y: int, c: int) -> int {
    let (x0, x1) = box_side(x, icon.width as int, size);
    let (y0, y1) = box_side(y, icon.height as int, size);
    let w = icon.width as int;
    if box_sum(icon.rgba@, w, x0, x1, y0, y1, 3) <= 0 {
        0
    } else {
        box_sum(icon.rgba@, w, x0, x1, y0, y1, c) / box_count(x0, x1, y0, y1)
    }
}

proof fn row_sums_are_bounded(rgba: Seq<u8>, w: int, y: int, x0: int, x1: int, c: int)
    ensures
        0 <= row_sum(rgba, w, y, x0, x1, c),
        x0 <= x1 ==> row_sum(rgba, w, y, x0, x1, c) <= 255 * (x1 - x0),
    decreases x1 - x0,
{
    if x0 < x1 {
        row_sums_are_bounded(rgba, w, y, x0, x1 - 1, c);
    }
}

proof fn box_sums_are_bounded(
    rgba: Seq<u8>,
    w: int,
    x0: int,
    x1: int,
    y0: int,
    y1: int,
    c: int,
)
    requires
        x0 <= x1,
    ensures
        0 <= box_sum(rgba, w, x0, x1, y0, y1, c),
        y0 <= y1 ==> box_sum(rgba, w, x0, x1, y0, y1, c) <= 255 * ((x1 - x0) * (y1 - y0)),
    decreases y1 - y0,
{
    if y0 < y1 {
        box_sums_are_bounded(rgba, w, x0, x1, y0, y1 - 1, c);
        row_sums_are_bounded(rgba, w, y1 - 1, x0, x1, c);
        assert((x1 - x0) * (y1 - y0) == (x1 - x0) * (y1 - 1 - y0) + (x1 - x0)) by (nonlinear_arith);
    } else if y0 == y1 {
        assert((x1 - x0) * (y1 - y0) == 0) by (nonlinear_arith)
            requires
                y0 == y1,
        ;
    }
}

proof fn box_lies_inside(at: int, from: int, to: int)
    requires
        0 <= at < to,
        0 <= from,
    ensures
        0 <= box_side(at, from, to).0 <= box_side(at, from, to).1 <= from,
        0 < from ==> box_side(at, from, to).0 < box_side(at, from, to).1,
{
    assert(0 <= at * from / to && (0 < from ==> at * from / to < from) && (from == 0 ==> at * from
        / to == 0)) by (nonlinear_arith)
        requires
            0 <= at < to,
            0 <= from,
    ;
}

fn box_of(at: u32, from: u32, to: u32) -> (r: (u32, u32))
    requires
        at < to,
    ensures
        r.0 == box_side(at as int, from as int, to as int).0,
        r.1 == box_side(at as int, from as int, to as int).1,
        r.0 <= r.1 <= from,
{
    proof {
        box_lies_inside(at as int, from as int, to as int);
        let (a, f) = (at as int, from as int);
        assert(0 <= a * f <= 0xffff_ffff * 0xffff_ffff) by (nonlinear_arith)
            requires
                0 <= a <= 0xffff_ffff,
                0 <= f <= 0xffff_ffff,
        ;
        assert((a + 1) * f == a * f + f) by (nonlinear_arith);
    }
    let wide: u128 = at as u128 * from as u128;
    let lo: u128 = wide / (to as u128);
    let hi: u128 = (wide + from as u128 + to as u128 - 1) / (to as u128);
    let top: u128 = if from > to && hi > lo + 1 {
        hi
    } else {
        lo + 1
    };
    (
        lo as u32,
        if top < from as u128 {
            top as u32
        } else {
            from
        },
    )
}

fn box_pixel(icon: &Icon, x0: u32, x1: u32, y0: u32, y1: u32) -> (r: (u8, u8, u8, u8))
    requires
        icon.complete(),
        x0 <= x1 <= icon.width,
        y0 <= y1 <= icon.height,
    ensures
        ({
            let s = |c: int|
                box_sum(
                    icon.rgba@,
                    icon.width as int,
                    x0 as int,
                    x1 as int,
                    y0 as int,
                    y1 as int,
                    c,
                );
            if s(3) <= 0 {
                r == (0u8, 0u8, 0u8, 0u8)
            } else {
                let n = box_count(x0 as int, x1 as int, y0 as int, y1 as int);
                &&& r.0 == s(0) / n
                &&& r.1 == s(1) / n
                &&& r.2 == s(2) / n
                &&& r.3 == s(3) / n
            }
        }),
{
    let ghost (gx0, gx1, gy0, gy1, w) = (
        x0 as int,
        x1 as int,
        y0 as int,
        y1 as int,
        icon.width as int,
    );
    let ghost rgba = icon.rgba@;
    let mut red: u128 = 0;
    let mut green: u128 = 0;
    let mut blue: u128 = 0;
    let mut alpha: u128 = 0;
    let mut y: u32 = y0;
    while y < y1
        invariant
            y0 <= y <= y1 <= icon.height,
            x0 <= x1 <= icon.width,
            icon.complete(),
            rgba == icon.rgba@,
            gx0 == x0,
            gx1 == x1,
            gy0 == y0,
            w == icon.width,
            red == box_sum(rgba, w, gx0, gx1, gy0, y as int, 0),
            green == box_sum(rgba, w, gx0, gx1, gy0, y as int, 1),
            blue == box_sum(rgba, w, gx0, gx1, gy0, y as int, 2),
            alpha == box_sum(rgba, w, gx0, gx1, gy0, y as int, 3),
        decreases y1 - y,
    {
        let ghost gy = y as int;
        let ghost (r0, g0, b0, a0) = (red as int, green as int, blue as int, alpha as int);
        let mut x: u32 = x0;
        while x < x1
            invariant
                x0 <= x <= x1 <= icon.width,
                y0 <= y < y1 <= icon.height,
                icon.complete(),
                rgba == icon.rgba@,
                gx0 == x0,
                gy0 == y0,
                gx1 == x1,
                w == icon.width,
                gy == y,
                r0 == box_sum(rgba, w, gx0, gx1, gy0, gy, 0),
                g0 == box_sum(rgba, w, gx0, gx1, gy0, gy, 1),
                b0 == box_sum(rgba, w, gx0, gx1, gy0, gy, 2),
                a0 == box_sum(rgba, w, gx0, gx1, gy0, gy, 3),
                red == r0 + row_sum(rgba, w, gy, gx0, x as int, 0),
                green == g0 + row_sum(rgba, w, gy, gx0, x as int, 1),
                blue == b0 + row_sum(rgba, w, gy, gx0, x as int, 2),
                alpha == a0 + row_sum(rgba, w, gy, gx0, x as int, 3),
            decreases x1 - x,
        {
            proof {
                let i = gy * w + x;
                let (h, xx) = (icon.height as int, x as int);
                assert(0 <= gy * w && 0 <= gy * w + xx && (gy * w + xx) * 4 + 4 <= w * h * 4)
                    by (nonlinear_arith)
                    requires
                        0 <= gy,
                        gy + 1 <= h,
                        0 <= xx < w,
                ;
                assert(w * h * 4 == icon.width * icon.height * 4);
                assert(y * icon.width == gy * w);
                let (dx, dy) = (gx1 - gx0, gy - gy0);
                assert(0 <= dx * dy <= 0xffff_ffff * 0xffff_ffff) by (nonlinear_arith)
                    requires
                        0 <= dx <= 0xffff_ffff,
                        0 <= dy <= 0xffff_ffff,
                ;
                box_sums_are_bounded(rgba, w, gx0, gx1, gy0, gy, 0);
                box_sums_are_bounded(rgba, w, gx0, gx1, gy0, gy, 1);
                box_sums_are_bounded(rgba, w, gx0, gx1, gy0, gy, 2);
                box_sums_are_bounded(rgba, w, gx0, gx1, gy0, gy, 3);
                row_sums_are_bounded(rgba, w, gy, gx0, xx, 0);
                row_sums_are_bounded(rgba, w, gy, gx0, xx, 1);
                row_sums_are_bounded(rgba, w, gy, gx0, xx, 2);
                row_sums_are_bounded(rgba, w, gy, gx0, xx, 3);
            }
            let len: usize = icon.rgba.len();
            assert(gy * w + x <= len);
            let at: usize = (y as usize * icon.width as usize + x as usize) * 4;
            red = red + icon.rgba[at] as u128;
            green = green + icon.rgba[at + 1] as u128;
            blue = blue + icon.rgba[at + 2] as u128;
            alpha = alpha + icon.rgba[at + 3] as u128;
            x += 1;
        }
        y += 1;
    }
    if alpha == 0 {
        return (0, 0, 0, 0);
    }
    proof {
        box_sums_are_bounded(rgba, w, gx0, gx1, gy0, gy1, 0);
        box_sums_are_bounded(rgba, w, gx0, gx1, gy0, gy1, 1);
        box_sums_are_bounded(rgba, w, gx0, gx1, gy0, gy1, 2);
        box_sums_are_bounded(rgba, w, gx0, gx1, gy0, gy1, 3);
        let (r, g, b, a) = (red as int, green as int, blue as int, alpha as int);
        let n = (gx1 - gx0) * (gy1 - gy0);
        let (dx, dy) = (gx1 - gx0, gy1 - gy0);
        assert(n > 0);
        assert(0 < dx && 0 < dy) by (nonlinear_arith)
            requires
                dx * dy > 0,
                0 <= dx,
                0 <= dy,
        ;
        assert(0 <= r / n <= 255 && 0 <= g / n <= 255 && 0 <= b / n <= 255 && 0 <= a / n <= 255)
            by (nonlinear_arith)
            requires
                0 < n,
                0 <= r <= 255 * n,
                0 <= g <= 255 * n,
                0 <= b <= 255 * n,
                0 <= a <= 255 * n,
        ;
        assert(dx * dy <= 0xffff_ffff * 0xffff_ffff) by (nonlinear_arith)
            requires
                0 <= dx <= 0xffff_ffff,
                0 <= dy <= 0xffff_ffff,
        ;
    }
    let count: u128 = (x1 - x0) as u128 * (y1 - y0) as u128;
    (
        (red / count) as u8,
        (green / count) as u8,
        (blue / count) as u8,
        (alpha / count) as u8,
    )
}

/// The bytes of a resized icon.
pub open spec fn resized_bytes(icon: Icon, size: int) -> Seq<u8> {
    Seq::new(
        (size * size * 4) as nat,
        |k: int| resized_channel(icon, size, (k / 4) % size, (k / 4) / size, k % 4) as u8,
    )
}

/// The icon as a square of `size` pixels (at least one): a copy where it has
/// that size, else each pixel averaged over the source pixels it stands for,
/// which is one where the icon grows.
#[must_use]
pub fn resize(icon: &Icon, size: u32) -> (r: Icon)
    requires
        icon.complete(),
        size * size * 4 <= usize::MAX,
    ensures
        ({
            let side = if size == 0 {
                1u32
            } else {
                size
            };
            &&& r.width == side
            &&& r.height == side
            &&& r.rgba@ == (if icon.width == side && icon.height == side {
                icon.rgba@
            } else {
                resized_bytes(*icon, side as int)
            })
            &&& r.complete()
        }),
{
    let side: u32 = if size == 0 {
        1
    } else {
        size
    };
    if icon.width == side && icon.height == side {
        let mut rgba: Vec<u8> = Vec::new();
        let mut i: usize = 0;
        while i < icon.rgba.len()
            invariant
                i <= icon.rgba@.len(),
                rgba@ =~= icon.rgba@.take(i as int),
            decreases icon.rgba@.len() - i,
        {
            rgba.push(icon.rgba[i]);
            i += 1;
        }
        assert(rgba@ =~= icon.rgba@);
        return Icon { rgba, width: side, height: side };
    }
    let ghost s = side as int;
    let ghost want = resized_bytes(*icon, s);
    let mut rgba: Vec<u8> = Vec::new();
    let mut y: u32 = 0;
    assert(0 * s == 0) by (nonlinear_arith);
    while y < side
        invariant
            y <= side,
            s == side,
            s >= 1,
            icon.complete(),
            want == resized_bytes(*icon, s),
            rgba@ =~= want.take(y * s * 4),
            0 <= y * s * 4 <= want.len(),
            want.len() == s * s * 4,
        decreases side - y,
    {
        let (y0, y1) = box_of(y, icon.height, side);
        let ghost gy = y as int;
        proof {
            assert(gy * s * 4 + s * 4 <= s * s * 4 && (gy + 1) * s * 4 == gy * s * 4 + s * 4)
                by (nonlinear_arith)
                requires
                    0 <= gy,
                    gy + 1 <= s,
            ;
        }
        let mut x: u32 = 0;
        while x < side
            invariant
                x <= side,
                y < side,
                gy == y,
                s == side,
                s >= 1,
                icon.complete(),
                y0 <= y1 <= icon.height,
                y0 == box_side(gy, icon.height as int, s).0,
                y1 == box_side(gy, icon.height as int, s).1,
                want == resized_bytes(*icon, s),
                want.len() == s * s * 4,
                gy * s * 4 + s * 4 <= s * s * 4,
                0 <= gy * s * 4,
                rgba@ =~= want.take(gy * s * 4 + x * 4),
            decreases side - x,
        {
            let (x0, x1) = box_of(x, icon.width, side);
            let (r, g, b, a) = box_pixel(icon, x0, x1, y0, y1);
            proof {
                let gx = x as int;
                let q = gy * s + gx;
                assert(q % s == gx && q / s == gy) by (nonlinear_arith)
                    requires
                        q == gy * s + gx,
                        0 <= gx < s,
                        0 <= gy,
                ;
                let k = gy * s * 4 + gx * 4;
                assert(k == q * 4);
                assert(k / 4 == q && (k + 1) / 4 == q && (k + 2) / 4 == q && (k + 3) / 4 == q);
                assert(k % 4 == 0 && (k + 1) % 4 == 1 && (k + 2) % 4 == 2 && (k + 3) % 4 == 3);
                assert(k + 4 <= want.len());
                assert(want[k] == r);
                assert(want[k + 1] == g);
                assert(want[k + 2] == b);
                assert(want[k + 3] == a);
            }
            rgba.push(r);
            rgba.push(g);
            rgba.push(b);
            rgba.push(a);
            x += 1;
        }
        y += 1;
    }
    assert(want.take(s * s * 4) =~= want);
    assert(side * side * 4 == s * s * 4);
    Icon { rgba, width: side, height: side }
}

/// Whether every pixel of an icon is the same.
pub open spec fn is_solid(icon: Icon, px: (u8, u8, u8, u8)) -> bool {
    forall|i: int|
        0 <= i < icon.width * icon.height ==> icon.rgba@[#[trigger] (i * 4)] == px.0
            && icon.rgba@[i * 4 + 1] == px.1 && icon.rgba@[i * 4 + 2] == px.2
            && icon.rgba@[i * 4 + 3] == px.3
}

/// A channel of a pixel.
pub open spec fn channel(px: (u8, u8, u8, u8), c: int) -> int {
    if c == 0 {
        px.0 as int
    } else if c == 1 {
        px.1 as int
    } else if c == 2 {
        px.2 as int
    } else {
        px.3 as int
    }
}

proof fn solid_row(icon: Icon, px: (u8, u8, u8, u8), y: int, x0: int, x1: int, c: int)
    requires
        is_solid(icon, px),
        0 <= y < icon.height,
        0 <= x0 <= x1 <= icon.width,
        0 <= c <= 3,
    ensures
        row_sum(icon.rgba@, icon.width as int, y, x0, x1, c) == (x1 - x0) * channel(px, c),
    decreases x1 - x0,
{
    let k = channel(px, c);
    if x0 < x1 {
        solid_row(icon, px, y, x0, x1 - 1, c);
        let (w, h) = (icon.width as int, icon.height as int);
        let i = y * w + x1 - 1;
        assert(0 <= i < w * h) by (nonlinear_arith)
            requires
                i == y * w + x1 - 1,
                0 <= y,
                y + 1 <= h,
                0 < x1 <= w,
        ;
        assert(w * h == icon.width * icon.height);
        assert(icon.rgba@[i * 4] == px.0);
        assert(icon.rgba@[i * 4 + c] == k);
        assert((x1 - x0) * k == (x1 - 1 - x0) * k + k) by (nonlinear_arith);
    } else {
        assert((x1 - x0) * k == 0) by (nonlinear_arith)
            requires
                x0 == x1,
        ;
    }
}

proof fn solid_box(
    icon: Icon,
    px: (u8, u8, u8, u8),
    x0: int,
    x1: int,
    y0: int,
    y1: int,
    c: int,
)
    requires
        is_solid(icon, px),
        0 <= y0 <= y1 <= icon.height,
        0 <= x0 <= x1 <= icon.width,
        0 <= c <= 3,
    ensures
        box_sum(icon.rgba@, icon.width as int, x0, x1, y0, y1, c) == ((x1 - x0) * (y1 - y0))
            * channel(px, c),
    decreases y1 - y0,
{
    let k = channel(px, c);
    let (dx, dy) = (x1 - x0, y1 - y0);
    if y0 < y1 {
        solid_box(icon, px, x0, x1, y0, y1 - 1, c);
        solid_row(icon, px, y1 - 1, x0, x1, c);
        assert((dx * dy) * k == (dx * (dy - 1)) * k + dx * k) by (nonlinear_arith);
    } else {
        assert((dx * dy) * k == 0) by (nonlinear_arith)
            requires
                dy == 0,
        ;
    }
}

/// An icon of one colour keeps that colour in every pixel at every size: with
/// any alpha at all the four channels stay, and a clear icon stays clear.
pub proof fn resizing_keeps_a_solid_colour(
    icon: Icon,
    px: (u8, u8, u8, u8),
    size: int,
    x: int,
    y: int,
    c: int,
)
    requires
        is_solid(icon, px),
        icon.width > 0,
        icon.height > 0,
        0 <= x < size,
        0 <= y < size,
        0 <= c <= 3,
    ensures
        resized_channel(icon, size, x, y, c) == (if px.3 == 0 {
            0
        } else {
            channel(px, c)
        }),
{
    box_lies_inside(x, icon.width as int, size);
    box_lies_inside(y, icon.height as int, size);
    let (x0, x1) = box_side(x, icon.width as int, size);
    let (y0, y1) = box_side(y, icon.height as int, size);
    solid_box(icon, px, x0, x1, y0, y1, c);
    solid_box(icon, px, x0, x1, y0, y1, 3);
    let n = (x1 - x0) * (y1 - y0);
    let (a, v) = (px.3 as int, channel(px, c));
    assert(n > 0) by (nonlinear_arith)
        requires
            n == (x1 - x0) * (y1 - y0),
            x0 < x1,
            y0 < y1,
    ;
    if a == 0 {
        assert(n * a == 0) by (nonlinear_arith)
            requires
                a == 0,
        ;
    } else {
        assert(n * a > 0 && (n * v) / n == v) by (nonlinear_arith)
            requires
                n > 0,
                a > 0,
                v >= 0,
        ;
    }
}

/// Whether no colour of an icon is above its alpha, as it is where colours are
/// multiplied by it.
pub open spec fn is_premultiplied(icon: Icon) -> bool {
    forall|i: int, c: int|
        0 <= i < icon.width * icon.height && 0 <= c <= 3 ==> #[trigger] icon.rgba@[i * 4 + c]
            <= icon.rgba@[i * 4 + 3]
}

/// An icon that is read has no colour above its alpha.
pub proof fn icons_are_premultiplied(
    icon: Icon,
    data: Seq<u8>,
    samples: Samples,
)
    requires
        icon.rgba@ == spread(data, icon.width * icon.height, samples),
    ensures
        is_premultiplied(icon),
{
    let n = icon.width * icon.height;
    assert forall|i: int, c: int| 0 <= i < n && 0 <= c <= 3 implies #[trigger] icon.rgba@[i * 4 + c]
        <= icon.rgba@[i * 4 + 3] by {
        assert((i * 4 + c) / 4 == i && (i * 4 + c) % 4 == c);
        assert((i * 4 + 3) / 4 == i && (i * 4 + 3) % 4 == 3);
        let (x, a) = (sample(data, samples, i, c) as int, sample(data, samples, i, 3) as int);
        assert(0 <= x * a / 255 <= a) by (nonlinear_arith)
            requires
                0 <= x <= 255,
                0 <= a,
        ;
    }
}

proof fn rows_are_premultiplied(icon: Icon, y: int, x0: int, x1: int, c: int)
    requires
        is_premultiplied(icon),
        0 <= y < icon.height,
        0 <= x0 <= x1 <= icon.width,
        0 <= c <= 3,
    ensures
        row_sum(icon.rgba@, icon.width as int, y, x0, x1, c) <= row_sum(
            icon.rgba@,
            icon.width as int,
            y,
            x0,
            x1,
            3,
        ),
    decreases x1 - x0,
{
    if x0 < x1 {
        rows_are_premultiplied(icon, y, x0, x1 - 1, c);
        let (w, h) = (icon.width as int, icon.height as int);
        let i = y * w + x1 - 1;
        assert(0 <= i < w * h) by (nonlinear_arith)
            requires
                i == y * w + x1 - 1,
                0 <= y,
                y + 1 <= h,
                0 < x1 <= w,
        ;
        assert(w * h == icon.width * icon.height);
        assert(icon.rgba@[i * 4 + c] <= icon.rgba@[i * 4 + 3]);
    }
}

proof fn boxes_are_premultiplied(icon: Icon, x0: int, x1: int, y0: int, y1: int, c: int)
    requires
        is_premultiplied(icon),
        0 <= y0 <= y1 <= icon.height,
        0 <= x0 <= x1 <= icon.width,
        0 <= c <= 3,
    ensures
        box_sum(icon.rgba@, icon.width as int, x0, x1, y0, y1, c) <= box_sum(
            icon.rgba@,
            icon.width as int,
            x0,
            x1,
            y0,
            y1,
            3,
        ),
    decreases y1 - y0,
{
    if y0 < y1 {
        boxes_are_premultiplied(icon, x0, x1, y0, y1 - 1, c);
        rows_are_premultiplied(icon, y1 - 1, x0, x1, c);
    }
}

/// A resized icon has no colour above its alpha either.
pub proof fn resizing_keeps_colours_below_alpha(icon: Icon, size: int, x: int, y: int, c: int)
    requires
        is_premultiplied(icon),
        0 <= x < size,
        0 <= y < size,
        0 <= c <= 3,
    ensures
        resized_channel(icon, size, x, y, c) <= resized_channel(icon, size, x, y, 3),
{
    box_lies_inside(x, icon.width as int, size);
    box_lies_inside(y, icon.height as int, size);
    let (x0, x1) = box_side(x, icon.width as int, size);
    let (y0, y1) = box_side(y, icon.height as int, size);
    boxes_are_premultiplied(icon, x0, x1, y0, y1, c);
    let (v, a) = (
        box_sum(icon.rgba@, icon.width as int, x0, x1, y0, y1, c),
        box_sum(icon.rgba@, icon.width as int, x0, x1, y0, y1, 3),
    );
    let n = box_count(x0, x1, y0, y1);
    box_sums_are_bounded(icon.rgba@, icon.width as int, x0, x1, y0, y1, 3);
    if a > 0 {
        let (dx, dy) = (x1 - x0, y1 - y0);
        assert(dx > 0 && dy > 0) by (nonlinear_arith)
            requires
                dx * dy > 0,
                0 <= dx,
                0 <= dy,
        ;
        assert(v / n <= a / n) by (nonlinear_arith)
            requires
                v <= a,
                n > 0,
        ;
    }
}

/// Scaling up mixes no colours: every pixel is the nearest one of the icon.
pub proof fn scaling_up_takes_the_nearest_pixel(icon: Icon, size: int, x: int, y: int, c: int)
    requires
        is_premultiplied(icon),
        0 < icon.width <= size,
        0 < icon.height <= size,
        0 <= x < size,
        0 <= y < size,
        0 <= c <= 3,
    ensures
        ({
            let i = y * icon.height / size * icon.width + x * icon.width / size;
            &&& 0 <= i < icon.width * icon.height
            &&& resized_channel(icon, size, x, y, c) == icon.rgba@[i * 4 + c]
        }),
{
    let (w, h) = (icon.width as int, icon.height as int);
    box_lies_inside(x, w, size);
    box_lies_inside(y, h, size);
    let (sx, sy) = (x * w / size, y * h / size);
    let i = sy * w + sx;
    assert(0 <= i < w * h) by (nonlinear_arith)
        requires
            i == sy * w + sx,
            0 <= sy,
            sy + 1 <= h,
            0 <= sx < w,
    ;
    assert(w * h == icon.width * icon.height);
    assert(box_side(x, w, size) == (sx, sx + 1));
    assert(box_side(y, h, size) == (sy, sy + 1));
    let rgba = icon.rgba@;
    reveal_with_fuel(row_sum, 2);
    reveal_with_fuel(box_sum, 2);
    assert(box_sum(rgba, w, sx, sx + 1, sy, sy + 1, c) == rgba[i * 4 + c]);
    assert(box_sum(rgba, w, sx, sx + 1, sy, sy + 1, 3) == rgba[i * 4 + 3]);
    let one = sx + 1 - sx;
    assert(one * one == 1) by (nonlinear_arith)
        requires
            one == 1,
    ;
    assert(sy + 1 - sy == one);
    assert(box_count(sx, sx + 1, sy, sy + 1) == 1);
    assert(rgba[i * 4 + c] <= rgba[i * 4 + 3]);
}

/// An icon at least as large as wanted is picked before any smaller one, of
/// the larger ones the smallest and of the smaller ones the largest; of equal
/// ones the first.
pub proof fn large_icons_are_picked_first(sizes: Seq<u32>, want: u32, n: int, j: int)
    requires
        0 <= j < n <= sizes.len(),
    ensures
        best_size(sizes, want, n) matches Some(b) && {
            &&& 0 <= b < n
            &&& sizes[j] >= want ==> want <= sizes[b] <= sizes[j]
            &&& sizes[b] < want ==> sizes[j] <= sizes[b]
            &&& sizes[j] == sizes[b] ==> b <= j
        },
    decreases n,
{
    if j < n - 1 {
        large_icons_are_picked_first(sizes, want, n - 1, j);
    } else if n > 1 {
        large_icons_are_picked_first(sizes, want, n - 1, 0);
    }
}

/// A directory of icons is for the number before the first x of its name,
/// where there is one, and else for the number it is named after.
pub proof fn directories_are_named_after_their_size(width: Seq<char>, rest: Seq<char>)
    requires
        forall|j: int| 0 <= j < width.len() ==> #[trigger] width[j] != 'x',
    ensures
        dir_size(width) == number_in(width),
        number_in(width).is_some() ==> dir_size(width.push('x') + rest) == number_in(width),
        number_in(width).is_none() ==> dir_size(width.push('x') + rest) == number_in(
            width.push('x') + rest,
        ),
{
    let stem = width.push('x') + rest;
    crate::text::mark_is_first(width, 'x', 0);
    crate::text::mark_is_first(stem, 'x', 0);
    assert(stem[width.len() as int] == 'x');
    let cut = mark_from(stem, 'x', 0);
    if cut < width.len() {
        assert(stem[cut] == width[cut]);
    }
    assert(stem.subrange(0, cut) =~= width);
}

/// A name below a directory stands behind one slash.
pub proof fn names_stand_behind_one_slash(dir: Seq<char>, leaf: Seq<char>)
    ensures
        dir.len() > 0 && dir.last() != '/' ==> joined(dir, leaf) == dir.push('/') + leaf,
        joined(dir.push('/'), leaf) == dir.push('/') + leaf,
        joined(Seq::empty(), leaf) == leaf,
{
    assert(dir + seq!['/'] =~= dir.push('/'));
    assert(Seq::<char>::empty() + leaf =~= leaf);
}

proof fn dirs_behind(p: Seq<char>, s: Seq<char>, i: int)
    requires
        0 <= i,
    ensures
        listed_dirs(p + s, p.len() + i) == listed_dirs(s, i),
    decreases s.len() + 1 - i,
{
    if i <= s.len() {
        crate::text::mark_is_first(s, ':', i);
        crate::text::mark_is_first(p + s, ':', p.len() + i);
        let end = mark_from(s, ':', i);
        let there = mark_from(p + s, ':', p.len() + i);
        if there < p.len() + end {
            assert(s[there - p.len()] == (p + s)[there]);
            assert(false);
        }
        if p.len() + end < there {
            assert((p + s)[p.len() + end] == s[end]);
            assert(false);
        }
        assert((p + s).subrange(p.len() + i, there) =~= s.subrange(i, end));
        dirs_behind(p, s, end + 1);
    }
}

proof fn dirs_before(a: Seq<char>, b: Seq<char>, i: int)
    requires
        0 <= i <= a.len() + 1,
    ensures
        listed_dirs(a.push(':') + b, i) == listed_dirs(a, i) + listed_dirs(b, 0),
    decreases a.len() + 1 - i,
{
    let s = a.push(':') + b;
    if i == a.len() + 1 {
        dirs_behind(a.push(':'), b, 0);
        assert(listed_dirs(a, i) + listed_dirs(b, 0) =~= listed_dirs(b, 0));
    } else {
        assert(s[a.len() as int] == ':');
        crate::text::mark_is_first(a, ':', i);
        crate::text::mark_is_first(s, ':', i);
        let end = mark_from(a, ':', i);
        let there = mark_from(s, ':', i);
        if there < end {
            assert(a[there] == s[there]);
            assert(false);
        }
        if end < there {
            if end < a.len() {
                assert(a[end] == s[end]);
            }
            assert(false);
        }
        assert(s.subrange(i, there) =~= a.subrange(i, end));
        dirs_before(a, b, end + 1);
        let first = seq![joined(a.subrange(i, end), "icons"@)];
        let rest = listed_dirs(a, end + 1);
        assert(first + (rest + listed_dirs(b, 0)) =~= (first + rest) + listed_dirs(b, 0));
    }
}

/// Data directories are parted by colons: those before one are looked through
/// first, those behind it after them, each with its icons; empty ones do not
/// count.
pub proof fn colons_part_directories(a: Seq<char>, b: Seq<char>, dir: Seq<char>)
    requires
        dir.len() > 0,
        forall|j: int| 0 <= j < dir.len() ==> #[trigger] dir[j] != ':',
    ensures
        listed_dirs(a.push(':') + b, 0) == listed_dirs(a, 0) + listed_dirs(b, 0),
        listed_dirs(dir, 0) == seq![joined(dir, "icons"@)],
        listed_dirs(Seq::empty(), 0) == Seq::<Seq<char>>::empty(),
{
    dirs_before(a, b, 0);
    crate::text::mark_is_first(dir, ':', 0);
    let end = mark_from(dir, ':', 0);
    assert(end == dir.len());
    assert(dir.subrange(0, end) =~= dir);
    assert(listed_dirs(dir, end + 1) =~= Seq::<Seq<char>>::empty());
    let none = Seq::<char>::empty();
    crate::text::mark_is_first(none, ':', 0);
    assert(mark_from(none, ':', 0) == 0);
    assert(listed_dirs(none, 1) =~= Seq::<Seq<char>>::empty());
}

/// A colour is multiplied by its alpha: kept where that is full, nothing where
/// there is none, and in between in proportion, rounded down.
pub proof fn colours_fade_with_their_alpha(v: u8, alpha: u8)
    ensures
        faded(v, 255) == v,
        faded(v, 0) == 0,
        faded(v, alpha) * 255 <= v * alpha < faded(v, alpha) * 255 + 255,
{
    let (x, a) = (v as int, alpha as int);
    assert(0 <= x * a / 255 <= 255 && x * a / 255 * 255 <= x * a < x * a / 255 * 255 + 255)
        by (nonlinear_arith)
        requires
            0 <= x <= 255,
            0 <= a <= 255,
    ;
    assert(x * 255 / 255 == x);
}

/// The pixels of a picture keep their place and their samples: four of a
/// pixel with colours and alpha, three and full alpha where it has none, one
/// for all colours of a grey one.
pub proof fn pixels_keep_their_samples(data: Seq<u8>, pixels: int, i: int, c: int)
    requires
        0 <= i < pixels,
        0 <= c < 3,
    ensures
        spread(data, pixels, Samples::Rgba).len() == pixels * 4,
        spread(data, pixels, Samples::Rgba)[i * 4 + c] == faded(data[i * 4 + c], data[i * 4 + 3]),
        spread(data, pixels, Samples::Rgba)[i * 4 + 3] == data[i * 4 + 3],
        spread(data, pixels, Samples::Rgb)[i * 4 + c] == data[i * 3 + c],
        spread(data, pixels, Samples::Rgb)[i * 4 + 3] == 255,
        spread(data, pixels, Samples::GrayscaleAlpha)[i * 4 + c] == faded(
            data[i * 2],
            data[i * 2 + 1],
        ),
        spread(data, pixels, Samples::GrayscaleAlpha)[i * 4 + 3] == data[i * 2 + 1],
        spread(data, pixels, Samples::Grayscale)[i * 4 + c] == data[i],
        spread(data, pixels, Samples::Grayscale)[i * 4 + 3] == 255,
{
    assert((i * 4 + c) / 4 == i && (i * 4 + c) % 4 == c);
    assert((i * 4 + 3) / 4 == i && (i * 4 + 3) % 4 == 3);
    colours_fade_with_their_alpha(data[i * 3 + c], 255);
    colours_fade_with_their_alpha(data[i], 255);
}

/// An icon that shrinks to a whole part of its side is cut into equal boxes:
/// each pixel stands for as many as that part says, and none for two.
pub proof fn whole_parts_make_equal_boxes(at: int, to: int, k: int)
    requires
        0 <= at < to,
        k > 1,
    ensures
        box_side(at, k * to, to) == (at * k, (at + 1) * k),
{
    assert(at * (k * to) / to == at * k && ((at + 1) * (k * to) + to - 1) / to == (at + 1) * k && k
        * to > to && (at + 1) * k <= k * to && (at + 1) * k >= at * k + 2) by (nonlinear_arith)
        requires
            0 <= at < to,
            k > 1,
    ;
}

/// The pixels of a shrinking icon stand for all of it: the first box begins at
/// its start, the last ends at its end, and none begins behind the end of the
/// one before.
pub proof fn boxes_leave_no_gap(at: int, from: int, to: int)
    requires
        0 <= at < to < from,
    ensures
        box_side(0, from, to).0 == 0,
        box_side(to - 1, from, to).1 == from,
        at + 1 < to ==> box_side(at + 1, from, to).0 <= box_side(at, from, to).1,
{
    let lo = (at + 1) * from / to;
    let hi = ((at + 1) * from + to - 1) / to;
    assert(0 * from / to == 0 && (to * from + to - 1) / to == from && (to - 1) * from / to + 1
        <= from && lo <= hi && (at + 1 < to ==> lo <= from)) by (nonlinear_arith)
        requires
            0 <= at < to < from,
            lo == (at + 1) * from / to,
            hi == ((at + 1) * from + to - 1) / to,
    ;
}

/// The sum over a box counts each of its pixels once: a box that is cut in two
/// has the sums of both parts, and one of a single pixel has that pixel's.
pub proof fn boxes_add_up(
    rgba: Seq<u8>,
    w: int,
    x0: int,
    x1: int,
    y0: int,
    y: int,
    y1: int,
    c: int,
)
    requires
        y0 <= y <= y1,
    ensures
        box_sum(rgba, w, x0, x1, y0, y1, c) == box_sum(rgba, w, x0, x1, y0, y, c) + box_sum(
            rgba,
            w,
            x0,
            x1,
            y,
            y1,
            c,
        ),
        box_sum(rgba, w, x0, x0 + 1, y0, y0 + 1, c) == rgba[(y0 * w + x0) * 4 + c],
    decreases y1 - y,
{
    assert(row_sum(rgba, w, y0, x0, x0, c) == 0);
    assert(row_sum(rgba, w, y0, x0, x0 + 1, c) == rgba[(y0 * w + x0) * 4 + c]);
    assert(box_sum(rgba, w, x0, x0 + 1, y0, y0, c) == 0);
    if y < y1 {
        boxes_add_up(rgba, w, x0, x1, y0, y, y1 - 1, c);
    }
}

/// Rows add up as boxes do.
pub proof fn rows_add_up(rgba: Seq<u8>, w: int, y: int, x0: int, x: int, x1: int, c: int)
    requires
        x0 <= x <= x1,
    ensures
        row_sum(rgba, w, y, x0, x1, c) == row_sum(rgba, w, y, x0, x, c) + row_sum(
            rgba,
            w,
            y,
            x,
            x1,
            c,
        ),
        box_sum(rgba, w, x0, x1, y, y + 1, c) == row_sum(rgba, w, y, x0, x1, c),
    decreases x1 - x,
{
    assert(box_sum(rgba, w, x0, x1, y, y, c) == 0);
    if x < x1 {
        rows_add_up(rgba, w, y, x0, x, x1 - 1, c);
    }
}

/// The samples of a pixel are the bytes it has: none lies outside of them, and
/// the last of them is one.
pub proof fn samples_lie_in_their_pixel(s: Samples, i: int, c: int)
    requires
        0 <= c <= 3,
    ensures
        s.source(i, c) matches Some(at) ==> i * s.bytes() <= at < i * s.bytes() + s.bytes(),
        Samples::Rgba.source(i, 3) == Some(i * Samples::Rgba.bytes() + Samples::Rgba.bytes() - 1),
        Samples::Rgb.source(i, 2) == Some(i * Samples::Rgb.bytes() + Samples::Rgb.bytes() - 1),
        Samples::GrayscaleAlpha.source(i, 3) == Some(
            i * Samples::GrayscaleAlpha.bytes() + Samples::GrayscaleAlpha.bytes() - 1,
        ),
        Samples::Grayscale.source(i, 0) == Some(
            i * Samples::Grayscale.bytes() + Samples::Grayscale.bytes() - 1,
        ),
{
}

/// A picture can be used where it has pixels, of eight bits a sample and not
/// from a palette, and where none of them is missing.
pub proof fn usable_pictures_have_all_their_pixels(
    data: Seq<u8>,
    width: u32,
    height: u32,
    samples: Samples,
    bits: u8,
)
    ensures
        width == 0 || height == 0 || bits != 8 || samples == Samples::Indexed ==> !usable(
            data,
            width,
            height,
            samples,
            bits,
        ),
        usable(data, width, height, Samples::Rgba, 8) ==> data.len() >= width * height * 4,
        usable(data, width, height, Samples::Rgb, 8) ==> data.len() >= width * height * 3,
        width > 0 && height > 0 && data.len() >= width * height * 4 && width * height * 4
            <= usize::MAX ==> usable(data, width, height, Samples::Rgba, 8),
        width > 0 && height > 0 && data.len() >= width * height * 3 && width * height * 4
            <= usize::MAX ==> usable(data, width, height, Samples::Rgb, 8),
{
}

} // verus!
