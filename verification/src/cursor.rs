//! The pointer image: its size, and the picture of a cursor file that is
//! nearest to it.

use vstd::prelude::*;
use vstd::string::*;

use crate::text::{number_in, parse_number};

verus! {

/// The side of the pointer image where nothing else is asked for.
pub const DEFAULT_SIZE: u32 = 24;

/// A pointer image with its hot spot and the size it was drawn for.
#[derive(Debug)]
pub struct CursorImage {
    pub width: i32,
    pub height: i32,
    pub xhot: i32,
    pub yhot: i32,
    pub nominal: i32,
    pub rgba: Vec<u8>,
}

/// A picture of a cursor file.
#[derive(Debug)]
pub struct Picture {
    pub size: u32,
    pub width: u32,
    pub height: u32,
    pub xhot: u32,
    pub yhot: u32,
    pub rgba: Vec<u8>,
}

/// The pointer size that the value of `XCURSOR_SIZE` asks for.
pub open spec fn size_asked(value: Option<Seq<char>>) -> u32 {
    match value {
        Some(s) => match number_in(s) {
            Some(n) if n > 0 => n,
            _ => DEFAULT_SIZE,
        },
        None => DEFAULT_SIZE,
    }
}

/// The pointer size that the value of `XCURSOR_SIZE` asks for: a positive
/// number, else the default.
pub fn configured_size(value: Option<&str>) -> (r: u32)
    ensures
        r == size_asked(
            match value {
                Some(s) => Some(s@),
                None => None,
            },
        ),
        r > 0,
{
    match value {
        Some(s) => match parse_number(s) {
            Some(n) => if n > 0 {
                n
            } else {
                DEFAULT_SIZE
            },
            None => DEFAULT_SIZE,
        },
        None => DEFAULT_SIZE,
    }
}

/// How far apart two sizes are.
pub open spec fn apart(a: u32, b: u32) -> int {
    if a >= b {
        a - b
    } else {
        b - a
    }
}

/// The first of the nearest among the first `n` sizes.
pub open spec fn nearest(sizes: Seq<u32>, target: u32, n: int) -> Option<int>
    decreases n,
{
    if n <= 0 {
        None
    } else {
        match nearest(sizes, target, n - 1) {
            None => Some(n - 1),
            Some(b) => if apart(sizes[n - 1], target) < apart(sizes[b], target) {
                Some(n - 1)
            } else {
                Some(b)
            },
        }
    }
}

/// No size is nearer to the target than the one found.
pub proof fn nearest_is_nearest(sizes: Seq<u32>, target: u32, n: int, j: int)
    requires
        0 <= j < n <= sizes.len(),
    ensures
        nearest(sizes, target, n) matches Some(b) && 0 <= b < n && apart(sizes[b], target) <= apart(
            sizes[j],
            target,
        ) && (apart(sizes[b], target) == apart(sizes[j], target) ==> b <= j),
    decreases n,
{
    if j < n - 1 {
        nearest_is_nearest(sizes, target, n - 1, j);
    } else if n > 1 {
        nearest_is_nearest(sizes, target, n - 1, 0);
    }
}

/// The sizes of the pictures of a cursor file.
pub open spec fn picture_sizes(ps: Seq<Picture>) -> Seq<u32> {
    Seq::new(ps.len(), |i: int| ps[i].size)
}

/// Whether every measure of a picture fits a signed coordinate.
pub open spec fn measurable(p: Picture) -> bool {
    p.width <= i32::MAX && p.height <= i32::MAX && p.xhot <= i32::MAX && p.yhot <= i32::MAX
        && p.size <= i32::MAX
}

/// The pointer image made of a picture.
pub open spec fn is_image_of(c: CursorImage, p: Picture) -> bool {
    c.width == p.width && c.height == p.height && c.xhot == p.xhot && c.yhot == p.yhot && c.nominal
        == (if p.size == 0 {
        1
    } else {
        p.size as int
    }) && c.rgba@ == p.rgba@
}

/// The pointer image for a size: the picture nearest to it, the earliest of
/// several; none without pictures or where its measures do not fit.
pub fn pick_image(pictures: Vec<Picture>, target_px: u32) -> (r: Option<CursorImage>)
    ensures
        ({
            let best = nearest(picture_sizes(pictures@), target_px, pictures@.len() as int);
            &&& r.is_some() == (best.is_some() && measurable(pictures@[best.unwrap()]))
            &&& r.is_some() ==> is_image_of(r.unwrap(), pictures@[best.unwrap()])
        }),
{
    let ghost sizes = picture_sizes(pictures@);
    let mut best: Option<usize> = None;
    let mut i: usize = 0;
    while i < pictures.len()
        invariant
            i <= pictures@.len(),
            sizes == picture_sizes(pictures@),
            best.is_some() ==> best.unwrap() < i && nearest(sizes, target_px, i as int) == Some(
                best.unwrap() as int,
            ),
            best.is_none() ==> nearest(sizes, target_px, i as int).is_none(),
        decreases pictures@.len() - i,
    {
        let size: u32 = pictures[i].size;
        let closer = match best {
            None => true,
            Some(b) => {
                let than: u32 = pictures[b].size;
                let here: u32 = if size >= target_px {
                    size - target_px
                } else {
                    target_px - size
                };
                let there: u32 = if than >= target_px {
                    than - target_px
                } else {
                    target_px - than
                };
                here < there
            },
        };
        if closer {
            best = Some(i);
        }
        i += 1;
    }
    match best {
        None => None,
        Some(b) => {
            let mut list = pictures;
            let p = list.swap_remove(b);
            if p.width > 0x7fff_ffff || p.height > 0x7fff_ffff || p.xhot > 0x7fff_ffff || p.yhot
                > 0x7fff_ffff || p.size > 0x7fff_ffff {
                return None;
            }
            Some(
                CursorImage {
                    width: p.width as i32,
                    height: p.height as i32,
                    xhot: p.xhot as i32,
                    yhot: p.yhot as i32,
                    nominal: if p.size == 0 {
                        1
                    } else {
                        p.size as i32
                    },
                    rgba: p.rgba,
                },
            )
        },
    }
}

/// A picture as plain values: size, width, height, hot spot and pixels.
pub open spec fn picture_values(p: Picture) -> (u32, u32, u32, u32, u32, Seq<u8>) {
    (p.size, p.width, p.height, p.xhot, p.yhot, p.rgba@)
}

/// The pictures of a cursor file as plain values.
pub open spec fn pictures_values(ps: Option<Vec<Picture>>) -> Option<
    Seq<(u32, u32, u32, u32, u32, Seq<u8>)>,
> {
    match ps {
        None => None,
        Some(v) => Some(Seq::new(v@.len(), |i: int| picture_values(v@[i]))),
    }
}

/// The pictures of a cursor file; none for bytes that are no cursor file.
pub uninterp spec fn xcursor_pictures(bytes: Seq<u8>) -> Option<
    Seq<(u32, u32, u32, u32, u32, Seq<u8>)>,
>;

/// `xcursor::parser::parse_xcursor`. It reads nothing but the bytes, so for
/// pictures that fit in memory what comes out rests on them alone. Of each
/// image the delay and the second pixel order are dropped.
#[verifier::external_body]
fn parse_pictures(bytes: &Vec<u8>) -> (r: Option<Vec<Picture>>)
    ensures
        pictures_values(r) == xcursor_pictures(bytes@),
{
    let images = xcursor::parser::parse_xcursor(bytes.as_slice())?;
    Some(
        images.into_iter().map(
            |i| Picture {
                size: i.size,
                width: i.width,
                height: i.height,
                xhot: i.xhot,
                yhot: i.yhot,
                rgba: i.pixels_rgba,
            },
        ).collect(),
    )
}

/// The pointer image that a cursor file has for a size.
pub open spec fn image_in(
    pictures: Option<Seq<(u32, u32, u32, u32, u32, Seq<u8>)>>,
    target: u32,
) -> Option<(u32, u32, u32, u32, u32, Seq<u8>)> {
    match pictures {
        None => None,
        Some(ps) => match nearest(
            Seq::new(ps.len(), |i: int| ps[i].0),
            target,
            ps.len() as int,
        ) {
            Some(b) if ps[b].0 <= i32::MAX && ps[b].1 <= i32::MAX && ps[b].2 <= i32::MAX
                && ps[b].3 <= i32::MAX && ps[b].4 <= i32::MAX => Some(ps[b]),
            _ => None,
        },
    }
}

/// The pointer image that the bytes of a cursor file have for a size.
pub fn load_cursor(bytes: &Vec<u8>, target_px: u32) -> (r: Option<CursorImage>)
    ensures
        ({
            let p = image_in(xcursor_pictures(bytes@), target_px);
            &&& r.is_some() == p.is_some()
            &&& r matches Some(c) ==> c.width == p.unwrap().1 && c.height == p.unwrap().2 && c.xhot
                == p.unwrap().3 && c.yhot == p.unwrap().4 && c.nominal == (if p.unwrap().0 == 0 {
                1
            } else {
                p.unwrap().0 as int
            }) && c.rgba@ == p.unwrap().5
        }),
{
    match parse_pictures(bytes) {
        None => None,
        Some(pictures) => {
            let ghost ps = xcursor_pictures(bytes@).unwrap();
            assert(picture_sizes(pictures@) =~= Seq::new(ps.len(), |i: int| ps[i].0));
            proof {
                if pictures@.len() > 0 {
                    nearest_is_nearest(
                        picture_sizes(pictures@),
                        target_px,
                        pictures@.len() as int,
                        0,
                    );
                    let b = nearest(
                        picture_sizes(pictures@),
                        target_px,
                        pictures@.len() as int,
                    ).unwrap();
                    assert(ps[b] == picture_values(pictures@[b]));
                }
            }
            pick_image(pictures, target_px)
        },
    }
}

/// How far two sizes are apart does not depend on which is larger.
pub proof fn distances_have_no_sign(a: u32, b: u32)
    ensures
        apart(a, b) == apart(b, a),
        apart(a, b) >= a - b,
        apart(a, b) >= b - a,
        apart(a, b) == a - b || apart(a, b) == b - a,
{
}

/// A size that is a positive number counts; anything else asks for 24 pixels.
pub proof fn sizes_that_make_no_sense_do_not_count(s: Seq<char>)
    ensures
        size_asked(None) == 24,
        number_in(s).is_none() ==> size_asked(Some(s)) == 24,
        number_in(s) matches Some(n) ==> {
            &&& n > 0 ==> size_asked(Some(s)) == n
            &&& n == 0 ==> size_asked(Some(s)) == 24
        },
{
}

/// The pointer image is a picture of the file of which no other is nearer to
/// the size that is wanted, and of several the first. It is shown wherever its
/// measures fit a signed coordinate.
pub proof fn the_nearest_picture_is_shown(
    ps: Seq<(u32, u32, u32, u32, u32, Seq<u8>)>,
    target: u32,
    b: int,
)
    requires
        0 <= b < ps.len(),
        forall|j: int| 0 <= j < b ==> apart(ps[b].0, target) < apart((#[trigger] ps[j]).0, target),
        forall|j: int| b <= j < ps.len() ==> apart(ps[b].0, target) <= apart((#[trigger] ps[j]).0, target),
    ensures
        ({
            let (size, width, height, xhot, yhot, _) = ps[b];
            let fits = size <= 0x7fff_ffff && width <= 0x7fff_ffff && height <= 0x7fff_ffff && xhot
                <= 0x7fff_ffff && yhot <= 0x7fff_ffff;
            &&& fits ==> image_in(Some(ps), target) == Some(ps[b])
            &&& !fits ==> image_in(Some(ps), target).is_none()
        }),
        image_in(None, target).is_none(),
{
    let sizes = Seq::new(ps.len(), |i: int| ps[i].0);
    nearest_is_nearest(sizes, target, ps.len() as int, b);
    let found = nearest(sizes, target, ps.len() as int).unwrap();
    assert(sizes[found] == ps[found].0);
    assert(sizes[b] == ps[b].0);
    if found < b {
        assert(apart(ps[b].0, target) < apart(ps[found].0, target));
    }
}

} // verus!
