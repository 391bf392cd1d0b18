//! SNI icon pixmap handling.
//!
//! Icons are transferred as `a(iiay)`: an array of `(width, height, ARGB32_be)`.

use vstd::prelude::*;

verus! {

/// A decoded icon pixmap in little-endian ARGB32 (Cairo's `[B,G,R,A]`).
#[derive(Debug, Clone, PartialEq)]
pub struct IconPixmap {
    pub width: u32,
    pub height: u32,
    /// Pixel data, four bytes `[B,G,R,A]` for each pixel.
    pub data: Vec<u8>,
}

/// What an [`IconPixmap`] holds.
pub struct PixmapView {
    pub width: u32,
    pub height: u32,
    pub data: Seq<u8>,
}

impl View for IconPixmap {
    type V = PixmapView;

    open spec fn view(&self) -> PixmapView {
        PixmapView { width: self.width, height: self.height, data: self.data@ }
    }
}

impl PixmapView {
    /// The number of pixels that the dimensions give.
    pub open spec fn pixels(self) -> int {
        self.width * self.height
    }
}

/// The bytes of a `w` by `h` image.
pub open spec fn image_size(w: int, h: int) -> int {
    w * h * 4
}

/// `raw` is enough for an image of that size.
pub open spec fn decodable(w: int, h: int, raw: Seq<u8>) -> bool {
    w > 0 && h > 0 && image_size(w, h) <= raw.len()
}

/// The first `n` bytes of `raw`, with the bytes of each group of four in reverse order.
pub open spec fn swapped(raw: Seq<u8>, n: int) -> Seq<u8> {
    Seq::new(n as nat, |i: int| raw[4 * (i / 4) + 3 - i % 4])
}

/// The pixmap that `[A,R,G,B]` pixel data stands for.
/// There is none where a dimension is not positive or the data is too short.
pub open spec fn decoded(w: int, h: int, raw: Seq<u8>) -> Option<PixmapView> {
    if decodable(w, h, raw) {
        Some(PixmapView { width: w as u32, height: h as u32, data: swapped(raw, image_size(w, h)) })
    } else {
        None
    }
}

/// The pixmaps of those among `tuples` that can be decoded, in their order.
pub open spec fn decoded_all(tuples: Seq<(i32, i32, &[u8])>) -> Seq<PixmapView>
    decreases tuples.len(),
{
    if tuples.len() == 0 {
        seq![]
    } else {
        let (w, h, raw) = tuples.last();
        let before = decoded_all(tuples.drop_last());
        match decoded(w as int, h as int, raw@) {
            Some(pixmap) => before.push(pixmap),
            None => before,
        }
    }
}

/// The contents of a row of pixmaps.
pub open spec fn pixmap_views(pixmaps: Seq<IconPixmap>) -> Seq<PixmapView> {
    Seq::new(pixmaps.len(), |i: int| pixmaps[i]@)
}

impl IconPixmap {
    /// Convert big-endian `[A,R,G,B]` pixel data into a pixmap.
    ///
    /// `None` where a dimension is not positive, or where `raw` is shorter than
    /// `w * h * 4` bytes. Bytes past those are ignored.
    pub fn from_argb32be(w: i32, h: i32, raw: &[u8]) -> (res: Option<IconPixmap>)
        ensures
            match res {
                Some(pixmap) => decoded(w as int, h as int, raw@) == Some(pixmap@),
                None => decoded(w as int, h as int, raw@) is None,
            },
            res is Some <==> w > 0 && h > 0 && 4 * (w * h) <= raw@.len(),
            res matches Some(pixmap) ==> {
                &&& pixmap.width == w && pixmap.height == h
                &&& pixmap.data@.len() == 4 * (w * h)
                &&& forall|k: int|
                    0 <= k < w * h ==> {
                        &&& #[trigger] pixmap.data@[4 * k] == raw@[4 * k + 3]
                        &&& pixmap.data@[4 * k + 1] == raw@[4 * k + 2]
                        &&& pixmap.data@[4 * k + 2] == raw@[4 * k + 1]
                        &&& pixmap.data@[4 * k + 3] == raw@[4 * k]
                    }
            },
    {
        proof {
            law_pixels_become_bgra(w, h, raw@);
        }
        if w <= 0 || h <= 0 {
            return None;
        }
        proof {
            assert(0 < w * h <= 0x7fff_ffff * 0x7fff_ffff) by (nonlinear_arith)
                requires
                    0 < w <= 0x7fff_ffff,
                    0 < h <= 0x7fff_ffff,
            ;
        }
        let expected: u64 = (w as u64) * (h as u64) * 4;
        if (raw.len() as u64) < expected {
            return None;
        }
        let total: usize = expected as usize;
        let mut data: Vec<u8> = Vec::new();
        let mut i: usize = 0;
        while i < total
            invariant
                i <= total,
                i % 4 == 0,
                total % 4 == 0,
                total <= raw@.len(),
                data@ == swapped(raw@, i as int),
            decreases total - i,
        {
            data.push(raw[i + 3]);
            data.push(raw[i + 2]);
            data.push(raw[i + 1]);
            data.push(raw[i]);
            i = i + 4;
            proof {
                assert(data@ =~= swapped(raw@, i as int));
            }
        }
        Some(IconPixmap { width: w as u32, height: h as u32, data })
    }
}

/// Convert simple `(width, height, &[u8])` tuples into `IconPixmap`s.
///
/// For callers who already have raw ARGB32 big-endian pixel data, for example
/// from a decoded image file. Tuples that cannot be decoded are left out.
pub fn from_tuples(tuples: &[(i32, i32, &[u8])]) -> (res: Vec<IconPixmap>)
    ensures
        pixmap_views(res@) == decoded_all(tuples@),
{
    let mut result: Vec<IconPixmap> = Vec::new();
    let mut i: usize = 0;
    proof {
        assert(pixmap_views(result@) =~= decoded_all(tuples@.take(0)));
    }
    while i < tuples.len()
        invariant
            i <= tuples@.len(),
            pixmap_views(result@) == decoded_all(tuples@.take(i as int)),
        decreases tuples@.len() - i,
    {
        let (w, h, raw) = tuples[i];
        let ghost before = result@;
        proof {
            assert(tuples@.take(i + 1).drop_last() =~= tuples@.take(i as int));
        }
        if let Some(pixmap) = IconPixmap::from_argb32be(w, h, raw) {
            result.push(pixmap);
            proof {
                assert(pixmap_views(result@) =~= pixmap_views(before).push(pixmap@));
            }
        }
        i = i + 1;
    }
    proof {
        assert(tuples@.take(i as int) =~= tuples@);
    }
    result
}

/// Swapping the pixel bytes twice gives the bytes that were there.
pub proof fn law_swap_is_involution(raw: Seq<u8>, n: int)
    requires
        0 <= n <= raw.len(),
        n % 4 == 0,
    ensures
        swapped(swapped(raw, n), n) == raw.take(n),
{
    assert(swapped(swapped(raw, n), n) =~= raw.take(n)) by {
        assert forall|i: int| 0 <= i < n implies swapped(swapped(raw, n), n)[i] == raw[i] by {
            let j: int = 4 * (i / 4) + 3 - i % 4;
            assert(0 <= j < n);
            assert(4 * (j / 4) + 3 - j % 4 == i);
        }
    }
}

/// Every pixmap that comes out of the conversion has positive dimensions and
/// exactly four bytes of data for each of its pixels.
pub proof fn law_decoded_has_four_bytes_per_pixel(w: i32, h: i32, raw: Seq<u8>)
    ensures
        decoded(w as int, h as int, raw) matches Some(pixmap) ==> {
            &&& pixmap.width == w && pixmap.height == h
            &&& pixmap.pixels() > 0
            &&& pixmap.data.len() == 4 * pixmap.pixels()
        },
{
    if w > 0 && h > 0 {
        assert(w * h > 0) by (nonlinear_arith)
            requires
                w > 0,
                h > 0,
        ;
    }
}

/// Each result of the conversion of a row comes from one of its tuples, and every
/// tuple that can be decoded gives a result.
pub proof fn law_from_tuples_keeps_what_decodes(tuples: Seq<(i32, i32, &[u8])>)
    ensures
        decoded_all(tuples).len() <= tuples.len(),
        forall|i: int|
            0 <= i < decoded_all(tuples).len() ==> exists|j: int|
                0 <= j < tuples.len() && decoded(
                    tuples[j].0 as int,
                    tuples[j].1 as int,
                    (#[trigger] tuples[j]).2@,
                ) == Some(#[trigger] decoded_all(tuples)[i]),
        forall|j: int|
            0 <= j < tuples.len() ==> (decoded(
                tuples[j].0 as int,
                tuples[j].1 as int,
                (#[trigger] tuples[j]).2@,
            ) matches Some(pixmap) ==> decoded_all(tuples).contains(pixmap)),
    decreases tuples.len(),
{
    if tuples.len() > 0 {
        let rest = tuples.drop_last();
        let (w, h, raw) = tuples.last();
        law_from_tuples_keeps_what_decodes(rest);
        let all = decoded_all(tuples);
        let before = decoded_all(rest);
        assert forall|i: int| 0 <= i < all.len() implies exists|j: int|
            0 <= j < tuples.len() && decoded(
                tuples[j].0 as int,
                tuples[j].1 as int,
                (#[trigger] tuples[j]).2@,
            ) == Some(#[trigger] all[i]) by {
            if i < before.len() {
                assert(all[i] == before[i]);
                let j = choose|j: int|
                    0 <= j < rest.len() && decoded(
                        rest[j].0 as int,
                        rest[j].1 as int,
                        (#[trigger] rest[j]).2@,
                    ) == Some(before[i]);
                assert(tuples[j] == rest[j]);
            } else {
                assert(tuples[tuples.len() - 1] == tuples.last());
            }
        }
        assert forall|j: int| 0 <= j < tuples.len() implies (decoded(
            tuples[j].0 as int,
            tuples[j].1 as int,
            (#[trigger] tuples[j]).2@,
        ) matches Some(pixmap) ==> all.contains(pixmap)) by {
            if let Some(pixmap) = decoded(tuples[j].0 as int, tuples[j].1 as int, tuples[j].2@) {
                if j < rest.len() {
                    assert(rest[j] == tuples[j]);
                    assert(before.contains(pixmap));
                    let k = choose|k: int| 0 <= k < before.len() && before[k] == pixmap;
                    assert(all[k] == pixmap);
                } else {
                    assert(all[all.len() - 1] == pixmap);
                }
            }
        }
    }
}

/// Each pixel `[A,R,G,B]` becomes `[B,G,R,A]`, at the same place. Pixel data is decoded exactly
/// where both dimensions are positive and no pixel is missing.
pub proof fn law_pixels_become_bgra(w: i32, h: i32, raw: Seq<u8>)
    ensures
        decoded(w as int, h as int, raw) is Some <==> w > 0 && h > 0 && 4 * (w * h) <= raw.len(),
        decoded(w as int, h as int, raw) matches Some(pixmap) ==> {
            &&& pixmap.width == w && pixmap.height == h
            &&& pixmap.data.len() == 4 * (w * h)
            &&& forall|k: int|
                0 <= k < w * h ==> {
                    &&& #[trigger] pixmap.data[4 * k] == raw[4 * k + 3]
                    &&& pixmap.data[4 * k + 1] == raw[4 * k + 2]
                    &&& pixmap.data[4 * k + 2] == raw[4 * k + 1]
                    &&& pixmap.data[4 * k + 3] == raw[4 * k]
                }
        },
{
    if w > 0 && h > 0 {
        assert(w * h > 0) by (nonlinear_arith)
            requires
                w > 0,
                h > 0,
        ;
    }
    if let Some(pixmap) = decoded(w as int, h as int, raw) {
        assert forall|k: int| 0 <= k < w * h implies {
            &&& #[trigger] pixmap.data[4 * k] == raw[4 * k + 3]
            &&& pixmap.data[4 * k + 1] == raw[4 * k + 2]
            &&& pixmap.data[4 * k + 2] == raw[4 * k + 1]
            &&& pixmap.data[4 * k + 3] == raw[4 * k]
        } by {
            assert(4 * k / 4 == k && (4 * k + 1) / 4 == k && (4 * k + 2) / 4 == k && (4 * k + 3)
                / 4 == k);
            assert(4 * k % 4 == 0 && (4 * k + 1) % 4 == 1 && (4 * k + 2) % 4 == 2 && (4 * k + 3) % 4
                == 3);
        }
    }
}

/// Two rows of tuples give what each gives, one behind the other.
pub proof fn law_from_tuples_joins(
    first: Seq<(i32, i32, &[u8])>,
    second: Seq<(i32, i32, &[u8])>,
)
    ensures
        decoded_all(first + second) == decoded_all(first) + decoded_all(second),
    decreases second.len(),
{
    if second.len() == 0 {
        assert(first + second =~= first);
        assert(decoded_all(first) + decoded_all(second) =~= decoded_all(first));
    } else {
        assert((first + second).drop_last() =~= first + second.drop_last());
        law_from_tuples_joins(first, second.drop_last());
        assert(decoded_all(first + second) =~= decoded_all(first) + decoded_all(second));
    }
}

/// A single tuple gives one pixmap of its dimensions, with every pixel turned from `[A,R,G,B]`
/// to `[B,G,R,A]`; and none where a dimension is not positive or a pixel is missing.
pub proof fn law_from_tuples_decodes_each(tuple: (i32, i32, &[u8]))
    ensures
        ({
            let (w, h, raw) = tuple;
            let all = decoded_all(seq![tuple]);
            if w > 0 && h > 0 && 4 * (w * h) <= raw@.len() {
                &&& all.len() == 1
                &&& all[0].width == w && all[0].height == h
                &&& all[0].data.len() == 4 * (w * h)
                &&& forall|k: int|
                    0 <= k < w * h ==> {
                        &&& #[trigger] all[0].data[4 * k] == raw@[4 * k + 3]
                        &&& all[0].data[4 * k + 1] == raw@[4 * k + 2]
                        &&& all[0].data[4 * k + 2] == raw@[4 * k + 1]
                        &&& all[0].data[4 * k + 3] == raw@[4 * k]
                    }
            } else {
                all.len() == 0
            }
        }),
{
    let row = seq![tuple];
    assert(row.drop_last() =~= seq![]);
    assert(row.last() == tuple);
    assert(decoded_all(row.drop_last()).len() == 0);
    law_pixels_become_bgra(tuple.0, tuple.1, tuple.2@);
}

/// What is stated of a pixmap is stated of its own fields.
pub proof fn law_pixmap_view_shows_fields(pixmap: IconPixmap)
    ensures
        pixmap@.width == pixmap.width,
        pixmap@.height == pixmap.height,
        pixmap@.data == pixmap.data@,
        pixmap@.pixels() == pixmap.width * pixmap.height,
{
}

/// The contents of a row of pixmaps are the contents of each, in their order.
pub proof fn law_pixmap_views_show_each(pixmaps: Seq<IconPixmap>)
    ensures
        pixmap_views(pixmaps).len() == pixmaps.len(),
        forall|i: int|
            0 <= i < pixmaps.len() ==> (#[trigger] pixmap_views(pixmaps)[i]) == pixmaps[i]@,
{
}

} // verus!
