use vstd::prelude::*;
use vstd::arithmetic::div_mod::{lemma_fundamental_div_mod, lemma_fundamental_div_mod_converse};
use crate::rng::{RandomSource, rand_step};

verus! {

/// Mathematical model of a decoded bitmap: row-major bytes, four channels
/// (R, G, B, A) per pixel, eight bits each, no padding.
#[verifier::ext_equal]
pub ghost struct RasterView {
    pub width: u32,
    pub height: u32,
    pub data: Seq<u8>,
}

impl RasterView {
    /// The buffer holds exactly width * height * 4 bytes.
    pub open spec fn wf(self) -> bool {
        self.data.len() == self.width * self.height * 4
    }

    /// Channel c of the pixel at column x, row y.
    pub open spec fn chan(self, x: int, y: int, c: int) -> u8 {
        self.data[(y * self.width + x) * 4 + c]
    }
}

/// A decoded bitmap: fixed dimensions and an RGBA byte buffer, mutated in
/// place by the transform primitives.
pub struct RasterImage {
    pub width: u32,
    pub height: u32,
    pub data: Vec<u8>,
}

impl View for RasterImage {
    type V = RasterView;

    open spec fn view(&self) -> RasterView {
        RasterView { width: self.width, height: self.height, data: self.data@ }
    }
}

/// How to flip: nothing, mirror columns, mirror rows, or both.
#[derive(Clone, Copy, PartialEq, Eq, Structural, Debug)]
pub enum FlipMode {
    Off,
    Horizontal,
    Vertical,
    Both,
}

/// The wire encoding of a flip mode: 1 is horizontal, 2 vertical, 3 both;
/// every other value behaves as no flip.
pub open spec fn flip_mode_of(m: u8) -> FlipMode {
    if m == 1 {
        FlipMode::Horizontal
    } else if m == 2 {
        FlipMode::Vertical
    } else if m == 3 {
        FlipMode::Both
    } else {
        FlipMode::Off
    }
}

pub fn flip_mode_from_u8(m: u8) -> (r: FlipMode)
    ensures
        r == flip_mode_of(m),
{
    if m == 1 {
        FlipMode::Horizontal
    } else if m == 2 {
        FlipMode::Vertical
    } else if m == 3 {
        FlipMode::Both
    } else {
        FlipMode::Off
    }
}

/// Flat index of the byte that the horizontal mirror moves to position i.
pub open spec fn hmirror(i: int, w: int) -> int {
    let p = i / 4;
    let c = i % 4;
    let y = p / w;
    let x = p % w;
    (y * w + (w - 1 - x)) * 4 + c
}

/// Flat index of the byte that the vertical mirror moves to position i.
pub open spec fn vmirror(i: int, w: int, h: int) -> int {
    let p = i / 4;
    let c = i % 4;
    let y = p / w;
    let x = p % w;
    ((h - 1 - y) * w + x) * 4 + c
}

/// Mirror columns: pixel (x, y) takes the bytes of pixel (w-1-x, y).
pub open spec fn flip_h(v: RasterView) -> RasterView {
    RasterView {
        width: v.width,
        height: v.height,
        data: Seq::new(v.data.len(), |i: int| v.data[hmirror(i, v.width as int)]),
    }
}

/// Mirror rows: pixel (x, y) takes the bytes of pixel (x, h-1-y).
pub open spec fn flip_v(v: RasterView) -> RasterView {
    RasterView {
        width: v.width,
        height: v.height,
        data: Seq::new(
            v.data.len(),
            |i: int| v.data[vmirror(i, v.width as int, v.height as int)],
        ),
    }
}

/// The flip a mode asks for; Both is a horizontal then a vertical mirror.
pub open spec fn flip_spec(v: RasterView, mode: FlipMode) -> RasterView {
    match mode {
        FlipMode::Off => v,
        FlipMode::Horizontal => flip_h(v),
        FlipMode::Vertical => flip_v(v),
        FlipMode::Both => flip_v(flip_h(v)),
    }
}

/// Every in-range flat index decomposes into a pixel coordinate and a
/// channel, and the decomposition inverts the flat layout.
pub proof fn lemma_index_coords(i: int, w: int, h: int)
    requires
        0 <= i < w * h * 4,
        0 < w,
        0 < h,
    ensures
        ({
            let p = i / 4;
            let c = i % 4;
            let y = p / w;
            let x = p % w;
            &&& 0 <= c < 4
            &&& 0 <= x < w
            &&& 0 <= y < h
            &&& i == (y * w + x) * 4 + c
        }),
{
    let p = i / 4;
    let c = i % 4;
    lemma_fundamental_div_mod(i, 4);
    vstd::arithmetic::div_mod::lemma_mod_bound(i, 4);
    assert(p < w * h) by (nonlinear_arith)
        requires
            i < w * h * 4,
            i == 4 * p + c,
            0 <= c,
    ;
    assert(0 <= p);
    let y = p / w;
    let x = p % w;
    lemma_fundamental_div_mod(p, w);
    vstd::arithmetic::div_mod::lemma_mod_bound(p, w);
    assert(y < h) by (nonlinear_arith)
        requires
            p < w * h,
            p == w * y + x,
            0 <= x,
            0 < w,
    ;
    assert(0 <= y) by (nonlinear_arith)
        requires
            p == w * y + x,
            0 <= p,
            x < w,
            0 < w,
    ;
}

/// Recomposing a pixel coordinate and channel into a flat index lands in
/// range and decomposes back to the same coordinate.
pub proof fn lemma_coords_index(x: int, y: int, c: int, w: int, h: int)
    requires
        0 <= x < w,
        0 <= y < h,
        0 <= c < 4,
    ensures
        ({
            let i = (y * w + x) * 4 + c;
            &&& 0 <= i < w * h * 4
            &&& i / 4 == y * w + x
            &&& i % 4 == c
            &&& (y * w + x) / w == y
            &&& (y * w + x) % w == x
        }),
{
    let p = y * w + x;
    let i = p * 4 + c;
    assert(0 <= p && p < w * h) by (nonlinear_arith)
        requires
            0 <= x < w,
            0 <= y < h,
            p == y * w + x,
    ;
    assert(0 <= i && i < w * h * 4) by (nonlinear_arith)
        requires
            0 <= p < w * h,
            i == p * 4 + c,
            0 <= c < 4,
    ;
    lemma_fundamental_div_mod_converse(i, 4, p, c);
    lemma_fundamental_div_mod_converse(p, w, y, x);
}

/// The horizontal mirror sends the index of (x, y, c) to that of
/// (w-1-x, y, c).
pub proof fn lemma_hmirror_coords(x: int, y: int, c: int, w: int, h: int)
    requires
        0 <= x < w,
        0 <= y < h,
        0 <= c < 4,
    ensures
        hmirror((y * w + x) * 4 + c, w) == (y * w + (w - 1 - x)) * 4 + c,
{
    lemma_coords_index(x, y, c, w, h);
}

/// The vertical mirror sends the index of (x, y, c) to that of
/// (x, h-1-y, c).
pub proof fn lemma_vmirror_coords(x: int, y: int, c: int, w: int, h: int)
    requires
        0 <= x < w,
        0 <= y < h,
        0 <= c < 4,
    ensures
        vmirror((y * w + x) * 4 + c, w, h) == ((h - 1 - y) * w + x) * 4 + c,
{
    lemma_coords_index(x, y, c, w, h);
}

/// A flipped raster keeps its dimensions and buffer length, and reads each
/// channel from the mirrored column.
pub proof fn lemma_flip_h_chan(v: RasterView)
    requires
        v.wf(),
    ensures
        flip_h(v).wf(),
        flip_h(v).width == v.width,
        flip_h(v).height == v.height,
        forall|x: int, y: int, c: int|
            0 <= x < v.width && 0 <= y < v.height && 0 <= c < 4 ==> #[trigger] flip_h(v).chan(
                x,
                y,
                c,
            ) == v.chan(v.width - 1 - x, y, c),
{
    let w = v.width as int;
    let h = v.height as int;
    assert forall|x: int, y: int, c: int|
        0 <= x < v.width && 0 <= y < v.height && 0 <= c < 4 implies #[trigger] flip_h(v).chan(
        x,
        y,
        c,
    ) == v.chan(v.width - 1 - x, y, c) by {
        lemma_coords_index(x, y, c, w, h);
        lemma_hmirror_coords(x, y, c, w, h);
        lemma_coords_index(w - 1 - x, y, c, w, h);
    }
}

/// The vertical counterpart of the channel law above.
pub proof fn lemma_flip_v_chan(v: RasterView)
    requires
        v.wf(),
    ensures
        flip_v(v).wf(),
        flip_v(v).width == v.width,
        flip_v(v).height == v.height,
        forall|x: int, y: int, c: int|
            0 <= x < v.width && 0 <= y < v.height && 0 <= c < 4 ==> #[trigger] flip_v(v).chan(
                x,
                y,
                c,
            ) == v.chan(x, v.height - 1 - y, c),
{
    let w = v.width as int;
    let h = v.height as int;
    assert forall|x: int, y: int, c: int|
        0 <= x < v.width && 0 <= y < v.height && 0 <= c < 4 implies #[trigger] flip_v(v).chan(
        x,
        y,
        c,
    ) == v.chan(x, v.height - 1 - y, c) by {
        lemma_coords_index(x, y, c, w, h);
        lemma_vmirror_coords(x, y, c, w, h);
        lemma_coords_index(x, h - 1 - y, c, w, h);
    }
}

/// Two rasters of the same shape whose channels agree everywhere are equal.
pub proof fn lemma_chan_ext(a: RasterView, b: RasterView)
    requires
        a.wf(),
        b.wf(),
        a.width == b.width,
        a.height == b.height,
        forall|x: int, y: int, c: int|
            0 <= x < a.width && 0 <= y < a.height && 0 <= c < 4 ==> #[trigger] a.chan(x, y, c)
                == b.chan(x, y, c),
    ensures
        a == b,
{
    let w = a.width as int;
    let h = a.height as int;
    assert forall|i: int| 0 <= i < a.data.len() implies a.data[i] == b.data[i] by {
        assert(0 < w && 0 < h) by (nonlinear_arith)
            requires
                0 <= i < w * h * 4,
                0 <= w,
                0 <= h,
        ;
        lemma_index_coords(i, w, h);
        let p = i / 4;
        let c = i % 4;
        let y = p / w;
        let x = p % w;
        assert(a.chan(x, y, c) == b.chan(x, y, c));
    }
    assert(a.data =~= b.data);
}

/// Flipping the same way twice restores the raster, and the two single
/// flips commute; flipping both ways is the same as one horizontal then one
/// vertical mirror, in either order.
pub proof fn lemma_flip_laws(v: RasterView)
    requires
        v.wf(),
    ensures
        flip_h(flip_h(v)) == v,
        flip_v(flip_v(v)) == v,
        flip_v(flip_h(v)) == flip_h(flip_v(v)),
        flip_spec(v, FlipMode::Both) == flip_spec(
            flip_spec(v, FlipMode::Horizontal),
            FlipMode::Vertical,
        ),
        flip_spec(v, FlipMode::Both) == flip_spec(
            flip_spec(v, FlipMode::Vertical),
            FlipMode::Horizontal,
        ),
        flip_spec(flip_spec(v, FlipMode::Horizontal), FlipMode::Horizontal) == v,
        flip_spec(flip_spec(v, FlipMode::Vertical), FlipMode::Vertical) == v,
{
    lemma_flip_h_chan(v);
    lemma_flip_v_chan(v);
    lemma_flip_h_chan(flip_v(v));
    lemma_flip_v_chan(flip_h(v));
    lemma_flip_h_chan(flip_h(v));
    lemma_flip_v_chan(flip_v(v));
    lemma_chan_ext(flip_h(flip_h(v)), v);
    lemma_chan_ext(flip_v(flip_v(v)), v);
    lemma_chan_ext(flip_v(flip_h(v)), flip_h(flip_v(v)));
}

/// Stepping a channel: up by one, or down to 254 when it already sits at
/// the top of the range.
pub open spec fn bump(c: u8) -> u8 {
    if c == 255 {
        254
    } else {
        (c + 1) as u8
    }
}

/// The raster with the R, G and B channels of the pixel at (x, y) stepped;
/// the alpha channel and every other pixel are untouched.
pub open spec fn mutate_at(v: RasterView, x: int, y: int) -> RasterView {
    let base = (y * v.width + x) * 4;
    RasterView {
        width: v.width,
        height: v.height,
        data: v.data.update(base, bump(v.data[base])).update(
            base + 1,
            bump(v.data[base + 1]),
        ).update(base + 2, bump(v.data[base + 2])),
    }
}

/// The mutation a seeded source performs: no-op on an empty raster, else
/// one pixel chosen by two draws has its color channels stepped.
pub open spec fn mutate_with(v: RasterView, s: u64) -> RasterView {
    if v.width == 0 || v.height == 0 {
        v
    } else {
        let x = rand_step(s) % (v.width as u64);
        let y = rand_step(rand_step(s)) % (v.height as u64);
        mutate_at(v, x as int, y as int)
    }
}

/// The state the random source is left in by one mutation.
pub open spec fn rng_after_mutate(s: u64, v: RasterView) -> u64 {
    if v.width == 0 || v.height == 0 {
        s
    } else {
        rand_step(rand_step(s))
    }
}

/// Mutating one pixel changes exactly that pixel's R, G and B channels,
/// each by exactly one (down only from 255), never its alpha channel, and
/// no other byte of the raster.
pub proof fn lemma_mutate_at_one_pixel(v: RasterView, x: int, y: int)
    requires
        v.wf(),
        0 <= x < v.width,
        0 <= y < v.height,
    ensures
        ({
            let m = mutate_at(v, x, y);
            &&& m.wf()
            &&& m.width == v.width
            &&& m.height == v.height
            &&& forall|c: int|
                0 <= c < 3 ==> #[trigger] m.chan(x, y, c) == bump(v.chan(x, y, c))
            &&& forall|c: int|
                0 <= c < 3 ==> (#[trigger] m.chan(x, y, c) == v.chan(x, y, c) + 1 || m.chan(
                    x,
                    y,
                    c,
                ) == v.chan(x, y, c) - 1)
            &&& m.chan(x, y, 3) == v.chan(x, y, 3)
            &&& forall|x2: int, y2: int, c2: int|
                0 <= x2 < v.width && 0 <= y2 < v.height && 0 <= c2 < 4 && (x2 != x || y2 != y)
                    ==> #[trigger] m.chan(x2, y2, c2) == v.chan(x2, y2, c2)
        }),
{
    let w = v.width as int;
    let h = v.height as int;
    let m = mutate_at(v, x, y);
    let base = (y * w + x) * 4;
    lemma_coords_index(x, y, 0, w, h);
    lemma_coords_index(x, y, 1, w, h);
    lemma_coords_index(x, y, 2, w, h);
    lemma_coords_index(x, y, 3, w, h);
    assert forall|x2: int, y2: int, c2: int|
        0 <= x2 < v.width && 0 <= y2 < v.height && 0 <= c2 < 4 && (x2 != x || y2 != y)
            implies #[trigger] m.chan(x2, y2, c2) == v.chan(x2, y2, c2) by {
        lemma_coords_index(x2, y2, c2, w, h);
        let i2 = (y2 * w + x2) * 4 + c2;
        assert(i2 != base && i2 != base + 1 && i2 != base + 2);
    }
}

fn flip_horizontal(img: &mut RasterImage)
    requires
        old(img)@.wf(),
    ensures
        final(img)@ == flip_h(old(img)@),
{
    let ghost v = img@;
    let w = img.width as usize;
    let h = img.height as usize;
    let len = img.data.len();
    let mut out: Vec<u8> = Vec::with_capacity(len);
    let mut i: usize = 0;
    while i < len
        invariant
            img@ == v,
            v.wf(),
            w == v.width as int,
            h == v.height as int,
            len == v.data.len(),
            i <= len,
            out@.len() == i,
            forall|j: int| 0 <= j < i ==> out@[j] == v.data[hmirror(j, v.width as int)],
        decreases len - i,
    {
        proof {
            assert(0 < w && 0 < h) by (nonlinear_arith)
                requires
                    0 <= i < len,
                    len == w * h * 4,
                    0 <= w,
                    0 <= h,
            ;
            lemma_index_coords(i as int, w as int, h as int);
        }
        let p = i / 4;
        let c = i % 4;
        let y = p / w;
        let x = p % w;
        proof {
            lemma_coords_index(w - 1 - x, y as int, c as int, w as int, h as int);
        }
        let src = (y * w + (w - 1 - x)) * 4 + c;
        assert(src == hmirror(i as int, v.width as int));
        out.push(img.data[src]);
        i = i + 1;
    }
    img.data = out;
    proof {
        assert(img@.data =~= flip_h(v).data);
        assert(img@ =~= flip_h(v));
    }
}

fn flip_vertical(img: &mut RasterImage)
    requires
        old(img)@.wf(),
    ensures
        final(img)@ == flip_v(old(img)@),
{
    let ghost v = img@;
    let w = img.width as usize;
    let h = img.height as usize;
    let len = img.data.len();
    let mut out: Vec<u8> = Vec::with_capacity(len);
    let mut i: usize = 0;
    while i < len
        invariant
            img@ == v,
            v.wf(),
            w == v.width as int,
            h == v.height as int,
            len == v.data.len(),
            i <= len,
            out@.len() == i,
            forall|j: int|
                0 <= j < i ==> out@[j] == v.data[vmirror(j, v.width as int, v.height as int)],
        decreases len - i,
    {
        proof {
            assert(0 < w && 0 < h) by (nonlinear_arith)
                requires
                    0 <= i < len,
                    len == w * h * 4,
                    0 <= w,
                    0 <= h,
            ;
            lemma_index_coords(i as int, w as int, h as int);
        }
        let p = i / 4;
        let c = i % 4;
        let y = p / w;
        let x = p % w;
        proof {
            lemma_coords_index(x as int, h - 1 - y, c as int, w as int, h as int);
        }
        let src = ((h - 1 - y) * w + x) * 4 + c;
        assert(src == vmirror(i as int, v.width as int, v.height as int));
        out.push(img.data[src]);
        i = i + 1;
    }
    img.data = out;
    proof {
        assert(img@.data =~= flip_v(v).data);
        assert(img@ =~= flip_v(v));
    }
}

/// Applies the flip a mode asks for, in place: nothing, mirrored columns,
/// mirrored rows, or both.
pub fn flip_in_place(img: &mut RasterImage, mode: FlipMode)
    requires
        old(img)@.wf(),
    ensures
        final(img)@ == flip_spec(old(img)@, mode),
        final(img)@.wf(),
        final(img).width == old(img).width,
        final(img).height == old(img).height,
{
    match mode {
        FlipMode::Off => {},
        FlipMode::Horizontal => flip_horizontal(img),
        FlipMode::Vertical => flip_vertical(img),
        FlipMode::Both => {
            flip_horizontal(img);
            flip_vertical(img);
        },
    }
}

/// Steps the R, G and B channels of the pixel at (x, y), leaving its alpha
/// channel and every other pixel alone.
pub fn mutate_pixel_at(img: &mut RasterImage, x: u32, y: u32)
    requires
        old(img)@.wf(),
        x < old(img).width,
        y < old(img).height,
    ensures
        final(img)@ == mutate_at(old(img)@, x as int, y as int),
        final(img)@.wf(),
        final(img).width == old(img).width,
        final(img).height == old(img).height,
{
    let ghost v = img@;
    let len = img.data.len();
    let w = img.width as usize;
    proof {
        lemma_coords_index(x as int, y as int, 0, v.width as int, v.height as int);
        lemma_coords_index(x as int, y as int, 2, v.width as int, v.height as int);
        assert(((y as int) * (w as int) + (x as int)) * 4 + 2 < len as int);
        assert((y as int) * (w as int) + (x as int) < len as int);
    }
    let base = ((y as usize) * w + (x as usize)) * 4;
    let b0 = img.data[base];
    img.data[base] = if b0 == 255 {
        254
    } else {
        b0 + 1
    };
    let b1 = img.data[base + 1];
    img.data[base + 1] = if b1 == 255 {
        254
    } else {
        b1 + 1
    };
    let b2 = img.data[base + 2];
    img.data[base + 2] = if b2 == 255 {
        254
    } else {
        b2 + 1
    };
    proof {
        assert(img@.data =~= mutate_at(v, x as int, y as int).data);
        assert(img@ =~= mutate_at(v, x as int, y as int));
    }
}

/// Mutates one randomly chosen pixel: a no-op on an empty raster, else two
/// draws pick the column and the row and that pixel's color channels are
/// stepped.
pub fn mutate_one_pixel(img: &mut RasterImage, rng: &mut RandomSource)
    requires
        old(img)@.wf(),
    ensures
        final(img)@ == mutate_with(old(img)@, old(rng).state),
        final(img)@.wf(),
        final(img).width == old(img).width,
        final(img).height == old(img).height,
        final(rng).state == rng_after_mutate(old(rng).state, old(img)@),
{
    if img.width == 0 || img.height == 0 {
        return ;
    }
    let x = rng.next_index(img.width);
    let y = rng.next_index(img.height);
    mutate_pixel_at(img, x, y);
}

} // verus!
