//! Enumeration of an image's pixel coordinates and the shuffled order in
//! which a render run visits them.
use rand::seq::SliceRandom;
use vstd::arithmetic::div_mod::lemma_fundamental_div_mod_converse;
use vstd::prelude::*;

verus! {

/// The coordinates `(x, y)` of a `width` by `height` image in row-major order:
/// position `k` holds `(k % width, k / width)`.
pub open spec fn pixel_grid(width: nat, height: nat) -> Seq<(usize, usize)> {
    Seq::new(width * height, |k: int| ((k % width as int) as usize, (k / width as int) as usize))
}

/// Whether `p` names a pixel of a `width` by `height` image.
pub open spec fn in_image(width: nat, height: nat, p: (usize, usize)) -> bool {
    p.0 < width && p.1 < height
}

proof fn lemma_grid_position(width: nat, height: nat, x: nat, y: nat)
    requires
        x < width,
        y < height,
    ensures
        y * width + x < width * height,
        pixel_grid(width, height)[(y * width + x) as int] == (x as usize, y as usize),
{
    let k = y * width + x;
    assert(k < width * height) by (nonlinear_arith)
        requires
            x < width,
            y < height,
            k == y * width + x,
    ;
    lemma_fundamental_div_mod_converse(k as int, width as int, y as int, x as int);
}

/// Every pixel of the image stands in the grid, and nothing else does.
pub proof fn lemma_grid_contains(width: nat, height: nat, p: (usize, usize))
    requires
        width * height <= usize::MAX,
    ensures
        pixel_grid(width, height).contains(p) <==> in_image(width, height, p),
{
    let g = pixel_grid(width, height);
    if in_image(width, height, p) {
        lemma_grid_position(width, height, p.0 as nat, p.1 as nat);
        assert(g[(p.1 as nat * width + p.0 as nat) as int] == p);
    }
    if g.contains(p) {
        let k = choose|k: int| 0 <= k < g.len() && g[k] == p;
        let w = width as int;
        assert(0 <= k % w < w && 0 <= k / w < height && w <= usize::MAX) by (nonlinear_arith)
            requires
                0 <= k < w * height,
                w * height <= usize::MAX,
                w >= 0,
        ;
    }
}

/// No pixel appears twice in the grid.
pub proof fn lemma_grid_no_duplicates(width: nat, height: nat)
    requires
        width * height <= usize::MAX,
    ensures
        pixel_grid(width, height).no_duplicates(),
{
    let g = pixel_grid(width, height);
    let w = width as int;
    assert forall|i: int, j: int| 0 <= i < g.len() && 0 <= j < g.len() && i != j implies g[i]
        != g[j] by {
        if g[i] == g[j] {
            assert(0 <= i % w < w && 0 <= j % w < w && 0 <= i / w < height && 0 <= j / w < height
                && w <= usize::MAX && height <= usize::MAX) by (nonlinear_arith)
                requires
                    0 <= i < w * height,
                    0 <= j < w * height,
                    w >= 0,
                    w * height <= usize::MAX,
            ;
            assert(i % w == j % w && i / w == j / w);
            assert(i == (i / w) * w + i % w && j == (j / w) * w + j % w) by (nonlinear_arith)
                requires
                    w > 0,
            ;
        }
    }
}

/// The coordinates of every pixel of a `width` by `height` image, row by row
/// from `y = 0`, each row from `x = 0`.
pub fn pixel_coords(width: usize, height: usize) -> (r: Vec<(usize, usize)>)
    requires
        width * height <= usize::MAX,
    ensures
        r@ == pixel_grid(width as nat, height as nat),
{
    let mut r: Vec<(usize, usize)> = Vec::new();
    let mut y: usize = 0;
    while y < height
        invariant
            y <= height,
            width * height <= usize::MAX,
            r@.len() == y * width,
            forall|k: int|
                0 <= k < r@.len() ==> r@[k] == ((k % width as int) as usize, (k / width as int) as usize),
        decreases height - y,
    {
        let mut x: usize = 0;
        while x < width
            invariant
                x <= width,
                y < height,
                width * height <= usize::MAX,
                r@.len() == y * width + x,
                forall|k: int|
                    0 <= k < r@.len() ==> r@[k] == ((k % width as int) as usize, (k / width as int) as usize),
            decreases width - x,
        {
            proof {
                lemma_grid_position(width as nat, height as nat, x as nat, y as nat);
            }
            r.push((x, y));
            x = x + 1;
        }
        assert(r@.len() == (y + 1) * width) by (nonlinear_arith)
            requires
                r@.len() == y * width + width,
        ;
        y = y + 1;
    }
    assert(r@.len() == width * height) by (nonlinear_arith)
        requires
            r@.len() == y * width,
            y == height,
    ;
    assert(r@ =~= pixel_grid(width as nat, height as nat));
    r
}

/// Relies on rand's `SliceRandom::shuffle`, driven by the thread-local
/// generator: it only swaps elements of the slice, so whatever the draws,
/// the result is a rearrangement of the input.
#[verifier::external_body]
fn shuffle_coords(coords: &mut Vec<(usize, usize)>)
    ensures
        final(coords)@.to_multiset() == old(coords)@.to_multiset(),
{
    coords.shuffle(&mut rand::thread_rng());
}

/// The pixels of a `width` by `height` image in a random order, so that a
/// progressive render fills the picture evenly instead of row by row.
pub fn render_order(width: usize, height: usize) -> (r: Vec<(usize, usize)>)
    requires
        width * height <= usize::MAX,
    ensures
        r@.to_multiset() == pixel_grid(width as nat, height as nat).to_multiset(),
{
    let mut coords = pixel_coords(width, height);
    shuffle_coords(&mut coords);
    coords
}

/// A rearrangement of the pixel grid, as `render_order` returns, visits every
/// pixel of the image exactly once and nothing outside it: one pass over it
/// gives each pixel one sample.
pub proof fn lemma_order_visits_each_pixel_once(order: Seq<(usize, usize)>, width: nat, height: nat)
    requires
        width * height <= usize::MAX,
        order.to_multiset() == pixel_grid(width, height).to_multiset(),
    ensures
        order.len() == width * height,
        order.no_duplicates(),
        forall|p: (usize, usize)| order.contains(p) <==> in_image(width, height, p),
{
    broadcast use vstd::seq_lib::to_multiset_contains, vstd::seq_lib::to_multiset_len;

    let g = pixel_grid(width, height);
    lemma_grid_no_duplicates(width, height);
    g.lemma_multiset_has_no_duplicates();
    order.lemma_multiset_has_no_duplicates_conv();
    assert forall|p: (usize, usize)| order.contains(p) <==> in_image(width, height, p) by {
        lemma_grid_contains(width, height, p);
        assert(order.to_multiset().count(p) == g.to_multiset().count(p));
    }
    assert(order.len() == order.to_multiset().len());
    assert(g.len() == g.to_multiset().len());
}

} // verus!
