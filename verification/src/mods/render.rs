//! The plan of a render: which pixel is traced in which order, with which
//! seed, and into which cell of the accumulation buffer its colour goes.

use vstd::prelude::*;
use vstd::arithmetic::div_mod::{
    lemma_fundamental_div_mod,
    lemma_fundamental_div_mod_converse,
    lemma_mul_mod_noop_left,
};
use crate::mods::image::{ImageRGB, Pixel};
use crate::mods::random::lemma_wrapping_sum;

verus! {

/// The seed that all pixel seeds start from.
pub const GLOBAL_SEED: u64 = 123456789;

/// The distance between the seeds of two iterations, before mixing.
pub const ITERATION_STRIDE: u64 = 0xA24BAED4;

/// The distance between the seeds of two pixels, before mixing.
pub const PIXEL_STRIDE: u64 = 0x9E3779B9;

/// The factor that mixes a seed.
pub const SEED_FACTOR: u64 = 74747;

/// The seed of the random stream of one pixel in one iteration, modulo 2^64.
/// It depends on the two indices and on nothing else.
pub open spec fn pixel_seed_of(iteration: nat, pixel: nat) -> u64 {
    (((GLOBAL_SEED + iteration * ITERATION_STRIDE + pixel * PIXEL_STRIDE) * SEED_FACTOR)
        % 0x1_0000_0000_0000_0000) as u64
}

/// The seed of the random stream of the pixel with index `pixel` in the
/// iteration `iteration`.
pub fn pixel_seed(iteration: usize, pixel: usize) -> (r: u64)
    ensures
        r == pixel_seed_of(iteration as nat, pixel as nat),
{
    let a: u64 = (iteration as u64).wrapping_mul(ITERATION_STRIDE);
    let b: u64 = (pixel as u64).wrapping_mul(PIXEL_STRIDE);
    let s1: u64 = GLOBAL_SEED.wrapping_add(a);
    let s2: u64 = s1.wrapping_add(b);
    let r: u64 = s2.wrapping_mul(SEED_FACTOR);
    proof {
        let m: int = 0x1_0000_0000_0000_0000;
        let x: int = iteration as int * ITERATION_STRIDE as int;
        let y: int = pixel as int * PIXEL_STRIDE as int;
        assert(0 <= x && 0 <= y) by (nonlinear_arith)
            requires
                x == iteration as int * ITERATION_STRIDE as int,
                y == pixel as int * PIXEL_STRIDE as int,
        ;
        lemma_wrapping_sum(x, a, GLOBAL_SEED);
        assert(s1 == (x + GLOBAL_SEED) % m);
        lemma_wrapping_sum(x + GLOBAL_SEED, s1, b);
        assert(s2 == (x + GLOBAL_SEED + b) % m);
        lemma_sum_of_residue(x + GLOBAL_SEED, y);
        assert(s2 == (x + GLOBAL_SEED + y) % m);
        lemma_mul_mod_noop_left(x + GLOBAL_SEED + y, SEED_FACTOR as int, m);
    }
    r
}

/// Replacing a summand by its residue modulo 2^64 keeps the residue of the
/// sum.
pub proof fn lemma_sum_of_residue(x: int, y: int)
    ensures
        (x + y % 0x1_0000_0000_0000_0000) % 0x1_0000_0000_0000_0000 == (x + y)
            % 0x1_0000_0000_0000_0000,
{
    vstd::arithmetic::div_mod::lemma_add_mod_noop_right(x, y, 0x1_0000_0000_0000_0000);
}

/// The work on one pixel in one iteration.
#[derive(Clone, Copy, Debug, PartialEq, Eq, Structural)]
pub struct PixelJob {
    /// The pixel's column.
    pub x: usize,
    /// The pixel's row.
    pub y: usize,
    /// The pixel's cell in the accumulation buffer.
    pub index: usize,
    /// The seed of the pixel's random stream.
    pub seed: u64,
}

/// The cell of the pixel in column `x` of row `y`: the buffer holds the rows
/// one after the other.
pub open spec fn pixel_index_of(x: nat, y: nat, width: nat) -> nat {
    y * width + x
}

/// The `k`-th job of an iteration. The jobs go through the columns from left
/// to right, and through each column from top to bottom.
pub open spec fn job_at(iteration: nat, width: nat, height: nat, k: nat) -> PixelJob
    recommends
        k < width * height,
{
    let x = k / height;
    let y = k % height;
    PixelJob {
        x: x as usize,
        y: y as usize,
        index: pixel_index_of(x, y, width) as usize,
        seed: pixel_seed_of(iteration, pixel_index_of(x, y, width)),
    }
}

/// The jobs of one iteration on an image of `width` by `height` pixels.
pub open spec fn frame_jobs_of(iteration: nat, width: nat, height: nat) -> Seq<PixelJob> {
    Seq::new(width * height, |k: int| job_at(iteration, width, height, k as nat))
}

/// A pixel of the image has its cell inside the buffer.
pub proof fn lemma_pixel_index_bound(x: nat, y: nat, width: nat, height: nat)
    requires
        x < width,
        y < height,
    ensures
        pixel_index_of(x, y, width) < width * height,
{
    assert(y * width + x < width * height) by (nonlinear_arith)
        requires
            x < width,
            y < height,
    ;
}

/// The cell of the pixel in column `x` of row `y`.
pub fn pixel_index(x: usize, y: usize, width: usize, height: usize) -> (r: usize)
    requires
        x < width,
        y < height,
        width * height <= usize::MAX,
    ensures
        r == pixel_index_of(x as nat, y as nat, width as nat),
        r < width * height,
{
    proof {
        lemma_pixel_index_bound(x as nat, y as nat, width as nat, height as nat);
        assert(0 <= y * width <= y * width + x) by (nonlinear_arith)
            requires
                0 <= x,
                0 <= y,
                0 <= width,
        ;
    }
    y * width + x
}

/// The jobs of the iteration `iteration` on an image of `width` by `height`
/// pixels, in the order in which their colours are added to the buffer.
pub fn frame_jobs(iteration: usize, width: usize, height: usize) -> (jobs: Vec<PixelJob>)
    requires
        width * height <= usize::MAX,
    ensures
        jobs@ == frame_jobs_of(iteration as nat, width as nat, height as nat),
{
    let mut jobs: Vec<PixelJob> = Vec::new();
    let mut x: usize = 0;
    while x < width
        invariant
            x <= width,
            width * height <= usize::MAX,
            jobs@.len() == x * height,
            forall|k: int|
                0 <= k < jobs@.len() ==> (#[trigger] jobs@[k]) == job_at(
                    iteration as nat,
                    width as nat,
                    height as nat,
                    k as nat,
                ),
        decreases width - x,
    {
        let mut y: usize = 0;
        while y < height
            invariant
                x < width,
                y <= height,
                width * height <= usize::MAX,
                jobs@.len() == x * height + y,
                forall|k: int|
                    0 <= k < jobs@.len() ==> (#[trigger] jobs@[k]) == job_at(
                        iteration as nat,
                        width as nat,
                        height as nat,
                        k as nat,
                    ),
            decreases height - y,
        {
            let index = pixel_index(x, y, width, height);
            let seed = pixel_seed(iteration, index);
            proof {
                let k: int = x * height + y;
                lemma_fundamental_div_mod_converse(k, height as int, x as int, y as int);
            }
            jobs.push(PixelJob { x, y, index, seed });
            y = y + 1;
        }
        assert((x + 1) * height == x * height + height) by (nonlinear_arith);
        x = x + 1;
    }
    assert(jobs@.len() == width * height) by (nonlinear_arith)
        requires
            jobs@.len() == x * height,
            x == width,
    ;
    assert(jobs@ =~= frame_jobs_of(iteration as nat, width as nat, height as nat));
    jobs
}

/// Within one iteration no two jobs write to the same cell of the buffer.
pub proof fn lemma_jobs_write_distinct_cells(
    iteration: nat,
    width: nat,
    height: nat,
    j: nat,
    k: nat,
)
    requires
        j < width * height,
        k < width * height,
        width * height <= usize::MAX,
        job_at(iteration, width, height, j).index == job_at(iteration, width, height, k).index,
    ensures
        j == k,
{
    lemma_job_coordinates(width, height, j);
    lemma_job_coordinates(width, height, k);
    let (xj, yj) = (j / height, j % height);
    let (xk, yk) = (k / height, k % height);
    lemma_pixel_index_bound(xj, yj, width, height);
    lemma_pixel_index_bound(xk, yk, width, height);
    assert(yj * width + xj == yk * width + xk);
    lemma_fundamental_div_mod_converse(
        (yj * width + xj) as int,
        width as int,
        yj as int,
        xj as int,
    );
    lemma_fundamental_div_mod_converse(
        (yk * width + xk) as int,
        width as int,
        yk as int,
        xk as int,
    );
    lemma_fundamental_div_mod(j as int, height as int);
    lemma_fundamental_div_mod(k as int, height as int);
}

/// The `k`-th job of an iteration is on a pixel of the image.
pub proof fn lemma_job_coordinates(width: nat, height: nat, k: nat)
    requires
        k < width * height,
    ensures
        k / height < width,
        k % height < height,
        height > 0,
{
    assert(height > 0) by (nonlinear_arith)
        requires
            k < width * height,
    ;
    lemma_fundamental_div_mod(k as int, height as int);
    let q = k as int / height as int;
    let r = k as int % height as int;
    assert(q < width) by (nonlinear_arith)
        requires
            height * q + r < width * height,
            0 <= r,
            height > 0,
    ;
    assert(0 <= q) by (nonlinear_arith)
        requires
            height * q + r >= 0,
            r < height,
            height > 0,
    ;
}

/// Within one iteration every cell of the buffer is written to by a job: the
/// one on the pixel that the cell stands for.
pub proof fn lemma_jobs_write_every_cell(iteration: nat, width: nat, height: nat, cell: nat) -> (k:
    nat)
    requires
        cell < width * height,
        width * height <= usize::MAX,
    ensures
        k < width * height,
        k == job_of_cell(width as int, height as int, cell as int),
        job_at(iteration, width, height, k).index == cell,
        job_at(iteration, width, height, k).x == cell % width,
        job_at(iteration, width, height, k).y == cell / width,
{
    assert(width * height == height * width) by (nonlinear_arith);
    lemma_job_coordinates(height, width, cell);
    let x = cell % width;
    let y = cell / width;
    let k = x * height + y;
    assert(k < width * height) by (nonlinear_arith)
        requires
            k == x * height + y,
            x < width,
            y < height,
    ;
    lemma_fundamental_div_mod_converse(k as int, height as int, x as int, y as int);
    lemma_fundamental_div_mod(cell as int, width as int);
    assert(y * width == width * y) by (nonlinear_arith);
    k
}

/// The job that writes to the cell `cell`: the one on the pixel that the
/// cell stands for.
pub open spec fn job_of_cell(width: int, height: int, cell: int) -> int {
    (cell % width) * height + cell / width
}

/// The job of a cell is a job of the iteration, and it is the one that
/// writes to the cell.
pub proof fn lemma_job_of_cell(iteration: nat, width: nat, height: nat, cell: nat)
    requires
        cell < width * height,
        width * height <= usize::MAX,
    ensures
        0 <= job_of_cell(width as int, height as int, cell as int) < width * height,
        job_at(
            iteration,
            width,
            height,
            job_of_cell(width as int, height as int, cell as int) as nat,
        ).index == cell,
{
    let k = lemma_jobs_write_every_cell(iteration, width, height, cell);
}

/// Adds the samples of one iteration to the accumulation buffer: the sample
/// of each job to the cell of that job. Every cell gets one sample, that of
/// its own job, whatever the order in which the samples are added.
pub fn fold_frame<A: Copy, S: Copy, F: Fn(A, S) -> A>(
    buffer: &mut Vec<A>,
    width: usize,
    height: usize,
    samples: &Vec<S>,
    combine: F,
)
    requires
        width * height <= usize::MAX,
        old(buffer)@.len() == width * height,
        samples@.len() == width * height,
        forall|a: A, s: S| call_requires(combine, (a, s)),
    ensures
        final(buffer)@.len() == old(buffer)@.len(),
        forall|cell: int|
            0 <= cell < width * height ==> call_ensures(
                combine,
                (old(buffer)@[cell], samples@[job_of_cell(width as int, height as int, cell)]),
                #[trigger] final(buffer)@[cell],
            ),
{
    let n = samples.len();
    let mut k: usize = 0;
    proof {
        assert forall|cell: int| 0 <= cell < width * height implies 0 <= #[trigger] job_of_cell(
            width as int,
            height as int,
            cell,
        ) < n by {
            lemma_job_of_cell(0, width as nat, height as nat, cell as nat);
        }
    }
    while k < n
        invariant
            k <= n,
            n == width * height,
            n == samples@.len(),
            n == buffer@.len(),
            n == old(buffer)@.len(),
            width * height <= usize::MAX,
            forall|a: A, s: S| call_requires(combine, (a, s)),
            forall|cell: int|
                0 <= cell < n ==> 0 <= #[trigger] job_of_cell(width as int, height as int, cell) < n,
            forall|cell: int|
                0 <= cell < n ==> if job_of_cell(width as int, height as int, cell) < k {
                    call_ensures(
                        combine,
                        (
                            old(buffer)@[cell],
                            samples@[job_of_cell(width as int, height as int, cell)],
                        ),
                        #[trigger] buffer@[cell],
                    )
                } else {
                    buffer@[cell] == old(buffer)@[cell]
                },
        decreases n - k,
    {
        proof {
            lemma_job_coordinates(width as nat, height as nat, k as nat);
        }
        let x: usize = k / height;
        let y: usize = k % height;
        let index = pixel_index(x, y, width, height);
        proof {
            let found = lemma_jobs_write_every_cell(0, width as nat, height as nat, index as nat);
            lemma_jobs_write_distinct_cells(0, width as nat, height as nat, found, k as nat);
            assert(job_of_cell(width as int, height as int, index as int) == k);
            assert forall|cell: int| 0 <= cell < n && cell != index implies #[trigger] job_of_cell(
                width as int,
                height as int,
                cell,
            ) != k by {
                lemma_job_of_cell(0, width as nat, height as nat, cell as nat);
            }
        }
        let sum = combine(buffer[index], samples[k]);
        buffer.set(index, sum);
        k = k + 1;
    }
}

/// `after` has the rows and columns of `before`.
pub open spec fn same_size(before: Seq<Seq<Pixel>>, after: Seq<Seq<Pixel>>) -> bool {
    &&& after.len() == before.len()
    &&& forall|y: int| 0 <= y < before.len() ==> (#[trigger] after[y]).len() == before[y].len()
}

/// Fills the image from the accumulation buffer: the pixel in column `x` of
/// row `y` is what `shade` makes of the cell of that pixel.
pub fn fill_image<A: Copy, F: Fn(A) -> Pixel>(image: &mut ImageRGB, buffer: &Vec<A>, shade: F)
    requires
        old(image).wf(),
        buffer@.len() == old(image).width() * old(image).height(),
        forall|a: A| call_requires(shade, (a,)),
    ensures
        final(image).wf(),
        same_size(old(image)@, final(image)@),
        forall|y: int, x: int|
            0 <= y < old(image).height() && 0 <= x < old(image).width() ==> call_ensures(
                shade,
                (buffer@[pixel_index_of(x as nat, y as nat, old(image).width()) as int],),
                #[trigger] final(image)@[y][x],
            ),
{
    let height = image.get_height();
    if height == 0 {
        return ;
    }
    let width = image.get_width();
    let cells = buffer.len();
    assert(cells == width * height);
    let mut y: usize = 0;
    while y < height
        invariant
            y <= height,
            width * height <= usize::MAX,
            image.wf(),
            same_size(old(image)@, image@),
            height == old(image).height(),
            width == old(image).width(),
            height > 0,
            buffer@.len() == width * height,
            forall|a: A| call_requires(shade, (a,)),
            forall|j: int, i: int|
                0 <= j < y && 0 <= i < width ==> call_ensures(
                    shade,
                    (buffer@[pixel_index_of(i as nat, j as nat, width as nat) as int],),
                    #[trigger] image@[j][i],
                ),
        decreases height - y,
    {
        let mut x: usize = 0;
        while x < width
            invariant
                y < height,
                x <= width,
                width * height <= usize::MAX,
                image.wf(),
                same_size(old(image)@, image@),
                height == old(image).height(),
                width == old(image).width(),
                buffer@.len() == width * height,
                forall|a: A| call_requires(shade, (a,)),
                forall|j: int, i: int|
                    0 <= j < y && 0 <= i < width ==> call_ensures(
                        shade,
                        (buffer@[pixel_index_of(i as nat, j as nat, width as nat) as int],),
                        #[trigger] image@[j][i],
                    ),
                forall|i: int|
                    0 <= i < x ==> call_ensures(
                        shade,
                        (buffer@[pixel_index_of(i as nat, y as nat, width as nat) as int],),
                        #[trigger] image@[y as int][i],
                    ),
            decreases width - x,
        {
            let index = pixel_index(x, y, width, height);
            let value = shade(buffer[index]);
            let ghost before = image@;
            assert(image@[0].len() == old(image)@[0].len());
            image.set_pixel(x, y, value);
            proof {
                assert forall|j: int| 0 <= j < before.len() implies (#[trigger] image@[j]).len()
                    == before[j].len() by {}
                assert forall|j: int, i: int| 0 <= j < y && 0 <= i < width implies call_ensures(
                    shade,
                    (buffer@[pixel_index_of(i as nat, j as nat, width as nat) as int],),
                    #[trigger] image@[j][i],
                ) by {
                    assert(image@[j] == before[j]);
                }
                assert forall|i: int| 0 <= i < x + 1 implies call_ensures(
                    shade,
                    (buffer@[pixel_index_of(i as nat, y as nat, width as nat) as int],),
                    #[trigger] image@[y as int][i],
                ) by {
                    if i < x {
                        assert(image@[y as int][i] == before[y as int][i]);
                    }
                }
            }
            x = x + 1;
        }
        y = y + 1;
    }
}

} // verus!
