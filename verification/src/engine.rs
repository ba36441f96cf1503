//! Which image lines a render job covers, and which lines are being rendered.
//!
//! A job renders every `mult_y`-th line of a range of lines, each rendered line
//! standing for `mult_y` image lines and each computed pixel for `mult_x`
//! image pixels. A line is "dirty" from the moment it is handed out until its
//! pixels come back; a dirty line is not handed out again.
use vstd::prelude::*;

verus! {

/// The lines and the coarseness of one render pass.
#[derive(Clone, Copy, Debug, PartialEq, Eq)]
pub struct RenderJob {
    pub first_line: Option<u32>,
    pub last_line: Option<u32>,
    pub mult_x: u32,
    pub mult_y: u32,
}

impl RenderJob {
    /// A job over all lines, one pixel per pixel.
    pub fn new() -> (r: Self)
        ensures
            r == (RenderJob { first_line: None, last_line: None, mult_x: 1, mult_y: 1 }),
    {
        RenderJob { first_line: None, last_line: None, mult_x: 1, mult_y: 1 }
    }

    /// The same job with each computed pixel standing for `mult_x` pixels.
    pub fn with_mult_x(self, mult_x: u32) -> (r: Self)
        ensures
            r == (RenderJob { mult_x, ..self }),
    {
        RenderJob { mult_x, ..self }
    }

    /// The same job rendering every `mult_y`-th line only.
    pub fn with_mult_y(self, mult_y: u32) -> (r: Self)
        ensures
            r == (RenderJob { mult_y, ..self }),
    {
        RenderJob { mult_y, ..self }
    }

    /// The same job coarser by `mult` in both directions.
    pub fn with_mult(self, mult: u32) -> (r: Self)
        ensures
            r == (RenderJob { mult_x: mult, mult_y: mult, ..self }),
    {
        RenderJob { mult_x: mult, mult_y: mult, ..self }
    }

    /// The same job starting at `line`.
    pub fn with_first_line(self, line: u32) -> (r: Self)
        ensures
            r == (RenderJob { first_line: Some(line), ..self }),
    {
        RenderJob { first_line: Some(line), ..self }
    }

    /// The same job ending before `line`.
    pub fn with_last_line(self, line: u32) -> (r: Self)
        ensures
            r == (RenderJob { last_line: Some(line), ..self }),
    {
        RenderJob { last_line: Some(line), ..self }
    }

    /// The first line and the line after the last, in an image `height` lines high.
    pub open spec fn lines_spec(self, height: u32) -> (u32, u32) {
        (
            match self.first_line {
                Some(l) => l,
                None => 0,
            },
            match self.last_line {
                Some(l) => l,
                None => height,
            },
        )
    }

    /// The first line and the line after the last, in an image `height` lines high.
    pub fn get_lines(&self, height: u32) -> (r: (u32, u32))
        ensures
            r == self.lines_spec(height),
            self.first_line matches Some(l) ==> r.0 == l,
            self.first_line is None ==> r.0 == 0,
            self.last_line matches Some(l) ==> r.1 == l,
            self.last_line is None ==> r.1 == height,
    {
        (
            match self.first_line {
                Some(l) => l,
                None => 0,
            },
            match self.last_line {
                Some(l) => l,
                None => height,
            },
        )
    }

    /// How many pixels a computed pixel stands for, across and down.
    pub fn get_mult(&self) -> (r: (u32, u32))
        ensures
            r == (self.mult_x, self.mult_y),
    {
        (self.mult_x, self.mult_y)
    }
}

/// Whether the job over `a..b` that renders every `m`-th line renders line `y`.
pub open spec fn in_steps(a: int, b: int, m: int, y: int) -> bool {
    a <= y < b && (y - a) % m == 0
}

/// The lines of an image and which of them are being rendered.
pub struct RenderSchedule {
    dirty: Vec<bool>,
    width: u32,
    height: u32,
}

impl RenderSchedule {
    /// For each line, whether it is being rendered.
    pub closed spec fn dirty_spec(self) -> Seq<bool> {
        self.dirty@
    }

    /// The width of the image.
    pub closed spec fn width_spec(self) -> u32 {
        self.width
    }

    /// The height of the image.
    pub closed spec fn height_spec(self) -> u32 {
        self.height
    }

    /// There is one entry for each line.
    pub closed spec fn wf(self) -> bool {
        self.dirty@.len() == self.height
    }

    /// An image with no line being rendered.
    pub fn new(width: u32, height: u32) -> (r: Self)
        ensures
            r.wf(),
            r.width_spec() == width,
            r.height_spec() == height,
            r.dirty_spec() == Seq::new(height as nat, |i: int| false),
    {
        let mut dirty: Vec<bool> = Vec::new();
        let mut i: u32 = 0;
        while i < height
            invariant
                i <= height,
                dirty@ == Seq::new(i as nat, |j: int| false),
            decreases height - i,
        {
            dirty.push(false);
            i = i + 1;
        }
        RenderSchedule { dirty, width, height }
    }

    /// The width and height of the image.
    pub fn size(&self) -> (r: (u32, u32))
        ensures
            r == (self.width_spec(), self.height_spec()),
    {
        (self.width, self.height)
    }

    /// Hands out the lines of `job` that are not being rendered yet, from the
    /// top down, and marks them as being rendered.
    pub fn submit(&mut self, job: &RenderJob) -> (lines: Vec<u32>)
        requires
            old(self).wf(),
            job.mult_y > 0,
            forall|y: int|
                #![trigger in_steps(
                    job.lines_spec(old(self).height_spec()).0 as int,
                    job.lines_spec(old(self).height_spec()).1 as int,
                    job.mult_y as int,
                    y,
                )]
                in_steps(
                    job.lines_spec(old(self).height_spec()).0 as int,
                    job.lines_spec(old(self).height_spec()).1 as int,
                    job.mult_y as int,
                    y,
                ) ==> y < old(self).height_spec(),
        ensures
            final(self).wf(),
            final(self).width_spec() == old(self).width_spec(),
            final(self).height_spec() == old(self).height_spec(),
            forall|i: int, j: int| 0 <= i < j < lines.len() ==> lines@[i] < lines@[j],
            forall|y: int|
                0 <= y < old(self).height_spec() ==> (#[trigger] lines@.contains(y as u32) <==> (
                in_steps(
                    job.lines_spec(old(self).height_spec()).0 as int,
                    job.lines_spec(old(self).height_spec()).1 as int,
                    job.mult_y as int,
                    y,
                ) && !old(self).dirty_spec()[y])),
            forall|i: int| 0 <= i < lines.len() ==> #[trigger] lines@[i] < old(self).height_spec(),
            forall|y: int|
                0 <= y < old(self).height_spec() ==> #[trigger] final(self).dirty_spec()[y] == (
                old(self).dirty_spec()[y] || in_steps(
                    job.lines_spec(old(self).height_spec()).0 as int,
                    job.lines_spec(old(self).height_spec()).1 as int,
                    job.mult_y as int,
                    y,
                )),
    {
        let (a, b) = job.get_lines(self.height);
        let m = job.mult_y;
        let ghost old_dirty = self.dirty@;
        let ghost h = self.height;
        proof {
            assert forall|z: int| in_steps(a as int, b as int, m as int, z) implies z < h by {
                assert(in_steps(
                    job.lines_spec(old(self).height_spec()).0 as int,
                    job.lines_spec(old(self).height_spec()).1 as int,
                    job.mult_y as int,
                    z,
                ));
            }
            assert((a as int - a as int) % (m as int) == 0) by (nonlinear_arith)
                requires m > 0;
        }
        let mut lines: Vec<u32> = Vec::new();
        let mut y: u64 = a as u64;
        while y < b as u64
            invariant
                a <= y,
                (y - a) % (m as int) == 0,
                m > 0,
                self.height == h,
                self.width == old(self).width,
                self.dirty@.len() == h,
                old_dirty.len() == h,
                forall|z: int| #![trigger in_steps(a as int, b as int, m as int, z)]
                    in_steps(a as int, b as int, m as int, z) ==> z < h,
                forall|i: int, j: int| 0 <= i < j < lines.len() ==> lines@[i] < lines@[j],
                forall|i: int| 0 <= i < lines.len() ==> #[trigger] lines@[i] < y,
                forall|i: int| 0 <= i < lines.len() ==> #[trigger] lines@[i] < h,
                forall|z: int|
                    0 <= z < h ==> (#[trigger] lines@.contains(z as u32) <==> (z < y && in_steps(
                        a as int,
                        b as int,
                        m as int,
                        z,
                    ) && !old_dirty[z])),
                forall|z: int|
                    0 <= z < h ==> #[trigger] self.dirty@[z] == (old_dirty[z] || (z < y && in_steps(
                        a as int,
                        b as int,
                        m as int,
                        z,
                    ))),
            decreases (b as int) + (m as int) - (y as int),
        {
            assert(in_steps(a as int, b as int, m as int, y as int));
            let yy = y as u32;
            let ghost before = lines@;
            if !self.dirty[yy as usize] {
                self.dirty.set(yy as usize, true);
                lines.push(yy);
                proof {
                    assert forall|z: int| 0 <= z < h implies (#[trigger] lines@.contains(z as u32) <==> (
                        z < y + 1 && in_steps(a as int, b as int, m as int, z) && !old_dirty[z])) by {
                        if z == y {
                            assert(lines@[lines.len() - 1] == yy);
                        }
                        if lines@.contains(z as u32) && z != y {
                            let k = choose|k: int| 0 <= k < lines.len() && lines@[k] == z as u32;
                            assert(k < before.len());
                            assert(before[k] == z as u32);
                            assert(before.contains(z as u32));
                        }
                        if z < y && in_steps(a as int, b as int, m as int, z) && !old_dirty[z] {
                            assert(before.contains(z as u32));
                            let k = choose|k: int| 0 <= k < before.len() && before[k] == z as u32;
                            assert(lines@[k] == z as u32);
                        }
                    }
                }
            } else {
                proof {
                    assert forall|z: int| 0 <= z < h implies (#[trigger] lines@.contains(z as u32) <==> (
                        z < y + 1 && in_steps(a as int, b as int, m as int, z) && !old_dirty[z])) by {
                        if z == y && lines@.contains(z as u32) {
                            let k = choose|k: int| 0 <= k < lines.len() && lines@[k] == z as u32;
                            assert(lines@[k] < y);
                        }
                    }
                }
            }
            proof {
                assert forall|z: int| y < z < y + m implies !#[trigger] in_steps(a as int, b as int, m as int, z) by {
                    assert((z - a) % (m as int) != 0) by (nonlinear_arith)
                        requires
                            (y - a) % (m as int) == 0,
                            m > 0,
                            y < z < y + m,
                            a <= y,;
                }
                assert(((y + m) - a) % (m as int) == 0) by (nonlinear_arith)
                    requires
                        (y - a) % (m as int) == 0,
                        m > 0;
            }
            y = y + m as u64;
        }
        lines
    }

    /// Marks the `mult_y` lines from `line` down as no longer being rendered.
    pub fn finish(&mut self, line: u32, mult_y: u32)
        requires
            old(self).wf(),
            mult_y == 0 || line + mult_y <= old(self).height_spec(),
        ensures
            final(self).wf(),
            final(self).width_spec() == old(self).width_spec(),
            final(self).height_spec() == old(self).height_spec(),
            forall|y: int|
                0 <= y < old(self).height_spec() ==> #[trigger] final(self).dirty_spec()[y] == (if line
                    <= y < line + mult_y {
                    false
                } else {
                    old(self).dirty_spec()[y]
                }),
    {
        let ghost old_dirty = self.dirty@;
        let mut x: u32 = 0;
        while x < mult_y
            invariant
                x <= mult_y,
                self.width == old(self).width,
                self.height == old(self).height,
                mult_y == 0 || line + mult_y <= self.height,
                self.dirty@.len() == self.height,
                old_dirty.len() == self.height,
                forall|y: int|
                    0 <= y < self.height ==> #[trigger] self.dirty@[y] == (if line <= y < line + x {
                        false
                    } else {
                        old_dirty[y]
                    }),
            decreases mult_y - x,
        {
            self.dirty.set((line + x) as usize, false);
            x = x + 1;
        }
    }

    /// Whether line `y` is being rendered.
    pub fn is_dirty(&self, y: u32) -> (r: bool)
        requires
            self.wf(),
            y < self.height_spec(),
        ensures
            r == self.dirty_spec()[y as int],
    {
        self.dirty[y as usize]
    }
}

/// A job submitted twice hands out nothing the second time: every line it
/// covers is being rendered after the first submission, until it is finished.
pub proof fn law_resubmit_hands_out_nothing(before: RenderSchedule, after: RenderSchedule, job: RenderJob)
    requires
        after.height_spec() == before.height_spec(),
        forall|y: int|
            0 <= y < before.height_spec() ==> #[trigger] after.dirty_spec()[y] == (before.dirty_spec()[y]
                || in_steps(
                job.lines_spec(before.height_spec()).0 as int,
                job.lines_spec(before.height_spec()).1 as int,
                job.mult_y as int,
                y,
            )),
    ensures
        forall|y: int|
            0 <= y < after.height_spec() ==> !(in_steps(
                job.lines_spec(after.height_spec()).0 as int,
                job.lines_spec(after.height_spec()).1 as int,
                job.mult_y as int,
                y,
            ) && !#[trigger] after.dirty_spec()[y]),
{
}

/// Finished lines are handed out again: after `finish(line, mult_y)`, the next
/// `submit` of a job hands out every finished line that the job covers.
pub proof fn law_finished_lines_are_handed_out_again(
    before: RenderSchedule,
    after: RenderSchedule,
    line: u32,
    mult_y: u32,
    job: RenderJob,
    lines: Seq<u32>,
)
    requires
        after.height_spec() == before.height_spec(),
        forall|y: int|
            0 <= y < before.height_spec() ==> #[trigger] after.dirty_spec()[y] == (if line <= y < line
                + mult_y {
                false
            } else {
                before.dirty_spec()[y]
            }),
        forall|y: int|
            0 <= y < after.height_spec() ==> (#[trigger] lines.contains(y as u32) <==> (in_steps(
                job.lines_spec(after.height_spec()).0 as int,
                job.lines_spec(after.height_spec()).1 as int,
                job.mult_y as int,
                y,
            ) && !after.dirty_spec()[y])),
    ensures
        forall|y: int|
            0 <= y < after.height_spec() && line <= y < line + mult_y && in_steps(
                job.lines_spec(after.height_spec()).0 as int,
                job.lines_spec(after.height_spec()).1 as int,
                job.mult_y as int,
                y,
            ) ==> #[trigger] lines.contains(y as u32),
{
    assert forall|y: int|
        0 <= y < after.height_spec() && line <= y < line + mult_y && in_steps(
            job.lines_spec(after.height_spec()).0 as int,
            job.lines_spec(after.height_spec()).1 as int,
            job.mult_y as int,
            y,
        ) implies #[trigger] lines.contains(y as u32) by {
        assert(!after.dirty_spec()[y]);
    }
}

/// A job's range is its own two ends with their defaults, each set apart from
/// the other: a fresh job covers `0..height`, setting the first line moves only
/// the start, and setting the last line moves only the end.
pub proof fn law_job_lines(job: RenderJob, height: u32, l: u32)
    ensures
        (RenderJob { first_line: None, last_line: None, mult_x: 1, mult_y: 1 }).lines_spec(height) == (
            0u32,
            height,
        ),
        (RenderJob { first_line: Some(l), ..job }).lines_spec(height) == (l, job.lines_spec(height).1),
        (RenderJob { last_line: Some(l), ..job }).lines_spec(height) == (job.lines_spec(height).0, l),
        (RenderJob { first_line: Some(l), ..job }).lines_spec(height).1 == (RenderJob {
            first_line: None,
            ..job
        }).lines_spec(height).1,
        job.last_line is None ==> job.lines_spec(height).1 == height,
        job.first_line is None ==> job.lines_spec(height).0 == 0,
        (RenderJob { mult_x: l, ..job }).lines_spec(height) == job.lines_spec(height),
        (RenderJob { mult_y: l, ..job }).lines_spec(height) == job.lines_spec(height),
{
}

} // verus!
