//! The vector-quantization codebook: 256 cells of 2×2 pixels and 256 cells
//! of 4×4 pixels, and the chunk that updates a prefix of each table.

use super::bytes::RoqError;
use super::colorspace::Colorspace;
use vstd::prelude::*;

verus! {

/// Number of cells in each table.
pub const CELL_COUNT: usize = 256;

/// What a codebook holds: the pixels of the 2×2 cells, four per cell, and of
/// the 4×4 cells, sixteen per cell, each cell row by row.
pub struct CodebookView<C> {
    pub cells2: Seq<C>,
    pub cells4: Seq<C>,
}

impl<C> CodebookView<C> {
    /// Both tables have all their cells.
    pub open spec fn wf(self) -> bool {
        self.cells2.len() == 4 * CELL_COUNT && self.cells4.len() == 16 * CELL_COUNT
    }

    /// Pixel `j` of 2×2 cell `index`.
    pub open spec fn cell2(self, index: int, j: int) -> C {
        self.cells2[4 * index + j]
    }

    /// Pixel `j` of 4×4 cell `index`.
    pub open spec fn cell4(self, index: int, j: int) -> C {
        self.cells4[16 * index + j]
    }

    /// The codebook in which every pixel of every cell is `fill`.
    pub open spec fn filled(fill: C) -> CodebookView<C> {
        CodebookView {
            cells2: Seq::new((4 * CELL_COUNT) as nat, |p: int| fill),
            cells4: Seq::new((16 * CELL_COUNT) as nat, |p: int| fill),
        }
    }
}

/// How many 2×2 cells a codebook chunk with argument `arg` carries: the
/// argument's high byte, where zero stands for all 256.
pub open spec fn cell_count_2x2(arg: u16) -> int {
    if arg >> 8 == 0 {
        256
    } else {
        (arg >> 8) as int
    }
}

/// Bytes one 2×2 cell takes in a chunk: four luma samples, each followed by
/// its alpha sample in a stream with alpha, then Cb and Cr.
pub open spec fn cell_bytes(alpha: bool) -> int {
    if alpha {
        10
    } else {
        6
    }
}

/// How many 4×4 cells a codebook chunk carries: the argument's low byte,
/// where zero stands for all 256 if the chunk is larger than its 2×2 cells
/// alone, and for none otherwise.
pub open spec fn cell_count_4x4(arg: u16, size: u32, alpha: bool) -> int {
    if arg & 0xFF != 0 {
        (arg & 0xFF) as int
    } else if cell_count_2x2(arg) * cell_bytes(alpha) < size {
        256
    } else {
        0
    }
}

/// How many whole 2×2 cells fit into `len` bytes.
pub open spec fn cells_in(len: int, alpha: bool) -> int {
    if alpha {
        len / 10
    } else {
        len / 6
    }
}

/// Pixel `j` of the 2×2 cell whose bytes start at `at`: sample `j` of the
/// four luma samples with the cell's Cb and Cr, and with its own alpha
/// sample, or 255 in a stream without alpha.
pub open spec fn cell_pixel<C: Copy, S: Colorspace<C>>(
    payload: Seq<u8>,
    at: int,
    alpha: bool,
    j: int,
) -> C {
    if alpha {
        S::spec_convert(
            payload[at + 2 * j] as int,
            payload[at + 8] as int,
            payload[at + 9] as int,
            payload[at + 2 * j + 1] as int,
        )
    } else {
        S::spec_convert(payload[at + j] as int, payload[at + 4] as int, payload[at + 5] as int, 255)
    }
}

/// The 2×2 table after its first `cells` cells were replaced by the cells
/// at the start of `payload`.
pub open spec fn unpacked_2x2<C: Copy, S: Colorspace<C>>(
    old: Seq<C>,
    payload: Seq<u8>,
    alpha: bool,
    cells: int,
) -> Seq<C> {
    Seq::new(
        old.len(),
        |p: int|
            if p / 4 < cells {
                cell_pixel::<C, S>(payload, (p / 4) * cell_bytes(alpha), alpha, p % 4)
            } else {
                old[p]
            },
    )
}

/// The quadrant of a 4×4 cell that pixel `o` of the cell lies in: 0 is top
/// left, 1 top right, 2 bottom left, 3 bottom right.
pub open spec fn quadrant_of(o: int) -> int {
    (o / 8) * 2 + (o % 4) / 2
}

/// Pixel of a 4×4 cell at which quadrant `q` starts.
pub open spec fn quadrant_start(q: int) -> int {
    (q / 2) * 8 + (q % 2) * 2
}

/// Where in its quadrant pixel `o` of a 4×4 cell lies, as a pixel of a 2×2
/// cell.
pub open spec fn place_in_quadrant(o: int) -> int {
    ((o / 4) % 2) * 2 + o % 2
}

/// The 4×4 table after its first `quads` quadrants, counted cell by cell,
/// were replaced: quadrant `k` by the 2×2 cell of `cells2` that the index byte
/// `payload[start + k]` names.
pub open spec fn unpacked_4x4<C>(
    old: Seq<C>,
    cells2: Seq<C>,
    payload: Seq<u8>,
    start: int,
    quads: int,
) -> Seq<C> {
    Seq::new(
        old.len(),
        |p: int|
            {
                let k = (p / 16) * 4 + quadrant_of(p % 16);
                if k < quads {
                    cells2[4 * (payload[start + k] as int) + place_in_quadrant(p % 16)]
                } else {
                    old[p]
                }
            },
    )
}

/// The result of unpacking a codebook chunk: the codebook, and whether the
/// chunk held all the cells it announced.
pub struct Unpacked<C> {
    pub codebook: CodebookView<C>,
    pub complete: bool,
}

/// Unpacking a codebook chunk. The 2×2 cells come first and are replaced
/// cell by cell as far as whole cells are there; only if all of them are, the
/// index bytes of the 4×4 cells follow, four per cell, each naming the 2×2
/// cell, as just updated, that fills one quadrant. Cells the chunk does not
/// reach keep their pixels.
pub open spec fn unpack<C: Copy, S: Colorspace<C>>(
    old: CodebookView<C>,
    payload: Seq<u8>,
    size: u32,
    arg: u16,
    alpha: bool,
) -> Unpacked<C> {
    let n2 = cell_count_2x2(arg);
    let n4 = cell_count_4x4(arg, size, alpha);
    let got2 = if cells_in(payload.len() as int, alpha) < n2 {
        cells_in(payload.len() as int, alpha)
    } else {
        n2
    };
    let cells2 = unpacked_2x2::<C, S>(old.cells2, payload, alpha, got2);
    if got2 < n2 {
        Unpacked { codebook: CodebookView { cells2, cells4: old.cells4 }, complete: false }
    } else {
        let start = n2 * cell_bytes(alpha);
        let quads = if payload.len() - start < 4 * n4 {
            payload.len() - start
        } else {
            4 * n4
        };
        Unpacked {
            codebook: CodebookView {
                cells2,
                cells4: unpacked_4x4(old.cells4, cells2, payload, start, quads),
            },
            complete: quads == 4 * n4,
        }
    }
}

/// Which pixels of a 4×4 cell make up quadrant `q`, and where each lies in
/// the quadrant.
proof fn lemma_quadrant_pixels(o: int, q: int)
    requires
        0 <= o < 16,
        0 <= q < 4,
    ensures
        0 <= quadrant_of(o) < 4,
        0 <= place_in_quadrant(o) < 4,
        quadrant_of(o) == q <==> o == quadrant_start(q) + 4 * (place_in_quadrant(o) / 2)
            + place_in_quadrant(o) % 2,
{
}

/// Writing the four pixels of quadrant `k` extends the unpacked 4×4 table by
/// that quadrant.
proof fn lemma_quadrant_written<C>(
    old: Seq<C>,
    cells2: Seq<C>,
    payload: Seq<u8>,
    start: int,
    k: int,
    written: Seq<C>,
)
    requires
        old.len() == 4096,
        cells2.len() == 1024,
        0 <= k < 1024,
        written.len() == 4096,
        forall|p: int|
            0 <= p < 4096 ==> #[trigger] written[p] == {
                let to = 16 * (k / 4) + quadrant_start(k % 4);
                let from = 4 * (payload[start + k] as int);
                if p == to {
                    cells2[from]
                } else if p == to + 1 {
                    cells2[from + 1]
                } else if p == to + 4 {
                    cells2[from + 2]
                } else if p == to + 5 {
                    cells2[from + 3]
                } else {
                    unpacked_4x4(old, cells2, payload, start, k)[p]
                }
            },
    ensures
        written == unpacked_4x4(old, cells2, payload, start, k + 1),
{
    let next = unpacked_4x4(old, cells2, payload, start, k + 1);
    assert forall|p: int| 0 <= p < 4096 implies written[p] == next[p] by {
        lemma_quadrant_pixels(p % 16, k % 4);
    }
    assert(written =~= next);
}

/// The cells that a codebook chunk does not announce keep their pixels.
pub proof fn lemma_cells_beyond_the_chunk_stay<C: Copy, S: Colorspace<C>>(
    old: CodebookView<C>,
    payload: Seq<u8>,
    size: u32,
    arg: u16,
    alpha: bool,
    cell: int,
    j: int,
)
    requires
        old.wf(),
        0 <= cell < CELL_COUNT,
    ensures
        unpack::<C, S>(old, payload, size, arg, alpha).codebook.wf(),
        cell_count_2x2(arg) <= cell && 0 <= j < 4 ==> unpack::<C, S>(
            old,
            payload,
            size,
            arg,
            alpha,
        ).codebook.cell2(cell, j) == old.cell2(cell, j),
        cell_count_4x4(arg, size, alpha) <= cell && 0 <= j < 16 ==> unpack::<C, S>(
            old,
            payload,
            size,
            arg,
            alpha,
        ).codebook.cell4(cell, j) == old.cell4(cell, j),
{
    if 0 <= j < 16 {
        lemma_quadrant_pixels(j, 0);
    }
}

/// A 4×4 cell assembled from four times the same 2×2 cell of one color is of
/// that color all over.
pub proof fn lemma_solid_cell<C>(
    old: Seq<C>,
    cells2: Seq<C>,
    payload: Seq<u8>,
    start: int,
    quads: int,
    cell: int,
    small: u8,
    color: C,
    j: int,
)
    requires
        old.len() == 16 * CELL_COUNT,
        0 <= cell < CELL_COUNT,
        4 * cell + 4 <= quads,
        payload[start + 4 * cell] == small,
        payload[start + 4 * cell + 1] == small,
        payload[start + 4 * cell + 2] == small,
        payload[start + 4 * cell + 3] == small,
        cells2[4 * small] == color,
        cells2[4 * small + 1] == color,
        cells2[4 * small + 2] == color,
        cells2[4 * small + 3] == color,
        0 <= j < 16,
    ensures
        unpacked_4x4(old, cells2, payload, start, quads)[16 * cell + j] == color,
{
    lemma_quadrant_pixels(j, 0);
}

/// The codebook of a decoder.
pub struct Codebook<C> {
    cells2: Vec<C>,
    cells4: Vec<C>,
}

impl<C> View for Codebook<C> {
    type V = CodebookView<C>;

    closed spec fn view(&self) -> CodebookView<C> {
        CodebookView { cells2: self.cells2@, cells4: self.cells4@ }
    }
}

impl<C: Copy> Codebook<C> {
    /// A codebook in which every pixel of every cell is `fill`.
    pub fn new(fill: C) -> (codebook: Self)
        ensures
            codebook@.wf(),
            codebook@ == CodebookView::filled(fill),
    {
        let mut cells2: Vec<C> = Vec::new();
        let mut cells4: Vec<C> = Vec::new();
        let mut n: usize = 0;
        while n < 4 * CELL_COUNT
            invariant
                n <= 4 * CELL_COUNT,
                cells2@.len() == n,
                forall|p: int| 0 <= p < n ==> cells2@[p] == fill,
            decreases 4 * CELL_COUNT - n,
        {
            cells2.push(fill);
            n = n + 1;
        }
        n = 0;
        while n < 16 * CELL_COUNT
            invariant
                n <= 16 * CELL_COUNT,
                cells4@.len() == n,
                forall|p: int| 0 <= p < n ==> cells4@[p] == fill,
            decreases 16 * CELL_COUNT - n,
        {
            cells4.push(fill);
            n = n + 1;
        }
        assert(cells2@ =~= CodebookView::filled(fill).cells2);
        assert(cells4@ =~= CodebookView::filled(fill).cells4);
        Codebook { cells2, cells4 }
    }

    /// The pixels of the 2×2 cells, cell after cell.
    pub fn cells2(&self) -> (pixels: &[C])
        ensures
            pixels@ == self@.cells2,
    {
        self.cells2.as_slice()
    }

    /// The pixels of the 4×4 cells, cell after cell.
    pub fn cells4(&self) -> (pixels: &[C])
        ensures
            pixels@ == self@.cells4,
    {
        self.cells4.as_slice()
    }

    /// Replaces the first 2×2 cells by the cells at the start of `payload`,
    /// up to `wanted` cells and as far as whole cells are there. Returns how
    /// many were replaced.
    #[verifier::rlimit(40)]
    fn unpack_2x2<S: Colorspace<C>>(&mut self, payload: &[u8], wanted: usize, alpha: bool) -> (got:
        usize)
        requires
            old(self)@.wf(),
            wanted <= 256,
        ensures
            final(self)@.wf(),
            final(self)@.cells4 == old(self)@.cells4,
            final(self)@.cells2 == unpacked_2x2::<C, S>(
                old(self)@.cells2,
                payload@,
                alpha,
                got as int,
            ),
            got == if cells_in(payload@.len() as int, alpha) < wanted {
                cells_in(payload@.len() as int, alpha)
            } else {
                wanted as int
            },
    {
        let bytes: usize = if alpha {
            10
        } else {
            6
        };
        let len = payload.len();
        let ghost old2 = self.cells2@;
        let mut i: usize = 0;
        let mut pos: usize = 0;
        while i < wanted
            invariant
                i <= wanted <= 256,
                bytes == cell_bytes(alpha),
                pos == i * bytes,
                pos <= len,
                len == payload@.len(),
                old2 == old(self).cells2@,
                old2.len() == 1024,
                old(self).cells4@.len() == 4096,
                self.cells2@.len() == 1024,
                self.cells4@ == old(self).cells4@,
                self.cells2@ == unpacked_2x2::<C, S>(old2, payload@, alpha, i as int),
            decreases wanted - i,
        {
            if len - pos < bytes {
                assert(cells_in(len as int, alpha) == i);
                return i;
            }
            if alpha {
                let cb = payload[pos + 8] as i32;
                let cr = payload[pos + 9] as i32;
                self.cells2[4 * i] = S::convert(payload[pos] as i32, cb, cr, payload[pos + 1]);
                self.cells2[4 * i + 1] = S::convert(
                    payload[pos + 2] as i32,
                    cb,
                    cr,
                    payload[pos + 3],
                );
                self.cells2[4 * i + 2] = S::convert(
                    payload[pos + 4] as i32,
                    cb,
                    cr,
                    payload[pos + 5],
                );
                self.cells2[4 * i + 3] = S::convert(
                    payload[pos + 6] as i32,
                    cb,
                    cr,
                    payload[pos + 7],
                );
            } else {
                let cb = payload[pos + 4] as i32;
                let cr = payload[pos + 5] as i32;
                self.cells2[4 * i] = S::convert(payload[pos] as i32, cb, cr, 255);
                self.cells2[4 * i + 1] = S::convert(payload[pos + 1] as i32, cb, cr, 255);
                self.cells2[4 * i + 2] = S::convert(payload[pos + 2] as i32, cb, cr, 255);
                self.cells2[4 * i + 3] = S::convert(payload[pos + 3] as i32, cb, cr, 255);
            }
            assert(self.cells2@ =~= unpacked_2x2::<C, S>(old2, payload@, alpha, i + 1));
            i = i + 1;
            pos = pos + bytes;
        }
        assert(cells_in(len as int, alpha) >= wanted);
        i
    }

    /// Replaces the first quadrants of the 4×4 cells, up to `wanted`
    /// quadrants and as far as `payload` holds index bytes from `start` on.
    /// Returns how many were replaced.
    #[verifier::rlimit(40)]
    fn unpack_4x4(&mut self, payload: &[u8], start: usize, wanted: usize) -> (got: usize)
        requires
            old(self)@.wf(),
            wanted <= 1024,
            start <= payload@.len(),
        ensures
            final(self)@.wf(),
            final(self)@.cells2 == old(self)@.cells2,
            final(self)@.cells4 == unpacked_4x4(
                old(self)@.cells4,
                old(self)@.cells2,
                payload@,
                start as int,
                got as int,
            ),
            got == if payload@.len() - start < wanted {
                payload@.len() - start
            } else {
                wanted as int
            },
    {
        let len = payload.len();
        let ghost old4 = self.cells4@;
        let ghost cells2 = self.cells2@;
        let mut k: usize = 0;
        assert(self.cells4@ =~= unpacked_4x4(old4, cells2, payload@, start as int, 0));
        while k < wanted
            invariant
                k <= wanted <= 1024,
                start + k <= len,
                len == payload@.len(),
                self.cells2@ == cells2,
                cells2 == old(self).cells2@,
                old4 == old(self).cells4@,
                cells2.len() == 1024,
                old4.len() == 4096,
                self.cells4@.len() == 4096,
                self.cells4@ == unpacked_4x4(old4, cells2, payload@, start as int, k as int),
            decreases wanted - k,
        {
            if start + k >= len {
                return k;
            }
            let from = 4 * (payload[start + k] as usize);
            let to = 16 * (k / 4) + (k % 4) / 2 * 8 + (k % 2) * 2;
            assert(to == 16 * (k as int / 4) + quadrant_start(k as int % 4));
            let ghost before = self.cells4@;
            let q0 = self.cells2[from];
            let q1 = self.cells2[from + 1];
            let q2 = self.cells2[from + 2];
            let q3 = self.cells2[from + 3];
            self.cells4[to] = q0;
            self.cells4[to + 1] = q1;
            self.cells4[to + 4] = q2;
            self.cells4[to + 5] = q3;
            proof {
                assert(self.cells4@ == before.update(to as int, q0).update(to + 1, q1).update(
                    to + 4,
                    q2,
                ).update(to + 5, q3));
                lemma_quadrant_written(old4, cells2, payload@, start as int, k as int, self.cells4@);
            }
            k = k + 1;
        }
        k
    }

    /// Updates the codebook from the payload of a codebook chunk of the given
    /// size and argument, in a stream with or without alpha. Fails with
    /// `IOError` exactly when the payload is shorter than the cells the chunk
    /// announces; the cells read up to there are updated all the same.
    pub fn unpack<S: Colorspace<C>>(
        &mut self,
        payload: &[u8],
        chunk_size: u32,
        chunk_arg: u16,
        alpha: bool,
    ) -> (r: Result<(), RoqError>)
        requires
            old(self)@.wf(),
        ensures
            final(self)@.wf(),
            final(self)@ == unpack::<C, S>(
                old(self)@,
                payload@,
                chunk_size,
                chunk_arg,
                alpha,
            ).codebook,
            r is Ok <==> unpack::<C, S>(old(self)@, payload@, chunk_size, chunk_arg, alpha).complete,
            r is Err ==> r->Err_0 is IOError,
    {
        let high: u16 = chunk_arg >> 8;
        let low: u16 = chunk_arg & 0xFF;
        assert(chunk_arg >> 8 <= 255 && chunk_arg & 0xFF <= 255) by (bit_vector);
        let n2: usize = if high == 0 {
            256
        } else {
            high as usize
        };
        let bytes: usize = if alpha {
            10
        } else {
            6
        };
        let n4: usize = if low != 0 {
            low as usize
        } else if ((n2 * bytes) as u64) < chunk_size as u64 {
            256
        } else {
            0
        };
        let got2 = self.unpack_2x2::<S>(payload, n2, alpha);
        if got2 < n2 {
            return Err(RoqError::IOError);
        }
        let got4 = self.unpack_4x4(payload, n2 * bytes, 4 * n4);
        if got4 < 4 * n4 {
            return Err(RoqError::IOError);
        }
        Ok(())
    }
}

} // verus!
