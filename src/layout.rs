use vstd::arithmetic::div_mod::{lemma_fundamental_div_mod, lemma_fundamental_div_mod_converse, lemma_mod_pos_bound};
use vstd::prelude::*;

verus! {

/// Number of bytes that one pixel occupies in the four-channel, eight-bit formats read back.
pub const BYTES_PER_PIXEL: u32 = 4;

/// Smallest multiple of `align` that is at least `n`.
pub open spec fn align_up(n: int, align: int) -> int
    recommends
        align > 0,
{
    if n % align == 0 {
        n
    } else {
        n - n % align + align
    }
}

/// Where the bytes of a texture lie in the staging buffer it is copied into, and what the
/// tightly packed result holds.
pub struct ReadbackLayout {
    pub width: u32,
    pub height: u32,
    /// Bytes of one row of pixels: `4 * width`.
    pub row_bytes: u32,
    /// Distance between the starts of two rows in the staging buffer.
    pub padded_row_bytes: u32,
    /// Size of the staging buffer: `padded_row_bytes * height`.
    pub buffer_size: u64,
    /// Length of the packed result: `width * height * 4`.
    pub output_len: u64,
}

impl ReadbackLayout {
    /// The fields agree with one another: rows are packed `4 * width` bytes in the result and
    /// at least that far apart in the staging buffer.
    pub open spec fn wf(&self) -> bool {
        &&& self.row_bytes == self.width * 4
        &&& self.padded_row_bytes >= self.row_bytes
        &&& self.buffer_size == self.padded_row_bytes * self.height
        &&& self.output_len == self.width * self.height * 4
    }

    /// The layout for a `width` by `height` texture whose copy rows start on multiples of
    /// `align` bytes.
    pub open spec fn describes(&self, width: int, height: int, align: int) -> bool {
        &&& self.width == width
        &&& self.height == height
        &&& self.row_bytes == width * 4
        &&& self.padded_row_bytes == align_up(width * 4, align)
        &&& self.buffer_size == self.padded_row_bytes * height
        &&& self.output_len == width * height * 4
    }
}

/// Plans the copy of a `width` by `height` texture: `None` exactly when a padded row does not
/// fit in the `u32` that the copy command takes.
pub fn plan_layout(width: u32, height: u32, align: u32) -> (r: Option<ReadbackLayout>)
    requires
        align > 0,
    ensures
        r is None <==> align_up(width * 4, align as int) > u32::MAX,
        r matches Some(l) ==> l.describes(width as int, height as int, align as int) && l.wf(),
{
    let row: u64 = width as u64 * 4;
    let rem: u64 = row % align as u64;
    assert(rem <= row && rem < align) by (nonlinear_arith)
        requires rem == row % (align as u64), align > 0;
    let padded: u64 = if rem == 0 { row } else { row - rem + align as u64 };
    if padded > u32::MAX as u64 {
        return None;
    }
    assert(padded * height <= u32::MAX * u32::MAX) by (nonlinear_arith)
        requires padded <= u32::MAX, height <= u32::MAX;
    assert(row * height <= padded * height) by (nonlinear_arith)
        requires row <= padded;
    assert(row * height == width * height * 4) by (nonlinear_arith)
        requires row == width * 4;
    Some(ReadbackLayout {
        width,
        height,
        row_bytes: row as u32,
        padded_row_bytes: padded as u32,
        buffer_size: padded * height as u64,
        output_len: row * height as u64,
    })
}

/// Index in the staging buffer of byte `i` of the packed result.
pub open spec fn source_index(l: ReadbackLayout, i: int) -> int {
    (i / l.row_bytes as int) * l.padded_row_bytes + i % (l.row_bytes as int)
}

/// The packed image held by a staging buffer laid out by `l`: each row's pixel bytes, in
/// order, without the bytes that pad a row up to `padded_row_bytes`.
pub open spec fn packed_rows(mapped: Seq<u8>, l: ReadbackLayout) -> Seq<u8> {
    Seq::new(l.output_len as nat, |i: int| mapped[source_index(l, i)])
}

/// Byte `c` of row `r` sits at `r * row + c` in the packed result.
proof fn lemma_packed_position(r: int, c: int, row: int)
    requires
        row > 0,
        r >= 0,
        0 <= c < row,
    ensures
        (r * row + c) / row == r,
        (r * row + c) % row == c,
{
    lemma_fundamental_div_mod_converse(r * row + c, row, r, c);
}

/// Every byte of the packed result comes from inside the staging buffer.
proof fn lemma_source_in_bounds(l: ReadbackLayout, i: int)
    requires
        l.wf(),
        0 <= i < l.output_len,
    ensures
        0 <= i % (l.row_bytes as int) < l.row_bytes,
        0 <= source_index(l, i) < l.buffer_size,
{
    let row = l.row_bytes as int;
    let padded = l.padded_row_bytes as int;
    let h = l.height as int;
    assert(row > 0) by (nonlinear_arith)
        requires l.output_len == l.width * l.height * 4, row == l.width * 4, i < l.output_len, i >= 0;
    lemma_fundamental_div_mod(i, row);
    lemma_mod_pos_bound(i, row);
    let q = i / row;
    assert(l.output_len == row * h) by (nonlinear_arith)
        requires l.output_len == l.width * l.height * 4, row == l.width * 4, h == l.height;
    assert(q >= 0 && q < h) by (nonlinear_arith)
        requires i == row * q + i % row, 0 <= i % row, i < row * h, row > 0, i >= 0,
            l.output_len == row * h;
    assert(q * padded + i % row < padded * h) by (nonlinear_arith)
        requires q < h, q >= 0, i % row < row, row <= padded;
}

/// Copies the pixel bytes of each row out of a mapped staging buffer, leaving the row padding
/// behind.
pub fn strip_row_padding(mapped: &[u8], l: &ReadbackLayout) -> (r: Vec<u8>)
    requires
        l.wf(),
        mapped@.len() == l.buffer_size,
    ensures
        r@ == packed_rows(mapped@, *l),
{
    let ghost lv = *l;
    let row: usize = l.row_bytes as usize;
    let padded: usize = l.padded_row_bytes as usize;
    let height: usize = l.height as usize;
    let n: usize = mapped.len();
    assert(padded * height == n) by (nonlinear_arith)
        requires padded == l.padded_row_bytes, height == l.height, n == l.buffer_size,
            l.buffer_size == l.padded_row_bytes * l.height;
    let mut out: Vec<u8> = Vec::new();
    let mut r: usize = 0;
    while r < height
        invariant
            lv == *l,
            l.wf(),
            mapped@.len() == l.buffer_size,
            row == l.row_bytes,
            padded == l.padded_row_bytes,
            height == l.height,
            n == mapped@.len(),
            padded * height == n,
            r <= height,
            out@.len() == r * row,
            forall|i: int| 0 <= i < out@.len() ==> #[trigger] out@[i] == mapped@[source_index(lv, i)],
        decreases height - r,
    {
        assert(r * padded + row <= padded * height) by (nonlinear_arith)
            requires r < height, row <= padded;
        assert(r * padded <= r * padded + row);
        let base: usize = r * padded;
        let mut c: usize = 0;
        while c < row
            invariant
                lv == *l,
                l.wf(),
                mapped@.len() == l.buffer_size,
                row == l.row_bytes,
                padded == l.padded_row_bytes,
                height == l.height,
                n == mapped@.len(),
                padded * height == n,
                r < height,
                base == r * padded,
                base + row <= padded * height,
                c <= row,
                out@.len() == r * row + c,
                forall|i: int| 0 <= i < out@.len() ==> #[trigger] out@[i] == mapped@[source_index(lv, i)],
            decreases row - c,
        {
            proof {
                lemma_packed_position(r as int, c as int, row as int);
            }
            out.push(mapped[base + c]);
            c = c + 1;
        }
        assert(out@.len() == (r + 1) * row) by (nonlinear_arith)
            requires out@.len() == r * row + row;
        r = r + 1;
    }
    assert(out@.len() == l.output_len) by (nonlinear_arith)
        requires out@.len() == height * row, row == l.width * 4, height == l.height,
            l.output_len == l.width * l.height * 4;
    assert(out@ =~= packed_rows(mapped@, lv));
    out
}

/// How the asynchronous host mapping of a staging buffer ended.
#[derive(Clone, Copy, Debug, PartialEq, Eq, Structural)]
pub enum MapOutcome {
    /// The buffer is mapped for reading.
    Mapped,
    /// The device reported a mapping error.
    Failed,
    /// The completion notification was dropped before it delivered a result.
    Abandoned,
}

/// The bytes a readback delivers: the packed image when the mapping succeeded and the mapped
/// region has the planned size, and nothing otherwise (the frame is dropped).
pub open spec fn readback_result(outcome: MapOutcome, mapped: Seq<u8>, l: ReadbackLayout) -> Seq<u8> {
    if outcome == MapOutcome::Mapped && mapped.len() == l.buffer_size {
        packed_rows(mapped, l)
    } else {
        Seq::empty()
    }
}

/// Turns the end of a mapping into the frame's bytes; a failed or abandoned mapping, or a
/// mapped region of the wrong size, gives an empty buffer rather than a partial one.
pub fn finish_readback(outcome: MapOutcome, mapped: &[u8], l: &ReadbackLayout) -> (r: Vec<u8>)
    requires
        l.wf(),
    ensures
        r@ == readback_result(outcome, mapped@, *l),
        outcome == MapOutcome::Mapped && mapped@.len() == l.buffer_size ==> r@.len() == l.width * l.height * 4,
{
    if outcome == MapOutcome::Mapped && mapped.len() as u64 == l.buffer_size {
        strip_row_padding(mapped, l)
    } else {
        Vec::new()
    }
}

/// A successful readback has exactly `width * height * 4` bytes, and any other has none.
pub proof fn lemma_readback_size(outcome: MapOutcome, mapped: Seq<u8>, l: ReadbackLayout)
    requires
        l.wf(),
    ensures
        readback_result(outcome, mapped, l).len() == 0
            || readback_result(outcome, mapped, l).len() == l.width * l.height * 4,
{
}

/// Whatever bytes pad the rows of the staging buffer, reading back a buffer whose rows hold
/// the rows of `image` gives `image` itself.
pub proof fn lemma_readback_round_trip(image: Seq<u8>, mapped: Seq<u8>, l: ReadbackLayout)
    requires
        l.wf(),
        image.len() == l.output_len,
        mapped.len() == l.buffer_size,
        forall|r: int, c: int|
            0 <= r < l.height && 0 <= c < l.row_bytes ==> #[trigger] mapped[r * l.padded_row_bytes + c]
                == image[r * l.row_bytes + c],
    ensures
        readback_result(MapOutcome::Mapped, mapped, l) == image,
{
    let row = l.row_bytes as int;
    assert forall|i: int| 0 <= i < image.len() implies #[trigger] packed_rows(mapped, l)[i] == image[i] by {
        lemma_source_in_bounds(l, i);
        lemma_fundamental_div_mod(i, row);
        let q = i / row;
        let c = i % row;
        assert(i == q * row + c) by (nonlinear_arith)
            requires i == row * (i / row) + i % row, q == i / row, c == i % row;
        assert(q < l.height) by (nonlinear_arith)
            requires i == q * row + c, c >= 0, i < l.output_len, row > 0,
                l.output_len == l.width * l.height * 4, row == l.width * 4;
        assert(q >= 0) by (nonlinear_arith)
            requires i == q * row + c, c < row, i >= 0, row > 0;
        assert(mapped[q * l.padded_row_bytes + c] == image[q * row + c]);
    }
    assert(packed_rows(mapped, l) =~= image);
}

} // verus!
