//! Kitty graphics protocol encoding. Only what ttyp needs: upload an RGBA
//! image once, place it (many times) at a cell plus pixel offset, and
//! delete placements or images by id.

use std::io::Write;

use base64::Engine;
use vstd::prelude::*;

use crate::text::{decimal, push_decimal, push_str};

verus! {

/// Max base64 payload per escape sequence, per the protocol.
pub const CHUNK: usize = 4096;

/// The bytes of a text whose characters are all ASCII.
pub open spec fn bytes_of(s: Seq<char>) -> Seq<u8> {
    s.map_values(|c: char| c as u8)
}

/// Appends the bytes of the characters of `v`.
pub fn push_bytes(out: &mut Vec<u8>, v: &Vec<char>)
    ensures
        final(out)@ == old(out)@ + bytes_of(v@),
{
    let ghost start = out@;
    let mut i: usize = 0;
    while i < v.len()
        invariant
            i <= v@.len(),
            out@ == start + bytes_of(v@.take(i as int)),
        decreases v@.len() - i,
    {
        out.push(v[i] as u8);
        i = i + 1;
        assert(bytes_of(v@.take(i as int)) =~= bytes_of(v@.take((i - 1) as int)).push(
            v@[i - 1] as u8,
        ));
    }
    assert(v@.take(v@.len() as int) =~= v@);
}

/// The escape that places image `id` as placement `pid`.
pub open spec fn place_text(id: u32, pid: u32, col: u32, row: u32, x_off: u32, y_off: u32) -> Seq<
    char,
> {
    "\x1b["@ + decimal(row as nat + 1) + ";"@ + decimal(col as nat + 1) + "H\x1b_Ga=p,i="@ + decimal(
        id as nat,
    ) + ",p="@ + decimal(pid as nat) + ",X="@ + decimal(x_off as nat) + ",Y="@ + decimal(
        y_off as nat,
    ) + ",C=1,q=2\x1b\\"@
}

/// The escape that removes placement `pid` of image `id`.
pub open spec fn delete_placement_text(id: u32, pid: u32) -> Seq<char> {
    "\x1b_Ga=d,d=i,i="@ + decimal(id as nat) + ",p="@ + decimal(pid as nat) + ",q=2\x1b\\"@
}

/// The escape that deletes image `id` with all its placements.
pub open spec fn delete_text(id: u32) -> Seq<char> {
    "\x1b_Ga=d,d=I,i="@ + decimal(id as nat) + ",q=2\x1b\\"@
}

/// Show image `id` as placement `pid`, its top-left `x_off`/`y_off` pixels
/// into cell (`col`, `row`). Moves the cursor: wrap a batch in
/// `SAVE_CURSOR` / `RESTORE_CURSOR`.
pub fn place(out: &mut Vec<u8>, id: u32, pid: u32, col: u32, row: u32, x_off: u32, y_off: u32)
    requires
        row < u32::MAX,
        col < u32::MAX,
    ensures
        final(out)@ == old(out)@ + bytes_of(place_text(id, pid, col, row, x_off, y_off)),
{
    let mut t: Vec<char> = Vec::new();
    push_str(&mut t, "\x1b[");
    push_decimal(&mut t, row as u64 + 1);
    push_str(&mut t, ";");
    push_decimal(&mut t, col as u64 + 1);
    push_str(&mut t, "H\x1b_Ga=p,i=");
    push_decimal(&mut t, id as u64);
    push_str(&mut t, ",p=");
    push_decimal(&mut t, pid as u64);
    push_str(&mut t, ",X=");
    push_decimal(&mut t, x_off as u64);
    push_str(&mut t, ",Y=");
    push_decimal(&mut t, y_off as u64);
    push_str(&mut t, ",C=1,q=2\x1b\\");
    assert(t@ =~= place_text(id, pid, col, row, x_off, y_off));
    push_bytes(out, &t);
}

/// Remove one placement, keeping the image for reuse.
pub fn delete_placement(out: &mut Vec<u8>, id: u32, pid: u32)
    ensures
        final(out)@ == old(out)@ + bytes_of(delete_placement_text(id, pid)),
{
    let mut t: Vec<char> = Vec::new();
    push_str(&mut t, "\x1b_Ga=d,d=i,i=");
    push_decimal(&mut t, id as u64);
    push_str(&mut t, ",p=");
    push_decimal(&mut t, pid as u64);
    push_str(&mut t, ",q=2\x1b\\");
    assert(t@ =~= delete_placement_text(id, pid));
    push_bytes(out, &t);
}

/// Delete image `id` and all its placements, freeing its data.
pub fn delete(out: &mut Vec<u8>, id: u32)
    ensures
        final(out)@ == old(out)@ + bytes_of(delete_text(id)),
{
    let mut t: Vec<char> = Vec::new();
    push_str(&mut t, "\x1b_Ga=d,d=I,i=");
    push_decimal(&mut t, id as u64);
    push_str(&mut t, ",q=2\x1b\\");
    assert(t@ =~= delete_text(id));
    push_bytes(out, &t);
}

/// What flate2's zlib encoder at `Compression::fast()` produces for `data`.
pub uninterp spec fn zlib_fast(data: Seq<u8>) -> Seq<u8>;

/// What base64's `STANDARD` engine (padded, `+/` alphabet) encodes `data` to.
pub uninterp spec fn base64_standard(data: Seq<u8>) -> Seq<u8>;

/// Compresses `data` with flate2's `ZlibEncoder` (`new` with
/// `Compression::fast()`, `write_all`, `finish`) into a `Vec`. The result is
/// claimed to be the named zlib stream of `data`, which is never empty (a
/// zlib stream always carries its header and checksum), and like any `Vec`
/// holds at most `isize::MAX` bytes; writing to a `Vec` cannot fail.
#[verifier::external_body]
fn zlib_compress(data: &[u8]) -> (r: Vec<u8>)
    ensures
        r@ == zlib_fast(data@),
        r@.len() > 0,
        r@.len() <= isize::MAX,
{
    let mut z = flate2::write::ZlibEncoder::new(Vec::new(), flate2::Compression::fast());
    z.write_all(data).expect("writing to a Vec cannot fail");
    z.finish().expect("writing to a Vec cannot fail")
}

/// base64's `STANDARD.encode`, as bytes. The result is claimed to be the
/// named encoding of `data`, four characters for every started group of
/// three bytes (the engine pads). It panics when that length overflows
/// `usize`, which no input of at most `isize::MAX` bytes does.
#[verifier::external_body]
fn base64_encode(data: &[u8]) -> (r: Vec<u8>)
    requires
        data@.len() <= isize::MAX,
    ensures
        r@ == base64_standard(data@),
        r@.len() == 4 * ((data@.len() + 2) / 3),
{
    base64::engine::general_purpose::STANDARD.encode(data).into_bytes()
}

/// Number of chunks a payload of `n` bytes is split into.
pub open spec fn chunk_count(n: nat) -> nat {
    (n + CHUNK - 1) as nat / CHUNK as nat
}

/// Escape `i` of an upload of `payload` as image `id` (`w`×`h` pixels).
pub open spec fn transmit_frame(payload: Seq<u8>, id: u32, w: u32, h: u32, i: int) -> Seq<u8> {
    let n = chunk_count(payload.len());
    let more = if i < n - 1 {
        1nat
    } else {
        0nat
    };
    let head = if i == 0 {
        "\x1b_Ga=t,f=32,o=z,t=d,s="@ + decimal(w as nat) + ",v="@ + decimal(h as nat) + ",i="@
            + decimal(id as nat) + ",q=2,m="@ + decimal(more) + ";"@
    } else {
        "\x1b_Gm="@ + decimal(more) + ";"@
    };
    let end = if (i + 1) * CHUNK < payload.len() {
        (i + 1) * CHUNK
    } else {
        payload.len() as int
    };
    bytes_of(head) + payload.subrange(i * CHUNK, end) + bytes_of("\x1b\\"@)
}

/// The first `k` escapes of an upload.
pub open spec fn transmit_frames(payload: Seq<u8>, id: u32, w: u32, h: u32, k: int) -> Seq<u8>
    decreases k,
{
    if k <= 0 {
        Seq::empty()
    } else {
        transmit_frames(payload, id, w, h, k - 1) + transmit_frame(payload, id, w, h, k - 1)
    }
}

/// The whole upload of `rgba` as image `id`: the zlib stream in base64, cut
/// into chunks of at most `CHUNK` bytes, each in its own escape.
pub open spec fn transmit_bytes(rgba: Seq<u8>, id: u32, w: u32, h: u32) -> Seq<u8> {
    let payload = base64_standard(zlib_fast(rgba));
    transmit_frames(payload, id, w, h, chunk_count(payload.len()) as int)
}

/// Upload image `id` (`w`×`h` RGBA) without displaying it.
pub fn transmit(out: &mut Vec<u8>, id: u32, w: u32, h: u32, rgba: &[u8])
    requires
        rgba@.len() == w * h * 4,
    ensures
        final(out)@ == old(out)@ + transmit_bytes(rgba@, id, w, h),
        chunk_count(base64_standard(zlib_fast(rgba@)).len()) >= 1,
{
    let packed = zlib_compress(rgba);
    let data = base64_encode(packed.as_slice());
    let n = data.len();
    let chunks: usize = n / CHUNK + if n % CHUNK > 0 {
        1
    } else {
        0
    };
    assert(chunks == chunk_count(n as nat));
    assert(n >= 4);
    assert(chunks >= 1);
    let ghost start = out@;
    let mut i: usize = 0;
    while i < chunks
        invariant
            i <= chunks,
            chunks == chunk_count(data@.len()),
            n == data@.len(),
            data@ == base64_standard(zlib_fast(rgba@)),
            out@ == start + transmit_frames(data@, id, w, h, i as int),
        decreases chunks - i,
    {
        let more: u64 = if i + 1 < chunks {
            1
        } else {
            0
        };
        let mut head: Vec<char> = Vec::new();
        if i == 0 {
            push_str(&mut head, "\x1b_Ga=t,f=32,o=z,t=d,s=");
            push_decimal(&mut head, w as u64);
            push_str(&mut head, ",v=");
            push_decimal(&mut head, h as u64);
            push_str(&mut head, ",i=");
            push_decimal(&mut head, id as u64);
            push_str(&mut head, ",q=2,m=");
            push_decimal(&mut head, more);
            push_str(&mut head, ";");
        } else {
            push_str(&mut head, "\x1b_Gm=");
            push_decimal(&mut head, more);
            push_str(&mut head, ";");
        }
        let ghost before = out@;
        push_bytes(out, &head);
        assert(i * CHUNK < n) by (nonlinear_arith)
            requires
                i < chunks,
                chunks == n / 4096 + if n % 4096 > 0 {
                    1int
                } else {
                    0int
                },
                CHUNK == 4096,
        ;
        let lo = i * CHUNK;
        let hi = if n - lo > CHUNK {
            lo + CHUNK
        } else {
            n
        };
        assert(((i + 1) * CHUNK < n) == (n - lo > CHUNK)) by (nonlinear_arith)
            requires
                lo == i * CHUNK,
                CHUNK == 4096,
        ;
        let mut j = lo;
        while j < hi
            invariant
                lo <= j <= hi <= n,
                n == data@.len(),
                out@ == before + bytes_of(head@) + data@.subrange(lo as int, j as int),
            decreases hi - j,
        {
            out.push(data[j]);
            j = j + 1;
            assert(data@.subrange(lo as int, j as int) =~= data@.subrange(lo as int, (j - 1) as int).push(
                data@[j - 1],
            ));
        }
        let mut tail: Vec<char> = Vec::new();
        push_str(&mut tail, "\x1b\\");
        push_bytes(out, &tail);
        proof {
            assert(head@ =~= (if i == 0 {
                "\x1b_Ga=t,f=32,o=z,t=d,s="@ + decimal(w as nat) + ",v="@ + decimal(h as nat)
                    + ",i="@ + decimal(id as nat) + ",q=2,m="@ + decimal(more as nat) + ";"@
            } else {
                "\x1b_Gm="@ + decimal(more as nat) + ";"@
            }));
            assert(out@ =~= start + transmit_frames(data@, id, w, h, i + 1));
        }
        i = i + 1;
    }
}

/// `ESC 7`: save the cursor position.
pub const SAVE_CURSOR: [u8; 2] = [0x1b, 0x37];

/// `ESC 8`: restore the cursor position.
pub const RESTORE_CURSOR: [u8; 2] = [0x1b, 0x38];

/// Begin/end a synchronized update so the terminal paints text and images
/// in one go.
pub const SYNC_BEGIN: [u8; 8] = [0x1b, 0x5b, 0x3f, 0x32, 0x30, 0x32, 0x36, 0x68];

pub const SYNC_END: [u8; 8] = [0x1b, 0x5b, 0x3f, 0x32, 0x30, 0x32, 0x36, 0x6c];

} // verus!
