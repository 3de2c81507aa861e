use vstd::prelude::*;

verus! {

/// FourCC code of packed 24-bit RGB frames: the bytes `R`, `G`, `2`, `4` read
/// as a little-endian `u32`.
pub const RG24_FOURCC: u32 = 0x3432_4752;

/// One camera frame as it travels on the camera topic.
#[derive(Clone, Debug)]
pub struct CameraFrame {
    pub width: u32,
    pub height: u32,
    pub fourcc: u32,
    pub sequence: u32,
    pub data: Vec<u8>,
}

/// The mathematical content of a [`CameraFrame`].
pub struct CameraFrameView {
    pub width: u32,
    pub height: u32,
    pub fourcc: u32,
    pub sequence: u32,
    pub data: Seq<u8>,
}

impl View for CameraFrame {
    type V = CameraFrameView;

    open spec fn view(&self) -> CameraFrameView {
        CameraFrameView {
            width: self.width,
            height: self.height,
            fourcc: self.fourcc,
            sequence: self.sequence,
            data: self.data@,
        }
    }
}

/// Builds the frame published for one completed capture: an RG24 image of
/// the given size whose pixels are the first `bytes_used` bytes of the
/// captured plane.
pub fn frame_from_capture(
    width: u32,
    height: u32,
    sequence: u32,
    plane: &[u8],
    bytes_used: usize,
) -> (frame: CameraFrame)
    requires
        bytes_used <= plane@.len(),
    ensures
        frame@ == (CameraFrameView {
            width,
            height,
            fourcc: RG24_FOURCC,
            sequence,
            data: plane@.subrange(0, bytes_used as int),
        }),
{
    let mut data: Vec<u8> = Vec::new();
    let mut i: usize = 0;
    while i < bytes_used
        invariant
            bytes_used <= plane@.len(),
            i <= bytes_used,
            data@ == plane@.subrange(0, i as int),
        decreases bytes_used - i,
    {
        data.push(plane[i]);
        i = i + 1;
        assert(data@ =~= plane@.subrange(0, i as int));
    }
    CameraFrame { width, height, fourcc: RG24_FOURCC, sequence, data }
}

/// The `i`-th byte (from the least significant) of `x`.
pub open spec fn le_byte(x: u32, i: int) -> u8 {
    if i == 0 {
        (x % 0x100) as u8
    } else if i == 1 {
        ((x / 0x100) % 0x100) as u8
    } else if i == 2 {
        ((x / 0x1_0000) % 0x100) as u8
    } else {
        ((x / 0x100_0000) % 0x100) as u8
    }
}

/// How a FourCC byte is shown: itself when it is a printable ASCII character
/// other than space, `?` otherwise.
pub open spec fn fourcc_char(b: u8) -> char {
    if 0x21 <= b <= 0x7e {
        b as char
    } else {
        '?'
    }
}

/// The readable form of a FourCC code: its four bytes in little-endian order,
/// between single quotes.
pub open spec fn fourcc_text(fourcc: u32) -> Seq<char> {
    seq![
        '\'',
        fourcc_char(le_byte(fourcc, 0)),
        fourcc_char(le_byte(fourcc, 1)),
        fourcc_char(le_byte(fourcc, 2)),
        fourcc_char(le_byte(fourcc, 3)),
        '\'',
    ]
}

/// `String::push`: appends one character.
#[verifier::external_body]
fn push_char(s: &mut String, c: char)
    ensures
        final(s)@ == old(s)@.push(c),
{
    s.push(c);
}

fn show_byte(b: u8) -> (c: char)
    ensures
        c == fourcc_char(b),
{
    if 0x21 <= b && b <= 0x7e {
        b as char
    } else {
        '?'
    }
}

/// Decodes a FourCC code into a readable string such as `'RG24'`.
pub fn fourcc_to_string(fourcc: u32) -> (s: String)
    ensures
        s@ == fourcc_text(fourcc),
{
    let b0: u8 = (fourcc & 0xff) as u8;
    let b1: u8 = ((fourcc >> 8) & 0xff) as u8;
    let b2: u8 = ((fourcc >> 16) & 0xff) as u8;
    let b3: u8 = ((fourcc >> 24) & 0xff) as u8;
    assert(b0 == le_byte(fourcc, 0) && b1 == le_byte(fourcc, 1) && b2 == le_byte(fourcc, 2)
        && b3 == le_byte(fourcc, 3)) by {
        assert(fourcc & 0xff == fourcc % 0x100) by (bit_vector);
        assert((fourcc >> 8) & 0xff == (fourcc / 0x100) % 0x100) by (bit_vector);
        assert((fourcc >> 16) & 0xff == (fourcc / 0x1_0000) % 0x100) by (bit_vector);
        assert((fourcc >> 24) & 0xff == (fourcc / 0x100_0000) % 0x100) by (bit_vector);
    }
    let mut s = String::new();
    push_char(&mut s, '\'');
    push_char(&mut s, show_byte(b0));
    push_char(&mut s, show_byte(b1));
    push_char(&mut s, show_byte(b2));
    push_char(&mut s, show_byte(b3));
    push_char(&mut s, '\'');
    assert(s@ =~= fourcc_text(fourcc));
    s
}

} // verus!
