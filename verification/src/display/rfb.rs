//! Messages of the RFB protocol, as the VNC server writes and judges them.

use vstd::prelude::*;

use crate::bytes::{push_be_u16, push_be_u32};

verus! {

/// Why a connection is given up.
#[derive(Debug)]
pub enum RfbError {
    /// The client answered with a protocol version that is not served.
    UnsupportedVersion(Vec<u8>),
    /// The client chose a security type that was not offered.
    InvalidSecurityType,
    /// The client speaks version 3.3, whose security type needs a password.
    AuthenticationUnsupported,
    /// There are fewer pixels than the size of the display asks for.
    FramebufferTooSmall,
    /// The connection reported a hangup or an error.
    Hangup,
    /// An update could not be sent.
    UpdateFailed,
}

/// Length of a protocol version message.
pub const VERSION_LENGTH: usize = 12;

/// `RFB 003.008` and a newline: the version that the server announces.
pub open spec fn server_version() -> Seq<u8> {
    seq![0x52u8, 0x46, 0x42, 0x20, 0x30, 0x30, 0x33, 0x2E, 0x30, 0x30, 0x38, 0x0A]
}

/// `003.008`
pub open spec fn version_38() -> Seq<u8> {
    seq![0x30u8, 0x30, 0x33, 0x2E, 0x30, 0x30, 0x38]
}

/// `003.003`
pub open spec fn version_33() -> Seq<u8> {
    seq![0x30u8, 0x30, 0x33, 0x2E, 0x30, 0x30, 0x33]
}

/// `Invalid security type`
pub open spec fn rejection_reason() -> Seq<u8> {
    seq![
        0x49u8, 0x6E, 0x76, 0x61, 0x6C, 0x69, 0x64, 0x20, 0x73, 0x65, 0x63, 0x75, 0x72, 0x69, 0x74,
        0x79, 0x20, 0x74, 0x79, 0x70, 0x65,
    ]
}

/// `Cloud Hypervisor`: the name of the desktop.
pub open spec fn desktop_name() -> Seq<u8> {
    seq![
        0x43u8, 0x6C, 0x6F, 0x75, 0x64, 0x20, 0x48, 0x79, 0x70, 0x65, 0x72, 0x76, 0x69, 0x73, 0x6F,
        0x72,
    ]
}

/// `needle` occurs in `haystack`.
pub open spec fn contains_bytes(haystack: Seq<u8>, needle: Seq<u8>) -> bool {
    exists|at: int|
        0 <= at <= haystack.len() - needle.len() && #[trigger] haystack.subrange(
            at,
            at + needle.len(),
        ) == needle
}

/// Whether `needle` occurs in `haystack`.
fn find_bytes(haystack: &[u8], needle: &[u8]) -> (found: bool)
    ensures
        found == contains_bytes(haystack@, needle@),
{
    if needle.len() > haystack.len() {
        return false;
    }
    let last: usize = haystack.len() - needle.len();
    let mut at: usize = 0;
    loop
        invariant
            last == haystack@.len() - needle@.len(),
            0 <= at <= last,
            haystack@.len() <= usize::MAX,
            forall|i: int|
                0 <= i < at ==> #[trigger] haystack@.subrange(i, i + needle@.len()) != needle@,
        decreases last - at,
    {
        let mut same: usize = 0;
        while same < needle.len() && haystack[at + same] == needle[same]
            invariant
                at <= last,
                haystack@.len() <= usize::MAX,
                last == haystack@.len() - needle@.len(),
                0 <= same <= needle@.len(),
                forall|j: int| 0 <= j < same ==> haystack@[at + j] == needle@[j],
            decreases needle@.len() - same,
        {
            same = same + 1;
        }
        if same == needle.len() {
            assert(haystack@.subrange(at as int, at + needle@.len()) =~= needle@);
            return true;
        }
        proof {
            let part = haystack@.subrange(at as int, at + needle@.len());
            assert(part[same as int] != needle@[same as int]);
        }
        if at == last {
            return false;
        }
        at = at + 1;
    }
}

/// The message with which the server opens the conversation.
pub fn version_message() -> (message: Vec<u8>)
    ensures
        message@ == server_version(),
        message@ == seq![0x52u8, 0x46, 0x42, 0x20, 0x30, 0x30, 0x33, 0x2E, 0x30, 0x30, 0x38, 0x0A],
{
    let message: Vec<u8> = vec![
        0x52, 0x46, 0x42, 0x20, 0x30, 0x30, 0x33, 0x2E, 0x30, 0x30, 0x38, 0x0A,
    ];
    assert(message@ =~= server_version());
    message
}

/// Judges the version with which the client answers. The result tells whether the
/// conversation goes on in version 3.8; a client that names neither 3.8 nor 3.3 is
/// refused.
pub fn handshake(client_version: Vec<u8>) -> (agreed: Result<bool, RfbError>)
    ensures
        agreed == (if contains_bytes(client_version@, version_38()) {
            Ok(true)
        } else if contains_bytes(client_version@, version_33()) {
            Ok(false)
        } else {
            Err(RfbError::UnsupportedVersion(client_version))
        }),
        agreed == Ok::<bool, RfbError>(true) <==> exists|at: int|
            0 <= at <= client_version@.len() - 7 && #[trigger] client_version@.subrange(at, at + 7)
                == seq![0x30u8, 0x30, 0x33, 0x2E, 0x30, 0x30, 0x38],
        agreed == Ok::<bool, RfbError>(false) ==> exists|at: int|
            0 <= at <= client_version@.len() - 7 && #[trigger] client_version@.subrange(at, at + 7)
                == seq![0x30u8, 0x30, 0x33, 0x2E, 0x30, 0x30, 0x33],
        agreed is Err ==> forall|at: int|
            0 <= at <= client_version@.len() - 7 ==> #[trigger] client_version@.subrange(at, at + 7)
                != seq![0x30u8, 0x30, 0x33, 0x2E, 0x30, 0x30, 0x33],
{
    let v38: [u8; 7] = [0x30, 0x30, 0x33, 0x2E, 0x30, 0x30, 0x38];
    let v33: [u8; 7] = [0x30, 0x30, 0x33, 0x2E, 0x30, 0x30, 0x33];
    assert(v38@ =~= version_38());
    assert(v33@ =~= version_33());
    assert(version_38() =~= seq![0x30u8, 0x30, 0x33, 0x2E, 0x30, 0x30, 0x38]);
    assert(version_33() =~= seq![0x30u8, 0x30, 0x33, 0x2E, 0x30, 0x30, 0x33]);
    if find_bytes(client_version.as_slice(), v38.as_slice()) {
        Ok(true)
    } else if find_bytes(client_version.as_slice(), v33.as_slice()) {
        Ok(false)
    } else {
        Err(RfbError::UnsupportedVersion(client_version))
    }
}

/// The security types that the server offers: in version 3.8 a list that holds type
/// 1 (no authentication) alone, in version 3.3 the type that is to be used, in four
/// bytes.
pub open spec fn offer_bytes(use_rfb38: bool) -> Seq<u8> {
    if use_rfb38 {
        seq![1u8, 1u8]
    } else {
        crate::bytes::be_bytes(1, 4)
    }
}

/// The offer of security types.
pub fn security_offer(use_rfb38: bool) -> (message: Vec<u8>)
    ensures
        message@ == offer_bytes(use_rfb38),
        use_rfb38 ==> message@ == seq![1u8, 1],
        !use_rfb38 ==> message@ == seq![0u8, 0, 0, 1],
{
    let mut message: Vec<u8> = Vec::new();
    if use_rfb38 {
        message.push(1);
        message.push(1);
    } else {
        push_be_u32(&mut message, 1);
    }
    assert(message@ =~= offer_bytes(use_rfb38));
    proof {
        crate::bytes::law_four_bytes(0, 0, 0, 1);
    }
    message
}

/// The server's answer to the security type that the client chose: success in four
/// zero bytes, a refusal as the number 1 and the reason, and nothing at all where
/// the choice would need a password.
pub open spec fn verdict_bytes(use_rfb38: bool, selected: u8) -> Seq<u8> {
    if selected != 1 {
        crate::bytes::be_bytes(1, 4) + rejection_reason()
    } else if use_rfb38 {
        crate::bytes::be_bytes(0, 4)
    } else {
        Seq::empty()
    }
}

/// Judges the security type that the client chose. Only type 1 is accepted, and only
/// in version 3.8.
pub open spec fn security_outcome(use_rfb38: bool, selected: u8) -> Result<(), RfbError> {
    if selected != 1 {
        Err(RfbError::InvalidSecurityType)
    } else if use_rfb38 {
        Ok(())
    } else {
        Err(RfbError::AuthenticationUnsupported)
    }
}

/// What the server says to the client's choice, letter by letter. Any type but the one
/// that was offered is answered with the number 1 and the words "Invalid security type";
/// going without authentication is answered with zero, in version 3.8; nothing is said in
/// version 3.3.
pub proof fn law_verdicts(use_rfb38: bool, selected: u8)
    ensures
        selected != 1 ==> verdict_bytes(use_rfb38, selected) == seq![
            0u8, 0, 0, 1, 0x49, 0x6E, 0x76, 0x61, 0x6C, 0x69, 0x64, 0x20, 0x73, 0x65, 0x63, 0x75,
            0x72, 0x69, 0x74, 0x79, 0x20, 0x74, 0x79, 0x70, 0x65,
        ],
        selected == 1 && use_rfb38 ==> verdict_bytes(use_rfb38, selected) == seq![0u8, 0, 0, 0],
        selected == 1 && !use_rfb38 ==> verdict_bytes(use_rfb38, selected) == Seq::<u8>::empty(),
        security_outcome(use_rfb38, selected) is Ok <==> selected == 1 && use_rfb38,
        security_outcome(use_rfb38, selected) == Err::<(), RfbError>(
            RfbError::InvalidSecurityType,
        ) <==> selected != 1,
        security_outcome(use_rfb38, selected) == Err::<(), RfbError>(
            RfbError::AuthenticationUnsupported,
        ) <==> selected == 1 && !use_rfb38,
{
    crate::bytes::law_four_bytes(0, 0, 0, 1);
    crate::bytes::law_four_bytes(0, 0, 0, 0);
    if selected != 1 {
        assert(verdict_bytes(use_rfb38, selected) =~= seq![
            0u8, 0, 0, 1, 0x49, 0x6E, 0x76, 0x61, 0x6C, 0x69, 0x64, 0x20, 0x73, 0x65, 0x63, 0x75,
            0x72, 0x69, 0x74, 0x79, 0x20, 0x74, 0x79, 0x70, 0x65,
        ]);
    }
}

/// The answer to the security type that the client chose, and whether the
/// conversation goes on after it.
pub fn security(use_rfb38: bool, selected: u8) -> (verdict: (Vec<u8>, Result<(), RfbError>))
    ensures
        verdict.0@ == verdict_bytes(use_rfb38, selected),
        verdict.1 == security_outcome(use_rfb38, selected),
        selected != 1 ==> verdict.0@ == seq![
            0u8, 0, 0, 1, 0x49, 0x6E, 0x76, 0x61, 0x6C, 0x69, 0x64, 0x20, 0x73, 0x65, 0x63, 0x75,
            0x72, 0x69, 0x74, 0x79, 0x20, 0x74, 0x79, 0x70, 0x65,
        ] && verdict.1 == Err::<(), RfbError>(
            RfbError::InvalidSecurityType,
        ),
        selected == 1 && use_rfb38 ==> verdict.0@ == seq![0u8, 0, 0, 0] && verdict.1 == Ok::<
            (),
            RfbError,
        >(()),
        selected == 1 && !use_rfb38 ==> verdict.0@ == Seq::<u8>::empty() && verdict.1 == Err::<
            (),
            RfbError,
        >(RfbError::AuthenticationUnsupported),
{
    proof {
        law_verdicts(use_rfb38, selected);
    }
    let mut message: Vec<u8> = Vec::new();
    if selected != 1 {
        push_be_u32(&mut message, 1);
        let reason: [u8; 21] = [
            0x49, 0x6E, 0x76, 0x61, 0x6C, 0x69, 0x64, 0x20, 0x73, 0x65, 0x63, 0x75, 0x72, 0x69,
            0x74, 0x79, 0x20, 0x74, 0x79, 0x70, 0x65,
        ];
        assert(reason@ =~= rejection_reason());
        message.extend_from_slice(reason.as_slice());
        assert(message@ =~= verdict_bytes(use_rfb38, selected));
        (message, Err(RfbError::InvalidSecurityType))
    } else if use_rfb38 {
        push_be_u32(&mut message, 0);
        assert(message@ =~= verdict_bytes(use_rfb38, selected));
        (message, Ok(()))
    } else {
        assert(message@ =~= verdict_bytes(use_rfb38, selected));
        (message, Err(RfbError::AuthenticationUnsupported))
    }
}

/// The pixel format that the server serves: 32 bits per pixel, depth 24, little
/// endian, true colour, 255 levels of red, green and blue, at shifts 16, 8 and 0,
/// and three bytes of padding.
pub open spec fn pixel_format() -> Seq<u8> {
    seq![32u8, 24, 0, 1, 0, 255, 0, 255, 0, 255, 16, 8, 0, 0, 0, 0]
}

/// The message that describes the display: its size, in two bytes each, the pixel
/// format, and the name of the desktop with its length in four bytes. A size over two
/// bytes is cut down to its lowest two.
pub open spec fn init_bytes(width: u32, height: u32) -> Seq<u8> {
    crate::bytes::be_bytes((width % 0x10000) as nat, 2) + crate::bytes::be_bytes(
        (height % 0x10000) as nat,
        2,
    ) + pixel_format() + crate::bytes::be_bytes(desktop_name().len(), 4) + desktop_name()
}

/// A size in two bytes.
proof fn lemma_size_bytes(value: u32)
    ensures
        crate::bytes::be_bytes((value % 0x10000) as nat, 2) == seq![
            (value / 0x100 % 0x100) as u8,
            (value % 0x100) as u8,
        ],
{
    let high = (value / 0x100 % 0x100) as u8;
    let low = (value % 0x100) as u8;
    assert(value % 0x10000 == high * 256 + low);
    crate::bytes::law_two_bytes(high, low);
}

/// The description of the display, byte by byte: width and height, most significant byte
/// first, 32 bits per pixel, depth 24, little endian, true colour, 255 levels of each
/// colour, red, green and blue at shifts 16, 8 and 0, and the name, 16 letters long.
pub proof fn law_init_bytes(width: u32, height: u32)
    ensures
        init_bytes(width, height).len() == 40,
        init_bytes(width, height)[0] == width / 0x100 % 0x100,
        init_bytes(width, height)[1] == width % 0x100,
        init_bytes(width, height)[2] == height / 0x100 % 0x100,
        init_bytes(width, height)[3] == height % 0x100,
        init_bytes(width, height).subrange(4, 20) == seq![
            32u8, 24, 0, 1, 0, 255, 0, 255, 0, 255, 16, 8, 0, 0, 0, 0,
        ],
        init_bytes(width, height).subrange(20, 24) == seq![0u8, 0, 0, 16],
        init_bytes(width, height).skip(24) == seq![
            0x43u8, 0x6C, 0x6F, 0x75, 0x64, 0x20, 0x48, 0x79, 0x70, 0x65, 0x72, 0x76, 0x69, 0x73,
            0x6F, 0x72,
        ],
{
    let m = init_bytes(width, height);
    lemma_size_bytes(width);
    lemma_size_bytes(height);
    let w = crate::bytes::be_bytes((width % 0x10000) as nat, 2);
    let h = crate::bytes::be_bytes((height % 0x10000) as nat, 2);
    crate::bytes::law_four_bytes(0, 0, 0, 16);
    assert(desktop_name().len() == 16);
    assert(m.take(2) =~= w);
    assert(m.subrange(2, 4) =~= h);
    assert(m[0] == m.take(2)[0] && m[1] == m.take(2)[1]);
    assert(m[2] == m.subrange(2, 4)[0] && m[3] == m.subrange(2, 4)[1]);
    assert(m.subrange(4, 20) =~= seq![
        32u8, 24, 0, 1, 0, 255, 0, 255, 0, 255, 16, 8, 0, 0, 0, 0,
    ]);
    assert(m.subrange(20, 24) =~= seq![0u8, 0, 0, 16]);
    assert(m.skip(24) =~= seq![
        0x43u8, 0x6C, 0x6F, 0x75, 0x64, 0x20, 0x48, 0x79, 0x70, 0x65, 0x72, 0x76, 0x69, 0x73,
        0x6F, 0x72,
    ]);
}

/// The message that describes the display.
pub fn server_init(width: u32, height: u32) -> (message: Vec<u8>)
    ensures
        message@ == init_bytes(width, height),
        message@.len() == 40,
        message@[0] == width / 0x100 % 0x100,
        message@[1] == width % 0x100,
        message@[2] == height / 0x100 % 0x100,
        message@[3] == height % 0x100,
        message@.subrange(4, 20) == seq![
            32u8, 24, 0, 1, 0, 255, 0, 255, 0, 255, 16, 8, 0, 0, 0, 0,
        ],
        message@.subrange(20, 24) == seq![0u8, 0, 0, 16],
        message@.skip(24) == seq![
            0x43u8, 0x6C, 0x6F, 0x75, 0x64, 0x20, 0x48, 0x79, 0x70, 0x65, 0x72, 0x76, 0x69, 0x73,
            0x6F, 0x72,
        ],
{
    let mut message: Vec<u8> = Vec::new();
    push_be_u16(&mut message, (width % 0x10000) as u16);
    push_be_u16(&mut message, (height % 0x10000) as u16);
    let format: [u8; 16] = [32, 24, 0, 1, 0, 255, 0, 255, 0, 255, 16, 8, 0, 0, 0, 0];
    assert(format@ =~= pixel_format());
    message.extend_from_slice(format.as_slice());
    let name: [u8; 16] = [
        0x43, 0x6C, 0x6F, 0x75, 0x64, 0x20, 0x48, 0x79, 0x70, 0x65, 0x72, 0x76, 0x69, 0x73, 0x6F,
        0x72,
    ];
    assert(name@ =~= desktop_name());
    push_be_u32(&mut message, 16);
    message.extend_from_slice(name.as_slice());
    assert(message@ =~= init_bytes(width, height));
    proof {
        law_init_bytes(width, height);
    }
    message
}

/// Bytes of the pixels of a display, four per pixel.
pub open spec fn pixel_bytes(width: u32, height: u32) -> int {
    width * 4 * height
}

/// The sizes of displays whose pixels can be counted in 32 bits.
pub open spec fn size_fits(width: u32, height: u32) -> bool {
    width * 4 <= u32::MAX && pixel_bytes(width, height) <= u32::MAX
}

/// The message that brings the client the whole display: type and padding, one
/// rectangle at the origin, its size in two bytes each, raw encoding, and the pixels.
pub open spec fn update_bytes(data: Seq<u8>, width: u32, height: u32) -> Seq<u8> {
    seq![0u8, 0, 0, 1] + seq![0u8, 0, 0, 0] + crate::bytes::be_bytes(
        (width % 0x10000) as nat,
        2,
    ) + crate::bytes::be_bytes((height % 0x10000) as nat, 2) + crate::bytes::be_bytes(0, 4)
        + data.take(pixel_bytes(width, height))
}

/// Number of bytes of the pixels of a display.
pub fn framebuffer_bytes(width: u32, height: u32) -> (size: u32)
    requires
        size_fits(width, height),
    ensures
        size == pixel_bytes(width, height),
        size == 4 * (width * height),
{
    proof {
        law_four_bytes_per_pixel(width, height);
    }
    width * 4 * height
}

/// A display has four bytes for each of its pixels, which are as many as a row has, times
/// the number of rows: a display of one more row has four more bytes for each column, and
/// one of one more column four more for each row.
pub proof fn law_four_bytes_per_pixel(width: u32, height: u32)
    ensures
        pixel_bytes(width, height) == 4 * (width * height),
        pixel_bytes(width, 0) == 0,
        pixel_bytes(0, height) == 0,
        height < u32::MAX ==> pixel_bytes(width, (height + 1) as u32) == pixel_bytes(width, height)
            + 4 * width,
        width < u32::MAX ==> pixel_bytes((width + 1) as u32, height) == pixel_bytes(width, height)
            + 4 * height,
        size_fits(width, height) <==> 4 * width <= u32::MAX && 4 * (width * height) <= u32::MAX,
{
    assert(width * 4 * height == 4 * (width * height)) by (nonlinear_arith);
    assert(width * 4 * (height + 1) == width * 4 * height + 4 * width) by (nonlinear_arith);
    assert((width + 1) * 4 * height == width * 4 * height + 4 * height) by (nonlinear_arith);
    assert(0 * 4 * height == 0) by (nonlinear_arith);
}

/// An update, byte by byte: type 0, one rectangle at the origin, as wide and as high as
/// the display, most significant byte first, raw encoding, and then the pixels, four
/// bytes for each of them, row by row, and nothing else.
pub proof fn law_update_bytes(data: Seq<u8>, width: u32, height: u32)
    requires
        data.len() >= 4 * (width * height),
    ensures
        update_bytes(data, width, height).len() == 16 + 4 * (width * height),
        update_bytes(data, width, height).take(8) == seq![0u8, 0, 0, 1, 0, 0, 0, 0],
        update_bytes(data, width, height)[8] == width / 0x100 % 0x100,
        update_bytes(data, width, height)[9] == width % 0x100,
        update_bytes(data, width, height)[10] == height / 0x100 % 0x100,
        update_bytes(data, width, height)[11] == height % 0x100,
        update_bytes(data, width, height).subrange(12, 16) == seq![0u8, 0, 0, 0],
        update_bytes(data, width, height).skip(16) == data.take(4 * (width * height)),
{
    law_four_bytes_per_pixel(width, height);
    assert(0 <= width * height) by (nonlinear_arith)
        requires
            0 <= width,
            0 <= height,
    ;
    let m = update_bytes(data, width, height);
    lemma_size_bytes(width);
    lemma_size_bytes(height);
    let w = crate::bytes::be_bytes((width % 0x10000) as nat, 2);
    let h = crate::bytes::be_bytes((height % 0x10000) as nat, 2);
    crate::bytes::law_four_bytes(0, 0, 0, 0);
    assert(m.subrange(8, 10) =~= w);
    assert(m.subrange(10, 12) =~= h);
    assert(m[8] == m.subrange(8, 10)[0] && m[9] == m.subrange(8, 10)[1]);
    assert(m[10] == m.subrange(10, 12)[0] && m[11] == m.subrange(10, 12)[1]);
    assert(m.take(8) =~= seq![0u8, 0, 0, 1, 0, 0, 0, 0]);
    assert(m.subrange(12, 16) =~= seq![0u8, 0, 0, 0]);
    assert(m.skip(16) =~= data.take(4 * (width * height)));
}

/// The message that brings the client the whole display. It is refused where `data`
/// holds fewer bytes than the display has; surplus bytes stay behind.
pub fn send_framebuffer_update(data: &[u8], width: u32, height: u32) -> (message: Result<
    Vec<u8>,
    RfbError,
>)
    requires
        size_fits(width, height),
    ensures
        data@.len() < pixel_bytes(width, height) ==> message == Err::<Vec<u8>, RfbError>(
            RfbError::FramebufferTooSmall,
        ),
        data@.len() >= pixel_bytes(width, height) ==> (message matches Ok(bytes) && bytes@
            == update_bytes(data@, width, height)),
        message is Err <==> data@.len() < 4 * (width * height),
        message matches Ok(bytes) ==> {
            &&& bytes@.len() == 16 + 4 * (width * height)
            &&& bytes@.take(8) == seq![0u8, 0, 0, 1, 0, 0, 0, 0]
            &&& bytes@[8] == width / 0x100 % 0x100
            &&& bytes@[9] == width % 0x100
            &&& bytes@[10] == height / 0x100 % 0x100
            &&& bytes@[11] == height % 0x100
            &&& bytes@.subrange(12, 16) == seq![0u8, 0, 0, 0]
            &&& bytes@.skip(16) == data@.take(4 * (width * height))
        },
{
    proof {
        law_four_bytes_per_pixel(width, height);
        if data@.len() >= pixel_bytes(width, height) {
            law_update_bytes(data@, width, height);
        }
    }
    let size: usize = framebuffer_bytes(width, height) as usize;
    if data.len() < size {
        return Err(RfbError::FramebufferTooSmall);
    }
    let mut message: Vec<u8> = vec![0, 0, 0, 1, 0, 0, 0, 0];
    assert(message@ =~= seq![0u8, 0, 0, 1] + seq![0u8, 0, 0, 0]);
    push_be_u16(&mut message, (width % 0x10000) as u16);
    push_be_u16(&mut message, (height % 0x10000) as u16);
    push_be_u32(&mut message, 0);
    let (pixels, _) = data.split_at(size);
    message.extend_from_slice(pixels);
    assert(message@ =~= update_bytes(data@, width, height));
    Ok(message)
}

/// Two bytes hold a size below 65536, and give it back.
proof fn lemma_two_bytes(value: u32)
    requires
        value < 0x10000,
    ensures
        value % 0x10000 == value,
        crate::bytes::be_bytes((value % 0x10000) as nat, 2).len() == 2,
        crate::bytes::be_value(crate::bytes::be_bytes((value % 0x10000) as nat, 2)) == value,
{
    reveal_with_fuel(crate::bytes::be_limit, 3);
    crate::bytes::law_decode_encode(value as nat, 2);
}

/// Layout of the message that describes the display: width and height in two bytes
/// each, then the pixel format in 16 bytes, then the length of the name in four
/// bytes, and the name, up to the end. For displays of fewer than 65536 pixels each
/// way: larger sizes do not fit into two bytes.
pub proof fn law_init_layout(width: u32, height: u32)
    requires
        width < 0x10000,
        height < 0x10000,
    ensures
        crate::bytes::be_value(init_bytes(width, height).subrange(0, 2)) == width,
        crate::bytes::be_value(init_bytes(width, height).subrange(2, 4)) == height,
        init_bytes(width, height).subrange(4, 20) == pixel_format(),
        crate::bytes::be_value(init_bytes(width, height).subrange(20, 24))
            == init_bytes(width, height).len() - 24,
        init_bytes(width, height).skip(24) == desktop_name(),
{
    lemma_two_bytes(width);
    lemma_two_bytes(height);
    let name_length = desktop_name().len();
    reveal_with_fuel(crate::bytes::be_limit, 5);
    crate::bytes::law_decode_encode(name_length, 4);
    let m = init_bytes(width, height);
    assert(m.subrange(0, 2) =~= crate::bytes::be_bytes((width % 0x10000) as nat, 2));
    assert(m.subrange(2, 4) =~= crate::bytes::be_bytes((height % 0x10000) as nat, 2));
    assert(m.subrange(4, 20) =~= pixel_format());
    assert(m.subrange(20, 24) =~= crate::bytes::be_bytes(name_length, 4));
    assert(m.skip(24) =~= desktop_name());
}

/// Layout of an update: type 0, one rectangle, its place and size in two bytes each,
/// encoding 0 in four bytes, and then the pixels and nothing else. For displays of
/// fewer than 65536 pixels each way: larger sizes do not fit into two bytes.
pub proof fn law_update_layout(data: Seq<u8>, width: u32, height: u32)
    requires
        width < 0x10000,
        height < 0x10000,
        data.len() >= pixel_bytes(width, height),
    ensures
        update_bytes(data, width, height)[0] == 0,
        crate::bytes::be_value(update_bytes(data, width, height).subrange(2, 4)) == 1,
        crate::bytes::be_value(update_bytes(data, width, height).subrange(4, 6)) == 0,
        crate::bytes::be_value(update_bytes(data, width, height).subrange(6, 8)) == 0,
        crate::bytes::be_value(update_bytes(data, width, height).subrange(8, 10)) == width,
        crate::bytes::be_value(update_bytes(data, width, height).subrange(10, 12)) == height,
        crate::bytes::be_value(update_bytes(data, width, height).subrange(12, 16)) == 0,
        update_bytes(data, width, height).skip(16) == data.take(pixel_bytes(width, height)),
{
    lemma_two_bytes(width);
    lemma_two_bytes(height);
    reveal_with_fuel(crate::bytes::be_limit, 5);
    crate::bytes::law_decode_encode(0, 4);
    assert(0 <= pixel_bytes(width, height)) by (nonlinear_arith)
        requires
            pixel_bytes(width, height) == width * 4 * height,
            0 <= width,
            0 <= height,
    ;
    let m = update_bytes(data, width, height);
    assert(m.subrange(8, 10) =~= crate::bytes::be_bytes((width % 0x10000) as nat, 2));
    assert(m.subrange(10, 12) =~= crate::bytes::be_bytes((height % 0x10000) as nat, 2));
    assert(m.subrange(12, 16) =~= crate::bytes::be_bytes(0, 4));
    assert(m.skip(16) =~= data.take(pixel_bytes(width, height)));
    assert(m.subrange(4, 6) =~= seq![0u8, 0u8]);
    assert(m.subrange(6, 8) =~= seq![0u8, 0u8]);
    assert(m.subrange(2, 4) =~= seq![0u8, 1u8]);
    reveal_with_fuel(crate::bytes::be_value, 3);
    assert(seq![0u8, 0u8].drop_last() =~= seq![0u8]);
    assert(seq![0u8, 1u8].drop_last() =~= seq![0u8]);
    assert(seq![0u8].drop_last() =~= Seq::empty());
}

} // verus!
