use vstd::prelude::*;

verus! {

pub const KERNEL_INT_VECTOR: u8 = 0xff;
pub const USER_INT_VECTOR: u8 = 0xfe;
pub const GDI_INT_VECTOR: u8 = 0xfd;
pub const KEYBOARD_INT_VECTOR: u8 = 0xfc;
pub const LOWEST_SYSCALL_INT_VECTOR: u8 = 0xfc;

/// The flags that GetWinFlags reports.
#[derive(Debug, Copy, Clone, PartialEq, Eq, Structural)]
pub struct WinFlags(pub u32);

impl WinFlags {
    pub const WF_80X87: u32 = 0x400;
    pub const WF_CPU286: u32 = 0x2;
    pub const WF_CPU386: u32 = 0x4;
    pub const WF_CPU486: u32 = 0x8;
    pub const WF_ENHANCED: u32 = 0x20;
    pub const WF_PAGING: u32 = 0x800;
    pub const WF_PMODE: u32 = 0x1;
    pub const WF_STANDARD: u32 = 0x10;

    pub fn bits(&self) -> (r: u32)
        ensures
            r == self.0,
    {
        self.0
    }

    pub fn from_bits(bits: u32) -> (r: WinFlags)
        ensures
            r.0 == bits,
    {
        WinFlags(bits)
    }
}

/// Window class style bits.
#[derive(Debug, Copy, Clone, PartialEq, Eq, Structural)]
pub struct ClassStyles(pub u16);

impl ClassStyles {
    pub const VREDRAW: u16 = 0x001;
    pub const HREDRAW: u16 = 0x002;
    pub const PARENT_DC: u16 = 0x080;

    /// The known style bits of `bits`; the others are dropped.
    pub fn from_bits_truncate(bits: u16) -> (r: ClassStyles)
        ensures
            r.0 == bits & 0x83,
    {
        ClassStyles(bits & 0x83)
    }

    pub fn bits(&self) -> (r: u16)
        ensures
            r == self.0,
    {
        self.0
    }

    /// Whether every bit of `other` is set in `self`.
    pub fn contains(&self, other: u16) -> (r: bool)
        ensures
            r == (self.0 & other == other),
    {
        self.0 & other == other
    }
}

/// Window messages.
#[derive(Debug, Eq, PartialEq, Copy, Clone, Structural)]
pub enum MessageType {
    Create,
    Size,
    Paint,
    Quit,
    EraseBkGnd,
    ShowWindow,
    GetMinMaxInfo,
    WindowPosChanging,
    NcCreate,
    NcCalcSize,
    Timer,
}

/// The message number of a message.
pub open spec fn message_number(m: MessageType) -> u16 {
    match m {
        MessageType::Create => 0x01,
        MessageType::Size => 0x05,
        MessageType::Paint => 0x0f,
        MessageType::Quit => 0x12,
        MessageType::EraseBkGnd => 0x14,
        MessageType::ShowWindow => 0x18,
        MessageType::GetMinMaxInfo => 0x24,
        MessageType::WindowPosChanging => 0x46,
        MessageType::NcCreate => 0x81,
        MessageType::NcCalcSize => 0x83,
        MessageType::Timer => 0x113,
    }
}

impl MessageType {
    /// The message number.
    pub fn as_u16(self) -> (r: u16)
        ensures
            r == message_number(self),
    {
        match self {
            MessageType::Create => 0x01,
            MessageType::Size => 0x05,
            MessageType::Paint => 0x0f,
            MessageType::Quit => 0x12,
            MessageType::EraseBkGnd => 0x14,
            MessageType::ShowWindow => 0x18,
            MessageType::GetMinMaxInfo => 0x24,
            MessageType::WindowPosChanging => 0x46,
            MessageType::NcCreate => 0x81,
            MessageType::NcCalcSize => 0x83,
            MessageType::Timer => 0x113,
        }
    }
}

/// The system color indices, in their numbering order.
#[derive(Debug, Eq, PartialEq, Copy, Clone, Structural)]
pub enum SystemColors {
    Scrollbar,
    Background,
    ActiveCaption,
    InactiveCaption,
    Menu,
    Window,
    WindowFrame,
    MenuText,
    WindowText,
    CaptionText,
    ActiveBorder,
    InactiveBorder,
    AppWorkspace,
    Highlight,
    HighlightText,
    ButtonFace,
    ButtonShadow,
    GrayText,
    ButtonText,
    InactiveCaptionText,
    ButtonHighlight,
}

/// Indices of GetDeviceCaps.
#[derive(Debug, Eq, PartialEq, Copy, Clone, Structural)]
pub enum DeviceCapRequest {
    HorzSize,
    VertSize,
    HorzRes,
    VertRes,
    NumColors,
}

/// The index number of a device capability.
pub open spec fn device_cap_number(r: DeviceCapRequest) -> u16 {
    match r {
        DeviceCapRequest::HorzSize => 4,
        DeviceCapRequest::VertSize => 6,
        DeviceCapRequest::HorzRes => 8,
        DeviceCapRequest::VertRes => 10,
        DeviceCapRequest::NumColors => 24,
    }
}

impl DeviceCapRequest {
    pub fn as_u16(self) -> (r: u16)
        ensures
            r == device_cap_number(self),
    {
        match self {
            DeviceCapRequest::HorzSize => 4,
            DeviceCapRequest::VertSize => 6,
            DeviceCapRequest::HorzRes => 8,
            DeviceCapRequest::VertRes => 10,
            DeviceCapRequest::NumColors => 24,
        }
    }
}

/// Binary raster operations, numbered 1 to 16.
#[derive(Debug, Copy, Clone, Eq, PartialEq, Structural)]
pub enum RasterOp {
    Black,
    NotMergePen,
    MaskNotPen,
    NotCopyPen,
    MaskPenNot,
    Not,
    XorPen,
    NotMaskPen,
    MaskPen,
    NotXorPen,
    Nop,
    MergeNotPen,
    CopyPen,
    MergePenNot,
    MergePen,
    White,
}

/// The number of a raster operation.
pub open spec fn raster_op_number(r: RasterOp) -> u16 {
    match r {
        RasterOp::Black => 1,
        RasterOp::NotMergePen => 2,
        RasterOp::MaskNotPen => 3,
        RasterOp::NotCopyPen => 4,
        RasterOp::MaskPenNot => 5,
        RasterOp::Not => 6,
        RasterOp::XorPen => 7,
        RasterOp::NotMaskPen => 8,
        RasterOp::MaskPen => 9,
        RasterOp::NotXorPen => 10,
        RasterOp::Nop => 11,
        RasterOp::MergeNotPen => 12,
        RasterOp::CopyPen => 13,
        RasterOp::MergePenNot => 14,
        RasterOp::MergePen => 15,
        RasterOp::White => 16,
    }
}

impl RasterOp {
    pub fn as_u16(self) -> (r: u16)
        ensures
            r == raster_op_number(self),
    {
        match self {
            RasterOp::Black => 1,
            RasterOp::NotMergePen => 2,
            RasterOp::MaskNotPen => 3,
            RasterOp::NotCopyPen => 4,
            RasterOp::MaskPenNot => 5,
            RasterOp::Not => 6,
            RasterOp::XorPen => 7,
            RasterOp::NotMaskPen => 8,
            RasterOp::MaskPen => 9,
            RasterOp::NotXorPen => 10,
            RasterOp::Nop => 11,
            RasterOp::MergeNotPen => 12,
            RasterOp::CopyPen => 13,
            RasterOp::MergePenNot => 14,
            RasterOp::MergePen => 15,
            RasterOp::White => 16,
        }
    }

    /// The raster operation numbered `value`, if there is one.
    pub fn from_u16(value: u16) -> (r: Option<RasterOp>)
        ensures
            1 <= value <= 16 <==> r.is_some(),
            r matches Some(op) ==> raster_op_number(op) == value,
    {
        match value {
            1 => Some(RasterOp::Black),
            2 => Some(RasterOp::NotMergePen),
            3 => Some(RasterOp::MaskNotPen),
            4 => Some(RasterOp::NotCopyPen),
            5 => Some(RasterOp::MaskPenNot),
            6 => Some(RasterOp::Not),
            7 => Some(RasterOp::XorPen),
            8 => Some(RasterOp::NotMaskPen),
            9 => Some(RasterOp::MaskPen),
            10 => Some(RasterOp::NotXorPen),
            11 => Some(RasterOp::Nop),
            12 => Some(RasterOp::MergeNotPen),
            13 => Some(RasterOp::CopyPen),
            14 => Some(RasterOp::MergePenNot),
            15 => Some(RasterOp::MergePen),
            16 => Some(RasterOp::White),
            _ => None,
        }
    }
}

} // verus!
