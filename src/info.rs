use vstd::prelude::*;

verus! {

/// USB vendor id of the first generation of Mirabox-made panels.
pub const VENDOR_ID_MIRABOX_V1: u16 = 0x5548;
/// USB vendor id of the second generation of Mirabox-made panels.
pub const VENDOR_ID_MIRABOX_V2: u16 = 0x0300;

/// Product id of the Ajazz AKP153.
pub const PID_AJAZZ_AKP153: u16 = 0x6674;
/// Product id of the Ajazz AKP153E.
pub const PID_AJAZZ_AKP153E: u16 = 0x1010;
/// Product id of the Ajazz AKP153R.
pub const PID_AJAZZ_AKP153R: u16 = 0x1020;
/// Product id of the Ajazz AKP815.
pub const PID_AJAZZ_AKP815: u16 = 0x6672;
/// Product id of the Ajazz AKP03.
pub const PID_AJAZZ_AKP03: u16 = 0x1001;
/// Product id of the Ajazz AKP03E.
pub const PID_AJAZZ_AKP03E: u16 = 0x3002;
/// Product id of the Ajazz AKP03R.
pub const PID_AJAZZ_AKP03R: u16 = 0x1003;
/// Product id of the second revision of the Ajazz AKP03R.
pub const PID_AJAZZ_AKP03R_REV2: u16 = 0x3003;

/// Vendor ids that the library handles.
pub open spec fn spec_is_mirabox_vendor(vendor: u16) -> bool {
    vendor == VENDOR_ID_MIRABOX_V1 || vendor == VENDOR_ID_MIRABOX_V2
}

/// Returns true for vendor ids that are handled by the library.
pub fn is_mirabox_vendor(vendor: u16) -> (r: bool)
    ensures
        r == spec_is_mirabox_vendor(vendor),
{
    vendor == VENDOR_ID_MIRABOX_V1 || vendor == VENDOR_ID_MIRABOX_V2
}

/// Kinds of Ajazz devices.
#[derive(Copy, Clone, Debug, Hash, PartialEq, Eq, Structural)]
pub enum Kind {
    /// Ajazz AKP153
    Akp153,
    /// Ajazz AKP153E
    Akp153E,
    /// Ajazz AKP153R
    Akp153R,
    /// Ajazz AKP815
    Akp815,
    /// Ajazz AKP03
    Akp03,
    /// Ajazz AKP03E
    Akp03E,
    /// Ajazz AKP03R
    Akp03R,
    /// Ajazz AKP03R rev 2
    Akp03RRev2,
}

/// Encoding of an image on the wire.
#[derive(Copy, Clone, Debug, Hash, PartialEq, Eq, Structural)]
pub enum ImageMode {
    /// Lossy JPEG still image.
    JPEG,
}

/// Clockwise rotation applied to an image before it is sent.
#[derive(Copy, Clone, Debug, Hash, PartialEq, Eq, Structural)]
pub enum ImageRotation {
    /// No rotation
    Rot0,
    /// 90 degrees clockwise
    Rot90,
    /// 180 degrees
    Rot180,
    /// 270 degrees clockwise
    Rot270,
}

/// Mirroring applied to an image after its rotation.
#[derive(Copy, Clone, Debug, Hash, PartialEq, Eq, Structural)]
pub enum ImageMirroring {
    /// No mirroring
    Unmirrored,
    /// Left and right swapped
    X,
    /// Top and bottom swapped
    Y,
    /// Both flips
    Both,
}

/// Pixel format that a device expects for an image.
#[derive(Copy, Clone, Debug, Hash, PartialEq, Eq)]
pub struct ImageFormat {
    /// Wire encoding
    pub mode: ImageMode,
    /// Target size as (width, height) in pixels
    pub size: (u32, u32),
    /// Rotation applied after resizing
    pub rotation: ImageRotation,
    /// Mirroring applied after rotation
    pub mirror: ImageMirroring,
}

impl Kind {
    /// The (vendor, product) pair of a kind.
    pub open spec fn spec_ids(self) -> (u16, u16) {
        match self {
            Kind::Akp153 => (VENDOR_ID_MIRABOX_V1, PID_AJAZZ_AKP153),
            Kind::Akp153E => (VENDOR_ID_MIRABOX_V2, PID_AJAZZ_AKP153E),
            Kind::Akp153R => (VENDOR_ID_MIRABOX_V2, PID_AJAZZ_AKP153R),
            Kind::Akp815 => (VENDOR_ID_MIRABOX_V1, PID_AJAZZ_AKP815),
            Kind::Akp03 => (VENDOR_ID_MIRABOX_V2, PID_AJAZZ_AKP03),
            Kind::Akp03E => (VENDOR_ID_MIRABOX_V2, PID_AJAZZ_AKP03E),
            Kind::Akp03R => (VENDOR_ID_MIRABOX_V2, PID_AJAZZ_AKP03R),
            Kind::Akp03RRev2 => (VENDOR_ID_MIRABOX_V2, PID_AJAZZ_AKP03R_REV2),
        }
    }

    /// The kind whose ids are (vid, pid), if any.
    pub open spec fn spec_from_vid_pid(vid: u16, pid: u16) -> Option<Kind> {
        if exists|k: Kind| k.spec_ids() == (vid, pid) {
            Some(choose|k: Kind| k.spec_ids() == (vid, pid))
        } else {
            None
        }
    }

    /// Creates a [Kind] from a vendor id and a product id.
    pub fn from_vid_pid(vid: u16, pid: u16) -> (r: Option<Kind>)
        ensures
            r == Kind::spec_from_vid_pid(vid, pid),
            r matches Some(k) ==> k.spec_ids() == (vid, pid),
            r is None <==> forall|k: Kind| k.spec_ids() != (vid, pid),
    {
        let r = match vid {
            VENDOR_ID_MIRABOX_V1 => match pid {
                PID_AJAZZ_AKP153 => Some(Kind::Akp153),
                PID_AJAZZ_AKP815 => Some(Kind::Akp815),
                _ => None,
            },
            VENDOR_ID_MIRABOX_V2 => match pid {
                PID_AJAZZ_AKP153E => Some(Kind::Akp153E),
                PID_AJAZZ_AKP153R => Some(Kind::Akp153R),
                PID_AJAZZ_AKP03 => Some(Kind::Akp03),
                PID_AJAZZ_AKP03E => Some(Kind::Akp03E),
                PID_AJAZZ_AKP03R => Some(Kind::Akp03R),
                PID_AJAZZ_AKP03R_REV2 => Some(Kind::Akp03RRev2),
                _ => None,
            },
            _ => None,
        };
        proof {
            lemma_ids_injective();
            match r {
                Some(k) => {
                    assert(k.spec_ids() == (vid, pid));
                },
                None => {
                    assert forall|k: Kind| k.spec_ids() != (vid, pid) by {
                        match k {
                            Kind::Akp153 => {},
                            Kind::Akp153E => {},
                            Kind::Akp153R => {},
                            Kind::Akp815 => {},
                            Kind::Akp03 => {},
                            Kind::Akp03E => {},
                            Kind::Akp03R => {},
                            Kind::Akp03RRev2 => {},
                        }
                    }
                },
            }
        }
        r
    }
}


impl Kind {
    pub open spec fn spec_product_id(&self) -> u16 {
        self.spec_ids().1
    }

    pub open spec fn spec_vendor_id(&self) -> u16 {
        self.spec_ids().0
    }

    pub open spec fn spec_is_akp03(&self) -> bool {
        matches!(*self, Kind::Akp03 | Kind::Akp03E | Kind::Akp03R | Kind::Akp03RRev2)
    }

    pub open spec fn spec_is_akp153(&self) -> bool {
        matches!(*self, Kind::Akp153 | Kind::Akp153E | Kind::Akp153R)
    }

    pub open spec fn spec_is_v1_api(&self) -> bool {
        self.spec_is_akp153() || *self == Kind::Akp815
    }

    pub open spec fn spec_key_count(&self) -> u8 {
        if self.spec_is_akp153() {
            18
        } else if *self == Kind::Akp815 {
            15
        } else {
            9
        }
    }

    pub open spec fn spec_display_key_count(&self) -> u8 {
        if self.spec_is_akp03() {
            6
        } else {
            self.spec_key_count()
        }
    }

    pub open spec fn spec_row_count(&self) -> u8 {
        if self.spec_is_akp153() {
            3
        } else if *self == Kind::Akp815 {
            5
        } else {
            2
        }
    }

    pub open spec fn spec_column_count(&self) -> u8 {
        if self.spec_is_akp153() {
            6
        } else {
            3
        }
    }

    pub open spec fn spec_encoder_count(&self) -> u8 {
        if self.spec_is_akp03() {
            3
        } else {
            0
        }
    }

    pub open spec fn spec_lcd_strip_size(&self) -> Option<(usize, usize)> {
        if self.spec_is_akp153() {
            Some((854, 480))
        } else if *self == Kind::Akp815 {
            Some((800, 480))
        } else {
            None
        }
    }

    pub open spec fn spec_boot_logo_size(&self) -> Option<(usize, usize)> {
        if self.spec_is_akp03() {
            Some((320, 240))
        } else {
            self.spec_lcd_strip_size()
        }
    }

    pub open spec fn spec_logo_image_format(&self) -> ImageFormat {
        if self.spec_is_akp03() {
            ImageFormat {
                mode: ImageMode::JPEG,
                size: (240, 320),
                rotation: ImageRotation::Rot90,
                mirror: ImageMirroring::Unmirrored,
            }
        } else if self.spec_is_akp153() {
            ImageFormat {
                mode: ImageMode::JPEG,
                size: (854, 480),
                rotation: ImageRotation::Rot0,
                mirror: ImageMirroring::Unmirrored,
            }
        } else {
            ImageFormat {
                mode: ImageMode::JPEG,
                size: (800, 480),
                rotation: ImageRotation::Rot0,
                mirror: ImageMirroring::Unmirrored,
            }
        }
    }

    pub open spec fn spec_key_image_format(&self) -> ImageFormat {
        if self.spec_is_akp153() {
            ImageFormat {
                mode: ImageMode::JPEG,
                size: (85, 85),
                rotation: ImageRotation::Rot90,
                mirror: ImageMirroring::Both,
            }
        } else if *self == Kind::Akp815 {
            ImageFormat {
                mode: ImageMode::JPEG,
                size: (100, 100),
                rotation: ImageRotation::Rot180,
                mirror: ImageMirroring::Unmirrored,
            }
        } else if *self == Kind::Akp03RRev2 {
            ImageFormat {
                mode: ImageMode::JPEG,
                size: (64, 64),
                rotation: ImageRotation::Rot90,
                mirror: ImageMirroring::Unmirrored,
            }
        } else {
            ImageFormat {
                mode: ImageMode::JPEG,
                size: (60, 60),
                rotation: ImageRotation::Rot0,
                mirror: ImageMirroring::Unmirrored,
            }
        }
    }

    /// Product id of the device.
    #[verifier::when_used_as_spec(spec_product_id)]
    pub fn product_id(&self) -> (r: u16)
        ensures
            r == self.spec_product_id(),
    {
        match self {
            Kind::Akp153 => PID_AJAZZ_AKP153,
            Kind::Akp153E => PID_AJAZZ_AKP153E,
            Kind::Akp153R => PID_AJAZZ_AKP153R,
            Kind::Akp815 => PID_AJAZZ_AKP815,
            Kind::Akp03 => PID_AJAZZ_AKP03,
            Kind::Akp03E => PID_AJAZZ_AKP03E,
            Kind::Akp03R => PID_AJAZZ_AKP03R,
            Kind::Akp03RRev2 => PID_AJAZZ_AKP03R_REV2,
        }
    }

    /// Vendor id of the device.
    #[verifier::when_used_as_spec(spec_vendor_id)]
    pub fn vendor_id(&self) -> (r: u16)
        ensures
            r == self.spec_vendor_id(),
    {
        match self {
            Kind::Akp153 | Kind::Akp815 => VENDOR_ID_MIRABOX_V1,
            _ => VENDOR_ID_MIRABOX_V2,
        }
    }

    /// Number of keys the device has.
    #[verifier::when_used_as_spec(spec_key_count)]
    pub fn key_count(&self) -> (r: u8)
        ensures
            r == self.spec_key_count(),
    {
        match self {
            Kind::Akp153 | Kind::Akp153E | Kind::Akp153R => 15 + 3,
            Kind::Akp815 => 15,
            Kind::Akp03 | Kind::Akp03E | Kind::Akp03R | Kind::Akp03RRev2 => 6 + 3,
        }
    }

    /// Number of keys that have a display.
    #[verifier::when_used_as_spec(spec_display_key_count)]
    pub fn display_key_count(&self) -> (r: u8)
        ensures
            r == self.spec_display_key_count(),
    {
        match self {
            Kind::Akp03 | Kind::Akp03E | Kind::Akp03R | Kind::Akp03RRev2 => 6,
            _ => self.key_count(),
        }
    }

    /// Number of key rows.
    #[verifier::when_used_as_spec(spec_row_count)]
    pub fn row_count(&self) -> (r: u8)
        ensures
            r == self.spec_row_count(),
    {
        match self {
            Kind::Akp153 | Kind::Akp153E | Kind::Akp153R => 3,
            Kind::Akp815 => 5,
            Kind::Akp03 | Kind::Akp03E | Kind::Akp03R | Kind::Akp03RRev2 => 2,
        }
    }

    /// Number of key columns.
    #[verifier::when_used_as_spec(spec_column_count)]
    pub fn column_count(&self) -> (r: u8)
        ensures
            r == self.spec_column_count(),
    {
        match self {
            Kind::Akp153 | Kind::Akp153E | Kind::Akp153R => 6,
            Kind::Akp815 => 3,
            Kind::Akp03 | Kind::Akp03E | Kind::Akp03R | Kind::Akp03RRev2 => 3,
        }
    }

    /// Number of encoders (knobs).
    #[verifier::when_used_as_spec(spec_encoder_count)]
    pub fn encoder_count(&self) -> (r: u8)
        ensures
            r == self.spec_encoder_count(),
    {
        match self {
            Kind::Akp03 | Kind::Akp03E | Kind::Akp03R | Kind::Akp03RRev2 => 3,
            _ => 0,
        }
    }

    /// Size of the LCD strip as (width, height), if the device has one.
    #[verifier::when_used_as_spec(spec_lcd_strip_size)]
    pub fn lcd_strip_size(&self) -> (r: Option<(usize, usize)>)
        ensures
            r == self.spec_lcd_strip_size(),
    {
        match self {
            Kind::Akp153 | Kind::Akp153E | Kind::Akp153R => Some((854, 480)),
            Kind::Akp815 => Some((800, 480)),
            _ => None,
        }
    }

    /// Size of the boot logo as (width, height), if the device has one.
    #[verifier::when_used_as_spec(spec_boot_logo_size)]
    pub fn boot_logo_size(&self) -> (r: Option<(usize, usize)>)
        ensures
            r == self.spec_boot_logo_size(),
    {
        match self {
            Kind::Akp03 | Kind::Akp03E | Kind::Akp03R | Kind::Akp03RRev2 => Some((320, 240)),
            _ => self.lcd_strip_size(),
        }
    }

    /// Key layout as (rows, columns).
    pub fn key_layout(&self) -> (r: (u8, u8))
        ensures
            r == (self.spec_row_count(), self.spec_column_count()),
    {
        (self.row_count(), self.column_count())
    }

    /// Format of the full-screen (logo) image.
    #[verifier::when_used_as_spec(spec_logo_image_format)]
    pub fn logo_image_format(&self) -> (r: ImageFormat)
        ensures
            r == self.spec_logo_image_format(),
    {
        match self {
            Kind::Akp03 | Kind::Akp03E | Kind::Akp03R | Kind::Akp03RRev2 => ImageFormat {
                mode: ImageMode::JPEG,
                size: (240, 320),
                rotation: ImageRotation::Rot90,
                mirror: ImageMirroring::Unmirrored,
            },
            Kind::Akp153 | Kind::Akp153E | Kind::Akp153R => ImageFormat {
                mode: ImageMode::JPEG,
                size: (854, 480),
                rotation: ImageRotation::Rot0,
                mirror: ImageMirroring::Unmirrored,
            },
            Kind::Akp815 => ImageFormat {
                mode: ImageMode::JPEG,
                size: (800, 480),
                rotation: ImageRotation::Rot0,
                mirror: ImageMirroring::Unmirrored,
            },
        }
    }

    /// Format of a key image.
    #[verifier::when_used_as_spec(spec_key_image_format)]
    pub fn key_image_format(&self) -> (r: ImageFormat)
        ensures
            r == self.spec_key_image_format(),
    {
        match self {
            Kind::Akp153 | Kind::Akp153E | Kind::Akp153R => ImageFormat {
                mode: ImageMode::JPEG,
                size: (85, 85),
                rotation: ImageRotation::Rot90,
                mirror: ImageMirroring::Both,
            },
            Kind::Akp815 => ImageFormat {
                mode: ImageMode::JPEG,
                size: (100, 100),
                rotation: ImageRotation::Rot180,
                mirror: ImageMirroring::Unmirrored,
            },
            Kind::Akp03 | Kind::Akp03E | Kind::Akp03R => ImageFormat {
                mode: ImageMode::JPEG,
                size: (60, 60),
                rotation: ImageRotation::Rot0,
                mirror: ImageMirroring::Unmirrored,
            },
            Kind::Akp03RRev2 => ImageFormat {
                mode: ImageMode::JPEG,
                size: (64, 64),
                rotation: ImageRotation::Rot90,
                mirror: ImageMirroring::Unmirrored,
            },
        }
    }

    /// True for devices that use 512-byte reports.
    #[verifier::when_used_as_spec(spec_is_v1_api)]
    pub fn is_v1_api(&self) -> (r: bool)
        ensures
            r == self.spec_is_v1_api(),
    {
        matches!(self, Kind::Akp153 | Kind::Akp153E | Kind::Akp153R | Kind::Akp815)
    }

    /// True for devices that use 1024-byte reports.
    #[verifier::when_used_as_spec(spec_is_akp03)]
    pub fn is_v2_api(&self) -> (r: bool)
        ensures
            r == self.spec_is_akp03(),
    {
        self.is_akp03()
    }

    /// True for the Ajazz AKP03 family.
    #[verifier::when_used_as_spec(spec_is_akp03)]
    pub fn is_akp03(&self) -> (r: bool)
        ensures
            r == self.spec_is_akp03(),
    {
        matches!(self, Kind::Akp03 | Kind::Akp03E | Kind::Akp03R | Kind::Akp03RRev2)
    }
}

/// Every kind has at most as many display keys as keys, and its row and
/// column grid has room for all of its display keys.
pub proof fn lemma_display_keys_fit(k: Kind)
    ensures
        k.display_key_count() <= k.key_count(),
        k.row_count() * k.column_count() >= k.display_key_count(),
{
    if k.spec_is_akp153() {
        assert(3 * 6 >= 18);
    } else if k == Kind::Akp815 {
        assert(5 * 3 >= 15);
    } else {
        assert(2 * 3 >= 6);
    }
}

/// The row and column grid has room for all keys of a kind outside the
/// AKP03 family (whose three keys without a display lie outside the grid).
pub proof fn lemma_grid_holds_keys(k: Kind)
    requires
        !k.is_akp03(),
    ensures
        k.row_count() * k.column_count() >= k.key_count(),
{
    if k.spec_is_akp153() {
        assert(3 * 6 >= 18);
    } else {
        assert(5 * 3 >= 15);
    }
}

/// Exactly one of the two protocol generations applies to each kind.
pub proof fn lemma_one_generation(k: Kind)
    ensures
        k.is_v1_api() != k.is_v2_api(),
{
}

/// Looking up a kind's own (vendor, product) pair gives the kind back, and
/// its vendor is one that the library handles.
pub proof fn lemma_ids_round_trip(k: Kind)
    ensures
        Kind::spec_from_vid_pid(k.vendor_id(), k.product_id()) == Some(k),
        spec_is_mirabox_vendor(k.vendor_id()),
{
    lemma_ids_injective();
    assert(k.spec_ids() == (k.vendor_id(), k.product_id()));
}

/// No two kinds share a (vendor, product) pair.
pub proof fn lemma_ids_injective()
    ensures
        forall|a: Kind, b: Kind| #[trigger] a.spec_ids() == #[trigger] b.spec_ids() ==> a == b,
{
}

} // verus!
