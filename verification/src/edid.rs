//! Minimal decoder for the EDID v1 base block (the fields a person
//! scanning the EDID popup wants: vendor, product, serial, size, gamma).

use vstd::prelude::*;
use crate::num::{dec, hex, pad_left, push_dec, push_dec_padded, push_hex_padded};
use crate::text::{push_char, push_str};

verus! {

broadcast use vstd::string::group_string_axioms;

/// A handful of decoded EDID fields. `None` means reserved or unknown.
#[derive(Debug, PartialEq, Eq)]
pub struct EdidInfo {
    pub manufacturer: Option<String>,
    pub product_code: Option<String>,
    pub serial: Option<String>,
    /// Physical width in centimetres (0 if unspecified).
    pub width_cm: u8,
    /// Physical height in centimetres (0 if unspecified).
    pub height_cm: u8,
    /// EDID version: `(version, revision)`.
    pub version: Option<(u8, u8)>,
    /// Raw gamma byte: gamma * 100 - 100.
    pub gamma: Option<u8>,
}

pub struct EdidInfoView {
    pub manufacturer: Option<Seq<char>>,
    pub product_code: Option<Seq<char>>,
    pub serial: Option<Seq<char>>,
    pub width_cm: u8,
    pub height_cm: u8,
    pub version: Option<(u8, u8)>,
    pub gamma: Option<u8>,
}

pub open spec fn opt_str(o: Option<String>) -> Option<Seq<char>> {
    match o {
        Some(s) => Some(s@),
        None => None,
    }
}

impl View for EdidInfo {
    type V = EdidInfoView;

    open spec fn view(&self) -> EdidInfoView {
        EdidInfoView {
            manufacturer: opt_str(self.manufacturer),
            product_code: opt_str(self.product_code),
            serial: opt_str(self.serial),
            width_cm: self.width_cm,
            height_cm: self.height_cm,
            version: self.version,
            gamma: self.gamma,
        }
    }
}

impl Clone for EdidInfo {
    fn clone(&self) -> (r: Self)
        ensures
            r@ == self@,
    {
        EdidInfo {
            manufacturer: match &self.manufacturer {
                Some(s) => Some(s.clone()),
                None => None,
            },
            product_code: match &self.product_code {
                Some(s) => Some(s.clone()),
                None => None,
            },
            serial: match &self.serial {
                Some(s) => Some(s.clone()),
                None => None,
            },
            width_cm: self.width_cm,
            height_cm: self.height_cm,
            version: self.version,
            gamma: self.gamma,
        }
    }
}

impl Default for EdidInfo {
    fn default() -> (e: Self)
        ensures
            e@ == (EdidInfoView {
                manufacturer: None,
                product_code: None,
                serial: None,
                width_cm: 0,
                height_cm: 0,
                version: None,
                gamma: None,
            }),
    {
        EdidInfo {
            manufacturer: None,
            product_code: None,
            serial: None,
            width_cm: 0,
            height_cm: 0,
            version: None,
            gamma: None,
        }
    }
}

/// The fixed 8-byte header of an EDID base block.
pub open spec fn edid_header() -> Seq<u8> {
    seq![0x00u8, 0xff, 0xff, 0xff, 0xff, 0xff, 0xff, 0x00]
}

/// A 5-bit letter code: 1 is `A`, 26 is `Z`, anything else `?`.
pub open spec fn vendor_letter(c: nat) -> char {
    if 1 <= c <= 26 {
        (c + 64) as char
    } else {
        '?'
    }
}

/// The three-letter vendor ID packed big-endian into two bytes, five bits
/// per letter; `???` when fewer than two bytes are given.
pub open spec fn manufacturer_spec(b: Seq<u8>) -> Seq<char> {
    if b.len() < 2 {
        "???"@
    } else {
        let hi = b[0] as nat;
        let lo = b[1] as nat;
        seq![
            vendor_letter((hi / 4) % 32),
            vendor_letter((hi % 4) * 8 + (lo / 32) % 8),
            vendor_letter(lo % 32),
        ]
    }
}

fn vendor_letter_exec(c: u8) -> (ch: char)
    ensures
        ch == vendor_letter(c as nat),
{
    if 1 <= c && c <= 26 {
        (c + 64) as char
    } else {
        '?'
    }
}

/// Three-letter vendor ID packed into two bytes.
pub fn decode_manufacturer(b: &[u8]) -> (s: String)
    ensures
        s@ == manufacturer_spec(b@),
{
    if b.len() < 2 {
        return String::from_str("???");
    }
    let hi = b[0];
    let lo = b[1];
    let mut s = String::new();
    push_char(&mut s, vendor_letter_exec((hi / 4) % 32));
    push_char(&mut s, vendor_letter_exec((hi % 4) * 8 + (lo / 32) % 8));
    push_char(&mut s, vendor_letter_exec(lo % 32));
    assert(s@ =~= manufacturer_spec(b@));
    s
}

/// The fields `EdidInfo::parse` reads from a base block that starts with
/// the EDID header and holds at least 128 bytes.
pub open spec fn edid_parse_spec(b: Seq<u8>) -> Option<EdidInfoView> {
    if b.len() < 128 || b.take(8) != edid_header() {
        None
    } else {
        let product = b[10] as nat + 256 * (b[11] as nat);
        let serial = b[12] as nat + 256 * (b[13] as nat) + 65536 * (b[14] as nat) + 16777216 * (
        b[15] as nat);
        Some(
            EdidInfoView {
                manufacturer: Some(manufacturer_spec(b.subrange(8, 10))),
                product_code: Some("0x"@ + pad_left(hex(product), '0', 4)),
                serial: if serial != 0 {
                    Some(dec(serial))
                } else {
                    None
                },
                width_cm: if b[23] != 0xff {
                    b[21]
                } else {
                    0
                },
                height_cm: if b[23] != 0xff {
                    b[22]
                } else {
                    0
                },
                version: Some((b[18], b[19])),
                gamma: if b[24] != 0xff {
                    Some(b[24])
                } else {
                    None
                },
            },
        )
    }
}

/// A length in centimetres as inches rounded to one decimal.
pub open spec fn inches_1dp(cm: nat) -> Seq<char> {
    let t = (cm * 2000 + 254) / 508;
    dec(t / 10) + seq!['.'] + dec(t % 10)
}

/// The gamma byte as `(g + 100) / 100` with two decimals.
pub open spec fn gamma_2dp(g: nat) -> Seq<char> {
    let v = g + 100;
    dec(v / 100) + seq!['.'] + pad_left(dec(v % 100), '0', 2)
}

pub open spec fn opt_line(b: bool, l: Seq<char>) -> Seq<Seq<char>> {
    if b {
        seq![l]
    } else {
        Seq::empty()
    }
}

/// The popup lines: version, manufacturer, product code, serial, physical
/// size (when either dimension is non-zero) and gamma, each when known.
pub open spec fn summary_spec(e: EdidInfoView) -> Seq<Seq<char>> {
    (match e.version {
        Some((v, r)) => seq!["EDID version:        "@ + dec(v as nat) + seq!['.'] + dec(r as nat)],
        None => Seq::empty(),
    }) + (match e.manufacturer {
        Some(m) => seq!["Manufacturer:        "@ + m],
        None => Seq::empty(),
    }) + (match e.product_code {
        Some(p) => seq!["Product code:        "@ + p],
        None => Seq::empty(),
    }) + (match e.serial {
        Some(s) => seq!["Serial number:       "@ + s],
        None => Seq::empty(),
    }) + opt_line(
        e.width_cm > 0 || e.height_cm > 0,
        "Physical size:       "@ + dec(e.width_cm as nat) + " x "@ + dec(e.height_cm as nat)
            + " cm  ("@ + inches_1dp(e.width_cm as nat) + "\" x "@ + inches_1dp(
            e.height_cm as nat,
        ) + "\")"@,
    ) + (match e.gamma {
        Some(g) => seq!["Gamma:               "@ + gamma_2dp(g as nat)],
        None => Seq::empty(),
    })
}

fn push_inches(s: &mut String, cm: u8)
    ensures
        final(s)@ == old(s)@ + inches_1dp(cm as nat),
{
    let t: u64 = (cm as u64 * 2000 + 254) / 508;
    push_dec(s, t / 10);
    push_char(s, '.');
    push_dec(s, t % 10);
    assert(s@ =~= old(s)@ + inches_1dp(cm as nat));
}

impl EdidInfo {
    /// Parse `bytes` as an EDID v1 base block. Returns `None` if the input
    /// is obviously not an EDID (too short or wrong header).
    pub fn parse(bytes: &[u8]) -> (r: Option<Self>)
        ensures
            match edid_parse_spec(bytes@) {
                Some(e) => r matches Some(info) && info@ == e,
                None => r is None,
            },
    {
        if bytes.len() < 128 {
            return None;
        }
        let header: [u8; 8] = [0x00, 0xff, 0xff, 0xff, 0xff, 0xff, 0xff, 0x00];
        let mut i: usize = 0;
        while i < 8
            invariant
                i <= 8,
                bytes@.len() >= 128,
                header@ == edid_header(),
                forall|k: int| 0 <= k < i ==> bytes@[k] == header@[k],
            decreases 8 - i,
        {
            if bytes[i] != header[i] {
                assert(bytes@.take(8)[i as int] != edid_header()[i as int]);
                return None;
            }
            i += 1;
        }
        assert(bytes@.take(8) =~= edid_header());
        let mut out = EdidInfo::default();
        let vendor = [bytes[8], bytes[9]];
        assert(vendor@ =~= bytes@.subrange(8, 10));
        out.manufacturer = Some(decode_manufacturer(&vendor));
        let product: u64 = bytes[10] as u64 + 256 * (bytes[11] as u64);
        let mut pc = String::from_str("0x");
        push_hex_padded(&mut pc, product, 4);
        out.product_code = Some(pc);
        let serial: u64 = bytes[12] as u64 + 256 * (bytes[13] as u64) + 65536 * (bytes[14] as u64)
            + 16777216 * (bytes[15] as u64);
        if serial != 0 {
            let mut sv = String::new();
            push_dec(&mut sv, serial);
            assert(sv@ =~= dec(serial as nat));
            out.serial = Some(sv);
        }
        out.version = Some((bytes[18], bytes[19]));
        if bytes[23] != 0xff {
            out.width_cm = bytes[21];
            out.height_cm = bytes[22];
        }
        if bytes[24] != 0xff {
            out.gamma = Some(bytes[24]);
        }
        Some(out)
    }

    /// Format as a few human-readable lines (used by the EDID popup).
    pub fn summary_lines(&self) -> (lines: Vec<String>)
        ensures
            crate::text::strs_view(lines@) == summary_spec(self@),
    {
        let mut out: Vec<String> = Vec::new();
        let ghost e = self@;
        if let Some((v, r)) = self.version {
            let mut l = String::from_str("EDID version:        ");
            push_dec(&mut l, v as u64);
            push_char(&mut l, '.');
            push_dec(&mut l, r as u64);
            assert(l@ =~= "EDID version:        "@ + dec(v as nat) + seq!['.'] + dec(r as nat));
            crate::text::push_arg(&mut out, l);
        }
        if let Some(m) = &self.manufacturer {
            let mut l = String::from_str("Manufacturer:        ");
            push_str(&mut l, m.as_str());
            crate::text::push_arg(&mut out, l);
        }
        if let Some(p) = &self.product_code {
            let mut l = String::from_str("Product code:        ");
            push_str(&mut l, p.as_str());
            crate::text::push_arg(&mut out, l);
        }
        if let Some(s) = &self.serial {
            let mut l = String::from_str("Serial number:       ");
            push_str(&mut l, s.as_str());
            crate::text::push_arg(&mut out, l);
        }
        let ghost mid = crate::text::strs_view(out@);
        assert(mid =~= (match e.version {
            Some((v, r)) => seq!["EDID version:        "@ + dec(v as nat) + seq!['.'] + dec(r as nat)],
            None => Seq::empty(),
        }) + (match e.manufacturer {
            Some(m) => seq!["Manufacturer:        "@ + m],
            None => Seq::empty(),
        }) + (match e.product_code {
            Some(p) => seq!["Product code:        "@ + p],
            None => Seq::empty(),
        }) + (match e.serial {
            Some(s) => seq!["Serial number:       "@ + s],
            None => Seq::empty(),
        }));
        if self.width_cm > 0 || self.height_cm > 0 {
            let mut l = String::from_str("Physical size:       ");
            push_dec(&mut l, self.width_cm as u64);
            push_str(&mut l, " x ");
            push_dec(&mut l, self.height_cm as u64);
            push_str(&mut l, " cm  (");
            push_inches(&mut l, self.width_cm);
            push_str(&mut l, "\" x ");
            push_inches(&mut l, self.height_cm);
            push_str(&mut l, "\")");
            assert(l@ =~= "Physical size:       "@ + dec(e.width_cm as nat) + " x "@ + dec(
                e.height_cm as nat,
            ) + " cm  ("@ + inches_1dp(e.width_cm as nat) + "\" x "@ + inches_1dp(e.height_cm as nat)
                + "\")"@);
            crate::text::push_arg(&mut out, l);
        }
        if let Some(g) = self.gamma {
            let mut l = String::from_str("Gamma:               ");
            let v: u64 = g as u64 + 100;
            push_dec(&mut l, v / 100);
            push_char(&mut l, '.');
            push_dec_padded(&mut l, v % 100, 2);
            assert(l@ =~= "Gamma:               "@ + gamma_2dp(g as nat));
            crate::text::push_arg(&mut out, l);
        }
        assert(crate::text::strs_view(out@) =~= summary_spec(e));
        out
    }
}

/// Every EDID that parses is summarised starting with its version line,
/// and names its manufacturer and product code.
pub proof fn law_summary_starts_with_version(b: Seq<u8>)
    requires
        edid_parse_spec(b) is Some,
    ensures
        summary_spec(edid_parse_spec(b)->0).len() >= 3,
        summary_spec(edid_parse_spec(b)->0)[0] == "EDID version:        "@ + dec(b[18] as nat) + seq!['.'] + dec(
            b[19] as nat,
        ),
        summary_spec(edid_parse_spec(b)->0)[1] == "Manufacturer:        "@ + manufacturer_spec(b.subrange(8, 10)),
        summary_spec(edid_parse_spec(b)->0)[2] == "Product code:        "@ + "0x"@ + pad_left(
            hex(b[10] as nat + 256 * (b[11] as nat)),
            '0',
            4,
        ),
{
}

/// A length in centimetres is shown in inches as `cm / 2.54` to one
/// decimal: the text is the digits of some `t` with a point before the
/// last, where `t / 10` is the nearest tenth to `cm / 2.54` (within half a
/// tenth, with no tie possible).
pub proof fn law_inches_nearest_tenth(cm: nat)
    ensures
        exists|t: nat|
            inches_1dp(cm) == #[trigger] dec(t / 10) + seq!['.'] + dec(t % 10) && -127 < 254 * t - 1000
                * cm <= 127,
{
    let t = (cm * 2000 + 254) / 508;
    assert(508 * t <= cm * 2000 + 254 < 508 * t + 508) by (nonlinear_arith)
        requires
            t == (cm * 2000 + 254) / 508,
    ;
    assert(inches_1dp(cm) == dec(t / 10) + seq!['.'] + dec(t % 10));
}

} // verus!
