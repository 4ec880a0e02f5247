//! Carrier and guard band frequencies of the VHS standards.

use crate::text::lower_is;
use vstd::prelude::*;

verus! {

/// A named range of frequencies, in hertz.
#[derive(Clone, Copy, Debug)]
pub struct Band {
    pub name: &'static str,
    pub f_start_hz: u32,
    pub f_stop_hz: u32,
}

/// A range of frequencies, in hertz.
#[derive(Clone, Copy, Debug, PartialEq, Eq, Structural)]
pub struct FreqSpan {
    pub f_start_hz: u32,
    pub f_stop_hz: u32,
}

/// Where a standard puts its carriers, and where to look for noise.
#[derive(Clone, Copy, Debug)]
pub struct RfPreset {
    pub name: &'static str,
    pub luma_sync_hz: u32,
    pub luma_white_hz: u32,
    pub chroma_carrier_hz: u32,
    pub luma_signal: Band,
    pub luma_sync_band: Band,
    pub luma_white_band: Band,
    pub luma_noise_low: Band,
    pub luma_noise_high: Band,
    pub chroma_signal: Band,
    pub chroma_noise_low: Band,
    pub chroma_noise_high: Band,
}

/// The standards that have a preset.
pub enum Standard {
    Ntsc,
    Pal,
    MPal,
    NPal,
}

/// The standard that a name stands for, its ASCII capitals made small.
pub open spec fn standard_of(name: Seq<char>) -> Option<Standard> {
    let s = crate::text::lower(name);
    if s == "ntsc"@ {
        Some(Standard::Ntsc)
    } else if s == "pal"@ || s == "secam"@ {
        Some(Standard::Pal)
    } else if s == "m-pal"@ || s == "mpal"@ {
        Some(Standard::MPal)
    } else if s == "n-pal"@ || s == "npal"@ {
        Some(Standard::NPal)
    } else {
        None
    }
}

impl Band {
    pub open spec fn is_range(&self) -> bool {
        self.f_start_hz <= self.f_stop_hz
    }

    pub open spec fn contains(&self, hz: u32) -> bool {
        self.f_start_hz <= hz <= self.f_stop_hz
    }

    pub open spec fn within(&self, other: Band) -> bool {
        other.f_start_hz <= self.f_start_hz && self.f_stop_hz <= other.f_stop_hz
    }

    pub open spec fn below(&self, other: Band) -> bool {
        self.f_stop_hz < other.f_start_hz
    }
}

impl RfPreset {
    /// The bands run upwards.
    pub open spec fn wf(&self) -> bool {
        &&& self.luma_signal.is_range()
        &&& self.luma_sync_band.is_range()
        &&& self.luma_white_band.is_range()
        &&& self.luma_noise_low.is_range()
        &&& self.luma_noise_high.is_range()
        &&& self.chroma_signal.is_range()
        &&& self.chroma_noise_low.is_range()
        &&& self.chroma_noise_high.is_range()
    }
}

/// The chroma bands, which the standards share, beside the figures in which they differ.
pub open spec fn with_chroma(
    name: &'static str,
    luma_sync_hz: u32,
    luma_white_hz: u32,
    chroma_carrier_hz: u32,
    luma_noise_low_hz: u32,
    luma_noise_high_hz: u32,
) -> RfPreset {
    RfPreset {
        name,
        luma_sync_hz,
        luma_white_hz,
        chroma_carrier_hz,
        luma_signal: Band {
            name: "luma_signal_band",
            f_start_hz: (luma_sync_hz - 100_000) as u32,
            f_stop_hz: (luma_white_hz + 100_000) as u32,
        },
        luma_sync_band: Band {
            name: "luma_sync_region",
            f_start_hz: (luma_sync_hz - 100_000) as u32,
            f_stop_hz: (luma_sync_hz + 100_000) as u32,
        },
        luma_white_band: Band {
            name: "luma_white_region",
            f_start_hz: (luma_white_hz - 100_000) as u32,
            f_stop_hz: (luma_white_hz + 100_000) as u32,
        },
        luma_noise_low: Band {
            name: "luma_noise_low",
            f_start_hz: luma_noise_low_hz,
            f_stop_hz: (luma_noise_low_hz + 500_000) as u32,
        },
        luma_noise_high: Band {
            name: "luma_noise_high",
            f_start_hz: luma_noise_high_hz,
            f_stop_hz: (luma_noise_high_hz + 1_000_000) as u32,
        },
        chroma_signal: Band { name: "chroma_carrier", f_start_hz: 60_000, f_stop_hz: 1_300_000 },
        chroma_noise_low: Band {
            name: "chroma_noise_low",
            f_start_hz: 225_000,
            f_stop_hz: 400_000,
        },
        chroma_noise_high: Band {
            name: "chroma_noise_high",
            f_start_hz: 950_000,
            f_stop_hz: 1_300_000,
        },
    }
}

/// The preset of a standard. The luma regions lie 100 kHz around the carriers of sync tip and
/// peak white.
pub open spec fn preset_of(standard: Standard) -> RfPreset {
    match standard {
        Standard::Ntsc => with_chroma(
            "NTSC",
            3_400_000,
            4_400_000,
            629_371,
            2_000_000,
            5_500_000,
        ),
        Standard::Pal => with_chroma(
            "PAL",
            3_800_000,
            4_800_000,
            625_953,
            2_500_000,
            6_000_000,
        ),
        Standard::MPal => with_chroma(
            "M-PAL",
            3_400_000,
            4_400_000,
            631_337,
            2_000_000,
            5_500_000,
        ),
        Standard::NPal => with_chroma(
            "N-PAL",
            3_800_000,
            4_800_000,
            626_953,
            2_500_000,
            6_000_000,
        ),
    }
}

/// What to tell of a standard that is not known.
pub open spec fn unknown_standard(standard: Seq<char>) -> Seq<char> {
    "unknown standard '"@ + standard + "', expected NTSC, PAL, M-PAL, or N-PAL"@
}

/// The preset of the standard that `standard` names.
pub fn rf_preset(standard: &str) -> (r: Result<RfPreset, String>)
    ensures
        match standard_of(standard@) {
            Some(known) => r matches Ok(preset) && preset == preset_of(known),
            None => r matches Err(message) && message@ == "unknown standard '"@ + standard@
                + "', expected NTSC, PAL, M-PAL, or N-PAL"@,
        },
        r matches Err(message) ==> message@ == unknown_standard(standard@),
        r matches Ok(preset) ==> preset.wf(),
{
    if lower_is(standard, "ntsc") {
        Ok(RfPreset {
            name: "NTSC",
            luma_sync_hz: 3_400_000,
            luma_white_hz: 4_400_000,
            chroma_carrier_hz: 629_371,
            luma_signal: Band {
                name: "luma_signal_band",
                f_start_hz: 3_300_000,
                f_stop_hz: 4_500_000,
            },
            luma_sync_band: Band {
                name: "luma_sync_region",
                f_start_hz: 3_300_000,
                f_stop_hz: 3_500_000,
            },
            luma_white_band: Band {
                name: "luma_white_region",
                f_start_hz: 4_300_000,
                f_stop_hz: 4_500_000,
            },
            luma_noise_low: Band {
                name: "luma_noise_low",
                f_start_hz: 2_000_000,
                f_stop_hz: 2_500_000,
            },
            luma_noise_high: Band {
                name: "luma_noise_high",
                f_start_hz: 5_500_000,
                f_stop_hz: 6_500_000,
            },
            chroma_signal: Band {
                name: "chroma_carrier",
                f_start_hz: 60_000,
                f_stop_hz: 1_300_000,
            },
            chroma_noise_low: Band {
                name: "chroma_noise_low",
                f_start_hz: 225_000,
                f_stop_hz: 400_000,
            },
            chroma_noise_high: Band {
                name: "chroma_noise_high",
                f_start_hz: 950_000,
                f_stop_hz: 1_300_000,
            },
        })
    } else if lower_is(standard, "pal") || lower_is(standard, "secam") {
        Ok(RfPreset {
            name: "PAL",
            luma_sync_hz: 3_800_000,
            luma_white_hz: 4_800_000,
            chroma_carrier_hz: 625_953,
            luma_signal: Band {
                name: "luma_signal_band",
                f_start_hz: 3_700_000,
                f_stop_hz: 4_900_000,
            },
            luma_sync_band: Band {
                name: "luma_sync_region",
                f_start_hz: 3_700_000,
                f_stop_hz: 3_900_000,
            },
            luma_white_band: Band {
                name: "luma_white_region",
                f_start_hz: 4_700_000,
                f_stop_hz: 4_900_000,
            },
            luma_noise_low: Band {
                name: "luma_noise_low",
                f_start_hz: 2_500_000,
                f_stop_hz: 3_000_000,
            },
            luma_noise_high: Band {
                name: "luma_noise_high",
                f_start_hz: 6_000_000,
                f_stop_hz: 7_000_000,
            },
            chroma_signal: Band {
                name: "chroma_carrier",
                f_start_hz: 60_000,
                f_stop_hz: 1_300_000,
            },
            chroma_noise_low: Band {
                name: "chroma_noise_low",
                f_start_hz: 225_000,
                f_stop_hz: 400_000,
            },
            chroma_noise_high: Band {
                name: "chroma_noise_high",
                f_start_hz: 950_000,
                f_stop_hz: 1_300_000,
            },
        })
    } else if lower_is(standard, "m-pal") || lower_is(standard, "mpal") {
        Ok(RfPreset {
            name: "M-PAL",
            luma_sync_hz: 3_400_000,
            luma_white_hz: 4_400_000,
            chroma_carrier_hz: 631_337,
            luma_signal: Band {
                name: "luma_signal_band",
                f_start_hz: 3_300_000,
                f_stop_hz: 4_500_000,
            },
            luma_sync_band: Band {
                name: "luma_sync_region",
                f_start_hz: 3_300_000,
                f_stop_hz: 3_500_000,
            },
            luma_white_band: Band {
                name: "luma_white_region",
                f_start_hz: 4_300_000,
                f_stop_hz: 4_500_000,
            },
            luma_noise_low: Band {
                name: "luma_noise_low",
                f_start_hz: 2_000_000,
                f_stop_hz: 2_500_000,
            },
            luma_noise_high: Band {
                name: "luma_noise_high",
                f_start_hz: 5_500_000,
                f_stop_hz: 6_500_000,
            },
            chroma_signal: Band {
                name: "chroma_carrier",
                f_start_hz: 60_000,
                f_stop_hz: 1_300_000,
            },
            chroma_noise_low: Band {
                name: "chroma_noise_low",
                f_start_hz: 225_000,
                f_stop_hz: 400_000,
            },
            chroma_noise_high: Band {
                name: "chroma_noise_high",
                f_start_hz: 950_000,
                f_stop_hz: 1_300_000,
            },
        })
    } else if lower_is(standard, "n-pal") || lower_is(standard, "npal") {
        Ok(RfPreset {
            name: "N-PAL",
            luma_sync_hz: 3_800_000,
            luma_white_hz: 4_800_000,
            chroma_carrier_hz: 626_953,
            luma_signal: Band {
                name: "luma_signal_band",
                f_start_hz: 3_700_000,
                f_stop_hz: 4_900_000,
            },
            luma_sync_band: Band {
                name: "luma_sync_region",
                f_start_hz: 3_700_000,
                f_stop_hz: 3_900_000,
            },
            luma_white_band: Band {
                name: "luma_white_region",
                f_start_hz: 4_700_000,
                f_stop_hz: 4_900_000,
            },
            luma_noise_low: Band {
                name: "luma_noise_low",
                f_start_hz: 2_500_000,
                f_stop_hz: 3_000_000,
            },
            luma_noise_high: Band {
                name: "luma_noise_high",
                f_start_hz: 6_000_000,
                f_stop_hz: 7_000_000,
            },
            chroma_signal: Band {
                name: "chroma_carrier",
                f_start_hz: 60_000,
                f_stop_hz: 1_300_000,
            },
            chroma_noise_low: Band {
                name: "chroma_noise_low",
                f_start_hz: 225_000,
                f_stop_hz: 400_000,
            },
            chroma_noise_high: Band {
                name: "chroma_noise_high",
                f_start_hz: 950_000,
                f_stop_hz: 1_300_000,
            },
        })
    } else {
        let mut message = "unknown standard '".to_owned();
        message.append(standard);
        message.append("', expected NTSC, PAL, M-PAL, or N-PAL");
        Err(message)
    }
}

/// Every preset puts the two luma carriers and the chroma carrier inside the regions in which
/// they are looked for, the luma regions inside the luma band, the luma guard bands on either
/// side of the luma band and above the chroma band, the luma band above the chroma band, and a
/// chroma guard band on either side of the chroma carrier.
pub proof fn law_preset_layout(standard: Standard)
    ensures
        ({
            let p = preset_of(standard);
            &&& p.wf()
            &&& p.luma_sync_band.contains(p.luma_sync_hz)
            &&& p.luma_white_band.contains(p.luma_white_hz)
            &&& p.chroma_signal.contains(p.chroma_carrier_hz)
            &&& p.luma_sync_band.within(p.luma_signal)
            &&& p.luma_white_band.within(p.luma_signal)
            &&& p.luma_sync_band.below(p.luma_white_band)
            &&& p.chroma_signal.below(p.luma_noise_low)
            &&& p.luma_noise_low.below(p.luma_signal)
            &&& p.luma_signal.below(p.luma_noise_high)
            &&& p.chroma_noise_low.within(p.chroma_signal)
            &&& p.chroma_noise_high.within(p.chroma_signal)
            &&& p.chroma_noise_low.f_stop_hz < p.chroma_carrier_hz < p.chroma_noise_high.f_start_hz
        }),
{
}

/// A standard is known by its name in capitals and small letters alike.
pub proof fn law_case_does_not_matter(name: Seq<char>)
    ensures
        standard_of(crate::text::lower(name)) == standard_of(name),
{
    assert(crate::text::lower(crate::text::lower(name)) =~= crate::text::lower(name));
}

/// What all standards share: the chroma bands, white a megahertz above sync, each looked for within
/// 100 kHz, the luma band reaching from the one region to the other, and guard bands of half a
/// megahertz below it and of one above it.
pub proof fn law_presets_share_their_shape(standard: Standard)
    ensures
        ({
            let p = preset_of(standard);
            let sync = p.luma_sync_hz as int;
            let white = p.luma_white_hz as int;
            &&& white == sync + 1_000_000
            &&& p.luma_sync_band.f_start_hz == sync - 100_000
            &&& p.luma_sync_band.f_stop_hz == sync + 100_000
            &&& p.luma_white_band.f_start_hz == white - 100_000
            &&& p.luma_white_band.f_stop_hz == white + 100_000
            &&& p.luma_signal.f_start_hz == sync - 100_000
            &&& p.luma_signal.f_stop_hz == white + 100_000
            &&& p.luma_noise_low.f_stop_hz == p.luma_noise_low.f_start_hz + 500_000
            &&& p.luma_noise_high.f_stop_hz == p.luma_noise_high.f_start_hz + 1_000_000
            &&& p.chroma_signal.f_start_hz == 60_000
            &&& p.chroma_signal.f_stop_hz == 1_300_000
            &&& p.chroma_noise_low.f_start_hz == 225_000
            &&& p.chroma_noise_low.f_stop_hz == 400_000
            &&& p.chroma_noise_high.f_start_hz == 950_000
            &&& p.chroma_noise_high.f_stop_hz == 1_300_000
        }),
{
}

/// What tells the standards apart: M-PAL has the luma frequencies of NTSC, N-PAL those of PAL, and
/// each has its own name and chroma carrier.
pub proof fn law_presets_differ_as_standards_do(standard: Standard)
    ensures
        ({
            let p = preset_of(standard);
            let wide = standard is Pal || standard is NPal;
            &&& p.luma_sync_hz == if wide {
                3_800_000int
            } else {
                3_400_000
            }
            &&& p.luma_noise_low.f_start_hz == if wide {
                2_500_000int
            } else {
                2_000_000
            }
            &&& p.luma_noise_high.f_start_hz == if wide {
                6_000_000int
            } else {
                5_500_000
            }
            &&& standard is Ntsc ==> p.name == "NTSC" && p.chroma_carrier_hz == 629_371
            &&& standard is Pal ==> p.name == "PAL" && p.chroma_carrier_hz == 625_953
            &&& standard is MPal ==> p.name == "M-PAL" && p.chroma_carrier_hz == 631_337
            &&& standard is NPal ==> p.name == "N-PAL" && p.chroma_carrier_hz == 626_953
        }),
{
}

/// The names by which the standards are known, in capitals or small letters, and no others.
pub proof fn law_standards_go_by_their_names(name: Seq<char>)
    ensures
        ({
            let s = crate::text::lower(name);
            &&& standard_of(name) == Some(Standard::Ntsc) <==> s == "ntsc"@
            &&& standard_of(name) == Some(Standard::Pal) <==> s == "pal"@ || s == "secam"@
            &&& standard_of(name) == Some(Standard::MPal) <==> s == "m-pal"@ || s == "mpal"@
            &&& standard_of(name) == Some(Standard::NPal) <==> s == "n-pal"@ || s == "npal"@
            &&& standard_of(name) is None <==> s != "ntsc"@ && s != "pal"@ && s != "secam"@ && s
                != "m-pal"@ && s != "mpal"@ && s != "n-pal"@ && s != "npal"@
        }),
{
    reveal_strlit("ntsc");
    reveal_strlit("pal");
    reveal_strlit("secam");
    reveal_strlit("m-pal");
    reveal_strlit("mpal");
    reveal_strlit("n-pal");
    reveal_strlit("npal");
    assert("ntsc"@[1] != "mpal"@[1] && "ntsc"@[1] != "npal"@[1] && "mpal"@[0] != "npal"@[0]);
    assert("secam"@[0] != "m-pal"@[0] && "secam"@[0] != "n-pal"@[0] && "m-pal"@[0] != "n-pal"@[0]);
}

/// A standard that is not known is told by its name as given, beside those that are.
pub proof fn law_unknown_standards_are_named(standard: Seq<char>)
    ensures
        unknown_standard(standard) == "unknown standard '"@ + standard
            + "', expected NTSC, PAL, M-PAL, or N-PAL"@,
{
}

/// The bands of every preset go by the same names.
pub proof fn law_bands_go_by_their_names(standard: Standard)
    ensures
        ({
            let p = preset_of(standard);
            &&& p.luma_signal.name == "luma_signal_band"
            &&& p.luma_sync_band.name == "luma_sync_region"
            &&& p.luma_white_band.name == "luma_white_region"
            &&& p.luma_noise_low.name == "luma_noise_low"
            &&& p.luma_noise_high.name == "luma_noise_high"
            &&& p.chroma_signal.name == "chroma_carrier"
            &&& p.chroma_noise_low.name == "chroma_noise_low"
            &&& p.chroma_noise_high.name == "chroma_noise_high"
        }),
{
}

} // verus!
