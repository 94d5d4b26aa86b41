//! The conventional dial frequencies of the digital modes.

use vstd::prelude::*;

use crate::double::{mhz, mhz_text, WHOLE_END};
use crate::ink::Ink;
use crate::mode::Mode;
use crate::text::cat;

verus! {

/// One conventional frequency: the label of its button and the dial in hertz.
#[derive(Clone, Copy, Debug)]
pub struct Dial {
    pub label: &'static str,
    pub hz: u64,
}

/// The labels and frequencies of a list of dials.
pub open spec fn dial_views(v: Seq<Dial>) -> Seq<(Seq<char>, u64)> {
    Seq::new(v.len(), |i: int| (v[i].label@, v[i].hz))
}

/// The conventional dials of a mode, in the order their buttons stand.
pub open spec fn dials_of(mode: Mode) -> Seq<(Seq<char>, u64)> {
    match mode {
        // Conventional dials; signals sit in the 3 kHz above each.
        Mode::Js8 => seq![
            ("160m"@, 1_842_000),
            ("80m"@, 3_578_000),
            ("40m"@, 7_078_000),
            ("30m"@, 10_130_000),
            ("20m"@, 14_078_000),
            ("17m"@, 18_104_000),
            ("15m"@, 21_078_000),
            ("12m"@, 24_922_000),
            ("10m"@, 28_078_000),
        ],
        // Activity centres; signals sit about 1 kHz above.
        Mode::Psk => seq![
            ("80m"@, 3_580_000),
            ("40m"@, 7_040_000),
            ("30m"@, 10_142_000),
            ("20m"@, 14_070_000),
            ("17m"@, 18_097_000),
            ("15m"@, 21_070_000),
            ("12m"@, 24_920_000),
            ("10m"@, 28_120_000),
        ],
        // Sub-band starts.
        Mode::Rtty => seq![
            ("80m"@, 3_580_000),
            ("40m"@, 7_040_000),
            ("30m"@, 10_140_000),
            ("20m"@, 14_080_000),
            ("17m"@, 18_100_000),
            ("15m"@, 21_080_000),
            ("12m"@, 24_920_000),
            ("10m"@, 28_080_000),
        ],
        Mode::Ft4 => seq![
            ("80m"@, 3_575_000),
            ("40m"@, 7_047_500),
            ("30m"@, 10_140_000),
            ("20m"@, 14_080_000),
            ("17m"@, 18_104_000),
            ("15m"@, 21_140_000),
            ("12m"@, 24_919_000),
            ("10m"@, 28_180_000),
        ],
        // One entry per contest band.
        Mode::Ft2 => seq![
            ("80m"@, 3_578_000),
            ("40m"@, 7_062_000),
            ("30m"@, 10_144_000),
            ("20m"@, 14_084_000),
            ("17m"@, 18_108_000),
            ("15m"@, 21_144_000),
            ("12m"@, 24_923_000),
            ("10m"@, 28_184_000),
        ],
        // FreeDV calling frequencies; 2 m has none published, 144.200 is where
        // the activity gathers.
        Mode::Rade => seq![
            ("80m"@, 3_625_000),
            ("40m"@, 7_177_000),
            ("20m"@, 14_236_000),
            ("15m"@, 21_313_000),
            ("10m"@, 28_330_000),
            ("2m"@, 144_200_000),
        ],
        // Calling frequencies of the upper-sideband mode, not the FM channels.
        Mode::Sstv => seq![
            ("80m"@, 3_730_000),
            ("40m"@, 7_171_000),
            ("20m"@, 14_230_000),
            ("15m"@, 21_340_000),
            ("10m"@, 28_680_000),
            ("2m"@, 144_500_000),
            ("70cm"@, 432_500_000),
        ],
        // The image channels where the picture rides an FM carrier.
        Mode::SstvFm => seq![
            ("6m"@, 50_510_000),
            ("2m"@, 144_500_000),
            ("70cm"@, 433_400_000),
        ],
        // FM calling channels: somewhere to start from.
        Mode::RttyFm => seq![
            ("6m"@, 50_150_000),
            ("2m"@, 145_500_000),
            ("70cm"@, 433_500_000),
        ],
        // Dials 1700 Hz below the assigned frequency that names each.
        Mode::Navtex => seq![
            ("518"@, 516_300),
            ("490"@, 488_300),
            ("4209.5"@, 4_207_800),
        ],
        Mode::Olivia => seq![
            ("80m"@, 3_581_000),
            ("40m"@, 7_073_000),
            ("30m"@, 10_142_000),
            ("20m"@, 14_076_000),
            ("17m"@, 18_103_000),
            ("15m"@, 21_076_000),
            ("10m"@, 28_076_000),
        ],
        Mode::Thor => seq![
            ("80m"@, 3_580_000),
            ("40m"@, 7_070_000),
            ("30m"@, 10_147_000),
            ("20m"@, 14_073_000),
            ("17m"@, 18_103_000),
            ("15m"@, 21_073_000),
            ("10m"@, 28_073_000),
        ],
        Mode::Fsq => seq![
            ("80m"@, 3_575_000),
            ("40m"@, 7_105_000),
            ("30m"@, 10_144_000),
            ("20m"@, 14_105_000),
            ("17m"@, 18_104_000),
            ("15m"@, 21_105_000),
            ("10m"@, 28_105_000),
        ],
        // 15 m and 10 m use the range starts, clear of FT8.
        Mode::Hell => seq![
            ("160m"@, 1_840_000),
            ("80m"@, 3_574_000),
            ("60m"@, 5_351_500),
            ("40m"@, 7_040_000),
            ("30m"@, 10_144_000),
            ("20m"@, 14_073_000),
            ("17m"@, 18_104_000),
            ("15m"@, 21_063_000),
            ("12m"@, 24_924_000),
            ("10m"@, 28_063_000),
            ("6m"@, 50_286_000),
        ],
        // No calling frequency.
        Mode::RfPaint => seq![],
        // The dial is the centre of the signal here.
        Mode::Rifp => seq![
            ("10m"@, 29_600_000),
            ("6m"@, 51_250_000),
            ("2m"@, 144_700_000),
            ("70cm"@, 433_920_000),
        ],
        // FT8, and every mode without a list of its own.
        _ => seq![
            ("160m"@, 1_840_000),
            ("80m"@, 3_573_000),
            ("40m"@, 7_074_000),
            ("30m"@, 10_136_000),
            ("20m"@, 14_074_000),
            ("17m"@, 18_100_000),
            ("15m"@, 21_074_000),
            ("12m"@, 24_915_000),
            ("10m"@, 28_074_000),
            ("6m"@, 50_313_000),
            ("4m"@, 70_174_000),
            ("2m"@, 144_174_000),
            ("70cm"@, 432_174_000),
        ],
    }
}

fn put(v: &mut Vec<Dial>, label: &'static str, hz: u64)
    ensures
        dial_views(final(v)@) == dial_views(old(v)@).push((label@, hz)),
{
    v.push(Dial { label, hz });
    assert(dial_views(v@) =~= dial_views(old(v)@).push((label@, hz)));
}

/// The conventional dials of a mode.
pub fn digi_dial_freqs(mode: Mode) -> (v: Vec<Dial>)
    ensures
        dial_views(v@) == dials_of(mode),
{
    let mut v: Vec<Dial> = Vec::new();
    assert(dial_views(v@) =~= seq![]);
    match mode {
        Mode::Js8 => {
            put(&mut v, "160m", 1_842_000);
            put(&mut v, "80m", 3_578_000);
            put(&mut v, "40m", 7_078_000);
            put(&mut v, "30m", 10_130_000);
            put(&mut v, "20m", 14_078_000);
            put(&mut v, "17m", 18_104_000);
            put(&mut v, "15m", 21_078_000);
            put(&mut v, "12m", 24_922_000);
            put(&mut v, "10m", 28_078_000);
        },
        Mode::Psk => {
            put(&mut v, "80m", 3_580_000);
            put(&mut v, "40m", 7_040_000);
            put(&mut v, "30m", 10_142_000);
            put(&mut v, "20m", 14_070_000);
            put(&mut v, "17m", 18_097_000);
            put(&mut v, "15m", 21_070_000);
            put(&mut v, "12m", 24_920_000);
            put(&mut v, "10m", 28_120_000);
        },
        Mode::Rtty => {
            put(&mut v, "80m", 3_580_000);
            put(&mut v, "40m", 7_040_000);
            put(&mut v, "30m", 10_140_000);
            put(&mut v, "20m", 14_080_000);
            put(&mut v, "17m", 18_100_000);
            put(&mut v, "15m", 21_080_000);
            put(&mut v, "12m", 24_920_000);
            put(&mut v, "10m", 28_080_000);
        },
        Mode::Ft4 => {
            put(&mut v, "80m", 3_575_000);
            put(&mut v, "40m", 7_047_500);
            put(&mut v, "30m", 10_140_000);
            put(&mut v, "20m", 14_080_000);
            put(&mut v, "17m", 18_104_000);
            put(&mut v, "15m", 21_140_000);
            put(&mut v, "12m", 24_919_000);
            put(&mut v, "10m", 28_180_000);
        },
        Mode::Ft2 => {
            put(&mut v, "80m", 3_578_000);
            put(&mut v, "40m", 7_062_000);
            put(&mut v, "30m", 10_144_000);
            put(&mut v, "20m", 14_084_000);
            put(&mut v, "17m", 18_108_000);
            put(&mut v, "15m", 21_144_000);
            put(&mut v, "12m", 24_923_000);
            put(&mut v, "10m", 28_184_000);
        },
        Mode::Rade => {
            put(&mut v, "80m", 3_625_000);
            put(&mut v, "40m", 7_177_000);
            put(&mut v, "20m", 14_236_000);
            put(&mut v, "15m", 21_313_000);
            put(&mut v, "10m", 28_330_000);
            put(&mut v, "2m", 144_200_000);
        },
        Mode::Sstv => {
            put(&mut v, "80m", 3_730_000);
            put(&mut v, "40m", 7_171_000);
            put(&mut v, "20m", 14_230_000);
            put(&mut v, "15m", 21_340_000);
            put(&mut v, "10m", 28_680_000);
            put(&mut v, "2m", 144_500_000);
            put(&mut v, "70cm", 432_500_000);
        },
        Mode::SstvFm => {
            put(&mut v, "6m", 50_510_000);
            put(&mut v, "2m", 144_500_000);
            put(&mut v, "70cm", 433_400_000);
        },
        Mode::RttyFm => {
            put(&mut v, "6m", 50_150_000);
            put(&mut v, "2m", 145_500_000);
            put(&mut v, "70cm", 433_500_000);
        },
        Mode::Navtex => {
            put(&mut v, "518", 516_300);
            put(&mut v, "490", 488_300);
            put(&mut v, "4209.5", 4_207_800);
        },
        Mode::Olivia => {
            put(&mut v, "80m", 3_581_000);
            put(&mut v, "40m", 7_073_000);
            put(&mut v, "30m", 10_142_000);
            put(&mut v, "20m", 14_076_000);
            put(&mut v, "17m", 18_103_000);
            put(&mut v, "15m", 21_076_000);
            put(&mut v, "10m", 28_076_000);
        },
        Mode::Thor => {
            put(&mut v, "80m", 3_580_000);
            put(&mut v, "40m", 7_070_000);
            put(&mut v, "30m", 10_147_000);
            put(&mut v, "20m", 14_073_000);
            put(&mut v, "17m", 18_103_000);
            put(&mut v, "15m", 21_073_000);
            put(&mut v, "10m", 28_073_000);
        },
        Mode::Fsq => {
            put(&mut v, "80m", 3_575_000);
            put(&mut v, "40m", 7_105_000);
            put(&mut v, "30m", 10_144_000);
            put(&mut v, "20m", 14_105_000);
            put(&mut v, "17m", 18_104_000);
            put(&mut v, "15m", 21_105_000);
            put(&mut v, "10m", 28_105_000);
        },
        Mode::Hell => {
            put(&mut v, "160m", 1_840_000);
            put(&mut v, "80m", 3_574_000);
            put(&mut v, "60m", 5_351_500);
            put(&mut v, "40m", 7_040_000);
            put(&mut v, "30m", 10_144_000);
            put(&mut v, "20m", 14_073_000);
            put(&mut v, "17m", 18_104_000);
            put(&mut v, "15m", 21_063_000);
            put(&mut v, "12m", 24_924_000);
            put(&mut v, "10m", 28_063_000);
            put(&mut v, "6m", 50_286_000);
        },
        Mode::RfPaint => {
        },
        Mode::Rifp => {
            put(&mut v, "10m", 29_600_000);
            put(&mut v, "6m", 51_250_000);
            put(&mut v, "2m", 144_700_000);
            put(&mut v, "70cm", 433_920_000);
        },
        _ => {
            put(&mut v, "160m", 1_840_000);
            put(&mut v, "80m", 3_573_000);
            put(&mut v, "40m", 7_074_000);
            put(&mut v, "30m", 10_136_000);
            put(&mut v, "20m", 14_074_000);
            put(&mut v, "17m", 18_100_000);
            put(&mut v, "15m", 21_074_000);
            put(&mut v, "12m", 24_915_000);
            put(&mut v, "10m", 28_074_000);
            put(&mut v, "6m", 50_313_000);
            put(&mut v, "4m", 70_174_000);
            put(&mut v, "2m", 144_174_000);
            put(&mut v, "70cm", 432_174_000);
        },
    }
    assert(dial_views(v@) =~= dials_of(mode));
    v
}

/// A frequency of the station's band plan.
#[derive(Debug)]
pub struct Channel {
    pub dial_hz: u64,
    /// What it is kept for; empty for the plain calling frequency.
    pub note: String,
    /// The place of its band in the list of bands.
    pub band: u8,
    /// The region's band plan does not put narrow data on it.
    pub off_segment: bool,
}

/// True when `i` is the first plain calling frequency of a list.
pub open spec fn first_plain(shared: Seq<Channel>, i: int) -> bool {
    0 <= i < shared.len() && shared[i].note@.len() == 0 && forall|j: int|
        0 <= j < i ==> (#[trigger] shared[j]).note@.len() > 0
}

/// True when `i` is the first dial within the edges of a band.
pub open spec fn first_within(dials: Seq<(Seq<char>, u64)>, lo: u64, hi: u64, i: int) -> bool {
    0 <= i < dials.len() && lo <= dials[i].1 <= hi && forall|j: int|
        0 <= j < i ==> !(lo <= (#[trigger] dials[j]).1 <= hi)
}

fn first_dial_within(mode: Mode, lo: u64, hi: u64) -> (r: Option<u64>)
    ensures
        match r {
            Some(hz) => exists|i: int| #[trigger]
                first_within(dials_of(mode), lo, hi, i) && hz == dials_of(mode)[i].1,
            None => forall|i: int|
                0 <= i < dials_of(mode).len() ==> !(lo <= (#[trigger] dials_of(mode)[i]).1 <= hi),
        },
{
    let v = digi_dial_freqs(mode);
    let ghost d = dials_of(mode);
    let mut i: usize = 0;
    while i < v.len()
        invariant
            i <= v@.len(),
            d == dials_of(mode),
            dial_views(v@) == d,
            forall|j: int| 0 <= j < i ==> !(lo <= (#[trigger] d[j]).1 <= hi),
        decreases v@.len() - i,
    {
        assert(d[i as int].1 == v@[i as int].hz);
        if lo <= v[i].hz && v[i].hz <= hi {
            assert(first_within(d, lo, hi, i as int));
            return Some(v[i].hz);
        }
        i = i + 1;
    }
    None
}

/// The standard dial for a band. The station's own plan wins where it has an
/// answer: its plain calling frequency, or its first where every one of them
/// is kept for something. Otherwise the mode's first dial within the band's
/// edges.
pub fn digi_freq_for_band(
    mode: Mode,
    shared: &Vec<Channel>,
    edges: Option<(u64, u64)>,
) -> (r: Option<u64>)
    ensures
        shared@.len() > 0 ==> match r {
            Some(hz) => if exists|i: int| first_plain(shared@, i) {
                exists|i: int| #[trigger] first_plain(shared@, i) && hz == shared@[i].dial_hz
            } else {
                hz == shared@[0].dial_hz
            },
            None => false,
        },
        shared@.len() == 0 ==> match (edges, r) {
            (Some((lo, hi)), Some(hz)) => exists|i: int| #[trigger]
                first_within(dials_of(mode), lo, hi, i) && hz == dials_of(mode)[i].1,
            (Some((lo, hi)), None) => forall|i: int|
                0 <= i < dials_of(mode).len() ==> !(lo <= (#[trigger] dials_of(mode)[i]).1 <= hi),
            (None, r) => r is None,
        },
{
    if shared.len() > 0 {
        let mut i: usize = 0;
        while i < shared.len()
            invariant
                i <= shared@.len(),
                forall|j: int| 0 <= j < i ==> (#[trigger] shared@[j]).note@.len() > 0,
            decreases shared@.len() - i,
        {
            if shared[i].note.as_str().is_empty() {
                assert(first_plain(shared@, i as int));
                return Some(shared[i].dial_hz);
            }
            i = i + 1;
        }
        return Some(shared[0].dial_hz);
    }
    match edges {
        Some((lo, hi)) => first_dial_within(mode, lo, hi),
        None => None,
    }
}

/// The channels of one band, by their places in the list they came from.
#[derive(Debug)]
pub struct BandGroup {
    pub band: u8,
    pub channels: Vec<usize>,
}

/// The places of the channels of `band`, in order.
pub open spec fn places(channels: Seq<Channel>, band: u8) -> Seq<usize>
    decreases channels.len(),
{
    if channels.len() == 0 {
        Seq::empty()
    } else if channels.last().band == band {
        places(channels.drop_last(), band).push((channels.len() - 1) as usize)
    } else {
        places(channels.drop_last(), band)
    }
}

/// The bands that occur, in order of first occurrence.
pub open spec fn bands_of(channels: Seq<Channel>) -> Seq<u8>
    decreases channels.len(),
{
    if channels.len() == 0 {
        Seq::empty()
    } else {
        let rest = bands_of(channels.drop_last());
        if rest.contains(channels.last().band) {
            rest
        } else {
            rest.push(channels.last().band)
        }
    }
}

/// The bands in the order the picker shows them: the band the dial is in leads,
/// and the others follow as they occur.
pub open spec fn picker_bands(channels: Seq<Channel>, here: u8) -> Seq<u8> {
    let b = bands_of(channels);
    if b.contains(here) {
        b.remove(b.index_of(here)).insert(0, here)
    } else {
        b
    }
}

spec fn is_grouping(channels: Seq<Channel>, groups: Seq<BandGroup>) -> bool {
    &&& groups.len() == bands_of(channels).len()
    &&& forall|g: int|
        0 <= g < groups.len() ==> (#[trigger] groups[g]).band == bands_of(channels)[g]
            && groups[g].channels@ == places(channels, groups[g].band)
}

proof fn lemma_bands_unique(channels: Seq<Channel>)
    ensures
        bands_of(channels).no_duplicates(),
        forall|i: int| 0 <= i < channels.len() ==> bands_of(channels).contains(
            (#[trigger] channels[i]).band,
        ),
        forall|b: u8| !bands_of(channels).contains(b) ==> #[trigger] places(channels, b).len() == 0,
    decreases channels.len(),
{
    if channels.len() > 0 {
        let init = channels.drop_last();
        lemma_bands_unique(init);
        let rest = bands_of(init);
        let all = bands_of(channels);
        let last = channels.last().band;
        assert forall|b: u8| rest.contains(b) implies all.contains(b) by {
            let i = choose|i: int| 0 <= i < rest.len() && rest[i] == b;
            assert(all[i] == b);
        }
        assert(all.contains(last)) by {
            if !rest.contains(last) {
                assert(all[rest.len() as int] == last);
            }
        }
        assert forall|i: int| 0 <= i < channels.len() implies all.contains(
            (#[trigger] channels[i]).band,
        ) by {
            if i < init.len() {
                assert(init[i] == channels[i]);
            }
        }
        assert forall|b: u8| !all.contains(b) implies #[trigger] places(channels, b).len() == 0 by {
            assert(!rest.contains(b));
            assert(places(init, b).len() == 0);
        }
    }
}

fn find_group(groups: &Vec<BandGroup>, band: u8) -> (r: Option<usize>)
    ensures
        match r {
            Some(i) => i < groups@.len() && groups@[i as int].band == band,
            None => forall|j: int| 0 <= j < groups@.len() ==> (#[trigger] groups@[j]).band != band,
        },
{
    let mut i: usize = 0;
    while i < groups.len()
        invariant
            i <= groups@.len(),
            forall|j: int| 0 <= j < i ==> (#[trigger] groups@[j]).band != band,
        decreases groups@.len() - i,
    {
        if groups[i].band == band {
            return Some(i);
        }
        i = i + 1;
    }
    None
}

fn copy_places(v: &Vec<usize>) -> (r: Vec<usize>)
    ensures
        r@ == v@,
{
    let mut r: Vec<usize> = Vec::new();
    let mut i: usize = 0;
    while i < v.len()
        invariant
            i <= v@.len(),
            r@ == v@.take(i as int),
        decreases v@.len() - i,
    {
        r.push(v[i]);
        assert(v@.take(i + 1) =~= v@.take(i as int).push(v@[i as int]));
        i = i + 1;
    }
    assert(v@.take(v@.len() as int) =~= v@);
    r
}

/// The channels grouped by band for the picker, the dial's own band first.
#[verifier::rlimit(30)]
pub fn group_channels(channels: &Vec<Channel>, here: u8) -> (groups: Vec<BandGroup>)
    ensures
        groups@.len() == picker_bands(channels@, here).len(),
        forall|g: int|
            0 <= g < groups@.len() ==> (#[trigger] groups@[g]).band == picker_bands(
                channels@,
                here,
            )[g] && groups@[g].channels@ == places(channels@, groups@[g].band),
{
    let mut groups: Vec<BandGroup> = Vec::new();
    let mut i: usize = 0;
    assert(channels@.take(0).len() == 0);
    while i < channels.len()
        invariant
            i <= channels@.len(),
            is_grouping(channels@.take(i as int), groups@),
        decreases channels@.len() - i,
    {
        let ghost prev = channels@.take(i as int);
        let ghost next = channels@.take(i + 1);
        let ghost before = groups@;
        proof {
            assert(next.drop_last() =~= prev);
            lemma_bands_unique(prev);
        }
        let band: u8 = channels[i].band;
        match find_group(&groups, band) {
            Some(g) => {
                assert(bands_of(prev)[g as int] == band);
                assert(bands_of(next) == bands_of(prev));
                let mut list = copy_places(&groups[g].channels);
                list.push(i);
                groups.set(g, BandGroup { band, channels: list });
                assert forall|k: int| 0 <= k < groups@.len() implies (#[trigger] groups@[k]).band
                    == bands_of(next)[k] && groups@[k].channels@ == places(
                    next,
                    groups@[k].band,
                ) by {
                    if k != g {
                        assert(groups@[k] == before[k]);
                        assert(bands_of(prev)[k] != bands_of(prev)[g as int]);
                    }
                }
            },
            None => {
                assert(!bands_of(prev).contains(band)) by {
                    if bands_of(prev).contains(band) {
                        let k = choose|k: int|
                            0 <= k < bands_of(prev).len() && bands_of(prev)[k] == band;
                        assert(before[k].band == band);
                    }
                }
                let mut list: Vec<usize> = Vec::new();
                list.push(i);
                assert(list@ =~= places(next, band)) by {
                    assert(places(prev, band) =~= Seq::empty());
                }
                groups.push(BandGroup { band, channels: list });
                assert forall|k: int| 0 <= k < groups@.len() implies (#[trigger] groups@[k]).band
                    == bands_of(next)[k] && groups@[k].channels@ == places(
                    next,
                    groups@[k].band,
                ) by {
                    if k < before.len() {
                        assert(groups@[k] == before[k]);
                        assert(bands_of(prev)[k] != band) by {
                            assert(bands_of(prev).contains(bands_of(prev)[k]));
                        }
                    }
                }
            },
        }
        i = i + 1;
    }
    assert(channels@.take(channels@.len() as int) =~= channels@);
    proof {
        lemma_bands_unique(channels@);
    }
    let ghost b = bands_of(channels@);
    match find_group(&groups, here) {
        Some(g) => {
            assert(b[g as int] == here);
            assert(b.contains(here));
            let ghost n = b.index_of(here);
            assert(n == g) by {
                assert(b[n] == here);
            }
            let ghost before = groups@;
            let chosen = groups.remove(g);
            groups.insert(0, chosen);
            assert forall|k: int| 0 <= k < groups@.len() implies (#[trigger] groups@[k]).band
                == picker_bands(channels@, here)[k] && groups@[k].channels@ == places(
                channels@,
                groups@[k].band,
            ) by {
                let from = if k == 0 {
                    g as int
                } else if k <= g {
                    k - 1
                } else {
                    k
                };
                assert(groups@[k] == before[from]);
                assert(picker_bands(channels@, here)[k] == b[from]);
            }
        },
        None => {
            assert(!b.contains(here)) by {
                if b.contains(here) {
                    let k = choose|k: int| 0 <= k < b.len() && b[k] == here;
                    assert(groups@[k].band == here);
                }
            }
        },
    }
    groups
}

proof fn lemma_bands_as_they_occur(channels: Seq<Channel>, i: int, j: int)
    requires
        channels.len() <= usize::MAX,
        0 <= i <= j < bands_of(channels).len(),
    ensures
        places(channels, bands_of(channels)[i]).len() > 0,
        places(channels, bands_of(channels)[j]).len() > 0,
        places(channels, bands_of(channels)[i])[0] < channels.len(),
        places(channels, bands_of(channels)[j])[0] < channels.len(),
        i < j ==> places(channels, bands_of(channels)[i])[0] < places(
            channels,
            bands_of(channels)[j],
        )[0],
    decreases channels.len(),
{
    let init = channels.drop_last();
    let rest = bands_of(init);
    lemma_bands_unique(init);
    if j < rest.len() {
        lemma_bands_as_they_occur(init, i, j);
    } else {
        assert(!rest.contains(channels.last().band));
        assert(places(init, channels.last().band).len() == 0);
        if i < j {
            lemma_bands_as_they_occur(init, i, i);
        }
    }
}

/// The lowest place of a band in the list of channels.
pub open spec fn first_place(channels: Seq<Channel>, band: u8) -> int {
    places(channels, band)[0] as int
}

/// The band the dial is in leads the picker, no band is lost or shown twice,
/// and where the channels come in frequency order the other bands follow in
/// frequency order too.
pub proof fn law_the_dials_band_leads(channels: Seq<Channel>, here: u8)
    requires
        channels.len() <= usize::MAX,
    ensures
        bands_of(channels).contains(here) ==> picker_bands(channels, here)[0] == here,
        forall|c: u8| #[trigger]
            picker_bands(channels, here).contains(c) == bands_of(channels).contains(c),
        picker_bands(channels, here).no_duplicates(),
        (forall|a: int, b: int|
            0 <= a < b < channels.len() ==> (#[trigger] channels[a]).dial_hz <= (
            #[trigger] channels[b]).dial_hz) ==> forall|i: int, j: int|
            0 <= i < j < picker_bands(channels, here).len() && #[trigger] picker_bands(
                channels,
                here,
            )[i] != here ==> channels[first_place(channels, picker_bands(channels, here)[i])].dial_hz
                <= channels[first_place(
                channels,
                #[trigger] picker_bands(channels, here)[j],
            )].dial_hz,
{
    lemma_bands_unique(channels);
    let b = bands_of(channels);
    let p = picker_bands(channels, here);
    let n = if b.contains(here) {
        b.index_of(here)
    } else {
        -1
    };
    let from = |k: int|
        if n < 0 {
            k
        } else if k == 0 {
            n
        } else if k <= n {
            k - 1
        } else {
            k
        };
    assert(b.contains(here) ==> b[n] == here);
    assert forall|k: int| 0 <= k < p.len() implies #[trigger] p[k] == b[from(k)] && 0 <= from(k)
        < b.len() by {}
    assert forall|c: u8| #[trigger] p.contains(c) == b.contains(c) by {
        if p.contains(c) {
            let k = choose|k: int| 0 <= k < p.len() && p[k] == c;
            assert(b[from(k)] == c);
        }
        if b.contains(c) {
            let m = choose|m: int| 0 <= m < b.len() && b[m] == c;
            let k = if n < 0 {
                m
            } else if m == n {
                0
            } else if m < n {
                m + 1
            } else {
                m
            };
            assert(p[k] == c);
        }
    }
    assert forall|i: int, j: int|
        0 <= i < j < p.len() && #[trigger] p[i] != here implies first_place(channels, p[i])
        < first_place(channels, #[trigger] p[j]) && first_place(channels, p[j])
        < channels.len() && 0 <= first_place(channels, p[i]) by {
        lemma_bands_as_they_occur(channels, from(i), from(j));
    }
}

/// The channel that the dial sits on: the first within a hertz of it.
pub fn channel_here(channels: &Vec<Channel>, dial_millihz: i64) -> (r: Option<usize>)
    requires
        forall|i: int| 0 <= i < channels@.len() ==> (#[trigger] channels@[i]).dial_hz
            < 1_000_000_000_000,
    ensures
        match r {
            Some(i) => i < channels@.len() && on_channel(channels@[i as int], dial_millihz)
                && forall|j: int| 0 <= j < i ==> !on_channel(#[trigger] channels@[j], dial_millihz),
            None => forall|j: int|
                0 <= j < channels@.len() ==> !on_channel(#[trigger] channels@[j], dial_millihz),
        },
{
    let mut i: usize = 0;
    while i < channels.len()
        invariant
            i <= channels@.len(),
            forall|i: int| 0 <= i < channels@.len() ==> (#[trigger] channels@[i]).dial_hz
                < 1_000_000_000_000,
            forall|j: int| 0 <= j < i ==> !on_channel(#[trigger] channels@[j], dial_millihz),
        decreases channels@.len() - i,
    {
        assert(channels@[i as int].dial_hz < 1_000_000_000_000);
        let apart: i128 = channels[i].dial_hz as i128 * 1000 - dial_millihz as i128;
        if -1000 < apart && apart < 1000 {
            return Some(i);
        }
        i = i + 1;
    }
    None
}

/// True when a dial, in thousandths of a hertz, is within a hertz of a channel.
pub open spec fn on_channel(c: Channel, dial_millihz: i64) -> bool {
    -1000 < c.dial_hz * 1000 - dial_millihz < 1000
}

/// The face of the chip that opens the picker: the frequency the dial sits on,
/// where it is one of them.
pub fn chip_face(here: Option<u64>) -> (t: String)
    requires
        here matches Some(hz) ==> hz < WHOLE_END,
    ensures
        t@ == match here {
            Some(hz) => "⇵ "@ + mhz_text(hz as nat, 3),
            None => "⇵ FREQ"@,
        },
{
    match here {
        Some(hz) => cat("⇵ ", mhz(hz, 3).as_str()),
        None => "⇵ FREQ".to_owned(),
    }
}

/// A channel's line in the picker: its frequency, and what it is kept for.
pub fn channel_line(c: &Channel) -> (t: String)
    requires
        c.dial_hz < WHOLE_END,
    ensures
        t@ == "   "@ + mhz_text(c.dial_hz as nat, 3) + " MHz"@ + (if c.note@.len() > 0 {
            "   "@ + c.note@
        } else {
            Seq::empty()
        }),
{
    let mut t = cat("   ", mhz(c.dial_hz, 3).as_str());
    t.append(" MHz");
    let ghost head = t@;
    if !c.note.as_str().is_empty() {
        t.append("   ");
        t.append(c.note.as_str());
        assert(t@ =~= head + ("   "@ + c.note@));
    } else {
        assert(t@ =~= head + Seq::empty());
    }
    t
}

/// The colour of a channel's line, where it stands out from the others: a
/// convention that the region's band plan does not bear out.
pub fn channel_ink(c: &Channel) -> (i: Option<Ink>)
    ensures
        i == if c.off_segment {
            Some(Ink::Yellow)
        } else {
            None
        },
{
    if c.off_segment {
        Some(Ink::Yellow)
    } else {
        None
    }
}

/// True when the picker explains the colour: some channel has it.
pub fn explains_ink(channels: &Vec<Channel>) -> (r: bool)
    ensures
        r == exists|i: int| 0 <= i < channels@.len() && (#[trigger] channels@[i]).off_segment,
{
    let mut i: usize = 0;
    while i < channels.len()
        invariant
            i <= channels@.len(),
            forall|j: int| 0 <= j < i ==> !(#[trigger] channels@[j]).off_segment,
        decreases channels@.len() - i,
    {
        if channels[i].off_segment {
            assert(channels@[i as int].off_segment);
            return true;
        }
        i = i + 1;
    }
    false
}

/// The frequency of the contact, beside the tone it is derived from.
pub fn on_air_readout(hz: u64) -> (t: String)
    requires
        hz < WHOLE_END,
    ensures
        t@ == mhz_text(hz as nat, 4) + " MHz"@,
{
    let mut t = mhz(hz, 4);
    t.append(" MHz");
    t
}

/// The dials of a mode rise from button to button, in every mode but the one
/// whose main channel stands first.
#[verifier::rlimit(30)]
pub proof fn law_dials_rise(mode: Mode, i: int, j: int)
    requires
        mode != Mode::Navtex,
        0 <= i < j < dials_of(mode).len(),
    ensures
        dials_of(mode)[i].1 < dials_of(mode)[j].1,
{
}

/// True of a frequency, in hertz, within the amateur band of this name.
pub open spec fn in_band(label: Seq<char>, hz: u64) -> bool {
    if label == "160m"@ {
        1_810_000 <= hz <= 2_000_000
    } else if label == "80m"@ {
        3_500_000 <= hz <= 3_800_000
    } else if label == "60m"@ {
        5_351_500 <= hz <= 5_366_500
    } else if label == "40m"@ {
        7_000_000 <= hz <= 7_200_000
    } else if label == "30m"@ {
        10_100_000 <= hz <= 10_150_000
    } else if label == "20m"@ {
        14_000_000 <= hz <= 14_350_000
    } else if label == "17m"@ {
        18_068_000 <= hz <= 18_168_000
    } else if label == "15m"@ {
        21_000_000 <= hz <= 21_450_000
    } else if label == "12m"@ {
        24_890_000 <= hz <= 24_990_000
    } else if label == "10m"@ {
        28_000_000 <= hz <= 29_700_000
    } else if label == "6m"@ {
        50_000_000 <= hz <= 52_000_000
    } else if label == "4m"@ {
        70_000_000 <= hz <= 70_500_000
    } else if label == "2m"@ {
        144_000_000 <= hz <= 146_000_000
    } else if label == "70cm"@ {
        430_000_000 <= hz <= 440_000_000
    } else {
        false
    }
}

/// Every dial lies within the band that its button names, in every mode of the
/// amateur bands.
#[verifier::rlimit(100)]
pub proof fn law_a_dial_lies_in_its_band(mode: Mode, i: int)
    requires
        mode != Mode::Navtex,
        0 <= i < dials_of(mode).len(),
    ensures
        in_band(dials_of(mode)[i].0, dials_of(mode)[i].1),
{
    lemma_band_names_differ();
}

proof fn lemma_band_names_differ()
    ensures
        "80m"@ != "160m"@,
        "60m"@ != "160m"@,
        "60m"@ != "80m"@,
        "40m"@ != "160m"@,
        "40m"@ != "80m"@,
        "40m"@ != "60m"@,
        "30m"@ != "160m"@,
        "30m"@ != "80m"@,
        "30m"@ != "60m"@,
        "30m"@ != "40m"@,
        "20m"@ != "160m"@,
        "20m"@ != "80m"@,
        "20m"@ != "60m"@,
        "20m"@ != "40m"@,
        "20m"@ != "30m"@,
        "17m"@ != "160m"@,
        "17m"@ != "80m"@,
        "17m"@ != "60m"@,
        "17m"@ != "40m"@,
        "17m"@ != "30m"@,
        "17m"@ != "20m"@,
        "15m"@ != "160m"@,
        "15m"@ != "80m"@,
        "15m"@ != "60m"@,
        "15m"@ != "40m"@,
        "15m"@ != "30m"@,
        "15m"@ != "20m"@,
        "15m"@ != "17m"@,
        "12m"@ != "160m"@,
        "12m"@ != "80m"@,
        "12m"@ != "60m"@,
        "12m"@ != "40m"@,
        "12m"@ != "30m"@,
        "12m"@ != "20m"@,
        "12m"@ != "17m"@,
        "12m"@ != "15m"@,
        "10m"@ != "160m"@,
        "10m"@ != "80m"@,
        "10m"@ != "60m"@,
        "10m"@ != "40m"@,
        "10m"@ != "30m"@,
        "10m"@ != "20m"@,
        "10m"@ != "17m"@,
        "10m"@ != "15m"@,
        "10m"@ != "12m"@,
        "6m"@ != "160m"@,
        "6m"@ != "80m"@,
        "6m"@ != "60m"@,
        "6m"@ != "40m"@,
        "6m"@ != "30m"@,
        "6m"@ != "20m"@,
        "6m"@ != "17m"@,
        "6m"@ != "15m"@,
        "6m"@ != "12m"@,
        "6m"@ != "10m"@,
        "4m"@ != "160m"@,
        "4m"@ != "80m"@,
        "4m"@ != "60m"@,
        "4m"@ != "40m"@,
        "4m"@ != "30m"@,
        "4m"@ != "20m"@,
        "4m"@ != "17m"@,
        "4m"@ != "15m"@,
        "4m"@ != "12m"@,
        "4m"@ != "10m"@,
        "4m"@ != "6m"@,
        "2m"@ != "160m"@,
        "2m"@ != "80m"@,
        "2m"@ != "60m"@,
        "2m"@ != "40m"@,
        "2m"@ != "30m"@,
        "2m"@ != "20m"@,
        "2m"@ != "17m"@,
        "2m"@ != "15m"@,
        "2m"@ != "12m"@,
        "2m"@ != "10m"@,
        "2m"@ != "6m"@,
        "2m"@ != "4m"@,
        "70cm"@ != "160m"@,
        "70cm"@ != "80m"@,
        "70cm"@ != "60m"@,
        "70cm"@ != "40m"@,
        "70cm"@ != "30m"@,
        "70cm"@ != "20m"@,
        "70cm"@ != "17m"@,
        "70cm"@ != "15m"@,
        "70cm"@ != "12m"@,
        "70cm"@ != "10m"@,
        "70cm"@ != "6m"@,
        "70cm"@ != "4m"@,
        "70cm"@ != "2m"@,
{
    reveal_strlit("160m");
    reveal_strlit("80m");
    reveal_strlit("60m");
    reveal_strlit("40m");
    reveal_strlit("30m");
    reveal_strlit("20m");
    reveal_strlit("17m");
    reveal_strlit("15m");
    reveal_strlit("12m");
    reveal_strlit("10m");
    reveal_strlit("6m");
    reveal_strlit("4m");
    reveal_strlit("2m");
    reveal_strlit("70cm");
    assert("80m"@.len() != "160m"@.len());
    assert("60m"@.len() != "160m"@.len());
    assert("60m"@[0] != "80m"@[0]);
    assert("40m"@.len() != "160m"@.len());
    assert("40m"@[0] != "80m"@[0]);
    assert("40m"@[0] != "60m"@[0]);
    assert("30m"@.len() != "160m"@.len());
    assert("30m"@[0] != "80m"@[0]);
    assert("30m"@[0] != "60m"@[0]);
    assert("30m"@[0] != "40m"@[0]);
    assert("20m"@.len() != "160m"@.len());
    assert("20m"@[0] != "80m"@[0]);
    assert("20m"@[0] != "60m"@[0]);
    assert("20m"@[0] != "40m"@[0]);
    assert("20m"@[0] != "30m"@[0]);
    assert("17m"@.len() != "160m"@.len());
    assert("17m"@[0] != "80m"@[0]);
    assert("17m"@[0] != "60m"@[0]);
    assert("17m"@[0] != "40m"@[0]);
    assert("17m"@[0] != "30m"@[0]);
    assert("17m"@[0] != "20m"@[0]);
    assert("15m"@.len() != "160m"@.len());
    assert("15m"@[0] != "80m"@[0]);
    assert("15m"@[0] != "60m"@[0]);
    assert("15m"@[0] != "40m"@[0]);
    assert("15m"@[0] != "30m"@[0]);
    assert("15m"@[0] != "20m"@[0]);
    assert("15m"@[1] != "17m"@[1]);
    assert("12m"@.len() != "160m"@.len());
    assert("12m"@[0] != "80m"@[0]);
    assert("12m"@[0] != "60m"@[0]);
    assert("12m"@[0] != "40m"@[0]);
    assert("12m"@[0] != "30m"@[0]);
    assert("12m"@[0] != "20m"@[0]);
    assert("12m"@[1] != "17m"@[1]);
    assert("12m"@[1] != "15m"@[1]);
    assert("10m"@.len() != "160m"@.len());
    assert("10m"@[0] != "80m"@[0]);
    assert("10m"@[0] != "60m"@[0]);
    assert("10m"@[0] != "40m"@[0]);
    assert("10m"@[0] != "30m"@[0]);
    assert("10m"@[0] != "20m"@[0]);
    assert("10m"@[1] != "17m"@[1]);
    assert("10m"@[1] != "15m"@[1]);
    assert("10m"@[1] != "12m"@[1]);
    assert("6m"@.len() != "160m"@.len());
    assert("6m"@.len() != "80m"@.len());
    assert("6m"@.len() != "60m"@.len());
    assert("6m"@.len() != "40m"@.len());
    assert("6m"@.len() != "30m"@.len());
    assert("6m"@.len() != "20m"@.len());
    assert("6m"@.len() != "17m"@.len());
    assert("6m"@.len() != "15m"@.len());
    assert("6m"@.len() != "12m"@.len());
    assert("6m"@.len() != "10m"@.len());
    assert("4m"@.len() != "160m"@.len());
    assert("4m"@.len() != "80m"@.len());
    assert("4m"@.len() != "60m"@.len());
    assert("4m"@.len() != "40m"@.len());
    assert("4m"@.len() != "30m"@.len());
    assert("4m"@.len() != "20m"@.len());
    assert("4m"@.len() != "17m"@.len());
    assert("4m"@.len() != "15m"@.len());
    assert("4m"@.len() != "12m"@.len());
    assert("4m"@.len() != "10m"@.len());
    assert("4m"@[0] != "6m"@[0]);
    assert("2m"@.len() != "160m"@.len());
    assert("2m"@.len() != "80m"@.len());
    assert("2m"@.len() != "60m"@.len());
    assert("2m"@.len() != "40m"@.len());
    assert("2m"@.len() != "30m"@.len());
    assert("2m"@.len() != "20m"@.len());
    assert("2m"@.len() != "17m"@.len());
    assert("2m"@.len() != "15m"@.len());
    assert("2m"@.len() != "12m"@.len());
    assert("2m"@.len() != "10m"@.len());
    assert("2m"@[0] != "6m"@[0]);
    assert("2m"@[0] != "4m"@[0]);
    assert("70cm"@[0] != "160m"@[0]);
    assert("70cm"@.len() != "80m"@.len());
    assert("70cm"@.len() != "60m"@.len());
    assert("70cm"@.len() != "40m"@.len());
    assert("70cm"@.len() != "30m"@.len());
    assert("70cm"@.len() != "20m"@.len());
    assert("70cm"@.len() != "17m"@.len());
    assert("70cm"@.len() != "15m"@.len());
    assert("70cm"@.len() != "12m"@.len());
    assert("70cm"@.len() != "10m"@.len());
    assert("70cm"@.len() != "6m"@.len());
    assert("70cm"@.len() != "4m"@.len());
    assert("70cm"@.len() != "2m"@.len());
}

/// The channels of a band in the picker are those of that band, each once, as
/// they came.
pub proof fn law_a_channel_stands_under_its_band(channels: Seq<Channel>, band: u8, i: int)
    requires
        channels.len() <= usize::MAX,
        0 <= i < channels.len(),
    ensures
        places(channels, band).contains(i as usize) == (channels[i].band == band),
        bands_of(channels).contains(channels[i].band),
        forall|a: int, b: int|
            0 <= a < b < places(channels, band).len() ==> #[trigger] places(channels, band)[a]
                < #[trigger] places(channels, band)[b],
        forall|a: int|
            0 <= a < places(channels, band).len() ==> #[trigger] places(channels, band)[a]
                < channels.len(),
    decreases channels.len(),
{
    lemma_bands_unique(channels);
    let init = channels.drop_last();
    let (all, rest) = (places(channels, band), places(init, band));
    if init.len() > 0 {
        law_a_channel_stands_under_its_band(init, band, if i < init.len() {
            i
        } else {
            0
        });
    }
    if i < init.len() {
        assert(init[i] == channels[i]);
        if rest.contains(i as usize) {
            let k = choose|k: int| 0 <= k < rest.len() && rest[k] == i as usize;
            assert(all[k] == i as usize);
        }
        if all.contains(i as usize) {
            let k = choose|k: int| 0 <= k < all.len() && all[k] == i as usize;
            assert(rest[k] == i as usize);
        }
    } else {
        if all.contains(i as usize) {
            let k = choose|k: int| 0 <= k < all.len() && all[k] == i as usize;
            if k < rest.len() {
                assert(rest[k] < init.len());
            }
        }
        if channels[i].band == band {
            assert(all[rest.len() as int] == i as usize);
        }
    }
}

/// The dial counts as on a channel within a hertz of it and no farther.
pub proof fn law_on_a_channel_within_a_hertz(c: Channel, dial_millihz: i64)
    ensures
        dial_millihz == c.dial_hz * 1000 ==> on_channel(c, dial_millihz),
        dial_millihz >= c.dial_hz * 1000 + 1000 ==> !on_channel(c, dial_millihz),
        dial_millihz <= c.dial_hz * 1000 - 1000 ==> !on_channel(c, dial_millihz),
        c.dial_hz * 1000 - 1000 < dial_millihz < c.dial_hz * 1000 + 1000 ==> on_channel(
            c,
            dial_millihz,
        ),
{
}

/// The plain calling frequency of a plan is its first channel that is kept for
/// nothing, and there is but one such.
pub proof fn law_one_plain_calling_frequency(shared: Seq<Channel>, i: int, j: int)
    requires
        first_plain(shared, i),
        0 <= j < shared.len(),
    ensures
        0 <= i < shared.len() && shared[i].note@.len() == 0,
        shared[j].note@.len() == 0 ==> i <= j,
        first_plain(shared, j) ==> j == i,
{
    if first_plain(shared, j) {
        assert(shared[i].note@.len() == 0);
    }
}

/// The dial of each mode on the bands from 160 to 40 metres; a mode without a list
/// of its own has those of the most common one.
pub proof fn law_the_dials_of_the_low_bands(mode: Mode)
    ensures
        match mode {
            Mode::Js8 => {
                &&& dials_of(mode)[0] == ("160m"@, 1_842_000u64)
                &&& dials_of(mode)[1] == ("80m"@, 3_578_000u64)
                &&& dials_of(mode)[2] == ("40m"@, 7_078_000u64)
            },
            Mode::Psk => {
                &&& dials_of(mode)[0] == ("80m"@, 3_580_000u64)
                &&& dials_of(mode)[1] == ("40m"@, 7_040_000u64)
            },
            Mode::Rtty => {
                &&& dials_of(mode)[0] == ("80m"@, 3_580_000u64)
                &&& dials_of(mode)[1] == ("40m"@, 7_040_000u64)
            },
            Mode::Ft4 => {
                &&& dials_of(mode)[0] == ("80m"@, 3_575_000u64)
                &&& dials_of(mode)[1] == ("40m"@, 7_047_500u64)
            },
            Mode::Ft2 => {
                &&& dials_of(mode)[0] == ("80m"@, 3_578_000u64)
                &&& dials_of(mode)[1] == ("40m"@, 7_062_000u64)
            },
            Mode::Rade => {
                &&& dials_of(mode)[0] == ("80m"@, 3_625_000u64)
                &&& dials_of(mode)[1] == ("40m"@, 7_177_000u64)
            },
            Mode::Sstv => {
                &&& dials_of(mode)[0] == ("80m"@, 3_730_000u64)
                &&& dials_of(mode)[1] == ("40m"@, 7_171_000u64)
            },
            Mode::SstvFm => true,
            Mode::RttyFm => true,
            Mode::Navtex => true,
            Mode::Olivia => {
                &&& dials_of(mode)[0] == ("80m"@, 3_581_000u64)
                &&& dials_of(mode)[1] == ("40m"@, 7_073_000u64)
            },
            Mode::Thor => {
                &&& dials_of(mode)[0] == ("80m"@, 3_580_000u64)
                &&& dials_of(mode)[1] == ("40m"@, 7_070_000u64)
            },
            Mode::Fsq => {
                &&& dials_of(mode)[0] == ("80m"@, 3_575_000u64)
                &&& dials_of(mode)[1] == ("40m"@, 7_105_000u64)
            },
            Mode::Hell => {
                &&& dials_of(mode)[0] == ("160m"@, 1_840_000u64)
                &&& dials_of(mode)[1] == ("80m"@, 3_574_000u64)
                &&& dials_of(mode)[2] == ("60m"@, 5_351_500u64)
                &&& dials_of(mode)[3] == ("40m"@, 7_040_000u64)
            },
            Mode::RfPaint => true,
            Mode::Rifp => true,
            _ => {
                &&& dials_of(mode)[0] == ("160m"@, 1_840_000u64)
                &&& dials_of(mode)[1] == ("80m"@, 3_573_000u64)
                &&& dials_of(mode)[2] == ("40m"@, 7_074_000u64)
            },
        },
{
}

/// The dial of each mode on the bands from 30 to 17 metres.
pub proof fn law_the_dials_of_the_middle_bands(mode: Mode)
    ensures
        match mode {
            Mode::Js8 => {
                &&& dials_of(mode)[3] == ("30m"@, 10_130_000u64)
                &&& dials_of(mode)[4] == ("20m"@, 14_078_000u64)
                &&& dials_of(mode)[5] == ("17m"@, 18_104_000u64)
            },
            Mode::Psk => {
                &&& dials_of(mode)[2] == ("30m"@, 10_142_000u64)
                &&& dials_of(mode)[3] == ("20m"@, 14_070_000u64)
                &&& dials_of(mode)[4] == ("17m"@, 18_097_000u64)
            },
            Mode::Rtty => {
                &&& dials_of(mode)[2] == ("30m"@, 10_140_000u64)
                &&& dials_of(mode)[3] == ("20m"@, 14_080_000u64)
                &&& dials_of(mode)[4] == ("17m"@, 18_100_000u64)
            },
            Mode::Ft4 => {
                &&& dials_of(mode)[2] == ("30m"@, 10_140_000u64)
                &&& dials_of(mode)[3] == ("20m"@, 14_080_000u64)
                &&& dials_of(mode)[4] == ("17m"@, 18_104_000u64)
            },
            Mode::Ft2 => {
                &&& dials_of(mode)[2] == ("30m"@, 10_144_000u64)
                &&& dials_of(mode)[3] == ("20m"@, 14_084_000u64)
                &&& dials_of(mode)[4] == ("17m"@, 18_108_000u64)
            },
            Mode::Rade => dials_of(mode)[2] == ("20m"@, 14_236_000u64),
            Mode::Sstv => dials_of(mode)[2] == ("20m"@, 14_230_000u64),
            Mode::SstvFm => true,
            Mode::RttyFm => true,
            Mode::Navtex => true,
            Mode::Olivia => {
                &&& dials_of(mode)[2] == ("30m"@, 10_142_000u64)
                &&& dials_of(mode)[3] == ("20m"@, 14_076_000u64)
                &&& dials_of(mode)[4] == ("17m"@, 18_103_000u64)
            },
            Mode::Thor => {
                &&& dials_of(mode)[2] == ("30m"@, 10_147_000u64)
                &&& dials_of(mode)[3] == ("20m"@, 14_073_000u64)
                &&& dials_of(mode)[4] == ("17m"@, 18_103_000u64)
            },
            Mode::Fsq => {
                &&& dials_of(mode)[2] == ("30m"@, 10_144_000u64)
                &&& dials_of(mode)[3] == ("20m"@, 14_105_000u64)
                &&& dials_of(mode)[4] == ("17m"@, 18_104_000u64)
            },
            Mode::Hell => {
                &&& dials_of(mode)[4] == ("30m"@, 10_144_000u64)
                &&& dials_of(mode)[5] == ("20m"@, 14_073_000u64)
                &&& dials_of(mode)[6] == ("17m"@, 18_104_000u64)
            },
            Mode::RfPaint => true,
            Mode::Rifp => true,
            _ => {
                &&& dials_of(mode)[3] == ("30m"@, 10_136_000u64)
                &&& dials_of(mode)[4] == ("20m"@, 14_074_000u64)
                &&& dials_of(mode)[5] == ("17m"@, 18_100_000u64)
            },
        },
{
}

/// The dial of each mode on the bands from 15 to 10 metres.
pub proof fn law_the_dials_of_the_high_bands(mode: Mode)
    ensures
        match mode {
            Mode::Js8 => {
                &&& dials_of(mode)[6] == ("15m"@, 21_078_000u64)
                &&& dials_of(mode)[7] == ("12m"@, 24_922_000u64)
                &&& dials_of(mode)[8] == ("10m"@, 28_078_000u64)
            },
            Mode::Psk => {
                &&& dials_of(mode)[5] == ("15m"@, 21_070_000u64)
                &&& dials_of(mode)[6] == ("12m"@, 24_920_000u64)
                &&& dials_of(mode)[7] == ("10m"@, 28_120_000u64)
            },
            Mode::Rtty => {
                &&& dials_of(mode)[5] == ("15m"@, 21_080_000u64)
                &&& dials_of(mode)[6] == ("12m"@, 24_920_000u64)
                &&& dials_of(mode)[7] == ("10m"@, 28_080_000u64)
            },
            Mode::Ft4 => {
                &&& dials_of(mode)[5] == ("15m"@, 21_140_000u64)
                &&& dials_of(mode)[6] == ("12m"@, 24_919_000u64)
                &&& dials_of(mode)[7] == ("10m"@, 28_180_000u64)
            },
            Mode::Ft2 => {
                &&& dials_of(mode)[5] == ("15m"@, 21_144_000u64)
                &&& dials_of(mode)[6] == ("12m"@, 24_923_000u64)
                &&& dials_of(mode)[7] == ("10m"@, 28_184_000u64)
            },
            Mode::Rade => {
                &&& dials_of(mode)[3] == ("15m"@, 21_313_000u64)
                &&& dials_of(mode)[4] == ("10m"@, 28_330_000u64)
            },
            Mode::Sstv => {
                &&& dials_of(mode)[3] == ("15m"@, 21_340_000u64)
                &&& dials_of(mode)[4] == ("10m"@, 28_680_000u64)
            },
            Mode::SstvFm => true,
            Mode::RttyFm => true,
            Mode::Navtex => true,
            Mode::Olivia => {
                &&& dials_of(mode)[5] == ("15m"@, 21_076_000u64)
                &&& dials_of(mode)[6] == ("10m"@, 28_076_000u64)
            },
            Mode::Thor => {
                &&& dials_of(mode)[5] == ("15m"@, 21_073_000u64)
                &&& dials_of(mode)[6] == ("10m"@, 28_073_000u64)
            },
            Mode::Fsq => {
                &&& dials_of(mode)[5] == ("15m"@, 21_105_000u64)
                &&& dials_of(mode)[6] == ("10m"@, 28_105_000u64)
            },
            Mode::Hell => {
                &&& dials_of(mode)[7] == ("15m"@, 21_063_000u64)
                &&& dials_of(mode)[8] == ("12m"@, 24_924_000u64)
                &&& dials_of(mode)[9] == ("10m"@, 28_063_000u64)
            },
            Mode::RfPaint => true,
            Mode::Rifp => dials_of(mode)[0] == ("10m"@, 29_600_000u64),
            _ => {
                &&& dials_of(mode)[6] == ("15m"@, 21_074_000u64)
                &&& dials_of(mode)[7] == ("12m"@, 24_915_000u64)
                &&& dials_of(mode)[8] == ("10m"@, 28_074_000u64)
            },
        },
{
}

/// The dial of each mode on the bands from 6 metres to 70 centimetres.
pub proof fn law_the_dials_above_the_short_waves(mode: Mode)
    ensures
        match mode {
            Mode::Js8 => true,
            Mode::Psk => true,
            Mode::Rtty => true,
            Mode::Ft4 => true,
            Mode::Ft2 => true,
            Mode::Rade => dials_of(mode)[5] == ("2m"@, 144_200_000u64),
            Mode::Sstv => {
                &&& dials_of(mode)[5] == ("2m"@, 144_500_000u64)
                &&& dials_of(mode)[6] == ("70cm"@, 432_500_000u64)
            },
            Mode::SstvFm => {
                &&& dials_of(mode)[0] == ("6m"@, 50_510_000u64)
                &&& dials_of(mode)[1] == ("2m"@, 144_500_000u64)
                &&& dials_of(mode)[2] == ("70cm"@, 433_400_000u64)
            },
            Mode::RttyFm => {
                &&& dials_of(mode)[0] == ("6m"@, 50_150_000u64)
                &&& dials_of(mode)[1] == ("2m"@, 145_500_000u64)
                &&& dials_of(mode)[2] == ("70cm"@, 433_500_000u64)
            },
            Mode::Navtex => true,
            Mode::Olivia => true,
            Mode::Thor => true,
            Mode::Fsq => true,
            Mode::Hell => dials_of(mode)[10] == ("6m"@, 50_286_000u64),
            Mode::RfPaint => true,
            Mode::Rifp => {
                &&& dials_of(mode)[1] == ("6m"@, 51_250_000u64)
                &&& dials_of(mode)[2] == ("2m"@, 144_700_000u64)
                &&& dials_of(mode)[3] == ("70cm"@, 433_920_000u64)
            },
            _ => {
                &&& dials_of(mode)[9] == ("6m"@, 50_313_000u64)
                &&& dials_of(mode)[10] == ("4m"@, 70_174_000u64)
                &&& dials_of(mode)[11] == ("2m"@, 144_174_000u64)
                &&& dials_of(mode)[12] == ("70cm"@, 432_174_000u64)
            },
        },
{
}

/// How many dials each mode has.
pub proof fn law_the_number_of_dials(mode: Mode)
    ensures
        dials_of(mode).len() == match mode {
            Mode::Js8 => 9int,
            Mode::Psk => 8int,
            Mode::Rtty => 8int,
            Mode::Ft4 => 8int,
            Mode::Ft2 => 8int,
            Mode::Rade => 6int,
            Mode::Sstv => 7int,
            Mode::SstvFm => 3int,
            Mode::RttyFm => 3int,
            Mode::Navtex => 3int,
            Mode::Olivia => 7int,
            Mode::Thor => 7int,
            Mode::Fsq => 7int,
            Mode::Hell => 11int,
            Mode::RfPaint => 0int,
            Mode::Rifp => 4int,
            _ => 13int,
        },
{
}

/// The maritime text service is received 1700 Hz above its dial, on the frequencies
/// that name its channels.
pub proof fn law_navtex_is_received_above_its_dial()
    ensures
        dials_of(Mode::Navtex)[0].0 == "518"@ && dials_of(Mode::Navtex)[0].1 + 1_700 == 518_000,
        dials_of(Mode::Navtex)[1].0 == "490"@ && dials_of(Mode::Navtex)[1].1 + 1_700 == 490_000,
        dials_of(Mode::Navtex)[2].0 == "4209.5"@ && dials_of(Mode::Navtex)[2].1 + 1_700
            == 4_209_500,
{
}

/// Of the dials of a mode the first within the edges of a band is found.
pub proof fn law_the_first_dial_in_the_band(
    dials: Seq<(Seq<char>, u64)>,
    lo: u64,
    hi: u64,
    i: int,
    j: int,
)
    requires
        first_within(dials, lo, hi, i),
        0 <= j < dials.len(),
        lo <= dials[j].1 <= hi,
    ensures
        0 <= i <= j,
        lo <= dials[i].1 <= hi,
{
}

} // verus!
