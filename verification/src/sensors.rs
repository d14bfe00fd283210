//! Temperature sensor collection: normalization, ranking and
//! deduplication.
//!
//! Temperatures are carried as integer millidegrees Celsius, exactly as the
//! thermal pseudo-filesystems report them; a degree reading is the
//! millidegree value divided by one thousand. The caller reads the raw
//! pseudo-filesystem files and hands their contents here; parsing, label
//! fallbacks, ranking and deduplication are pure, fully specified
//! computations.

use vstd::prelude::*;
use vstd::string::StringExecFns;

use crate::mset::{lemma_to_multiset_insert, lemma_to_multiset_pop};
use crate::strutil::{
    dec_str, parse_i32, parse_i32_spec, spec_starts_with, spec_trim, str_starts_with, str_trim,
    to_decimal,
};

verus! {

/// One temperature sensor: a source name, a best-effort human label, and
/// the reading in millidegrees Celsius.
#[derive(Debug, Clone)]
pub struct TemperatureSensor {
    pub name: String,
    pub millidegrees: i32,
    pub label: String,
}

/// Millidegree thresholds of the severity bands: readings below 50 degrees
/// are normal, below 70 warm, below 85 hot, and at or above 85 critical.
pub const WARM_MILLIDEGREES: i32 = 50000;

/// The lower bound of the hot band, in millidegrees.
pub const HOT_MILLIDEGREES: i32 = 70000;

/// The lower bound of the critical band, in millidegrees.
pub const CRITICAL_MILLIDEGREES: i32 = 85000;

/// The severity label of a reading: the bands are inclusive at their lower
/// bound and exclusive at their upper bound.
pub open spec fn spec_temperature_status(millidegrees: i32) -> Seq<char> {
    if millidegrees < WARM_MILLIDEGREES {
        "Normal"@
    } else if millidegrees < HOT_MILLIDEGREES {
        "Warm"@
    } else if millidegrees < CRITICAL_MILLIDEGREES {
        "Hot"@
    } else {
        "Critical"@
    }
}

/// Classifies a reading, exactly as `spec_temperature_status` describes.
pub fn temperature_status(millidegrees: i32) -> (r: &'static str)
    ensures
        r@ == spec_temperature_status(millidegrees),
{
    if millidegrees < WARM_MILLIDEGREES {
        "Normal"
    } else if millidegrees < HOT_MILLIDEGREES {
        "Warm"
    } else if millidegrees < CRITICAL_MILLIDEGREES {
        "Hot"
    } else {
        "Critical"
    }
}

/// The dedup epsilon: readings within a tenth of a degree (100
/// millidegrees) of each other count as the same temperature.
pub const DEDUP_EPSILON_MILLIDEGREES: i32 = 100;

/// Whether two sensors are near-identical: their readings differ by less
/// than the epsilon and their labels match exactly.
pub open spec fn near_duplicate(a: TemperatureSensor, b: TemperatureSensor) -> bool {
    -(DEDUP_EPSILON_MILLIDEGREES as int) < a.millidegrees - b.millidegrees
        < DEDUP_EPSILON_MILLIDEGREES as int && a.label@ == b.label@
}

/// Executable near-duplicate test, equal to `near_duplicate`.
pub fn is_near_duplicate(a: &TemperatureSensor, b: &TemperatureSensor) -> (r: bool)
    ensures
        r == near_duplicate(*a, *b),
{
    let d: i64 = a.millidegrees as i64 - b.millidegrees as i64;
    -(DEDUP_EPSILON_MILLIDEGREES as i64) < d && d < DEDUP_EPSILON_MILLIDEGREES as i64 && a.label
        == b.label
}

/// Whether the sensors are ordered by reading, hottest first.
pub open spec fn sorted_desc_by_temp(s: Seq<TemperatureSensor>) -> bool {
    forall|i: int, j: int|
        0 <= i < j < s.len() ==> (#[trigger] s[i]).millidegrees >= (
        #[trigger] s[j]).millidegrees
}

/// Inserts a sensor into a reading-ordered vector, keeping the order and
/// adding exactly that sensor to the contents.
fn insert_sensor_sorted(out: &mut Vec<TemperatureSensor>, x: TemperatureSensor)
    requires
        sorted_desc_by_temp(old(out)@),
    ensures
        sorted_desc_by_temp(final(out)@),
        final(out)@.to_multiset() == old(out)@.to_multiset().insert(x),
{
    let mut pos: usize = 0;
    while pos < out.len() && out[pos].millidegrees >= x.millidegrees
        invariant
            0 <= pos <= out@.len(),
            out@ == old(out)@,
            forall|k: int| 0 <= k < pos ==> (#[trigger] out@[k]).millidegrees >= x.millidegrees,
        decreases out@.len() - pos,
    {
        pos += 1;
    }
    let ghost before = out@;
    proof {
        lemma_to_multiset_insert(before, pos as int, x);
        before.insert_ensures(pos as int, x);
    }
    out.insert(pos, x);
    proof {
        let after = out@;
        assert forall|i: int, j: int|
            0 <= i < j < after.len() implies (#[trigger] after[i]).millidegrees >= (
        #[trigger] after[j]).millidegrees by {
            if j < pos {
                assert(after[i] == before[i]);
                assert(after[j] == before[j]);
            } else if pos < i {
                assert(after[i] == before[i - 1]);
                assert(after[j] == before[j - 1]);
            } else if i == pos {
                assert(after[j] == before[j - 1]);
                assert(before[pos as int].millidegrees < x.millidegrees);
                if pos < j - 1 {
                    assert(before[pos as int].millidegrees >= before[j - 1].millidegrees);
                }
            } else if j == pos {
                assert(after[i] == before[i]);
                assert(before[i].millidegrees >= x.millidegrees);
            } else {
                assert(after[i] == before[i]);
                assert(after[j] == before[j - 1]);
                assert(before[i].millidegrees >= x.millidegrees);
                assert(before[pos as int].millidegrees < x.millidegrees);
                if pos < j - 1 {
                    assert(before[pos as int].millidegrees >= before[j - 1].millidegrees);
                }
            }
        }
    }
}

/// Sorts the sensors by reading, hottest first, returning a reordering of
/// exactly the given sensors.
pub fn sort_sensors_desc(input: Vec<TemperatureSensor>) -> (out: Vec<TemperatureSensor>)
    ensures
        sorted_desc_by_temp(out@),
        out@.to_multiset() == input@.to_multiset(),
{
    let mut rest = input;
    let mut out: Vec<TemperatureSensor> = Vec::new();
    proof {
        broadcast use vstd::multiset::group_multiset_axioms;
        broadcast use vstd::seq_lib::group_to_multiset_ensures;

        assert(out@.to_multiset().len() == 0);
        assert forall|y: TemperatureSensor|
            out@.to_multiset().add(rest@.to_multiset()).count(y) == input@.to_multiset().count(
                y,
            ) by {
            assert(out@.to_multiset().count(y) <= out@.to_multiset().len());
        }
        assert(out@.to_multiset().add(rest@.to_multiset()) =~= input@.to_multiset());
    }
    while rest.len() > 0
        invariant
            sorted_desc_by_temp(out@),
            out@.to_multiset().add(rest@.to_multiset()) == input@.to_multiset(),
        decreases rest@.len(),
    {
        let ghost rest_before = rest@;
        let x_opt = rest.pop();
        match x_opt {
            Some(x) => {
                proof {
                    broadcast use vstd::multiset::group_multiset_axioms;

                    lemma_to_multiset_pop(rest_before);
                }
                insert_sensor_sorted(&mut out, x);
                proof {
                    broadcast use vstd::multiset::group_multiset_axioms;

                    assert(out@.to_multiset().add(rest@.to_multiset()) =~= input@.to_multiset());
                }
            },
            None => {},
        }
    }
    proof {
        broadcast use vstd::multiset::group_multiset_axioms;
        broadcast use vstd::seq_lib::group_to_multiset_ensures;

        assert(rest@.to_multiset().len() == 0);
        assert forall|y: TemperatureSensor|
            out@.to_multiset().count(y) == input@.to_multiset().count(y) by {
            assert(rest@.to_multiset().count(y) <= rest@.to_multiset().len());
            assert(out@.to_multiset().add(rest@.to_multiset()).count(y) == input@.to_multiset()
                .count(y));
        }
        assert(out@.to_multiset() =~= input@.to_multiset());
    }
    out
}

/// The adjacent deduplication: walking left to right, an element whose
/// reading is within the epsilon of the last kept element's and whose label
/// matches it exactly is dropped; every other element is kept.
pub open spec fn dedup_adjacent(s: Seq<TemperatureSensor>) -> Seq<TemperatureSensor>
    decreases s.len(),
{
    if s.len() == 0 {
        seq![]
    } else {
        let d = dedup_adjacent(s.drop_last());
        if d.len() > 0 && near_duplicate(s.last(), d.last()) {
            d
        } else {
            d.push(s.last())
        }
    }
}

/// Whether no element is a near-duplicate of its predecessor.
pub open spec fn is_deduped(s: Seq<TemperatureSensor>) -> bool {
    forall|i: int| 0 <= i < s.len() - 1 ==> !(#[trigger] near_duplicate(s[i + 1], s[i]))
}

/// Removes adjacent near-duplicates, exactly as `dedup_adjacent`
/// describes: of each run of near-identical sensors the first stays.
pub fn dedup_sensors(input: Vec<TemperatureSensor>) -> (r: Vec<TemperatureSensor>)
    ensures
        r@ == dedup_adjacent(input@),
{
    let ghost orig = input@;
    let mut rest = input;
    let mut out: Vec<TemperatureSensor> = Vec::new();
    let ghost mut i: int = 0;
    proof {
        assert(orig.skip(0) =~= orig);
        assert(orig.take(0) =~= Seq::<TemperatureSensor>::empty());
    }
    while rest.len() > 0
        invariant
            0 <= i <= orig.len(),
            rest@ == orig.skip(i),
            out@ == dedup_adjacent(orig.take(i)),
        decreases rest@.len(),
    {
        let x = rest.remove(0);
        proof {
            assert(orig.skip(i).remove(0) =~= orig.skip(i + 1));
            assert(x == orig[i]);
            assert(orig.take(i + 1).drop_last() =~= orig.take(i));
            assert(orig.take(i + 1).last() == orig[i]);
        }
        let keep = if out.len() == 0 {
            true
        } else {
            !is_near_duplicate(&x, &out[out.len() - 1])
        };
        if keep {
            out.push(x);
        }
        proof {
            i = i + 1;
        }
    }
    proof {
        assert(orig.take(orig.len() as int) =~= orig);
    }
    out
}

/// The deduplication never leaves two adjacent near-duplicates behind.
pub proof fn lemma_dedup_is_deduped(s: Seq<TemperatureSensor>)
    ensures
        is_deduped(dedup_adjacent(s)),
    decreases s.len(),
{
    if s.len() > 0 {
        lemma_dedup_is_deduped(s.drop_last());
        let d = dedup_adjacent(s.drop_last());
        let cur = dedup_adjacent(s);
        if d.len() > 0 && near_duplicate(s.last(), d.last()) {
        } else {
            assert forall|i: int|
                0 <= i < cur.len() - 1 implies !(#[trigger] near_duplicate(
                cur[i + 1],
                cur[i],
            )) by {
                if i + 1 < d.len() {
                    assert(cur[i] == d[i]);
                    assert(cur[i + 1] == d[i + 1]);
                } else {
                    assert(cur[i + 1] == s.last());
                    assert(cur[i] == d[i]);
                    assert(i == d.len() - 1);
                }
            }
        }
    }
}

/// Deduplicating an already-deduplicated sequence changes nothing.
pub proof fn lemma_dedup_of_deduped(s: Seq<TemperatureSensor>)
    requires
        is_deduped(s),
    ensures
        dedup_adjacent(s) == s,
    decreases s.len(),
{
    if s.len() > 0 {
        assert forall|i: int|
            0 <= i < s.drop_last().len() - 1 implies !(#[trigger] near_duplicate(
            s.drop_last()[i + 1],
            s.drop_last()[i],
        )) by {
            assert(s.drop_last()[i + 1] == s[i + 1]);
            assert(s.drop_last()[i] == s[i]);
            assert(!near_duplicate(s[i + 1], s[i]));
        }
        lemma_dedup_of_deduped(s.drop_last());
        let d = dedup_adjacent(s.drop_last());
        if d.len() > 0 && near_duplicate(s.last(), d.last()) {
            assert(d.last() == s[s.len() - 2]);
            assert(!near_duplicate(s[s.len() - 2 + 1], s[s.len() - 2]));
            assert(s[s.len() - 2 + 1] == s.last());
            assert(false);
        } else {
            assert(d.push(s.last()) =~= s);
        }
    }
}

/// Deduplication is idempotent: running it twice yields what running it
/// once yields, on every input.
pub proof fn lemma_dedup_idempotent(s: Seq<TemperatureSensor>)
    ensures
        dedup_adjacent(dedup_adjacent(s)) == dedup_adjacent(s),
{
    lemma_dedup_is_deduped(s);
    lemma_dedup_of_deduped(dedup_adjacent(s));
}

/// Deduplication of a reading-ordered sequence stays ordered, and never
/// empties a non-empty sequence; the last kept reading is at least the
/// last input reading.
pub proof fn lemma_dedup_preserves_sorted(s: Seq<TemperatureSensor>)
    requires
        sorted_desc_by_temp(s),
    ensures
        sorted_desc_by_temp(dedup_adjacent(s)),
        s.len() > 0 ==> dedup_adjacent(s).len() > 0 && dedup_adjacent(s).last().millidegrees
            >= s.last().millidegrees,
    decreases s.len(),
{
    if s.len() > 0 {
        assert forall|i: int, j: int|
            0 <= i < j < s.drop_last().len() implies (#[trigger] s.drop_last()[i]).millidegrees
            >= (#[trigger] s.drop_last()[j]).millidegrees by {
            assert(s.drop_last()[i] == s[i]);
            assert(s.drop_last()[j] == s[j]);
        }
        lemma_dedup_preserves_sorted(s.drop_last());
        let d = dedup_adjacent(s.drop_last());
        let cur = dedup_adjacent(s);
        if d.len() > 0 && near_duplicate(s.last(), d.last()) {
            if s.len() >= 2 {
                assert(d.last().millidegrees >= s[s.len() - 2].millidegrees);
                assert(s[s.len() - 2].millidegrees >= s.last().millidegrees);
            }
        } else {
            assert forall|i: int, j: int|
                0 <= i < j < cur.len() implies (#[trigger] cur[i]).millidegrees >= (
            #[trigger] cur[j]).millidegrees by {
                if j < d.len() {
                    assert(cur[i] == d[i]);
                    assert(cur[j] == d[j]);
                } else {
                    assert(cur[j] == s.last());
                    assert(cur[i] == d[i]);
                    if s.len() >= 2 {
                        assert(d.last().millidegrees >= s[s.len() - 2].millidegrees);
                        assert(s[s.len() - 2].millidegrees >= s.last().millidegrees);
                        assert(d[i].millidegrees >= d.last().millidegrees);
                    }
                }
            }
        }
    }
}

/// The highest hardware-monitor sensor index probed per chip: indices 1
/// through this bound are probed by existence check, never discovered
/// dynamically.
pub const HWMON_SENSOR_PROBE_MAX: u64 = 19;

/// The raw files of one thermal zone: the zone's directory name, the
/// contents of its millidegree reading file, and the contents of its type
/// file, each `None` when absent or unreadable.
pub struct ThermalZoneReading {
    pub zone_name: String,
    pub temp_file: Option<String>,
    pub type_file: Option<String>,
}

/// The raw files of one probed hardware-monitor input: its index, the
/// contents of its millidegree input file, and the contents of its label
/// file, each `None` when absent or unreadable.
pub struct HwmonInput {
    pub index: u64,
    pub input_file: Option<String>,
    pub label_file: Option<String>,
}

/// The raw files of one hardware-monitor chip: its directory name, the
/// contents of its name file (`None` when absent or unreadable), and its
/// probed inputs.
pub struct HwmonChipReading {
    pub dir_name: String,
    pub name_file: Option<String>,
    pub inputs: Vec<HwmonInput>,
}

/// A sensor described by plain values: its name, reading and label views.
pub open spec fn sensor_matches(
    s: TemperatureSensor,
    name: Seq<char>,
    millidegrees: int,
    label: Seq<char>,
) -> bool {
    s.name@ == name && s.millidegrees == millidegrees && s.label@ == label
}

/// What one thermal zone contributes: nothing unless its name starts with
/// the thermal-zone prefix and its reading file holds a parseable
/// millidegree integer after trimming; otherwise a sensor named after the
/// zone, labelled by the trimmed type file, falling back to the trimmed
/// zone name.
pub open spec fn zone_view(z: ThermalZoneReading) -> Option<(Seq<char>, int, Seq<char>)> {
    if !spec_starts_with(z.zone_name@, "thermal_zone"@) {
        None
    } else {
        match z.temp_file {
            None => None,
            Some(t) => match parse_i32_spec(spec_trim(t@)) {
                None => None,
                Some(m) => {
                    let label = match z.type_file {
                        Some(ty) => spec_trim(ty@),
                        None => spec_trim(z.zone_name@),
                    };
                    Some((z.zone_name@, m as int, label))
                },
            },
        }
    }
}

/// What one hardware-monitor input contributes: nothing unless its input
/// file holds a parseable millidegree integer after trimming; otherwise a
/// sensor labelled by the trimmed label file (falling back to a generic
/// indexed label), named by the trimmed chip name (falling back to the
/// trimmed directory name) joined to the label.
pub open spec fn hwmon_input_view(chip: HwmonChipReading, inp: HwmonInput) -> Option<
    (Seq<char>, int, Seq<char>),
> {
    match inp.input_file {
        None => None,
        Some(t) => match parse_i32_spec(spec_trim(t@)) {
            None => None,
            Some(m) => {
                let label = match inp.label_file {
                    Some(l) => spec_trim(l@),
                    None => "Sensor "@ + dec_str(inp.index as nat),
                };
                let chip_name = match chip.name_file {
                    Some(n) => spec_trim(n@),
                    None => spec_trim(chip.dir_name@),
                };
                Some((chip_name + " - "@ + label, m as int, label))
            },
        },
    }
}

/// An optional contribution as a sequence of zero or one entries.
pub open spec fn opt_view_seq(o: Option<(Seq<char>, int, Seq<char>)>) -> Seq<
    (Seq<char>, int, Seq<char>),
> {
    match o {
        Some(x) => seq![x],
        None => seq![],
    }
}

/// The contributions of a list of thermal zones, in order.
pub open spec fn zone_views(zs: Seq<ThermalZoneReading>) -> Seq<(Seq<char>, int, Seq<char>)>
    decreases zs.len(),
{
    if zs.len() == 0 {
        seq![]
    } else {
        zone_views(zs.drop_last()) + opt_view_seq(zone_view(zs.last()))
    }
}

/// The contributions of one chip's probed inputs, in order.
pub open spec fn chip_views(chip: HwmonChipReading, inputs: Seq<HwmonInput>) -> Seq<
    (Seq<char>, int, Seq<char>),
>
    decreases inputs.len(),
{
    if inputs.len() == 0 {
        seq![]
    } else {
        chip_views(chip, inputs.drop_last()) + opt_view_seq(
            hwmon_input_view(chip, inputs.last()),
        )
    }
}

/// The contributions of a list of chips, in order.
pub open spec fn chips_views(cs: Seq<HwmonChipReading>) -> Seq<(Seq<char>, int, Seq<char>)>
    decreases cs.len(),
{
    if cs.len() == 0 {
        seq![]
    } else {
        chips_views(cs.drop_last()) + chip_views(cs.last(), cs.last().inputs@)
    }
}

/// Every sensor the two sources contribute: thermal zones first, then the
/// hardware-monitor chips, in input order.
pub open spec fn sensor_views(
    zs: Seq<ThermalZoneReading>,
    cs: Seq<HwmonChipReading>,
) -> Seq<(Seq<char>, int, Seq<char>)> {
    zone_views(zs) + chips_views(cs)
}

/// Whether the sensors in `raw` are described, element by element, by the
/// views in `views`.
pub open spec fn views_match(
    raw: Seq<TemperatureSensor>,
    views: Seq<(Seq<char>, int, Seq<char>)>,
) -> bool {
    raw.len() == views.len() && forall|i: int|
        0 <= i < raw.len() ==> sensor_matches(
            #[trigger] raw[i],
            views[i].0,
            views[i].1,
            views[i].2,
        )
}

/// Normalizes one thermal zone, exactly as `zone_view` describes.
fn normalize_zone(z: &ThermalZoneReading) -> (r: Option<TemperatureSensor>)
    ensures
        match r {
            None => zone_view(*z) is None,
            Some(s) => match zone_view(*z) {
                Some(v) => sensor_matches(s, v.0, v.1, v.2),
                None => false,
            },
        },
{
    if !str_starts_with(z.zone_name.as_str(), "thermal_zone") {
        return None;
    }
    match &z.temp_file {
        None => None,
        Some(t) => {
            let trimmed = str_trim(t.as_str());
            match parse_i32(trimmed.as_str()) {
                None => None,
                Some(m) => {
                    let label = match &z.type_file {
                        Some(ty) => str_trim(ty.as_str()),
                        None => str_trim(z.zone_name.as_str()),
                    };
                    Some(
                        TemperatureSensor {
                            name: z.zone_name.clone(),
                            millidegrees: m,
                            label,
                        },
                    )
                },
            }
        },
    }
}

/// Normalizes one hardware-monitor input, exactly as `hwmon_input_view`
/// describes.
fn normalize_hwmon_input(chip: &HwmonChipReading, inp: &HwmonInput) -> (r: Option<
    TemperatureSensor,
>)
    ensures
        match r {
            None => hwmon_input_view(*chip, *inp) is None,
            Some(s) => match hwmon_input_view(*chip, *inp) {
                Some(v) => sensor_matches(s, v.0, v.1, v.2),
                None => false,
            },
        },
{
    match &inp.input_file {
        None => None,
        Some(t) => {
            let trimmed = str_trim(t.as_str());
            match parse_i32(trimmed.as_str()) {
                None => None,
                Some(m) => {
                    let label = match &inp.label_file {
                        Some(l) => str_trim(l.as_str()),
                        None => {
                            let mut g = String::from_str("Sensor ");
                            let digits = to_decimal(inp.index);
                            g.append(digits.as_str());
                            g
                        },
                    };
                    let mut name = match &chip.name_file {
                        Some(n) => str_trim(n.as_str()),
                        None => str_trim(chip.dir_name.as_str()),
                    };
                    name.append(" - ");
                    name.append(label.as_str());
                    Some(TemperatureSensor { name, millidegrees: m, label })
                },
            }
        },
    }
}

/// Normalizes all readings of both sources into sensors, in source order,
/// matching `sensor_views` element by element.
pub fn normalize_readings(
    zones: &Vec<ThermalZoneReading>,
    chips: &Vec<HwmonChipReading>,
) -> (r: Vec<TemperatureSensor>)
    ensures
        views_match(r@, sensor_views(zones@, chips@)),
{
    let mut out: Vec<TemperatureSensor> = Vec::new();
    let mut i: usize = 0;
    proof {
        assert(zones@.take(0) =~= Seq::<ThermalZoneReading>::empty());
    }
    while i < zones.len()
        invariant
            0 <= i <= zones@.len(),
            views_match(out@, zone_views(zones@.take(i as int))),
        decreases zones@.len() - i,
    {
        proof {
            assert(zones@.take(i + 1).drop_last() =~= zones@.take(i as int));
            assert(zones@.take(i + 1).last() == zones@[i as int]);
        }
        match normalize_zone(&zones[i]) {
            None => {},
            Some(s) => {
                out.push(s);
            },
        }
        i += 1;
    }
    proof {
        assert(zones@.take(zones@.len() as int) =~= zones@);
        assert(chips@.take(0) =~= Seq::<HwmonChipReading>::empty());
        assert(zone_views(zones@) + chips_views(chips@.take(0)) =~= zone_views(zones@));
    }
    let mut c: usize = 0;
    while c < chips.len()
        invariant
            0 <= c <= chips@.len(),
            views_match(out@, zone_views(zones@) + chips_views(chips@.take(c as int))),
        decreases chips@.len() - c,
    {
        proof {
            assert(chips@.take(c + 1).drop_last() =~= chips@.take(c as int));
            assert(chips@.take(c + 1).last() == chips@[c as int]);
        }
        let chip = &chips[c];
        let mut k: usize = 0;
        proof {
            assert(chip.inputs@.take(0) =~= Seq::<HwmonInput>::empty());
            assert(zone_views(zones@) + chips_views(chips@.take(c as int)) + chip_views(
                *chip,
                chip.inputs@.take(0),
            ) =~= zone_views(zones@) + chips_views(chips@.take(c as int)));
        }
        while k < chip.inputs.len()
            invariant
                0 <= k <= chip.inputs@.len(),
                0 <= c < chips@.len(),
                *chip == chips@[c as int],
                views_match(
                    out@,
                    zone_views(zones@) + chips_views(chips@.take(c as int)) + chip_views(
                        *chip,
                        chip.inputs@.take(k as int),
                    ),
                ),
            decreases chip.inputs@.len() - k,
        {
            proof {
                assert(chip.inputs@.take(k + 1).drop_last() =~= chip.inputs@.take(k as int));
                assert(chip.inputs@.take(k + 1).last() == chip.inputs@[k as int]);
            }
            match normalize_hwmon_input(chip, &chip.inputs[k]) {
                None => {},
                Some(s) => {
                    out.push(s);
                },
            }
            k += 1;
        }
        proof {
            assert(chip.inputs@.take(chip.inputs@.len() as int) =~= chip.inputs@);
            assert(zone_views(zones@) + (chips_views(chips@.take(c as int)) + chip_views(
                *chip,
                chip.inputs@,
            )) =~= zone_views(zones@) + chips_views(chips@.take(c as int)) + chip_views(
                *chip,
                chip.inputs@,
            ));
            assert(chips_views(chips@.take(c + 1)) == chips_views(chips@.take(c as int))
                + chip_views(chips@[c as int], chips@[c as int].inputs@));
        }
        c += 1;
    }
    proof {
        assert(chips@.take(chips@.len() as int) =~= chips@);
    }
    out
}

/// Whether `out` is the adjacent deduplication of some hottest-first
/// ordering of the pool `pool`.
pub open spec fn ranked_from(
    out: Seq<TemperatureSensor>,
    pool: Seq<TemperatureSensor>,
) -> bool {
    exists|mid: Seq<TemperatureSensor>|
        mid.to_multiset() == pool.to_multiset() && sorted_desc_by_temp(mid) && out == (
        #[trigger] dedup_adjacent(mid))
}

/// Ranks a pool of sensors: sorts hottest first, then removes adjacent
/// near-duplicates. The result is ordered, has no adjacent
/// near-duplicates, and is the deduplication of an ordering of exactly the
/// given pool.
pub fn rank_sensors(sensors: Vec<TemperatureSensor>) -> (r: Vec<TemperatureSensor>)
    ensures
        ranked_from(r@, sensors@),
        sorted_desc_by_temp(r@),
        is_deduped(r@),
{
    let ghost pool = sensors@;
    let sorted = sort_sensors_desc(sensors);
    let ghost mid = sorted@;
    let r = dedup_sensors(sorted);
    proof {
        lemma_dedup_preserves_sorted(mid);
        lemma_dedup_is_deduped(mid);
        assert(mid.to_multiset() == pool.to_multiset() && sorted_desc_by_temp(mid) && r@
            == dedup_adjacent(mid));
    }
    r
}

/// Collects the temperature sensors of both pseudo-filesystem sources:
/// normalizes every reading (`sensor_views`), sorts hottest first, and
/// removes adjacent near-duplicates. Only duplicates that end up adjacent
/// after the sort are merged: near-identical readings from the two sources
/// that diverge by more than the epsilon stay separate by design.
pub fn get_temperatures(
    zones: &Vec<ThermalZoneReading>,
    chips: &Vec<HwmonChipReading>,
) -> (r: Vec<TemperatureSensor>)
    ensures
        exists|raw: Seq<TemperatureSensor>|
            #[trigger] views_match(raw, sensor_views(zones@, chips@)) && ranked_from(r@, raw),
        sorted_desc_by_temp(r@),
        is_deduped(r@),
{
    let raw = normalize_readings(zones, chips);
    let ghost graw = raw@;
    let r = rank_sensors(raw);
    proof {
        assert(views_match(graw, sensor_views(zones@, chips@)) && ranked_from(r@, graw));
    }
    r
}

} // verus!
