//! Names of the workout activity codes carried by metadata entries.
use vstd::prelude::*;
use vstd::string::StringExecFns;

verus! {

/// The name of a known workout activity code.
pub open spec fn known_activity(code: u32) -> Option<Seq<char>> {
    match code {
        1 => Some("AmericanFootball"@),
        2 => Some("Archery"@),
        3 => Some("AustralianFootball"@),
        4 => Some("Badminton"@),
        5 => Some("Baseball"@),
        6 => Some("Basketball"@),
        7 => Some("Bowling"@),
        8 => Some("Boxing"@),
        9 => Some("Climbing"@),
        10 => Some("Cricket"@),
        11 => Some("CrossTraining"@),
        12 => Some("Curling"@),
        13 => Some("Cycling"@),
        14 => Some("Dance"@),
        15 => Some("DanceInspiredTraining"@),
        16 => Some("Elliptical"@),
        17 => Some("EquestrianSports"@),
        18 => Some("Fencing"@),
        19 => Some("Fishing"@),
        20 => Some("FunctionalStrengthTraining"@),
        21 => Some("Golf"@),
        22 => Some("Gymnastics"@),
        23 => Some("Handball"@),
        24 => Some("Hiking"@),
        25 => Some("Hockey"@),
        26 => Some("Hunting"@),
        27 => Some("Lacrosse"@),
        28 => Some("MartialArts"@),
        29 => Some("MindAndBody"@),
        30 => Some("MixedMetabolicCardioTraining"@),
        31 => Some("PaddleSports"@),
        32 => Some("Play"@),
        33 => Some("PreparationAndRecovery"@),
        34 => Some("Racquetball"@),
        35 => Some("Rowing"@),
        36 => Some("Rugby"@),
        37 => Some("Running"@),
        38 => Some("Sailing"@),
        39 => Some("SkatingSports"@),
        40 => Some("SnowSports"@),
        41 => Some("Soccer"@),
        42 => Some("Softball"@),
        43 => Some("Squash"@),
        44 => Some("StairClimbing"@),
        45 => Some("SurfingSports"@),
        46 => Some("Swimming"@),
        47 => Some("TableTennis"@),
        48 => Some("Tennis"@),
        49 => Some("TrackAndField"@),
        50 => Some("TraditionalStrengthTraining"@),
        51 => Some("Volleyball"@),
        52 => Some("Walking"@),
        53 => Some("WaterFitness"@),
        54 => Some("WaterPolo"@),
        55 => Some("WaterSports"@),
        56 => Some("Wrestling"@),
        57 => Some("Yoga"@),
        58 => Some("Barre"@),
        59 => Some("CoreTraining"@),
        60 => Some("CrossCountrySkiing"@),
        61 => Some("DownhillSkiing"@),
        62 => Some("Flexibility"@),
        63 => Some("HighIntensityIntervalTraining"@),
        64 => Some("JumpRope"@),
        65 => Some("Kickboxing"@),
        66 => Some("Pilates"@),
        67 => Some("Snowboarding"@),
        68 => Some("Stairs"@),
        69 => Some("StepTraining"@),
        70 => Some("WheelchairWalkPace"@),
        71 => Some("WheelchairRunPace"@),
        72 => Some("TaiChi"@),
        73 => Some("MixedCardio"@),
        74 => Some("HandCycling"@),
        75 => Some("DiscSports"@),
        76 => Some("FitnessGaming"@),
        77 => Some("CardioDance"@),
        78 => Some("SocialDance"@),
        79 => Some("Pickleball"@),
        80 => Some("Cooldown"@),
        82 => Some("SwimBikeRun"@),
        83 => Some("Transition"@),
        84 => Some("UnderwaterDiving"@),
        3000 => Some("Other"@),
        _ => None,
    }
}

/// The character of a decimal digit.
pub open spec fn digit_char(d: nat) -> char {
    (48 + d % 10) as char
}

/// The decimal text of a number, without leading zeros.
pub open spec fn decimal_text(n: nat) -> Seq<char>
    decreases n,
{
    if n < 10 {
        seq![digit_char(n)]
    } else {
        decimal_text(n / 10).push(digit_char(n % 10))
    }
}

/// The placeholder for a code that names no known activity: `Unknown(<code>)`.
pub open spec fn unknown_activity(code: u32) -> Seq<char> {
    "Unknown("@ + decimal_text(code as nat) + ")"@
}

/// The semantic name of an activity code.
pub open spec fn activity_name(code: u32) -> Seq<char> {
    match known_activity(code) {
        Some(n) => n,
        None => unknown_activity(code),
    }
}

fn known_activity_text(code: u32) -> (r: Option<&'static str>)
    ensures
        r matches Some(s) ==> known_activity(code) == Some(s@),
        r is None ==> known_activity(code) is None,
{
    match code {
        1 => Some("AmericanFootball"),
        2 => Some("Archery"),
        3 => Some("AustralianFootball"),
        4 => Some("Badminton"),
        5 => Some("Baseball"),
        6 => Some("Basketball"),
        7 => Some("Bowling"),
        8 => Some("Boxing"),
        9 => Some("Climbing"),
        10 => Some("Cricket"),
        11 => Some("CrossTraining"),
        12 => Some("Curling"),
        13 => Some("Cycling"),
        14 => Some("Dance"),
        15 => Some("DanceInspiredTraining"),
        16 => Some("Elliptical"),
        17 => Some("EquestrianSports"),
        18 => Some("Fencing"),
        19 => Some("Fishing"),
        20 => Some("FunctionalStrengthTraining"),
        21 => Some("Golf"),
        22 => Some("Gymnastics"),
        23 => Some("Handball"),
        24 => Some("Hiking"),
        25 => Some("Hockey"),
        26 => Some("Hunting"),
        27 => Some("Lacrosse"),
        28 => Some("MartialArts"),
        29 => Some("MindAndBody"),
        30 => Some("MixedMetabolicCardioTraining"),
        31 => Some("PaddleSports"),
        32 => Some("Play"),
        33 => Some("PreparationAndRecovery"),
        34 => Some("Racquetball"),
        35 => Some("Rowing"),
        36 => Some("Rugby"),
        37 => Some("Running"),
        38 => Some("Sailing"),
        39 => Some("SkatingSports"),
        40 => Some("SnowSports"),
        41 => Some("Soccer"),
        42 => Some("Softball"),
        43 => Some("Squash"),
        44 => Some("StairClimbing"),
        45 => Some("SurfingSports"),
        46 => Some("Swimming"),
        47 => Some("TableTennis"),
        48 => Some("Tennis"),
        49 => Some("TrackAndField"),
        50 => Some("TraditionalStrengthTraining"),
        51 => Some("Volleyball"),
        52 => Some("Walking"),
        53 => Some("WaterFitness"),
        54 => Some("WaterPolo"),
        55 => Some("WaterSports"),
        56 => Some("Wrestling"),
        57 => Some("Yoga"),
        58 => Some("Barre"),
        59 => Some("CoreTraining"),
        60 => Some("CrossCountrySkiing"),
        61 => Some("DownhillSkiing"),
        62 => Some("Flexibility"),
        63 => Some("HighIntensityIntervalTraining"),
        64 => Some("JumpRope"),
        65 => Some("Kickboxing"),
        66 => Some("Pilates"),
        67 => Some("Snowboarding"),
        68 => Some("Stairs"),
        69 => Some("StepTraining"),
        70 => Some("WheelchairWalkPace"),
        71 => Some("WheelchairRunPace"),
        72 => Some("TaiChi"),
        73 => Some("MixedCardio"),
        74 => Some("HandCycling"),
        75 => Some("DiscSports"),
        76 => Some("FitnessGaming"),
        77 => Some("CardioDance"),
        78 => Some("SocialDance"),
        79 => Some("Pickleball"),
        80 => Some("Cooldown"),
        82 => Some("SwimBikeRun"),
        83 => Some("Transition"),
        84 => Some("UnderwaterDiving"),
        3000 => Some("Other"),
        _ => None,
    }
}

fn digit_text(d: u32) -> (r: &'static str)
    requires
        d < 10,
    ensures
        r@ == seq![digit_char(d as nat)],
{
    proof {
        reveal_strlit("0");
        reveal_strlit("1");
        reveal_strlit("2");
        reveal_strlit("3");
        reveal_strlit("4");
        reveal_strlit("5");
        reveal_strlit("6");
        reveal_strlit("7");
        reveal_strlit("8");
        reveal_strlit("9");
    }
    match d {
        0 => "0",
        1 => "1",
        2 => "2",
        3 => "3",
        4 => "4",
        5 => "5",
        6 => "6",
        7 => "7",
        8 => "8",
        _ => "9",
    }
}

/// Appends the decimal text of `n` to `out`.
pub fn push_decimal(out: &mut String, n: u32)
    ensures
        final(out)@ == old(out)@ + decimal_text(n as nat),
    decreases n,
{
    if n >= 10 {
        push_decimal(out, n / 10);
    }
    let d = digit_text(n % 10);
    out.append(d);
    assert(final(out)@ =~= old(out)@ + decimal_text(n as nat));
}

/// Translates an activity code to its name. Unknown codes give `Unknown(<code>)`.
pub fn translate(code: u32) -> (r: String)
    ensures
        r@ == activity_name(code),
{
    match known_activity_text(code) {
        Some(s) => s.to_owned(),
        None => {
            let mut out = String::from_str("Unknown(");
            push_decimal(&mut out, code);
            out.append(")");
            assert(out@ =~= unknown_activity(code));
            out
        },
    }
}

/// Each known name is non-empty and ends in a letter.
pub proof fn lemma_known_activity_shape(code: u32)
    ensures
        known_activity(code) matches Some(n) ==> n.len() > 0 && n.last() != ')',
{
    reveal_strlit("AmericanFootball");
    reveal_strlit("Archery");
    reveal_strlit("AustralianFootball");
    reveal_strlit("Badminton");
    reveal_strlit("Baseball");
    reveal_strlit("Basketball");
    reveal_strlit("Bowling");
    reveal_strlit("Boxing");
    reveal_strlit("Climbing");
    reveal_strlit("Cricket");
    reveal_strlit("CrossTraining");
    reveal_strlit("Curling");
    reveal_strlit("Cycling");
    reveal_strlit("Dance");
    reveal_strlit("DanceInspiredTraining");
    reveal_strlit("Elliptical");
    reveal_strlit("EquestrianSports");
    reveal_strlit("Fencing");
    reveal_strlit("Fishing");
    reveal_strlit("FunctionalStrengthTraining");
    reveal_strlit("Golf");
    reveal_strlit("Gymnastics");
    reveal_strlit("Handball");
    reveal_strlit("Hiking");
    reveal_strlit("Hockey");
    reveal_strlit("Hunting");
    reveal_strlit("Lacrosse");
    reveal_strlit("MartialArts");
    reveal_strlit("MindAndBody");
    reveal_strlit("MixedMetabolicCardioTraining");
    reveal_strlit("PaddleSports");
    reveal_strlit("Play");
    reveal_strlit("PreparationAndRecovery");
    reveal_strlit("Racquetball");
    reveal_strlit("Rowing");
    reveal_strlit("Rugby");
    reveal_strlit("Running");
    reveal_strlit("Sailing");
    reveal_strlit("SkatingSports");
    reveal_strlit("SnowSports");
    reveal_strlit("Soccer");
    reveal_strlit("Softball");
    reveal_strlit("Squash");
    reveal_strlit("StairClimbing");
    reveal_strlit("SurfingSports");
    reveal_strlit("Swimming");
    reveal_strlit("TableTennis");
    reveal_strlit("Tennis");
    reveal_strlit("TrackAndField");
    reveal_strlit("TraditionalStrengthTraining");
    reveal_strlit("Volleyball");
    reveal_strlit("Walking");
    reveal_strlit("WaterFitness");
    reveal_strlit("WaterPolo");
    reveal_strlit("WaterSports");
    reveal_strlit("Wrestling");
    reveal_strlit("Yoga");
    reveal_strlit("Barre");
    reveal_strlit("CoreTraining");
    reveal_strlit("CrossCountrySkiing");
    reveal_strlit("DownhillSkiing");
    reveal_strlit("Flexibility");
    reveal_strlit("HighIntensityIntervalTraining");
    reveal_strlit("JumpRope");
    reveal_strlit("Kickboxing");
    reveal_strlit("Pilates");
    reveal_strlit("Snowboarding");
    reveal_strlit("Stairs");
    reveal_strlit("StepTraining");
    reveal_strlit("WheelchairWalkPace");
    reveal_strlit("WheelchairRunPace");
    reveal_strlit("TaiChi");
    reveal_strlit("MixedCardio");
    reveal_strlit("HandCycling");
    reveal_strlit("DiscSports");
    reveal_strlit("FitnessGaming");
    reveal_strlit("CardioDance");
    reveal_strlit("SocialDance");
    reveal_strlit("Pickleball");
    reveal_strlit("Cooldown");
    reveal_strlit("SwimBikeRun");
    reveal_strlit("Transition");
    reveal_strlit("UnderwaterDiving");
    reveal_strlit("Other");
}

/// The translation is total: every code has a non-empty name, and the name of a
/// code outside the known set is none of the known names.
pub proof fn lemma_translation_total(code: u32)
    ensures
        activity_name(code).len() > 0,
        known_activity(code) is None ==> forall|other: u32| known_activity(other) != Some(#[trigger] activity_name(code)),
{
    reveal_strlit(")");
    lemma_known_activity_shape(code);
    if known_activity(code) is None {
        let n = activity_name(code);
        assert(n.last() == ')');
        assert forall|other: u32| known_activity(other) != Some(#[trigger] activity_name(code)) by {
            lemma_known_activity_shape(other);
        }
    }
}

} // verus!
