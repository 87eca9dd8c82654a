//! Droids and moods, and the directory names they are stored under.
use vstd::prelude::*;

verus! {

/// Mood variants for emotional droids like BD-1.
#[derive(Debug, Clone, Copy, PartialEq, Eq, Structural)]
pub enum Mood {
    Happy,
    Sad,
    Angry,
}

/// The droids whose sounds the library knows about.
#[derive(Debug, Clone, Copy, PartialEq, Eq, Structural)]
pub enum DroidType {
    Astro,
    Bd1,
    Do,
    Bb8,
    Chopper,
    Mouse,
    Probe,
    R2,
}

/// The directory name under which a mood's sounds are stored.
pub open spec fn mood_name(m: Mood) -> Seq<char> {
    match m {
        Mood::Happy => "happy"@,
        Mood::Sad => "sad"@,
        Mood::Angry => "angry"@,
    }
}

/// The directory name under which a droid's sounds are stored.
pub open spec fn droid_name(d: DroidType) -> Seq<char> {
    match d {
        DroidType::Astro => "astro"@,
        DroidType::Bd1 => "bd1"@,
        DroidType::Do => "do"@,
        DroidType::Bb8 => "bb8"@,
        DroidType::Chopper => "chopper"@,
        DroidType::Mouse => "mouse"@,
        DroidType::Probe => "probe"@,
        DroidType::R2 => "r2"@,
    }
}

impl Mood {
    /// The mood's directory name.
    pub fn as_str(&self) -> (s: &'static str)
        ensures
            s@ == mood_name(*self),
    {
        match self {
            Mood::Happy => "happy",
            Mood::Sad => "sad",
            Mood::Angry => "angry",
        }
    }
}

impl DroidType {
    /// The droid's directory name.
    pub fn as_str(&self) -> (s: &'static str)
        ensures
            s@ == droid_name(*self),
    {
        match self {
            DroidType::Astro => "astro",
            DroidType::Bd1 => "bd1",
            DroidType::Do => "do",
            DroidType::Bb8 => "bb8",
            DroidType::Chopper => "chopper",
            DroidType::Mouse => "mouse",
            DroidType::Probe => "probe",
            DroidType::R2 => "r2",
        }
    }
}

/// Lower-case ASCII letters and digits only: a name that is safe as a path component.
pub open spec fn is_plain_name(s: Seq<char>) -> bool {
    &&& s.len() > 0
    &&& forall|i: int| 0 <= i < s.len() ==> (('a' <= #[trigger] s[i] && s[i] <= 'z') || ('0' <= s[i] && s[i] <= '9'))
}

proof fn reveal_droid_names()
    ensures
        "astro"@ =~= seq!['a', 's', 't', 'r', 'o'],
        "bd1"@ =~= seq!['b', 'd', '1'],
        "do"@ =~= seq!['d', 'o'],
        "bb8"@ =~= seq!['b', 'b', '8'],
        "chopper"@ =~= seq!['c', 'h', 'o', 'p', 'p', 'e', 'r'],
        "mouse"@ =~= seq!['m', 'o', 'u', 's', 'e'],
        "probe"@ =~= seq!['p', 'r', 'o', 'b', 'e'],
        "r2"@ =~= seq!['r', '2'],
{
    reveal_strlit("astro");
    reveal_strlit("bd1");
    reveal_strlit("do");
    reveal_strlit("bb8");
    reveal_strlit("chopper");
    reveal_strlit("mouse");
    reveal_strlit("probe");
    reveal_strlit("r2");
}

proof fn reveal_mood_names()
    ensures
        "happy"@ =~= seq!['h', 'a', 'p', 'p', 'y'],
        "sad"@ =~= seq!['s', 'a', 'd'],
        "angry"@ =~= seq!['a', 'n', 'g', 'r', 'y'],
{
    reveal_strlit("happy");
    reveal_strlit("sad");
    reveal_strlit("angry");
}

/// Every droid has a directory of its own: different droids never share a
/// directory name, and each name is a plain lower-case component.
pub proof fn lemma_droid_names_distinct(a: DroidType, b: DroidType)
    ensures
        a != b ==> droid_name(a) != droid_name(b),
        is_plain_name(droid_name(a)),
{
    reveal_droid_names();
    if a != b {
        let (x, y) = (droid_name(a), droid_name(b));
        assert(x.len() != y.len() || x[0] != y[0] || x[1] != y[1] || x[2] != y[2]);
    }
}

/// Every mood has a directory of its own: different moods never share a
/// directory name, and each name is a plain lower-case component.
pub proof fn lemma_mood_names_distinct(a: Mood, b: Mood)
    ensures
        a != b ==> mood_name(a) != mood_name(b),
        is_plain_name(mood_name(a)),
{
    reveal_mood_names();
    if a != b {
        let (x, y) = (mood_name(a), mood_name(b));
        assert(x.len() != y.len() || x[0] != y[0]);
    }
}

} // verus!
