//! The closed set of tone categories, their labels and their trigger words.

use vstd::prelude::*;

verus! {

/// The tone categories, in declaration order.
///
/// The declaration order is the canonical iteration order for scoring, and
/// it breaks ties between categories with equal scores, so the classifier
/// is deterministic.
#[derive(Clone, Copy, PartialEq, Eq, Structural, Debug)]
pub enum Tone {
    Professional,
    Casual,
    Technical,
    Creative,
    Instructional,
    Analytical,
    Interrogative,
    Urgent,
}

/// Position of a category in the declaration order.
pub open spec fn decl_index(t: Tone) -> int {
    match t {
        Tone::Professional => 0,
        Tone::Casual => 1,
        Tone::Technical => 2,
        Tone::Creative => 3,
        Tone::Instructional => 4,
        Tone::Analytical => 5,
        Tone::Interrogative => 6,
        Tone::Urgent => 7,
    }
}

/// Position of a category in the declaration order.
pub fn decl_pos(t: Tone) -> (i: usize)
    ensures
        i == decl_index(t),
{
    match t {
        Tone::Professional => 0,
        Tone::Casual => 1,
        Tone::Technical => 2,
        Tone::Creative => 3,
        Tone::Instructional => 4,
        Tone::Analytical => 5,
        Tone::Interrogative => 6,
        Tone::Urgent => 7,
    }
}

/// All categories, in declaration order.
pub open spec fn spec_all_tones() -> Seq<Tone> {
    seq![
        Tone::Professional,
        Tone::Casual,
        Tone::Technical,
        Tone::Creative,
        Tone::Instructional,
        Tone::Analytical,
        Tone::Interrogative,
        Tone::Urgent,
    ]
}

/// All categories, in declaration order.
pub fn all_tones() -> (v: Vec<Tone>)
    ensures
        v@ == spec_all_tones(),
{
    let mut v: Vec<Tone> = Vec::new();
    v.push(Tone::Professional);
    v.push(Tone::Casual);
    v.push(Tone::Technical);
    v.push(Tone::Creative);
    v.push(Tone::Instructional);
    v.push(Tone::Analytical);
    v.push(Tone::Interrogative);
    v.push(Tone::Urgent);
    proof {
        assert(v@ =~= spec_all_tones());
    }
    v
}

/// The label under which a category is reported.
pub open spec fn spec_label(t: Tone) -> Seq<char> {
    match t {
        Tone::Professional => "professional"@,
        Tone::Casual => "casual"@,
        Tone::Technical => "technical"@,
        Tone::Creative => "creative"@,
        Tone::Instructional => "instructional"@,
        Tone::Analytical => "analytical"@,
        Tone::Interrogative => "interrogative"@,
        Tone::Urgent => "urgent"@,
    }
}

/// The label under which a category is reported.
pub fn label_str(t: Tone) -> (s: &'static str)
    ensures
        s@ == spec_label(t),
{
    match t {
        Tone::Professional => "professional",
        Tone::Casual => "casual",
        Tone::Technical => "technical",
        Tone::Creative => "creative",
        Tone::Instructional => "instructional",
        Tone::Analytical => "analytical",
        Tone::Interrogative => "interrogative",
        Tone::Urgent => "urgent",
    }
}

/// The trigger words of a category.
///
/// A word counts when it occurs anywhere in the lowercased text, as a
/// substring. The interrogative category triggers on a question mark in the
/// text instead and so has no word list.
pub open spec fn spec_keywords(t: Tone) -> Seq<Seq<char>> {
    match t {
        Tone::Professional => seq![
            "please"@,
            "kindly"@,
            "regarding"@,
            "therefore"@,
            "furthermore"@,
            "accordingly"@,
            "pursuant"@,
            "hereby"@,
            "whereas"@,
            "respectively"@,
            "sincerely"@,
            "cordially"@,
            "shall"@,
            "ought"@,
            "endeavor"@,
        ],
        Tone::Casual => seq![
            "hey"@,
            "hi"@,
            "yeah"@,
            "yep"@,
            "nope"@,
            "gonna"@,
            "wanna"@,
            "cool"@,
            "awesome"@,
            "stuff"@,
            "things"@,
            "ok"@,
            "okay"@,
            "thanks"@,
            "btw"@,
            "fyi"@,
            "lol"@,
            "omg"@,
        ],
        Tone::Technical => seq![
            "implement"@,
            "algorithm"@,
            "function"@,
            "parameter"@,
            "variable"@,
            "database"@,
            "api"@,
            "framework"@,
            "debug"@,
            "compile"@,
            "execute"@,
            "optimize"@,
            "refactor"@,
            "deploy"@,
            "architecture"@,
            "interface"@,
            "repository"@,
            "documentation"@,
            "configuration"@,
            "integration"@,
        ],
        Tone::Creative => seq![
            "imagine"@,
            "create"@,
            "design"@,
            "invent"@,
            "inspire"@,
            "dream"@,
            "vision"@,
            "artistic"@,
            "unique"@,
            "original"@,
            "innovative"@,
            "brainstorm"@,
            "explore"@,
            "discover"@,
            "transform"@,
        ],
        Tone::Instructional => seq![
            "explain"@,
            "describe"@,
            "teach"@,
            "show"@,
            "demonstrate"@,
            "guide"@,
            "help"@,
            "assist"@,
            "clarify"@,
            "elaborate"@,
            "step"@,
            "first"@,
            "next"@,
            "then"@,
            "finally"@,
            "how to"@,
        ],
        Tone::Analytical => seq![
            "analyze"@,
            "compare"@,
            "contrast"@,
            "evaluate"@,
            "assess"@,
            "examine"@,
            "investigate"@,
            "research"@,
            "study"@,
            "consider"@,
            "review"@,
            "critique"@,
            "measure"@,
            "calculate"@,
            "determine"@,
        ],
        Tone::Interrogative => Seq::<Seq<char>>::empty(),
        Tone::Urgent => seq![
            "urgent"@,
            "asap"@,
            "immediately"@,
            "now"@,
            "quickly"@,
            "hurry"@,
        ],
    }
}

/// How many trigger words a category has.
pub fn keyword_count(t: Tone) -> (n: usize)
    ensures
        n == spec_keywords(t).len(),
{
    match t {
        Tone::Professional => 15,
        Tone::Casual => 18,
        Tone::Technical => 20,
        Tone::Creative => 15,
        Tone::Instructional => 16,
        Tone::Analytical => 15,
        Tone::Interrogative => 0,
        Tone::Urgent => 6,
    }
}

/// The trigger word of a category at position `i` of its word list.
pub fn keyword_at(t: Tone, i: usize) -> (s: &'static str)
    requires
        i < spec_keywords(t).len(),
    ensures
        s@ == spec_keywords(t)[i as int],
{
    match t {
        Tone::Professional => match i {
            0 => "please",
            1 => "kindly",
            2 => "regarding",
            3 => "therefore",
            4 => "furthermore",
            5 => "accordingly",
            6 => "pursuant",
            7 => "hereby",
            8 => "whereas",
            9 => "respectively",
            10 => "sincerely",
            11 => "cordially",
            12 => "shall",
            13 => "ought",
            _ => "endeavor",
        },
        Tone::Casual => match i {
            0 => "hey",
            1 => "hi",
            2 => "yeah",
            3 => "yep",
            4 => "nope",
            5 => "gonna",
            6 => "wanna",
            7 => "cool",
            8 => "awesome",
            9 => "stuff",
            10 => "things",
            11 => "ok",
            12 => "okay",
            13 => "thanks",
            14 => "btw",
            15 => "fyi",
            16 => "lol",
            _ => "omg",
        },
        Tone::Technical => match i {
            0 => "implement",
            1 => "algorithm",
            2 => "function",
            3 => "parameter",
            4 => "variable",
            5 => "database",
            6 => "api",
            7 => "framework",
            8 => "debug",
            9 => "compile",
            10 => "execute",
            11 => "optimize",
            12 => "refactor",
            13 => "deploy",
            14 => "architecture",
            15 => "interface",
            16 => "repository",
            17 => "documentation",
            18 => "configuration",
            _ => "integration",
        },
        Tone::Creative => match i {
            0 => "imagine",
            1 => "create",
            2 => "design",
            3 => "invent",
            4 => "inspire",
            5 => "dream",
            6 => "vision",
            7 => "artistic",
            8 => "unique",
            9 => "original",
            10 => "innovative",
            11 => "brainstorm",
            12 => "explore",
            13 => "discover",
            _ => "transform",
        },
        Tone::Instructional => match i {
            0 => "explain",
            1 => "describe",
            2 => "teach",
            3 => "show",
            4 => "demonstrate",
            5 => "guide",
            6 => "help",
            7 => "assist",
            8 => "clarify",
            9 => "elaborate",
            10 => "step",
            11 => "first",
            12 => "next",
            13 => "then",
            14 => "finally",
            _ => "how to",
        },
        Tone::Analytical => match i {
            0 => "analyze",
            1 => "compare",
            2 => "contrast",
            3 => "evaluate",
            4 => "assess",
            5 => "examine",
            6 => "investigate",
            7 => "research",
            8 => "study",
            9 => "consider",
            10 => "review",
            11 => "critique",
            12 => "measure",
            13 => "calculate",
            _ => "determine",
        },
        Tone::Interrogative => "",
        Tone::Urgent => match i {
            0 => "urgent",
            1 => "asap",
            2 => "immediately",
            3 => "now",
            4 => "quickly",
            _ => "hurry",
        },
    }
}

/// The declaration list holds every category exactly once.
pub proof fn lemma_all_tones_distinct()
    ensures
        spec_all_tones().no_duplicates(),
        forall|t: Tone| spec_all_tones().contains(t),
{
    assert forall|t: Tone| spec_all_tones().contains(t) by {
        assert(spec_all_tones()[decl_index(t)] == t);
    }
}

/// Distinct categories carry distinct labels.
pub proof fn lemma_label_injective(a: Tone, b: Tone)
    requires
        a != b,
    ensures
        spec_label(a) != spec_label(b),
{
    reveal_strlit("professional");
    reveal_strlit("casual");
    reveal_strlit("technical");
    reveal_strlit("creative");
    reveal_strlit("instructional");
    reveal_strlit("analytical");
    reveal_strlit("interrogative");
    reveal_strlit("urgent");
    assert(spec_label(Tone::Professional)[0] == 'p');
    assert(spec_label(Tone::Casual)[0] == 'c');
    assert(spec_label(Tone::Technical)[0] == 't');
    assert(spec_label(Tone::Creative)[0] == 'c');
    assert(spec_label(Tone::Instructional)[0] == 'i');
    assert(spec_label(Tone::Analytical)[0] == 'a');
    assert(spec_label(Tone::Interrogative)[0] == 'i');
    assert(spec_label(Tone::Urgent)[0] == 'u');
    assert(spec_label(Tone::Casual)[1] == 'a');
    assert(spec_label(Tone::Creative)[1] == 'r');
    assert(spec_label(Tone::Instructional)[2] == 's');
    assert(spec_label(Tone::Interrogative)[2] == 't');
}

/// Every trigger word of every category is a nonempty word.
pub proof fn lemma_keywords_nonempty(t: Tone)
    ensures
        forall|i: int| 0 <= i < spec_keywords(t).len() ==> spec_keywords(t)[i].len() > 0,
{
    match t {
        Tone::Professional => {
            reveal_strlit("please");
            reveal_strlit("kindly");
            reveal_strlit("regarding");
            reveal_strlit("therefore");
            reveal_strlit("furthermore");
            reveal_strlit("accordingly");
            reveal_strlit("pursuant");
            reveal_strlit("hereby");
            reveal_strlit("whereas");
            reveal_strlit("respectively");
            reveal_strlit("sincerely");
            reveal_strlit("cordially");
            reveal_strlit("shall");
            reveal_strlit("ought");
            reveal_strlit("endeavor");
        },
        Tone::Casual => {
            reveal_strlit("hey");
            reveal_strlit("hi");
            reveal_strlit("yeah");
            reveal_strlit("yep");
            reveal_strlit("nope");
            reveal_strlit("gonna");
            reveal_strlit("wanna");
            reveal_strlit("cool");
            reveal_strlit("awesome");
            reveal_strlit("stuff");
            reveal_strlit("things");
            reveal_strlit("ok");
            reveal_strlit("okay");
            reveal_strlit("thanks");
            reveal_strlit("btw");
            reveal_strlit("fyi");
            reveal_strlit("lol");
            reveal_strlit("omg");
        },
        Tone::Technical => {
            reveal_strlit("implement");
            reveal_strlit("algorithm");
            reveal_strlit("function");
            reveal_strlit("parameter");
            reveal_strlit("variable");
            reveal_strlit("database");
            reveal_strlit("api");
            reveal_strlit("framework");
            reveal_strlit("debug");
            reveal_strlit("compile");
            reveal_strlit("execute");
            reveal_strlit("optimize");
            reveal_strlit("refactor");
            reveal_strlit("deploy");
            reveal_strlit("architecture");
            reveal_strlit("interface");
            reveal_strlit("repository");
            reveal_strlit("documentation");
            reveal_strlit("configuration");
            reveal_strlit("integration");
        },
        Tone::Creative => {
            reveal_strlit("imagine");
            reveal_strlit("create");
            reveal_strlit("design");
            reveal_strlit("invent");
            reveal_strlit("inspire");
            reveal_strlit("dream");
            reveal_strlit("vision");
            reveal_strlit("artistic");
            reveal_strlit("unique");
            reveal_strlit("original");
            reveal_strlit("innovative");
            reveal_strlit("brainstorm");
            reveal_strlit("explore");
            reveal_strlit("discover");
            reveal_strlit("transform");
        },
        Tone::Instructional => {
            reveal_strlit("explain");
            reveal_strlit("describe");
            reveal_strlit("teach");
            reveal_strlit("show");
            reveal_strlit("demonstrate");
            reveal_strlit("guide");
            reveal_strlit("help");
            reveal_strlit("assist");
            reveal_strlit("clarify");
            reveal_strlit("elaborate");
            reveal_strlit("step");
            reveal_strlit("first");
            reveal_strlit("next");
            reveal_strlit("then");
            reveal_strlit("finally");
            reveal_strlit("how to");
        },
        Tone::Analytical => {
            reveal_strlit("analyze");
            reveal_strlit("compare");
            reveal_strlit("contrast");
            reveal_strlit("evaluate");
            reveal_strlit("assess");
            reveal_strlit("examine");
            reveal_strlit("investigate");
            reveal_strlit("research");
            reveal_strlit("study");
            reveal_strlit("consider");
            reveal_strlit("review");
            reveal_strlit("critique");
            reveal_strlit("measure");
            reveal_strlit("calculate");
            reveal_strlit("determine");
        },
        Tone::Interrogative => {
        },
        Tone::Urgent => {
            reveal_strlit("urgent");
            reveal_strlit("asap");
            reveal_strlit("immediately");
            reveal_strlit("now");
            reveal_strlit("quickly");
            reveal_strlit("hurry");
        },
    }
}

} // verus!
